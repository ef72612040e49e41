//! The dynamically typed document tree that configuration layers are made of.

use vstd::prelude::*;

verus! {

/// A parsed configuration document: a recursive, tagged tree value.
///
/// An `Obj` is a mapping from string keys to values that preserves insertion
/// order; an `Arr` is an ordered sequence. A `Float` carries the IEEE-754 bit
/// pattern of a 64-bit floating-point scalar, so that equality and the merge
/// type guard stay well-defined for every variant.
#[derive(Debug)]
pub enum Value {
    Null,
    Bool(bool),
    Int(i64),
    Float(u64),
    Str(String),
    Arr(Vec<Value>),
    Obj(Vec<(String, Value)>),
}

/// The mathematical model of a [`Value`]: strings become sequences of
/// characters, vectors become sequences. Contracts in this crate are stated
/// over this type.
#[verifier::ext_equal]
pub enum TreeV {
    Null,
    Bool(bool),
    Int(i64),
    Float(u64),
    Str(Seq<char>),
    Arr(Seq<TreeV>),
    Obj(Seq<(Seq<char>, TreeV)>),
}

/// Model of the array elements `xs[i..]`.
pub open spec fn arr_view_from(xs: Seq<Value>, i: int) -> Seq<TreeV>
    decreases xs, xs.len() - i,
{
    if i < 0 || i >= xs.len() {
        Seq::empty()
    } else {
        seq![value_view(xs[i])] + arr_view_from(xs, i + 1)
    }
}

/// Model of the object entries `es[i..]`.
pub open spec fn obj_view_from(es: Seq<(String, Value)>, i: int) -> Seq<(Seq<char>, TreeV)>
    decreases es, es.len() - i,
{
    if i < 0 || i >= es.len() {
        Seq::empty()
    } else {
        seq![(es[i].0@, value_view(es[i].1))] + obj_view_from(es, i + 1)
    }
}

/// Model of a whole value.
pub open spec fn value_view(v: Value) -> TreeV
    decreases v, 0int,
{
    match v {
        Value::Null => TreeV::Null,
        Value::Bool(b) => TreeV::Bool(b),
        Value::Int(i) => TreeV::Int(i),
        Value::Float(bits) => TreeV::Float(bits),
        Value::Str(s) => TreeV::Str(s@),
        Value::Arr(xs) => TreeV::Arr(arr_view_from(xs@, 0)),
        Value::Obj(es) => TreeV::Obj(obj_view_from(es@, 0)),
    }
}

impl View for Value {
    type V = TreeV;

    open spec fn view(&self) -> TreeV {
        value_view(*self)
    }
}

/// The variant tag of a tree value; the merge type guard compares these.
pub enum Kind {
    Null,
    Bool,
    Int,
    Float,
    Str,
    Arr,
    Obj,
}

/// The variant tag of a model value.
pub open spec fn kind(t: TreeV) -> Kind {
    match t {
        TreeV::Null => Kind::Null,
        TreeV::Bool(_) => Kind::Bool,
        TreeV::Int(_) => Kind::Int,
        TreeV::Float(_) => Kind::Float,
        TreeV::Str(_) => Kind::Str,
        TreeV::Arr(_) => Kind::Arr,
        TreeV::Obj(_) => Kind::Obj,
    }
}

/// How `arr_view_from` relates to the single elements: it has one model entry,
/// in order, for each element of `xs[i..]`.
pub broadcast proof fn lemma_arr_view_from(xs: Seq<Value>, i: int)
    requires
        0 <= i <= xs.len(),
    ensures
        (#[trigger] arr_view_from(xs, i)).len() == xs.len() - i,
        forall|j: int|
            0 <= j < xs.len() - i ==> #[trigger] arr_view_from(xs, i)[j] == value_view(
                xs[i + j],
            ),
    decreases xs.len() - i,
{
    if i < xs.len() {
        lemma_arr_view_from(xs, i + 1);
    }
}

/// How `obj_view_from` relates to the single entries: it has one model entry,
/// in order, for each entry of `es[i..]`, pairing the key's characters with
/// the value's model.
pub broadcast proof fn lemma_obj_view_from(es: Seq<(String, Value)>, i: int)
    requires
        0 <= i <= es.len(),
    ensures
        (#[trigger] obj_view_from(es, i)).len() == es.len() - i,
        forall|j: int|
            0 <= j < es.len() - i ==> #[trigger] obj_view_from(es, i)[j] == (
                es[i + j].0@,
                value_view(es[i + j].1),
            ),
    decreases es.len() - i,
{
    if i < es.len() {
        lemma_obj_view_from(es, i + 1);
    }
}

/// Appending an element appends its model.
pub proof fn lemma_arr_view_push(xs: Seq<Value>, v: Value)
    ensures
        arr_view_from(xs.push(v), 0) == arr_view_from(xs, 0).push(value_view(v)),
{
    lemma_arr_view_from(xs, 0);
    lemma_arr_view_from(xs.push(v), 0);
    assert(arr_view_from(xs.push(v), 0) =~= arr_view_from(xs, 0).push(value_view(v)));
}

/// Appending an entry appends its model.
pub proof fn lemma_obj_view_push(es: Seq<(String, Value)>, e: (String, Value))
    ensures
        obj_view_from(es.push(e), 0) == obj_view_from(es, 0).push((e.0@, value_view(e.1))),
{
    lemma_obj_view_from(es, 0);
    lemma_obj_view_from(es.push(e), 0);
    assert(obj_view_from(es.push(e), 0) =~= obj_view_from(es, 0).push((e.0@, value_view(e.1))));
}

/// Replacing an entry replaces its model.
pub proof fn lemma_obj_view_update(es: Seq<(String, Value)>, i: int, e: (String, Value))
    requires
        0 <= i < es.len(),
    ensures
        obj_view_from(es.update(i, e), 0) == obj_view_from(es, 0).update(
            i,
            (e.0@, value_view(e.1)),
        ),
{
    lemma_obj_view_from(es, 0);
    lemma_obj_view_from(es.update(i, e), 0);
    assert(obj_view_from(es.update(i, e), 0) =~= obj_view_from(es, 0).update(
        i,
        (e.0@, value_view(e.1)),
    ));
}

impl Value {
    /// Structural equality of whole trees; the merge engine uses it to
    /// de-duplicate array elements.
    #[verifier::loop_isolation(false)]
    pub fn deep_eq(&self, other: &Value) -> (r: bool)
        ensures
            r == (self@ == other@),
        decreases *self,
    {
        broadcast use {lemma_arr_view_from, lemma_obj_view_from};

        match (self, other) {
            (Value::Null, Value::Null) => true,
            (Value::Bool(a), Value::Bool(b)) => *a == *b,
            (Value::Int(a), Value::Int(b)) => *a == *b,
            (Value::Float(a), Value::Float(b)) => *a == *b,
            (Value::Str(a), Value::Str(b)) => *a == *b,
            (Value::Arr(xs), Value::Arr(ys)) => {
                if xs.len() != ys.len() {
                    proof {
                        lemma_arr_view_from(xs@, 0);
                        lemma_arr_view_from(ys@, 0);
                    }
                    return false;
                }
                let mut i: usize = 0;
                while i < xs.len()
                    invariant
                        0 <= i <= xs@.len(),
                        xs@.len() == ys@.len(),
                        self@ == TreeV::Arr(arr_view_from(xs@, 0)),
                        other@ == TreeV::Arr(arr_view_from(ys@, 0)),
                        forall|j: int| 0 <= j < i ==> value_view(xs@[j]) == value_view(ys@[j]),
                    decreases xs@.len() - i,
                {
                    if !xs[i].deep_eq(&ys[i]) {
                        proof {
                            assert(arr_view_from(xs@, 0)[i as int] != arr_view_from(ys@, 0)[i as int]);
                        }
                        return false;
                    }
                    i += 1;
                }
                proof {
                    assert(arr_view_from(xs@, 0) =~= arr_view_from(ys@, 0));
                }
                true
            },
            (Value::Obj(aes), Value::Obj(bes)) => {
                if aes.len() != bes.len() {
                    proof {
                        lemma_obj_view_from(aes@, 0);
                        lemma_obj_view_from(bes@, 0);
                    }
                    return false;
                }
                let mut i: usize = 0;
                while i < aes.len()
                    invariant
                        0 <= i <= aes@.len(),
                        aes@.len() == bes@.len(),
                        self@ == TreeV::Obj(obj_view_from(aes@, 0)),
                        other@ == TreeV::Obj(obj_view_from(bes@, 0)),
                        forall|j: int|
                            0 <= j < i ==> aes@[j].0@ == bes@[j].0@ && value_view(aes@[j].1)
                                == value_view(bes@[j].1),
                    decreases aes@.len() - i,
                {
                    if !(aes[i].0 == bes[i].0) {
                        proof {
                            assert(obj_view_from(aes@, 0)[i as int] != obj_view_from(bes@, 0)[i as int]);
                        }
                        return false;
                    }
                    if !aes[i].1.deep_eq(&bes[i].1) {
                        proof {
                            assert(obj_view_from(aes@, 0)[i as int] != obj_view_from(bes@, 0)[i as int]);
                        }
                        return false;
                    }
                    i += 1;
                }
                proof {
                    assert(obj_view_from(aes@, 0) =~= obj_view_from(bes@, 0));
                }
                true
            },
            _ => {
                proof {
                    assert(kind(self@) != kind(other@));
                }
                false
            },
        }
    }

    /// An independent copy of the tree with the same model.
    #[verifier::loop_isolation(false)]
    pub fn deep_clone(&self) -> (r: Value)
        ensures
            r@ == self@,
        decreases *self,
    {
        broadcast use {lemma_arr_view_from, lemma_obj_view_from};

        match self {
            Value::Null => Value::Null,
            Value::Bool(b) => Value::Bool(*b),
            Value::Int(i) => Value::Int(*i),
            Value::Float(bits) => Value::Float(*bits),
            Value::Str(s) => Value::Str(s.clone()),
            Value::Arr(xs) => {
                let mut out: Vec<Value> = Vec::new();
                let mut i: usize = 0;
                while i < xs.len()
                    invariant
                        0 <= i <= xs@.len(),
                        out@.len() == i,
                        self@ == TreeV::Arr(arr_view_from(xs@, 0)),
                        forall|j: int| 0 <= j < i ==> value_view(out@[j]) == value_view(xs@[j]),
                    decreases xs@.len() - i,
                {
                    let e = xs[i].deep_clone();
                    out.push(e);
                    i += 1;
                }
                proof {
                    assert(arr_view_from(out@, 0) =~= arr_view_from(xs@, 0));
                }
                Value::Arr(out)
            },
            Value::Obj(es) => {
                let mut out: Vec<(String, Value)> = Vec::new();
                let mut i: usize = 0;
                while i < es.len()
                    invariant
                        0 <= i <= es@.len(),
                        out@.len() == i,
                        self@ == TreeV::Obj(obj_view_from(es@, 0)),
                        forall|j: int|
                            0 <= j < i ==> out@[j].0@ == es@[j].0@ && value_view(out@[j].1)
                                == value_view(es@[j].1),
                    decreases es@.len() - i,
                {
                    let k = es[i].0.clone();
                    let v = es[i].1.deep_clone();
                    out.push((k, v));
                    i += 1;
                }
                proof {
                    assert(obj_view_from(out@, 0) =~= obj_view_from(es@, 0));
                }
                Value::Obj(out)
            },
        }
    }

    /// Whether `self` and `other` carry the same variant tag.
    pub fn same_variant(&self, other: &Value) -> (r: bool)
        ensures
            r == (kind(self@) == kind(other@)),
    {
        match (self, other) {
            (Value::Null, Value::Null) => true,
            (Value::Bool(_), Value::Bool(_)) => true,
            (Value::Int(_), Value::Int(_)) => true,
            (Value::Float(_), Value::Float(_)) => true,
            (Value::Str(_), Value::Str(_)) => true,
            (Value::Arr(_), Value::Arr(_)) => true,
            (Value::Obj(_), Value::Obj(_)) => true,
            _ => false,
        }
    }
}

impl Clone for Value {
    /// A deep copy with the same model.
    fn clone(&self) -> (r: Value)
        ensures
            r@ == self@,
    {
        self.deep_clone()
    }
}

impl PartialEq for Value {
    fn eq(&self, other: &Value) -> (r: bool) {
        self.deep_eq(other)
    }
}

impl Eq for Value {

}

impl vstd::std_specs::cmp::PartialEqSpecImpl for Value {
    open spec fn obeys_eq_spec() -> bool {
        true
    }

    open spec fn eq_spec(&self, other: &Value) -> bool {
        self@ == other@
    }
}

} // verus!
