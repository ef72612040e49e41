//! The recursive, type-guarded deep merge over two tree values.
//!
//! The right-hand operand overrides the left. A `Null` on the right is a
//! no-op (values can never be unset through merge); scalars are replaced
//! wholesale; arrays append the incoming elements that are not already
//! present; objects merge recursively, key by key.

use crate::error::EkkeCfgError;
use crate::value::{
    arr_view_from, kind, lemma_arr_view_from, lemma_arr_view_push, lemma_obj_view_from,
    lemma_obj_view_push, lemma_obj_view_update, obj_view_from, value_view, TreeV, Value,
};
use vstd::pervasive::unreached;
use vstd::prelude::*;

verus! {

/// A key/value entry of an object, as modelled in contracts.
pub type EntryV = (Seq<char>, TreeV);

/// What merging two model values produces: either the merged value, or a
/// failure that says what the tree looks like after the partial merge
/// (siblings processed before the failing key keep their merged value) and
/// snapshots the two clashing operands.
pub enum MergeOut {
    Done(TreeV),
    Fail { post: TreeV, existing: TreeV, incoming: TreeV },
}

/// The object analogue of [`MergeOut`], over entry sequences.
pub enum ObjOut {
    Done(Seq<EntryV>),
    Fail { post: Seq<EntryV>, existing: TreeV, incoming: TreeV },
}

/// Index of the first entry of `es[i..]` whose key is `k`.
pub open spec fn spec_find_key_from(es: Seq<EntryV>, k: Seq<char>, i: int) -> Option<int>
    decreases es.len() - i,
{
    if i < 0 || i >= es.len() {
        None
    } else if es[i].0 == k {
        Some(i)
    } else {
        spec_find_key_from(es, k, i + 1)
    }
}

/// Index of the first entry of `es` whose key is `k`.
pub open spec fn spec_find_key(es: Seq<EntryV>, k: Seq<char>) -> Option<int> {
    spec_find_key_from(es, k, 0)
}

/// What `spec_find_key_from` finds: the first matching index at or past `i`,
/// or nothing when no key of `es[i..]` is `k`.
pub broadcast proof fn lemma_find_key_from(es: Seq<EntryV>, k: Seq<char>, i: int)
    requires
        0 <= i <= es.len(),
    ensures
        match #[trigger] spec_find_key_from(es, k, i) {
            Some(j) => i <= j < es.len() && es[j].0 == k && forall|m: int|
                i <= m < j ==> #[trigger] es[m].0 != k,
            None => forall|m: int| i <= m < es.len() ==> #[trigger] es[m].0 != k,
        },
    decreases es.len() - i,
{
    if i < es.len() && es[i].0 != k {
        lemma_find_key_from(es, k, i + 1);
    }
}

/// Append-unique merge of the array elements `ys[i..]` into `xs`: each
/// element of `ys`, in order, is appended unless already present.
pub open spec fn spec_merge_arr_from(xs: Seq<TreeV>, ys: Seq<TreeV>, i: int) -> Seq<TreeV>
    decreases ys.len() - i,
{
    if i < 0 || i >= ys.len() {
        xs
    } else {
        let xs2 = if xs.contains(ys[i]) {
            xs
        } else {
            xs.push(ys[i])
        };
        spec_merge_arr_from(xs2, ys, i + 1)
    }
}

/// Key-by-key merge of the object entries `ys[i..]` into `xs`: an incoming
/// entry whose key is present merges recursively into that entry; a fresh
/// key is appended. The first failure stops the walk.
pub open spec fn spec_merge_obj_from(xs: Seq<EntryV>, ys: Seq<EntryV>, i: int) -> ObjOut
    decreases ys, ys.len() - i,
{
    if i < 0 || i >= ys.len() {
        ObjOut::Done(xs)
    } else {
        let k = ys[i].0;
        let v = ys[i].1;
        match spec_find_key(xs, k) {
            Some(j) => match spec_merge(xs[j].1, v) {
                MergeOut::Done(m) => spec_merge_obj_from(xs.update(j, (k, m)), ys, i + 1),
                MergeOut::Fail { post, existing, incoming } => ObjOut::Fail {
                    post: xs.update(j, (k, post)),
                    existing,
                    incoming,
                },
            },
            None => spec_merge_obj_from(xs.push((k, v)), ys, i + 1),
        }
    }
}

/// The merge of model value `b` into model value `a`.
///
/// A `Null` incoming value never fails and never changes `a`; otherwise the
/// variant tags must agree or the merge fails with snapshots of both
/// operands. Scalars are replaced by `b`, arrays append-unique, objects
/// recurse key by key.
pub open spec fn spec_merge(a: TreeV, b: TreeV) -> MergeOut
    decreases b, 0int,
{
    if b is Null {
        MergeOut::Done(a)
    } else if kind(a) != kind(b) {
        MergeOut::Fail { post: a, existing: a, incoming: b }
    } else {
        match b {
            TreeV::Arr(ys) => MergeOut::Done(TreeV::Arr(spec_merge_arr_from(a->Arr_0, ys, 0))),
            TreeV::Obj(ys) => match spec_merge_obj_from(a->Obj_0, ys, 0) {
                ObjOut::Done(es) => MergeOut::Done(TreeV::Obj(es)),
                ObjOut::Fail { post, existing, incoming } => MergeOut::Fail {
                    post: TreeV::Obj(post),
                    existing,
                    incoming,
                },
            },
            _ => MergeOut::Done(b),
        }
    }
}

/// Whether some element of `xs` equals `v`.
fn arr_contains(xs: &Vec<Value>, v: &Value) -> (r: bool)
    ensures
        r == arr_view_from(xs@, 0).contains(v@),
{
    proof {
        lemma_arr_view_from(xs@, 0);
    }
    let ghost vs = arr_view_from(xs@, 0);
    let mut i: usize = 0;
    while i < xs.len()
        invariant
            0 <= i <= xs@.len(),
            vs == arr_view_from(xs@, 0),
            vs.len() == xs@.len(),
            forall|j: int| 0 <= j < i ==> #[trigger] vs[j] != v@,
        decreases xs@.len() - i,
    {
        if xs[i].deep_eq(v) {
            proof {
                lemma_arr_view_from(xs@, 0);
                assert(vs[i as int] == value_view(xs@[i as int]));
            }
            return true;
        }
        proof {
            lemma_arr_view_from(xs@, 0);
            assert(vs[i as int] == value_view(xs@[i as int]));
        }
        i += 1;
    }
    proof {
        assert(forall|j: int| 0 <= j < vs.len() ==> #[trigger] vs[j] != v@);
        if vs.contains(v@) {
            let j = choose|j: int| 0 <= j < vs.len() && vs[j] == v@;
            assert(vs[j] != v@);
        }
    }
    false
}

/// Index of the first entry of `es` whose key is `k`, if any.
pub(crate) fn find_key(es: &Vec<(String, Value)>, k: &String) -> (r: Option<usize>)
    ensures
        match r {
            Some(idx) => idx < es@.len() && spec_find_key(obj_view_from(es@, 0), k@) == Some(
                idx as int,
            ),
            None => spec_find_key(obj_view_from(es@, 0), k@) is None,
        },
{
    proof {
        lemma_obj_view_from(es@, 0);
    }
    let ghost evs = obj_view_from(es@, 0);
    let mut i: usize = 0;
    while i < es.len()
        invariant
            0 <= i <= es@.len(),
            evs == obj_view_from(es@, 0),
            evs.len() == es@.len(),
            spec_find_key_from(evs, k@, 0) == spec_find_key_from(evs, k@, i as int),
        decreases es@.len() - i,
    {
        proof {
            lemma_obj_view_from(es@, 0);
            assert(evs[i as int] == (es@[i as int].0@, value_view(es@[i as int].1)));
        }
        if es[i].0 == *k {
            return Some(i);
        }
        i += 1;
    }
    None
}

/// What a finished merge guarantees: on success the left-hand value became
/// the merged tree; on failure it became the partially merged tree and the
/// error snapshots the two clashing operands.
pub open spec fn merge_post(
    pre: TreeV,
    incoming: TreeV,
    post: TreeV,
    r: Result<(), EkkeCfgError>,
) -> bool {
    match spec_merge(pre, incoming) {
        MergeOut::Done(m) => r is Ok && post == m,
        MergeOut::Fail { post: p, existing, incoming: inc } => post == p && match r {
            Ok(_) => false,
            Err(e) => match e {
                EkkeCfgError::MergeWrongType(x, y) => x@ == existing && y@ == inc,
                _ => false,
            },
        },
    }
}

/// Deep merge of `other` into `self`; `other` is consumed.
pub trait Merge: Sized {
    fn merge(&mut self, other: Self) -> Result<(), EkkeCfgError>;
}

/// Append-unique merge of the elements of `other` into `self`: each
/// incoming element, in order, is appended unless an equal element is
/// already present. Never fails.
impl Merge for Vec<Value> {
    #[verifier::loop_isolation(false)]
    fn merge(&mut self, other: Vec<Value>) -> (r: Result<(), EkkeCfgError>)
        ensures
            r is Ok,
            arr_view_from(final(self)@, 0) == spec_merge_arr_from(
                arr_view_from(old(self)@, 0),
                arr_view_from(other@, 0),
                0,
            ),
    {
        let ghost xs0 = arr_view_from(old(self)@, 0);
        let ghost ys_entry = other@;
        let ghost ysv = arr_view_from(ys_entry, 0);
        proof {
            lemma_arr_view_from(ys_entry, 0);
        }
        let mut ys = other;
        let mut j: usize = 0;
        while j < ys.len()
            invariant
                j <= ys@.len(),
                ys@.len() == ys_entry.len(),
                forall|m: int| j <= m < ys@.len() ==> ys@[m] == ys_entry[m],
                spec_merge_arr_from(arr_view_from(self@, 0), ysv, j as int)
                    == spec_merge_arr_from(xs0, ysv, 0),
            decreases ys@.len() - j,
        {
            let ghost cur = arr_view_from(self@, 0);
            proof {
                lemma_arr_view_from(ys_entry, 0);
                assert(ysv[j as int] == value_view(ys_entry[j as int]));
            }
            let present = arr_contains(self, &ys[j]);
            if !present {
                let mut tmp = Value::Null;
                core::mem::swap(&mut ys[j], &mut tmp);
                let ghost xs_before = self@;
                self.push(tmp);
                proof {
                    lemma_arr_view_push(xs_before, tmp);
                }
            }
            j += 1;
            proof {
                assert(arr_view_from(self@, 0) == if cur.contains(ysv[j - 1]) {
                    cur
                } else {
                    cur.push(ysv[j - 1])
                });
            }
        }
        Ok(())
    }
}

/// Key-by-key merge of the entries of `other` into `self`: an incoming
/// entry whose key is present merges recursively into that entry; a fresh
/// key is appended. The first clash stops the walk, leaving the entries
/// already processed merged.
impl Merge for Vec<(String, Value)> {
    #[verifier::loop_isolation(false)]
    fn merge(&mut self, other: Vec<(String, Value)>) -> (r: Result<(), EkkeCfgError>)
        ensures
            match spec_merge_obj_from(obj_view_from(old(self)@, 0), obj_view_from(other@, 0), 0) {
                ObjOut::Done(es) => r is Ok && obj_view_from(final(self)@, 0) == es,
                ObjOut::Fail { post, existing, incoming } => obj_view_from(final(self)@, 0) == post
                    && match r {
                    Err(EkkeCfgError::MergeWrongType(x, y)) => x@ == existing && y@ == incoming,
                    _ => false,
                },
            },
        decreases other, 1int,
    {
        let ghost inc = other;
        let ghost a_es = obj_view_from(old(self)@, 0);
        let ghost ys_entry = other@;
        let ghost ysv = obj_view_from(ys_entry, 0);
        let mut ys = other;
        let mut j: usize = 0;
        while j < ys.len()
            invariant
                j <= ys@.len(),
                ys@.len() == ys_entry.len(),
                forall|m: int| j <= m < ys@.len() ==> ys@[m] == ys_entry[m],
                spec_merge_obj_from(obj_view_from(self@, 0), ysv, j as int)
                    == spec_merge_obj_from(a_es, ysv, 0),
            decreases ys@.len() - j,
        {
            let ghost cur = obj_view_from(self@, 0);
            proof {
                lemma_obj_view_from(ys_entry, 0);
                assert(ysv[j as int] == (
                    ys_entry[j as int].0@,
                    value_view(ys_entry[j as int].1),
                ));
            }
            let found = find_key(self, &ys[j].0);
            match found {
                Some(idx) => {
                    let mut v = Value::Null;
                    core::mem::swap(&mut ys[j].1, &mut v);
                    proof {
                        assert(v == ys_entry[j as int].1);
                        assert(decreases_to!(inc => v));
                        lemma_find_key_from(cur, ysv[j as int].0, 0);
                        lemma_obj_view_from(self@, 0);
                    }
                    let ghost entry_pre = self@[idx as int];
                    let ghost xs_before = self@;
                    let e = &mut self[idx];
                    let res = e.1.merge(v);
                    proof {
                        let m_entry = self@[idx as int];
                        assert(self@ == xs_before.update(idx as int, m_entry));
                        assert(m_entry.0 == entry_pre.0);
                        assert(cur[idx as int] == (entry_pre.0@, value_view(entry_pre.1)));
                        assert(cur[idx as int].0 == ysv[j as int].0);
                        lemma_obj_view_update(xs_before, idx as int, m_entry);
                        assert(obj_view_from(self@, 0) =~= cur.update(
                            idx as int,
                            (ysv[j as int].0, value_view(m_entry.1)),
                        ));
                    }
                    match res {
                        Ok(()) => {},
                        Err(e2) => {
                            proof {
                                assert(spec_merge_obj_from(a_es, ysv, 0) == spec_merge_obj_from(
                                    cur,
                                    ysv,
                                    j as int,
                                ));
                            }
                            return Err(e2);
                        },
                    }
                },
                None => {
                    let mut entry = (String::new(), Value::Null);
                    core::mem::swap(&mut ys[j], &mut entry);
                    proof {
                        assert(entry == ys_entry[j as int]);
                    }
                    let ghost xs_before = self@;
                    self.push(entry);
                    proof {
                        lemma_obj_view_push(xs_before, entry);
                        assert(obj_view_from(self@, 0) == cur.push(
                            (ysv[j as int].0, ysv[j as int].1),
                        ));
                    }
                },
            }
            j += 1;
        }
        proof {
            lemma_obj_view_from(ys_entry, 0);
            assert(spec_merge_obj_from(obj_view_from(self@, 0), ysv, j as int) == ObjOut::Done(
                obj_view_from(self@, 0),
            ));
        }
        Ok(())
    }
}

impl Merge for Value {
    /// Merge `other` into `self` in place, as [`spec_merge`] says: a `Null`
    /// incoming value is a no-op, scalars are replaced, arrays append the
    /// elements not already present, objects merge key by key. On a variant
    /// clash the error carries snapshots of both clashing values, and `self`
    /// keeps the siblings merged before the clash.
    fn merge(&mut self, other: Value) -> (r: Result<(), EkkeCfgError>)
        ensures
            merge_post(old(self)@, other@, final(self)@, r),
        decreases other, 0int,
    {
        match &other {
            Value::Null => {
                return Ok(());
            },
            _ => {},
        }
        if !self.same_variant(&other) {
            let snap = self.deep_clone();
            return Err(EkkeCfgError::MergeWrongType(snap, other));
        }
        match (&mut *self, other) {
            (Value::Bool(x), Value::Bool(b)) => {
                *x = b;
                Ok(())
            },
            (Value::Int(x), Value::Int(b)) => {
                *x = b;
                Ok(())
            },
            (Value::Float(x), Value::Float(b)) => {
                *x = b;
                Ok(())
            },
            (Value::Str(x), Value::Str(s)) => {
                *x = s;
                Ok(())
            },
            (Value::Arr(xs), Value::Arr(ys)) => {
                match xs.merge(ys) {
                    Ok(()) => Ok(()),
                    Err(e2) => Err(e2),
                }
            },
            (Value::Obj(xs), Value::Obj(ys)) => {
                match xs.merge(ys) {
                    Ok(()) => Ok(()),
                    Err(e2) => Err(e2),
                }
            },
            _ => unreached(),
        }
    }
}

/// Converse of the find characterisation: an entry with the key, and no
/// earlier entry with it, pins what find answers.
pub proof fn lemma_find_key_from_exact(es: Seq<EntryV>, k: Seq<char>, i: int, j: int)
    requires
        0 <= i <= j < es.len(),
        es[j].0 == k,
        forall|m: int| i <= m < j ==> (#[trigger] es[m].0) != k,
    ensures
        spec_find_key_from(es, k, i) == Some(j),
    decreases j - i,
{
    if i < j {
        lemma_find_key_from_exact(es, k, i + 1, j);
    }
}

/// The merged array keeps the original elements, in place.
pub proof fn lemma_arr_from_prefix(xs: Seq<TreeV>, ys: Seq<TreeV>, i: int)
    requires
        0 <= i,
    ensures
        spec_merge_arr_from(xs, ys, i).len() >= xs.len(),
        forall|j: int| 0 <= j < xs.len() ==> #[trigger] spec_merge_arr_from(xs, ys, i)[j] == xs[j],
    decreases ys.len() - i,
{
    if i < ys.len() {
        let xs2 = if xs.contains(ys[i]) {
            xs
        } else {
            xs.push(ys[i])
        };
        lemma_arr_from_prefix(xs2, ys, i + 1);
    }
}

/// Whatever the array holds before the merge it still holds afterwards.
pub proof fn lemma_arr_from_keeps(xs: Seq<TreeV>, ys: Seq<TreeV>, i: int, e: TreeV)
    requires
        0 <= i,
        xs.contains(e),
    ensures
        spec_merge_arr_from(xs, ys, i).contains(e),
    decreases ys.len() - i,
{
    if i < ys.len() {
        let xs2 = if xs.contains(ys[i]) {
            xs
        } else {
            xs.push(ys[i])
        };
        let w = choose|w: int| 0 <= w < xs.len() && xs[w] == e;
        assert(xs2[w] == e);
        lemma_arr_from_keeps(xs2, ys, i + 1, e);
    }
}

/// After the merge every incoming element is present.
pub proof fn lemma_arr_from_all_present(xs: Seq<TreeV>, ys: Seq<TreeV>, i: int)
    requires
        0 <= i,
    ensures
        forall|m: int|
            i <= m < ys.len() ==> spec_merge_arr_from(xs, ys, i).contains(#[trigger] ys[m]),
    decreases ys.len() - i,
{
    if i < ys.len() {
        let xs2 = if xs.contains(ys[i]) {
            xs
        } else {
            xs.push(ys[i])
        };
        if xs.contains(ys[i]) {
            assert(xs2.contains(ys[i]));
        } else {
            assert(xs2[xs.len() as int] == ys[i]);
            assert(xs2.contains(ys[i]));
        }
        lemma_arr_from_keeps(xs2, ys, i + 1, ys[i]);
        lemma_arr_from_all_present(xs2, ys, i + 1);
    }
}

/// Merging elements that are all already present changes nothing.
pub proof fn lemma_arr_from_noop(xs: Seq<TreeV>, ys: Seq<TreeV>, i: int)
    requires
        0 <= i,
        forall|m: int| i <= m < ys.len() ==> xs.contains(#[trigger] ys[m]),
    ensures
        spec_merge_arr_from(xs, ys, i) == xs,
    decreases ys.len() - i,
{
    if i < ys.len() {
        lemma_arr_from_noop(xs, ys, i + 1);
    }
}

/// An entry whose key never occurs in the rest of the walk keeps its value.
pub proof fn lemma_obj_walk_stable(xs: Seq<EntryV>, ys: Seq<EntryV>, i: int, j: int)
    requires
        0 <= i,
        0 <= j < xs.len(),
        spec_merge_obj_from(xs, ys, i) is Done,
        forall|m: int| i <= m < ys.len() ==> (#[trigger] ys[m].0) != xs[j].0,
    ensures
        spec_merge_obj_from(xs, ys, i)->Done_0[j] == xs[j],
    decreases ys.len() - i,
{
    if i < ys.len() {
        let k = ys[i].0;
        let v = ys[i].1;
        lemma_find_key_from(xs, k, 0);
        match spec_find_key(xs, k) {
            Some(j2) => {
                let w = spec_merge(xs[j2].1, v)->Done_0;
                let xs2 = xs.update(j2, (k, w));
                assert(xs2[j] == xs[j]);
                lemma_obj_walk_stable(xs2, ys, i + 1, j);
            },
            None => {
                let xs2 = xs.push((k, v));
                assert(xs2[j] == xs[j]);
                lemma_obj_walk_stable(xs2, ys, i + 1, j);
            },
        }
    }
}

/// The walk keeps the length and the keys of the entries it started with,
/// only appending new ones.
pub proof fn lemma_obj_walk_prefix(xs: Seq<EntryV>, ys: Seq<EntryV>, i: int)
    requires
        0 <= i,
        spec_merge_obj_from(xs, ys, i) is Done,
    ensures
        spec_merge_obj_from(xs, ys, i)->Done_0.len() >= xs.len(),
        forall|j: int|
            0 <= j < xs.len() ==> (#[trigger] spec_merge_obj_from(xs, ys, i)->Done_0[j]).0
                == xs[j].0,
    decreases ys.len() - i,
{
    if i < ys.len() {
        let k = ys[i].0;
        let v = ys[i].1;
        lemma_find_key_from(xs, k, 0);
        match spec_find_key(xs, k) {
            Some(j2) => {
                let w = spec_merge(xs[j2].1, v)->Done_0;
                lemma_obj_walk_prefix(xs.update(j2, (k, w)), ys, i + 1);
            },
            None => {
                lemma_obj_walk_prefix(xs.push((k, v)), ys, i + 1);
            },
        }
    }
}

/// A walk each of whose steps merges to what is already there changes
/// nothing.
pub proof fn lemma_obj_walk_noop(zs: Seq<EntryV>, ys: Seq<EntryV>, i: int)
    requires
        0 <= i,
        forall|m: int|
            i <= m < ys.len() ==> match spec_find_key(zs, (#[trigger] ys[m]).0) {
                Some(j) => spec_merge(zs[j].1, ys[m].1) == MergeOut::Done(zs[j].1),
                None => false,
            },
    ensures
        spec_merge_obj_from(zs, ys, i) == ObjOut::Done(zs),
    decreases ys.len() - i,
{
    if i < ys.len() {
        let k = ys[i].0;
        lemma_find_key_from(zs, k, 0);
        match spec_find_key(zs, k) {
            Some(j) => {
                assert(zs.update(j, (k, zs[j].1)) =~= zs);
                lemma_obj_walk_noop(zs, ys, i + 1);
            },
            None => {
                assert(false);
            },
        }
    }
}

/// Whether a model value is a scalar (replaced wholesale by merge).
pub open spec fn is_scalar(t: TreeV) -> bool {
    ||| t is Bool
    ||| t is Int
    ||| t is Float
    ||| t is Str
}

/// Type guard: merging two values of different variant tags, where the
/// incoming one is not `Null`, fails with snapshots of both operands, and
/// the target is unchanged.
pub proof fn lemma_merge_type_guard(a: TreeV, b: TreeV)
    requires
        kind(a) != kind(b),
        !(b is Null),
    ensures
        spec_merge(a, b) == (MergeOut::Fail { post: a, existing: a, incoming: b }),
{
}

/// Null no-op: merging `Null` into any value succeeds and changes nothing.
pub proof fn lemma_merge_null(a: TreeV)
    ensures
        spec_merge(a, TreeV::Null) == MergeOut::Done(a),
{
}

/// Scalar replace: merging two scalars of the same variant yields the
/// incoming one.
pub proof fn lemma_merge_scalar(a: TreeV, b: TreeV)
    requires
        is_scalar(b),
        kind(a) == kind(b),
    ensures
        spec_merge(a, b) == MergeOut::Done(b),
{
}

/// A tree whose mappings never repeat a key, at any depth. Parsed documents
/// always look like this.
pub open spec fn unique_keys(t: TreeV) -> bool
    decreases t,
{
    match t {
        TreeV::Arr(xs) => forall|i: int| 0 <= i < xs.len() ==> unique_keys(#[trigger] xs[i]),
        TreeV::Obj(es) => {
            &&& forall|i: int, j: int|
                0 <= i < j < es.len() ==> (#[trigger] es[i].0) != (#[trigger] es[j].0)
            &&& forall|i: int| 0 <= i < es.len() ==> unique_keys((#[trigger] es[i]).1)
        },
        _ => true,
    }
}

/// Merging a tree into itself changes nothing, as long as its mappings never
/// repeat a key.
pub proof fn lemma_merge_self(v: TreeV)
    requires
        unique_keys(v),
    ensures
        spec_merge(v, v) == MergeOut::Done(v),
    decreases v, 1int,
{
    match v {
        TreeV::Arr(xs) => {
            assert(forall|m: int| 0 <= m < xs.len() ==> xs.contains(#[trigger] xs[m]));
            lemma_arr_from_noop(xs, xs, 0);
        },
        TreeV::Obj(es) => {
            lemma_self_obj_walk(es, 0);
        },
        _ => {},
    }
}

/// The walk behind [`lemma_merge_self`]: merging a mapping's own entries
/// into it, from any position on, leaves it as it is.
pub proof fn lemma_self_obj_walk(es: Seq<EntryV>, i: int)
    requires
        0 <= i <= es.len(),
        forall|m1: int, m2: int|
            0 <= m1 < m2 < es.len() ==> (#[trigger] es[m1].0) != (#[trigger] es[m2].0),
        forall|m: int| 0 <= m < es.len() ==> unique_keys((#[trigger] es[m]).1),
    ensures
        spec_merge_obj_from(es, es, i) == ObjOut::Done(es),
    decreases es, es.len() - i,
{
    if i < es.len() {
        let k = es[i].0;
        lemma_find_key_from_exact(es, k, 0, i);
        lemma_merge_self(es[i].1);
        assert(es.update(i, (k, es[i].1)) =~= es);
        lemma_self_obj_walk(es, i + 1);
    }
}

/// Once `b` has been merged in, merging the same `b` again changes nothing
/// (for a `b` whose mappings never repeat a key).
pub proof fn lemma_merge_absorb(a: TreeV, b: TreeV)
    requires
        unique_keys(b),
        spec_merge(a, b) is Done,
    ensures
        spec_merge(spec_merge(a, b)->Done_0, b) == spec_merge(a, b),
    decreases b, 1int,
{
    if !(b is Null) {
        match b {
            TreeV::Arr(ys) => {
                let zs = spec_merge_arr_from(a->Arr_0, ys, 0);
                lemma_arr_from_all_present(a->Arr_0, ys, 0);
                lemma_arr_from_noop(zs, ys, 0);
            },
            TreeV::Obj(ys) => {
                lemma_obj_absorb_walk(a->Obj_0, ys, 0);
                let zs = spec_merge_obj_from(a->Obj_0, ys, 0)->Done_0;
                lemma_obj_walk_noop(zs, ys, 0);
            },
            _ => {},
        }
    }
}

/// The walk behind [`lemma_merge_absorb`]: after a successful walk, every
/// incoming entry finds its key in the result and merging its value there
/// again changes nothing.
pub proof fn lemma_obj_absorb_walk(xs: Seq<EntryV>, ys: Seq<EntryV>, i: int)
    requires
        0 <= i <= ys.len(),
        forall|m1: int, m2: int|
            0 <= m1 < m2 < ys.len() ==> (#[trigger] ys[m1].0) != (#[trigger] ys[m2].0),
        forall|m: int| 0 <= m < ys.len() ==> unique_keys((#[trigger] ys[m]).1),
        spec_merge_obj_from(xs, ys, i) is Done,
    ensures
        forall|m: int|
            i <= m < ys.len() ==> match spec_find_key(
                spec_merge_obj_from(xs, ys, i)->Done_0,
                (#[trigger] ys[m]).0,
            ) {
                Some(j) => {
                    &&& 0 <= j < spec_merge_obj_from(xs, ys, i)->Done_0.len()
                    &&& spec_merge(spec_merge_obj_from(xs, ys, i)->Done_0[j].1, ys[m].1)
                        == MergeOut::Done(spec_merge_obj_from(xs, ys, i)->Done_0[j].1)
                },
                None => false,
            },
    decreases ys, ys.len() - i,
{
    if i < ys.len() {
        let k = ys[i].0;
        let v = ys[i].1;
        let zs = spec_merge_obj_from(xs, ys, i)->Done_0;
        lemma_find_key_from(xs, k, 0);
        match spec_find_key(xs, k) {
            Some(j) => {
                let w = spec_merge(xs[j].1, v)->Done_0;
                let xs2 = xs.update(j, (k, w));
                lemma_obj_absorb_walk(xs2, ys, i + 1);
                lemma_obj_walk_prefix(xs2, ys, i + 1);
                lemma_obj_walk_stable(xs2, ys, i + 1, j);
                assert(zs[j] == (k, w));
                assert forall|m: int| 0 <= m < j implies (#[trigger] zs[m].0) != k by {
                    assert(zs[m].0 == xs2[m].0);
                    assert(xs2[m].0 == xs[m].0);
                }
                lemma_find_key_from_exact(zs, k, 0, j);
                lemma_merge_absorb(xs[j].1, v);
                assert(spec_merge(zs[j].1, v) == MergeOut::Done(zs[j].1));
            },
            None => {
                let xs2 = xs.push((k, v));
                let p = xs.len() as int;
                lemma_obj_absorb_walk(xs2, ys, i + 1);
                lemma_obj_walk_prefix(xs2, ys, i + 1);
                lemma_obj_walk_stable(xs2, ys, i + 1, p);
                assert(zs[p] == (k, v));
                assert forall|m: int| 0 <= m < p implies (#[trigger] zs[m].0) != k by {
                    assert(zs[m].0 == xs2[m].0);
                    assert(xs2[m].0 == xs[m].0);
                }
                lemma_find_key_from_exact(zs, k, 0, p);
                lemma_merge_self(v);
                assert(spec_merge(zs[p].1, v) == MergeOut::Done(zs[p].1));
            },
        }
    }
}

} // verus!
