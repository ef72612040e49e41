//! Structural path lookup over a tree value.
//!
//! A pointer is a slash-delimited path: the empty pointer names the value
//! itself; otherwise it must start with `/`. Each token is unescaped (`~1`
//! becomes `/`, then `~0` becomes `~`, the standard pointer escaping) and
//! then used as a mapping key or, on an array, as a base-10 index written
//! without a leading `+` and without leading zeros.

use crate::merge::spec_find_key;
use crate::value::{lemma_obj_view_from, obj_view_from, value_view, TreeV, Value};
use vstd::prelude::*;
use vstd::string::StrSliceExecFns;

verus! {

/// One unescaping pass, left to right: `~0` becomes `~`, `~1` becomes `/`,
/// anything else is copied. This agrees with the standard rule of replacing
/// `~1` first and `~0` second.
pub open spec fn spec_unescape(s: Seq<char>) -> Seq<char>
    decreases s.len(),
{
    if s.len() == 0 {
        Seq::empty()
    } else if s[0] == '~' && s.len() >= 2 && (s[1] == '0' || s[1] == '1') {
        seq![if s[1] == '0' { '~' } else { '/' }] + spec_unescape(s.skip(2))
    } else {
        seq![s[0]] + spec_unescape(s.skip(1))
    }
}

/// Whether `c` is a decimal digit.
pub open spec fn is_digit(c: char) -> bool {
    ('0' as u32) <= (c as u32) && (c as u32) <= ('9' as u32)
}

/// The value of the digit `c`.
pub open spec fn digit_val(c: char) -> int {
    (c as u32) - ('0' as u32)
}

/// The base-10 value of a digit string.
pub open spec fn digits_val(s: Seq<char>) -> int
    decreases s.len(),
{
    if s.len() == 0 {
        0
    } else {
        digits_val(s.drop_last()) * 10 + digit_val(s.last())
    }
}

/// An array index, parsed strictly: only digits (so no leading `+`), no
/// leading zero unless the token is exactly `0`, nothing else.
pub open spec fn spec_parse_index(s: Seq<char>) -> Option<int> {
    if s.len() == 0 {
        None
    } else if exists|i: int| 0 <= i < s.len() && !is_digit(#[trigger] s[i]) {
        None
    } else if s[0] == '0' && s.len() > 1 {
        None
    } else {
        Some(digits_val(s))
    }
}

/// Index of the first `/` of `p[i..]`, or the length of `p` when there is
/// none.
pub open spec fn spec_first_slash(p: Seq<char>, i: int) -> int
    decreases p.len() - i,
{
    if i < 0 || i >= p.len() {
        p.len() as int
    } else if p[i] == '/' {
        i
    } else {
        spec_first_slash(p, i + 1)
    }
}

/// Where the first slash is: between `i` and the length, on a `/`, with none
/// before it.
pub proof fn lemma_first_slash(p: Seq<char>, i: int)
    requires
        0 <= i <= p.len(),
    ensures
        i <= spec_first_slash(p, i) <= p.len(),
        spec_first_slash(p, i) < p.len() ==> p[spec_first_slash(p, i)] == '/',
        forall|m: int| i <= m < spec_first_slash(p, i) ==> p[m] != '/',
    decreases p.len() - i,
{
    if i < p.len() && p[i] != '/' {
        lemma_first_slash(p, i + 1);
    }
}

/// One lookup step: an unescaped token applied to a single value. On a
/// mapping the token is a key; on an array it must parse as an index in
/// range; on anything else the lookup fails.
pub open spec fn spec_lookup(v: TreeV, tok: Seq<char>) -> Option<TreeV> {
    match v {
        TreeV::Obj(es) => match spec_find_key(es, tok) {
            Some(j) => Some(es[j].1),
            None => None,
        },
        TreeV::Arr(xs) => match spec_parse_index(tok) {
            Some(n) => if 0 <= n < xs.len() {
                Some(xs[n])
            } else {
                None
            },
            None => None,
        },
        _ => None,
    }
}

/// Resolution of the part of a pointer that follows a `/`: the characters up
/// to the next `/` (or the end) form a token; the walk continues in the
/// value the token names.
pub open spec fn spec_resolve_rest(v: TreeV, p: Seq<char>) -> Option<TreeV>
    decreases p.len(),
{
    let e = spec_first_slash(p, 0);
    let tok = spec_unescape(p.subrange(0, e));
    match spec_lookup(v, tok) {
        None => None,
        Some(c) => if e == p.len() {
            Some(c)
        } else {
            proof {
                lemma_first_slash(p, 0);
            }
            spec_resolve_rest(c, p.skip(e + 1))
        },
    }
}

/// Resolution of a whole pointer against `v`: the empty pointer names `v`;
/// a non-empty pointer must start with `/` or nothing is found.
pub open spec fn spec_resolve(v: TreeV, p: Seq<char>) -> Option<TreeV> {
    if p.len() == 0 {
        Some(v)
    } else if p[0] != '/' {
        None
    } else {
        spec_resolve_rest(v, p.skip(1))
    }
}

/// The characters of `s`, one by one.
fn str_chars(s: &str) -> (r: Vec<char>)
    ensures
        r@ == s@,
{
    let n = s.unicode_len();
    let mut out: Vec<char> = Vec::new();
    let mut i: usize = 0;
    while i < n
        invariant
            i <= n,
            n == s@.len(),
            out@.len() == i,
            forall|j: int| 0 <= j < i ==> out@[j] == s@[j],
        decreases n - i,
    {
        let c = s.get_char(i);
        out.push(c);
        i += 1;
    }
    proof {
        assert(out@ =~= s@);
    }
    out
}

/// Whether two character vectors hold the same characters.
fn chars_eq(a: &Vec<char>, b: &Vec<char>) -> (r: bool)
    ensures
        r == (a@ == b@),
{
    if a.len() != b.len() {
        return false;
    }
    let mut i: usize = 0;
    while i < a.len()
        invariant
            i <= a@.len(),
            a@.len() == b@.len(),
            forall|j: int| 0 <= j < i ==> a@[j] == b@[j],
        decreases a@.len() - i,
    {
        if a[i] != b[i] {
            return false;
        }
        i += 1;
    }
    proof {
        assert(a@ =~= b@);
    }
    true
}

/// A digit string's value is never negative.
pub proof fn lemma_digits_val_nonneg(s: Seq<char>)
    requires
        forall|i: int| 0 <= i < s.len() ==> is_digit(#[trigger] s[i]),
    ensures
        digits_val(s) >= 0,
    decreases s.len(),
{
    if s.len() > 0 {
        lemma_digits_val_nonneg(s.drop_last());
    }
}

/// Reading one more digit multiplies by ten and adds it.
pub proof fn lemma_digits_val_step(s: Seq<char>, m: int)
    requires
        0 <= m < s.len(),
    ensures
        digits_val(s.subrange(0, m + 1)) == digits_val(s.subrange(0, m)) * 10 + digit_val(s[m]),
{
    assert(s.subrange(0, m + 1).drop_last() =~= s.subrange(0, m));
    assert(s.subrange(0, m + 1).last() == s[m]);
}

/// A prefix of a digit string is worth no more than the whole.
pub proof fn lemma_digits_val_monotone(s: Seq<char>, m: int)
    requires
        forall|i: int| 0 <= i < s.len() ==> is_digit(#[trigger] s[i]),
        0 <= m <= s.len(),
    ensures
        digits_val(s.subrange(0, m)) <= digits_val(s),
    decreases s.len() - m,
{
    if m < s.len() {
        lemma_digits_val_step(s, m);
        lemma_digits_val_nonneg(s.subrange(0, m));
        lemma_digits_val_monotone(s, m + 1);
    } else {
        assert(s.subrange(0, m) =~= s);
    }
}

/// Parse an array index as [`spec_parse_index`] says, answering nothing when
/// the mathematical value would not even fit in a `usize` (no array can be
/// that long, so the lookup fails either way).
fn parse_index(tok: &Vec<char>) -> (r: Option<usize>)
    ensures
        match r {
            Some(u) => spec_parse_index(tok@) == Some(u as int),
            None => match spec_parse_index(tok@) {
                Some(n) => n > usize::MAX,
                None => true,
            },
        },
{
    if tok.len() == 0 {
        return None;
    }
    if tok[0] == '0' && tok.len() > 1 {
        return None;
    }
    let mut val: usize = 0;
    let mut i: usize = 0;
    while i < tok.len()
        invariant
            i <= tok@.len(),
            forall|j: int| 0 <= j < i ==> is_digit(#[trigger] tok@[j]),
            val == digits_val(tok@.subrange(0, i as int)),
        decreases tok@.len() - i,
    {
        let c = tok[i];
        let cu = c as u32;
        if cu < ('0' as u32) || cu > ('9' as u32) {
            proof {
                assert(!is_digit(tok@[i as int]));
            }
            return None;
        }
        let d = (cu - ('0' as u32)) as usize;
        proof {
            lemma_digits_val_step(tok@, i as int);
        }
        let limit = usize::MAX / 10;
        if val > limit || (val == limit && d > usize::MAX % 10) {
            proof {
                if spec_parse_index(tok@) is Some {
                    assert(digits_val(tok@.subrange(0, i as int + 1)) > usize::MAX);
                    lemma_digits_val_monotone(tok@, i as int + 1);
                    assert(tok@.subrange(0, tok@.len() as int) =~= tok@);
                }
            }
            return None;
        }
        val = val * 10 + d;
        i += 1;
    }
    proof {
        assert(tok@.subrange(0, i as int) =~= tok@);
        assert(spec_parse_index(tok@) == Some(digits_val(tok@)));
    }
    Some(val)
}

/// Index of the first entry of `es` whose key reads as the characters `tok`.
fn find_key_chars(es: &Vec<(String, Value)>, tok: &Vec<char>) -> (r: Option<usize>)
    ensures
        match r {
            Some(idx) => idx < es@.len() && spec_find_key(obj_view_from(es@, 0), tok@) == Some(
                idx as int,
            ),
            None => spec_find_key(obj_view_from(es@, 0), tok@) is None,
        },
{
    proof {
        lemma_obj_view_from(es@, 0);
    }
    let ghost evs = obj_view_from(es@, 0);
    let mut i: usize = 0;
    while i < es.len()
        invariant
            0 <= i <= es@.len(),
            evs == obj_view_from(es@, 0),
            evs.len() == es@.len(),
            crate::merge::spec_find_key_from(evs, tok@, 0) == crate::merge::spec_find_key_from(
                evs,
                tok@,
                i as int,
            ),
        decreases es@.len() - i,
    {
        proof {
            lemma_obj_view_from(es@, 0);
            assert(evs[i as int] == (es@[i as int].0@, value_view(es@[i as int].1)));
        }
        let kc = str_chars(es[i].0.as_str());
        if chars_eq(&kc, tok) {
            return Some(i);
        }
        i += 1;
    }
    None
}

/// Unescape the characters `p[start..end]`.
fn unescape_range(p: &Vec<char>, start: usize, end: usize) -> (r: Vec<char>)
    requires
        start <= end <= p@.len(),
    ensures
        r@ == spec_unescape(p@.subrange(start as int, end as int)),
{
    let mut out: Vec<char> = Vec::new();
    let mut i: usize = start;
    while i < end
        invariant
            start <= i <= end <= p@.len(),
            spec_unescape(p@.subrange(start as int, end as int)) == out@ + spec_unescape(
                p@.subrange(i as int, end as int),
            ),
        decreases end - i,
    {
        let ghost before = p@.subrange(i as int, end as int);
        let c = p[i];
        if c == '~' && i + 1 < end && (p[i + 1] == '0' || p[i + 1] == '1') {
            let u = if p[i + 1] == '0' {
                '~'
            } else {
                '/'
            };
            out.push(u);
            proof {
                assert(before.skip(2) =~= p@.subrange(i as int + 2, end as int));
            }
            i += 2;
        } else {
            out.push(c);
            proof {
                assert(before.skip(1) =~= p@.subrange(i as int + 1, end as int));
            }
            i += 1;
        }
    }
    proof {
        assert(p@.subrange(i as int, end as int) =~= Seq::<char>::empty());
        assert(out@ + Seq::<char>::empty() =~= out@);
    }
    out
}

/// Index of the first `/` of `p[from..]`, or the length when there is none.
fn find_slash(p: &Vec<char>, from: usize) -> (r: usize)
    requires
        from <= p@.len(),
    ensures
        r == spec_first_slash(p@, from as int),
        from <= r <= p@.len(),
{
    let mut i: usize = from;
    while i < p.len()
        invariant
            from <= i <= p@.len(),
            spec_first_slash(p@, from as int) == spec_first_slash(p@, i as int),
        decreases p@.len() - i,
    {
        if p[i] == '/' {
            return i;
        }
        i += 1;
    }
    i
}

/// Slash-delimited, escape-aware structural path lookup.
pub trait Pointer {
    fn jptr<'a>(&'a self, pointer: &str) -> Option<&'a Value>;
}

impl Pointer for Value {
    /// Find the node the pointer names, as [`spec_resolve`] says: the empty
    /// pointer names `self`; otherwise the pointer must start with `/` and
    /// each unescaped token steps into a mapping by key or into an array by
    /// strictly parsed index.
    #[verifier::loop_isolation(false)]
    fn jptr<'a>(&'a self, pointer: &str) -> (r: Option<&'a Value>)
        ensures
            match r {
                Some(t) => spec_resolve(self@, pointer@) == Some(t@),
                None => spec_resolve(self@, pointer@) is None,
            },
    {
        let chars = str_chars(pointer);
        if chars.len() == 0 {
            return Some(self);
        }
        if chars[0] != '/' {
            return None;
        }
        let mut target: &Value = self;
        let mut pos: usize = 1;
        loop
            invariant
                1 <= pos <= chars@.len(),
                chars@ == pointer@,
                chars@.len() > 0,
                chars@[0] == '/',
                spec_resolve(self@, pointer@) == spec_resolve_rest(
                    target@,
                    chars@.skip(pos as int),
                ),
            decreases chars@.len() - pos,
        {
            let ghost rest = chars@.skip(pos as int);
            let end = find_slash(&chars, pos);
            proof {
                lemma_first_slash(chars@, pos as int);
                lemma_first_slash_shift(chars@, pos as int);
                assert(spec_first_slash(rest, 0) == end - pos as int);
                assert(rest.subrange(0, end - pos as int) =~= chars@.subrange(
                    pos as int,
                    end as int,
                ));
            }
            let tok = unescape_range(&chars, pos, end);
            let ghost spec_tok = spec_unescape(rest.subrange(0, spec_first_slash(rest, 0)));
            proof {
                assert(tok@ == spec_tok);
            }
            let stepped: &Value = match target {
                Value::Obj(es) => {
                    proof {
                        lemma_obj_view_from(es@, 0);
                    }
                    match find_key_chars(es, &tok) {
                        Some(idx) => {
                            proof {
                                assert(spec_lookup(target@, spec_tok) == Some(
                                    obj_view_from(es@, 0)[idx as int].1,
                                ));
                            }
                            &es[idx].1
                        },
                        None => {
                            proof {
                                assert(spec_lookup(target@, spec_tok) is None);
                            }
                            return None;
                        },
                    }
                },
                Value::Arr(xs) => {
                    proof {
                        crate::value::lemma_arr_view_from(xs@, 0);
                    }
                    let xl = xs.len();
                    match parse_index(&tok) {
                        Some(n) => {
                            if n < xl {
                                proof {
                                    assert(spec_lookup(target@, spec_tok) == Some(
                                        crate::value::arr_view_from(xs@, 0)[n as int],
                                    ));
                                }
                                &xs[n]
                            } else {
                                proof {
                                    assert(spec_lookup(target@, spec_tok) is None);
                                }
                                return None;
                            }
                        },
                        None => {
                            proof {
                                assert(spec_lookup(target@, spec_tok) is None);
                            }
                            return None;
                        },
                    }
                },
                _ => {
                    proof {
                        assert(spec_lookup(target@, spec_tok) is None);
                    }
                    return None;
                },
            };
            if end == chars.len() {
                proof {
                    assert(spec_first_slash(rest, 0) == rest.len());
                    assert(spec_resolve_rest(target@, rest) == Some(stepped@));
                }
                return Some(stepped);
            }
            proof {
                assert(rest.skip(end - pos as int + 1) =~= chars@.skip(end as int + 1));
                assert(spec_resolve_rest(target@, rest) == spec_resolve_rest(
                    stepped@,
                    chars@.skip(end as int + 1),
                ));
            }
            target = stepped;
            pos = end + 1;
        }
    }
}

/// Looking for a slash in a suffix is looking for it in the whole, shifted.
pub proof fn lemma_first_slash_shift(p: Seq<char>, from: int)
    requires
        0 <= from <= p.len(),
    ensures
        spec_first_slash(p.skip(from), 0) == spec_first_slash(p, from) - from,
{
    lemma_first_slash_shift_from(p, from, 0);
}

/// Helper for [`lemma_first_slash_shift`], generalised over the scan start.
pub proof fn lemma_first_slash_shift_from(p: Seq<char>, from: int, i: int)
    requires
        0 <= from <= p.len(),
        0 <= i <= p.len() - from,
    ensures
        spec_first_slash(p.skip(from), i) == spec_first_slash(p, from + i) - from,
    decreases p.len() - from - i,
{
    if from + i < p.len() && p[from + i] != '/' {
        lemma_first_slash_shift_from(p, from, i + 1);
    }
}

} // verus!
