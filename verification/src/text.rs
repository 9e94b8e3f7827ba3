//! String primitives used by the filter engine: equality, lexicographic
//! comparison, and `LIKE`-style wildcard matching.
//!
//! Patterns follow the store's matching language: `%` matches any (possibly
//! empty) run of characters and `_` matches exactly one character. Filter
//! operands are deliberately not escaped before they are embedded in a
//! pattern, so wildcard characters inside an operand keep their meaning.

use vstd::prelude::*;
use vstd::string::*;

verus! {

/// Whether `text` matches the wildcard pattern `pattern`, where `%` matches
/// any run of characters and `_` matches exactly one character; every other
/// character matches only itself.
pub open spec fn like_matches(pattern: Seq<char>, text: Seq<char>) -> bool
    decreases pattern.len(), text.len(),
{
    if pattern.len() == 0 {
        text.len() == 0
    } else if pattern[0] == '%' {
        like_matches(pattern.skip(1), text) || (text.len() > 0 && like_matches(
            pattern,
            text.skip(1),
        ))
    } else if pattern[0] == '_' {
        text.len() > 0 && like_matches(pattern.skip(1), text.skip(1))
    } else {
        text.len() > 0 && text[0] == pattern[0] && like_matches(pattern.skip(1), text.skip(1))
    }
}

/// Strict lexicographic order on character sequences, by code point.
pub open spec fn str_lt_spec(a: Seq<char>, b: Seq<char>) -> bool
    decreases a.len(),
{
    if b.len() == 0 {
        false
    } else if a.len() == 0 {
        true
    } else if a[0] != b[0] {
        (a[0] as u32) < (b[0] as u32)
    } else {
        str_lt_spec(a.skip(1), b.skip(1))
    }
}

/// Character-wise string equality.
pub fn str_eq(a: &str, b: &str) -> (r: bool)
    ensures
        r == (a@ == b@),
{
    let alen = a.unicode_len();
    let blen = b.unicode_len();
    if alen != blen {
        return false;
    }
    let mut i: usize = 0;
    while i < alen
        invariant
            alen == a@.len(),
            blen == b@.len(),
            alen == blen,
            i <= alen,
            forall|k: int| 0 <= k < i ==> a@[k] == b@[k],
        decreases alen - i,
    {
        if a.get_char(i) != b.get_char(i) {
            return false;
        }
        i = i + 1;
    }
    proof {
        assert(a@ =~= b@);
    }
    true
}

fn str_lt_from(a: &str, b: &str, i: usize) -> (r: bool)
    requires
        i <= a@.len(),
        i <= b@.len(),
    ensures
        r == str_lt_spec(a@.skip(i as int), b@.skip(i as int)),
    decreases a@.len() - i,
{
    let alen = a.unicode_len();
    let blen = b.unicode_len();
    if i == blen {
        false
    } else if i == alen {
        true
    } else {
        let ca = a.get_char(i);
        let cb = b.get_char(i);
        proof {
            assert(a@.skip(i as int)[0] == a@[i as int]);
            assert(b@.skip(i as int)[0] == b@[i as int]);
            assert(a@.skip(i as int).skip(1) =~= a@.skip(i as int + 1));
            assert(b@.skip(i as int).skip(1) =~= b@.skip(i as int + 1));
        }
        if ca != cb {
            (ca as u32) < (cb as u32)
        } else {
            str_lt_from(a, b, i + 1)
        }
    }
}

/// Whether `a` comes strictly before `b` in lexicographic code-point order.
pub fn str_lt(a: &str, b: &str) -> (r: bool)
    ensures
        r == str_lt_spec(a@, b@),
{
    let r = str_lt_from(a, b, 0);
    proof {
        assert(a@.skip(0) =~= a@);
        assert(b@.skip(0) =~= b@);
    }
    r
}

fn like_match_from(pattern: &str, text: &str, pi: usize, ti: usize) -> (r: bool)
    requires
        pi <= pattern@.len(),
        ti <= text@.len(),
    ensures
        r == like_matches(pattern@.skip(pi as int), text@.skip(ti as int)),
    decreases pattern@.len() - pi, text@.len() - ti,
{
    let plen = pattern.unicode_len();
    let tlen = text.unicode_len();
    if pi == plen {
        proof {
            assert(pattern@.skip(pi as int).len() == 0);
        }
        ti == tlen
    } else {
        let pc = pattern.get_char(pi);
        proof {
            assert(pattern@.skip(pi as int)[0] == pattern@[pi as int]);
            assert(pattern@.skip(pi as int).skip(1) =~= pattern@.skip(pi as int + 1));
            if ti < tlen {
                assert(text@.skip(ti as int).skip(1) =~= text@.skip(ti as int + 1));
            }
        }
        if pc == '%' {
            if like_match_from(pattern, text, pi + 1, ti) {
                true
            } else if ti < tlen {
                like_match_from(pattern, text, pi, ti + 1)
            } else {
                false
            }
        } else if pc == '_' {
            if ti < tlen {
                proof {
                    assert(text@.skip(ti as int).len() > 0);
                }
                like_match_from(pattern, text, pi + 1, ti + 1)
            } else {
                false
            }
        } else {
            if ti < tlen {
                let tc = text.get_char(ti);
                proof {
                    assert(text@.skip(ti as int)[0] == text@[ti as int]);
                }
                if tc == pc {
                    like_match_from(pattern, text, pi + 1, ti + 1)
                } else {
                    false
                }
            } else {
                false
            }
        }
    }
}

/// Whether `text` matches the wildcard pattern `pattern`.
pub fn like_match(pattern: &str, text: &str) -> (r: bool)
    ensures
        r == like_matches(pattern@, text@),
{
    let r = like_match_from(pattern, text, 0, 0);
    proof {
        assert(pattern@.skip(0) =~= pattern@);
        assert(text@.skip(0) =~= text@);
    }
    r
}

/// Builds the pattern that surrounds `value` with `%` markers on both sides.
pub fn pattern_contains(value: &str) -> (p: String)
    ensures
        p@ == "%"@ + value@ + "%"@,
{
    let mut p = String::from_str("%");
    p.append(value);
    p.append("%");
    p
}

/// Builds the pattern that anchors `value` at the start.
pub fn pattern_starts_with(value: &str) -> (p: String)
    ensures
        p@ == value@ + "%"@,
{
    let mut p = String::from_str(value);
    p.append("%");
    p
}

/// Builds the pattern that anchors `value` at the end.
pub fn pattern_ends_with(value: &str) -> (p: String)
    ensures
        p@ == "%"@ + value@,
{
    let mut p = String::from_str("%");
    p.append(value);
    p
}

} // verus!
