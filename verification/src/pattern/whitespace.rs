//! Whitespace handling for Sigma patterns
//!
//! Implements whitespace collapsing for non-regex patterns as per Sigma
//! specification: each maximal run of whitespace becomes a single space.
use std::borrow::Cow;
use vstd::prelude::*;

use crate::text::{chars_of, contains_seq, is_whitespace_char, is_ws, string_from_chars};

verus! {

/// `s` with every maximal run of whitespace replaced by one space; `prev_ws`
/// says whether the text before `s` ended in such a run.
pub open spec fn collapse_from(s: Seq<char>, prev_ws: bool) -> Seq<char>
    decreases s.len(),
{
    if s.len() == 0 {
        Seq::empty()
    } else if is_ws(s[0]) {
        if prev_ws {
            collapse_from(s.drop_first(), true)
        } else {
            seq![' '] + collapse_from(s.drop_first(), true)
        }
    } else {
        seq![s[0]] + collapse_from(s.drop_first(), false)
    }
}

/// `s` with every maximal run of whitespace replaced by one space.
pub open spec fn collapse_ws(s: Seq<char>) -> Seq<char> {
    collapse_from(s, false)
}

/// The text a pattern compares against, as `handle_whitespace` gives it.
pub open spec fn handle_ws_spec(s: Seq<char>, no_collapse_ws: bool) -> Seq<char> {
    if no_collapse_ws {
        s
    } else {
        collapse_ws(s)
    }
}

/// Whether collapsing could change `s`: it has a whitespace character other
/// than the space, or two spaces in a row.
pub open spec fn needs_collapse(s: Seq<char>) -> bool {
    (exists|i: int| 0 <= i < s.len() && #[trigger] is_ws(s[i]) && s[i] != ' ') || contains_seq(
        s,
        "  "@,
    )
}

proof fn lemma_collapse_plain(s: Seq<char>, prev_ws: bool)
    requires
        forall|i: int| 0 <= i < s.len() && #[trigger] is_ws(s[i]) ==> s[i] == ' ',
        forall|i: int| 0 <= i < s.len() - 1 ==> !(#[trigger] s[i] == ' ' && s[i + 1] == ' '),
        prev_ws ==> s.len() == 0 || s[0] != ' ',
    ensures
        collapse_from(s, prev_ws) == s,
    decreases s.len(),
{
    if s.len() > 0 {
        let t = s.drop_first();
        assert forall|i: int| 0 <= i < t.len() && #[trigger] is_ws(t[i]) implies t[i] == ' ' by {
            assert(t[i] == s[i + 1]);
        }
        assert forall|i: int| 0 <= i < t.len() - 1 implies !(#[trigger] t[i] == ' ' && t[i + 1]
            == ' ') by {
            assert(t[i] == s[i + 1]);
            assert(t[i + 1] == s[i + 2]);
        }
        if is_ws(s[0]) {
            assert(s[0] == ' ');
            if s.len() > 1 {
                assert(!(s[0] == ' ' && s[1] == ' '));
            }
            lemma_collapse_plain(t, true);
        } else {
            lemma_collapse_plain(t, false);
        }
        assert(s =~= seq![s[0]] + t);
    }
}

/// Collapsing leaves a string unchanged when no whitespace other than single
/// spaces is in it.
pub proof fn lemma_collapse_identity(s: Seq<char>)
    requires
        !needs_collapse(s),
    ensures
        collapse_ws(s) == s,
{
    reveal_strlit("  ");
    assert forall|i: int| 0 <= i < s.len() - 1 implies !(#[trigger] s[i] == ' ' && s[i + 1]
        == ' ') by {
        if s[i] == ' ' && s[i + 1] == ' ' {
            assert(s.subrange(i, i + 2) =~= "  "@);
            assert(crate::text::occurs_at(s, "  "@, i));
        }
    }
    lemma_collapse_plain(s, false);
}

/// What collapsing gives has no whitespace but single spaces, and it starts
/// with no space when the text before ended in whitespace.
proof fn lemma_collapse_shape(s: Seq<char>, prev_ws: bool)
    ensures
        forall|i: int| 0 <= i < collapse_from(s, prev_ws).len() && #[trigger] is_ws(collapse_from(s, prev_ws)[i])
            ==> collapse_from(s, prev_ws)[i] == ' ',
        forall|i: int| 0 <= i < collapse_from(s, prev_ws).len() - 1 ==> !(#[trigger] collapse_from(s, prev_ws)[i]
            == ' ' && collapse_from(s, prev_ws)[i + 1] == ' '),
        prev_ws ==> collapse_from(s, prev_ws).len() == 0 || collapse_from(s, prev_ws)[0] != ' ',
    decreases s.len(),
{
    if s.len() > 0 {
        let t = s.drop_first();
        let out = collapse_from(s, prev_ws);
        assert(is_ws(' '));
        if is_ws(s[0]) {
            lemma_collapse_shape(t, true);
            let rest = collapse_from(t, true);
            if !prev_ws {
                assert(out == seq![' '] + rest);
                assert forall|i: int| 0 <= i < out.len() && #[trigger] is_ws(out[i]) implies out[i] == ' ' by {
                    if i > 0 {
                        assert(out[i] == rest[i - 1]);
                    }
                }
                assert forall|i: int| 0 <= i < out.len() - 1 implies !(#[trigger] out[i] == ' ' && out[i + 1] == ' ') by {
                    if i > 0 {
                        assert(out[i] == rest[i - 1]);
                        assert(out[i + 1] == rest[i]);
                    } else {
                        assert(out[1] == rest[0]);
                    }
                }
            }
        } else {
            lemma_collapse_shape(t, false);
            let rest = collapse_from(t, false);
            assert(out == seq![s[0]] + rest);
            assert(s[0] != ' ');
            assert forall|i: int| 0 <= i < out.len() && #[trigger] is_ws(out[i]) implies out[i] == ' ' by {
                if i > 0 {
                    assert(out[i] == rest[i - 1]);
                }
            }
            assert forall|i: int| 0 <= i < out.len() - 1 implies !(#[trigger] out[i] == ' ' && out[i + 1] == ' ') by {
                if i > 0 {
                    assert(out[i] == rest[i - 1]);
                    assert(out[i + 1] == rest[i]);
                }
            }
        }
    }
}

/// Handling whitespace twice gives what handling it once gives: a collapsed
/// text has no run left to collapse.
pub proof fn lemma_handle_whitespace_idempotent(s: Seq<char>, no_collapse_ws: bool)
    ensures
        handle_ws_spec(handle_ws_spec(s, no_collapse_ws), no_collapse_ws) == handle_ws_spec(s, no_collapse_ws),
{
    if !no_collapse_ws {
        lemma_collapse_shape(s, false);
        lemma_collapse_plain(collapse_ws(s), false);
    }
}

/// The collapsed characters of `s`.
pub fn collapse_chars(s: &[char]) -> (r: Vec<char>)
    ensures
        r@ == collapse_ws(s@),
{
    let mut out: Vec<char> = Vec::new();
    let mut prev_ws = false;
    let mut i: usize = 0;
    assert(s@.subrange(0, s@.len() as int) =~= s@);
    while i < s.len()
        invariant
            i <= s@.len(),
            out@ + collapse_from(s@.subrange(i as int, s@.len() as int), prev_ws) == collapse_ws(
                s@,
            ),
        decreases s.len() - i,
    {
        let c = s[i];
        let ghost rest = s@.subrange(i as int, s@.len() as int);
        assert(rest.drop_first() =~= s@.subrange(i + 1, s@.len() as int));
        if is_whitespace_char(c) {
            if !prev_ws {
                out.push(' ');
            }
            prev_ws = true;
        } else {
            out.push(c);
            prev_ws = false;
        }
        i = i + 1;
        proof {
            assert(out@ + collapse_from(s@.subrange(i as int, s@.len() as int), prev_ws)
                =~= collapse_ws(s@));
        }
    }
    assert(out@ + collapse_from(s@.subrange(i as int, s@.len() as int), prev_ws) =~= out@);
    out
}

fn needs_collapse_exec(s: &[char]) -> (r: bool)
    ensures
        r == needs_collapse(s@),
{
    let mut i: usize = 0;
    while i < s.len()
        invariant
            i <= s@.len(),
            forall|j: int| 0 <= j < i ==> !(#[trigger] is_ws(s@[j]) && s@[j] != ' '),
        decreases s.len() - i,
    {
        if is_whitespace_char(s[i]) && s[i] != ' ' {
            assert(is_ws(s@[i as int]) && s@[i as int] != ' ');
            return true;
        }
        i = i + 1;
    }
    let two = chars_of("  ");
    crate::text::contains_chars(s, two.as_slice())
}

/// Handle whitespace in a string according to Sigma rules
///
/// If `no_collapse_ws` is false (default), collapses consecutive whitespace
/// characters into a single space. Otherwise returns the string unchanged.
///
/// Returns `Cow<str>` to avoid allocation when string doesn't need modification.
pub fn handle_whitespace(s: &str, no_collapse_ws: bool) -> (r: Cow<'_, str>)
    ensures
        r@ == handle_ws_spec(s@, no_collapse_ws),
        r matches Cow::Owned(_) <==> (!no_collapse_ws && needs_collapse(s@)),
{
    if no_collapse_ws {
        return Cow::Borrowed(s);
    }
    let v = chars_of(s);
    if needs_collapse_exec(v.as_slice()) {
        let c = collapse_chars(v.as_slice());
        Cow::Owned(string_from_chars(c.as_slice()))
    } else {
        proof {
            lemma_collapse_identity(s@);
        }
        Cow::Borrowed(s)
    }
}

/// The text that a pattern compares, as characters.
pub fn handle_whitespace_chars(s: &str, no_collapse_ws: bool) -> (r: Vec<char>)
    ensures
        r@ == handle_ws_spec(s@, no_collapse_ws),
{
    let v = chars_of(s);
    if no_collapse_ws {
        v
    } else {
        collapse_chars(v.as_slice())
    }
}

} // verus!
