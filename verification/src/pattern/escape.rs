//! Escape handling for Sigma patterns
//!
//! Implements the Sigma-specific escape rules for glob patterns.
//!
//! A run of backslashes that is not directly followed by a wildcard (`*` or
//! `?`) and has odd length gets one more backslash; a run directly before a
//! wildcard is kept as it is. Every glob bracket (`[`, `]`, `{`, `}`) gets a
//! backslash in front of it. `escape_spec` states this reading the string
//! from its start; the code reads it from its end, as the scan `esc_scan`
//! follows it, and the two are proved to agree.
use std::borrow::Cow;
use vstd::prelude::*;

use crate::text::{chars_of, string_from_chars};

verus! {

/// The Sigma wildcard `*`.
pub const SIGMA_WILDCARD: char = '*';

/// The Sigma single-character wildcard `?`.
pub const SIGMA_SINGLE: char = '?';

/// The escape character.
pub const SIGMA_ESCAPE: char = '\\';

/// A glob bracket, which gets escaped.
pub open spec fn is_glob_bracket(c: char) -> bool {
    c == '[' || c == ']' || c == '{' || c == '}'
}

/// A character that makes escaping change the string.
pub open spec fn needs_escape(c: char) -> bool {
    is_glob_bracket(c) || c == '\\'
}

/// `n` backslashes.
pub open spec fn escapes(n: nat) -> Seq<char> {
    Seq::new(n, |i: int| '\\')
}

/// Whether `s` starts with a wildcard.
pub open spec fn starts_wildcard(s: Seq<char>) -> bool {
    s.len() > 0 && (s[0] == '*' || s[0] == '?')
}

/// A character as written in the escaped form: a glob bracket with a
/// backslash in front of it, any other character as it is.
pub open spec fn escaped_char(c: char) -> Seq<char> {
    if is_glob_bracket(c) {
        seq!['\\', c]
    } else {
        seq![c]
    }
}

/// The escaped form of `s` when `pending` backslashes stand right before it:
/// the run they start is kept as it is when a wildcard follows it, else it
/// gets one more backslash when its length is odd; the rest is escaped
/// character by character.
pub open spec fn escape_after(s: Seq<char>, pending: nat) -> Seq<char>
    decreases s.len(),
{
    if s.len() > 0 && s[0] == '\\' {
        escape_after(s.drop_first(), pending + 1)
    } else {
        let kept = if starts_wildcard(s) || pending % 2 == 0 {
            pending
        } else {
            pending + 1
        };
        escapes(kept) + if s.len() == 0 {
            Seq::<char>::empty()
        } else {
            escaped_char(s[0]) + escape_after(s.drop_first(), 0)
        }
    }
}

/// The escaped form of `s`.
pub open spec fn escape_spec(s: Seq<char>) -> Seq<char> {
    escape_after(s, 0)
}

/// The scan over the last `k` characters of `s`, read from the end: whether
/// the text to the right starts with a wildcard (through backslashes), the
/// length of the pending backslash run, and the output written so far in
/// reverse order.
spec fn esc_scan(s: Seq<char>, k: nat) -> (bool, int, Seq<char>)
    decreases k,
{
    if k == 0 || k > s.len() {
        (false, 0, Seq::empty())
    } else {
        let (w, n, out) = esc_scan(s, (k - 1) as nat);
        let ch = s[s.len() - k];
        let w1 = if ch == '*' || ch == '?' {
            true
        } else if ch == '\\' {
            w
        } else {
            false
        };
        let n1 = if ch == '\\' && !w {
            n + 1
        } else {
            n
        };
        let bal = ch != '\\' && n1 > 0 && n1 % 2 != 0;
        let n2 = if ch != '\\' && n1 > 0 {
            0
        } else {
            n1
        };
        let out1 = out + (if bal {
            seq!['\\']
        } else {
            Seq::empty()
        }) + seq![ch] + (if is_glob_bracket(ch) {
            seq!['\\']
        } else {
            Seq::empty()
        });
        (w1, n2, out1)
    }
}

/// What the scan from the end writes for `s`, put back in reading order.
spec fn scan_escaped(s: Seq<char>) -> Seq<char> {
    let (_, n, out) = esc_scan(s, s.len());
    (if n % 2 != 0 {
        out.push('\\')
    } else {
        out
    }).reverse()
}

proof fn lemma_escapes_push(n: nat)
    ensures
        escapes(n) + seq!['\\'] == escapes(n + 1),
        seq!['\\'] + escapes(n) == escapes(n + 1),
        escapes(0) == Seq::<char>::empty(),
{
    assert(escapes(n) + seq!['\\'] =~= escapes(n + 1));
    assert(seq!['\\'] + escapes(n) =~= escapes(n + 1));
    assert(escapes(0) =~= Seq::<char>::empty());
}

/// The scan state after the last `k` characters of `s` determines how they
/// are escaped after any number of pending backslashes.
proof fn lemma_scan_run(s: Seq<char>, k: nat, p: nat)
    requires
        k <= s.len(),
    ensures
        esc_scan(s, k).1 >= 0,
        esc_scan(s, k).0 ==> esc_scan(s, k).1 == 0,
        escape_after(s.subrange(s.len() - k, s.len() as int), p) == escapes(
            (p + if !esc_scan(s, k).0 && (p + esc_scan(s, k).1) % 2 != 0 {
                1int
            } else {
                0int
            }) as nat,
        ) + esc_scan(s, k).2.reverse(),
    decreases k, 1nat,
{
    let t = s.subrange(s.len() - k, s.len() as int);
    let (w, n, out) = esc_scan(s, k);
    if k == 0 {
        assert(t =~= Seq::<char>::empty());
        assert(out.reverse() =~= Seq::<char>::empty());
        assert(escapes((p + if (p + n) % 2 != 0 { 1int } else { 0int }) as nat) + Seq::<char>::empty()
            =~= escapes((p + if (p + n) % 2 != 0 { 1int } else { 0int }) as nat));
    } else {
        let ch = s[s.len() - k];
        let prev = s.subrange(s.len() - k + 1, s.len() as int);
        assert(t.drop_first() =~= prev);
        assert(t[0] == ch);
        assert(s.len() - (k - 1) == s.len() - k + 1);
        let (w0, n0, out0) = esc_scan(s, (k - 1) as nat);
        if ch == '\\' {
            lemma_scan_run(s, (k - 1) as nat, p + 1);
            assert(out =~= out0 + seq![ch]);
            assert(out.reverse() =~= seq!['\\'] + out0.reverse());
            if w0 {
                lemma_escapes_push(p);
                assert(escapes(p) + (seq!['\\'] + out0.reverse()) =~= (escapes(p) + seq!['\\']) + out0.reverse());
            } else {
                let b: int = if (p + n0 + 1) % 2 != 0 { 1 } else { 0 };
                lemma_escapes_push((p + b) as nat);
                assert(escapes((p + b) as nat) + (seq!['\\'] + out0.reverse())
                    =~= (escapes((p + b) as nat) + seq!['\\']) + out0.reverse());
            }
        } else {
            lemma_scan_run(s, (k - 1) as nat, 0);
            let bal: Seq<char> = if n0 > 0 && n0 % 2 != 0 { seq!['\\'] } else { Seq::empty() };
            let br: Seq<char> = if is_glob_bracket(ch) { seq!['\\'] } else { Seq::empty() };
            assert(out == out0 + bal + seq![ch] + br);
            assert(out.reverse() =~= br.reverse() + seq![ch] + bal.reverse() + out0.reverse());
            assert(br.reverse() + seq![ch] =~= escaped_char(ch));
            let b0: int = if n0 % 2 != 0 { 1 } else { 0 };
            assert(bal.reverse() =~= escapes(b0 as nat));
            assert(escape_after(prev, 0) == escapes(b0 as nat) + out0.reverse());
            assert(out.reverse() =~= escaped_char(ch) + escape_after(prev, 0));
            assert(escape_after(t, p) == escapes(
                (if starts_wildcard(t) || p % 2 == 0 { p } else { p + 1 }) as nat,
            ) + (escaped_char(t[0]) + escape_after(t.drop_first(), 0)));
        }
    }
}

/// Escaping as the scan from the end computes it.
proof fn lemma_scan_escaped(s: Seq<char>)
    ensures
        scan_escaped(s) == escape_spec(s),
{
    lemma_scan_run(s, s.len(), 0);
    assert(s.subrange(0, s.len() as int) =~= s);
    let (w, n, out) = esc_scan(s, s.len());
    if n % 2 != 0 {
        assert(out.push('\\').reverse() =~= seq!['\\'] + out.reverse());
        assert(escapes(1) =~= seq!['\\']);
    } else {
        assert(escapes(0) + out.reverse() =~= out.reverse());
    }
}

/// Whether `s` holds any character that escaping changes.
pub open spec fn needs_escaping(s: Seq<char>) -> bool {
    exists|i: int| 0 <= i < s.len() && #[trigger] needs_escape(s[i])
}

proof fn lemma_scan_plain(s: Seq<char>, k: nat)
    requires
        k <= s.len(),
        !needs_escaping(s),
    ensures
        esc_scan(s, k).1 == 0,
        esc_scan(s, k).2 == s.subrange(s.len() - k, s.len() as int).reverse(),
    decreases k,
{
    if k > 0 {
        lemma_scan_plain(s, (k - 1) as nat);
        let ch = s[s.len() - k];
        assert(!needs_escape(s[s.len() - k]));
        let prev = s.subrange(s.len() - k + 1, s.len() as int);
        let cur = s.subrange(s.len() - k, s.len() as int);
        assert(cur =~= seq![ch] + prev);
        assert(cur.reverse() =~= prev.reverse() + seq![ch]);
    } else {
        assert(s.subrange(s.len() as int, s.len() as int).reverse() =~= Seq::<char>::empty());
    }
}

/// Escaping leaves a string unchanged when it holds no bracket and no backslash.
pub proof fn lemma_escape_plain_identity(s: Seq<char>)
    requires
        !needs_escaping(s),
    ensures
        escape_spec(s) == s,
{
    lemma_scan_escaped(s);
    lemma_scan_plain(s, s.len());
    assert(s.subrange(0, s.len() as int) =~= s);
    let out = s.reverse();
    assert(out.reverse() =~= s);
}

proof fn lemma_scan_len(s: Seq<char>, k: nat)
    requires
        k <= s.len(),
    ensures
        esc_scan(s, k).1 >= 0,
        esc_scan(s, k).2.len() + (if esc_scan(s, k).1 % 2 != 0 {
            1int
        } else {
            0int
        }) <= 2 * k,
    decreases k,
{
    if k > 0 {
        lemma_scan_len(s, (k - 1) as nat);
    }
}

/// Escaping at most doubles a string: each character gains at most one
/// backslash.
pub proof fn lemma_escape_len(s: Seq<char>)
    ensures
        escape_spec(s).len() <= 2 * s.len(),
{
    lemma_scan_escaped(s);
    lemma_scan_len(s, s.len());
}

/// `s` without its backslashes.
pub open spec fn strip_backslashes(s: Seq<char>) -> Seq<char>
    decreases s.len(),
{
    if s.len() == 0 {
        Seq::empty()
    } else {
        strip_backslashes(s.drop_last()) + if s.last() == '\\' {
            Seq::<char>::empty()
        } else {
            seq![s.last()]
        }
    }
}

proof fn lemma_strip_single(x: char)
    ensures
        strip_backslashes(seq![x]) == (if x == '\\' {
            Seq::<char>::empty()
        } else {
            seq![x]
        }),
{
    assert(seq![x].drop_last() =~= Seq::<char>::empty());
    assert(strip_backslashes(Seq::<char>::empty()) == Seq::<char>::empty());
    assert(seq![x].last() == x);
    assert(Seq::<char>::empty() + seq![x] =~= seq![x]);
    assert(Seq::<char>::empty() + Seq::<char>::empty() =~= Seq::<char>::empty());
}

proof fn lemma_strip_add(a: Seq<char>, b: Seq<char>)
    ensures
        strip_backslashes(a + b) == strip_backslashes(a) + strip_backslashes(b),
    decreases b.len(),
{
    if b.len() == 0 {
        assert(a + b =~= a);
        assert(strip_backslashes(a) + strip_backslashes(b) =~= strip_backslashes(a));
    } else {
        lemma_strip_add(a, b.drop_last());
        assert((a + b).drop_last() =~= a + b.drop_last());
        assert((a + b).last() == b.last());
        assert(strip_backslashes(a + b) =~= strip_backslashes(a) + strip_backslashes(b));
    }
}

proof fn lemma_strip_reverse(s: Seq<char>)
    ensures
        strip_backslashes(s.reverse()) == strip_backslashes(s).reverse(),
    decreases s.len(),
{
    if s.len() > 0 {
        let t = s.drop_last();
        let x = s.last();
        lemma_strip_reverse(t);
        assert(s.reverse() =~= seq![x] + t.reverse());
        lemma_strip_add(seq![x], t.reverse());
        lemma_strip_single(x);
        assert(strip_backslashes(s).reverse() =~= strip_backslashes(seq![x]) + strip_backslashes(t).reverse());
    }
}

proof fn lemma_scan_strip(s: Seq<char>, k: nat)
    requires
        k <= s.len(),
    ensures
        strip_backslashes(esc_scan(s, k).2) == strip_backslashes(s.subrange(s.len() - k, s.len() as int).reverse()),
    decreases k,
{
    if k == 0 {
        assert(s.subrange(s.len() as int, s.len() as int).reverse() =~= Seq::<char>::empty());
    } else {
        lemma_scan_strip(s, (k - 1) as nat);
        let (w, n, out) = esc_scan(s, (k - 1) as nat);
        let ch = s[s.len() - k];
        let prev = s.subrange(s.len() - k + 1, s.len() as int);
        let cur = s.subrange(s.len() - k, s.len() as int);
        assert(cur =~= seq![ch] + prev);
        assert(cur.reverse() =~= prev.reverse() + seq![ch]);
        lemma_strip_add(prev.reverse(), seq![ch]);
        let bal: Seq<char> = if ch != '\\' && n > 0 && n % 2 != 0 { seq!['\\'] } else { Seq::empty() };
        let br: Seq<char> = if is_glob_bracket(ch) { seq!['\\'] } else { Seq::empty() };
        assert(esc_scan(s, k).2 == out + bal + seq![ch] + br);
        lemma_strip_add(out + bal + seq![ch], br);
        lemma_strip_add(out + bal, seq![ch]);
        lemma_strip_add(out, bal);
        lemma_strip_single('\\');
        assert(strip_backslashes(Seq::<char>::empty()) == Seq::<char>::empty());
        assert(strip_backslashes(bal) =~= Seq::<char>::empty());
        assert(strip_backslashes(br) =~= Seq::<char>::empty());
        assert(out + Seq::<char>::empty() =~= out);
        assert(strip_backslashes(out) + Seq::<char>::empty() =~= strip_backslashes(out));
        assert(strip_backslashes(out + bal + seq![ch]) + Seq::<char>::empty() =~= strip_backslashes(out + bal + seq![ch]));
    }
}

/// Escaping only adds backslashes: without them, the escaped string is the
/// string without them.
pub proof fn lemma_escape_adds_only_backslashes(s: Seq<char>)
    ensures
        strip_backslashes(escape_spec(s)) == strip_backslashes(s),
{
    lemma_scan_escaped(s);
    let (_, n, out) = esc_scan(s, s.len());
    lemma_scan_strip(s, s.len());
    assert(s.subrange(0, s.len() as int) =~= s);
    let x = if n % 2 != 0 { out.push('\\') } else { out };
    if n % 2 != 0 {
        assert(out.push('\\').drop_last() =~= out);
    }
    assert(strip_backslashes(x) == strip_backslashes(out));
    lemma_strip_reverse(x);
    lemma_strip_reverse(s);
    assert(strip_backslashes(s).reverse().reverse() =~= strip_backslashes(s));
}

/// The escaped characters of `s`.
pub fn escape_chars(s: &[char]) -> (r: Vec<char>)
    ensures
        r@ == escape_spec(s@),
{
    let len = s.len();
    let mut rev: Vec<char> = Vec::new();
    let mut wildcard = false;
    let mut slash_count: usize = 0;
    let mut i = len;
    while i > 0
        invariant
            i <= len == s@.len(),
            slash_count <= len - i,
            (wildcard, slash_count as int, rev@) == esc_scan(s@, (len - i) as nat),
        decreases i,
    {
        i = i - 1;
        let ch = s[i];
        let ghost k = (len - i) as nat;
        assert(s@.len() - k == i);
        if ch == SIGMA_WILDCARD || ch == SIGMA_SINGLE {
            wildcard = true;
        } else if ch == SIGMA_ESCAPE {
            if !wildcard {
                slash_count = slash_count + 1;
            }
        } else {
            wildcard = false;
        }
        if ch != SIGMA_ESCAPE && slash_count > 0 {
            if slash_count % 2 != 0 {
                rev.push(SIGMA_ESCAPE);
            }
            slash_count = 0;
        }
        rev.push(ch);
        if ch == '[' || ch == ']' || ch == '{' || ch == '}' {
            rev.push(SIGMA_ESCAPE);
        }
        assert(rev@ =~= esc_scan(s@, k).2);
    }
    if slash_count % 2 != 0 {
        rev.push(SIGMA_ESCAPE);
    }
    let ghost full = rev@;
    let mut out: Vec<char> = Vec::new();
    let mut j = rev.len();
    while j > 0
        invariant
            j <= rev@.len(),
            rev@ == full,
            out@ == full.subrange(j as int, full.len() as int).reverse(),
        decreases j,
    {
        j = j - 1;
        out.push(rev[j]);
        assert(out@ =~= full.subrange(j as int, full.len() as int).reverse());
    }
    assert(full.subrange(0, full.len() as int) =~= full);
    proof {
        lemma_scan_escaped(s@);
    }
    out
}

/// Whether escaping would change `s`.
fn needs_escaping_exec(s: &[char]) -> (r: bool)
    ensures
        r == needs_escaping(s@),
{
    let mut i: usize = 0;
    while i < s.len()
        invariant
            i <= s@.len(),
            forall|j: int| 0 <= j < i ==> !needs_escape(#[trigger] s@[j]),
        decreases s.len() - i,
    {
        let c = s[i];
        if c == '[' || c == ']' || c == '{' || c == '}' || c == SIGMA_ESCAPE {
            assert(needs_escape(s@[i as int]));
            return true;
        }
        i = i + 1;
    }
    false
}

/// Escape Sigma string for use with glob patterns (zero-copy when no escaping needed)
pub fn escape_sigma_for_glob_cow(s: &str) -> (r: Cow<'_, str>)
    ensures
        r@ == escape_spec(s@),
        (r matches Cow::Borrowed(b) && b == s) <==> !needs_escaping(s@),
        r matches Cow::Owned(_) <==> needs_escaping(s@),
{
    let v = chars_of(s);
    if v.len() == 0 {
        proof {
            lemma_escape_plain_identity(s@);
        }
        return Cow::Borrowed(s);
    }
    if !needs_escaping_exec(v.as_slice()) {
        proof {
            lemma_escape_plain_identity(s@);
        }
        return Cow::Borrowed(s);
    }
    Cow::Owned(escape_sigma_for_glob_owned(s))
}

/// Escape Sigma string for use with glob patterns (always allocates)
pub fn escape_sigma_for_glob(s: &str) -> (r: String)
    ensures
        r@ == escape_spec(s@),
        r@.len() <= 2 * s@.len(),
{
    proof {
        lemma_escape_len(s@);
    }
    match escape_sigma_for_glob_cow(s) {
        Cow::Borrowed(b) => b.to_owned(),
        Cow::Owned(o) => o,
    }
}

/// Internal function that always returns an owned string
fn escape_sigma_for_glob_owned(s: &str) -> (r: String)
    ensures
        r@ == escape_spec(s@),
        r@.len() <= 2 * s@.len(),
{
    proof {
        lemma_escape_len(s@);
    }
    let v = chars_of(s);
    let e = escape_chars(v.as_slice());
    string_from_chars(e.as_slice())
}

} // verus!
