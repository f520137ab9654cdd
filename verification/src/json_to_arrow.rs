//! The line handling of JSON to Arrow conversion.
//!
//! JSON events arrive one per line. Blank lines are skipped; the schema, when
//! none is given, is inferred from the lines among the first hundred that
//! parse as JSON; the lines are cut into batches of at most the batch size,
//! and each batch is handed to `arrow-json` written as one JSON array. The
//! decoding itself, and the record batches it makes, belong to the caller.
use vstd::prelude::*;
use vstd::string::StringExecFns;

use crate::error::SigmaError;
use crate::text::{chars_of, owned, trim, trim_chars};

verus! {

/// Whether `serde_json` parses the text as one JSON value.
pub uninterp spec fn json_text_parses(text: Seq<char>) -> bool;

/// Whether a line parses as JSON.
///
/// Trusted: calls `serde_json::from_str` for a `serde_json::Value`. Claims
/// only that the answer is the one named `json_text_parses` for the line.
#[verifier::external_body]
fn parses_as_json(line: &str) -> (r: bool)
    ensures
        r == json_text_parses(line@),
{
    serde_json::from_str::<serde_json::Value>(line).is_ok()
}

/// The lines that are not blank, in order.
pub open spec fn non_blank(lines: Seq<String>) -> Seq<String> {
    lines.filter(|l: String| trim(l@).len() > 0)
}

/// The lines joined by commas.
pub open spec fn joined_with_commas(lines: Seq<String>) -> Seq<char>
    decreases lines.len(),
{
    if lines.len() == 0 {
        Seq::empty()
    } else if lines.len() == 1 {
        lines[0]@
    } else {
        joined_with_commas(lines.drop_last()) + ","@ + lines.last()@
    }
}

/// The lines written as one JSON array.
pub open spec fn json_array_of(lines: Seq<String>) -> Seq<char> {
    "["@ + joined_with_commas(lines) + "]"@
}

/// The lines among the first hundred that parse as JSON, in order.
pub open spec fn sample_of(lines: Seq<String>) -> Seq<String> {
    lines.take(if lines.len() < 100 { lines.len() as int } else { 100 }).filter(|l: String| json_text_parses(l@))
}

/// The lines each followed by a newline.
pub open spec fn as_json_lines(lines: Seq<String>) -> Seq<char>
    decreases lines.len(),
{
    if lines.len() == 0 {
        Seq::empty()
    } else {
        as_json_lines(lines.drop_last()) + lines.last()@ + "\n"@
    }
}

/// The number of batches of at most `size` lines that `n` lines make.
pub open spec fn batch_count(n: int, size: int) -> int {
    (n + size - 1) / size
}

/// The message when no line of the sample is JSON.
pub open spec fn no_json_message() -> Seq<char> {
    "No valid JSON found for schema inference"@
}

/// Whether a line holds only whitespace.
pub fn is_blank(line: &str) -> (r: bool)
    ensures
        r == (trim(line@).len() == 0),
{
    let c = chars_of(line);
    trim_chars(c.as_slice()).len() == 0
}

/// The lines that are not blank, in order.
pub fn non_blank_lines(lines: &[String]) -> (r: Vec<String>)
    ensures
        r@ == non_blank(lines@),
{
    let mut kept: Vec<String> = Vec::new();
    let mut i: usize = 0;
    while i < lines.len()
        invariant
            i <= lines@.len(),
            kept@ == non_blank(lines@.take(i as int)),
        decreases lines.len() - i,
    {
        proof {
            reveal(Seq::filter);
            assert(lines@.take(i as int + 1).drop_last() =~= lines@.take(i as int));
        }
        if !is_blank(lines[i].as_str()) {
            kept.push(lines[i].clone());
        }
        i = i + 1;
    }
    assert(lines@.take(lines@.len() as int) =~= lines@);
    kept
}

/// Writes lines as one JSON array: `[`, the lines separated by commas, `]`.
pub fn json_array_text(lines: &[String]) -> (r: String)
    ensures
        r@ == json_array_of(lines@),
{
    let mut body = String::new();
    let mut i: usize = 0;
    while i < lines.len()
        invariant
            i <= lines@.len(),
            body@ == joined_with_commas(lines@.take(i as int)),
        decreases lines.len() - i,
    {
        proof {
            assert(lines@.take(i as int + 1).drop_last() =~= lines@.take(i as int));
        }
        if i > 0 {
            body = body.concat(",");
        }
        body = body.concat(lines[i].as_str());
        i = i + 1;
    }
    assert(lines@.take(lines@.len() as int) =~= lines@);
    owned("[").concat(body.as_str()).concat("]")
}

/// The text a schema is inferred from: the lines among the first hundred
/// that parse as JSON, one per line. Fails when there are none.
pub fn schema_sample_text(lines: &[String]) -> (r: Result<String, SigmaError>)
    ensures
        sample_of(lines@).len() == 0 ==> (r matches Err(SigmaError::Parse(m)) && m@ == no_json_message()),
        sample_of(lines@).len() > 0 ==> (r matches Ok(t) && t@ == as_json_lines(sample_of(lines@))),
{
    let limit = if lines.len() < 100 {
        lines.len()
    } else {
        100
    };
    let ghost taken = lines@.take(limit as int);
    let mut text = String::new();
    let mut found: usize = 0;
    let mut i: usize = 0;
    while i < limit
        invariant
            i <= limit <= lines@.len(),
            taken == lines@.take(limit as int),
            text@ == as_json_lines(taken.take(i as int).filter(|l: String| json_text_parses(l@))),
            found == taken.take(i as int).filter(|l: String| json_text_parses(l@)).len(),
        decreases limit - i,
    {
        let ghost prev = taken.take(i as int).filter(|l: String| json_text_parses(l@));
        proof {
            reveal(Seq::filter);
            assert(taken.take(i as int + 1).drop_last() =~= taken.take(i as int));
            assert(taken.take(i as int + 1).last() == lines@[i as int]);
        }
        if parses_as_json(lines[i].as_str()) {
            text = text.concat(lines[i].as_str()).concat("\n");
            found = found + 1;
            proof {
                assert(prev.push(lines@[i as int]).drop_last() =~= prev);
            }
        }
        i = i + 1;
    }
    assert(taken.take(limit as int) =~= taken);
    if found == 0 {
        Err(SigmaError::Parse(owned("No valid JSON found for schema inference")))
    } else {
        Ok(text)
    }
}

/// Where the batches of `n` lines begin and end: consecutive ranges of
/// `size` lines from the first, the last one holding what is left.
pub fn batch_bounds(n: usize, size: usize) -> (r: Vec<(usize, usize)>)
    requires
        size > 0,
    ensures
        r@.len() == batch_count(n as int, size as int),
        forall|k: int|
            0 <= k < r@.len() ==> (#[trigger] r@[k]).0 == k * size && r@[k].1 == (if (k + 1) * size < n {
                (k + 1) * size
            } else {
                n as int
            }),
{
    let mut bounds: Vec<(usize, usize)> = Vec::new();
    let mut start: usize = 0;
    proof {
        vstd::arithmetic::div_mod::lemma_fundamental_div_mod_converse_div(size - 1, size as int, 0, size - 1);
        assert(0 * size == 0) by (nonlinear_arith);
    }
    while start < n
        invariant
            size > 0,
            start <= n,
            start < n ==> start == bounds@.len() * size,
            bounds@.len() == batch_count(start as int, size as int),
            forall|k: int|
                0 <= k < bounds@.len() ==> (#[trigger] bounds@[k]).0 == k * size && bounds@[k].1 == (if (k + 1) * size < n {
                    (k + 1) * size
                } else {
                    n as int
                }),
        decreases n - start,
    {
        let end = if n - start > size {
            start + size
        } else {
            n
        };
        proof {
            assert((bounds@.len() + 1) * size == bounds@.len() * size + size) by (nonlinear_arith);
            lemma_batch_count_step(bounds@.len() as int, end as int, n as int, size as int);
        }
        bounds.push((start, end));
        start = end;
    }
    bounds
}

/// Each batch but the last is full, so the count goes up by one per batch.
proof fn lemma_batch_count_step(j: int, end: int, n: int, size: int)
    requires
        size > 0,
        j >= 0,
        0 <= j * size < end <= n,
        end == j * size + size || (end == n && n - j * size <= size),
    ensures
        batch_count(end, size) == batch_count(j * size, size) + 1,
{
    vstd::arithmetic::div_mod::lemma_fundamental_div_mod_converse_div(j * size + size - 1, size, j, size - 1);
    assert((j + 1) * size == j * size + size) by (nonlinear_arith);
    vstd::arithmetic::div_mod::lemma_fundamental_div_mod_converse_div(end + size - 1, size, j + 1, end - j * size - 1);
}

/// JSON lines waiting to be converted together.
#[derive(Debug)]
pub struct JsonLineBuffer {
    lines: Vec<String>,
    batch_size: usize,
}

impl JsonLineBuffer {
    /// The lines waiting, in arrival order.
    pub closed spec fn lines_spec(&self) -> Seq<String> {
        self.lines@
    }

    /// The number of lines that makes the buffer ready to flush.
    pub closed spec fn batch_size_spec(&self) -> usize {
        self.batch_size
    }

    /// An empty buffer flushed every `batch_size` lines.
    pub fn new(batch_size: usize) -> (r: Self)
        ensures
            r.lines_spec() == Seq::<String>::empty(),
            r.batch_size_spec() == batch_size,
    {
        JsonLineBuffer { lines: Vec::new(), batch_size }
    }

    /// Add a JSON line to the buffer; a blank line is skipped.
    pub fn add_line(&mut self, line: String)
        ensures
            final(self).batch_size_spec() == old(self).batch_size_spec(),
            final(self).lines_spec() == (if trim(line@).len() == 0 {
                old(self).lines_spec()
            } else {
                old(self).lines_spec().push(line)
            }),
    {
        if !is_blank(line.as_str()) {
            self.lines.push(line);
        }
    }

    /// Check if buffer is ready to flush
    pub fn should_flush(&self) -> (r: bool)
        ensures
            r == (self.lines_spec().len() >= self.batch_size_spec()),
    {
        self.lines.len() >= self.batch_size
    }

    /// The lines waiting.
    pub fn lines(&self) -> (r: &[String])
        ensures
            r@ == self.lines_spec(),
    {
        self.lines.as_slice()
    }

    /// Empties the buffer once its lines are converted.
    pub fn clear(&mut self)
        ensures
            final(self).lines_spec() == Seq::<String>::empty(),
            final(self).batch_size_spec() == old(self).batch_size_spec(),
    {
        self.lines = Vec::new();
    }
}

} // verus!
