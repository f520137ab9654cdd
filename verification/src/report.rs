//! Lines that report the matches of an evaluation: the compact form (the
//! matched rule identifiers) and the CSV form (one row per matched rule).
use vstd::prelude::*;

use crate::ruleset::{RuleMatch, RuleSetResult};
use crate::service::matched_only;
use crate::text::{chars_of, digits_of, owned, string_from_chars, usize_to_decimal};

verus! {

/// The header row of the CSV form.
pub fn csv_header() -> (r: String)
    ensures
        r@ == "timestamp,event_id,rule_id,rule_title,matched"@,
{
    owned("timestamp,event_id,rule_id,rule_title,matched")
}

/// The identifiers of the rules, separated by commas.
pub open spec fn joined_ids(ms: Seq<RuleMatch>) -> Seq<char>
    decreases ms.len(),
{
    if ms.len() == 0 {
        Seq::empty()
    } else if ms.len() == 1 {
        ms[0].rule_id@
    } else {
        joined_ids(ms.drop_last()) + ","@ + ms.last().rule_id@
    }
}

/// The compact line of an evaluation: the identifiers of the matched rules,
/// separated by commas; no line when no rule matched.
pub open spec fn compact_text(ms: Seq<RuleMatch>) -> Option<Seq<char>> {
    if matched_only(ms).len() == 0 {
        None
    } else {
        Some(joined_ids(matched_only(ms)))
    }
}

/// A text as a CSV cell: its commas written as semicolons.
pub open spec fn csv_cell(s: Seq<char>) -> Seq<char> {
    s.map_values(|c: char| if c == ',' { ';' } else { c })
}

/// The CSV row of a matched rule.
pub open spec fn csv_row(timestamp: Seq<char>, event_num: nat, m: RuleMatch) -> Seq<char> {
    timestamp + ","@ + digits_of(event_num) + ","@ + m.rule_id@ + ","@ + csv_cell(m.rule_title@) + ",true"@
}

/// The compact line of an evaluation.
pub fn compact_line(result: &RuleSetResult) -> (r: Option<String>)
    ensures
        match r {
            Some(line) => compact_text(result.matches@) == Some(line@),
            None => compact_text(result.matches@) is None,
        },
{
    let mut line = String::new();
    let mut any = false;
    let mut i: usize = 0;
    assert(result.matches@.take(0) =~= Seq::<RuleMatch>::empty());
    while i < result.matches.len()
        invariant
            i <= result.matches@.len(),
            any == (matched_only(result.matches@.take(i as int)).len() > 0),
            line@ == joined_ids(matched_only(result.matches@.take(i as int))),
        decreases result.matches.len() - i,
    {
        let ghost before = matched_only(result.matches@.take(i as int));
        assert(result.matches@.take(i + 1).drop_last() =~= result.matches@.take(i as int));
        assert(result.matches@.take(i + 1).last() == result.matches@[i as int]);
        let m = &result.matches[i];
        if m.matched {
            let ghost after = before.push(*m);
            assert(after.drop_last() =~= before);
            if !any {
                line = m.rule_id.clone();
                assert(line@ == joined_ids(after)) by {
                    assert(after.len() == 1);
                }
            } else {
                line = line.concat(",").concat(m.rule_id.as_str());
            }
            any = true;
        }
        i = i + 1;
    }
    assert(result.matches@.take(result.matches@.len() as int) =~= result.matches@);
    if !any {
        None
    } else {
        Some(line)
    }
}

/// A text as a CSV cell.
fn csv_cell_of(s: &str) -> (r: String)
    ensures
        r@ == csv_cell(s@),
{
    let chars = chars_of(s);
    let mut out: Vec<char> = Vec::new();
    let mut i: usize = 0;
    while i < chars.len()
        invariant
            i <= chars@.len(),
            chars@ == s@,
            out@ == csv_cell(s@.take(i as int)),
        decreases chars.len() - i,
    {
        let c = chars[i];
        out.push(if c == ',' { ';' } else { c });
        i = i + 1;
        assert(out@ =~= csv_cell(s@.take(i as int)));
    }
    assert(s@.take(s@.len() as int) =~= s@);
    string_from_chars(out.as_slice())
}

/// The CSV rows of an evaluation: one per matched rule, in order.
pub fn csv_rows(result: &RuleSetResult, timestamp: &str, event_num: usize) -> (r: Vec<String>)
    ensures
        r@.len() == matched_only(result.matches@).len(),
        forall|k: int|
            0 <= k < r@.len() ==> (#[trigger] r@[k])@ == csv_row(
                timestamp@,
                event_num as nat,
                matched_only(result.matches@)[k],
            ),
{
    let mut rows: Vec<String> = Vec::new();
    let mut i: usize = 0;
    assert(result.matches@.take(0) =~= Seq::<RuleMatch>::empty());
    while i < result.matches.len()
        invariant
            i <= result.matches@.len(),
            rows@.len() == matched_only(result.matches@.take(i as int)).len(),
            forall|k: int|
                0 <= k < rows@.len() ==> (#[trigger] rows@[k])@ == csv_row(
                    timestamp@,
                    event_num as nat,
                    matched_only(result.matches@.take(i as int))[k],
                ),
        decreases result.matches.len() - i,
    {
        assert(result.matches@.take(i + 1).drop_last() =~= result.matches@.take(i as int));
        assert(result.matches@.take(i + 1).last() == result.matches@[i as int]);
        let m = &result.matches[i];
        if m.matched {
            let row = owned(timestamp).concat(",").concat(usize_to_decimal(event_num).as_str()).concat(",").concat(
                m.rule_id.as_str(),
            ).concat(",").concat(csv_cell_of(m.rule_title.as_str()).as_str()).concat(",true");
            rows.push(row);
        }
        i = i + 1;
    }
    assert(result.matches@.take(result.matches@.len() as int) =~= result.matches@);
    rows
}

} // verus!
