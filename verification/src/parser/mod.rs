//! Parser for rule conditions: it checks the token sequence and builds the
//! condition tree.
use vstd::prelude::*;

/// Parser error types
pub mod error;
/// Field rules of a condition
pub mod rules;
/// What conditions mean
pub mod semantics;
/// Validation utilities for parsed rules
pub mod validate;

pub use error::ParseError;
pub use validate::valid_token_sequence;

use crate::ast::nodes::{new_node_not_if_negated, Branch, NodeSimpleAnd, NodeSimpleOr};
use crate::lexer::items_view;
use crate::lexer::token::{Item, Token};
use crate::parser::rules::{create_rule_from_ident, rule_fail_is};
use crate::parser::semantics::{
    all_denote, denotes, finish_group, initial_pstate, lemma_all_denote_push,
    lemma_denotes_not, lemma_denotes_reduced_and, lemma_denotes_reduced_or,
    lemma_denotes_simple_and, lemma_denotes_simple_or, lemma_matching_close_bounds,
    lemma_rules_all_err_extends, matching_close, parse_cond, parse_run, push_operand,
    quantified, rule_cond, rules_all, wildcard_entries, wildcard_pred, with_not, Cond, PFail,
    PState, RuleFail, MAX_RECURSION_DEPTH,
};
use crate::pattern::engines::{compile_glob, glob_compiles, glob_is_match, CompiledGlob};
use crate::rule::detection::{entry_refs, selections, Detection, DetectionValue};
use crate::lexer::lex;
use crate::lexer::state::lex_spec;
use crate::parser::validate::valid_sequence_spec;
use crate::pattern::security::byte_len;
use crate::rule::detection::entry_value;
use crate::text::{chars_of, owned, str_eq};

verus! {

/// Why parsing failed, as a parse error.
pub open spec fn pfail_is(e: ParseError, f: PFail) -> bool {
    match f {
        PFail::Rule(rf) => rule_fail_is(e, rf),
        PFail::MissingItem(v) => e matches ParseError::MissingConditionItem { key } && key@ == v,
        PFail::Recursion(d) => e matches ParseError::RecursionLimitExceeded { current, limit }
            && current == d && limit == MAX_RECURSION_DEPTH,
        PFail::Unsupported(v) => e matches ParseError::UnsupportedToken { msg } && msg@ == v,
        PFail::WildcardContext => e matches ParseError::ParserError(m) && m@
            == "Invalid wildcard context"@,
        PFail::NoWildcardMatch => e matches ParseError::ParserError(m) && m@
            == "No matching identifiers for wildcard pattern"@,
        PFail::NoDetectionFields => e matches ParseError::DetectionParsingFailed { rule_id, error }
            && rule_id@ == "unknown"@ && error@ == "No detection fields found in rule"@,
        PFail::Unbalanced => e matches ParseError::ParserError(m) && m@ == "Unbalanced parentheses"@,
        PFail::NoBranches => e matches ParseError::ParserError(m) && m@ == "No valid branches found"@,
        PFail::EmptyConjunction => e matches ParseError::ParserError(m) && m@
            == "Cannot reduce empty AND node - this indicates a parser bug"@,
        PFail::WildcardCompile(_) => e is WildcardCompilationError,
    }
}

/// Extract tokens within a group (parentheses): the tokens from `start` up
/// to the parenthesis that closes the group, and the position after it.
pub fn extract_group(tokens: &[Item], start: usize) -> (r: Result<(Vec<Item>, usize), ParseError>)
    requires
        start <= tokens@.len(),
    ensures
        match matching_close(items_view(tokens@), start as int, 1) {
            Some(j) => r matches Ok((g, next)) && next == j + 1 && start <= j < tokens@.len()
                && items_view(g@) == items_view(tokens@).subrange(start as int, j),
            None => r matches Err(e) && e matches ParseError::ParserError(m) && m@
                == "Unbalanced parentheses"@,
        },
{
    let ghost toks = items_view(tokens@);
    let mut group: Vec<Item> = Vec::new();
    let mut balance: u128 = 1;
    let mut k: usize = start;
    while k < tokens.len()
        invariant
            start <= k <= tokens@.len(),
            toks == items_view(tokens@),
            1 <= balance <= k - start + 1,
            matching_close(toks, start as int, 1) == matching_close(toks, k as int, balance as int),
            items_view(group@) == toks.subrange(start as int, k as int),
        decreases tokens.len() - k,
    {
        let ghost before = group@;
        match tokens[k].token {
            Token::SepLpar => {
                balance = balance + 1;
            },
            Token::SepRpar => {
                balance = balance - 1;
                if balance == 0 {
                    proof {
                        lemma_matching_close_bounds(toks, start as int, 1);
                    }
                    return Ok((group, k + 1));
                }
            },
            _ => {},
        }
        group.push(tokens[k].duplicate());
        assert(toks.subrange(start as int, k + 1) =~= toks.subrange(start as int, k as int).push(toks[k as int]));
        assert(items_view(group@) =~= items_view(before).push(tokens@[k as int]@));
        k = k + 1;
    }
    Err(ParseError::parser_error(owned("Unbalanced parentheses")))
}

/// Extract all fields (except condition) and create rules
pub fn extract_all_to_rules(detection: &Detection, no_collapse_ws: bool) -> (r: Result<Vec<Branch>, ParseError>)
    ensures
        match rules_all(selections(detection@), no_collapse_ws) {
            Err(f) => r matches Err(e) && rule_fail_is(e, f),
            Ok(cs) => if cs.len() == 0 {
                r matches Err(e) && e matches ParseError::DetectionParsingFailed { rule_id, error }
                    && rule_id@ == "unknown"@ && error@ == "No detection fields found in rule"@
            } else {
                r matches Ok(bs) && all_denote(bs@, cs)
            },
        },
{
    let extracted = detection.extract();
    let ghost sel = selections(detection@);
    let mut rules: Vec<Branch> = Vec::new();
    let ghost mut cs: Seq<Cond> = Seq::empty();
    let mut k: usize = 0;
    while k < extracted.len()
        invariant
            k <= extracted@.len(),
            sel == entry_refs(extracted@),
            sel == selections(detection@),
            rules_all(sel.take(k as int), no_collapse_ws) == Ok::<Seq<Cond>, RuleFail>(cs),
            all_denote(rules@, cs),
        decreases extracted.len() - k,
    {
        assert(sel.take(k + 1).drop_last() =~= sel.take(k as int));
        assert(sel.take(k + 1).last() == sel[k as int]);
        assert(sel[k as int] == *extracted@[k as int]);
        let entry = extracted[k];
        match create_rule_from_ident(entry.0.as_str(), &entry.1, no_collapse_ws) {
            Ok(b) => {
                let ghost c = rule_cond(sel[k as int].0@, sel[k as int].1, no_collapse_ws)->Ok_0;
                proof {
                    lemma_all_denote_push(rules@, cs, b, c);
                    cs = cs.push(c);
                }
                rules.push(b);
            },
            Err(e) => {
                proof {
                    lemma_rules_all_err_extends(sel.take(k + 1), sel.skip(k + 1), no_collapse_ws);
                    assert(sel.take(k + 1) + sel.skip(k + 1) =~= sel);
                }
                return Err(e);
            },
        }
        k = k + 1;
    }
    assert(sel.take(extracted@.len() as int) =~= sel);
    if rules.len() == 0 {
        return Err(
            ParseError::detection_parsing_failed(
                owned("unknown"),
                owned("No detection fields found in rule"),
            ),
        );
    }
    Ok(rules)
}

/// Extract identifiers matching a wildcard pattern
pub fn extract_wildcard_idents(detection: &Detection, pattern: &CompiledGlob, no_collapse_ws: bool) -> (r:
    Result<Vec<Branch>, ParseError>)
    ensures
        match rules_all(wildcard_entries(detection@, pattern@), no_collapse_ws) {
            Err(f) => r matches Err(e) && rule_fail_is(e, f),
            Ok(cs) => if cs.len() == 0 {
                r matches Err(e) && e matches ParseError::ParserError(m) && m@
                    == "No matching identifiers for wildcard pattern"@
            } else {
                r matches Ok(bs) && all_denote(bs@, cs)
            },
        },
{
    let ghost det = detection@;
    let ghost pred = wildcard_pred(pattern@);
    let mut rules: Vec<Branch> = Vec::new();
    let ghost mut cs: Seq<Cond> = Seq::empty();
    let mut i: usize = 0;
    assert(det.take(0) =~= Seq::<(String, DetectionValue)>::empty());
    while i < detection.len()
        invariant
            i <= det.len(),
            det == detection@,
            pred == wildcard_pred(pattern@),
            rules_all(det.take(i as int).filter(pred), no_collapse_ws) == Ok::<Seq<Cond>, RuleFail>(cs),
            all_denote(rules@, cs),
        decreases det.len() - i,
    {
        let (key, value) = detection.entry(i);
        assert(det.take(i + 1) =~= det.take(i as int).push(det[i as int]));
        proof {
            det.take(i as int).lemma_filter_push(det[i as int], pred);
        }
        let ghost pre = det.take(i as int).filter(pred);
        if !str_eq(key.as_str(), "condition") && glob_is_match(pattern, key.as_str()) {
            assert(pred(det[i as int]));
            assert(det.take(i + 1).filter(pred) == pre.push(det[i as int]));
            assert(pre.push(det[i as int]).drop_last() =~= pre);
            match create_rule_from_ident(key.as_str(), value, no_collapse_ws) {
                Ok(b) => {
                    let ghost c = rule_cond(det[i as int].0@, det[i as int].1, no_collapse_ws)->Ok_0;
                    proof {
                        lemma_all_denote_push(rules@, cs, b, c);
                        cs = cs.push(c);
                    }
                    rules.push(b);
                },
                Err(e) => {
                    proof {
                        let a = det.take(i + 1);
                        let bb = det.skip(i + 1);
                        assert(a + bb =~= det);
                        Seq::filter_distributes_over_add(a, bb, pred);
                        lemma_rules_all_err_extends(a.filter(pred), bb.filter(pred), no_collapse_ws);
                    }
                    return Err(e);
                },
            }
        } else {
            assert(!pred(det[i as int]));
        }
        i = i + 1;
    }
    assert(det.take(det.len() as int) =~= det);
    if rules.len() == 0 {
        return Err(ParseError::parser_error(owned("No matching identifiers for wildcard pattern")));
    }
    Ok(rules)
}

/// Build a branch of the AST from tokens
pub fn new_branch(detection: &Detection, tokens: &[Item], depth: usize, no_collapse_ws: bool) -> (r:
    Result<Branch, ParseError>)
    ensures
        match parse_cond(detection@, items_view(tokens@), depth as int, no_collapse_ws) {
            Ok(c) => r matches Ok(b) && denotes(b, c),
            Err(f) => r matches Err(e) && pfail_is(e, f),
        },
    decreases tokens@.len(),
{
    if depth > MAX_RECURSION_DEPTH {
        return Err(ParseError::RecursionLimitExceeded { current: depth, limit: MAX_RECURSION_DEPTH });
    }
    let ghost toks = items_view(tokens@);
    let ghost det = detection@;
    let mut and_branches: Vec<Branch> = Vec::new();
    let mut or_branches: Vec<Branch> = Vec::new();
    let mut negated = false;
    let mut wildcard: Option<Token> = None;
    let ghost mut st: PState = initial_pstate();
    let mut i: usize = 0;
    while i < tokens.len()
        invariant
            i <= tokens@.len(),
            toks == items_view(tokens@),
            det == detection@,
            depth <= MAX_RECURSION_DEPTH,
            parse_cond(det, toks, depth as int, no_collapse_ws) == parse_run(
                det,
                toks,
                i as int,
                st,
                depth as int,
                no_collapse_ws,
            ),
            all_denote(and_branches@, st.ands),
            all_denote(or_branches@, st.ors),
            negated == st.negated,
            wildcard == st.wildcard,
        decreases tokens.len() - i,
    {
        let item = &tokens[i];
        assert(toks[i as int] == (item.token, item.value@));
        match item.token {
            Token::Identifier => {
                match detection.get(item.value.as_str()) {
                    None => {
                        return Err(ParseError::missing_condition_item(item.value.clone()));
                    },
                    Some(value) => {
                        match create_rule_from_ident(item.value.as_str(), value, no_collapse_ws) {
                            Err(e) => {
                                return Err(e);
                            },
                            Ok(rule) => {
                                let ghost c = rule_cond(item.value@, *value, no_collapse_ws)->Ok_0;
                                let branch = new_node_not_if_negated(rule, negated);
                                proof {
                                    if negated {
                                        lemma_denotes_not(rule, c);
                                    }
                                    lemma_all_denote_push(and_branches@, st.ands, branch, with_not(c, negated));
                                    st = push_operand(st, c);
                                }
                                and_branches.push(branch);
                                negated = false;
                            },
                        }
                    },
                }
                i = i + 1;
            },
            Token::KeywordAnd => {
                i = i + 1;
            },
            Token::KeywordOr => {
                let mut taken: Vec<Branch> = Vec::new();
                std::mem::swap(&mut taken, &mut and_branches);
                let ghost bs = taken@;
                match NodeSimpleAnd::new(taken).reduce() {
                    Ok(and_node) => {
                        proof {
                            lemma_denotes_reduced_and(and_node, bs, st.ands);
                            lemma_all_denote_push(or_branches@, st.ors, and_node, Cond::All(st.ands));
                            st = PState { ands: Seq::empty(), ors: st.ors.push(Cond::All(st.ands)), ..st };
                        }
                        or_branches.push(and_node);
                    },
                    Err(_) => {
                        return Err(ParseError::parser_error(owned("Cannot reduce empty AND node - this indicates a parser bug")));
                    },
                }
                i = i + 1;
            },
            Token::KeywordNot => {
                negated = true;
                proof {
                    st = PState { negated: true, ..st };
                }
                i = i + 1;
            },
            Token::SepLpar => {
                match extract_group(tokens, i + 1) {
                    Err(e) => {
                        return Err(e);
                    },
                    Ok((group, next)) => {
                        let ghost j = next - 1;
                        assert(group@.len() == items_view(group@).len());
                        let sub = new_branch(detection, group.as_slice(), depth + 1, no_collapse_ws);
                        assert(items_view(group@) == toks.subrange(i + 1, j));
                        match sub {
                            Err(e) => {
                                return Err(e);
                            },
                            Ok(branch) => {
                                let ghost c = parse_cond(det, toks.subrange(i + 1, j), depth + 1, no_collapse_ws)->Ok_0;
                                let final_branch = new_node_not_if_negated(branch, negated);
                                proof {
                                    if negated {
                                        lemma_denotes_not(branch, c);
                                    }
                                    lemma_all_denote_push(and_branches@, st.ands, final_branch, with_not(c, negated));
                                    st = push_operand(st, c);
                                }
                                and_branches.push(final_branch);
                                negated = false;
                                i = next;
                            },
                        }
                    },
                }
            },
            Token::StmtAllOf => {
                wildcard = Some(Token::StmtAllOf);
                proof {
                    st = PState { wildcard: Some(Token::StmtAllOf), ..st };
                }
                i = i + 1;
            },
            Token::StmtOneOf => {
                wildcard = Some(Token::StmtOneOf);
                proof {
                    st = PState { wildcard: Some(Token::StmtOneOf), ..st };
                }
                i = i + 1;
            },
            Token::IdentifierAll => {
                let branches = match extract_all_to_rules(detection, no_collapse_ws) {
                    Ok(bs) => bs,
                    Err(e) => {
                        return Err(e);
                    },
                };
                let ghost cs = rules_all(selections(det), no_collapse_ws)->Ok_0;
                let ghost bs = branches@;
                let node = match wildcard {
                    Some(Token::StmtAllOf) => {
                        let n = NodeSimpleAnd::new(branches);
                        proof {
                            lemma_denotes_simple_and(n, cs);
                        }
                        Branch::SimpleAnd(n)
                    },
                    Some(Token::StmtOneOf) => {
                        let n = NodeSimpleOr::new(branches);
                        proof {
                            lemma_denotes_simple_or(n, cs);
                        }
                        Branch::SimpleOr(n)
                    },
                    _ => {
                        return Err(ParseError::parser_error(owned("Invalid wildcard context")));
                    },
                };
                let ghost c = if wildcard == Some(Token::StmtAllOf) {
                    Cond::All(cs)
                } else {
                    Cond::Any(cs)
                };
                let final_node = new_node_not_if_negated(node, negated);
                proof {
                    if negated {
                        lemma_denotes_not(node, c);
                    }
                    lemma_all_denote_push(and_branches@, st.ands, final_node, with_not(c, negated));
                    st = PState { wildcard: None, ..push_operand(st, c) };
                }
                and_branches.push(final_node);
                negated = false;
                wildcard = None;
                i = i + 1;
            },
            Token::IdentifierWithWildcard => {
                let pattern = match compile_glob(item.value.as_str()) {
                    Ok(g) => g,
                    Err(e) => {
                        return Err(ParseError::WildcardCompilationError(e));
                    },
                };
                let branches = match extract_wildcard_idents(detection, &pattern, no_collapse_ws) {
                    Ok(bs) => bs,
                    Err(e) => {
                        return Err(e);
                    },
                };
                let ghost cs = rules_all(wildcard_entries(det, item.value@), no_collapse_ws)->Ok_0;
                let node = match wildcard {
                    Some(Token::StmtAllOf) => {
                        let n = NodeSimpleAnd::new(branches);
                        proof {
                            lemma_denotes_simple_and(n, cs);
                        }
                        Branch::SimpleAnd(n)
                    },
                    Some(Token::StmtOneOf) => {
                        let n = NodeSimpleOr::new(branches);
                        proof {
                            lemma_denotes_simple_or(n, cs);
                        }
                        Branch::SimpleOr(n)
                    },
                    _ => {
                        return Err(ParseError::parser_error(owned("Invalid wildcard context")));
                    },
                };
                let ghost c = if wildcard == Some(Token::StmtAllOf) {
                    Cond::All(cs)
                } else {
                    Cond::Any(cs)
                };
                let final_node = new_node_not_if_negated(node, negated);
                proof {
                    if negated {
                        lemma_denotes_not(node, c);
                    }
                    lemma_all_denote_push(and_branches@, st.ands, final_node, with_not(c, negated));
                    st = PState { wildcard: None, ..push_operand(st, c) };
                }
                and_branches.push(final_node);
                negated = false;
                wildcard = None;
                i = i + 1;
            },
            _ => {
                return Err(ParseError::unsupported_token(item.value.clone()));
            },
        }
    }
    if and_branches.len() > 0 {
        let ghost bs = and_branches@;
        match NodeSimpleAnd::new(and_branches).reduce() {
            Ok(and_node) => {
                proof {
                    lemma_denotes_reduced_and(and_node, bs, st.ands);
                    lemma_all_denote_push(or_branches@, st.ors, and_node, Cond::All(st.ands));
                }
                or_branches.push(and_node);
            },
            Err(_) => {
                return Err(ParseError::parser_error(owned("Cannot reduce empty AND node - this indicates a parser bug")));
            },
        }
    }
    if or_branches.len() == 0 {
        return Err(ParseError::parser_error(owned("No valid branches found")));
    }
    let ghost ors = or_branches@;
    let ghost ocs = if st.ands.len() > 0 {
        st.ors.push(Cond::All(st.ands))
    } else {
        st.ors
    };
    match NodeSimpleOr::new(or_branches).reduce() {
        Ok(b) => {
            proof {
                lemma_denotes_reduced_or(b, ors, ocs);
            }
            Ok(b)
        },
        Err(_) => Err(ParseError::parser_error(owned("Cannot reduce empty OR node - this indicates a parser bug"))),
    }
}

/// Maximum number of tokens allowed in a single rule condition
pub const MAX_TOKENS: usize = 10000;

/// Maximum memory allowed for token collection (10MB)
pub const MAX_MEMORY_BYTES: usize = 10485760;

/// The memory an item is counted as using: the item itself, its text's
/// bytes, and a fixed overhead.
pub open spec fn item_size(v: Seq<char>) -> int {
    vstd::layout::size_of::<Item>() + byte_len(v) + 32
}

/// The bytes of the text a detection value holds: its strings and written
/// numbers at any depth, and the names of its properties.
pub open spec fn value_bytes(v: DetectionValue) -> int
    decreases v,
{
    match v {
        DetectionValue::String(s) => byte_len(s@),
        DetectionValue::Number { text, .. } => byte_len(text@),
        DetectionValue::Array(items) => list_bytes(items@),
        DetectionValue::Object(entries) => entries_bytes(entries@),
        _ => 0,
    }
}

/// The bytes of the text of a list of values.
pub open spec fn list_bytes(items: Seq<DetectionValue>) -> int
    decreases items,
{
    if items.len() == 0 {
        0
    } else {
        list_bytes(items.drop_last()) + value_bytes(items.last())
    }
}

/// The bytes of the text of named values, names included.
pub open spec fn entries_bytes(entries: Seq<(String, DetectionValue)>) -> int
    decreases entries,
{
    if entries.len() == 0 {
        0
    } else {
        entries_bytes(entries.drop_last()) + byte_len(entries.last().0@) + value_bytes(entries.last().1)
    }
}

/// The bytes of the text of the selections of a detection section: every
/// value but the condition's.
pub open spec fn selection_bytes(entries: Seq<(String, DetectionValue)>) -> int
    decreases entries.len(),
{
    if entries.len() == 0 {
        0
    } else {
        selection_bytes(entries.drop_last()) + if entries.last().0@ == "condition"@ {
            0
        } else {
            value_bytes(entries.last().1)
        }
    }
}

/// `n`, capped at the largest `usize`.
pub open spec fn cap_usize(n: int) -> int {
    if n <= usize::MAX {
        n
    } else {
        usize::MAX as int
    }
}

/// `a + b`, capped at the largest `usize`.
fn add_capped(a: usize, b: usize) -> (r: usize)
    ensures
        r == cap_usize(a + b),
{
    match a.checked_add(b) {
        Some(c) => c,
        None => usize::MAX,
    }
}

proof fn lemma_bytes_nonneg(v: DetectionValue)
    ensures
        value_bytes(v) >= 0,
    decreases v,
{
    match v {
        DetectionValue::Array(items) => lemma_list_bytes_nonneg(items@),
        DetectionValue::Object(entries) => lemma_entries_bytes_nonneg(entries@),
        _ => {},
    }
}

proof fn lemma_list_bytes_nonneg(items: Seq<DetectionValue>)
    ensures
        list_bytes(items) >= 0,
    decreases items,
{
    if items.len() > 0 {
        lemma_list_bytes_nonneg(items.drop_last());
        lemma_bytes_nonneg(items.last());
    }
}

proof fn lemma_entries_bytes_nonneg(entries: Seq<(String, DetectionValue)>)
    ensures
        entries_bytes(entries) >= 0,
    decreases entries,
{
    if entries.len() > 0 {
        lemma_entries_bytes_nonneg(entries.drop_last());
        lemma_bytes_nonneg(entries.last().1);
    }
}

/// The bytes of the text of a value, capped at the largest `usize`.
fn value_bytes_capped(v: &DetectionValue) -> (r: usize)
    ensures
        r == cap_usize(value_bytes(*v)),
    decreases v,
{
    match v {
        DetectionValue::String(t) => t.as_str().len(),
        DetectionValue::Number { text, .. } => text.as_str().len(),
        DetectionValue::Array(items) => {
            let mut total: usize = 0;
            let mut i: usize = 0;
            while i < items.len()
                invariant
                    i <= items@.len(),
                    total == cap_usize(list_bytes(items@.take(i as int))),
                *v is Array,
                v->Array_0 == *items,
                decreases items.len() - i,
            {
                proof {
                    assert(items@.take(i + 1).drop_last() =~= items@.take(i as int));
                    assert(decreases_to!(*v => v->Array_0));
                    assert(decreases_to!(v->Array_0 => v->Array_0@));
                    assert(decreases_to!(items@ => items@[i as int]));
                    lemma_list_bytes_nonneg(items@.take(i as int));
                    lemma_bytes_nonneg(items@[i as int]);
                }
                let b = value_bytes_capped(&items[i]);
                total = add_capped(total, b);
                i = i + 1;
            }
            assert(items@.take(items@.len() as int) =~= items@);
            total
        },
        DetectionValue::Object(entries) => {
            let mut total: usize = 0;
            let mut i: usize = 0;
            while i < entries.len()
                invariant
                    i <= entries@.len(),
                    total == cap_usize(entries_bytes(entries@.take(i as int))),
                *v is Object,
                v->Object_0 == *entries,
                decreases entries.len() - i,
            {
                proof {
                    assert(entries@.take(i + 1).drop_last() =~= entries@.take(i as int));
                    assert(decreases_to!(*v => v->Object_0));
                    assert(decreases_to!(v->Object_0 => v->Object_0@));
                    assert(decreases_to!(entries@ => entries@[i as int]));
                    assert(decreases_to!(entries@[i as int] => entries@[i as int].1));
                    lemma_entries_bytes_nonneg(entries@.take(i as int));
                    lemma_bytes_nonneg(entries@[i as int].1);
                }
                let b = value_bytes_capped(&entries[i].1);
                let k = entries[i].0.as_str().len();
                total = add_capped(add_capped(total, k), b);
                i = i + 1;
            }
            assert(entries@.take(entries@.len() as int) =~= entries@);
            total
        },
        _ => 0,
    }
}

/// The bytes of the text of the selections, capped at the largest `usize`.
fn selection_bytes_capped(sigma: &Detection) -> (r: usize)
    ensures
        r == cap_usize(selection_bytes(sigma@)),
        selection_bytes(sigma@) >= 0,
{
    let mut total: usize = 0;
    let mut i: usize = 0;
    while i < sigma.len()
        invariant
            i <= sigma@.len(),
            total == cap_usize(selection_bytes(sigma@.take(i as int))),
            selection_bytes(sigma@.take(i as int)) >= 0,
        decreases sigma@.len() - i,
    {
        let (key, value) = sigma.entry(i);
        proof {
            assert(sigma@.take(i + 1).drop_last() =~= sigma@.take(i as int));
            lemma_bytes_nonneg(*value);
        }
        if !str_eq(key.as_str(), "condition") {
            let b = value_bytes_capped(value);
            total = add_capped(total, b);
        }
        i = i + 1;
    }
    assert(sigma@.take(sigma@.len() as int) =~= sigma@);
    total
}

/// Why collecting the tokens of a condition failed.
pub enum CollectFail {
    /// The condition is too long to be scanned
    TooLong,
    /// An unsupported token, with its text
    Unsupported(Seq<char>),
    /// A token that may not follow the previous one
    BadSequence {
        /// The previous token
        prev: (Token, Seq<char>),
        /// The token that may not follow it
        next: (Token, Seq<char>),
        /// The tokens collected before it
        collected: Seq<(Token, Seq<char>)>,
    },
    /// Too many tokens; the count collected
    TokenLimit(int),
    /// Too much memory; the amount the next token would bring it to
    MemoryLimit(int),
    /// The tokens do not end with the end of input
    Incomplete {
        /// The last token
        last: (Token, Seq<char>),
        /// The tokens collected
        collected: Seq<(Token, Seq<char>)>,
    },
}

/// The placeholder that stands before the first token.
pub open spec fn begin_marker() -> (Token, Seq<char>) {
    (Token::Identifier, "<begin>"@)
}

/// Collecting tokens from `items[k]` on, after `prev`, with `toks` collected
/// and `mem` bytes counted.
pub open spec fn collect_run(
    items: Seq<(Token, Seq<char>)>,
    k: int,
    prev: (Token, Seq<char>),
    toks: Seq<(Token, Seq<char>)>,
    mem: int,
    max_tokens: int,
    max_mem: int,
) -> Result<Seq<(Token, Seq<char>)>, CollectFail>
    decreases items.len() - k,
{
    if k < 0 || k >= items.len() {
        if prev.0 is LitEof {
            Ok(toks)
        } else {
            Err(CollectFail::Incomplete { last: prev, collected: toks })
        }
    } else {
        let it = items[k];
        if it.0 is Unsupported {
            Err(CollectFail::Unsupported(it.1))
        } else if prev.1 != "<begin>"@ && !valid_sequence_spec(prev.0, it.0) {
            Err(CollectFail::BadSequence { prev, next: it, collected: toks })
        } else if it.0 is LitEof {
            collect_run(items, k + 1, it, toks, mem, max_tokens, max_mem)
        } else if toks.len() >= max_tokens {
            Err(CollectFail::TokenLimit(toks.len() as int))
        } else if mem + item_size(it.1) > max_mem {
            Err(CollectFail::MemoryLimit(mem + item_size(it.1)))
        } else {
            collect_run(items, k + 1, it, toks.push(it), mem + item_size(it.1), max_tokens, max_mem)
        }
    }
}

/// The last `n` elements of `s` (all of them when it is shorter).
pub open spec fn last_n<A>(s: Seq<A>, n: int) -> Seq<A> {
    s.subrange(if s.len() >= n { s.len() - n } else { 0 }, s.len() as int)
}

/// Why collecting failed, as a parse error.
pub open spec fn collect_fail_is(e: ParseError, f: CollectFail, condition: Seq<char>, max_mem: int) -> bool {
    match f {
        CollectFail::TooLong => e matches ParseError::MemoryLimitExceeded { current_bytes, limit_bytes }
            && current_bytes == usize::MAX && limit_bytes == max_mem,
        CollectFail::Unsupported(v) => e matches ParseError::UnsupportedToken { msg } && msg@ == v,
        CollectFail::BadSequence { prev, next, collected } => e matches ParseError::InvalidTokenSequence {
            prev: p,
            next: n,
            position,
            token_count,
            context_tokens,
        } && p@ == prev && n@ == next && position == collected.len() && token_count == collected.len()
            && items_view(context_tokens@) == last_n(collected, 5),
        CollectFail::TokenLimit(c) => e matches ParseError::TokenLimitExceeded { current, .. } && current == c,
        CollectFail::MemoryLimit(c) => e matches ParseError::MemoryLimitExceeded { current_bytes, limit_bytes }
            && current_bytes == cap_usize(c) && limit_bytes == max_mem,
        CollectFail::Incomplete { last, collected } => e matches ParseError::IncompleteTokenSequence {
            expression,
            items,
            last: l,
        } && expression@ == condition && items_view(items@) == last_n(collected, 10) && l@ == last,
    }
}

/// Why the parentheses of a condition are wrong.
pub enum ParenFail {
    /// Nested deeper than allowed; the depth reached
    TooDeep(int),
    /// A closing parenthesis without an open one
    Unmatched,
    /// Groups left open at the end
    Unbalanced,
}

/// Checking the parentheses from token `k` on, at nesting `depth`, the
/// deepest so far being `max_depth`.
pub open spec fn paren_check(toks: Seq<(Token, Seq<char>)>, k: int, depth: int, max_depth: int) -> Result<
    (),
    ParenFail,
>
    decreases toks.len() - k,
{
    if k < 0 || k >= toks.len() {
        if depth != 0 {
            Err(ParenFail::Unbalanced)
        } else {
            Ok(())
        }
    } else if toks[k].0 is SepLpar {
        let d = depth + 1;
        let md = if max_depth >= d {
            max_depth
        } else {
            d
        };
        if md > MAX_RECURSION_DEPTH {
            Err(ParenFail::TooDeep(md))
        } else {
            paren_check(toks, k + 1, d, md)
        }
    } else if toks[k].0 is SepRpar {
        if depth == 0 {
            Err(ParenFail::Unmatched)
        } else {
            paren_check(toks, k + 1, depth - 1, max_depth)
        }
    } else {
        paren_check(toks, k + 1, depth, max_depth)
    }
}

/// Why the parentheses are wrong, as a parse error.
pub open spec fn paren_fail_is(e: ParseError, f: ParenFail) -> bool {
    match f {
        ParenFail::TooDeep(d) => e matches ParseError::RecursionLimitExceeded { current, limit }
            && current == d && limit == MAX_RECURSION_DEPTH,
        ParenFail::Unmatched => e matches ParseError::ParserError(m) && m@ == "Unmatched closing parenthesis"@,
        ParenFail::Unbalanced => e matches ParseError::ParserError(m) && m@ == "Unbalanced parentheses"@,
    }
}

/// The condition text of a detection: its condition entry when that is a
/// string, else empty.
pub open spec fn condition_text(det: Seq<(String, DetectionValue)>) -> Seq<char> {
    match entry_value(det, "condition"@) {
        Some(DetectionValue::String(s)) => s@,
        _ => Seq::empty(),
    }
}

/// Why building the condition of a detection failed.
pub enum BuildFail {
    /// Collecting the tokens failed
    Collect(CollectFail),
    /// The parentheses are wrong
    Paren(ParenFail),
    /// Parsing the tokens failed
    Parse(PFail),
}

/// What parsing the condition of a detection gives, from a fresh parser:
/// the bytes of the selection values count toward the memory limit before
/// the condition's tokens do.
pub open spec fn condition_outcome(det: Seq<(String, DetectionValue)>, no_collapse_ws: bool) -> Result<
    Cond,
    BuildFail,
> {
    let cond = condition_text(det);
    let counted = cap_usize(selection_bytes(det));
    if counted > MAX_MEMORY_BYTES {
        Err(BuildFail::Collect(CollectFail::MemoryLimit(counted)))
    } else if cond.len() + 8 > usize::MAX {
        Err(BuildFail::Collect(CollectFail::TooLong))
    } else {
        match collect_run(
            lex_spec(cond),
            0,
            begin_marker(),
            Seq::empty(),
            counted,
            MAX_TOKENS as int,
            MAX_MEMORY_BYTES as int,
        ) {
            Err(f) => Err(BuildFail::Collect(f)),
            Ok(toks) => match paren_check(toks, 0, 0, 0) {
                Err(f) => Err(BuildFail::Paren(f)),
                Ok(_) => match parse_cond(det, toks, 0, no_collapse_ws) {
                    Err(f) => Err(BuildFail::Parse(f)),
                    Ok(c) => Ok(c),
                },
            },
        }
    }
}

/// Why building failed, as a parse error.
pub open spec fn build_fail_is(e: ParseError, f: BuildFail, det: Seq<(String, DetectionValue)>) -> bool {
    match f {
        BuildFail::Collect(cf) => collect_fail_is(e, cf, condition_text(det), MAX_MEMORY_BYTES as int),
        BuildFail::Paren(pf) => paren_fail_is(e, pf),
        BuildFail::Parse(pf) => pfail_is(e, pf),
    }
}

/// Parser for Sigma rules that consumes tokens from lexer and builds AST
#[derive(Debug)]
pub struct Parser {
    tokens: Vec<Item>,
    previous: Option<Item>,
    sigma: Detection,
    condition: String,
    result: Option<Branch>,
    no_collapse_ws: bool,
    max_tokens: usize,
    memory_used: usize,
    max_memory: usize,
}

impl Parser {
    /// The collected tokens.
    pub closed spec fn tokens_spec(&self) -> Seq<(Token, Seq<char>)> {
        items_view(self.tokens@)
    }

    /// The detection section parsed.
    pub closed spec fn detection_spec(&self) -> Seq<(String, DetectionValue)> {
        self.sigma@
    }

    /// The condition text.
    pub closed spec fn condition_spec(&self) -> Seq<char> {
        self.condition@
    }

    /// The condition tree built, once parsing succeeded.
    pub closed spec fn result_spec(&self) -> Option<Branch> {
        self.result
    }

    /// Whether whitespace in values is kept as it is.
    pub closed spec fn no_collapse_ws_spec(&self) -> bool {
        self.no_collapse_ws
    }

    /// The largest number of tokens collected.
    pub closed spec fn max_tokens_spec(&self) -> int {
        self.max_tokens as int
    }

    /// The bytes counted for the selection values and the tokens collected.
    pub closed spec fn memory_used_spec(&self) -> int {
        self.memory_used as int
    }

    /// The most bytes the selection values and the tokens may take.
    pub closed spec fn max_memory_spec(&self) -> int {
        self.max_memory as int
    }

    /// What collecting the tokens of the condition gives.
    pub open spec fn collect_outcome(&self) -> Result<Seq<(Token, Seq<char>)>, CollectFail> {
        self.collect_outcome_from(self.memory_used_spec())
    }

    /// What collecting the tokens of the condition gives, `mem` bytes being
    /// counted before the first token.
    pub open spec fn collect_outcome_from(&self, mem: int) -> Result<Seq<(Token, Seq<char>)>, CollectFail> {
        if self.condition_spec().len() + 8 > usize::MAX {
            Err(CollectFail::TooLong)
        } else {
            collect_run(
                lex_spec(self.condition_spec()),
                0,
                begin_marker(),
                self.tokens_spec(),
                mem,
                self.max_tokens_spec(),
                self.max_memory_spec(),
            )
        }
    }

    /// Create a new parser with detection configuration
    pub fn new(sigma: Detection, no_collapse_ws: bool) -> (r: Self)
        ensures
            r.condition_spec() == condition_text(sigma@),
            r.detection_spec() == sigma@,
            r.tokens_spec() == Seq::<(Token, Seq<char>)>::empty(),
            r.result_spec() is None,
            r.no_collapse_ws_spec() == no_collapse_ws,
            r.max_tokens_spec() == MAX_TOKENS,
            r.memory_used_spec() == 0,
            r.max_memory_spec() == MAX_MEMORY_BYTES,
    {
        Self::new_with_limits(sigma, no_collapse_ws, MAX_TOKENS)
    }

    /// Create a new parser with custom token limit
    pub fn new_with_limits(sigma: Detection, no_collapse_ws: bool, max_tokens: usize) -> (r: Self)
        ensures
            r.condition_spec() == condition_text(sigma@),
            r.detection_spec() == sigma@,
            r.tokens_spec() == Seq::<(Token, Seq<char>)>::empty(),
            r.result_spec() is None,
            r.no_collapse_ws_spec() == no_collapse_ws,
            r.max_tokens_spec() == max_tokens,
            r.memory_used_spec() == 0,
            r.max_memory_spec() == MAX_MEMORY_BYTES,
    {
        let condition = match sigma.condition() {
            Some(c) => owned(c),
            None => String::new(),
        };
        let tokens: Vec<Item> = Vec::new();
        assert(items_view(tokens@) =~= Seq::<(Token, Seq<char>)>::empty());
        Parser {
            tokens,
            previous: None,
            sigma,
            condition,
            result: None,
            no_collapse_ws,
            max_tokens,
            memory_used: 0,
            max_memory: MAX_MEMORY_BYTES,
        }
    }

    /// Set the most bytes the selection values and collected tokens may take
    pub fn with_max_memory(self, max_memory: usize) -> (r: Self)
        ensures
            r.max_memory_spec() == max_memory,
            r.condition_spec() == self.condition_spec(),
            r.detection_spec() == self.detection_spec(),
            r.tokens_spec() == self.tokens_spec(),
            r.result_spec() == self.result_spec(),
            r.no_collapse_ws_spec() == self.no_collapse_ws_spec(),
            r.max_tokens_spec() == self.max_tokens_spec(),
            r.memory_used_spec() == self.memory_used_spec(),
    {
        let mut p = self;
        p.max_memory = max_memory;
        p
    }

    /// Estimate memory usage for an Item; `None` when it exceeds `usize`.
    fn estimate_item_size(item: &Item) -> (r: Option<usize>)
        ensures
            match r {
                Some(n) => n == item_size(item.value@),
                None => item_size(item.value@) > usize::MAX,
            },
    {
        let base = std::mem::size_of::<Item>();
        let len = item.value.as_str().len();
        match base.checked_add(len) {
            Some(s) => s.checked_add(32),
            None => None,
        }
    }

    /// Collect tokens from lexer and validate sequences
    fn collect(&mut self) -> (r: Result<(), ParseError>)
        ensures
            final(self).condition_spec() == old(self).condition_spec(),
            final(self).detection_spec() == old(self).detection_spec(),
            final(self).no_collapse_ws_spec() == old(self).no_collapse_ws_spec(),
            final(self).result_spec() == old(self).result_spec(),
            match old(self).collect_outcome() {
                Ok(toks) => r is Ok && final(self).tokens_spec() == toks,
                Err(f) => r matches Err(e) && collect_fail_is(
                    e,
                    f,
                    old(self).condition_spec(),
                    old(self).max_memory_spec(),
                ),
            },
    {
        let n = chars_of(self.condition.as_str()).len();
        if n > usize::MAX - 8 {
            return Err(ParseError::MemoryLimitExceeded { current_bytes: usize::MAX, limit_bytes: self.max_memory });
        }
        let items = lex(self.condition.as_str());
        let ghost its = items_view(items@);
        let mut prev = Item::new(Token::Identifier, owned("<begin>"));
        self.previous = Some(prev.duplicate());
        let ghost outcome = old(self).collect_outcome();
        let mut k: usize = 0;
        while k < items.len()
            invariant
                k <= items@.len(),
                its == items_view(items@),
                its == lex_spec(old(self).condition_spec()),
                self.condition_spec() == old(self).condition_spec(),
                self.detection_spec() == old(self).detection_spec(),
                self.no_collapse_ws_spec() == old(self).no_collapse_ws_spec(),
                self.result_spec() == old(self).result_spec(),
                self.max_tokens == old(self).max_tokens_spec(),
                self.max_memory == old(self).max_memory_spec(),
                outcome == old(self).collect_outcome(),
                old(self).condition_spec().len() + 8 <= usize::MAX,
                outcome == collect_run(
                    its,
                    k as int,
                    prev@,
                    self.tokens_spec(),
                    self.memory_used as int,
                    self.max_tokens as int,
                    self.max_memory as int,
                ),
            decreases items.len() - k,
        {
            let item = &items[k];
            assert(its[k as int] == item@);
            if item.token == Token::Unsupported {
                return Err(ParseError::unsupported_token(item.value.clone()));
            }
            let is_begin = str_eq(prev.value.as_str(), "<begin>");
            if !is_begin && !valid_token_sequence(prev.token, item.token) {
                let ghost col = self.tokens@;
                let ghost st5 = if col.len() >= 5 { col.len() - 5 } else { 0 };
                assert(items_view(col.subrange(st5, col.len() as int)) =~= items_view(col).subrange(st5, col.len() as int));
                return Err(ParseError::invalid_sequence(prev.duplicate(), item.duplicate(), self.tokens.as_slice()));
            }
            if item.token != Token::LitEof {
                if self.tokens.len() >= self.max_tokens {
                    return Err(ParseError::TokenLimitExceeded { current: self.tokens.len(), limit: self.max_tokens });
                }
                let need = match Self::estimate_item_size(item) {
                    Some(size) => self.memory_used.checked_add(size),
                    None => None,
                };
                match need {
                    Some(total) => {
                        if total > self.max_memory {
                            return Err(ParseError::MemoryLimitExceeded { current_bytes: total, limit_bytes: self.max_memory });
                        }
                        let ghost before = self.tokens@;
                        self.tokens.push(item.duplicate());
                        assert(items_view(self.tokens@) =~= items_view(before).push(item@));
                        self.memory_used = total;
                    },
                    None => {
                        return Err(ParseError::MemoryLimitExceeded { current_bytes: usize::MAX, limit_bytes: self.max_memory });
                    },
                }
            }
            prev = item.duplicate();
            self.previous = Some(prev.duplicate());
            k = k + 1;
        }
        if prev.token != Token::LitEof {
            let count = self.tokens.len();
            let start = if count >= 10 {
                count - 10
            } else {
                0
            };
            let mut context: Vec<Item> = Vec::new();
            let mut j = start;
            while j < count
                invariant
                    start <= j <= count,
                    count == self.tokens@.len(),
                    items_view(context@) == items_view(self.tokens@).subrange(start as int, j as int),
                decreases count - j,
            {
                let ghost before = context@;
                context.push(self.tokens[j].duplicate());
                assert(items_view(context@) =~= items_view(before).push(self.tokens@[j as int]@));
                assert(items_view(self.tokens@).subrange(start as int, j + 1) =~= items_view(self.tokens@).subrange(start as int, j as int).push(self.tokens@[j as int]@));
                j = j + 1;
            }
            return Err(ParseError::incomplete_sequence(self.condition.clone(), context, prev));
        }
        Ok(())
    }

    /// Validate parentheses are balanced and not too deeply nested
    fn validate_parentheses(&self) -> (r: Result<(), ParseError>)
        ensures
            match paren_check(self.tokens_spec(), 0, 0, 0) {
                Ok(_) => r is Ok,
                Err(f) => r matches Err(e) && paren_fail_is(e, f),
            },
    {
        let ghost toks = self.tokens_spec();
        let mut depth: usize = 0;
        let mut max_depth: usize = 0;
        let mut k: usize = 0;
        while k < self.tokens.len()
            invariant
                k <= self.tokens@.len(),
                toks == items_view(self.tokens@),
                depth <= k,
                max_depth <= MAX_RECURSION_DEPTH,
                paren_check(toks, 0, 0, 0) == paren_check(toks, k as int, depth as int, max_depth as int),
            decreases self.tokens.len() - k,
        {
            assert(toks[k as int] == self.tokens@[k as int]@);
            match self.tokens[k].token {
                Token::SepLpar => {
                    depth = depth + 1;
                    if depth > max_depth {
                        max_depth = depth;
                    }
                    if max_depth > MAX_RECURSION_DEPTH {
                        return Err(ParseError::RecursionLimitExceeded { current: max_depth, limit: MAX_RECURSION_DEPTH });
                    }
                },
                Token::SepRpar => {
                    if depth == 0 {
                        return Err(ParseError::parser_error(owned("Unmatched closing parenthesis")));
                    }
                    depth = depth - 1;
                },
                _ => {},
            }
            k = k + 1;
        }
        if depth != 0 {
            return Err(ParseError::parser_error(owned("Unbalanced parentheses")));
        }
        Ok(())
    }

    /// Parse collected tokens into AST
    fn parse(&mut self) -> (r: Result<(), ParseError>)
        ensures
            final(self).tokens_spec() == old(self).tokens_spec(),
            final(self).detection_spec() == old(self).detection_spec(),
            final(self).condition_spec() == old(self).condition_spec(),
            final(self).no_collapse_ws_spec() == old(self).no_collapse_ws_spec(),
            match paren_check(old(self).tokens_spec(), 0, 0, 0) {
                Err(f) => r matches Err(e) && paren_fail_is(e, f),
                Ok(_) => match parse_cond(old(self).detection_spec(), old(self).tokens_spec(), 0, old(self).no_collapse_ws_spec()) {
                    Ok(c) => r is Ok && (final(self).result_spec() matches Some(b) && denotes(b, c)),
                    Err(f) => r matches Err(e) && pfail_is(e, f),
                },
            },
    {
        self.validate_parentheses()?;
        let result = new_branch(&self.sigma, self.tokens.as_slice(), 0, self.no_collapse_ws)?;
        self.result = Some(result);
        Ok(())
    }

    /// Run the parser, collecting tokens and building the AST
    pub fn run(&mut self) -> (r: Result<(), ParseError>)
        ensures
            final(self).detection_spec() == old(self).detection_spec(),
            final(self).condition_spec() == old(self).condition_spec(),
            final(self).no_collapse_ws_spec() == old(self).no_collapse_ws_spec(),
            ({
                let counted = cap_usize(old(self).memory_used_spec() + selection_bytes(old(self).detection_spec()));
                if counted > old(self).max_memory_spec() {
                    r matches Err(ParseError::MemoryLimitExceeded { current_bytes, limit_bytes })
                        && current_bytes == counted && limit_bytes == old(self).max_memory_spec()
                } else {
                    match old(self).collect_outcome_from(counted) {
                        Err(f) => r matches Err(e) && collect_fail_is(
                            e,
                            f,
                            old(self).condition_spec(),
                            old(self).max_memory_spec(),
                        ),
                        Ok(toks) => match paren_check(toks, 0, 0, 0) {
                            Err(f) => r matches Err(e) && paren_fail_is(e, f),
                            Ok(_) => match parse_cond(
                                old(self).detection_spec(),
                                toks,
                                0,
                                old(self).no_collapse_ws_spec(),
                            ) {
                                Ok(c) => r is Ok && (final(self).result_spec() matches Some(b) && denotes(b, c)),
                                Err(f) => r matches Err(e) && pfail_is(e, f),
                            },
                        },
                    }
                }
            }),
    {
        let selections = selection_bytes_capped(&self.sigma);
        let counted = add_capped(self.memory_used, selections);
        if counted > self.max_memory {
            return Err(ParseError::MemoryLimitExceeded { current_bytes: counted, limit_bytes: self.max_memory });
        }
        self.memory_used = counted;
        self.collect()?;
        self.parse()
    }

    /// Get the resulting AST
    pub fn result(&self) -> (r: Option<&Branch>)
        ensures
            match self.result_spec() {
                Some(b) => r matches Some(x) && *x == b,
                None => r is None,
            },
    {
        match &self.result {
            Some(b) => Some(b),
            None => None,
        }
    }

    /// Take the resulting AST out of the parser
    pub fn into_result(self) -> (r: Option<Branch>)
        ensures
            r == self.result_spec(),
    {
        self.result
    }

    /// Take the resulting AST and the detection section out of the parser
    pub fn into_parts(self) -> (r: (Option<Branch>, Detection))
        ensures
            r.0 == self.result_spec(),
            r.1@ == self.detection_spec(),
    {
        (self.result, self.sigma)
    }

    /// Get the parsed tokens (for debugging)
    pub fn tokens(&self) -> (r: &[Item])
        ensures
            items_view(r@) == self.tokens_spec(),
    {
        self.tokens.as_slice()
    }
}

} // verus!
