//! What a rule condition means: the condition trees that parsing builds, and
//! when parsing fails.
use vstd::prelude::*;

use crate::ast::nodes::{
    eval, eval_all, eval_any, lemma_reduce_and_preserves, lemma_reduce_or_preserves, negate,
    reduced_and, reduced_or, Branch, NodeNot, NodeSimpleAnd, NodeSimpleOr,
};
use crate::ast::MatchResult;
use crate::event::Value;
use crate::lexer::token::Token;
use crate::pattern::coercion::{numeric_form, string_form};
use crate::pattern::engines::{glob_compiles, glob_matches};
use crate::pattern::factory::{plan_matches, plan_of, plan_ok};
use crate::pattern::whitespace::collapse_ws;
use crate::pattern::TextPatternModifier;
use crate::rule::detection::{entry_value, selections, DetectionValue};
use crate::text::{ascii_lower, eq_ignore_ascii_case, trim};

verus! {

/// The deepest nesting of groups that a condition may have.
pub const MAX_RECURSION_DEPTH: usize = 50;

/// A condition as parsing understands it.
pub enum Cond {
    /// The text of field `name` checked against a pattern
    Text {
        /// The field
        name: Seq<char>,
        /// How the pattern is applied
        modifier: TextPatternModifier,
        /// The pattern
        pattern: Seq<char>,
        /// Whether whitespace in values is kept as it is
        no_collapse_ws: bool,
    },
    /// The integer value of field `name` compared with a number
    Num {
        /// The field
        name: Seq<char>,
        /// The number
        value: i64,
    },
    /// Negation
    Not(Box<Cond>),
    /// Conjunction
    All(Seq<Cond>),
    /// Disjunction
    Any(Seq<Cond>),
}

/// What a condition answers for an event whose fields `sel` looks up.
pub open spec fn cond_sem(c: Cond, sel: spec_fn(Seq<char>) -> Option<Value>) -> MatchResult
    decreases c,
{
    match c {
        Cond::Text { name, modifier, pattern, no_collapse_ws } => match sel(name) {
            None => MatchResult { matched: false, applicable: false },
            Some(v) => MatchResult {
                matched: plan_matches(
                    plan_of(modifier, pattern),
                    pattern,
                    false,
                    no_collapse_ws,
                    string_form(v),
                ),
                applicable: true,
            },
        },
        Cond::Num { name, value } => match sel(name) {
            None => MatchResult { matched: false, applicable: false },
            Some(v) => match numeric_form(v) {
                None => MatchResult { matched: false, applicable: true },
                Some(n) => MatchResult { matched: n == value, applicable: true },
            },
        },
        Cond::Not(b) => negate(cond_sem(*b, sel)),
        Cond::All(cs) => all_sem(cs, sel),
        Cond::Any(cs) => any_sem(cs, sel),
    }
}

/// A conjunction of conditions: the first answer that did not match or did
/// not apply, else a match.
pub open spec fn all_sem(cs: Seq<Cond>, sel: spec_fn(Seq<char>) -> Option<Value>) -> MatchResult
    decreases cs,
{
    if cs.len() == 0 {
        MatchResult { matched: true, applicable: true }
    } else {
        let r = cond_sem(cs[0], sel);
        if !r.matched || !r.applicable {
            r
        } else {
            all_sem(cs.drop_first(), sel)
        }
    }
}

/// A disjunction of conditions: a match if one matches, else no match,
/// applicable when one of them was.
pub open spec fn any_sem(cs: Seq<Cond>, sel: spec_fn(Seq<char>) -> Option<Value>) -> MatchResult
    decreases cs,
{
    if cs.len() == 0 {
        MatchResult { matched: false, applicable: false }
    } else {
        let r = cond_sem(cs[0], sel);
        if r.matched {
            MatchResult { matched: true, applicable: true }
        } else {
            let rest = any_sem(cs.drop_first(), sel);
            if rest.matched {
                rest
            } else {
                MatchResult { matched: false, applicable: r.applicable || rest.applicable }
            }
        }
    }
}

/// A field reference split at its first `|`: the field name, and the
/// modifier text after the bar if there is one.
pub open spec fn field_split(f: Seq<char>) -> (Seq<char>, Option<Seq<char>>)
    decreases f.len(),
{
    if f.len() == 0 {
        (Seq::empty(), None)
    } else if f[0] == '|' {
        (Seq::empty(), Some(f.drop_first()))
    } else {
        let (n, m) = field_split(f.drop_first());
        (seq![f[0]] + n, m)
    }
}

/// The modifier that a modifier text names, ignoring case.
pub open spec fn modifier_named(m: Seq<char>) -> Option<TextPatternModifier> {
    if eq_ignore_ascii_case(m, "contains"@) {
        Some(TextPatternModifier::Contains)
    } else if eq_ignore_ascii_case(m, "prefix"@) || eq_ignore_ascii_case(m, "startswith"@) {
        Some(TextPatternModifier::Prefix)
    } else if eq_ignore_ascii_case(m, "suffix"@) || eq_ignore_ascii_case(m, "endswith"@) {
        Some(TextPatternModifier::Suffix)
    } else if eq_ignore_ascii_case(m, "all"@) {
        Some(TextPatternModifier::All)
    } else if eq_ignore_ascii_case(m, "re"@) || eq_ignore_ascii_case(m, "regex"@) {
        Some(TextPatternModifier::Regex)
    } else if eq_ignore_ascii_case(m, "keyword"@) {
        Some(TextPatternModifier::Keyword)
    } else {
        None
    }
}

/// The field name of a field reference.
pub open spec fn field_name(f: Seq<char>) -> Seq<char> {
    field_split(f).0
}

/// The modifier of a field reference, if it names one.
pub open spec fn field_modifier(f: Seq<char>) -> Option<TextPatternModifier> {
    match field_split(f).1 {
        Some(m) => modifier_named(m),
        None => None,
    }
}

/// A pattern value as it is matched: unchanged when whitespace is kept,
/// else its words joined by single spaces.
pub open spec fn normalize_value(s: Seq<char>, no_collapse_ws: bool) -> Seq<char> {
    if no_collapse_ws {
        s
    } else {
        trim(collapse_ws(s))
    }
}

/// The text `true` or `false`.
pub open spec fn bool_text(b: bool) -> Seq<char> {
    if b {
        "true"@
    } else {
        "false"@
    }
}

/// Why a field rule could not be built.
pub enum RuleFail {
    /// The string matcher for a value could not be built
    StringPattern {
        /// The field name
        field: Seq<char>,
        /// The pattern
        value: Seq<char>,
    },
    /// No value of a list or object gave a rule
    NoValidPatterns {
        /// The field
        field: Seq<char>,
    },
    /// An object without properties
    ComplexEmpty {
        /// The field
        field: Seq<char>,
    },
    /// A null value
    UnsupportedValue {
        /// The field
        field: Seq<char>,
    },
}

/// The text rule for pattern `p`, when its matcher can be built.
pub open spec fn text_cond(
    name: Seq<char>,
    modifier: TextPatternModifier,
    p: Seq<char>,
    no_collapse_ws: bool,
) -> Result<Cond, RuleFail> {
    if plan_ok(plan_of(modifier, p)) {
        Ok(Cond::Text { name, modifier, pattern: p, no_collapse_ws })
    } else {
        Err(RuleFail::StringPattern { field: name, value: p })
    }
}

/// The rule for one value of a list: strings with the field's modifier,
/// numbers and booleans as for a single value; other values give none.
pub open spec fn element_cond(
    name: Seq<char>,
    modifier: TextPatternModifier,
    v: DetectionValue,
    no_collapse_ws: bool,
) -> Option<Cond> {
    let r = match v {
        DetectionValue::String(s) => text_cond(
            name,
            modifier,
            normalize_value(s@, no_collapse_ws),
            no_collapse_ws,
        ),
        DetectionValue::Number { integer: Some(n), .. } => Ok(Cond::Num { name, value: n }),
        DetectionValue::Number { integer: None, text } => text_cond(
            name,
            TextPatternModifier::NoModifier,
            text@,
            no_collapse_ws,
        ),
        DetectionValue::Bool(b) => text_cond(
            name,
            TextPatternModifier::NoModifier,
            bool_text(b),
            no_collapse_ws,
        ),
        _ => Err(RuleFail::UnsupportedValue { field: name }),
    };
    match r {
        Ok(c) => Some(c),
        Err(_) => None,
    }
}

/// The rules of the values of a list that give one, in order.
pub open spec fn array_conds(
    name: Seq<char>,
    modifier: TextPatternModifier,
    items: Seq<DetectionValue>,
    no_collapse_ws: bool,
) -> Seq<Cond>
    decreases items.len(),
{
    if items.len() == 0 {
        Seq::empty()
    } else {
        let before = array_conds(name, modifier, items.drop_last(), no_collapse_ws);
        match element_cond(name, modifier, items.last(), no_collapse_ws) {
            Some(c) => before.push(c),
            None => before,
        }
    }
}

/// The rule that a detection value gives for the field reference `field`.
pub open spec fn rule_cond(field: Seq<char>, v: DetectionValue, no_collapse_ws: bool) -> Result<
    Cond,
    RuleFail,
>
    decreases v,
{
    let name = field_name(field);
    let modifier = match field_modifier(field) {
        Some(m) => m,
        None => TextPatternModifier::NoModifier,
    };
    match v {
        DetectionValue::String(s) => text_cond(
            name,
            modifier,
            normalize_value(s@, no_collapse_ws),
            no_collapse_ws,
        ),
        DetectionValue::Number { integer: Some(n), .. } => Ok(Cond::Num { name, value: n }),
        DetectionValue::Number { integer: None, text } => text_cond(
            name,
            TextPatternModifier::NoModifier,
            text@,
            no_collapse_ws,
        ),
        DetectionValue::Bool(b) => text_cond(
            name,
            TextPatternModifier::NoModifier,
            bool_text(b),
            no_collapse_ws,
        ),
        DetectionValue::Array(items) => {
            let cs = array_conds(name, modifier, items@, no_collapse_ws);
            if cs.len() == 0 {
                Err(RuleFail::NoValidPatterns { field: name })
            } else {
                Ok(Cond::Any(cs))
            }
        },
        DetectionValue::Object(entries) => {
            let cs = object_conds(entries@, no_collapse_ws);
            if cs.len() > 0 {
                Ok(Cond::All(cs))
            } else if entries@.len() > 0 {
                Err(RuleFail::NoValidPatterns { field })
            } else {
                Err(RuleFail::ComplexEmpty { field })
            }
        },
        DetectionValue::Null => Err(RuleFail::UnsupportedValue { field }),
    }
}

/// The rules of the properties of an object that give one, in order.
pub open spec fn object_conds(entries: Seq<(String, DetectionValue)>, no_collapse_ws: bool) -> Seq<
    Cond,
>
    decreases entries,
{
    if entries.len() == 0 {
        Seq::empty()
    } else {
        let before = object_conds(entries.drop_last(), no_collapse_ws);
        match rule_cond(entries.last().0@, entries.last().1, no_collapse_ws) {
            Ok(c) => before.push(c),
            Err(_) => before,
        }
    }
}

/// The rules of a list of entries, or the failure of the first that fails.
pub open spec fn rules_all(entries: Seq<(String, DetectionValue)>, no_collapse_ws: bool) -> Result<
    Seq<Cond>,
    RuleFail,
>
    decreases entries.len(),
{
    if entries.len() == 0 {
        Ok(Seq::empty())
    } else {
        match rules_all(entries.drop_last(), no_collapse_ws) {
            Err(f) => Err(f),
            Ok(cs) => match rule_cond(entries.last().0@, entries.last().1, no_collapse_ws) {
                Err(f) => Err(f),
                Ok(c) => Ok(cs.push(c)),
            },
        }
    }
}

/// Once a prefix of the entries fails, the whole list fails the same way.
pub proof fn lemma_rules_all_err_extends(
    a: Seq<(String, DetectionValue)>,
    b: Seq<(String, DetectionValue)>,
    no_collapse_ws: bool,
)
    requires
        rules_all(a, no_collapse_ws) is Err,
    ensures
        rules_all(a + b, no_collapse_ws) == rules_all(a, no_collapse_ws),
    decreases b.len(),
{
    if b.len() == 0 {
        assert(a + b =~= a);
    } else {
        lemma_rules_all_err_extends(a, b.drop_last(), no_collapse_ws);
        assert((a + b).drop_last() =~= a + b.drop_last());
    }
}

/// The test of an entry for a wildcard: not the condition, and a name that
/// the glob matches.
pub open spec fn wildcard_pred(pattern: Seq<char>) -> spec_fn((String, DetectionValue)) -> bool {
    |e: (String, DetectionValue)| e.0@ != "condition"@ && glob_matches(pattern, e.0@)
}

/// The entries, other than the condition, whose name the glob matches.
pub open spec fn wildcard_entries(det: Seq<(String, DetectionValue)>, pattern: Seq<char>) -> Seq<
    (String, DetectionValue),
> {
    det.filter(wildcard_pred(pattern))
}

/// Why a condition could not be parsed.
pub enum PFail {
    /// A field rule could not be built
    Rule(RuleFail),
    /// A referenced selection does not exist
    MissingItem(Seq<char>),
    /// Groups are nested deeper than allowed
    Recursion(int),
    /// A token that has no place in a condition
    Unsupported(Seq<char>),
    /// `them` or a wildcard without `all of` or `1 of` before it
    WildcardContext,
    /// A wildcard that matches no selection
    NoWildcardMatch,
    /// `them` with no selection in the detection
    NoDetectionFields,
    /// A group without its closing parenthesis
    Unbalanced,
    /// No branch at all
    NoBranches,
    /// `or` with nothing before it in its group
    EmptyConjunction,
    /// A wildcard that is not a valid glob
    WildcardCompile(Seq<char>),
}

/// The state of parsing a group: the conjunction being collected, the
/// disjunction of the conjunctions already closed, whether the next operand
/// is negated, and the pending `all of`/`1 of`.
pub struct PState {
    /// Operands of the open conjunction
    pub ands: Seq<Cond>,
    /// Closed conjunctions
    pub ors: Seq<Cond>,
    /// Whether the next operand is negated
    pub negated: bool,
    /// The pending quantifier token
    pub wildcard: Option<Token>,
}

/// The state at the start of a group.
pub open spec fn initial_pstate() -> PState {
    PState { ands: Seq::empty(), ors: Seq::empty(), negated: false, wildcard: None }
}

/// `c`, negated when `negated` holds.
pub open spec fn with_not(c: Cond, negated: bool) -> Cond {
    if negated {
        Cond::Not(Box::new(c))
    } else {
        c
    }
}

/// The state after an operand: it joins the conjunction, negated if asked.
pub open spec fn push_operand(st: PState, c: Cond) -> PState {
    PState { ands: st.ands.push(with_not(c, st.negated)), negated: false, ..st }
}

/// The index of the parenthesis that closes a group, scanning from `k` with
/// `balance` groups open.
pub open spec fn matching_close(toks: Seq<(Token, Seq<char>)>, k: int, balance: int) -> Option<int>
    decreases toks.len() - k,
{
    if k < 0 || k >= toks.len() {
        None
    } else if toks[k].0 is SepLpar {
        matching_close(toks, k + 1, balance + 1)
    } else if toks[k].0 is SepRpar {
        if balance - 1 == 0 {
            Some(k)
        } else {
            matching_close(toks, k + 1, balance - 1)
        }
    } else {
        matching_close(toks, k + 1, balance)
    }
}

/// The end of a group: the open conjunction joins the disjunction, which
/// must not be empty.
pub open spec fn finish_group(st: PState) -> Result<Cond, PFail> {
    let ors = if st.ands.len() > 0 {
        st.ors.push(Cond::All(st.ands))
    } else {
        st.ors
    };
    if ors.len() == 0 {
        Err(PFail::NoBranches)
    } else {
        Ok(Cond::Any(ors))
    }
}

/// The operand for `them` or a wildcard under the pending quantifier.
pub open spec fn quantified(st: PState, cs: Seq<Cond>) -> Result<PState, PFail> {
    match st.wildcard {
        Some(Token::StmtAllOf) => Ok(
            PState { wildcard: None, ..push_operand(st, Cond::All(cs)) },
        ),
        Some(Token::StmtOneOf) => Ok(
            PState { wildcard: None, ..push_operand(st, Cond::Any(cs)) },
        ),
        _ => Err(PFail::WildcardContext),
    }
}

/// The condition that the tokens of a group at nesting `depth` give.
pub open spec fn parse_cond(
    det: Seq<(String, DetectionValue)>,
    toks: Seq<(Token, Seq<char>)>,
    depth: int,
    no_collapse_ws: bool,
) -> Result<Cond, PFail>
    decreases toks.len(), toks.len() + 1,
{
    if depth > MAX_RECURSION_DEPTH {
        Err(PFail::Recursion(depth))
    } else {
        parse_run(det, toks, 0, initial_pstate(), depth, no_collapse_ws)
    }
}

/// Parsing a group from token `i` on, in state `st`.
pub open spec fn parse_run(
    det: Seq<(String, DetectionValue)>,
    toks: Seq<(Token, Seq<char>)>,
    i: int,
    st: PState,
    depth: int,
    no_collapse_ws: bool,
) -> Result<Cond, PFail>
    decreases toks.len(), toks.len() - i,
{
    if i < 0 || i >= toks.len() {
        finish_group(st)
    } else {
        let t = toks[i].0;
        let v = toks[i].1;
        match t {
            Token::Identifier => match entry_value(det, v) {
                None => Err(PFail::MissingItem(v)),
                Some(val) => match rule_cond(v, val, no_collapse_ws) {
                    Err(f) => Err(PFail::Rule(f)),
                    Ok(c) => parse_run(det, toks, i + 1, push_operand(st, c), depth, no_collapse_ws),
                },
            },
            Token::KeywordAnd => parse_run(det, toks, i + 1, st, depth, no_collapse_ws),
            Token::KeywordOr => if st.ands.len() == 0 {
                Err(PFail::EmptyConjunction)
            } else {
                parse_run(
                    det,
                    toks,
                    i + 1,
                    PState { ands: Seq::empty(), ors: st.ors.push(Cond::All(st.ands)), ..st },
                    depth,
                    no_collapse_ws,
                )
            },
            Token::KeywordNot => parse_run(
                det,
                toks,
                i + 1,
                PState { negated: true, ..st },
                depth,
                no_collapse_ws,
            ),
            Token::SepLpar => match matching_close(toks, i + 1, 1) {
                Some(j) => if i + 1 <= j && j < toks.len() {
                    match parse_cond(det, toks.subrange(i + 1, j), depth + 1, no_collapse_ws) {
                        Err(f) => Err(f),
                        Ok(c) => parse_run(
                            det,
                            toks,
                            j + 1,
                            push_operand(st, c),
                            depth,
                            no_collapse_ws,
                        ),
                    }
                } else {
                    Err(PFail::Unbalanced)
                },
                None => Err(PFail::Unbalanced),
            },
            Token::StmtAllOf => parse_run(
                det,
                toks,
                i + 1,
                PState { wildcard: Some(Token::StmtAllOf), ..st },
                depth,
                no_collapse_ws,
            ),
            Token::StmtOneOf => parse_run(
                det,
                toks,
                i + 1,
                PState { wildcard: Some(Token::StmtOneOf), ..st },
                depth,
                no_collapse_ws,
            ),
            Token::IdentifierAll => match rules_all(selections(det), no_collapse_ws) {
                Err(f) => Err(PFail::Rule(f)),
                Ok(cs) => if cs.len() == 0 {
                    Err(PFail::NoDetectionFields)
                } else {
                    match quantified(st, cs) {
                        Err(f) => Err(f),
                        Ok(st2) => parse_run(det, toks, i + 1, st2, depth, no_collapse_ws),
                    }
                },
            },
            Token::IdentifierWithWildcard => if !glob_compiles(v) {
                Err(PFail::WildcardCompile(v))
            } else {
                match rules_all(wildcard_entries(det, v), no_collapse_ws) {
                    Err(f) => Err(PFail::Rule(f)),
                    Ok(cs) => if cs.len() == 0 {
                        Err(PFail::NoWildcardMatch)
                    } else {
                        match quantified(st, cs) {
                            Err(f) => Err(f),
                            Ok(st2) => parse_run(det, toks, i + 1, st2, depth, no_collapse_ws),
                        }
                    },
                }
            },
            _ => Err(PFail::Unsupported(v)),
        }
    }
}

/// A branch means a condition: for every event they answer the same.
pub open spec fn denotes(b: Branch, c: Cond) -> bool {
    forall|sel: spec_fn(Seq<char>) -> Option<Value>, kw: (Seq<Seq<char>>, bool)|
        #[trigger] eval(b, sel, kw) == cond_sem(c, sel)
}

/// Each branch of a list means the condition at the same place.
pub open spec fn all_denote(bs: Seq<Branch>, cs: Seq<Cond>) -> bool {
    &&& bs.len() == cs.len()
    &&& forall|j: int| 0 <= j < bs.len() ==> denotes(#[trigger] bs[j], cs[j])
}

proof fn lemma_all_denote_tail(bs: Seq<Branch>, cs: Seq<Cond>)
    requires
        all_denote(bs, cs),
        bs.len() > 0,
    ensures
        all_denote(bs.drop_first(), cs.drop_first()),
{
    assert forall|j: int| 0 <= j < bs.drop_first().len() implies denotes(
        #[trigger] bs.drop_first()[j],
        cs.drop_first()[j],
    ) by {
        assert(bs.drop_first()[j] == bs[j + 1]);
        assert(denotes(bs[j + 1], cs[j + 1]));
    }
}

proof fn lemma_all_pointwise(
    bs: Seq<Branch>,
    cs: Seq<Cond>,
    sel: spec_fn(Seq<char>) -> Option<Value>,
    kw: (Seq<Seq<char>>, bool),
)
    requires
        all_denote(bs, cs),
    ensures
        eval_all(bs, sel, kw) == all_sem(cs, sel),
        eval_any(bs, sel, kw) == any_sem(cs, sel),
    decreases bs.len(),
{
    if bs.len() > 0 {
        assert(denotes(bs[0], cs[0]));
        assert(eval(bs[0], sel, kw) == cond_sem(cs[0], sel));
        lemma_all_denote_tail(bs, cs);
        lemma_all_pointwise(bs.drop_first(), cs.drop_first(), sel, kw);
    }
}

/// A conjunction node of branches means the conjunction of their conditions.
pub proof fn lemma_denotes_simple_and(n: NodeSimpleAnd, cs: Seq<Cond>)
    requires
        all_denote(n.branches@, cs),
    ensures
        denotes(Branch::SimpleAnd(n), Cond::All(cs)),
{
    assert forall|sel: spec_fn(Seq<char>) -> Option<Value>, kw: (Seq<Seq<char>>, bool)|
        #[trigger] eval(Branch::SimpleAnd(n), sel, kw) == cond_sem(Cond::All(cs), sel) by {
        lemma_all_pointwise(n.branches@, cs, sel, kw);
    }
}

/// A disjunction node of branches means the disjunction of their conditions.
pub proof fn lemma_denotes_simple_or(n: NodeSimpleOr, cs: Seq<Cond>)
    requires
        all_denote(n.branches@, cs),
    ensures
        denotes(Branch::SimpleOr(n), Cond::Any(cs)),
{
    assert forall|sel: spec_fn(Seq<char>) -> Option<Value>, kw: (Seq<Seq<char>>, bool)|
        #[trigger] eval(Branch::SimpleOr(n), sel, kw) == cond_sem(Cond::Any(cs), sel) by {
        lemma_all_pointwise(n.branches@, cs, sel, kw);
    }
}

/// Reducing a conjunction of branches keeps its meaning.
pub proof fn lemma_denotes_reduced_and(b: Branch, bs: Seq<Branch>, cs: Seq<Cond>)
    requires
        bs.len() > 0,
        reduced_and(b, bs),
        all_denote(bs, cs),
    ensures
        denotes(b, Cond::All(cs)),
{
    assert forall|sel: spec_fn(Seq<char>) -> Option<Value>, kw: (Seq<Seq<char>>, bool)|
        #[trigger] eval(b, sel, kw) == cond_sem(Cond::All(cs), sel) by {
        lemma_reduce_and_preserves(b, bs, sel, kw);
        lemma_all_pointwise(bs, cs, sel, kw);
    }
}

/// Reducing a disjunction of branches keeps its meaning.
pub proof fn lemma_denotes_reduced_or(b: Branch, bs: Seq<Branch>, cs: Seq<Cond>)
    requires
        bs.len() > 0,
        reduced_or(b, bs),
        all_denote(bs, cs),
    ensures
        denotes(b, Cond::Any(cs)),
{
    assert forall|sel: spec_fn(Seq<char>) -> Option<Value>, kw: (Seq<Seq<char>>, bool)|
        #[trigger] eval(b, sel, kw) == cond_sem(Cond::Any(cs), sel) by {
        lemma_reduce_or_preserves(b, bs, sel, kw);
        lemma_all_pointwise(bs, cs, sel, kw);
    }
}

/// Negating a branch negates its meaning.
pub proof fn lemma_denotes_not(b: Branch, c: Cond)
    requires
        denotes(b, c),
    ensures
        denotes(Branch::Not(NodeNot { branch: Box::new(b) }), Cond::Not(Box::new(c))),
{
    assert forall|sel: spec_fn(Seq<char>) -> Option<Value>, kw: (Seq<Seq<char>>, bool)|
        #[trigger] eval(Branch::Not(NodeNot { branch: Box::new(b) }), sel, kw) == cond_sem(
            Cond::Not(Box::new(c)),
            sel,
        ) by {
        assert(eval(b, sel, kw) == cond_sem(c, sel));
    }
}

/// Adding a branch and the condition it means keeps a list meaning a list.
pub proof fn lemma_all_denote_push(bs: Seq<Branch>, cs: Seq<Cond>, b: Branch, c: Cond)
    requires
        all_denote(bs, cs),
        denotes(b, c),
    ensures
        all_denote(bs.push(b), cs.push(c)),
{
    assert forall|j: int| 0 <= j < bs.push(b).len() implies denotes(
        #[trigger] bs.push(b)[j],
        cs.push(c)[j],
    ) by {
        if j < bs.len() {
            assert(bs.push(b)[j] == bs[j]);
            assert(denotes(bs[j], cs[j]));
        }
    }
}

/// A closing parenthesis found by `matching_close` lies between the start
/// of the scan and the end of the tokens.
pub proof fn lemma_matching_close_bounds(toks: Seq<(Token, Seq<char>)>, k: int, balance: int)
    requires
        matching_close(toks, k, balance) is Some,
    ensures
        k <= matching_close(toks, k, balance)->Some_0 < toks.len(),
    decreases toks.len() - k,
{
    if 0 <= k < toks.len() {
        if toks[k].0 is SepLpar {
            lemma_matching_close_bounds(toks, k + 1, balance + 1);
        } else if toks[k].0 is SepRpar {
            if balance - 1 != 0 {
                lemma_matching_close_bounds(toks, k + 1, balance - 1);
            }
        } else {
            lemma_matching_close_bounds(toks, k + 1, balance);
        }
    }
}

proof fn lemma_field_split_at_bar(f: Seq<char>, m: Seq<char>)
    requires
        forall|i: int| 0 <= i < f.len() ==> f[i] != '|',
    ensures
        field_split(f + seq!['|'] + m) == (f, Some(m)),
        field_split(f) == (f, None::<Seq<char>>),
    decreases f.len(),
{
    if f.len() == 0 {
        assert(f + seq!['|'] + m =~= seq!['|'] + m);
        assert((seq!['|'] + m).drop_first() =~= m);
        assert(f =~= Seq::<char>::empty());
    } else {
        let t = f.drop_first();
        lemma_field_split_at_bar(t, m);
        assert((f + seq!['|'] + m).drop_first() =~= t + seq!['|'] + m);
        assert((f + seq!['|'] + m)[0] == f[0]);
        assert(seq![f[0]] + t =~= f);
    }
}

/// A field reference `name|modifier` names the field `name`, and the
/// modifier that the text names in any ASCII case: `contains`; `prefix` or
/// `startswith`; `suffix` or `endswith`; `all`; `re` or `regex`; `keyword`.
/// A reference without a bar is a field name alone, with no modifier.
pub proof fn lemma_field_modifier_names(f: Seq<char>, m: Seq<char>)
    requires
        forall|i: int| 0 <= i < f.len() ==> f[i] != '|',
    ensures
        field_name(f) == f,
        field_modifier(f) is None,
        field_name(f + seq!['|'] + m) == f,
        eq_ignore_ascii_case(m, "contains"@) ==> field_modifier(f + seq!['|'] + m) == Some(
            TextPatternModifier::Contains,
        ),
        eq_ignore_ascii_case(m, "prefix"@) || eq_ignore_ascii_case(m, "startswith"@) ==> field_modifier(
            f + seq!['|'] + m,
        ) == Some(TextPatternModifier::Prefix),
        eq_ignore_ascii_case(m, "suffix"@) || eq_ignore_ascii_case(m, "endswith"@) ==> field_modifier(
            f + seq!['|'] + m,
        ) == Some(TextPatternModifier::Suffix),
        eq_ignore_ascii_case(m, "all"@) ==> field_modifier(f + seq!['|'] + m) == Some(TextPatternModifier::All),
        eq_ignore_ascii_case(m, "re"@) || eq_ignore_ascii_case(m, "regex"@) ==> field_modifier(
            f + seq!['|'] + m,
        ) == Some(TextPatternModifier::Regex),
        eq_ignore_ascii_case(m, "keyword"@) ==> field_modifier(f + seq!['|'] + m) == Some(
            TextPatternModifier::Keyword,
        ),
{
    lemma_field_split_at_bar(f, m);
    reveal_strlit("contains");
    reveal_strlit("prefix");
    reveal_strlit("startswith");
    reveal_strlit("suffix");
    reveal_strlit("endswith");
    reveal_strlit("all");
    reveal_strlit("re");
    reveal_strlit("regex");
    reveal_strlit("keyword");
    if m.len() > 0 {
        let c = ascii_lower(m[0]);
        if eq_ignore_ascii_case(m, "endswith"@) {
            assert(c == ascii_lower("endswith"@[0]));
            assert(!eq_ignore_ascii_case(m, "contains"@));
        }
        if eq_ignore_ascii_case(m, "suffix"@) {
            assert(c == ascii_lower("suffix"@[0]));
            assert(!eq_ignore_ascii_case(m, "prefix"@));
        }
    }
}

} // verus!
