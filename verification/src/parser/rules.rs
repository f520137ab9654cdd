//! Building the field rules of a condition from the detection section.
use vstd::prelude::*;

use crate::ast::nodes::{new_node_not_if_negated, Branch, NodeSimpleAnd, NodeSimpleOr};
use crate::ast::{FieldPattern, FieldRule};
use crate::parser::error::ParseError;
use crate::parser::semantics::{
    array_conds, denotes, all_denote, element_cond, field_modifier, field_name, field_split,
    bool_text, lemma_denotes_reduced_and, lemma_denotes_reduced_or, normalize_value, object_conds,
    rule_cond, text_cond, cond_sem, Cond, RuleFail,
};
use crate::pattern::factory::{new_num_matcher, new_string_matcher, plan_error, plan_matches, plan_of, plan_ok};
use crate::pattern::num_matcher::num_matcher_values;
use crate::pattern::string_matcher::string_match_spec;
use crate::pattern::whitespace::collapse_chars;
use crate::pattern::TextPatternModifier;
use crate::rule::detection::DetectionValue;
use crate::text::{
    eq_ignore_ascii_case, chars_eq_ignore_ascii_case_at, chars_of, owned, string_from_chars, sub_chars, trim_chars,
};
use vstd::string::StringExecFns;

verus! {

/// Why a field rule failed, as a parse error.
pub open spec fn rule_fail_is(e: ParseError, f: RuleFail) -> bool {
    match f {
        RuleFail::StringPattern { field, value } => e matches ParseError::StringPatternCreationFailed {
            field: ef,
            value: ev,
            ..
        } && ef@ == field && ev@ == value,
        RuleFail::NoValidPatterns { field } => e matches ParseError::NoValidFieldPatterns {
            rule_id,
            field: ef,
            ..
        } && rule_id@ == "unknown"@ && ef@ == field,
        RuleFail::ComplexEmpty { field } => e matches ParseError::FieldPatternCreationFailed {
            field: ef,
            value,
            error,
        } && ef@ == field && value@ == "complex object"@ && error@
            == "no valid branches created from object properties"@,
        RuleFail::UnsupportedValue { field } => e matches ParseError::FieldPatternCreationFailed {
            field: ef,
            value,
            error,
        } && ef@ == field && value@ == "Null"@ && error@ == "Unsupported value type for field rule"@,
    }
}

/// A message that names what failed, then the matcher factory's reason for
/// the pattern text under the modifier.
pub open spec fn named_failure(head: Seq<char>, modifier: TextPatternModifier, pattern: Seq<char>, msg: Seq<char>) -> bool {
    &&& head.is_prefix_of(msg)
    &&& plan_error(plan_of(modifier, pattern), msg.skip(head.len() as int))
}

/// The message of a value of a list that gives no rule.
pub open spec fn element_error(
    name: Seq<char>,
    modifier: TextPatternModifier,
    v: DetectionValue,
    no_collapse_ws: bool,
    msg: Seq<char>,
) -> bool {
    match v {
        DetectionValue::String(s) => {
            let p = normalize_value(s@, no_collapse_ws);
            named_failure("Failed to create string matcher for '"@ + p + "': "@, modifier, p, msg)
        },
        DetectionValue::Number { integer: None, text } => named_failure(
            "Failed to create string matcher for float '"@ + text@ + "': "@,
            TextPatternModifier::NoModifier,
            text@,
            msg,
        ),
        DetectionValue::Bool(b) => named_failure(
            "Failed to create string matcher for boolean '"@ + bool_text(b) + "': "@,
            TextPatternModifier::NoModifier,
            bool_text(b),
            msg,
        ),
        DetectionValue::Number { integer: Some(_), .. } => false,
        _ => "Unsupported value type in array: "@.is_prefix_of(msg),
    }
}

/// One message per value of the list, in order, each saying why that value
/// gives no rule.
pub open spec fn element_errors(
    name: Seq<char>,
    modifier: TextPatternModifier,
    items: Seq<DetectionValue>,
    no_collapse_ws: bool,
    errors: Seq<String>,
) -> bool {
    &&& errors.len() == items.len()
    &&& forall|k: int| 0 <= k < items.len() ==> #[trigger] element_error(name, modifier, items[k], no_collapse_ws, errors[k]@)
}

/// The `Debug` rendering of a detection value.
///
/// Trusted: calls `format!("{:?}", v)` of std on the derived `Debug`.
/// Nothing is claimed of the text.
#[verifier::external_body]
fn value_debug(v: &DetectionValue) -> String {
    format!("{:?}", v)
}

/// The modifier a field key names, none standing for exact matching.
pub open spec fn modifier_or_exact(field: Seq<char>) -> TextPatternModifier {
    match field_modifier(field) {
        Some(m) => m,
        None => TextPatternModifier::NoModifier,
    }
}

/// The message of a failed match followed by the factory's reason.
fn with_reason(head: String, e: &ParseError) -> (r: String)
    ensures
        r@ == head@ + match *e {
            ParseError::StringPatternCreationFailed { error, .. } => error@,
            _ => Seq::<char>::empty(),
        },
{
    let reason = match e {
        ParseError::StringPatternCreationFailed { error, .. } => error.clone(),
        _ => String::new(),
    };
    head.concat(reason.as_str())
}

fn ieq(a: &[char], b: &str) -> (r: bool)
    ensures
        r == eq_ignore_ascii_case(a@, b@),
{
    let bv = chars_of(b);
    if a.len() != bv.len() {
        return false;
    }
    let r = chars_eq_ignore_ascii_case_at(a, 0, bv.as_slice());
    assert(a@.subrange(0, bv@.len() as int) =~= a@);
    r
}

/// Parse field modifier from field string (e.g., "CommandLine|contains" -> ("CommandLine", Some(TextPatternModifier::Contains)))
pub fn parse_field_modifier(field: &str) -> (r: (String, Option<TextPatternModifier>))
    ensures
        r.0@ == field_name(field@),
        r.1 == field_modifier(field@),
{
    let v = chars_of(field);
    let mut k: usize = 0;
    assert(v@.subrange(0, v@.len() as int) =~= v@);
    assert(v@.subrange(0, 0) + field_split(v@).0 =~= field_split(v@).0);
    while k < v.len() && v[k] != '|'
        invariant
            k <= v@.len(),
            v@ == field@,
            field_split(v@) == ({
                let (n, m) = field_split(v@.subrange(k as int, v@.len() as int));
                (v@.subrange(0, k as int) + n, m)
            }),
            forall|j: int| 0 <= j < k ==> v@[j] != '|',
        decreases v.len() - k,
    {
        let ghost rest = v@.subrange(k as int, v@.len() as int);
        assert(rest[0] == v@[k as int]);
        assert(rest.drop_first() =~= v@.subrange(k + 1, v@.len() as int));
        assert(v@.subrange(0, k + 1) =~= v@.subrange(0, k as int) + seq![v@[k as int]]);
        k = k + 1;
    }
    let name = string_from_chars(sub_chars(v.as_slice(), 0, k).as_slice());
    if k == v.len() {
        assert(v@.subrange(k as int, v@.len() as int) =~= Seq::<char>::empty());
        assert(v@.subrange(0, k as int) + Seq::<char>::empty() =~= v@.subrange(0, k as int));
        return (name, None);
    }
    let ghost rest = v@.subrange(k as int, v@.len() as int);
    assert(rest[0] == '|');
    assert(rest.drop_first() =~= v@.subrange(k + 1, v@.len() as int));
    assert(v@.subrange(0, k as int) + Seq::<char>::empty() =~= v@.subrange(0, k as int));
    let m = sub_chars(v.as_slice(), k + 1, v.len());
    let modifier = if ieq(m.as_slice(), "contains") {
        Some(TextPatternModifier::Contains)
    } else if ieq(m.as_slice(), "prefix") || ieq(m.as_slice(), "startswith") {
        Some(TextPatternModifier::Prefix)
    } else if ieq(m.as_slice(), "suffix") || ieq(m.as_slice(), "endswith") {
        Some(TextPatternModifier::Suffix)
    } else if ieq(m.as_slice(), "all") {
        Some(TextPatternModifier::All)
    } else if ieq(m.as_slice(), "re") || ieq(m.as_slice(), "regex") {
        Some(TextPatternModifier::Regex)
    } else if ieq(m.as_slice(), "keyword") {
        Some(TextPatternModifier::Keyword)
    } else {
        None
    };
    (name, modifier)
}

/// Process string value based on whitespace collapse settings: unchanged
/// when whitespace is kept, else its words joined by single spaces.
pub fn process_string_value(value: &str, no_collapse_ws: bool) -> (r: String)
    ensures
        r@ == normalize_value(value@, no_collapse_ws),
{
    if no_collapse_ws {
        owned(value)
    } else {
        let v = chars_of(value);
        let c = collapse_chars(v.as_slice());
        let t = trim_chars(c.as_slice());
        string_from_chars(t.as_slice())
    }
}

/// The text rule for a pattern, or the failure to build its matcher.
fn text_rule(name: &String, modifier: TextPatternModifier, p: String, no_collapse_ws: bool) -> (r:
    Result<Branch, ParseError>)
    ensures
        match text_cond(name@, modifier, p@, no_collapse_ws) {
            Ok(c) => r matches Ok(b) && denotes(b, c),
            Err(f) => r matches Err(e) && rule_fail_is(e, f),
        },
        r matches Err(ParseError::StringPatternCreationFailed { error, .. }) ==> plan_error(
            plan_of(modifier, p@),
            error@,
        ),
{
    let ghost pv = p@;
    let desc = p.clone();
    let mut patterns: Vec<String> = Vec::new();
    patterns.push(p);
    let ghost ps = patterns@;
    assert(ps.len() == 1 && ps[0]@ == pv);
    match new_string_matcher(modifier, false, false, no_collapse_ws, patterns) {
        Ok(matcher) => {
            assert(plan_ok(plan_of(modifier, ps[0]@)));
            let b = Branch::Rule(
                FieldRule::new(name.clone(), FieldPattern::String { matcher, pattern_desc: desc }),
            );
            let ghost c = Cond::Text { name: name@, modifier, pattern: pv, no_collapse_ws };
            assert forall|sel: spec_fn(Seq<char>) -> Option<crate::event::Value>, kw: (Seq<Seq<char>>, bool)|
                #[trigger] crate::ast::nodes::eval(b, sel, kw) == cond_sem(c, sel) by {
                match sel(name@) {
                    Some(v) => {
                        let sv = crate::pattern::coercion::string_form(v);
                        assert(string_match_spec(matcher, sv) == crate::pattern::factory::patterns_match(modifier, false, false, no_collapse_ws, ps, sv));
                        if plan_matches(plan_of(modifier, pv), pv, false, no_collapse_ws, sv) {
                            assert(plan_matches(plan_of(modifier, ps[0]@), ps[0]@, false, no_collapse_ws, sv));
                        }
                    },
                    None => {},
                }
            }
            Ok(b)
        },
        Err(e) => {
            assert(!crate::pattern::factory::all_plans_ok(modifier, ps));
            assert(!plan_ok(plan_of(modifier, pv))) by {
                if plan_ok(plan_of(modifier, pv)) {
                    assert forall|j: int| 0 <= j < ps.len() implies #[trigger] plan_ok(plan_of(modifier, ps[j]@)) by {
                        assert(j == 0);
                    }
                }
            }
            assert(crate::pattern::factory::first_plan_error(modifier, ps, e@));
            assert(plan_error(plan_of(modifier, pv), e@));
            Err(ParseError::string_pattern_creation_failed(name.clone(), desc, e))
        },
    }
}

/// The numeric rule for an integer.
fn num_rule(name: &String, n: i64, text: &String) -> (r: Result<Branch, ParseError>)
    ensures
        r matches Ok(b) && denotes(b, Cond::Num { name: name@, value: n }),
{
    let mut values: Vec<i64> = Vec::new();
    values.push(n);
    match new_num_matcher(values) {
        Ok(matcher) => {
            let b = Branch::Rule(
                FieldRule::new(
                    name.clone(),
                    FieldPattern::Numeric { matcher, pattern_desc: text.clone() },
                ),
            );
            let ghost c = Cond::Num { name: name@, value: n };
            assert(num_matcher_values(matcher) =~= seq![n]);
            assert forall|sel: spec_fn(Seq<char>) -> Option<crate::event::Value>, kw: (Seq<Seq<char>>, bool)|
                #[trigger] crate::ast::nodes::eval(b, sel, kw) == cond_sem(c, sel) by {
                match sel(name@) {
                    Some(v) => {
                        match crate::pattern::coercion::numeric_form(v) {
                            Some(x) => {
                                if num_matcher_values(matcher).contains(x) {
                                    let j = choose|j: int| 0 <= j < num_matcher_values(matcher).len() && num_matcher_values(matcher)[j] == x;
                                    assert(j == 0);
                                }
                                if x == n {
                                    assert(num_matcher_values(matcher)[0] == x);
                                }
                            },
                            None => {},
                        }
                    },
                    None => {},
                }
            }
            Ok(b)
        },
        Err(e) => Err(ParseError::numeric_pattern_creation_failed(name.clone(), text.clone(), e)),
    }
}

/// The rule of one value of a list, or the message of why it gives none.
fn element_rule(
    name: &String,
    modifier: TextPatternModifier,
    v: &DetectionValue,
    no_collapse_ws: bool,
) -> (r: Result<Branch, String>)
    ensures
        match element_cond(name@, modifier, *v, no_collapse_ws) {
            Some(c) => r matches Ok(b) && denotes(b, c),
            None => r matches Err(m) && element_error(name@, modifier, *v, no_collapse_ws, m@),
        },
{
    match v {
        DetectionValue::String(s) => {
            let processed = process_string_value(s.as_str(), no_collapse_ws);
            let shown = processed.clone();
            match text_rule(name, modifier, processed, no_collapse_ws) {
                Ok(b) => Ok(b),
                Err(e) => {
                    let head = owned("Failed to create string matcher for '").concat(shown.as_str()).concat("': ");
                    let m = with_reason(head, &e);
                    proof {
                        let h = "Failed to create string matcher for '"@ + shown@ + "': "@;
                        assert(m@.subrange(0, h.len() as int) =~= h);
                        assert(m@.skip(h.len() as int) =~= e->StringPatternCreationFailed_error@);
                    }
                    Err(m)
                },
            }
        },
        DetectionValue::Number { integer: Some(n), text } => match num_rule(name, *n, text) {
            Ok(b) => Ok(b),
            Err(_) => Err(owned("Failed to create numeric matcher for '").concat(text.as_str()).concat("'")),
        },
        DetectionValue::Number { integer: None, text } => {
            match text_rule(name, TextPatternModifier::NoModifier, text.clone(), no_collapse_ws) {
                Ok(b) => Ok(b),
                Err(e) => {
                    let head = owned("Failed to create string matcher for float '").concat(text.as_str()).concat("': ");
                    let m = with_reason(head, &e);
                    proof {
                        let h = "Failed to create string matcher for float '"@ + text@ + "': "@;
                        assert(m@.subrange(0, h.len() as int) =~= h);
                        assert(m@.skip(h.len() as int) =~= e->StringPatternCreationFailed_error@);
                    }
                    Err(m)
                },
            }
        },
        DetectionValue::Bool(b) => {
            let t = if *b {
                owned("true")
            } else {
                owned("false")
            };
            let shown = t.clone();
            match text_rule(name, TextPatternModifier::NoModifier, t, no_collapse_ws) {
                Ok(br) => Ok(br),
                Err(e) => {
                    let head = owned("Failed to create string matcher for boolean '").concat(shown.as_str()).concat("': ");
                    let m = with_reason(head, &e);
                    proof {
                        let h = "Failed to create string matcher for boolean '"@ + shown@ + "': "@;
                        assert(m@.subrange(0, h.len() as int) =~= h);
                        assert(m@.skip(h.len() as int) =~= e->StringPatternCreationFailed_error@);
                    }
                    Err(m)
                },
            }
        },
        _ => {
            let m = owned("Unsupported value type in array: ").concat(value_debug(v).as_str());
            proof {
                reveal_strlit("Unsupported value type in array: ");
                assert(m@.subrange(0, 33) =~= "Unsupported value type in array: "@);
            }
            Err(m)
        },
    }
}

/// The rule for a list of values: any of the rules of its values that give
/// one; an error when none does.
fn array_rule(
    name: &String,
    modifier: TextPatternModifier,
    items: &Vec<DetectionValue>,
    no_collapse_ws: bool,
) -> (r: Result<Branch, ParseError>)
    ensures
        ({
            let cs = array_conds(name@, modifier, items@, no_collapse_ws);
            if cs.len() == 0 {
                &&& r matches Err(e) && rule_fail_is(e, RuleFail::NoValidPatterns { field: name@ })
                &&& r matches Err(ParseError::NoValidFieldPatterns { errors, .. }) && element_errors(
                    name@,
                    modifier,
                    items@,
                    no_collapse_ws,
                    errors@,
                )
            } else {
                r matches Ok(b) && denotes(b, Cond::Any(cs))
            }
        }),
{
    let mut branches: Vec<Branch> = Vec::new();
    let mut errors: Vec<String> = Vec::new();
    let ghost mut cs: Seq<Cond> = Seq::empty();
    let mut i: usize = 0;
    while i < items.len()
        invariant
            i <= items@.len(),
            cs == array_conds(name@, modifier, items@.take(i as int), no_collapse_ws),
            all_denote(branches@, cs),
            cs.len() == 0 ==> element_errors(name@, modifier, items@.take(i as int), no_collapse_ws, errors@),
        decreases items.len() - i,
    {
        assert(items@.take(i + 1).drop_last() =~= items@.take(i as int));
        assert(items@.take(i + 1).last() == items@[i as int]);
        match element_rule(name, modifier, &items[i], no_collapse_ws) {
            Ok(b) => {
                let ghost c = element_cond(name@, modifier, items@[i as int], no_collapse_ws)->Some_0;
                let ghost prev = branches@;
                branches.push(b);
                proof {
                    let old_cs = cs;
                    cs = cs.push(c);
                    assert forall|j: int| 0 <= j < branches@.len() implies denotes(
                        #[trigger] branches@[j],
                        cs[j],
                    ) by {
                        if j < old_cs.len() {
                            assert(branches@[j] == prev[j]);
                        }
                    }
                }
            },
            Err(msg) => {
                let ghost prev_errors = errors@;
                errors.push(msg);
                proof {
                    if cs.len() == 0 {
                        assert forall|k: int| 0 <= k < i + 1 implies #[trigger] element_error(
                            name@,
                            modifier,
                            items@.take(i + 1)[k],
                            no_collapse_ws,
                            errors@[k]@,
                        ) by {
                            if k < i {
                                assert(items@.take(i + 1)[k] == items@.take(i as int)[k]);
                                assert(errors@[k] == prev_errors[k]);
                            }
                        }
                    }
                }
            },
        }
        i = i + 1;
    }
    assert(items@.take(items@.len() as int) =~= items@);
    if branches.len() == 0 {
        return Err(ParseError::no_valid_field_patterns(owned("unknown"), name.clone(), errors));
    }
    let ghost bs = branches@;
    match NodeSimpleOr::new(branches).reduce() {
        Ok(b) => {
            proof {
                lemma_denotes_reduced_or(b, bs, cs);
            }
            Ok(b)
        },
        Err(_) => Err(ParseError::parser_error(owned("Cannot reduce empty OR node - this indicates a parser bug"))),
    }
}

/// Create a field rule from an identifier and value
pub fn create_rule_from_ident(field: &str, value: &DetectionValue, no_collapse_ws: bool) -> (r: Result<
    Branch,
    ParseError,
>)
    ensures
        match rule_cond(field@, *value, no_collapse_ws) {
            Ok(c) => r matches Ok(b) && denotes(b, c),
            Err(f) => r matches Err(e) && rule_fail_is(e, f),
        },
        (value matches DetectionValue::Array(items) && array_conds(
            field_name(field@),
            modifier_or_exact(field@),
            items@,
            no_collapse_ws,
        ).len() == 0) ==> (r matches Err(ParseError::NoValidFieldPatterns { errors, .. }) && element_errors(
            field_name(field@),
            modifier_or_exact(field@),
            value->Array_0@,
            no_collapse_ws,
            errors@,
        )),
        r matches Err(ParseError::StringPatternCreationFailed { value: shown, error, .. }) ==> plan_error(
            plan_of(
                if value is String {
                    modifier_or_exact(field@)
                } else {
                    TextPatternModifier::NoModifier
                },
                shown@,
            ),
            error@,
        ),
    decreases value,
{
    let (field_name, modifier) = parse_field_modifier(field);
    let m = match modifier {
        Some(m) => m,
        None => TextPatternModifier::NoModifier,
    };
    match value {
        DetectionValue::String(s) => {
            let processed = process_string_value(s.as_str(), no_collapse_ws);
            text_rule(&field_name, m, processed, no_collapse_ws)
        },
        DetectionValue::Number { integer: Some(n), text } => num_rule(&field_name, *n, text),
        DetectionValue::Number { integer: None, text } => text_rule(
            &field_name,
            TextPatternModifier::NoModifier,
            text.clone(),
            no_collapse_ws,
        ),
        DetectionValue::Bool(b) => {
            let t = if *b {
                owned("true")
            } else {
                owned("false")
            };
            text_rule(&field_name, TextPatternModifier::NoModifier, t, no_collapse_ws)
        },
        DetectionValue::Array(items) => array_rule(&field_name, m, items, no_collapse_ws),
        DetectionValue::Object(entries) => {
            proof {
                assert(decreases_to!(*value => value->Object_0));
            }
            create_complex_field_rule(field, entries, no_collapse_ws)
        },
        DetectionValue::Null => Err(
            ParseError::field_pattern_creation_failed(
                owned(field),
                owned("Null"),
                owned("Unsupported value type for field rule"),
            ),
        ),
    }
}

/// Create a complex field rule from an object definition: all of the rules
/// of its properties that give one.
pub fn create_complex_field_rule(
    field: &str,
    entries: &Vec<(String, DetectionValue)>,
    no_collapse_ws: bool,
) -> (r: Result<Branch, ParseError>)
    ensures
        ({
            let cs = object_conds(entries@, no_collapse_ws);
            if cs.len() > 0 {
                r matches Ok(b) && denotes(b, Cond::All(cs))
            } else if entries@.len() > 0 {
                r matches Err(e) && rule_fail_is(e, RuleFail::NoValidPatterns { field: field@ })
            } else {
                r matches Err(e) && rule_fail_is(e, RuleFail::ComplexEmpty { field: field@ })
            }
        }),
    decreases entries,
{
    let mut branches: Vec<Branch> = Vec::new();
    let mut errors: Vec<String> = Vec::new();
    let ghost mut cs: Seq<Cond> = Seq::empty();
    let mut i: usize = 0;
    while i < entries.len()
        invariant
            i <= entries@.len(),
            cs == object_conds(entries@.take(i as int), no_collapse_ws),
            all_denote(branches@, cs),
            branches@.len() + errors@.len() == i,
        decreases entries.len() - i,
    {
        assert(entries@.take(i + 1).drop_last() =~= entries@.take(i as int));
        assert(entries@.take(i + 1).last() == entries@[i as int]);
        proof {
            assert(decreases_to!(entries => entries@));
            assert(decreases_to!(entries@ => entries@[i as int]));
            assert(decreases_to!(entries@[i as int] => entries@[i as int].1));
        }
        match create_rule_from_ident(entries[i].0.as_str(), &entries[i].1, no_collapse_ws) {
            Ok(b) => {
                let ghost c = rule_cond(entries@[i as int].0@, entries@[i as int].1, no_collapse_ws)->Ok_0;
                let ghost prev = branches@;
                branches.push(b);
                proof {
                    let old_cs = cs;
                    cs = cs.push(c);
                    assert forall|j: int| 0 <= j < branches@.len() implies denotes(
                        #[trigger] branches@[j],
                        cs[j],
                    ) by {
                        if j < old_cs.len() {
                            assert(branches@[j] == prev[j]);
                        }
                    }
                }
            },
            Err(e) => {
                errors.push(
                    owned("Error creating rule for '").concat(entries[i].0.as_str()).concat("': ").concat(
                        e.message().as_str(),
                    ),
                );
            },
        }
        i = i + 1;
    }
    assert(entries@.take(entries@.len() as int) =~= entries@);
    if branches.len() == 0 {
        if errors.len() > 0 {
            return Err(ParseError::no_valid_field_patterns(owned("unknown"), owned(field), errors));
        }
        return Err(
            ParseError::field_pattern_creation_failed(
                owned(field),
                owned("complex object"),
                owned("no valid branches created from object properties"),
            ),
        );
    }
    let ghost bs = branches@;
    match NodeSimpleAnd::new(branches).reduce() {
        Ok(b) => {
            proof {
                lemma_denotes_reduced_and(b, bs, cs);
            }
            Ok(b)
        },
        Err(_) => Err(ParseError::parser_error(owned("Cannot reduce empty AND node - this indicates a parser bug"))),
    }
}

} // verus!
