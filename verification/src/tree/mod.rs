//! The condition tree of a rule and its evaluation.
use vstd::prelude::*;

use crate::ast::nodes::{eval, Branch};
use crate::ast::selector_of;
use crate::event::Event;
use crate::parser::error::{parse_error_eq, ParseError};
use crate::parser::semantics::denotes;
use crate::parser::{build_fail_is, condition_outcome, Parser};
use crate::result::Result as MatchOutput;
use crate::rule::detection::{entry_value, DetectionValue};
use crate::rule::{Detection, RuleHandle};
use crate::text::{clone_strings, owned, string_views};
use vstd::string::StringExecFns;

verus! {

/// Tree represents the full AST for a sigma rule
#[derive(Debug)]
pub struct Tree {
    /// The root of the condition tree
    pub root: Branch,
    /// The rule the tree was built from
    pub rule: RuleHandle,
}

impl Tree {
    /// Create a new Tree with the given root branch and rule handle
    pub fn new(root: Branch, rule: RuleHandle) -> (r: Self)
        ensures
            r.root == root,
            r.rule == rule,
    {
        Tree { root, rule }
    }

    /// Match the event: whether it matched and whether the rule applied
    pub fn match_event<E: Event>(&self, event: &E) -> (r: (bool, bool))
        ensures
            r.0 == eval(self.root, selector_of(event), event.keywords_spec()).matched,
            r.1 == eval(self.root, selector_of(event), event.keywords_spec()).applicable,
    {
        let result = self.root.matches(event);
        (result.matched, result.applicable)
    }

    /// Evaluate an event against this tree: a result naming the rule when it
    /// matches, and whether the rule applied.
    pub fn eval<E: Event>(&self, event: &E) -> (r: (Option<MatchOutput>, bool))
        ensures
            ({
                let m = eval(self.root, selector_of(event), event.keywords_spec());
                &&& r.1 == m.applicable
                &&& (m.applicable && m.matched) <==> r.0 is Some
                &&& r.0 matches Some(res) ==> {
                    &&& res.id@ == self.rule.rule.id@
                    &&& res.title@ == self.rule.rule.title@
                    &&& res.description@ == match self.rule.rule.description {
                        Some(d) => d@,
                        None => Seq::<char>::empty(),
                    }
                    &&& string_views(res.tags@) == string_views(self.rule.rule.tags@)
                }
            }),
    {
        let (matched, applicable) = self.match_event(event);
        if !applicable {
            return (None, false);
        }
        if matched {
            let description = match &self.rule.rule.description {
                Some(d) => d.clone(),
                None => String::new(),
            };
            let result = MatchOutput::new(
                self.rule.rule.id.clone(),
                self.rule.rule.title.clone(),
                description,
            ).with_tags(clone_strings(&self.rule.rule.tags));
            return (Some(result), true);
        }
        (None, applicable)
    }
}

/// The error that building a tree reports for an error of the parser:
/// parser errors and pattern failures are reported against the rule.
pub open spec fn remapped(orig: ParseError, out: ParseError, rule_id: Seq<char>) -> bool {
    match orig {
        ParseError::ParserError(m) => out matches ParseError::DetectionParsingFailed { rule_id: id, error }
            && id@ == rule_id && error@ == m@,
        ParseError::NoValidFieldPatterns { field, errors, .. } => out matches ParseError::NoValidFieldPatterns {
            rule_id: id,
            field: f,
            errors: es,
        } && id@ == rule_id && f@ == field@ && string_views(es@) == string_views(errors@),
        ParseError::FieldPatternCreationFailed { field, value, error } => out matches ParseError::DetectionParsingFailed {
            rule_id: id,
            error: msg,
        } && id@ == rule_id && msg@ == "Failed to create pattern for field '"@ + field@ + "' with value '"@ + value@
            + "': "@ + error@,
        _ => parse_error_eq(out, orig),
    }
}

fn remap_error(e: ParseError, rule_id: &String) -> (r: ParseError)
    ensures
        remapped(e, r, rule_id@),
{
    match e {
        ParseError::ParserError(msg) => ParseError::detection_parsing_failed(rule_id.clone(), msg),
        ParseError::NoValidFieldPatterns { field, errors, .. } => ParseError::no_valid_field_patterns(
            rule_id.clone(),
            field,
            errors,
        ),
        ParseError::FieldPatternCreationFailed { field, value, error } => {
            let msg = owned("Failed to create pattern for field '").concat(field.as_str()).concat(
                "' with value '",
            ).concat(value.as_str()).concat("': ").concat(error.as_str());
            ParseError::detection_parsing_failed(rule_id.clone(), msg)
        },
        other => {
            proof {
                crate::parser::error::lemma_parse_error_eq_refl(other);
            }
            other
        },
    }
}

/// Build a new Tree from a RuleHandle
pub fn build_tree(rule: RuleHandle) -> (r: core::result::Result<Tree, ParseError>)
    ensures
        match entry_value(rule.rule.detection@, "condition"@) {
            Some(DetectionValue::String(_)) => match condition_outcome(rule.rule.detection@, rule.no_collapse_ws) {
                Ok(c) => r matches Ok(t) && denotes(t.root, c) && t.rule.rule.id == rule.rule.id
                    && t.rule.rule.title == rule.rule.title && t.rule.rule.description == rule.rule.description
                    && t.rule.rule.tags == rule.rule.tags && t.rule.rule.detection@ == rule.rule.detection@
                    && t.rule.path == rule.path && t.rule.no_collapse_ws == rule.no_collapse_ws,
                Err(f) => r matches Err(e) && exists|orig: ParseError|
                    build_fail_is(orig, f, rule.rule.detection@) && #[trigger] remapped(orig, e, rule.rule.id@),
            },
            _ => r matches Err(ParseError::MissingCondition),
        },
{
    if rule.rule.detection.condition().is_none() {
        return Err(ParseError::MissingCondition);
    }
    let ghost id0 = rule.rule.id@;
    let ghost ncw0 = rule.no_collapse_ws;
    let mut handle = rule;
    let ghost det = handle.rule.detection@;
    let mut detection = Detection::new();
    std::mem::swap(&mut detection, &mut handle.rule.detection);
    let mut parser = Parser::new(detection, handle.no_collapse_ws);
    let outcome = parser.run();
    let (result, detection) = parser.into_parts();
    handle.rule.detection = detection;
    match outcome {
        Err(e) => {
            let ghost orig = e;
            let mapped = remap_error(e, &handle.rule.id);
            assert(remapped(orig, mapped, id0));
            assert(build_fail_is(orig, condition_outcome(det, ncw0)->Err_0, det));
            Err(mapped)
        },
        Ok(()) => match result {
            Some(root) => Ok(Tree::new(root, handle)),
            None => Err(ParseError::MissingCondition),
        },
    }
}

} // verus!
