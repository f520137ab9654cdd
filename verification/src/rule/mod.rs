//! Sigma rule representation and validation
use vstd::prelude::*;

use crate::error::SigmaError;
use crate::pattern::engines::{compile_regex, regex_compiles, regex_is_match, regex_matches};
use crate::text::{chars_of, trim, trim_chars, owned, str_eq};
use vstd::string::StringExecFns;

pub mod detection;
pub mod logsource;
pub mod tags;

pub use detection::{Detection, DetectionValue};
pub use logsource::Logsource;
pub use tags::Tags;

verus! {

/// Rule defines raw rule conforming to sigma rule specification
#[derive(Debug)]
pub struct Rule {
    /// Rule author
    pub author: Option<String>,
    /// Rule description
    pub description: Option<String>,
    /// Known false positive scenarios
    pub falsepositives: Vec<String>,
    /// Fields relevant to this rule
    pub fields: Vec<String>,
    /// Unique rule identifier
    pub id: String,
    /// Severity level
    pub level: Option<String>,
    /// Rule title
    pub title: String,
    /// Rule status (experimental, testing, stable)
    pub status: Option<String>,
    /// External references
    pub references: Vec<String>,
    /// Log source configuration
    pub logsource: Logsource,
    /// Detection rules and conditions
    pub detection: Detection,
    /// Rule tags for categorization
    pub tags: Vec<String>,
    /// Creation date
    pub date: Option<String>,
    /// Last modification date
    pub modified: Option<String>,
}

impl Rule {
    /// Check if the rule contains all provided tags
    pub fn has_tags(&self, tags: &[String]) -> (r: bool)
        ensures
            r == tags::has_all_spec(self.tags@, tags@),
    {
        tags::all_tags_present(&self.tags, tags)
    }
}

/// RuleHandle is a meta object containing all fields from raw yaml, but is enhanced to also
/// hold debugging info from the tool, such as source file path, etc
#[derive(Debug)]
pub struct RuleHandle {
    /// The parsed rule
    pub rule: Rule,
    /// Source file path
    pub path: String,
    /// Whether this is a multipart rule
    pub multipart: bool,
    /// Whether to preserve whitespace in patterns
    pub no_collapse_ws: bool,
}

impl RuleHandle {
    /// Create a new RuleHandle from a Rule and metadata
    pub fn new(rule: Rule, path: String) -> (r: Self)
        ensures
            r.rule == rule,
            r.path == path,
            !r.multipart,
            !r.no_collapse_ws,
    {
        RuleHandle { rule, path, multipart: false, no_collapse_ws: false }
    }

    /// Set whether this is a multipart rule
    pub fn with_multipart(self, multipart: bool) -> (r: Self)
        ensures
            r == (RuleHandle { multipart, ..self }),
    {
        let mut h = self;
        h.multipart = multipart;
        h
    }

    /// Set whether to disable whitespace collapsing
    pub fn with_no_collapse_ws(self, no_collapse_ws: bool) -> (r: Self)
        ensures
            r == (RuleHandle { no_collapse_ws, ..self }),
    {
        let mut h = self;
        h.no_collapse_ws = no_collapse_ws;
        h
    }
}

/// The separator of documents in a rule file.
pub open spec fn separator() -> Seq<u8> {
    seq![45u8, 45u8, 45u8]
}

/// Rule data is multipart when it holds a document separator and does not
/// start with one.
pub open spec fn is_multipart_spec(data: Seq<u8>) -> bool {
    &&& !(data.len() >= 3 && data.take(3) == separator())
    &&& exists|i: int| 0 <= i && i + 3 <= data.len() && #[trigger] data.subrange(i, i + 3) == separator()
}

/// Check if rule data is multipart (contains document separator not at start)
pub fn is_multipart(data: &[u8]) -> (r: bool)
    ensures
        r == is_multipart_spec(data@),
{
    let n = data.len();
    if n < 3 {
        proof {
            assert forall|i: int| 0 <= i && i + 3 <= data@.len() implies #[trigger] data@.subrange(i, i + 3) != separator() by {}
        }
        return false;
    }
    if data[0] == 45u8 && data[1] == 45u8 && data[2] == 45u8 {
        assert(data@.take(3) =~= separator());
        return false;
    }
    assert(data@.take(3) != separator()) by {
        if data@.take(3) == separator() {
            assert(data@.take(3)[0] == data@[0]);
            assert(data@.take(3)[1] == data@[1]);
            assert(data@.take(3)[2] == data@[2]);
        }
    }
    let mut i: usize = 0;
    while i < n - 2
        invariant
            n == data@.len(),
            n >= 3,
            i <= n - 2,
            data@.take(3) != separator(),
            forall|j: int| 0 <= j < i ==> #[trigger] data@.subrange(j, j + 3) != separator(),
        decreases n - i,
    {
        if data[i] == 45u8 && data[i + 1] == 45u8 && data[i + 2] == 45u8 {
            assert(data@.subrange(i as int, i + 3) =~= separator());
            return true;
        }
        assert(data@.subrange(i as int, i + 3) != separator()) by {
            let w = data@.subrange(i as int, i + 3);
            if w == separator() {
                assert(w[0] == data@[i as int]);
                assert(w[1] == data@[i + 1]);
                assert(w[2] == data@[i + 2]);
            }
        }
        i = i + 1;
    }
    false
}

/// The pattern a rule identifier must match: five groups of hexadecimal
/// digits, 8-4-4-4-12.
pub open spec fn uuid_pattern() -> Seq<char> {
    "^[a-fA-F0-9]{8}-[a-fA-F0-9]{4}-[a-fA-F0-9]{4}-[a-fA-F0-9]{4}-[a-fA-F0-9]{12}$"@
}

/// The identifier is in UUID form (the identifier pattern compiles with the
/// default limits and matches it).
pub open spec fn uuid_ok(id: Seq<char>) -> bool {
    regex_compiles(uuid_pattern(), 2097152, 10485760) && regex_matches(uuid_pattern(), id)
}

/// The condition is one that holds without a selection.
pub open spec fn is_trivial_condition(c: Seq<char>) -> bool {
    let t = trim(c);
    t == "true"@ || t == "false"@ || t == "1"@ || t == "0"@
}

/// The first problem of a rule, in the order the checks are made.
pub enum RuleProblem {
    /// The title is empty or only whitespace
    EmptyTitle,
    /// The identifier is not in UUID form
    BadId,
    /// The detection has no condition
    NoCondition,
    /// A selection has an empty name
    EmptySelectionKey,
    /// No selection, and the condition is not trivial
    NoSelections,
}

/// What `validate_rule` finds wrong with a rule, if anything.
pub open spec fn rule_problem(rule: Rule) -> Option<RuleProblem> {
    let sels = detection::selections(rule.detection@);
    if trim(rule.title@).len() == 0 {
        Some(RuleProblem::EmptyTitle)
    } else if !uuid_ok(rule.id@) {
        Some(RuleProblem::BadId)
    } else {
        match detection::entry_value(rule.detection@, "condition"@) {
            Some(DetectionValue::String(c)) => {
                if exists|i: int| 0 <= i < sels.len() && #[trigger] sels[i].0@.len() == 0 {
                    Some(RuleProblem::EmptySelectionKey)
                } else if sels.len() == 0 && !is_trivial_condition(c@) {
                    Some(RuleProblem::NoSelections)
                } else {
                    None
                }
            },
            _ => Some(RuleProblem::NoCondition),
        }
    }
}

fn is_trivial_condition_exec(c: &str) -> (r: bool)
    ensures
        r == is_trivial_condition(c@),
{
    let v = chars_of(c);
    let t = trim_chars(v.as_slice());
    let s = crate::text::string_from_chars(t.as_slice());
    str_eq(s.as_str(), "true") || str_eq(s.as_str(), "false") || str_eq(s.as_str(), "1")
        || str_eq(s.as_str(), "0")
}

#[verifier::loop_isolation(false)]
/// Validate that a rule meets the minimum requirements: a title that is not
/// blank, an identifier in UUID form, a condition, no selection with an empty
/// name, and a selection unless the condition is trivial.
pub fn validate_rule(rule: &Rule) -> (r: Result<(), SigmaError>)
    ensures
        r is Ok <==> rule_problem(*rule) is None,
        rule_problem(*rule) == Some(RuleProblem::EmptyTitle) ==> (r matches Err(
            SigmaError::InvalidRule(m),
        ) && m@ == "Rule title cannot be empty"@),
        rule_problem(*rule) == Some(RuleProblem::BadId) ==> (r matches Err(SigmaError::InvalidRule(m))
            && m@ == "Rule ID '"@ + rule.id@ + "' is not a valid UUID format"@),
        rule_problem(*rule) == Some(RuleProblem::NoCondition) ==> r matches Err(
            SigmaError::MissingCondition,
        ),
        rule_problem(*rule) == Some(RuleProblem::EmptySelectionKey) ==> (r matches Err(
            SigmaError::InvalidRule(m),
        ) && m@ == "Detection contains empty selection key"@),
        rule_problem(*rule) == Some(RuleProblem::NoSelections) ==> (r matches Err(
            SigmaError::InvalidRule(m),
        ) && m@ == "Detection must contain at least one selection"@),
{
    let title = chars_of(rule.title.as_str());
    let tt = trim_chars(title.as_slice());
    if tt.len() == 0 {
        return Err(SigmaError::InvalidRule(owned("Rule title cannot be empty")));
    }
    let pattern = "^[a-fA-F0-9]{8}-[a-fA-F0-9]{4}-[a-fA-F0-9]{4}-[a-fA-F0-9]{4}-[a-fA-F0-9]{12}$";
    let id_ok = match compile_regex(pattern, 2097152, 10485760) {
        Ok(re) => regex_is_match(&re, rule.id.as_str()),
        Err(_) => false,
    };
    if !id_ok {
        let msg = owned("Rule ID '").concat(rule.id.as_str()).concat("' is not a valid UUID format");
        return Err(SigmaError::InvalidRule(msg));
    }
    let condition = match rule.detection.condition() {
        Some(c) => c,
        None => {
            return Err(SigmaError::MissingCondition);
        },
    };
    let selections = rule.detection.extract();
    let ghost sels = detection::entry_refs(selections@);
    let mut i: usize = 0;
    while i < selections.len()
        invariant
            i <= sels.len(),
            sels == detection::entry_refs(selections@),
            forall|j: int| 0 <= j < i ==> #[trigger] sels[j].0@.len() != 0,
        decreases selections.len() - i,
    {
        if chars_of(selections[i].0.as_str()).len() == 0 {
            assert(sels[i as int].0@.len() == 0);
            return Err(SigmaError::InvalidRule(owned("Detection contains empty selection key")));
        }
        i = i + 1;
    }
    if selections.len() == 0 && !is_trivial_condition_exec(condition) {
        return Err(SigmaError::InvalidRule(owned("Detection must contain at least one selection")));
    }
    Ok(())
}

} // verus!
