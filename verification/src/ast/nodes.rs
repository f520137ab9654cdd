//! The logical nodes of a condition tree and what they answer for an event.
use vstd::prelude::*;

use crate::ast::{field_rule_eval, rule_text, selector_of, FieldPattern, FieldRule, MatchResult};
use vstd::string::StringExecFns;
use crate::event::Value;
use crate::error::SigmaError;
use crate::event::Event;
use crate::text::owned;

verus! {

/// A node of a condition tree.
#[derive(Debug)]
pub enum Branch {
    /// A field rule
    Rule(FieldRule),
    /// An identifier wrapping a field rule
    Ident(Identifier),
    /// Logical AND of two branches
    And(NodeAnd),
    /// Logical OR of two branches
    Or(NodeOr),
    /// Logical NOT of a branch
    Not(NodeNot),
    /// Logical AND of several branches
    SimpleAnd(NodeSimpleAnd),
    /// Logical OR of several branches
    SimpleOr(NodeSimpleOr),
}

/// Node for logical AND operation
#[derive(Debug)]
pub struct NodeAnd {
    /// Left branch of the AND operation
    pub left: Box<Branch>,
    /// Right branch of the AND operation
    pub right: Box<Branch>,
}

/// Node for logical OR operation
#[derive(Debug)]
pub struct NodeOr {
    /// Left branch of the OR operation
    pub left: Box<Branch>,
    /// Right branch of the OR operation
    pub right: Box<Branch>,
}

/// Node for logical NOT operation
#[derive(Debug)]
pub struct NodeNot {
    /// Branch to negate
    pub branch: Box<Branch>,
}

/// Simple AND node for multiple branches
#[derive(Debug)]
pub struct NodeSimpleAnd {
    /// Collection of branches that must all match
    pub branches: Vec<Branch>,
}

/// Simple OR node for multiple branches
#[derive(Debug)]
pub struct NodeSimpleOr {
    /// Collection of branches where at least one must match
    pub branches: Vec<Branch>,
}

/// Identifier node that wraps a field rule
#[derive(Debug)]
pub struct Identifier {
    field_rule: FieldRule,
}

impl Identifier {
    /// The wrapped field rule.
    pub closed spec fn rule_spec(&self) -> FieldRule {
        self.field_rule
    }

    /// Create a new identifier node
    pub fn new(field: String, pattern: FieldPattern) -> (r: Self)
        ensures
            r.rule_spec() == (FieldRule { field, pattern }),
    {
        Identifier { field_rule: FieldRule::new(field, pattern) }
    }

    /// Create an identifier node from an existing field rule
    pub fn from_rule(rule: FieldRule) -> (r: Self)
        ensures
            r.rule_spec() == rule,
    {
        Identifier { field_rule: rule }
    }

    /// A human-readable description: the wrapped field rule's
    pub fn describe(&self) -> (r: String)
        ensures
            r@ == rule_text(self.rule_spec()),
    {
        self.field_rule.describe()
    }

    /// Check the wrapped field rule against the event
    pub fn matches<E: Event>(&self, event: &E) -> (r: MatchResult)
        ensures
            r == field_rule_eval(self.rule_spec(), selector_of(event), event.keywords_spec()),
    {
        self.field_rule.matches(event)
    }
}

/// The result of a negation: an inapplicable result stays as it is, an
/// applicable one has its match flipped.
pub open spec fn negate(r: MatchResult) -> MatchResult {
    if !r.applicable {
        r
    } else {
        MatchResult { matched: !r.matched, applicable: true }
    }
}

/// What a branch answers for an event whose fields `sel` looks up and whose
/// keywords are `kw`.
pub open spec fn eval(
    b: Branch,
    sel: spec_fn(Seq<char>) -> Option<Value>,
    kw: (Seq<Seq<char>>, bool),
) -> MatchResult
    decreases b,
{
    match b {
        Branch::Rule(r) => field_rule_eval(r, sel, kw),
        Branch::Ident(i) => field_rule_eval(i.rule_spec(), sel, kw),
        Branch::And(n) => {
            let l = eval(*n.left, sel, kw);
            if !l.matched {
                MatchResult { matched: false, applicable: l.applicable }
            } else {
                let r = eval(*n.right, sel, kw);
                MatchResult { matched: r.matched, applicable: l.applicable && r.applicable }
            }
        },
        Branch::Or(n) => {
            let l = eval(*n.left, sel, kw);
            if l.matched {
                MatchResult { matched: true, applicable: l.applicable }
            } else {
                let r = eval(*n.right, sel, kw);
                MatchResult { matched: r.matched, applicable: l.applicable || r.applicable }
            }
        },
        Branch::Not(n) => negate(eval(*n.branch, sel, kw)),
        Branch::SimpleAnd(n) => eval_all(n.branches@, sel, kw),
        Branch::SimpleOr(n) => eval_any(n.branches@, sel, kw),
    }
}

/// A sequence of branches taken as a conjunction: the first result that did
/// not match or was not applicable, else a match.
pub open spec fn eval_all(
    bs: Seq<Branch>,
    sel: spec_fn(Seq<char>) -> Option<Value>,
    kw: (Seq<Seq<char>>, bool),
) -> MatchResult
    decreases bs,
{
    if bs.len() == 0 {
        MatchResult { matched: true, applicable: true }
    } else {
        let r = eval(bs[0], sel, kw);
        if !r.matched || !r.applicable {
            r
        } else {
            eval_all(bs.drop_first(), sel, kw)
        }
    }
}

/// A sequence of branches taken as a disjunction: a match if one matches,
/// else no match, applicable when one of them was.
pub open spec fn eval_any(
    bs: Seq<Branch>,
    sel: spec_fn(Seq<char>) -> Option<Value>,
    kw: (Seq<Seq<char>>, bool),
) -> MatchResult
    decreases bs,
{
    if bs.len() == 0 {
        MatchResult { matched: false, applicable: false }
    } else {
        let r = eval(bs[0], sel, kw);
        if r.matched {
            MatchResult { matched: true, applicable: true }
        } else {
            let rest = eval_any(bs.drop_first(), sel, kw);
            if rest.matched {
                rest
            } else {
                MatchResult { matched: false, applicable: r.applicable || rest.applicable }
            }
        }
    }
}

/// How a description writes a branch: field rules as they describe
/// themselves, `(a AND b)`, `(a OR b)`, `NOT a)`, and the branches of a
/// simple conjunction or disjunction joined by ` AND ` or ` OR ` in
/// parentheses.
pub open spec fn describe_text(b: Branch) -> Seq<char>
    decreases b,
{
    match b {
        Branch::Rule(r) => rule_text(r),
        Branch::Ident(i) => rule_text(i.rule_spec()),
        Branch::And(n) => "("@ + describe_text(*n.left) + " AND "@ + describe_text(*n.right) + ")"@,
        Branch::Or(n) => "("@ + describe_text(*n.left) + " OR "@ + describe_text(*n.right) + ")"@,
        Branch::Not(n) => "NOT "@ + describe_text(*n.branch) + ")"@,
        Branch::SimpleAnd(n) => "("@ + describe_joined(n.branches@, " AND "@) + ")"@,
        Branch::SimpleOr(n) => "("@ + describe_joined(n.branches@, " OR "@) + ")"@,
    }
}

/// The descriptions of branches separated by `sep`.
pub open spec fn describe_joined(bs: Seq<Branch>, sep: Seq<char>) -> Seq<char>
    decreases bs,
{
    if bs.len() == 0 {
        Seq::empty()
    } else if bs.len() == 1 {
        describe_text(bs[0])
    } else {
        describe_joined(bs.drop_last(), sep) + sep + describe_text(bs.last())
    }
}

/// An identifier made from a field rule answers and describes itself as the
/// field rule does.
pub proof fn lemma_identifier_as_rule(rule: FieldRule, id: Identifier)
    requires
        id.rule_spec() == rule,
    ensures
        describe_text(Branch::Ident(id)) == describe_text(Branch::Rule(rule)),
        forall|sel: spec_fn(Seq<char>) -> Option<Value>, kw: (Seq<Seq<char>>, bool)|
            #[trigger] eval(Branch::Ident(id), sel, kw) == eval(Branch::Rule(rule), sel, kw),
{
}

impl Branch {
    /// Get a human-readable description of the node
    pub fn describe(&self) -> (r: String)
        ensures
            r@ == describe_text(*self),
        decreases self,
    {
        match self {
            Branch::Rule(r) => r.describe(),
            Branch::Ident(i) => i.describe(),
            Branch::And(n) => owned("(").concat(n.left.describe().as_str()).concat(" AND ").concat(
                n.right.describe().as_str(),
            ).concat(")"),
            Branch::Or(n) => owned("(").concat(n.left.describe().as_str()).concat(" OR ").concat(
                n.right.describe().as_str(),
            ).concat(")"),
            Branch::Not(n) => owned("NOT ").concat(n.branch.describe().as_str()).concat(")"),
            Branch::SimpleAnd(n) => {
                proof {
                    assert(decreases_to!(*self => self->SimpleAnd_0));
                }
                let joined = Self::describe_list(&n.branches, " AND ");
                owned("(").concat(joined.as_str()).concat(")")
            },
            Branch::SimpleOr(n) => {
                proof {
                    assert(decreases_to!(*self => self->SimpleOr_0));
                }
                let joined = Self::describe_list(&n.branches, " OR ");
                owned("(").concat(joined.as_str()).concat(")")
            },
        }
    }

    /// The descriptions of branches separated by `sep`.
    fn describe_list(bs: &Vec<Branch>, sep: &str) -> (r: String)
        ensures
            r@ == describe_joined(bs@, sep@),
        decreases bs,
    {
        let mut out = String::new();
        let mut i: usize = 0;
        while i < bs.len()
            invariant
                i <= bs@.len(),
                out@ == describe_joined(bs@.take(i as int), sep@),
            decreases bs.len() - i,
        {
            proof {
                assert(bs@.take(i + 1).drop_last() =~= bs@.take(i as int));
                assert(bs@.take(i + 1).last() == bs@[i as int]);
                assert(decreases_to!(bs => bs@));
                assert(decreases_to!(bs@ => bs@[i as int]));
                if i == 0 {
                    assert(bs@.take(1)[0] == bs@[0]);
                }
            }
            let d = bs[i].describe();
            if i > 0 {
                out = out.concat(sep);
            }
            out = out.concat(d.as_str());
            i = i + 1;
        }
        assert(bs@.take(bs@.len() as int) =~= bs@);
        out
    }

    /// Match the node against an event
    pub fn matches<E: Event>(&self, event: &E) -> (r: MatchResult)
        ensures
            r == eval(*self, selector_of(event), event.keywords_spec()),
        decreases self,
    {
        let ghost sel = selector_of(event);
        let ghost kw = event.keywords_spec();
        match self {
            Branch::Rule(r) => r.matches(event),
            Branch::Ident(i) => i.matches(event),
            Branch::And(n) => {
                let left_result = n.left.matches(event);
                if !left_result.matched {
                    return MatchResult::new(false, left_result.applicable);
                }
                let right_result = n.right.matches(event);
                MatchResult::new(
                    left_result.matched && right_result.matched,
                    left_result.applicable && right_result.applicable,
                )
            },
            Branch::Or(n) => {
                let left_result = n.left.matches(event);
                if left_result.matched {
                    return MatchResult::new(true, left_result.applicable);
                }
                let right_result = n.right.matches(event);
                MatchResult::new(
                    left_result.matched || right_result.matched,
                    left_result.applicable || right_result.applicable,
                )
            },
            Branch::Not(n) => {
                let result = n.branch.matches(event);
                if !result.applicable {
                    return result;
                }
                MatchResult::new(!result.matched, result.applicable)
            },
            Branch::SimpleAnd(n) => {
                let ghost bs = n.branches@;
                let mut i: usize = 0;
                assert(bs.subrange(0, bs.len() as int) =~= bs);
                while i < n.branches.len()
                    invariant
                        *self == Branch::SimpleAnd(*n),
                        sel == selector_of(event),
                        kw == event.keywords_spec(),
                        bs == n.branches@,
                        i <= bs.len(),
                        eval_all(bs, sel, kw) == eval_all(bs.subrange(i as int, bs.len() as int), sel, kw),
                    decreases n.branches.len() - i,
                {
                    let ghost rest = bs.subrange(i as int, bs.len() as int);
                    assert(rest[0] == bs[i as int]);
                    assert(rest.drop_first() =~= bs.subrange(i + 1, bs.len() as int));
                    proof {
                        assert(decreases_to!(*self => self->SimpleAnd_0));
                        assert(self->SimpleAnd_0 == *n);
                        assert(decreases_to!(*n => n.branches));
                        assert(decreases_to!(n.branches => n.branches@));
                        assert(decreases_to!(n.branches@ => n.branches@[i as int]));
                    }
                    let result = n.branches[i].matches(event);
                    if !result.matched || !result.applicable {
                        return result;
                    }
                    i = i + 1;
                }
                MatchResult::matched()
            },
            Branch::SimpleOr(n) => {
                let ghost bs = n.branches@;
                let mut one_applicable = false;
                let mut i: usize = 0;
                proof {
                    lemma_any_matched_is_match(bs, sel, kw);
                    assert(bs.subrange(0, bs.len() as int) =~= bs);
                }
                while i < n.branches.len()
                    invariant
                        *self == Branch::SimpleOr(*n),
                        sel == selector_of(event),
                        kw == event.keywords_spec(),
                        bs == n.branches@,
                        i <= bs.len(),
                        eval_any(bs, sel, kw) == (if eval_any(bs.subrange(i as int, bs.len() as int), sel, kw).matched {
                            MatchResult { matched: true, applicable: true }
                        } else {
                            MatchResult {
                                matched: false,
                                applicable: one_applicable || eval_any(bs.subrange(i as int, bs.len() as int), sel, kw).applicable,
                            }
                        }),
                    decreases n.branches.len() - i,
                {
                    let ghost rest = bs.subrange(i as int, bs.len() as int);
                    assert(rest[0] == bs[i as int]);
                    assert(rest.drop_first() =~= bs.subrange(i + 1, bs.len() as int));
                    proof {
                        lemma_any_matched_is_match(rest.drop_first(), sel, kw);
                    }
                    proof {
                        assert(decreases_to!(*self => self->SimpleOr_0));
                        assert(self->SimpleOr_0 == *n);
                        assert(decreases_to!(*n => n.branches));
                        assert(decreases_to!(n.branches => n.branches@));
                        assert(decreases_to!(n.branches@ => n.branches@[i as int]));
                    }
                    let result = n.branches[i].matches(event);
                    if result.matched {
                        return MatchResult::matched();
                    }
                    if result.applicable {
                        one_applicable = true;
                    }
                    i = i + 1;
                }
                assert(bs.subrange(i as int, bs.len() as int) =~= Seq::<Branch>::empty());
                MatchResult::new(false, one_applicable)
            },
        }
    }
}

/// A disjunction that matches answers a plain match.
proof fn lemma_any_matched_is_match(bs: Seq<Branch>, sel: spec_fn(Seq<char>) -> Option<Value>, kw: (Seq<Seq<char>>, bool))
    ensures
        eval_any(bs, sel, kw).matched ==> eval_any(bs, sel, kw) == (MatchResult {
            matched: true,
            applicable: true,
        }),
    decreases bs.len(),
{
    if bs.len() > 0 {
        lemma_any_matched_is_match(bs.drop_first(), sel, kw);
    }
}

impl NodeAnd {
    /// Create a new AND node
    pub fn new(left: Box<Branch>, right: Box<Branch>) -> (r: Self)
        ensures
            r.left == left,
            r.right == right,
    {
        NodeAnd { left, right }
    }
}

impl NodeOr {
    /// Create a new OR node
    pub fn new(left: Box<Branch>, right: Box<Branch>) -> (r: Self)
        ensures
            r.left == left,
            r.right == right,
    {
        NodeOr { left, right }
    }
}

impl NodeNot {
    /// Create a new NOT node
    pub fn new(branch: Box<Branch>) -> (r: Self)
        ensures
            r.branch == branch,
    {
        NodeNot { branch }
    }
}

/// `b` is what reducing a conjunction of `bs` builds: the branch itself for
/// one, an AND node for two, the conjunction unchanged for more.
pub open spec fn reduced_and(b: Branch, bs: Seq<Branch>) -> bool {
    if bs.len() == 1 {
        b == bs[0]
    } else if bs.len() == 2 {
        b == Branch::And(NodeAnd { left: Box::new(bs[0]), right: Box::new(bs[1]) })
    } else {
        b matches Branch::SimpleAnd(n) && n.branches@ == bs
    }
}

/// `b` is what reducing a disjunction of `bs` builds: the branch itself for
/// one, an OR node for two, the disjunction unchanged for more.
pub open spec fn reduced_or(b: Branch, bs: Seq<Branch>) -> bool {
    if bs.len() == 1 {
        b == bs[0]
    } else if bs.len() == 2 {
        b == Branch::Or(NodeOr { left: Box::new(bs[0]), right: Box::new(bs[1]) })
    } else {
        b matches Branch::SimpleOr(n) && n.branches@ == bs
    }
}

impl NodeSimpleAnd {
    /// Create a new AND node with multiple branches
    pub fn new(branches: Vec<Branch>) -> (r: Self)
        ensures
            r.branches@ == branches@,
    {
        NodeSimpleAnd { branches }
    }

    /// Reduce to more efficient representation if possible
    pub fn reduce(self) -> (r: Result<Branch, SigmaError>)
        ensures
            r is Err <==> self.branches@.len() == 0,
            r matches Err(e) ==> e matches SigmaError::InvalidMatcher(m)
                && m@ == "Cannot reduce empty AND node - this indicates a parser bug"@,
            r matches Ok(b) ==> reduced_and(b, self.branches@),
    {
        let ghost bs = self.branches@;
        let mut branches = self.branches;
        if branches.len() == 0 {
            return Err(SigmaError::InvalidMatcher(owned("Cannot reduce empty AND node - this indicates a parser bug")));
        }
        if branches.len() == 1 {
            let single = branches.pop().unwrap();
            return Ok(single);
        }
        if branches.len() == 2 {
            let right = branches.pop().unwrap();
            let left = branches.pop().unwrap();
            return Ok(Branch::And(NodeAnd::new(Box::new(left), Box::new(right))));
        }
        Ok(Branch::SimpleAnd(NodeSimpleAnd::new(branches)))
    }
}

impl NodeSimpleOr {
    /// Create a new OR node with multiple branches
    pub fn new(branches: Vec<Branch>) -> (r: Self)
        ensures
            r.branches@ == branches@,
    {
        NodeSimpleOr { branches }
    }

    /// Reduce to more efficient representation if possible
    pub fn reduce(self) -> (r: Result<Branch, SigmaError>)
        ensures
            r is Err <==> self.branches@.len() == 0,
            r matches Err(e) ==> e matches SigmaError::InvalidMatcher(m)
                && m@ == "Cannot reduce empty OR node - this indicates a parser bug"@,
            r matches Ok(b) ==> reduced_or(b, self.branches@),
    {
        let mut branches = self.branches;
        if branches.len() == 0 {
            return Err(SigmaError::InvalidMatcher(owned("Cannot reduce empty OR node - this indicates a parser bug")));
        }
        if branches.len() == 1 {
            let single = branches.pop().unwrap();
            return Ok(single);
        }
        if branches.len() == 2 {
            let right = branches.pop().unwrap();
            let left = branches.pop().unwrap();
            return Ok(Branch::Or(NodeOr::new(Box::new(left), Box::new(right))));
        }
        Ok(Branch::SimpleOr(NodeSimpleOr::new(branches)))
    }
}

/// Helper function to create a NOT node if negated
pub fn new_node_not_if_negated(branch: Branch, negated: bool) -> (r: Branch)
    ensures
        negated ==> r == Branch::Not(NodeNot { branch: Box::new(branch) }),
        !negated ==> r == branch,
{
    if negated {
        Branch::Not(NodeNot::new(Box::new(branch)))
    } else {
        branch
    }
}

/// Comparison operators for aggregation conditions
#[derive(Debug, Clone, Copy, PartialEq, Eq, Structural)]
pub enum ComparisonOp {
    /// Greater than comparison (>)
    GreaterThan,
    /// Greater than or equal comparison (>=)
    GreaterOrEqual,
    /// Less than comparison (<)
    LessThan,
    /// Less than or equal comparison (<=)
    LessOrEqual,
    /// Equal comparison (==)
    Equal,
    /// Not equal comparison (!=)
    NotEqual,
}

/// No branch answers a match that is not applicable: whenever a condition
/// tree matches an event, it applies to it.
pub proof fn lemma_matched_implies_applicable(b: Branch, sel: spec_fn(Seq<char>) -> Option<Value>, kw: (Seq<Seq<char>>, bool))
    ensures
        eval(b, sel, kw).matched ==> eval(b, sel, kw).applicable,
    decreases b,
{
    match b {
        Branch::Rule(_) => {},
        Branch::Ident(_) => {},
        Branch::And(n) => {
            lemma_matched_implies_applicable(*n.left, sel, kw);
            lemma_matched_implies_applicable(*n.right, sel, kw);
        },
        Branch::Or(n) => {
            lemma_matched_implies_applicable(*n.left, sel, kw);
            lemma_matched_implies_applicable(*n.right, sel, kw);
        },
        Branch::Not(n) => {
            lemma_matched_implies_applicable(*n.branch, sel, kw);
        },
        Branch::SimpleAnd(n) => {
            lemma_all_matched_implies_applicable(n.branches@, sel, kw);
        },
        Branch::SimpleOr(n) => {
            lemma_any_matched_is_match(n.branches@, sel, kw);
        },
    }
}

proof fn lemma_all_matched_implies_applicable(bs: Seq<Branch>, sel: spec_fn(Seq<char>) -> Option<Value>, kw: (Seq<Seq<char>>, bool))
    ensures
        eval_all(bs, sel, kw).matched ==> eval_all(bs, sel, kw).applicable,
    decreases bs,
{
    if bs.len() > 0 {
        lemma_matched_implies_applicable(bs[0], sel, kw);
        lemma_all_matched_implies_applicable(bs.drop_first(), sel, kw);
    }
}

proof fn lemma_all_matched_iff_each(bs: Seq<Branch>, sel: spec_fn(Seq<char>) -> Option<Value>, kw: (Seq<Seq<char>>, bool))
    ensures
        eval_all(bs, sel, kw).matched <==> forall|i: int| 0 <= i < bs.len() ==> #[trigger] eval(bs[i], sel, kw).matched,
    decreases bs.len(),
{
    if bs.len() > 0 {
        lemma_matched_implies_applicable(bs[0], sel, kw);
        lemma_all_matched_iff_each(bs.drop_first(), sel, kw);
        if forall|i: int| 0 <= i < bs.len() ==> #[trigger] eval(bs[i], sel, kw).matched {
            assert forall|i: int| 0 <= i < bs.drop_first().len() implies #[trigger] eval(bs.drop_first()[i], sel, kw).matched by {
                assert(bs.drop_first()[i] == bs[i + 1]);
            }
        }
        if eval_all(bs, sel, kw).matched {
            assert forall|i: int| 0 <= i < bs.len() implies #[trigger] eval(bs[i], sel, kw).matched by {
                if i > 0 {
                    assert(bs.drop_first()[i - 1] == bs[i]);
                }
            }
        }
    }
}

proof fn lemma_any_matched_iff_some(bs: Seq<Branch>, sel: spec_fn(Seq<char>) -> Option<Value>, kw: (Seq<Seq<char>>, bool))
    ensures
        eval_any(bs, sel, kw).matched <==> exists|i: int| 0 <= i < bs.len() && #[trigger] eval(bs[i], sel, kw).matched,
    decreases bs.len(),
{
    if bs.len() > 0 {
        lemma_any_matched_iff_some(bs.drop_first(), sel, kw);
        if eval(bs[0], sel, kw).matched {
            assert(0 <= 0 < bs.len() && eval(bs[0], sel, kw).matched);
        }
        if exists|i: int| 0 <= i < bs.len() && #[trigger] eval(bs[i], sel, kw).matched {
            let i = choose|i: int| 0 <= i < bs.len() && #[trigger] eval(bs[i], sel, kw).matched;
            if i > 0 {
                assert(bs.drop_first()[i - 1] == bs[i]);
            }
        }
        if eval_any(bs.drop_first(), sel, kw).matched {
            let j = choose|j: int| 0 <= j < bs.drop_first().len() && #[trigger] eval(bs.drop_first()[j], sel, kw).matched;
            assert(bs.drop_first()[j] == bs[j + 1]);
        }
    }
}

/// The condition operators mean what their names say, for every event: an
/// AND or an all-of matches exactly when every part matches, an OR or an
/// any-of exactly when some part matches, and a NOT exactly when its part
/// applies and does not match (it applies when its part does).
pub proof fn lemma_condition_operators(b: Branch, sel: spec_fn(Seq<char>) -> Option<Value>, kw: (Seq<Seq<char>>, bool))
    ensures
        b matches Branch::And(n) ==> (eval(b, sel, kw).matched <==> eval(*n.left, sel, kw).matched && eval(
            *n.right,
            sel,
            kw,
        ).matched),
        b matches Branch::Or(n) ==> (eval(b, sel, kw).matched <==> eval(*n.left, sel, kw).matched || eval(
            *n.right,
            sel,
            kw,
        ).matched),
        b matches Branch::Not(n) ==> (eval(b, sel, kw).matched <==> eval(*n.branch, sel, kw).applicable && !eval(
            *n.branch,
            sel,
            kw,
        ).matched) && eval(b, sel, kw).applicable == eval(*n.branch, sel, kw).applicable,
        b matches Branch::SimpleAnd(n) ==> (eval(b, sel, kw).matched <==> forall|i: int|
            0 <= i < n.branches@.len() ==> #[trigger] eval(n.branches@[i], sel, kw).matched),
        b matches Branch::SimpleOr(n) ==> (eval(b, sel, kw).matched <==> exists|i: int|
            0 <= i < n.branches@.len() && #[trigger] eval(n.branches@[i], sel, kw).matched),
{
    match b {
        Branch::SimpleAnd(n) => lemma_all_matched_iff_each(n.branches@, sel, kw),
        Branch::SimpleOr(n) => lemma_any_matched_iff_some(n.branches@, sel, kw),
        Branch::Not(n) => lemma_matched_implies_applicable(*n.branch, sel, kw),
        _ => {},
    }
}

/// Negating a branch twice answers what the branch answers.
pub proof fn lemma_double_negation(b: Branch, sel: spec_fn(Seq<char>) -> Option<Value>, kw: (Seq<Seq<char>>, bool))
    ensures
        eval(Branch::Not(NodeNot { branch: Box::new(Branch::Not(NodeNot { branch: Box::new(b) })) }), sel, kw)
            == eval(b, sel, kw),
{
    let inner = Branch::Not(NodeNot { branch: Box::new(b) });
    assert(eval(inner, sel, kw) == negate(eval(b, sel, kw)));
    assert(eval(Branch::Not(NodeNot { branch: Box::new(inner) }), sel, kw) == negate(eval(inner, sel, kw)));
}

/// Reducing a non-empty conjunction keeps what it answers for every event.
pub proof fn lemma_reduce_and_preserves(b: Branch, bs: Seq<Branch>, sel: spec_fn(Seq<char>) -> Option<Value>, kw: (Seq<Seq<char>>, bool))
    requires
        bs.len() > 0,
        reduced_and(b, bs),
    ensures
        eval(b, sel, kw) == eval_all(bs, sel, kw),
{
    let r0 = eval(bs[0], sel, kw);
    lemma_matched_implies_applicable(bs[0], sel, kw);
    if bs.len() == 1 {
        assert(bs.drop_first() =~= Seq::<Branch>::empty());
        assert(eval_all(bs.drop_first(), sel, kw) == MatchResult { matched: true, applicable: true });
    } else if bs.len() == 2 {
        let r1 = eval(bs[1], sel, kw);
        lemma_matched_implies_applicable(bs[1], sel, kw);
        let tail = bs.drop_first();
        assert(tail =~= seq![bs[1]]);
        assert(tail[0] == bs[1]);
        assert(tail.drop_first() =~= Seq::<Branch>::empty());
        assert(eval_all(tail.drop_first(), sel, kw) == MatchResult { matched: true, applicable: true });
        assert(eval_all(tail, sel, kw) == r1);
        let n = NodeAnd { left: Box::new(bs[0]), right: Box::new(bs[1]) };
        assert(*n.left == bs[0]);
        assert(*n.right == bs[1]);
        assert(eval(Branch::And(n), sel, kw) == eval_all(bs, sel, kw));
    }
}

/// Reducing a non-empty disjunction keeps what it answers for every event.
pub proof fn lemma_reduce_or_preserves(b: Branch, bs: Seq<Branch>, sel: spec_fn(Seq<char>) -> Option<Value>, kw: (Seq<Seq<char>>, bool))
    requires
        bs.len() > 0,
        reduced_or(b, bs),
    ensures
        eval(b, sel, kw) == eval_any(bs, sel, kw),
{
    let r0 = eval(bs[0], sel, kw);
    lemma_matched_implies_applicable(bs[0], sel, kw);
    if bs.len() == 1 {
        assert(bs.drop_first() =~= Seq::<Branch>::empty());
        assert(eval_any(bs.drop_first(), sel, kw) == MatchResult { matched: false, applicable: false });
    } else if bs.len() == 2 {
        let r1 = eval(bs[1], sel, kw);
        lemma_matched_implies_applicable(bs[1], sel, kw);
        let tail = bs.drop_first();
        assert(tail =~= seq![bs[1]]);
        assert(tail[0] == bs[1]);
        assert(tail.drop_first() =~= Seq::<Branch>::empty());
        assert(eval_any(tail.drop_first(), sel, kw) == MatchResult { matched: false, applicable: false });
        assert(eval_any(tail, sel, kw) == r1);
        let n = NodeOr { left: Box::new(bs[0]), right: Box::new(bs[1]) };
        assert(*n.left == bs[0]);
        assert(*n.right == bs[1]);
        assert(eval(Branch::Or(n), sel, kw) == eval_any(bs, sel, kw));
    }
}

} // verus!
