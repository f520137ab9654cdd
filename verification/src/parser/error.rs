//! Errors of the condition parser.
use vstd::prelude::*;

use crate::lexer::error::LexError;
use crate::lexer::items_view;
use crate::lexer::token::{Item, Token};
use crate::fmt::{debug_str, str_debug_text};
use crate::text::{digits_of, owned, str_eq, string_views, usize_to_decimal};
use vstd::string::StringExecFns;

verus! {

/// Parse error types for the Sigma parser
#[derive(Debug)]
pub enum ParseError {
    /// Token type is not supported in this context
    UnsupportedToken {
        /// Description of the unsupported token
        msg: String,
    },
    /// Invalid sequence of tokens found
    InvalidTokenSequence {
        /// Previous token in the sequence
        prev: Item,
        /// Next token that caused the invalid sequence
        next: Item,
        /// Position where error occurred
        position: usize,
        /// Total tokens collected so far
        token_count: usize,
        /// Last few tokens for context (up to 5)
        context_tokens: Vec<Item>,
    },
    /// Referenced condition item is missing
    MissingConditionItem {
        /// Key of the missing condition item
        key: String,
    },
    /// Token sequence is incomplete
    IncompleteTokenSequence {
        /// Expression being parsed
        expression: String,
        /// Items collected so far
        items: Vec<Item>,
        /// Last token received
        last: Item,
    },
    /// Detection field is missing from rule
    MissingDetection,
    /// Condition is missing from detection section
    MissingCondition,
    /// Lexer has not been initialized
    LexerNotInitialized,
    /// General parser error
    ParserError(String),
    /// Wildcard pattern compilation failed
    WildcardCompilationError(String),
    /// Invalid wildcard identifier format
    InvalidWildcardIdent,
    /// Parentheses are not properly matched
    UnmatchedParenthesis,
    /// No matching wildcard pattern found
    NoMatchingWildcard,
    /// Token collection limit exceeded
    TokenLimitExceeded {
        /// Current number of tokens collected
        current: usize,
        /// Maximum allowed tokens
        limit: usize,
    },
    /// Keyword construct is invalid
    InvalidKeywordConstruct,
    /// Selection construct is invalid
    InvalidSelectionConstruct,
    /// Token was not expected in this context
    UnexpectedToken {
        /// The unexpected token
        token: Token,
    },
    /// Glob pattern is invalid
    InvalidGlobPattern {
        /// The invalid pattern
        pattern: String,
        /// Error description
        error: String,
    },
    /// Value type is not supported
    UnsupportedValueType {
        /// The unsupported value type
        value_type: String,
    },
    /// Recursion depth limit exceeded during parsing
    RecursionLimitExceeded {
        /// Current recursion depth
        current: usize,
        /// Maximum allowed depth
        limit: usize,
    },
    /// Invalid branch structure encountered
    InvalidBranchStructure {
        /// Description of the branch structure error
        message: String,
    },
    /// Field pattern creation failed
    FieldPatternCreationFailed {
        /// Field name
        field: String,
        /// Pattern value attempted
        value: String,
        /// Underlying error
        error: String,
    },
    /// Numeric pattern creation failed
    NumericPatternCreationFailed {
        /// Field name
        field: String,
        /// Numeric value attempted
        value: String,
        /// Underlying error
        error: String,
    },
    /// String pattern creation failed
    StringPatternCreationFailed {
        /// Field name
        field: String,
        /// String value attempted
        value: String,
        /// Underlying error
        error: String,
    },
    /// Detection parsing failed
    DetectionParsingFailed {
        /// Rule ID being parsed
        rule_id: String,
        /// Underlying error
        error: String,
    },
    /// No valid field patterns found
    NoValidFieldPatterns {
        /// Rule ID being parsed
        rule_id: String,
        /// Field name
        field: String,
        /// Collection of errors encountered
        errors: Vec<String>,
    },
    /// Memory limit exceeded during token collection
    MemoryLimitExceeded {
        /// Current memory usage in bytes
        current_bytes: usize,
        /// Memory limit in bytes
        limit_bytes: usize,
    },
    /// Task join error
    TaskJoinError(String),
    /// Lexer error propagation
    LexerError(LexError),
}

/// Two lexer errors are the same error.
pub open spec fn lex_error_eq(a: LexError, b: LexError) -> bool {
    match (a, b) {
        (LexError::ChannelClosed(x), LexError::ChannelClosed(y)) => x@ == y@,
        (LexError::UnsupportedToken(x), LexError::UnsupportedToken(y)) => x@ == y@,
        (LexError::InvalidSequence { prev: p1, next: n1 }, LexError::InvalidSequence { prev: p2, next: n2 }) => p1 == p2 && n1 == n2,
        (LexError::UnexpectedEof, LexError::UnexpectedEof) => true,
        (LexError::InvalidUtf8(x), LexError::InvalidUtf8(y)) => x == y,
        (LexError::ParseError(x), LexError::ParseError(y)) => x@ == y@,
        (LexError::Timeout, LexError::Timeout) => true,
        (LexError::PositionOverflow, LexError::PositionOverflow) => true,
        (LexError::ChannelFull, LexError::ChannelFull) => true,
        _ => false,
    }
}

fn lex_errors_same(a: &LexError, b: &LexError) -> (r: bool)
    ensures
        r == lex_error_eq(*a, *b),
{
    match (a, b) {
        (LexError::ChannelClosed(x), LexError::ChannelClosed(y)) => str_eq(x.as_str(), y.as_str()),
        (LexError::UnsupportedToken(x), LexError::UnsupportedToken(y)) => str_eq(x.as_str(), y.as_str()),
        (LexError::InvalidSequence { prev: p1, next: n1 }, LexError::InvalidSequence { prev: p2, next: n2 }) => *p1 == *p2 && *n1 == *n2,
        (LexError::UnexpectedEof, LexError::UnexpectedEof) => true,
        (LexError::InvalidUtf8(x), LexError::InvalidUtf8(y)) => *x == *y,
        (LexError::ParseError(x), LexError::ParseError(y)) => str_eq(x.as_str(), y.as_str()),
        (LexError::Timeout, LexError::Timeout) => true,
        (LexError::PositionOverflow, LexError::PositionOverflow) => true,
        (LexError::ChannelFull, LexError::ChannelFull) => true,
        _ => false,
    }
}

fn items_same(a: &Item, b: &Item) -> (r: bool)
    ensures
        r == (a@ == b@),
{
    a.token == b.token && str_eq(a.value.as_str(), b.value.as_str())
}

fn item_lists_same(a: &Vec<Item>, b: &Vec<Item>) -> (r: bool)
    ensures
        r == (items_view(a@) == items_view(b@)),
{
    if a.len() != b.len() {
        assert(items_view(a@).len() != items_view(b@).len());
        return false;
    }
    let mut i: usize = 0;
    while i < a.len()
        invariant
            i <= a@.len(),
            a@.len() == b@.len(),
            forall|j: int| 0 <= j < i ==> a@[j]@ == b@[j]@,
        decreases a.len() - i,
    {
        if !items_same(&a[i], &b[i]) {
            assert(items_view(a@)[i as int] != items_view(b@)[i as int]);
            return false;
        }
        i = i + 1;
    }
    assert(items_view(a@) =~= items_view(b@));
    true
}

fn string_lists_same(a: &Vec<String>, b: &Vec<String>) -> (r: bool)
    ensures
        r == (string_views(a@) == string_views(b@)),
{
    if a.len() != b.len() {
        assert(string_views(a@).len() != string_views(b@).len());
        return false;
    }
    let mut i: usize = 0;
    while i < a.len()
        invariant
            i <= a@.len(),
            a@.len() == b@.len(),
            forall|j: int| 0 <= j < i ==> a@[j]@ == b@[j]@,
        decreases a.len() - i,
    {
        if !str_eq(a[i].as_str(), b[i].as_str()) {
            assert(string_views(a@)[i as int] != string_views(b@)[i as int]);
            return false;
        }
        i = i + 1;
    }
    assert(string_views(a@) =~= string_views(b@));
    true
}

/// Two parse errors are the same error: the same variant with the same
/// fields, strings and items compared by their contents.
pub open spec fn parse_error_eq(a: ParseError, b: ParseError) -> bool {
    match (a, b) {
        (ParseError::UnsupportedToken { msg: lmsg }, ParseError::UnsupportedToken { msg: rmsg }) => lmsg@ == rmsg@,
        (ParseError::InvalidTokenSequence { prev: lprev, next: lnext, position: lposition, token_count: ltoken_count, context_tokens: lcontext_tokens }, ParseError::InvalidTokenSequence { prev: rprev, next: rnext, position: rposition, token_count: rtoken_count, context_tokens: rcontext_tokens }) => lprev@ == rprev@ && lnext@ == rnext@ && lposition == rposition && ltoken_count == rtoken_count && items_view(lcontext_tokens@) == items_view(rcontext_tokens@),
        (ParseError::MissingConditionItem { key: lkey }, ParseError::MissingConditionItem { key: rkey }) => lkey@ == rkey@,
        (ParseError::IncompleteTokenSequence { expression: lexpression, items: litems, last: llast }, ParseError::IncompleteTokenSequence { expression: rexpression, items: ritems, last: rlast }) => lexpression@ == rexpression@ && items_view(litems@) == items_view(ritems@) && llast@ == rlast@,
        (ParseError::MissingDetection, ParseError::MissingDetection) => true,
        (ParseError::MissingCondition, ParseError::MissingCondition) => true,
        (ParseError::LexerNotInitialized, ParseError::LexerNotInitialized) => true,
        (ParseError::ParserError(l0), ParseError::ParserError(r0)) => l0@ == r0@,
        (ParseError::WildcardCompilationError(l0), ParseError::WildcardCompilationError(r0)) => l0@ == r0@,
        (ParseError::InvalidWildcardIdent, ParseError::InvalidWildcardIdent) => true,
        (ParseError::UnmatchedParenthesis, ParseError::UnmatchedParenthesis) => true,
        (ParseError::NoMatchingWildcard, ParseError::NoMatchingWildcard) => true,
        (ParseError::TokenLimitExceeded { current: lcurrent, limit: llimit }, ParseError::TokenLimitExceeded { current: rcurrent, limit: rlimit }) => lcurrent == rcurrent && llimit == rlimit,
        (ParseError::InvalidKeywordConstruct, ParseError::InvalidKeywordConstruct) => true,
        (ParseError::InvalidSelectionConstruct, ParseError::InvalidSelectionConstruct) => true,
        (ParseError::UnexpectedToken { token: ltoken }, ParseError::UnexpectedToken { token: rtoken }) => ltoken == rtoken,
        (ParseError::InvalidGlobPattern { pattern: lpattern, error: lerror }, ParseError::InvalidGlobPattern { pattern: rpattern, error: rerror }) => lpattern@ == rpattern@ && lerror@ == rerror@,
        (ParseError::UnsupportedValueType { value_type: lvalue_type }, ParseError::UnsupportedValueType { value_type: rvalue_type }) => lvalue_type@ == rvalue_type@,
        (ParseError::RecursionLimitExceeded { current: lcurrent, limit: llimit }, ParseError::RecursionLimitExceeded { current: rcurrent, limit: rlimit }) => lcurrent == rcurrent && llimit == rlimit,
        (ParseError::InvalidBranchStructure { message: lmessage }, ParseError::InvalidBranchStructure { message: rmessage }) => lmessage@ == rmessage@,
        (ParseError::FieldPatternCreationFailed { field: lfield, value: lvalue, error: lerror }, ParseError::FieldPatternCreationFailed { field: rfield, value: rvalue, error: rerror }) => lfield@ == rfield@ && lvalue@ == rvalue@ && lerror@ == rerror@,
        (ParseError::NumericPatternCreationFailed { field: lfield, value: lvalue, error: lerror }, ParseError::NumericPatternCreationFailed { field: rfield, value: rvalue, error: rerror }) => lfield@ == rfield@ && lvalue@ == rvalue@ && lerror@ == rerror@,
        (ParseError::StringPatternCreationFailed { field: lfield, value: lvalue, error: lerror }, ParseError::StringPatternCreationFailed { field: rfield, value: rvalue, error: rerror }) => lfield@ == rfield@ && lvalue@ == rvalue@ && lerror@ == rerror@,
        (ParseError::DetectionParsingFailed { rule_id: lrule_id, error: lerror }, ParseError::DetectionParsingFailed { rule_id: rrule_id, error: rerror }) => lrule_id@ == rrule_id@ && lerror@ == rerror@,
        (ParseError::NoValidFieldPatterns { rule_id: lrule_id, field: lfield, errors: lerrors }, ParseError::NoValidFieldPatterns { rule_id: rrule_id, field: rfield, errors: rerrors }) => lrule_id@ == rrule_id@ && lfield@ == rfield@ && string_views(lerrors@) == string_views(rerrors@),
        (ParseError::MemoryLimitExceeded { current_bytes: lcurrent_bytes, limit_bytes: llimit_bytes }, ParseError::MemoryLimitExceeded { current_bytes: rcurrent_bytes, limit_bytes: rlimit_bytes }) => lcurrent_bytes == rcurrent_bytes && llimit_bytes == rlimit_bytes,
        (ParseError::TaskJoinError(l0), ParseError::TaskJoinError(r0)) => l0@ == r0@,
        (ParseError::LexerError(l0), ParseError::LexerError(r0)) => lex_error_eq(l0, r0),
        _ => false,
    }
}

impl ParseError {
    /// Whether two errors are the same error.
    pub fn same_as(&self, other: &ParseError) -> (r: bool)
        ensures
            r == parse_error_eq(*self, *other),
    {
        match (self, other) {
            (ParseError::UnsupportedToken { msg: lmsg }, ParseError::UnsupportedToken { msg: rmsg }) => str_eq(lmsg.as_str(), rmsg.as_str()),
            (ParseError::InvalidTokenSequence { prev: lprev, next: lnext, position: lposition, token_count: ltoken_count, context_tokens: lcontext_tokens }, ParseError::InvalidTokenSequence { prev: rprev, next: rnext, position: rposition, token_count: rtoken_count, context_tokens: rcontext_tokens }) => items_same(lprev, rprev) && items_same(lnext, rnext) && *lposition == *rposition && *ltoken_count == *rtoken_count && item_lists_same(lcontext_tokens, rcontext_tokens),
            (ParseError::MissingConditionItem { key: lkey }, ParseError::MissingConditionItem { key: rkey }) => str_eq(lkey.as_str(), rkey.as_str()),
            (ParseError::IncompleteTokenSequence { expression: lexpression, items: litems, last: llast }, ParseError::IncompleteTokenSequence { expression: rexpression, items: ritems, last: rlast }) => str_eq(lexpression.as_str(), rexpression.as_str()) && item_lists_same(litems, ritems) && items_same(llast, rlast),
            (ParseError::MissingDetection, ParseError::MissingDetection) => true,
            (ParseError::MissingCondition, ParseError::MissingCondition) => true,
            (ParseError::LexerNotInitialized, ParseError::LexerNotInitialized) => true,
            (ParseError::ParserError(l0), ParseError::ParserError(r0)) => str_eq(l0.as_str(), r0.as_str()),
            (ParseError::WildcardCompilationError(l0), ParseError::WildcardCompilationError(r0)) => str_eq(l0.as_str(), r0.as_str()),
            (ParseError::InvalidWildcardIdent, ParseError::InvalidWildcardIdent) => true,
            (ParseError::UnmatchedParenthesis, ParseError::UnmatchedParenthesis) => true,
            (ParseError::NoMatchingWildcard, ParseError::NoMatchingWildcard) => true,
            (ParseError::TokenLimitExceeded { current: lcurrent, limit: llimit }, ParseError::TokenLimitExceeded { current: rcurrent, limit: rlimit }) => *lcurrent == *rcurrent && *llimit == *rlimit,
            (ParseError::InvalidKeywordConstruct, ParseError::InvalidKeywordConstruct) => true,
            (ParseError::InvalidSelectionConstruct, ParseError::InvalidSelectionConstruct) => true,
            (ParseError::UnexpectedToken { token: ltoken }, ParseError::UnexpectedToken { token: rtoken }) => *ltoken == *rtoken,
            (ParseError::InvalidGlobPattern { pattern: lpattern, error: lerror }, ParseError::InvalidGlobPattern { pattern: rpattern, error: rerror }) => str_eq(lpattern.as_str(), rpattern.as_str()) && str_eq(lerror.as_str(), rerror.as_str()),
            (ParseError::UnsupportedValueType { value_type: lvalue_type }, ParseError::UnsupportedValueType { value_type: rvalue_type }) => str_eq(lvalue_type.as_str(), rvalue_type.as_str()),
            (ParseError::RecursionLimitExceeded { current: lcurrent, limit: llimit }, ParseError::RecursionLimitExceeded { current: rcurrent, limit: rlimit }) => *lcurrent == *rcurrent && *llimit == *rlimit,
            (ParseError::InvalidBranchStructure { message: lmessage }, ParseError::InvalidBranchStructure { message: rmessage }) => str_eq(lmessage.as_str(), rmessage.as_str()),
            (ParseError::FieldPatternCreationFailed { field: lfield, value: lvalue, error: lerror }, ParseError::FieldPatternCreationFailed { field: rfield, value: rvalue, error: rerror }) => str_eq(lfield.as_str(), rfield.as_str()) && str_eq(lvalue.as_str(), rvalue.as_str()) && str_eq(lerror.as_str(), rerror.as_str()),
            (ParseError::NumericPatternCreationFailed { field: lfield, value: lvalue, error: lerror }, ParseError::NumericPatternCreationFailed { field: rfield, value: rvalue, error: rerror }) => str_eq(lfield.as_str(), rfield.as_str()) && str_eq(lvalue.as_str(), rvalue.as_str()) && str_eq(lerror.as_str(), rerror.as_str()),
            (ParseError::StringPatternCreationFailed { field: lfield, value: lvalue, error: lerror }, ParseError::StringPatternCreationFailed { field: rfield, value: rvalue, error: rerror }) => str_eq(lfield.as_str(), rfield.as_str()) && str_eq(lvalue.as_str(), rvalue.as_str()) && str_eq(lerror.as_str(), rerror.as_str()),
            (ParseError::DetectionParsingFailed { rule_id: lrule_id, error: lerror }, ParseError::DetectionParsingFailed { rule_id: rrule_id, error: rerror }) => str_eq(lrule_id.as_str(), rrule_id.as_str()) && str_eq(lerror.as_str(), rerror.as_str()),
            (ParseError::NoValidFieldPatterns { rule_id: lrule_id, field: lfield, errors: lerrors }, ParseError::NoValidFieldPatterns { rule_id: rrule_id, field: rfield, errors: rerrors }) => str_eq(lrule_id.as_str(), rrule_id.as_str()) && str_eq(lfield.as_str(), rfield.as_str()) && string_lists_same(lerrors, rerrors),
            (ParseError::MemoryLimitExceeded { current_bytes: lcurrent_bytes, limit_bytes: llimit_bytes }, ParseError::MemoryLimitExceeded { current_bytes: rcurrent_bytes, limit_bytes: rlimit_bytes }) => *lcurrent_bytes == *rcurrent_bytes && *llimit_bytes == *rlimit_bytes,
            (ParseError::TaskJoinError(l0), ParseError::TaskJoinError(r0)) => str_eq(l0.as_str(), r0.as_str()),
            (ParseError::LexerError(l0), ParseError::LexerError(r0)) => lex_errors_same(l0, r0),
            _ => false,
        }
    }

    /// Create an unsupported token error
    pub fn unsupported_token(msg: String) -> (r: Self)
        ensures
            r == (ParseError::UnsupportedToken { msg }),
    {
        ParseError::UnsupportedToken { msg }
    }

    /// Create an invalid sequence error: its position and token count are the
    /// number of tokens collected, its context the last five of them.
    pub fn invalid_sequence(prev: Item, next: Item, collected: &[Item]) -> (r: Self)
        ensures
            r matches ParseError::InvalidTokenSequence { prev: p, next: n, position, token_count, context_tokens }
                && p == prev && n == next && position == collected@.len() && token_count == collected@.len()
                && items_view(context_tokens@) == items_view(collected@.subrange(
                    if collected@.len() >= 5 { collected@.len() - 5 } else { 0 },
                    collected@.len() as int,
                )),
    {
        let token_count = collected.len();
        let context_start = if token_count >= 5 {
            token_count - 5
        } else {
            0
        };
        let mut context: Vec<Item> = Vec::new();
        let mut i = context_start;
        while i < token_count
            invariant
                context_start <= i <= token_count,
                token_count == collected@.len(),
                items_view(context@) == items_view(collected@.subrange(context_start as int, i as int)),
            decreases token_count - i,
        {
            let ghost before = context@;
            context.push(collected[i].duplicate());
            assert(items_view(context@) =~= items_view(before).push(collected@[i as int]@));
            assert(collected@.subrange(context_start as int, i + 1) =~= collected@.subrange(
                context_start as int,
                i as int,
            ).push(collected@[i as int]));
            i = i + 1;
            assert(items_view(context@) =~= items_view(collected@.subrange(context_start as int, i as int)));
        }
        ParseError::InvalidTokenSequence {
            prev,
            next,
            position: token_count,
            token_count,
            context_tokens: context,
        }
    }

    /// Create a missing condition item error
    pub fn missing_condition_item(key: String) -> (r: Self)
        ensures
            r == (ParseError::MissingConditionItem { key }),
    {
        ParseError::MissingConditionItem { key }
    }

    /// Create an incomplete sequence error
    pub fn incomplete_sequence(expression: String, items: Vec<Item>, last: Item) -> (r: Self)
        ensures
            r == (ParseError::IncompleteTokenSequence { expression, items, last }),
    {
        ParseError::IncompleteTokenSequence { expression, items, last }
    }

    /// Create a general parser error
    pub fn parser_error(msg: String) -> (r: Self)
        ensures
            r == ParseError::ParserError(msg),
    {
        ParseError::ParserError(msg)
    }

    /// Create a field pattern creation error
    pub fn field_pattern_creation_failed(field: String, value: String, error: String) -> (r: Self)
        ensures
            r == (ParseError::FieldPatternCreationFailed { field, value, error }),
    {
        ParseError::FieldPatternCreationFailed { field, value, error }
    }

    /// Create a numeric pattern creation error
    pub fn numeric_pattern_creation_failed(field: String, value: String, error: String) -> (r: Self)
        ensures
            r == (ParseError::NumericPatternCreationFailed { field, value, error }),
    {
        ParseError::NumericPatternCreationFailed { field, value, error }
    }

    /// Create a string pattern creation error
    pub fn string_pattern_creation_failed(field: String, value: String, error: String) -> (r: Self)
        ensures
            r == (ParseError::StringPatternCreationFailed { field, value, error }),
    {
        ParseError::StringPatternCreationFailed { field, value, error }
    }

    /// Create a detection parsing error
    pub fn detection_parsing_failed(rule_id: String, error: String) -> (r: Self)
        ensures
            r == (ParseError::DetectionParsingFailed { rule_id, error }),
    {
        ParseError::DetectionParsingFailed { rule_id, error }
    }

    /// Create a no valid field patterns error
    pub fn no_valid_field_patterns(rule_id: String, field: String, errors: Vec<String>) -> (r: Self)
        ensures
            r == (ParseError::NoValidFieldPatterns { rule_id, field, errors }),
    {
        ParseError::NoValidFieldPatterns { rule_id, field, errors }
    }
}

/// The name of a token kind, as its `Debug` rendering writes it.
pub open spec fn token_name(t: Token) -> Seq<char> {
    match t {
        Token::Error => "Error"@,
        Token::Unsupported => "Unsupported"@,
        Token::Nil => "Nil"@,
        Token::Identifier => "Identifier"@,
        Token::IdentifierWithWildcard => "IdentifierWithWildcard"@,
        Token::IdentifierAll => "IdentifierAll"@,
        Token::LitEof => "LitEof"@,
        Token::SepLpar => "SepLpar"@,
        Token::SepRpar => "SepRpar"@,
        Token::SepPipe => "SepPipe"@,
        Token::OpEq => "OpEq"@,
        Token::OpGt => "OpGt"@,
        Token::OpGte => "OpGte"@,
        Token::OpLt => "OpLt"@,
        Token::OpLte => "OpLte"@,
        Token::KeywordAnd => "KeywordAnd"@,
        Token::KeywordOr => "KeywordOr"@,
        Token::KeywordNot => "KeywordNot"@,
        Token::KeywordAgg => "KeywordAgg"@,
        Token::StmtOneOf => "StmtOneOf"@,
        Token::StmtAllOf => "StmtAllOf"@,
        Token::Begin => "Begin"@,
    }
}

/// The name of a token kind, as its `Debug` rendering writes it.
pub fn token_debug(t: Token) -> (r: String)
    ensures
        r@ == token_name(t),
{
    owned(match t {
        Token::Error => "Error",
        Token::Unsupported => "Unsupported",
        Token::Nil => "Nil",
        Token::Identifier => "Identifier",
        Token::IdentifierWithWildcard => "IdentifierWithWildcard",
        Token::IdentifierAll => "IdentifierAll",
        Token::LitEof => "LitEof",
        Token::SepLpar => "SepLpar",
        Token::SepRpar => "SepRpar",
        Token::SepPipe => "SepPipe",
        Token::OpEq => "OpEq",
        Token::OpGt => "OpGt",
        Token::OpGte => "OpGte",
        Token::OpLt => "OpLt",
        Token::OpLte => "OpLte",
        Token::KeywordAnd => "KeywordAnd",
        Token::KeywordOr => "KeywordOr",
        Token::KeywordNot => "KeywordNot",
        Token::KeywordAgg => "KeywordAgg",
        Token::StmtOneOf => "StmtOneOf",
        Token::StmtAllOf => "StmtAllOf",
        Token::Begin => "Begin",
    })
}

/// An item as its `Debug` rendering writes it: its token kind and its
/// value quoted.
pub open spec fn item_debug_text(token: Token, value: Seq<char>) -> Seq<char> {
    "Item { token: "@ + token_name(token) + ", value: "@ + str_debug_text(value) + " }"@
}

/// The quoted strings separated by `, `.
pub open spec fn quoted_list(v: Seq<Seq<char>>) -> Seq<char>
    decreases v.len(),
{
    if v.len() == 0 {
        Seq::empty()
    } else if v.len() == 1 {
        str_debug_text(v[0])
    } else {
        quoted_list(v.drop_last()) + ", "@ + str_debug_text(v.last())
    }
}

fn item_debug(i: &Item) -> (r: String)
    ensures
        r@ == item_debug_text(i.token, i.value@),
{
    owned("Item { token: ").concat(token_debug(i.token).as_str()).concat(", value: ").concat(
        debug_str(i.value.as_str()).as_str(),
    ).concat(" }")
}

pub(crate) fn strings_debug(v: &Vec<String>) -> (r: String)
    ensures
        r@ == "["@ + quoted_list(string_views(v@)) + "]"@,
{
    let mut out = owned("[");
    let mut body = String::new();
    let mut i: usize = 0;
    while i < v.len()
        invariant
            i <= v@.len(),
            body@ == quoted_list(string_views(v@.take(i as int))),
        decreases v.len() - i,
    {
        proof {
            assert(string_views(v@.take(i as int + 1)).drop_last() =~= string_views(v@.take(i as int)));
        }
        if i > 0 {
            body = body.concat(", ");
        }
        body = body.concat(debug_str(v[i].as_str()).as_str());
        i = i + 1;
    }
    assert(v@.take(v@.len() as int) =~= v@);
    out = out.concat(body.as_str());
    out.concat("]")
}

/// The message of a lexing error.
pub open spec fn lex_error_text(e: LexError) -> Seq<char> {
    match e {
        LexError::ChannelClosed(m) => "Channel closed unexpectedly: "@ + m@,
        LexError::UnsupportedToken(m) => "Unsupported token: "@ + m@,
        LexError::InvalidSequence { prev, next } => "Invalid token sequence: "@
            + token_name(prev) + " -> "@ + token_name(next),
        LexError::UnexpectedEof => "Unexpected end of input"@,
        LexError::InvalidUtf8(p) => "Invalid UTF-8 sequence at position "@ + digits_of(p as nat),
        LexError::ParseError(m) => "Parse error: "@ + m@,
        LexError::Timeout => "Lexing timeout exceeded"@,
        LexError::PositionOverflow => "Position overflow: position would exceed maximum value"@,
        LexError::ChannelFull => "Channel buffer full: receiver not keeping up with token production"@,
    }
}

impl LexError {
    /// The message of the error.
    pub fn message(&self) -> (r: String)
        ensures
            r@ == lex_error_text(*self),
    {
        match self {
            LexError::ChannelClosed(m) => owned("Channel closed unexpectedly: ").concat(m.as_str()),
            LexError::UnsupportedToken(m) => owned("Unsupported token: ").concat(m.as_str()),
            LexError::InvalidSequence { prev, next } => owned("Invalid token sequence: ").concat(
                token_debug(*prev).as_str(),
            ).concat(" -> ").concat(token_debug(*next).as_str()),
            LexError::UnexpectedEof => owned("Unexpected end of input"),
            LexError::InvalidUtf8(p) => owned("Invalid UTF-8 sequence at position ").concat(
                usize_to_decimal(*p).as_str(),
            ),
            LexError::ParseError(m) => owned("Parse error: ").concat(m.as_str()),
            LexError::Timeout => owned("Lexing timeout exceeded"),
            LexError::PositionOverflow => owned("Position overflow: position would exceed maximum value"),
            LexError::ChannelFull => owned("Channel buffer full: receiver not keeping up with token production"),
        }
    }
}

impl ParseError {
    /// The message of the error.
    pub fn message(&self) -> (r: String)
        ensures
            match *self {
                ParseError::UnsupportedToken { msg } => r@ == "unsupported token: "@ + msg@,
                ParseError::MissingConditionItem { key } => r@ == "missing condition item: "@ + key@,
                ParseError::MissingDetection => r@ == "missing detection field"@,
                ParseError::MissingCondition => r@ == "missing condition in detection"@,
                ParseError::ParserError(m) => r@ == "parser error: "@ + m@,
                ParseError::WildcardCompilationError(m) => r@ == "wildcard compilation failed: "@ + m@,
                ParseError::TokenLimitExceeded { current, limit } => r@ == "token collection limit exceeded: "@
                    + digits_of(current as nat) + " tokens, limit: "@ + digits_of(limit as nat),
                ParseError::RecursionLimitExceeded { current, limit } => r@
                    == "recursion depth limit exceeded: "@ + digits_of(current as nat) + " levels, limit: "@
                    + digits_of(limit as nat),
                ParseError::FieldPatternCreationFailed { field, error, .. } => r@
                    == "failed to create pattern for field '"@ + field@ + "': "@ + error@,
                ParseError::StringPatternCreationFailed { field, value, error } => r@
                    == "failed to create string pattern for value '"@ + value@ + "' in field '"@ + field@
                    + "': "@ + error@,
                ParseError::DetectionParsingFailed { rule_id, error } => r@
                    == "failed to parse detection section in rule '"@ + rule_id@ + "': "@ + error@,
                ParseError::MemoryLimitExceeded { current_bytes, limit_bytes } => r@ == "memory limit exceeded: "@
                    + digits_of(current_bytes as nat) + " bytes used, limit: "@ + digits_of(limit_bytes as nat)
                    + " bytes"@,
                ParseError::InvalidTokenSequence { prev, next, position, token_count, .. } => r@
                    == "invalid token sequence: "@ + item_debug_text(prev.token, prev.value@) + " -> "@
                    + item_debug_text(next.token, next.value@) + " (position: "@ + digits_of(position as nat)
                    + ", total tokens: "@ + digits_of(token_count as nat) + ")"@,
                ParseError::IncompleteTokenSequence { expression, last, .. } => r@
                    == "incomplete token sequence in expression '"@ + expression@ + "', last token: "@
                    + item_debug_text(last.token, last.value@),
                ParseError::LexerNotInitialized => r@ == "lexer not initialized"@,
                ParseError::InvalidWildcardIdent => r@ == "invalid wildcard identifier"@,
                ParseError::UnmatchedParenthesis => r@ == "unmatched parenthesis"@,
                ParseError::NoMatchingWildcard => r@ == "no matching wildcard"@,
                ParseError::InvalidKeywordConstruct => r@ == "invalid keyword construct"@,
                ParseError::InvalidSelectionConstruct => r@ == "invalid selection construct"@,
                ParseError::UnexpectedToken { token } => r@ == "unexpected token: "@ + token_name(token),
                ParseError::InvalidGlobPattern { pattern, error } => r@ == "invalid glob pattern: "@ + pattern@
                    + ", error: "@ + error@,
                ParseError::UnsupportedValueType { value_type } => r@ == "unsupported value type: "@
                    + value_type@,
                ParseError::InvalidBranchStructure { message } => r@ == "invalid branch structure: "@ + message@,
                ParseError::NumericPatternCreationFailed { field, value, error } => r@
                    == "failed to create numeric pattern for value '"@ + value@ + "' in field '"@ + field@
                    + "': "@ + error@,
                ParseError::NoValidFieldPatterns { rule_id, field, errors } => r@
                    == "no valid field patterns found in rule '"@ + rule_id@ + "', field '"@ + field@ + "': "@
                    + "["@ + quoted_list(string_views(errors@)) + "]"@,
                ParseError::TaskJoinError(m) => r@ == "task join error: "@ + m@,
                ParseError::LexerError(e) => r@ == "lexer error: "@ + lex_error_text(e),
            },
    {
        match self {
            ParseError::UnsupportedToken { msg } => owned("unsupported token: ").concat(msg.as_str()),
            ParseError::InvalidTokenSequence { prev, next, position, token_count, .. } => owned(
                "invalid token sequence: ",
            ).concat(item_debug(prev).as_str()).concat(" -> ").concat(item_debug(next).as_str()).concat(
                " (position: ",
            ).concat(usize_to_decimal(*position).as_str()).concat(", total tokens: ").concat(
                usize_to_decimal(*token_count).as_str(),
            ).concat(")"),
            ParseError::MissingConditionItem { key } => owned("missing condition item: ").concat(key.as_str()),
            ParseError::IncompleteTokenSequence { expression, last, .. } => owned(
                "incomplete token sequence in expression '",
            ).concat(expression.as_str()).concat("', last token: ").concat(item_debug(last).as_str()),
            ParseError::MissingDetection => owned("missing detection field"),
            ParseError::MissingCondition => owned("missing condition in detection"),
            ParseError::LexerNotInitialized => owned("lexer not initialized"),
            ParseError::ParserError(m) => owned("parser error: ").concat(m.as_str()),
            ParseError::WildcardCompilationError(m) => owned("wildcard compilation failed: ").concat(m.as_str()),
            ParseError::InvalidWildcardIdent => owned("invalid wildcard identifier"),
            ParseError::UnmatchedParenthesis => owned("unmatched parenthesis"),
            ParseError::NoMatchingWildcard => owned("no matching wildcard"),
            ParseError::TokenLimitExceeded { current, limit } => owned("token collection limit exceeded: ").concat(
                usize_to_decimal(*current).as_str(),
            ).concat(" tokens, limit: ").concat(usize_to_decimal(*limit).as_str()),
            ParseError::InvalidKeywordConstruct => owned("invalid keyword construct"),
            ParseError::InvalidSelectionConstruct => owned("invalid selection construct"),
            ParseError::UnexpectedToken { token } => owned("unexpected token: ").concat(token_debug(*token).as_str()),
            ParseError::InvalidGlobPattern { pattern, error } => owned("invalid glob pattern: ").concat(
                pattern.as_str(),
            ).concat(", error: ").concat(error.as_str()),
            ParseError::UnsupportedValueType { value_type } => owned("unsupported value type: ").concat(
                value_type.as_str(),
            ),
            ParseError::RecursionLimitExceeded { current, limit } => owned("recursion depth limit exceeded: ").concat(
                usize_to_decimal(*current).as_str(),
            ).concat(" levels, limit: ").concat(usize_to_decimal(*limit).as_str()),
            ParseError::InvalidBranchStructure { message } => owned("invalid branch structure: ").concat(
                message.as_str(),
            ),
            ParseError::FieldPatternCreationFailed { field, error, .. } => owned(
                "failed to create pattern for field '",
            ).concat(field.as_str()).concat("': ").concat(error.as_str()),
            ParseError::NumericPatternCreationFailed { field, value, error } => owned(
                "failed to create numeric pattern for value '",
            ).concat(value.as_str()).concat("' in field '").concat(field.as_str()).concat("': ").concat(
                error.as_str(),
            ),
            ParseError::StringPatternCreationFailed { field, value, error } => owned(
                "failed to create string pattern for value '",
            ).concat(value.as_str()).concat("' in field '").concat(field.as_str()).concat("': ").concat(
                error.as_str(),
            ),
            ParseError::DetectionParsingFailed { rule_id, error } => owned(
                "failed to parse detection section in rule '",
            ).concat(rule_id.as_str()).concat("': ").concat(error.as_str()),
            ParseError::NoValidFieldPatterns { rule_id, field, errors } => owned(
                "no valid field patterns found in rule '",
            ).concat(rule_id.as_str()).concat("', field '").concat(field.as_str()).concat("': ").concat(
                strings_debug(errors).as_str(),
            ),
            ParseError::MemoryLimitExceeded { current_bytes, limit_bytes } => owned("memory limit exceeded: ").concat(
                usize_to_decimal(*current_bytes).as_str(),
            ).concat(" bytes used, limit: ").concat(usize_to_decimal(*limit_bytes).as_str()).concat(" bytes"),
            ParseError::TaskJoinError(m) => owned("task join error: ").concat(m.as_str()),
            ParseError::LexerError(e) => owned("lexer error: ").concat(e.message().as_str()),
        }
    }
}

/// Every error is the same error as itself.
pub proof fn lemma_parse_error_eq_refl(e: ParseError)
    ensures
        parse_error_eq(e, e),
{
    match e {
        ParseError::LexerError(l) => {
            assert(lex_error_eq(l, l));
        },
        _ => {},
    }
}

impl PartialEq for ParseError {
    fn eq(&self, other: &Self) -> (r: bool) {
        self.same_as(other)
    }
}

impl vstd::std_specs::cmp::PartialEqSpecImpl for ParseError {
    open spec fn obeys_eq_spec() -> bool {
        true
    }

    open spec fn eq_spec(&self, other: &Self) -> bool {
        parse_error_eq(*self, *other)
    }
}

} // verus!
