//! Tokens of Sigma condition expressions.
use vstd::prelude::*;

use crate::pattern::engines::{compile_glob, glob_compiles, CompiledGlob};
use crate::text::{
    chars_eq, chars_eq_ignore_ascii_case_at, chars_of, contains_char, eq_ignore_ascii_case, trim,
    trim_chars, sub_chars,
};

verus! {

/// Token types in Sigma expressions
#[derive(Debug, Clone, Copy, PartialEq, Eq, Structural)]
pub enum Token {
    /// Error token
    Error,
    /// Unsupported token type
    Unsupported,
    /// Empty/nil token
    Nil,
    /// Regular identifier
    Identifier,
    /// Identifier containing wildcards
    IdentifierWithWildcard,
    /// Special identifier "them"
    IdentifierAll,
    /// End of file literal
    LitEof,
    /// Left parenthesis separator
    SepLpar,
    /// Right parenthesis separator
    SepRpar,
    /// Pipe separator
    SepPipe,
    /// Equals operator
    OpEq,
    /// Greater than operator
    OpGt,
    /// Greater than or equal operator
    OpGte,
    /// Less than operator
    OpLt,
    /// Less than or equal operator
    OpLte,
    /// AND keyword
    KeywordAnd,
    /// OR keyword
    KeywordOr,
    /// NOT keyword
    KeywordNot,
    /// Aggregation keyword (sum, min, max, etc.)
    KeywordAgg,
    /// "1 of" statement
    StmtOneOf,
    /// "all of" statement
    StmtAllOf,
    /// Start of a condition, before its first token
    Begin,
}

/// The literal text of a token kind.
pub open spec fn literal_spec(t: Token) -> Seq<char> {
    match t {
        Token::Identifier | Token::IdentifierWithWildcard => "keywords"@,
        Token::IdentifierAll => "them"@,
        Token::SepLpar => "("@,
        Token::SepRpar => ")"@,
        Token::SepPipe => "|"@,
        Token::OpEq => "="@,
        Token::OpGt => ">"@,
        Token::OpGte => ">="@,
        Token::OpLt => "<"@,
        Token::OpLte => "<="@,
        Token::KeywordAnd => "and"@,
        Token::KeywordOr => "or"@,
        Token::KeywordNot => "not"@,
        Token::StmtAllOf => "all of"@,
        Token::StmtOneOf => "1 of"@,
        Token::LitEof | Token::Nil => ""@,
        _ => "Err"@,
    }
}

/// The separator character of a token kind, if it is a separator.
pub open spec fn rune_spec(t: Token) -> Option<char> {
    match t {
        Token::SepLpar => Some('('),
        Token::SepRpar => Some(')'),
        Token::SepPipe => Some('|'),
        _ => None,
    }
}

/// Whether `s` is, up to ASCII case, the word `w`.
pub open spec fn is_word(s: Seq<char>, w: Seq<char>) -> bool {
    eq_ignore_ascii_case(s, w)
}

/// The keyword tokens that a word stands for, as `Token::from_keyword` reads them.
pub open spec fn keyword_spec(s: Seq<char>) -> Option<Token> {
    if is_word(s, "and"@) {
        Some(Token::KeywordAnd)
    } else if is_word(s, "or"@) {
        Some(Token::KeywordOr)
    } else if is_word(s, "not"@) {
        Some(Token::KeywordNot)
    } else if is_word(s, "sum"@) || is_word(s, "min"@) || is_word(s, "max"@) || is_word(
        s,
        "count"@,
    ) || is_word(s, "avg"@) {
        Some(Token::KeywordAgg)
    } else if is_word(s, "them"@) {
        Some(Token::IdentifierAll)
    } else if s == "1 of"@ {
        Some(Token::StmtOneOf)
    } else {
        None
    }
}

/// `t` (already trimmed) is "all", one or more whitespace characters and "of",
/// up to ASCII case.
pub open spec fn is_all_of(t: Seq<char>) -> bool {
    &&& t.len() >= 6
    &&& is_word(t.subrange(0, 3), "all"@)
    &&& is_word(trim(t.subrange(3, t.len() as int)), "of"@)
}

/// The token kind of a collected word.
pub open spec fn check_keyword_spec(s: Seq<char>) -> Token {
    if s.len() == 0 {
        Token::Nil
    } else if keyword_spec(s) is Some {
        keyword_spec(s)->0
    } else if is_all_of(trim(s)) {
        Token::StmtAllOf
    } else if s.contains('*') || s.contains('?') {
        Token::IdentifierWithWildcard
    } else {
        Token::Identifier
    }
}

/// Whether `s` is, up to ASCII case, the word `w`.
fn word_is(s: &[char], w: &str) -> (r: bool)
    ensures
        r == is_word(s@, w@),
{
    let wc = chars_of(w);
    if s.len() != wc.len() {
        return false;
    }
    let r = chars_eq_ignore_ascii_case_at(s, 0, wc.as_slice());
    assert(s@.subrange(0, wc@.len() as int) =~= s@);
    r
}

/// Keyword token of a character sequence.
fn keyword_of(s: &[char]) -> (r: Option<Token>)
    ensures
        r == keyword_spec(s@),
{
    if word_is(s, "and") {
        Some(Token::KeywordAnd)
    } else if word_is(s, "or") {
        Some(Token::KeywordOr)
    } else if word_is(s, "not") {
        Some(Token::KeywordNot)
    } else if word_is(s, "sum") || word_is(s, "min") || word_is(s, "max") || word_is(s, "count")
        || word_is(s, "avg") {
        Some(Token::KeywordAgg)
    } else if word_is(s, "them") {
        Some(Token::IdentifierAll)
    } else {
        let one_of = chars_of("1 of");
        if chars_eq(s, one_of.as_slice()) {
            Some(Token::StmtOneOf)
        } else {
            None
        }
    }
}

/// Token kind of a collected character sequence.
pub fn check_keyword_chars(s: &[char]) -> (r: Token)
    ensures
        r == check_keyword_spec(s@),
{
    if s.len() == 0 {
        return Token::Nil;
    }
    match keyword_of(s) {
        Some(t) => t,
        None => {
            let t = trim_chars(s);
            if t.len() >= 6 {
                let first = sub_chars(t.as_slice(), 0, 3);
                if word_is(first.as_slice(), "all") {
                    let rest = sub_chars(t.as_slice(), 3, t.len());
                    let rest_trimmed = trim_chars(rest.as_slice());
                    if word_is(rest_trimmed.as_slice(), "of") {
                        return Token::StmtAllOf;
                    }
                }
            }
            if contains_char(s, '*') || contains_char(s, '?') {
                Token::IdentifierWithWildcard
            } else {
                Token::Identifier
            }
        },
    }
}

/// Check if a keyword is valid based on the given string
pub fn check_keyword(input: &str) -> (r: Token)
    ensures
        r == check_keyword_spec(input@),
{
    let v = chars_of(input);
    check_keyword_chars(v.as_slice())
}

impl Token {
    /// Get the literal representation of the token
    pub fn literal(&self) -> (r: &'static str)
        ensures
            r@ == literal_spec(*self),
    {
        match self {
            Token::Identifier | Token::IdentifierWithWildcard => "keywords",
            Token::IdentifierAll => "them",
            Token::SepLpar => "(",
            Token::SepRpar => ")",
            Token::SepPipe => "|",
            Token::OpEq => "=",
            Token::OpGt => ">",
            Token::OpGte => ">=",
            Token::OpLt => "<",
            Token::OpLte => "<=",
            Token::KeywordAnd => "and",
            Token::KeywordOr => "or",
            Token::KeywordNot => "not",
            Token::StmtAllOf => "all of",
            Token::StmtOneOf => "1 of",
            Token::LitEof | Token::Nil => "",
            _ => "Err",
        }
    }

    /// Get the rune representation of separator tokens
    pub fn rune(&self) -> (r: Option<char>)
        ensures
            r == rune_spec(*self),
    {
        match self {
            Token::SepLpar => Some('('),
            Token::SepRpar => Some(')'),
            Token::SepPipe => Some('|'),
            _ => None,
        }
    }

    /// Check if this is a valid keyword token
    pub fn from_keyword(s: &str) -> (r: Option<Token>)
        ensures
            r == keyword_spec(s@),
    {
        let v = chars_of(s);
        keyword_of(v.as_slice())
    }
}

/// Lexical token with its value
#[derive(Debug)]
pub struct Item {
    /// The token type
    pub token: Token,
    /// The token value
    pub value: String,
    /// The glob compiled from `value`, once `glob` has compiled it
    pub glob_val: Option<CompiledGlob>,
    /// Whether compiling `value` as a glob has failed
    pub glob_compile_failed: bool,
}

impl View for Item {
    type V = (Token, Seq<char>);

    open spec fn view(&self) -> (Token, Seq<char>) {
        (self.token, self.value@)
    }
}

impl Item {
    /// The item's glob cache agrees with its value: a cached glob was
    /// compiled from the value, and a remembered failure means the value is
    /// no glob.
    pub open spec fn glob_cache_ok(&self) -> bool {
        &&& (self.glob_val matches Some(g) ==> g@ == self.value@ && glob_compiles(self.value@))
        &&& (self.glob_compile_failed ==> !glob_compiles(self.value@))
    }

    /// Create a new item
    pub fn new(token: Token, value: String) -> (r: Item)
        ensures
            r.token == token,
            r.value@ == value@,
            r.glob_cache_ok(),
    {
        Item { token, value, glob_val: None, glob_compile_failed: false }
    }

    /// A copy of this item.
    pub fn duplicate(&self) -> (r: Item)
        ensures
            r@ == self@,
            r.glob_cache_ok(),
    {
        Item::new(self.token, self.value.clone())
    }

    /// The glob compiled from the item's value, compiled on first use and
    /// kept; `None` when the value is no glob.
    pub fn glob(&mut self) -> (r: Option<&CompiledGlob>)
        requires
            old(self).glob_cache_ok(),
        ensures
            final(self)@ == old(self)@,
            final(self).glob_cache_ok(),
            r is Some <==> glob_compiles(old(self).value@),
            r matches Some(g) ==> g@ == old(self).value@,
    {
        if self.glob_val.is_none() && !self.glob_compile_failed {
            match compile_glob(self.value.as_str()) {
                Ok(g) => {
                    self.glob_val = Some(g);
                },
                Err(_) => {
                    self.glob_compile_failed = true;
                    return None;
                },
            }
        }
        if self.glob_compile_failed {
            return None;
        }
        self.glob_val.as_ref()
    }
}

} // verus!
