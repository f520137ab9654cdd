//! The lexer's state machine, as a mathematical model.
//!
//! The lexer walks the condition character by character. `start` marks the
//! beginning of the text not yet emitted, `pos` the next character to read and
//! `width` whether the last read returned a character (so that it can be
//! backed up). Each state is a step from one model to the next.
use vstd::prelude::*;

use crate::lexer::token::{check_keyword_spec, Token};
use crate::text::{is_ws, occurs_at};

verus! {

/// States in the lexer state machine
#[derive(Debug, Clone, Copy, PartialEq, Eq, Structural)]
pub enum LexState {
    /// Main condition parsing state
    Condition,
    /// Parsing "1 of" statement
    OneOf,
    /// Parsing "all of" statement
    AllOf,
    /// End of file reached
    Eof,
    /// Pipe separator found
    Pipe,
    /// Left parenthesis found
    Lpar,
    /// Right parenthesis found
    Rpar,
    /// Right parenthesis with preceding tokens
    RparWithTokens,
    /// Accumulating tokens before whitespace
    AccumulateBeforeWhitespace,
    /// Processing whitespace
    Whitespace,
    /// Aggregation state (unsupported)
    Aggregation,
}

/// The lexer's state as a mathematical value.
pub struct LexModel {
    /// The condition being lexed.
    pub input: Seq<char>,
    /// Start of the text not yet emitted.
    pub start: int,
    /// Next character to read.
    pub pos: int,
    /// 1 if the last read returned a character, else 0.
    pub width: int,
    /// Tokens emitted so far, with their text.
    pub items: Seq<(Token, Seq<char>)>,
}

/// The model before anything is read.
pub open spec fn initial_model(input: Seq<char>) -> LexModel {
    LexModel { input, start: 0, pos: 0, width: 0, items: Seq::empty() }
}

/// The text read since the last emitted token.
pub open spec fn collected(m: LexModel) -> Seq<char> {
    m.input.subrange(m.start, m.pos)
}

/// Reads the next character.
pub open spec fn m_next(m: LexModel) -> (LexModel, Option<char>) {
    if m.pos >= m.input.len() {
        (LexModel { width: 0, ..m }, None)
    } else {
        (LexModel { width: 1, pos: m.pos + 1, ..m }, Some(m.input[m.pos]))
    }
}

/// Steps back over the last character read.
pub open spec fn m_backup(m: LexModel) -> LexModel {
    if m.pos > 0 && m.width > 0 {
        LexModel { pos: m.pos - 1, width: 0, ..m }
    } else {
        m
    }
}

/// Drops the text read so far.
pub open spec fn m_ignore(m: LexModel) -> LexModel {
    LexModel { start: m.pos, ..m }
}

/// Emits a token with the text read so far.
pub open spec fn m_emit(m: LexModel, t: Token) -> LexModel {
    LexModel { items: m.items.push((t, collected(m))), start: m.pos, ..m }
}

/// The statement keyword "1 of" starts at the read position.
pub open spec fn at_one_of(m: LexModel) -> bool {
    occurs_at(m.input, "1 of"@, m.pos)
}

/// The statement keyword "all of" starts at the read position.
pub open spec fn at_all_of(m: LexModel) -> bool {
    occurs_at(m.input, "all of"@, m.pos)
}

/// The main state: reads until a statement, a separator, whitespace or the end.
pub open spec fn cond_scan(m: LexModel) -> (LexModel, LexState)
    decreases m.input.len() - m.pos,
{
    if at_one_of(m) {
        (m, LexState::OneOf)
    } else if at_all_of(m) {
        (m, LexState::AllOf)
    } else if m.pos >= m.input.len() {
        (m_next(m).0, LexState::Eof)
    } else {
        let m1 = m_next(m).0;
        let c = m.input[m.pos];
        if c == ')' {
            (m1, LexState::RparWithTokens)
        } else if c == '(' {
            (m1, LexState::Lpar)
        } else if c == '|' {
            (m1, LexState::Pipe)
        } else if is_ws(c) {
            (m1, LexState::AccumulateBeforeWhitespace)
        } else {
            cond_scan(m1)
        }
    }
}

/// Skips whitespace; stops before the next other character or at the end.
pub open spec fn ws_scan(m: LexModel) -> (LexModel, LexState)
    decreases m.input.len() - m.pos,
{
    if m.pos >= m.input.len() {
        (m_next(m).0, LexState::Eof)
    } else {
        let m1 = m_next(m).0;
        if !is_ws(m.input[m.pos]) {
            (m_backup(m1), LexState::Condition)
        } else {
            ws_scan(m_ignore(m1))
        }
    }
}

/// Skips whitespace after the text before a right parenthesis.
pub open spec fn rpar_scan(m: LexModel) -> (LexModel, LexState)
    decreases m.input.len() - m.pos,
{
    if m.pos >= m.input.len() {
        (m_next(m).0, LexState::Eof)
    } else {
        let m1 = m_next(m).0;
        if !is_ws(m.input[m.pos]) {
            (m1, LexState::Rpar)
        } else {
            rpar_scan(m_ignore(m1))
        }
    }
}

/// Emits the collected word, if any text was collected.
pub open spec fn emit_word(m: LexModel) -> LexModel {
    if m.pos > m.start {
        m_emit(m, check_keyword_spec(collected(m)))
    } else {
        m
    }
}

/// One step of the state machine.
pub open spec fn lex_step(m: LexModel, s: LexState) -> (LexModel, Option<LexState>) {
    match s {
        LexState::Condition => {
            let (m1, s1) = cond_scan(m);
            (m1, Some(s1))
        },
        LexState::OneOf => (m_emit(LexModel { pos: m.pos + 4, ..m }, Token::StmtOneOf), Some(LexState::Condition)),
        LexState::AllOf => (m_emit(LexModel { pos: m.pos + 6, ..m }, Token::StmtAllOf), Some(LexState::Condition)),
        LexState::Eof => (m_emit(emit_word(m), Token::LitEof), None),
        LexState::Pipe => (m_emit(m, Token::SepPipe), Some(LexState::Aggregation)),
        LexState::Lpar => (m_emit(m, Token::SepLpar), Some(LexState::Condition)),
        LexState::Rpar => (m_emit(m, Token::SepRpar), Some(LexState::Condition)),
        LexState::RparWithTokens => {
            if m.pos > m.start {
                let m1 = m_backup(m);
                let t = check_keyword_spec(collected(m1));
                let m2 = if t != Token::Nil {
                    m_emit(m1, t)
                } else {
                    m1
                };
                let (m3, s3) = rpar_scan(m2);
                (m3, Some(s3))
            } else {
                (m, Some(LexState::Rpar))
            }
        },
        LexState::AccumulateBeforeWhitespace => (emit_word(m_backup(m)), Some(LexState::Whitespace)),
        LexState::Whitespace => {
            let (m1, s1) = ws_scan(m);
            (m1, Some(s1))
        },
        LexState::Aggregation => {
            let m1 = LexModel { pos: m.input.len() as int, ..m };
            (m_emit(m_emit(m1, Token::Unsupported), Token::LitEof), None)
        },
    }
}

/// Runs the state machine for at most `fuel` steps.
pub open spec fn lex_run(m: LexModel, s: Option<LexState>, fuel: nat) -> Seq<(Token, Seq<char>)>
    decreases fuel,
{
    match s {
        None => m.items,
        Some(st) => if fuel == 0 {
            m.items
        } else {
            let (m1, s1) = lex_step(m, st);
            lex_run(m1, s1, (fuel - 1) as nat)
        },
    }
}

/// The tokens of a condition: the state machine run from the start, with more
/// steps than it can take (see `lex_measure`).
pub open spec fn lex_spec(input: Seq<char>) -> Seq<(Token, Seq<char>)> {
    lex_run(initial_model(input), Some(LexState::Condition), (4 * input.len() + 8) as nat)
}

/// A bound on the steps left from a state; each step lowers it.
pub open spec fn lex_measure(m: LexModel, s: LexState) -> int {
    let rest = m.input.len() - m.pos;
    match s {
        LexState::Condition => 4 * rest + 2,
        LexState::OneOf | LexState::AllOf => 4 * rest + 1,
        LexState::Lpar | LexState::Pipe | LexState::Rpar => 4 * rest + 3,
        LexState::RparWithTokens | LexState::AccumulateBeforeWhitespace => 4 * rest + 4,
        LexState::Whitespace => if m.pos < m.input.len() && is_ws(m.input[m.pos]) {
            4 * rest - 1
        } else {
            4 * rest + 3
        },
        LexState::Eof | LexState::Aggregation => 1,
    }
}

/// What holds of the model in each state.
pub open spec fn lex_state_ok(m: LexModel, s: LexState) -> bool {
    &&& 0 <= m.start <= m.pos <= m.input.len()
    &&& (m.width == 0 || m.width == 1)
    &&& (s == LexState::OneOf ==> at_one_of(m))
    &&& (s == LexState::AllOf ==> at_all_of(m))
    &&& (s == LexState::AccumulateBeforeWhitespace ==> m.width == 1 && m.start < m.pos && is_ws(
        m.input[m.pos - 1],
    ))
    &&& (s == LexState::RparWithTokens ==> m.width == 1 && m.start < m.pos && m.input[m.pos
        - 1] == ')')
}

proof fn lemma_cond_scan(m: LexModel)
    requires
        0 <= m.start <= m.pos <= m.input.len(),
        m.width == 0 || m.width == 1,
    ensures
        ({
            let (m1, s1) = cond_scan(m);
            &&& m1.input == m.input
            &&& m1.items == m.items
            &&& m1.start == m.start
            &&& lex_state_ok(m1, s1)
            &&& lex_measure(m1, s1) < lex_measure(m, LexState::Condition)
        }),
    decreases m.input.len() - m.pos,
{
    if at_one_of(m) || at_all_of(m) || m.pos >= m.input.len() {
    } else {
        let m1 = m_next(m).0;
        let c = m.input[m.pos];
        if c == ')' || c == '(' || c == '|' || is_ws(c) {
        } else {
            lemma_cond_scan(m1);
        }
    }
}

proof fn lemma_ws_scan(m: LexModel)
    requires
        0 <= m.start <= m.pos <= m.input.len(),
        m.width == 0 || m.width == 1,
    ensures
        ({
            let (m1, s1) = ws_scan(m);
            &&& m1.input == m.input
            &&& m1.items == m.items
            &&& lex_state_ok(m1, s1)
            &&& lex_measure(m1, s1) < lex_measure(m, LexState::Whitespace)
        }),
    decreases m.input.len() - m.pos,
{
    if m.pos >= m.input.len() {
    } else {
        let m1 = m_next(m).0;
        if !is_ws(m.input[m.pos]) {
        } else {
            lemma_ws_scan(m_ignore(m1));
        }
    }
}

proof fn lemma_rpar_scan(m: LexModel)
    requires
        0 <= m.start <= m.pos <= m.input.len(),
        m.width == 0 || m.width == 1,
    ensures
        ({
            let (m1, s1) = rpar_scan(m);
            &&& m1.input == m.input
            &&& lex_state_ok(m1, s1)
            &&& (s1 == LexState::Rpar ==> m1.pos > m.pos)
        }),
    decreases m.input.len() - m.pos,
{
    if m.pos >= m.input.len() {
    } else {
        let m1 = m_next(m).0;
        if !is_ws(m.input[m.pos]) {
        } else {
            lemma_rpar_scan(m_ignore(m1));
        }
    }
}

/// Each step keeps the state invariant and lowers the measure.
pub proof fn lemma_lex_step(m: LexModel, s: LexState)
    requires
        lex_state_ok(m, s),
    ensures
        ({
            let (m1, s1) = lex_step(m, s);
            &&& m1.input == m.input
            &&& (s1 matches Some(t) ==> lex_state_ok(m1, t) && lex_measure(m1, t) < lex_measure(
                m,
                s,
            ))
        }),
{
    match s {
        LexState::Condition => {
            lemma_cond_scan(m);
        },
        LexState::OneOf => {
            reveal_strlit("1 of");
        },
        LexState::AllOf => {
            reveal_strlit("all of");
        },
        LexState::RparWithTokens => {
            let m1 = m_backup(m);
            let t = check_keyword_spec(collected(m1));
            let m2 = if t != Token::Nil {
                m_emit(m1, t)
            } else {
                m1
            };
            lemma_rpar_scan(m2);
        },
        LexState::Whitespace => {
            lemma_ws_scan(m);
        },
        _ => {},
    }
}

} // verus!
