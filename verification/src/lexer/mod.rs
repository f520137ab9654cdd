//! Lexical analysis of Sigma condition expressions.
//!
//! The lexer converts a condition string into a sequence of tokens. It is a
//! state machine whose mathematical model is in [`state`]; the executable
//! lexer below is proved to follow that model step by step.
use vstd::prelude::*;

pub mod error;
pub mod state;
pub mod token;

pub use state::LexState;
pub use token::{Item, Token};

use crate::lexer::state::{
    at_all_of, at_one_of, collected, cond_scan, emit_word, initial_model, lemma_lex_step,
    lex_measure, lex_run, lex_spec, lex_state_ok, lex_step, m_backup, m_emit, m_ignore, m_next,
    rpar_scan, ws_scan, LexModel,
};
use crate::lexer::token::check_keyword_chars;
use crate::text::{chars_of, is_whitespace_char, occurs_at_exec, string_from_chars, sub_chars};

verus! {

/// Default channel buffer size for token emission
pub const DEFAULT_CHANNEL_BUFFER: usize = 1000;

/// Default lexing timeout duration in seconds
pub const DEFAULT_LEXING_TIMEOUT_SECS: u64 = 30;

/// The views of a sequence of items.
pub open spec fn items_view(items: Seq<Item>) -> Seq<(Token, Seq<char>)> {
    items.map_values(|i: Item| i@)
}

/// Lexer for Sigma detection rules
/// Converts input string into a stream of tokens
pub struct Lexer {
    input: Vec<char>,
    start: usize,
    position: usize,
    width: usize,
    items: Vec<Item>,
}

impl View for Lexer {
    type V = LexModel;

    closed spec fn view(&self) -> LexModel {
        LexModel {
            input: self.input@,
            start: self.start as int,
            pos: self.position as int,
            width: self.width as int,
            items: items_view(self.items@),
        }
    }
}

impl Lexer {
    /// The lexer's fields fit its model.
    pub closed spec fn wf(&self) -> bool {
        &&& self.start <= self.position <= self.input@.len()
        &&& self.width <= 1
        &&& self.input@.len() + 8 <= usize::MAX
    }

    /// Create a new lexer over `input`
    pub fn new(input: &str) -> (r: Lexer)
        requires
            input@.len() + 8 <= usize::MAX,
        ensures
            r@ == initial_model(input@),
            r.wf(),
    {
        let v = chars_of(input);
        let l = Lexer { input: v, start: 0, position: 0, width: 0, items: Vec::new() };
        assert(items_view(l.items@) =~= Seq::empty());
        l
    }

    /// The tokens emitted so far, in order.
    pub fn emitted(&self) -> (r: &[Item])
        ensures
            items_view(r@) == self@.items,
    {
        self.items.as_slice()
    }

    /// Get the next character from the input
    fn next_char(&mut self) -> (r: Option<char>)
        requires
            old(self).wf(),
        ensures
            final(self).wf(),
            (final(self)@, r) == m_next(old(self)@),
    {
        if self.position >= self.input.len() {
            self.width = 0;
            return None;
        }
        let ch = self.input[self.position];
        self.width = 1;
        self.position = self.position + 1;
        Some(ch)
    }

    /// Back up one character
    fn backup(&mut self)
        requires
            old(self).wf(),
            old(self).width > 0 ==> old(self).start < old(self).position,
        ensures
            final(self).wf(),
            final(self)@ == m_backup(old(self)@),
    {
        if self.position > 0 && self.width > 0 {
            self.position = self.position - 1;
            self.width = 0;
        }
    }

    /// Ignore characters up to current position
    fn ignore(&mut self)
        requires
            old(self).wf(),
        ensures
            final(self).wf(),
            final(self)@ == m_ignore(old(self)@),
    {
        self.start = self.position;
    }

    /// Get the collected characters from start to current position
    fn collected_chars(&self) -> (r: Vec<char>)
        requires
            self.wf(),
        ensures
            r@ == collected(self@),
    {
        sub_chars(self.input.as_slice(), self.start, self.position)
    }

    /// Emit a token with the collected value
    fn emit(&mut self, token: Token)
        requires
            old(self).wf(),
        ensures
            final(self).wf(),
            final(self)@ == m_emit(old(self)@, token),
    {
        let value = self.collected_chars();
        let item = Item::new(token, string_from_chars(value.as_slice()));
        let ghost old_items = self.items@;
        self.items.push(item);
        assert(items_view(self.items@) =~= items_view(old_items).push(item@));
        self.start = self.position;
    }

    /// Emits the collected word, if any text was collected
    fn emit_collected_word(&mut self)
        requires
            old(self).wf(),
        ensures
            final(self).wf(),
            final(self)@ == emit_word(old(self)@),
    {
        if self.position > self.start {
            let c = self.collected_chars();
            let token = check_keyword_chars(c.as_slice());
            self.emit(token);
        }
    }

    /// Main lexing state - scans for tokens
    pub fn lex_condition(&mut self) -> (r: LexState)
        requires
            old(self).wf(),
        ensures
            final(self).wf(),
            (final(self)@, r) == cond_scan(old(self)@),
    {
        let one_of = chars_of("1 of");
        let all_of = chars_of("all of");
        loop
            invariant
                self.wf(),
                one_of@ == "1 of"@,
                all_of@ == "all of"@,
                cond_scan(self@) == cond_scan(old(self)@),
            decreases self.input@.len() - self.position,
        {
            if occurs_at_exec(self.input.as_slice(), one_of.as_slice(), self.position) {
                assert(at_one_of(self@));
                return LexState::OneOf;
            }
            if occurs_at_exec(self.input.as_slice(), all_of.as_slice(), self.position) {
                assert(at_all_of(self@));
                return LexState::AllOf;
            }
            match self.next_char() {
                None => {
                    return LexState::Eof;
                },
                Some(c) => {
                    if c == ')' {
                        return LexState::RparWithTokens;
                    } else if c == '(' {
                        return LexState::Lpar;
                    } else if c == '|' {
                        return LexState::Pipe;
                    } else if is_whitespace_char(c) {
                        return LexState::AccumulateBeforeWhitespace;
                    }
                },
            }
        }
    }

    /// Lex "1 of" statement
    pub fn lex_one_of(&mut self) -> (r: LexState)
        requires
            old(self).wf(),
            at_one_of(old(self)@),
        ensures
            final(self).wf(),
            (final(self)@, Some(r)) == lex_step(old(self)@, LexState::OneOf),
    {
        proof {
            reveal_strlit("1 of");
        }
        self.position = self.position + 4;
        self.emit(Token::StmtOneOf);
        LexState::Condition
    }

    /// Lex "all of" statement
    pub fn lex_all_of(&mut self) -> (r: LexState)
        requires
            old(self).wf(),
            at_all_of(old(self)@),
        ensures
            final(self).wf(),
            (final(self)@, Some(r)) == lex_step(old(self)@, LexState::AllOf),
    {
        proof {
            reveal_strlit("all of");
        }
        self.position = self.position + 6;
        self.emit(Token::StmtAllOf);
        LexState::Condition
    }

    /// Lex end of file
    pub fn lex_eof(&mut self)
        requires
            old(self).wf(),
        ensures
            final(self).wf(),
            final(self)@ == lex_step(old(self)@, LexState::Eof).0,
    {
        self.emit_collected_word();
        self.emit(Token::LitEof);
    }

    /// Lex pipe separator
    pub fn lex_pipe(&mut self) -> (r: LexState)
        requires
            old(self).wf(),
        ensures
            final(self).wf(),
            (final(self)@, Some(r)) == lex_step(old(self)@, LexState::Pipe),
    {
        self.emit(Token::SepPipe);
        LexState::Aggregation
    }

    /// Lex left parenthesis
    pub fn lex_lpar(&mut self) -> (r: LexState)
        requires
            old(self).wf(),
        ensures
            final(self).wf(),
            (final(self)@, Some(r)) == lex_step(old(self)@, LexState::Lpar),
    {
        self.emit(Token::SepLpar);
        LexState::Condition
    }

    /// Lex right parenthesis with potential preceding tokens
    pub fn lex_rpar_with_tokens(&mut self) -> (r: LexState)
        requires
            old(self).wf(),
            old(self)@.width > 0 ==> old(self)@.start < old(self)@.pos,
        ensures
            final(self).wf(),
            (final(self)@, Some(r)) == lex_step(old(self)@, LexState::RparWithTokens),
    {
        if self.position > self.start {
            self.backup();
            let c = self.collected_chars();
            let token = check_keyword_chars(c.as_slice());
            if token != Token::Nil {
                self.emit(token);
            }
            let ghost entry = self@;
            loop
                invariant
                    self.wf(),
                    (rpar_scan(self@).0, Some(rpar_scan(self@).1)) == lex_step(
                        old(self)@,
                        LexState::RparWithTokens,
                    ),
                decreases self.input@.len() - self.position,
            {
                match self.next_char() {
                    None => {
                        return LexState::Eof;
                    },
                    Some(c) => {
                        if is_whitespace_char(c) {
                            self.ignore();
                        } else {
                            return LexState::Rpar;
                        }
                    },
                }
            }
        }
        LexState::Rpar
    }

    /// Lex right parenthesis
    pub fn lex_rpar(&mut self) -> (r: LexState)
        requires
            old(self).wf(),
        ensures
            final(self).wf(),
            (final(self)@, Some(r)) == lex_step(old(self)@, LexState::Rpar),
    {
        self.emit(Token::SepRpar);
        LexState::Condition
    }

    /// Handle accumulated text before whitespace
    pub fn lex_accumulate_before_whitespace(&mut self) -> (r: LexState)
        requires
            old(self).wf(),
            old(self)@.width > 0 ==> old(self)@.start < old(self)@.pos,
        ensures
            final(self).wf(),
            (final(self)@, Some(r)) == lex_step(old(self)@, LexState::AccumulateBeforeWhitespace),
    {
        self.backup();
        self.emit_collected_word();
        LexState::Whitespace
    }

    /// Lex whitespace
    pub fn lex_whitespace(&mut self) -> (r: LexState)
        requires
            old(self).wf(),
        ensures
            final(self).wf(),
            (final(self)@, Some(r)) == lex_step(old(self)@, LexState::Whitespace),
    {
        loop
            invariant
                self.wf(),
                ws_scan(self@) == ws_scan(old(self)@),
            decreases self.input@.len() - self.position,
        {
            match self.next_char() {
                None => {
                    return LexState::Eof;
                },
                Some(c) => {
                    if !is_whitespace_char(c) {
                        self.backup();
                        return LexState::Condition;
                    } else {
                        self.ignore();
                    }
                },
            }
        }
    }

    /// Lex aggregation (currently unsupported)
    pub fn lex_aggregation(&mut self)
        requires
            old(self).wf(),
        ensures
            final(self).wf(),
            final(self)@ == lex_step(old(self)@, LexState::Aggregation).0,
    {
        self.position = self.input.len();
        self.emit(Token::Unsupported);
        self.emit(Token::LitEof);
    }

    /// Process the current state and return the next state
    fn process_state(&mut self, state: LexState) -> (r: Option<LexState>)
        requires
            old(self).wf(),
            lex_state_ok(old(self)@, state),
        ensures
            final(self).wf(),
            (final(self)@, r) == lex_step(old(self)@, state),
    {
        match state {
            LexState::Condition => Some(self.lex_condition()),
            LexState::OneOf => Some(self.lex_one_of()),
            LexState::AllOf => Some(self.lex_all_of()),
            LexState::Eof => {
                self.lex_eof();
                None
            },
            LexState::Pipe => Some(self.lex_pipe()),
            LexState::Lpar => Some(self.lex_lpar()),
            LexState::Rpar => Some(self.lex_rpar()),
            LexState::RparWithTokens => Some(self.lex_rpar_with_tokens()),
            LexState::AccumulateBeforeWhitespace => Some(self.lex_accumulate_before_whitespace()),
            LexState::Whitespace => Some(self.lex_whitespace()),
            LexState::Aggregation => {
                self.lex_aggregation();
                None
            },
        }
    }

    /// Scans the whole input and returns the tokens in order.
    pub fn scan(self) -> (r: Vec<Item>)
        requires
            self.wf(),
            self@ == initial_model(self@.input),
        ensures
            items_view(r@) == lex_spec(self@.input),
    {
        let mut lexer = self;
        let ghost input = lexer@.input;
        let ghost mut fuel: nat = (4 * input.len() + 8) as nat;
        let mut state = Some(LexState::Condition);
        assert(lex_measure(lexer@, LexState::Condition) < fuel);
        while state.is_some()
            invariant
                lexer.wf(),
                lexer@.input == input,
                lex_run(lexer@, state, fuel) == lex_spec(input),
                state matches Some(s) ==> lex_state_ok(lexer@, s) && lex_measure(lexer@, s)
                    < fuel,
            decreases
                match state {
                    Some(s) => lex_measure(lexer@, s) + 1,
                    None => 0,
                },
        {
            let s = state.unwrap();
            proof {
                lemma_lex_step(lexer@, s);
            }
            let ghost before = lexer@;
            let next = lexer.process_state(s);
            proof {
                fuel = (fuel - 1) as nat;
            }
            state = next;
        }
        lexer.items
    }
}

/// Splits a condition into its tokens.
pub fn lex(input: &str) -> (r: Vec<Item>)
    requires
        input@.len() + 8 <= usize::MAX,
    ensures
        items_view(r@) == lex_spec(input@),
{
    let l = Lexer::new(input);
    l.scan()
}

} // verus!
