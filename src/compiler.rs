use vstd::prelude::*;
use crate::block::{Block, OpCode};
use crate::lexer::{Lexer, LexerError, LexerState, Outcome, Token, next_outcome, next_state, result_is};

verus! {

/// Why compilation stopped.
#[derive(Clone, Debug, PartialEq, Eq)]
pub enum CompileError {
    /// The first lexical error in the source.
    Lexical(LexerError),
    /// A token that the grammar does not allow where it stands, with what was
    /// expected there.
    Unexpected { token: Token, message: String },
}

/// What compiling gives when the next call of the lexer gives `o`. The
/// instruction set holds `Return` alone, so the one program it can express
/// is the empty one, which compiles to a block holding `Return`.
pub open spec fn compiled(r: Result<Block, CompileError>, o: Outcome) -> bool {
    match r {
        Ok(b) => {
            &&& o is End
            &&& b@.code == seq![OpCode::Return.byte()]
            &&& b@.constants.len() == 0
        },
        Err(CompileError::Lexical(e)) => result_is(Err(e), o),
        Err(CompileError::Unexpected { token, .. }) => result_is(Ok(Some(token)), o),
    }
}

/// A lexer with a two-token window: the token just consumed and the one
/// after it.
pub struct Parser {
    lexer: Lexer,
    current: Option<Token>,
    previous: Option<Token>,
}

impl Parser {
    pub closed spec fn wf(&self) -> bool {
        self.lexer.wf()
    }

    /// The state of the lexer underneath.
    pub closed spec fn lexer_state(&self) -> LexerState {
        self.lexer@
    }

    /// The token that comes next.
    pub closed spec fn current(&self) -> Option<Token> {
        self.current
    }

    /// The token just consumed.
    pub closed spec fn previous(&self) -> Option<Token> {
        self.previous
    }

    pub fn new(source: &String) -> (r: Self)
        requires
            source@.len() < u32::MAX,
        ensures
            r.wf(),
            r.lexer_state() == LexerState::start(source@),
            r.current() is None,
            r.previous() is None,
    {
        Parser { lexer: Lexer::new(source), current: None, previous: None }
    }

    /// Shifts the current token into the previous slot and reads the next
    /// one; stops at the first lexical error, with the window unchanged.
    pub fn advance(&mut self) -> (r: Result<(), LexerError>)
        requires
            old(self).wf(),
        ensures
            final(self).wf(),
            final(self).lexer_state() == next_state(old(self).lexer_state()),
            match r {
                Ok(_) => {
                    &&& result_is(Ok(final(self).current()), next_outcome(old(self).lexer_state()))
                    &&& final(self).previous() == old(self).current()
                },
                Err(e) => {
                    &&& result_is(Err(e), next_outcome(old(self).lexer_state()))
                    &&& final(self).current() == old(self).current()
                    &&& final(self).previous() == old(self).previous()
                },
            },
    {
        match self.lexer.get_token() {
            Ok(token) => {
                self.previous = self.current.take();
                self.current = token;
                Ok(())
            },
            Err(e) => Err(e),
        }
    }

    /// Succeeds where no token is left, and otherwise fails on the current
    /// token with `message`.
    fn expect_end(&mut self, message: &str) -> (r: Result<(), CompileError>)
        ensures
            final(self).wf() == old(self).wf(),
            final(self).lexer_state() == old(self).lexer_state(),
            match r {
                Ok(_) => old(self).current() is None,
                Err(CompileError::Unexpected { token, .. }) => old(self).current() == Some(token),
                Err(CompileError::Lexical(_)) => false,
            },
    {
        match self.current.take() {
            None => Ok(()),
            Some(token) => Err(CompileError::Unexpected { token, message: String::from_str(message) }),
        }
    }
}

/// Translates source text into a block in one pass over its tokens.
pub struct Compiler {
    parser: Parser,
}

impl Compiler {
    pub closed spec fn wf(&self) -> bool {
        self.parser.wf()
    }

    /// The state of the lexer underneath.
    pub closed spec fn lexer_state(&self) -> LexerState {
        self.parser.lexer_state()
    }

    pub fn new(source: &String) -> (r: Self)
        requires
            source@.len() < u32::MAX,
        ensures
            r.wf(),
            r.lexer_state() == LexerState::start(source@),
    {
        Compiler { parser: Parser::new(source) }
    }

    /// Compiles the rest of the source: a block ending in `Return`, or the
    /// first error met.
    pub fn compile(&mut self) -> (r: Result<Block, CompileError>)
        requires
            old(self).wf(),
        ensures
            final(self).wf(),
            compiled(r, next_outcome(old(self).lexer_state())),
    {
        let mut block = Block::new();
        match self.parser.advance() {
            Ok(_) => {},
            Err(e) => {
                return Err(CompileError::Lexical(e));
            },
        }
        match self.parser.expect_end("Expected end of input") {
            Ok(_) => {},
            Err(e) => {
                return Err(e);
            },
        }
        block.push(OpCode::Return.to_byte());
        Ok(block)
    }
}

} // verus!
