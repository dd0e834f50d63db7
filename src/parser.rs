//! The single-pass compiler: a Pratt parser that emits bytecode into a
//! chunk as it reads tokens, tracking block scopes and patching jumps.
use vstd::prelude::*;
use vstd::string::StringSliceAdditionalSpecFns;

use crate::chunk::{lines_with, Chunk, MAX_INDEX};
use crate::compiler::{Compiler, LocalVarResolution};
use crate::error::{CompilationErrorReason, InterpretError};
use crate::opcode::{op_byte, OpCode};
use crate::grammar::{self, ParseState, Parsed};
use crate::tokenizer::{
    lemma_ascii_boundaries, lemma_scan_progress, lemma_str_valid, substring, Span, Token, TokenKind,
    Tokenizer,
};
use vstd::utf8::encode_utf8_decode_utf8;

verus! {

/// The binding power of a token in infix position (higher binds tighter);
/// 0 for a token that continues no expression.
pub open spec fn infix_precedence(kind: TokenKind) -> i32 {
    match kind {
        TokenKind::Equal => 10,
        TokenKind::Or => 30,
        TokenKind::And => 40,
        TokenKind::EqualEqual | TokenKind::BangEqual => 50,
        TokenKind::Less | TokenKind::Greater | TokenKind::LessEqual | TokenKind::GreaterEqual => 60,
        TokenKind::Minus | TokenKind::Plus => 70,
        TokenKind::Star | TokenKind::Slash => 80,
        TokenKind::Bang => 90,
        _ => 0,
    }
}

/// The precedence of assignment.
pub const ASSIGNMENT: i32 = 10;

/// The text between the quotes of a string literal.
pub fn literal_text(s: &str) -> (r: Option<&str>)
    ensures
        r.is_some() ==> r.unwrap().spec_bytes() == s.spec_bytes().subrange(
            1,
            s.spec_bytes().len() - 1,
        ),
        r.is_some() == (s.spec_bytes().len() >= 2 && s.spec_bytes()[0] == 34
            && s.spec_bytes()[s.spec_bytes().len() - 1] == 34),
{
    let b = s.as_bytes();
    let n = b.len();
    if n < 2 || b[0] != 34 || b[n - 1] != 34 {
        return None;
    }
    proof {
        lemma_str_valid(s);
        lemma_ascii_boundaries(b@, 0);
        lemma_ascii_boundaries(b@, n - 1);
    }
    substring(s, 1, n - 1)
}

/// The span of a token: kind, first byte, end, line.
pub open spec fn span_of<'a>(t: Token<'a>) -> Span {
    (t.kind, t.offset as int, t.offset + t.source.spec_bytes().len(), t.line as int)
}

/// Reads tokens and writes the chunk. `current` is the token being looked
/// at; `line` is the line of the last token read.
#[derive(Debug)]
pub struct Parser<'a> {
    tokenizer: Tokenizer<'a>,
    compiler: Compiler,
    chunk: Chunk,
    current: Option<Token<'a>>,
    line: usize,
}

impl<'a> Parser<'a> {
    pub closed spec fn wf(&self) -> bool {
        &&& self.tokenizer.wf()
        &&& self.tokenizer.pos() <= self.tokenizer.bytes().len()
        &&& self.compiler.wf()
        &&& self.chunk.wf()
        &&& self.current matches Some(t) ==> t.offset + t.source.spec_bytes().len()
            <= self.tokenizer.bytes().len() && t.source.spec_bytes() == self.tokenizer.bytes().subrange(
            t.offset as int,
            t.offset + t.source.spec_bytes().len(),
        )
    }

    /// What is left to read: twice the bytes after the scanner, plus one for
    /// a token being looked at. Each token read makes it smaller.
    pub open spec fn measure(&self) -> int {
        grammar::measure(self.source(), self.state())
    }

    /// The parser as a `ParseState`.
    pub closed spec fn state(&self) -> ParseState {
        ParseState {
            pos: self.tokenizer.pos(),
            tline: self.tokenizer.at_line(),
            current: match self.current {
                Some(t) => Some(span_of(t)),
                None => None,
            },
            line: self.line as int,
            code: self.chunk.code(),
            lits: self.chunk.constants(),
            strs: self.chunk.strings(),
            lines: self.chunk.lines(),
            locals: self.compiler.locals(),
            depth: self.compiler.depth(),
        }
    }

    /// The step ended as `rule` says: with its state, or with its error.
    pub open spec fn follows(&self, r: Result<(), InterpretError>, rule: Parsed) -> bool {
        match rule {
            Ok(t) => r is Ok && self.state() == t,
            Err(e) => r == Err::<(), InterpretError>(e),
        }
    }

    pub closed spec fn source(&self) -> Seq<u8> {
        self.tokenizer.bytes()
    }

    pub open spec fn has_current(&self) -> bool {
        self.state().current is Some
    }

    pub open spec fn current_kind(&self) -> TokenKind {
        self.state().current->Some_0.0
    }

    pub open spec fn code(&self) -> Seq<u8> {
        self.state().code
    }

    pub open spec fn depth(&self) -> int {
        self.state().depth
    }

    /// The state that every parsing step keeps: well-formed, on the same
    /// source, with no code taken away and nothing more left to read.
    pub open spec fn kept(&self, before: &Self) -> bool {
        &&& self.wf()
        &&& self.source() == before.source()
        &&& self.code().len() >= before.code().len()
        &&& self.measure() <= before.measure()
    }

    /// As `kept`, and at least one token was read.
    pub open spec fn moved(&self, before: &Self) -> bool {
        &&& self.kept(before)
        &&& self.measure() < before.measure()
    }

    pub fn new(tokenizer: Tokenizer<'a>) -> (r: Self)
        requires
            tokenizer.wf(),
            tokenizer.pos() <= tokenizer.bytes().len(),
        ensures
            r.wf(),
            r.source() == tokenizer.bytes(),
            !r.has_current(),
            r.code() == Seq::<u8>::empty(),
            r.depth() == 0,
            r.state() == grammar::start(tokenizer.pos(), tokenizer.at_line()),
    {
        Self {
            tokenizer,
            compiler: Compiler::new(),
            chunk: Chunk::new(),
            current: None,
            line: 0,
        }
    }

    /// Compiles a whole program: its declarations, then a final RETURN.
    /// The chunk, or the first error, is the one `grammar::compile` gives;
    /// a chunk has one line per code byte and ends in RETURN.
    #[verifier::rlimit(100)]
    #[verifier::spinoff_prover]
    pub fn parse(tokenizer: Tokenizer<'a>) -> (r: Result<Chunk, InterpretError>)
        requires
            tokenizer.wf(),
            tokenizer.pos() <= tokenizer.bytes().len(),
        ensures
            r is Ok ==> r->Ok_0.wf() && r->Ok_0.code().len() > 0 && r->Ok_0.code().last()
                == op_byte(OpCode::Return),
            match grammar::compile(tokenizer.bytes(), tokenizer.pos(), tokenizer.at_line()) {
                Ok(t) => r is Ok && r->Ok_0.code() == t.code && r->Ok_0.constants() == t.lits
                    && r->Ok_0.strings() == t.strs && r->Ok_0.lines() == t.lines,
                Err(e) => r == Err::<Chunk, InterpretError>(e),
            },
    {
        let ghost b = tokenizer.bytes();
        let ghost start = grammar::start(tokenizer.pos(), tokenizer.at_line());
        let mut it = Parser::new(tokenizer);
        assert(it.state() == start);
        it.advance();
        let ghost s1 = it.state();
        proof {
            it.tokenizer.lemma_wf();
        }
        assert(s1 == grammar::advance(b, start));
        assert(0 <= s1.pos <= b.len());
        it.parse_declarations()?;
        let ghost s2 = it.state();
        assert(grammar::declarations(b, s1) == Ok::<ParseState, InterpretError>(s2));
        it.expect_done()?;
        it.end()?;
        Ok(it.chunk)
    }

    /// The token being looked at; fails at the end of the input.
    pub fn current(&self) -> (r: Result<&Token<'a>, InterpretError>)
        ensures
            self.has_current() ==> r is Ok && r->Ok_0.kind == self.current_kind() && *r->Ok_0
                == self.current_token(),
            !self.has_current() ==> r == Err::<&Token<'a>, InterpretError>(
                InterpretError::CompileError(CompilationErrorReason::NotEnoughTokens),
            ),
    {
        match &self.current {
            Some(t) => Ok(t),
            None => Err(InterpretError::CompileError(CompilationErrorReason::NotEnoughTokens)),
        }
    }

    /// The token being looked at.
    pub closed spec fn current_token(&self) -> Token<'a> {
        self.current->Some_0
    }

    /// The kind of the token being looked at; fails at the end of the input.
    fn kind(&self) -> (r: Result<TokenKind, InterpretError>)
        ensures
            self.has_current() ==> r == Ok::<TokenKind, InterpretError>(self.current_kind()),
            !self.has_current() ==> r == Err::<TokenKind, InterpretError>(
                InterpretError::CompileError(CompilationErrorReason::NotEnoughTokens),
            ),
    {
        match &self.current {
            Some(t) => Ok(t.kind),
            None => Err(InterpretError::CompileError(CompilationErrorReason::NotEnoughTokens)),
        }
    }

    /// Whether the token being looked at has kind `kind`.
    fn check(&self, kind: TokenKind) -> (r: bool)
        ensures
            r == (self.has_current() && self.current_kind() == kind),
    {
        match &self.current {
            Some(t) => t.kind == kind,
            None => false,
        }
    }

    /// Succeeds when every token has been read.
    fn expect_done(&self) -> (r: Result<(), InterpretError>)
        ensures
            r is Ok == !self.has_current(),
            r is Err ==> r == Err::<(), InterpretError>(
                InterpretError::CompileError(CompilationErrorReason::TooMayTokens),
            ),
    {
        if self.current.is_none() {
            Ok(())
        } else {
            Err(InterpretError::CompileError(CompilationErrorReason::TooMayTokens))
        }
    }

    /// Succeeds when the token being looked at has kind `expected`.
    fn expect(&self, expected: TokenKind, error: &'static str) -> (r: Result<(), InterpretError>)
        ensures
            r is Ok == (self.has_current() && self.current_kind() == expected),
            !self.has_current() ==> r == Err::<(), InterpretError>(grammar::stalled()),
            self.has_current() && self.current_kind() != expected ==> r == Err::<(), InterpretError>(
                grammar::message(error),
            ),
    {
        if self.kind()? == expected {
            Ok(())
        } else {
            Err(InterpretError::CompileError(CompilationErrorReason::Message(error)))
        }
    }

    /// Reads the next token.
    fn advance(&mut self)
        requires
            old(self).wf(),
        ensures
            final(self).kept(old(self)),
            final(self).code() == old(self).code(),
            final(self).depth() == old(self).depth(),
            old(self).has_current() ==> final(self).measure() < old(self).measure(),
            final(self).state() == grammar::advance(old(self).source(), old(self).state()),
    {
        proof {
            self.tokenizer.lemma_wf();
            lemma_scan_progress(self.tokenizer.bytes(), self.tokenizer.pos(), self.tokenizer.at_line());
        }
        self.current = self.tokenizer.next();
        if let Some(token) = &self.current {
            self.line = token.line;
        }
    }

    /// Reads the token being looked at when it has kind `token`, else fails
    /// with `error`.
    fn expect_advance(&mut self, token: TokenKind, error: &'static str) -> (r: Result<
        (),
        InterpretError,
    >)
        requires
            old(self).wf(),
        ensures
            final(self).kept(old(self)),
            final(self).code() == old(self).code(),
            final(self).depth() == old(self).depth(),
            r is Ok == (old(self).has_current() && old(self).current_kind() == token),
            r is Ok ==> final(self).measure() < old(self).measure(),
            final(self).follows(r, grammar::expect_advance(old(self).source(), old(self).state(), token, error)),
    {
        if self.kind()? == token {
            self.advance();
            Ok(())
        } else {
            Err(InterpretError::CompileError(CompilationErrorReason::Message(error)))
        }
    }

    /// The binding power of `token` in infix position.
    pub fn precedence(&self, token: TokenKind) -> (r: i32)
        ensures
            r == infix_precedence(token),
    {
        match token {
            TokenKind::Equal => 10,
            TokenKind::Or => 30,
            TokenKind::And => 40,
            TokenKind::EqualEqual | TokenKind::BangEqual => 50,
            TokenKind::Less | TokenKind::Greater | TokenKind::LessEqual | TokenKind::GreaterEqual => 60,
            TokenKind::Minus | TokenKind::Plus => 70,
            TokenKind::Star | TokenKind::Slash => 80,
            TokenKind::Bang => 90,
            _ => 0,
        }
    }

    /// Only the chunk changed.
    pub open spec fn emitted(&self, before: &Self) -> bool {
        &&& self.wf()
        &&& self.source() == before.source()
        &&& self.measure() == before.measure()
        &&& self.depth() == before.depth()
        &&& self.has_current() == before.has_current()
        &&& self.current_kind() == before.current_kind()
    }

    /// The position of the next code byte.
    fn mark_code(&self) -> (r: usize)
        ensures
            r == self.code().len(),
    {
        self.chunk.len()
    }

    fn emit_op_code(&mut self, code: OpCode, line: usize) -> (r: Result<(), InterpretError>)
        requires
            old(self).wf(),
        ensures
            final(self).emitted(old(self)),
            r is Ok,
            final(self).code() == old(self).code().push(op_byte(code)),
            final(self).state() == grammar::emit(old(self).state(), code, line as int),
    {
        self.chunk.write_code(code, line);
        Ok(())
    }

    fn emit_op_codes(&mut self, code1: OpCode, code2: OpCode, line: usize) -> (r: Result<
        (),
        InterpretError,
    >)
        requires
            old(self).wf(),
        ensures
            final(self).emitted(old(self)),
            r is Ok,
            final(self).code() == old(self).code().push(op_byte(code1)).push(op_byte(code2)),
            final(self).state() == grammar::emit(
                grammar::emit(old(self).state(), code1, line as int),
                code2,
                line as int,
            ),
    {
        self.emit_op_code(code1, line)?;
        self.emit_op_code(code2, line)?;
        Ok(())
    }

    fn emit_constant(&mut self, literal: String, line: usize) -> (r: Result<(), InterpretError>)
        requires
            old(self).wf(),
        ensures
            final(self).emitted(old(self)),
            final(self).code().len() >= old(self).code().len(),
            final(self).follows(r, grammar::write_constant(old(self).state(), literal@, line as int)),
    {
        self.chunk.write_constant(literal, line)
    }

    fn emit_string(&mut self, str: String, line: usize) -> (r: Result<(), InterpretError>)
        requires
            old(self).wf(),
        ensures
            final(self).emitted(old(self)),
            final(self).code().len() >= old(self).code().len(),
            final(self).follows(
                r,
                grammar::write_string(old(self).state(), OpCode::String, str@, line as int),
            ),
    {
        self.chunk.write_string(str, line)
    }

    fn emit_define_global_var(&mut self, str: String, line: usize) -> (r: Result<(), InterpretError>)
        requires
            old(self).wf(),
        ensures
            final(self).emitted(old(self)),
            final(self).code().len() >= old(self).code().len(),
            final(self).follows(
                r,
                grammar::write_string(old(self).state(), OpCode::DefineGlobal, str@, line as int),
            ),
    {
        self.chunk.write_define_global_var(str, line)
    }

    fn emit_set_global_var(&mut self, str: String, line: usize) -> (r: Result<(), InterpretError>)
        requires
            old(self).wf(),
        ensures
            final(self).emitted(old(self)),
            final(self).code().len() >= old(self).code().len(),
            final(self).follows(
                r,
                grammar::write_string(old(self).state(), OpCode::SetGlobal, str@, line as int),
            ),
    {
        self.chunk.write_set_global_var(str, line)
    }

    fn emit_get_global_var(&mut self, str: String, line: usize) -> (r: Result<(), InterpretError>)
        requires
            old(self).wf(),
        ensures
            final(self).emitted(old(self)),
            final(self).code().len() >= old(self).code().len(),
            final(self).follows(
                r,
                grammar::write_string(old(self).state(), OpCode::GetGlobal, str@, line as int),
            ),
    {
        self.chunk.write_get_global_var(str, line)
    }

    fn emit_set_local_var(&mut self, at: usize, line: usize) -> (r: Result<(), InterpretError>)
        requires
            old(self).wf(),
            at <= MAX_INDEX,
        ensures
            final(self).emitted(old(self)),
            final(self).code().len() >= old(self).code().len(),
            r is Ok,
            final(self).state() == grammar::write_local(old(self).state(), OpCode::SetLocal, at as int, line as int),
    {
        self.chunk.write_set_local_var(at, line);
        Ok(())
    }

    fn emit_get_local_var(&mut self, at: usize, line: usize) -> (r: Result<(), InterpretError>)
        requires
            old(self).wf(),
            at <= MAX_INDEX,
        ensures
            final(self).emitted(old(self)),
            final(self).code().len() >= old(self).code().len(),
            r is Ok,
            final(self).state() == grammar::write_local(old(self).state(), OpCode::GetLocal, at as int, line as int),
    {
        self.chunk.write_get_local_var(at, line);
        Ok(())
    }

    fn emit_return(&mut self, line: usize) -> (r: Result<(), InterpretError>)
        requires
            old(self).wf(),
        ensures
            final(self).emitted(old(self)),
            r is Ok,
            final(self).code() == old(self).code().push(op_byte(OpCode::Return)),
            final(self).state() == grammar::emit(old(self).state(), OpCode::Return, line as int),
    {
        self.emit_op_code(OpCode::Return, line)
    }

    /// Emits a jump with a placeholder distance; returns where to patch it.
    fn emit_jump(&mut self, op_code: OpCode) -> (r: Result<usize, InterpretError>)
        requires
            old(self).wf(),
        ensures
            final(self).emitted(old(self)),
            r is Ok,
            r->Ok_0 + 2 == final(self).code().len(),
            r->Ok_0 == old(self).code().len() + 1,
            final(self).code().len() == old(self).code().len() + 3,
            final(self).state() == grammar::emit_jump(old(self).state(), op_code),
    {
        self.chunk.write_jump(op_code, self.line)
    }

    /// Points the jump whose distance stands at `offset` to the next code
    /// byte; fails with `JumpTooFar` when the distance needs more than 16 bits.
    fn patch_jump(&mut self, offset: usize) -> (r: Result<(), InterpretError>)
        requires
            old(self).wf(),
            offset + 2 <= old(self).code().len(),
        ensures
            final(self).emitted(old(self)),
            final(self).code().len() == old(self).code().len(),
            final(self).follows(r, grammar::patch(old(self).state(), offset as int)),
    {
        self.chunk.patch_jump(offset)
    }

    /// Emits a backward jump to `loop_start`.
    fn emit_loop(&mut self, loop_start: usize) -> (r: Result<(), InterpretError>)
        requires
            old(self).wf(),
            loop_start <= old(self).code().len(),
        ensures
            final(self).emitted(old(self)),
            final(self).code().len() >= old(self).code().len(),
            final(self).follows(r, grammar::emit_loop(old(self).state(), loop_start as int)),
    {
        if self.chunk.len() > usize::MAX - 3 {
            return Err(InterpretError::JumpTooFar);
        }
        self.chunk.write_loop(loop_start, self.line)
    }

    /// Emits the final RETURN.
    fn end(&mut self) -> (r: Result<(), InterpretError>)
        requires
            old(self).wf(),
        ensures
            final(self).emitted(old(self)),
            r is Ok,
            final(self).code() == old(self).code().push(op_byte(OpCode::Return)),
            final(self).state() == grammar::emit(old(self).state(), OpCode::Return, old(self).state().line),
    {
        self.emit_return(self.line)
    }

    /// Whether the token being looked at continues an expression whose
    /// operators must bind tighter than `precedence`.
    fn continues(&self, precedence: i32) -> (r: bool)
        ensures
            r == (self.has_current() && infix_precedence(self.current_kind()) > precedence),
    {
        match &self.current {
            Some(t) => self.precedence(t.kind) > precedence,
            None => false,
        }
    }

    // -----------------------------------------------------------------------
    // Expressions
    // -----------------------------------------------------------------------

    /// Parses an expression whose infix operators bind tighter than
    /// `precedence`, and emits its code.
    fn parse_expression(&mut self, precedence: i32) -> (r: Result<(), InterpretError>)
        requires
            old(self).wf(),
        ensures
            final(self).kept(old(self)),
            r is Ok ==> final(self).moved(old(self)),
            final(self).follows(r, grammar::expression(old(self).source(), old(self).state(), precedence)),
        decreases old(self).measure(), 6int,
    {
        let ghost b = self.source();
        let ghost s0 = self.state();
        self.parse_prefix(precedence)?;
        proof {
            self.tokenizer.lemma_wf();
            let s1 = self.state();
            assert(grammar::prefix(b, s0, precedence) == Ok::<ParseState, InterpretError>(s1));
            assert(grammar::smaller(b, s1, s0));
            assert(grammar::expression(b, s0, precedence) == grammar::infix(b, s1, precedence));
        }
        while self.continues(precedence)
            invariant
                self.moved(old(self)),
                grammar::infix(self.source(), self.state(), precedence) == grammar::expression(
                    old(self).source(),
                    old(self).state(),
                    precedence,
                ),
            decreases self.measure(),
        {
            self.parse_binary()?;
        }
        Ok(())
    }

    /// The operand that starts an expression, by its first token.
    fn parse_prefix(&mut self, precedence: i32) -> (r: Result<(), InterpretError>)
        requires
            old(self).wf(),
        ensures
            final(self).kept(old(self)),
            r is Ok ==> final(self).moved(old(self)),
            final(self).follows(r, grammar::prefix(old(self).source(), old(self).state(), precedence)),
        decreases old(self).measure(), 5int,
    {
        let kind = self.kind()?;
        match kind {
            TokenKind::Number => self.parse_number(),
            TokenKind::String => self.parse_string(),
            TokenKind::False | TokenKind::True | TokenKind::Nil => self.parse_literal(),
            TokenKind::LeftParen => self.parse_grouping(),
            TokenKind::Minus | TokenKind::Bang => self.parse_unary(),
            TokenKind::Identifier => self.parse_named_variable(precedence),
            _ => Err(InterpretError::CompileError(CompilationErrorReason::ExpectedPrefix)),
        }
    }

    /// A number literal.
    fn parse_number(&mut self) -> (r: Result<(), InterpretError>)
        requires
            old(self).wf(),
            old(self).has_current(),
        ensures
            final(self).kept(old(self)),
            r is Ok ==> final(self).moved(old(self)),
            final(self).follows(r, grammar::number(old(self).source(), old(self).state())),
    {
        let literal = {
            let t = self.current()?;
            proof {
                encode_utf8_decode_utf8(t.source@);
            }
            t.source.to_owned()
        };
        let line = self.line;
        self.advance();
        self.emit_constant(literal, line)
    }

    /// A string literal, without its quotes.
    fn parse_string(&mut self) -> (r: Result<(), InterpretError>)
        requires
            old(self).wf(),
            old(self).has_current(),
        ensures
            final(self).kept(old(self)),
            r is Ok ==> final(self).moved(old(self)),
            final(self).follows(r, grammar::string_literal(old(self).source(), old(self).state())),
    {
        let ghost b = self.source();
        let text = match literal_text(self.current()?.source) {
            Some(t) => {
                proof {
                    let tok = self.current->Some_0;
                    encode_utf8_decode_utf8(t@);
                    assert(t.spec_bytes() =~= b.subrange(
                        tok.offset + 1,
                        tok.offset + tok.source.spec_bytes().len() - 1,
                    ));
                }
                t.to_owned()
            },
            None => {
                return Err(InterpretError::CompileError(CompilationErrorReason::ExpectedPrefix));
            },
        };
        let line = self.line;
        self.advance();
        self.emit_string(text, line)
    }

    /// A variable read, or an assignment when `precedence` allows one.
    fn parse_named_variable(&mut self, precedence: i32) -> (r: Result<(), InterpretError>)
        requires
            old(self).wf(),
            old(self).has_current(),
        ensures
            final(self).kept(old(self)),
            r is Ok ==> final(self).moved(old(self)),
            final(self).follows(r, grammar::named_variable(old(self).source(), old(self).state(), precedence)),
        decreases old(self).measure(), 4int,
    {
        let name = self.parse_var_name()?;
        let line = self.line;
        let resolution = self.compiler.resolve_local_variable(name.as_str());
        proof {
            crate::compiler::lemma_resolve_in_range(self.compiler.locals(), name@);
        }
        let can_assign = precedence <= ASSIGNMENT;
        if self.check(TokenKind::Equal) {
            if !can_assign {
                return Err(
                    InterpretError::CompileError(
                        CompilationErrorReason::Message("Invalid assignment target"),
                    ),
                );
            }
            self.advance();
            self.parse_expression(0)?;
            match resolution {
                LocalVarResolution::FoundAt(at) => self.emit_set_local_var(at, line),
                LocalVarResolution::NotFound => self.emit_set_global_var(name, line),
            }
        } else {
            match resolution {
                LocalVarResolution::FoundAt(at) => self.emit_get_local_var(at, line),
                LocalVarResolution::NotFound => self.emit_get_global_var(name, line),
            }
        }
    }

    /// `( expr )`.
    fn parse_grouping(&mut self) -> (r: Result<(), InterpretError>)
        requires
            old(self).wf(),
            old(self).has_current(),
        ensures
            final(self).kept(old(self)),
            r is Ok ==> final(self).moved(old(self)),
            final(self).follows(r, grammar::grouping(old(self).source(), old(self).state())),
        decreases old(self).measure(), 4int,
    {
        self.advance();
        self.parse_expression(0)?;
        if self.check(TokenKind::RightParen) {
            self.advance();
            Ok(())
        } else {
            Err(InterpretError::CompileError(CompilationErrorReason::ExpectedRightParen))
        }
    }

    /// `- expr` and `! expr`.
    fn parse_unary(&mut self) -> (r: Result<(), InterpretError>)
        requires
            old(self).wf(),
            old(self).has_current(),
        ensures
            final(self).kept(old(self)),
            r is Ok ==> final(self).moved(old(self)),
            final(self).follows(r, grammar::unary(old(self).source(), old(self).state())),
        decreases old(self).measure(), 4int,
    {
        let kind = self.kind()?;
        let line = self.line;
        let op = match kind {
            TokenKind::Minus => OpCode::Negate,
            TokenKind::Bang => OpCode::Not,
            _ => {
                return Err(InterpretError::CompileError(CompilationErrorReason::ExpectedPrefix));
            },
        };
        self.advance();
        self.parse_expression(self.precedence(kind))?;
        self.emit_op_code(op, line)
    }

    /// `true`, `false` and `nil`.
    fn parse_literal(&mut self) -> (r: Result<(), InterpretError>)
        requires
            old(self).wf(),
            old(self).has_current(),
        ensures
            final(self).kept(old(self)),
            r is Ok ==> final(self).moved(old(self)),
            final(self).follows(r, grammar::literal(old(self).source(), old(self).state())),
    {
        let kind = self.kind()?;
        let op = match kind {
            TokenKind::False => OpCode::False,
            TokenKind::True => OpCode::True,
            TokenKind::Nil => OpCode::Nil,
            _ => {
                return Err(InterpretError::CompileError(CompilationErrorReason::ExpectedPrefix));
            },
        };
        let line = self.line;
        self.advance();
        self.emit_op_code(op, line)
    }

    /// An infix operator and its right operand.
    fn parse_binary(&mut self) -> (r: Result<(), InterpretError>)
        requires
            old(self).wf(),
            old(self).has_current(),
        ensures
            final(self).kept(old(self)),
            r is Ok ==> final(self).moved(old(self)),
            final(self).follows(r, grammar::binary(old(self).source(), old(self).state())),
        decreases old(self).measure(), 3int,
    {
        let kind = self.kind()?;
        let line = self.line;
        let (first, second) = match kind {
            TokenKind::Plus => (OpCode::Add, None),
            TokenKind::Minus => (OpCode::Subtract, None),
            TokenKind::Star => (OpCode::Multiply, None),
            TokenKind::Slash => (OpCode::Divide, None),
            TokenKind::EqualEqual => (OpCode::Equal, None),
            TokenKind::BangEqual => (OpCode::Equal, Some(OpCode::Not)),
            TokenKind::Greater => (OpCode::Greater, None),
            TokenKind::GreaterEqual => (OpCode::Less, Some(OpCode::Not)),
            TokenKind::Less => (OpCode::Less, None),
            TokenKind::LessEqual => (OpCode::Greater, Some(OpCode::Not)),
            TokenKind::And => {
                return self.parse_and_expression();
            },
            TokenKind::Or => {
                return self.parse_or_expression();
            },
            _ => {
                return Err(
                    InterpretError::CompileError(CompilationErrorReason::ExpectedBinaryOperator),
                );
            },
        };
        self.advance();
        self.parse_expression(self.precedence(kind))?;
        match second {
            Some(op) => self.emit_op_codes(first, op, line),
            None => self.emit_op_code(first, line),
        }
    }

    /// `lhs and rhs`, with the left operand already emitted: the right one
    /// runs only when the left one is truthy; otherwise the result is false.
    /// The left value is popped on both paths.
    fn parse_and_expression(&mut self) -> (r: Result<(), InterpretError>)
        requires
            old(self).wf(),
            old(self).has_current(),
        ensures
            final(self).kept(old(self)),
            r is Ok ==> final(self).moved(old(self)),
            final(self).follows(r, grammar::and_rule(old(self).source(), old(self).state())),
        decreases old(self).measure(), 2int,
    {
        self.advance();
        let jump_to_false = self.emit_jump(OpCode::JumpIfFalse)?;
        self.emit_op_code(OpCode::Pop, self.line)?;
        self.parse_expression(self.precedence(TokenKind::And))?;
        let jump_to_continue = self.emit_jump(OpCode::Jump)?;
        self.patch_jump(jump_to_false)?;
        self.emit_op_code(OpCode::Pop, self.line)?;
        self.emit_op_code(OpCode::False, self.line)?;
        self.patch_jump(jump_to_continue)
    }

    /// `lhs or rhs`, with the left operand already emitted: the right one
    /// runs only when the left one is not truthy; otherwise the result is
    /// true. The left value is popped on both paths.
    fn parse_or_expression(&mut self) -> (r: Result<(), InterpretError>)
        requires
            old(self).wf(),
            old(self).has_current(),
        ensures
            final(self).kept(old(self)),
            r is Ok ==> final(self).moved(old(self)),
            final(self).follows(r, grammar::or_rule(old(self).source(), old(self).state())),
        decreases old(self).measure(), 2int,
    {
        self.advance();
        let jump_to_true = self.emit_jump(OpCode::JumpIfTrue)?;
        self.emit_op_code(OpCode::Pop, self.line)?;
        self.parse_expression(self.precedence(TokenKind::Or))?;
        let jump_to_continue = self.emit_jump(OpCode::Jump)?;
        self.patch_jump(jump_to_true)?;
        self.emit_op_code(OpCode::Pop, self.line)?;
        self.emit_op_code(OpCode::True, self.line)?;
        self.patch_jump(jump_to_continue)
    }

    /// The identifier being looked at, which is then read.
    fn parse_var_name(&mut self) -> (r: Result<String, InterpretError>)
        requires
            old(self).wf(),
        ensures
            final(self).kept(old(self)),
            final(self).code() == old(self).code(),
            final(self).depth() == old(self).depth(),
            r is Ok ==> final(self).moved(old(self)),
            match grammar::var_name(old(self).source(), old(self).state()) {
                Ok((t, name)) => r is Ok && r->Ok_0@ == name && final(self).state() == t,
                Err(e) => r == Err::<String, InterpretError>(e),
            },
    {
        let it = {
            let t = self.current()?;
            proof {
                encode_utf8_decode_utf8(t.source@);
            }
            if t.kind == TokenKind::Identifier {
                Ok(t.source.to_owned())
            } else {
                Err(
                    InterpretError::CompileError(
                        CompilationErrorReason::Message("Expected variable name"),
                    ),
                )
            }
        };
        self.advance();
        it
    }

    // -----------------------------------------------------------------------
    // Statements and declarations
    // -----------------------------------------------------------------------

    /// A variable declaration or a statement.
    fn parse_declaration(&mut self) -> (r: Result<(), InterpretError>)
        requires
            old(self).wf(),
        ensures
            final(self).kept(old(self)),
            r is Ok ==> final(self).moved(old(self)),
            final(self).follows(r, grammar::declaration(old(self).source(), old(self).state())),
        decreases old(self).measure(), 9int,
    {
        if self.check(TokenKind::Var) {
            self.parse_var_declaration()
        } else {
            self.parse_statement()
        }
    }

    /// A statement, chosen by its first token.
    fn parse_statement(&mut self) -> (r: Result<(), InterpretError>)
        requires
            old(self).wf(),
        ensures
            final(self).kept(old(self)),
            r is Ok ==> final(self).moved(old(self)),
            final(self).follows(r, grammar::statement(old(self).source(), old(self).state())),
        decreases old(self).measure(), 8int,
    {
        match self.kind()? {
            TokenKind::Print => self.parse_print_statement(),
            TokenKind::LeftBrace => self.parse_block(),
            TokenKind::If => self.parse_if_statement(),
            TokenKind::While => self.parse_while_statement(),
            TokenKind::For => self.parse_for_loop(),
            TokenKind::Return => self.parse_return(),
            _ => self.parse_expression_statement(),
        }
    }

    /// `print expr ;`
    fn parse_print_statement(&mut self) -> (r: Result<(), InterpretError>)
        requires
            old(self).wf(),
            old(self).has_current(),
        ensures
            final(self).kept(old(self)),
            r is Ok ==> final(self).moved(old(self)),
            final(self).follows(r, grammar::print_statement(old(self).source(), old(self).state())),
        decreases old(self).measure(), 7int,
    {
        self.advance();
        self.parse_expression(0)?;
        self.expect_advance(TokenKind::Semicolon, "Expect ';' after value")?;
        self.emit_op_code(OpCode::Print, self.line)
    }

    /// `expr ;`, whose value is dropped. A last expression of the program
    /// may omit the `;`: its value stays for the final RETURN.
    fn parse_expression_statement(&mut self) -> (r: Result<(), InterpretError>)
        requires
            old(self).wf(),
        ensures
            final(self).kept(old(self)),
            r is Ok ==> final(self).moved(old(self)),
            final(self).follows(r, grammar::expression_statement(old(self).source(), old(self).state())),
        decreases old(self).measure(), 7int,
    {
        self.parse_expression(0)?;
        if self.check(TokenKind::Semicolon) {
            self.advance();
            self.emit_op_code(OpCode::Pop, self.line)
        } else if self.current.is_none() {
            Ok(())
        } else {
            Err(
                InterpretError::CompileError(
                    CompilationErrorReason::Message("Expect ';' after expression"),
                ),
            )
        }
    }

    /// `var NAME ;` or `var NAME = expr ;`: a global at file scope, else a
    /// local whose slot is the initializer's value.
    #[verifier::rlimit(100)]
    #[verifier::spinoff_prover]
    fn parse_var_declaration(&mut self) -> (r: Result<(), InterpretError>)
        requires
            old(self).wf(),
            old(self).has_current(),
        ensures
            final(self).kept(old(self)),
            r is Ok ==> final(self).moved(old(self)),
            final(self).follows(r, grammar::var_declaration(old(self).source(), old(self).state())),
        decreases old(self).measure(), 7int,
    {
        self.advance();
        let name = self.parse_var_name()?;
        if self.check(TokenKind::Equal) {
            self.advance();
            self.parse_expression(0)?;
        } else {
            self.emit_op_code(OpCode::Nil, self.line)?;
        }
        self.expect_advance(TokenKind::Semicolon, "Expect ';' after variable declaration")?;
        if self.compiler.in_local_scope() {
            self.declare_local_var(name)
        } else {
            self.emit_define_global_var(name, self.line)
        }
    }

    /// `{ declarations }`: a new scope, whose locals are popped at its end.
    #[verifier::rlimit(100)]
    #[verifier::spinoff_prover]
    fn parse_block(&mut self) -> (r: Result<(), InterpretError>)
        requires
            old(self).wf(),
            old(self).has_current(),
        ensures
            final(self).kept(old(self)),
            r is Ok ==> final(self).moved(old(self)),
            final(self).follows(r, grammar::block(old(self).source(), old(self).state())),
        decreases old(self).measure(), 7int,
    {
        self.advance();
        self.open_scope()?;
        self.parse_block_items()?;
        self.close_scope()?;
        self.expect_advance(TokenKind::RightBrace, "Expect '}' after block")
    }

    /// The declarations of a block, up to its `}` or the end of the input.
    fn parse_block_items(&mut self) -> (r: Result<(), InterpretError>)
        requires
            old(self).wf(),
        ensures
            final(self).kept(old(self)),
            final(self).follows(r, grammar::block_items(old(self).source(), old(self).state())),
        decreases old(self).measure(), 10int,
    {
        while self.current.is_some() && !self.check(TokenKind::RightBrace) && !self.check(
            TokenKind::Eof,
        )
            invariant
                self.kept(old(self)),
                grammar::block_items(self.source(), self.state()) == grammar::block_items(
                    old(self).source(),
                    old(self).state(),
                ),
            decreases self.measure(),
        {
            self.parse_declaration()?;
        }
        Ok(())
    }

    /// Declarations up to the end of the input.
    fn parse_declarations(&mut self) -> (r: Result<(), InterpretError>)
        requires
            old(self).wf(),
        ensures
            final(self).kept(old(self)),
            final(self).follows(r, grammar::declarations(old(self).source(), old(self).state())),
    {
        while self.current.is_some()
            invariant
                self.kept(old(self)),
                grammar::declarations(self.source(), self.state()) == grammar::declarations(
                    old(self).source(),
                    old(self).state(),
                ),
            decreases self.measure(),
        {
            self.parse_declaration()?;
        }
        Ok(())
    }

    /// Enters a scope.
    fn open_scope(&mut self) -> (r: Result<(), InterpretError>)
        requires
            old(self).wf(),
        ensures
            final(self).kept(old(self)),
            final(self).measure() == old(self).measure(),
            final(self).follows(r, grammar::begin_scope(old(self).state())),
    {
        self.compiler.begin_scope()
    }

    /// Leaves a scope: drops its locals and emits a POP for each.
    fn close_scope(&mut self) -> (r: Result<(), InterpretError>)
        requires
            old(self).wf(),
        ensures
            final(self).kept(old(self)),
            final(self).measure() == old(self).measure(),
            final(self).follows(r, grammar::end_scope(old(self).state())),
    {
        let ghost locals = self.compiler.locals();
        let ghost depth = self.compiler.depth();
        let n = self.compiler.end_scope()?;
        proof {
            grammar::lemma_trailing(locals, depth, locals.len() - n);
        }
        self.emit_pops(n);
        Ok(())
    }

    /// Emits `n` POP instructions.
    fn emit_pops(&mut self, n: usize)
        requires
            old(self).wf(),
        ensures
            final(self).kept(old(self)),
            final(self).measure() == old(self).measure(),
            final(self).state() == grammar::emit_pops(old(self).state(), n as nat),
    {
        let ghost s0 = self.state();
        let mut i: usize = 0;
        assert(s0.code =~= s0.code + Seq::new(0, |k: int| op_byte(OpCode::Pop)));
        assert(s0.lines =~= lines_with(s0.lines, s0.line as usize, 0));
        while i < n
            invariant
                self.kept(old(self)),
                self.measure() == old(self).measure(),
                s0 == old(self).state(),
                i <= n,
                self.state() == grammar::emit_pops(s0, i as nat),
            decreases n - i,
        {
            let ghost before = self.state();
            self.emit_op_code(OpCode::Pop, self.line);
            assert(self.state().code =~= grammar::emit_pops(s0, (i + 1) as nat).code);
            assert(self.state().lines =~= grammar::emit_pops(s0, (i + 1) as nat).lines);
            i = i + 1;
        }
    }

    /// Adds a local of the current scope.
    fn declare_local_var(&mut self, name: String) -> (r: Result<(), InterpretError>)
        requires
            old(self).wf(),
        ensures
            final(self).kept(old(self)),
            final(self).measure() == old(self).measure(),
            final(self).follows(r, grammar::add_local(old(self).state(), name@)),
    {
        self.compiler.add_local_var(name)?;
        Ok(())
    }

    /// `return ;` or `return expr ;`
    fn parse_return(&mut self) -> (r: Result<(), InterpretError>)
        requires
            old(self).wf(),
            old(self).has_current(),
        ensures
            final(self).kept(old(self)),
            r is Ok ==> final(self).moved(old(self)),
            final(self).follows(r, grammar::return_statement(old(self).source(), old(self).state())),
        decreases old(self).measure(), 7int,
    {
        self.advance();
        if self.check(TokenKind::Semicolon) {
            self.emit_op_code(OpCode::Nil, self.line)?;
        } else {
            self.parse_expression(0)?;
        }
        self.expect_advance(TokenKind::Semicolon, "Expect ';' after return value")?;
        self.emit_op_code(OpCode::Return, self.line)
    }

    /// `if ( cond ) stmt` with an optional `else stmt`. The condition is
    /// popped on both branches, so that stack slots keep matching locals.
    fn parse_if_statement(&mut self) -> (r: Result<(), InterpretError>)
        requires
            old(self).wf(),
            old(self).has_current(),
        ensures
            final(self).kept(old(self)),
            r is Ok ==> final(self).moved(old(self)),
            final(self).follows(r, grammar::if_statement(old(self).source(), old(self).state())),
        decreases old(self).measure(), 7int,
    {
        self.advance();
        self.expect_advance(TokenKind::LeftParen, "Expect '(' after if")?;
        self.parse_expression(0)?;
        self.expect_advance(TokenKind::RightParen, "Expect ')' after if condition")?;
        let jump_to_else = self.emit_jump(OpCode::JumpIfFalse)?;
        self.emit_op_code(OpCode::Pop, self.line)?;
        self.parse_statement()?;
        let jump_to_continue = self.emit_jump(OpCode::Jump)?;
        self.patch_jump(jump_to_else)?;
        self.emit_op_code(OpCode::Pop, self.line)?;
        if self.check(TokenKind::Else) {
            self.advance();
            self.parse_statement()?;
        }
        self.patch_jump(jump_to_continue)
    }

    /// `while ( cond ) stmt`; the condition is popped in the body and at
    /// the exit.
    fn parse_while_statement(&mut self) -> (r: Result<(), InterpretError>)
        requires
            old(self).wf(),
            old(self).has_current(),
        ensures
            final(self).kept(old(self)),
            r is Ok ==> final(self).moved(old(self)),
            final(self).follows(r, grammar::while_statement(old(self).source(), old(self).state())),
        decreases old(self).measure(), 7int,
    {
        self.advance();
        let loop_start = self.mark_code();
        self.expect_advance(TokenKind::LeftParen, "Expect '(' after while")?;
        self.parse_expression(0)?;
        self.expect_advance(TokenKind::RightParen, "Expect ')' after while condition")?;
        let jump_to_exit = self.emit_jump(OpCode::JumpIfFalse)?;
        self.emit_op_code(OpCode::Pop, self.line)?;
        self.parse_statement()?;
        self.emit_loop(loop_start)?;
        self.patch_jump(jump_to_exit)?;
        self.emit_op_code(OpCode::Pop, self.line)
    }

    /// `for ( init ; cond ; modifier ) stmt`, each clause optional, in a
    /// scope of its own. A missing condition is `true`; the condition and
    /// the modifier's value are popped once used.
    #[verifier::rlimit(100)]
    #[verifier::spinoff_prover]
    fn parse_for_loop(&mut self) -> (r: Result<(), InterpretError>)
        requires
            old(self).wf(),
            old(self).has_current(),
        ensures
            final(self).kept(old(self)),
            r is Ok ==> final(self).moved(old(self)),
            final(self).follows(r, grammar::for_statement(old(self).source(), old(self).state())),
        decreases old(self).measure(), 7int,
    {
        let ghost from = self.state();
        self.open_scope()?;
        self.advance();
        self.expect_advance(TokenKind::LeftParen, "Expect '(' after for")?;
        self.parse_for_initializer(Ghost(from))?;
        let to_condition = self.mark_code();
        if self.check(TokenKind::Semicolon) {
            self.emit_op_code(OpCode::True, self.line)?;
        } else {
            self.parse_expression(0)?;
        }
        self.expect_advance(TokenKind::Semicolon, "Expect ';' after condition in for loop")?;
        let to_block = self.emit_jump(OpCode::JumpIfTrue)?;
        let to_exit = self.emit_jump(OpCode::Jump)?;
        let to_modify = self.mark_code();
        if !self.check(TokenKind::RightParen) {
            self.parse_expression(0)?;
            self.emit_op_code(OpCode::Pop, self.line)?;
        }
        self.parse_for_rest(Ghost(from), to_condition, to_block, to_exit, to_modify)
    }

    /// The initializer clause of a `for`; `from` is the state at its `for`.
    fn parse_for_initializer(&mut self, from: Ghost<ParseState>) -> (r: Result<(), InterpretError>)
        requires
            old(self).wf(),
            grammar::smaller(old(self).source(), old(self).state(), from@),
        ensures
            final(self).kept(old(self)),
            final(self).follows(
                r,
                grammar::for_initializer(old(self).source(), old(self).state(), from@),
            ),
        decreases grammar::measure(old(self).source(), from@), 6int,
    {
        match self.kind()? {
            TokenKind::Semicolon => {
                self.advance();
                Ok(())
            },
            TokenKind::Var => self.parse_var_declaration(),
            _ => self.parse_expression_statement(),
        }
    }

    /// The end of a `for`, from its `)` on; `from` is the state at its
    /// `for`, the offsets are those of its condition, its two exit jumps and
    /// its modifier.
    #[verifier::rlimit(100)]
    #[verifier::spinoff_prover]
    fn parse_for_rest(
        &mut self,
        from: Ghost<ParseState>,
        to_condition: usize,
        to_block: usize,
        to_exit: usize,
        to_modify: usize,
    ) -> (r: Result<(), InterpretError>)
        requires
            old(self).wf(),
            grammar::smaller(old(self).source(), old(self).state(), from@),
            to_condition <= old(self).code().len(),
            to_modify <= old(self).code().len(),
            to_block + 2 <= old(self).code().len(),
            to_exit + 2 <= old(self).code().len(),
        ensures
            final(self).kept(old(self)),
            final(self).follows(
                r,
                grammar::for_rest(
                    old(self).source(),
                    old(self).state(),
                    from@,
                    to_condition as int,
                    to_block as int,
                    to_exit as int,
                    to_modify as int,
                ),
            ),
        decreases grammar::measure(old(self).source(), from@), 6int,
    {
        self.emit_loop(to_condition)?;
        self.expect_advance(TokenKind::RightParen, "Expect ')' after for")?;
        self.patch_jump(to_block)?;
        self.emit_op_code(OpCode::Pop, self.line)?;
        self.expect(TokenKind::LeftBrace, "Expect '{' in for loop")?;
        self.parse_statement()?;
        self.emit_loop(to_modify)?;
        self.patch_jump(to_exit)?;
        self.emit_op_code(OpCode::Pop, self.line)?;
        self.close_scope()
    }
}

} // verus!
