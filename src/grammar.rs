//! The compilation rules, stated over the source bytes: what each parsing
//! step reads and what it writes into the chunk, from a parser state.
use vstd::prelude::*;

use crate::chunk::{backward_distance, forward_distance, lines_with, with_operand, MAX_INDEX};
use crate::compiler::{in_scope, resolve, LocalVarResolution};
use crate::error::{CompilationErrorReason, InterpretError};
use crate::opcode::{op_byte, OpCode};
use crate::parser::{infix_precedence, ASSIGNMENT};
use crate::tokenizer::{scan, Span, TokenKind};
use vstd::utf8::decode_utf8;

verus! {

/// A parser state: the scanner's position and line, the token being looked
/// at, the line of the last token read, the chunk written so far, and the
/// local table.
pub struct ParseState {
    pub pos: int,
    pub tline: int,
    pub current: Option<Span>,
    pub line: int,
    pub code: Seq<u8>,
    pub lits: Seq<Seq<char>>,
    pub strs: Seq<Seq<char>>,
    pub lines: Seq<usize>,
    pub locals: Seq<(Seq<char>, int)>,
    pub depth: int,
}

pub type Parsed = Result<ParseState, InterpretError>;

pub open spec fn failed_with(reason: CompilationErrorReason) -> InterpretError {
    InterpretError::CompileError(reason)
}

pub open spec fn message(text: &'static str) -> InterpretError {
    InterpretError::CompileError(CompilationErrorReason::Message(text))
}

/// What is left to read (see `Parser::measure`).
pub open spec fn measure(b: Seq<u8>, s: ParseState) -> int {
    2 * (b.len() - s.pos) + if s.current is Some {
        1int
    } else {
        0int
    }
}

/// `t` has read more than `s` and stays within the input. Every parsing
/// step that succeeds reads a token, so the rules below never take the
/// branch where this fails.
pub open spec fn smaller(b: Seq<u8>, t: ParseState, s: ParseState) -> bool {
    0 <= t.pos <= b.len() && measure(b, t) < measure(b, s)
}

/// The error of a step that read nothing; never produced.
pub open spec fn stalled() -> InterpretError {
    failed_with(CompilationErrorReason::NotEnoughTokens)
}

/// The text of a token.
pub open spec fn token_text(b: Seq<u8>, sp: Span) -> Seq<char> {
    decode_utf8(b.subrange(sp.1, sp.2))
}

/// The text between the quotes of a string token, if it has them.
pub open spec fn string_contents(b: Seq<u8>, sp: Span) -> Option<Seq<char>> {
    if sp.2 - sp.1 >= 2 && b[sp.1] == 34 && b[sp.2 - 1] == 34 {
        Some(decode_utf8(b.subrange(sp.1 + 1, sp.2 - 1)))
    } else {
        None
    }
}

// ---------------------------------------------------------------------------
// Reading tokens
// ---------------------------------------------------------------------------

pub open spec fn advance(b: Seq<u8>, s: ParseState) -> ParseState {
    let (t, q, l) = scan(b, s.pos, s.tline);
    ParseState {
        pos: q,
        tline: l,
        current: t,
        line: match t {
            Some(sp) => sp.3,
            None => s.line,
        },
        ..s
    }
}

pub open spec fn check(s: ParseState, k: TokenKind) -> bool {
    s.current matches Some(sp) && sp.0 == k
}

/// Reads a token of kind `k`, else fails with `text`.
pub open spec fn expect_advance(b: Seq<u8>, s: ParseState, k: TokenKind, text: &'static str) -> Parsed {
    match s.current {
        None => Err(stalled()),
        Some(sp) => if sp.0 == k {
            Ok(advance(b, s))
        } else {
            Err(message(text))
        },
    }
}

/// Reads a variable name.
pub open spec fn var_name(b: Seq<u8>, s: ParseState) -> Result<(ParseState, Seq<char>), InterpretError> {
    match s.current {
        None => Err(stalled()),
        Some(sp) => if sp.0 == TokenKind::Identifier {
            Ok((advance(b, s), token_text(b, sp)))
        } else {
            Err(message("Expected variable name"))
        },
    }
}

// ---------------------------------------------------------------------------
// Writing code
// ---------------------------------------------------------------------------

pub open spec fn emit(s: ParseState, op: OpCode, line: int) -> ParseState {
    ParseState { code: s.code.push(op_byte(op)), lines: s.lines.push(line as usize), ..s }
}

/// `n` POP instructions.
pub open spec fn emit_pops(s: ParseState, n: nat) -> ParseState {
    ParseState {
        code: s.code + Seq::new(n, |i: int| op_byte(OpCode::Pop)),
        lines: lines_with(s.lines, s.line as usize, n),
        ..s
    }
}

pub open spec fn write_constant(s: ParseState, literal: Seq<char>, line: int) -> Parsed {
    if s.lits.len() > MAX_INDEX {
        Err(failed_with(CompilationErrorReason::TooManyConstants))
    } else {
        Ok(
            ParseState {
                lits: s.lits.push(literal),
                code: with_operand(s.code, OpCode::Constant, s.lits.len() as int),
                lines: lines_with(s.lines, line as usize, 2),
                ..s
            },
        )
    }
}

pub open spec fn write_string(s: ParseState, op: OpCode, text: Seq<char>, line: int) -> Parsed {
    if s.strs.len() > MAX_INDEX {
        Err(failed_with(CompilationErrorReason::TooManyStrings))
    } else {
        Ok(
            ParseState {
                strs: s.strs.push(text),
                code: with_operand(s.code, op, s.strs.len() as int),
                lines: lines_with(s.lines, line as usize, 2),
                ..s
            },
        )
    }
}

pub open spec fn write_local(s: ParseState, op: OpCode, slot: int, line: int) -> ParseState {
    ParseState {
        code: with_operand(s.code, op, slot),
        lines: lines_with(s.lines, line as usize, 2),
        ..s
    }
}

/// A jump with a placeholder distance; its operand stands at the old
/// length plus one.
pub open spec fn emit_jump(s: ParseState, op: OpCode) -> ParseState {
    ParseState {
        code: s.code.push(op_byte(op)).push(0u8).push(0u8),
        lines: lines_with(s.lines, s.line as usize, 3),
        ..s
    }
}

/// Points the jump whose operand stands at `at` to the end of the code.
pub open spec fn patch(s: ParseState, at: int) -> Parsed {
    let d = forward_distance(at, s.code.len() as int);
    if d > u16::MAX {
        Err(InterpretError::JumpTooFar)
    } else {
        Ok(ParseState { code: s.code.update(at, (d / 256) as u8).update(at + 1, (d % 256) as u8), ..s })
    }
}

/// A backward jump to `start`.
pub open spec fn emit_loop(s: ParseState, start: int) -> Parsed {
    let d = backward_distance(s.code.len() as int, start);
    if s.code.len() > usize::MAX - 3 || d > u16::MAX {
        Err(InterpretError::JumpTooFar)
    } else {
        Ok(
            ParseState {
                code: s.code.push(op_byte(OpCode::Loop)).push((d / 256) as u8).push((d % 256) as u8),
                lines: lines_with(s.lines, s.line as usize, 3),
                ..s
            },
        )
    }
}

// ---------------------------------------------------------------------------
// Scopes
// ---------------------------------------------------------------------------

/// How many of the newest locals have depth `d`.
pub open spec fn trailing(locals: Seq<(Seq<char>, int)>, d: int) -> nat
    decreases locals.len(),
{
    if locals.len() == 0 || locals.last().1 != d {
        0
    } else {
        1 + trailing(locals.drop_last(), d)
    }
}

/// The newest locals of depth `d` are those from `k` on, when the ones from
/// `k` on have depth `d` and the older ones a smaller depth.
pub proof fn lemma_trailing(locals: Seq<(Seq<char>, int)>, d: int, k: int)
    requires
        0 <= k <= locals.len(),
        forall|i: int| k <= i < locals.len() ==> #[trigger] locals[i].1 == d,
        forall|i: int| 0 <= i < k ==> #[trigger] locals[i].1 < d,
    ensures
        trailing(locals, d) == locals.len() - k,
    decreases locals.len(),
{
    if locals.len() > k {
        let rest = locals.drop_last();
        assert forall|i: int| k <= i < rest.len() implies #[trigger] rest[i].1 == d by {
            assert(rest[i] == locals[i]);
        }
        assert forall|i: int| 0 <= i < k implies #[trigger] rest[i].1 < d by {
            assert(rest[i] == locals[i]);
        }
        lemma_trailing(rest, d, k);
    } else if locals.len() > 0 {
        assert(locals.last().1 < d);
    }
}

pub open spec fn begin_scope(s: ParseState) -> Parsed {
    if s.depth + 1 >= i32::MAX {
        Err(failed_with(CompilationErrorReason::ScopeOverflow))
    } else {
        Ok(ParseState { depth: s.depth + 1, ..s })
    }
}

/// Leaves the scope: drops its locals and pops them at run time.
pub open spec fn end_scope(s: ParseState) -> Parsed {
    if s.depth < 1 {
        Err(failed_with(CompilationErrorReason::ScopeUnderflow))
    } else {
        let n = trailing(s.locals, s.depth);
        Ok(
            emit_pops(
                ParseState {
                    locals: s.locals.take(s.locals.len() - n),
                    depth: s.depth - 1,
                    ..s
                },
                n,
            ),
        )
    }
}

pub open spec fn add_local(s: ParseState, name: Seq<char>) -> Parsed {
    if in_scope(s.locals, s.depth, name) {
        Err(message("Already a variable with this name in this scope"))
    } else if s.locals.len() > MAX_INDEX {
        Err(failed_with(CompilationErrorReason::TooManyLocals))
    } else {
        Ok(ParseState { locals: s.locals.push((name, s.depth)), ..s })
    }
}

// ---------------------------------------------------------------------------
// Expressions
// ---------------------------------------------------------------------------

/// An expression whose infix operators bind tighter than `prec`.
pub open spec fn expression(b: Seq<u8>, s: ParseState, prec: i32) -> Parsed
    decreases measure(b, s), 6int,
{
    match prefix(b, s, prec) {
        Err(e) => Err(e),
        Ok(s1) => if smaller(b, s1, s) {
            infix(b, s1, prec)
        } else {
            Err(stalled())
        },
    }
}

/// The operand that starts an expression, chosen by its first token.
pub open spec fn prefix(b: Seq<u8>, s: ParseState, prec: i32) -> Parsed
    decreases measure(b, s), 5int,
{
    match s.current {
        None => Err(stalled()),
        Some(sp) => match sp.0 {
            TokenKind::Number => number(b, s),
            TokenKind::String => string_literal(b, s),
            TokenKind::False | TokenKind::True | TokenKind::Nil => literal(b, s),
            TokenKind::LeftParen => grouping(b, s),
            TokenKind::Minus | TokenKind::Bang => unary(b, s),
            TokenKind::Identifier => named_variable(b, s, prec),
            _ => Err(failed_with(CompilationErrorReason::ExpectedPrefix)),
        },
    }
}

/// The token being looked at continues an expression at `prec`.
pub open spec fn continues(s: ParseState, prec: i32) -> bool {
    s.current matches Some(sp) && infix_precedence(sp.0) > prec
}

/// Infix operators and their right operands, while they bind tighter than
/// `prec`.
pub open spec fn infix(b: Seq<u8>, s: ParseState, prec: i32) -> Parsed
    decreases measure(b, s), 5int,
{
    if continues(s, prec) {
        match binary(b, s) {
            Err(e) => Err(e),
            Ok(s1) => if smaller(b, s1, s) {
                infix(b, s1, prec)
            } else {
                Err(stalled())
            },
        }
    } else {
        Ok(s)
    }
}

/// A number literal: a constant.
pub open spec fn number(b: Seq<u8>, s: ParseState) -> Parsed {
    match s.current {
        None => Err(stalled()),
        Some(sp) => write_constant(advance(b, s), token_text(b, sp), s.line),
    }
}

/// A string literal: its text, without quotes, in the string pool.
pub open spec fn string_literal(b: Seq<u8>, s: ParseState) -> Parsed {
    match s.current {
        None => Err(stalled()),
        Some(sp) => match string_contents(b, sp) {
            None => Err(failed_with(CompilationErrorReason::ExpectedPrefix)),
            Some(text) => write_string(advance(b, s), OpCode::String, text, s.line),
        },
    }
}

/// `true`, `false`, `nil`.
pub open spec fn literal(b: Seq<u8>, s: ParseState) -> Parsed {
    match s.current {
        None => Err(stalled()),
        Some(sp) => {
            let op = match sp.0 {
                TokenKind::False => Some(OpCode::False),
                TokenKind::True => Some(OpCode::True),
                TokenKind::Nil => Some(OpCode::Nil),
                _ => None,
            };
            match op {
                None => Err(failed_with(CompilationErrorReason::ExpectedPrefix)),
                Some(op) => Ok(emit(advance(b, s), op, s.line)),
            }
        },
    }
}

/// `( expr )`.
pub open spec fn grouping(b: Seq<u8>, s: ParseState) -> Parsed
    decreases measure(b, s), 4int,
{
    let s1 = advance(b, s);
    if !smaller(b, s1, s) {
        Err(stalled())
    } else {
        match expression(b, s1, 0) {
            Err(e) => Err(e),
            Ok(s2) => if check(s2, TokenKind::RightParen) {
                Ok(advance(b, s2))
            } else {
                Err(failed_with(CompilationErrorReason::ExpectedRightParen))
            },
        }
    }
}

/// `- expr` (NEGATE) and `! expr` (NOT).
pub open spec fn unary(b: Seq<u8>, s: ParseState) -> Parsed
    decreases measure(b, s), 4int,
{
    match s.current {
        None => Err(stalled()),
        Some(sp) => {
            let op = match sp.0 {
                TokenKind::Minus => Some(OpCode::Negate),
                TokenKind::Bang => Some(OpCode::Not),
                _ => None,
            };
            let s1 = advance(b, s);
            match op {
                None => Err(failed_with(CompilationErrorReason::ExpectedPrefix)),
                Some(op) => if !smaller(b, s1, s) {
                    Err(stalled())
                } else {
                    match expression(b, s1, infix_precedence(sp.0)) {
                        Err(e) => Err(e),
                        Ok(s2) => Ok(emit(s2, op, s.line)),
                    }
                },
            }
        },
    }
}

/// A variable: a read, or an assignment where `prec` allows one. A local
/// is found by slot, newest first; any other name is a global.
pub open spec fn named_variable(b: Seq<u8>, s: ParseState, prec: i32) -> Parsed
    decreases measure(b, s), 4int,
{
    match var_name(b, s) {
        Err(e) => Err(e),
        Ok((s1, name)) => {
            let line = s1.line;
            let found = resolve(s1.locals, name);
            if check(s1, TokenKind::Equal) {
                if prec > ASSIGNMENT {
                    Err(message("Invalid assignment target"))
                } else {
                    let s2 = advance(b, s1);
                    if !smaller(b, s2, s) {
                        Err(stalled())
                    } else {
                        match expression(b, s2, 0) {
                            Err(e) => Err(e),
                            Ok(s3) => match found {
                                LocalVarResolution::FoundAt(at) => Ok(
                                    write_local(s3, OpCode::SetLocal, at as int, line),
                                ),
                                LocalVarResolution::NotFound => write_string(
                                    s3,
                                    OpCode::SetGlobal,
                                    name,
                                    line,
                                ),
                            },
                        }
                    }
                }
            } else {
                match found {
                    LocalVarResolution::FoundAt(at) => Ok(write_local(s1, OpCode::GetLocal, at as int, line)),
                    LocalVarResolution::NotFound => write_string(s1, OpCode::GetGlobal, name, line),
                }
            }
        },
    }
}

/// The code of a binary operator: one opcode, or two for `!=`, `>=`, `<=`.
pub open spec fn binary_ops(k: TokenKind) -> Option<(OpCode, Option<OpCode>)> {
    match k {
        TokenKind::Plus => Some((OpCode::Add, None)),
        TokenKind::Minus => Some((OpCode::Subtract, None)),
        TokenKind::Star => Some((OpCode::Multiply, None)),
        TokenKind::Slash => Some((OpCode::Divide, None)),
        TokenKind::EqualEqual => Some((OpCode::Equal, None)),
        TokenKind::BangEqual => Some((OpCode::Equal, Some(OpCode::Not))),
        TokenKind::Greater => Some((OpCode::Greater, None)),
        TokenKind::GreaterEqual => Some((OpCode::Less, Some(OpCode::Not))),
        TokenKind::Less => Some((OpCode::Less, None)),
        TokenKind::LessEqual => Some((OpCode::Greater, Some(OpCode::Not))),
        _ => None,
    }
}

/// An infix operator and its right operand, parsed at the operator's own
/// precedence (so operators of one level associate to the left).
pub open spec fn binary(b: Seq<u8>, s: ParseState) -> Parsed
    decreases measure(b, s), 3int,
{
    match s.current {
        None => Err(stalled()),
        Some(sp) => if sp.0 == TokenKind::And {
            and_rule(b, s)
        } else if sp.0 == TokenKind::Or {
            or_rule(b, s)
        } else {
            match binary_ops(sp.0) {
                None => Err(failed_with(CompilationErrorReason::ExpectedBinaryOperator)),
                Some((first, second)) => {
                    let s1 = advance(b, s);
                    if !smaller(b, s1, s) {
                        Err(stalled())
                    } else {
                        match expression(b, s1, infix_precedence(sp.0)) {
                            Err(e) => Err(e),
                            Ok(s2) => match second {
                                None => Ok(emit(s2, first, s.line)),
                                Some(op) => Ok(emit(emit(s2, first, s.line), op, s.line)),
                            },
                        }
                    }
                },
            }
        },
    }
}

/// `lhs and rhs` after the left operand: JUMP_IF_FALSE over the right
/// operand to a FALSE; the left value is popped on both paths.
pub open spec fn and_rule(b: Seq<u8>, s: ParseState) -> Parsed
    decreases measure(b, s), 2int,
{
    short_circuit(b, s, OpCode::JumpIfFalse, OpCode::False, 40)
}

/// `lhs or rhs` after the left operand: JUMP_IF_TRUE over the right
/// operand to a TRUE; the left value is popped on both paths.
pub open spec fn or_rule(b: Seq<u8>, s: ParseState) -> Parsed
    decreases measure(b, s), 2int,
{
    short_circuit(b, s, OpCode::JumpIfTrue, OpCode::True, 30)
}

pub open spec fn short_circuit(b: Seq<u8>, s: ParseState, jump: OpCode, taken: OpCode, prec: i32) -> Parsed
    decreases measure(b, s), 1int,
{
    let s1 = advance(b, s);
    let to_taken = s1.code.len() + 1int;
    let s2 = emit(emit_jump(s1, jump), OpCode::Pop, s1.line);
    if !smaller(b, s2, s) {
        Err(stalled())
    } else {
        match expression(b, s2, prec) {
            Err(e) => Err(e),
            Ok(s3) => {
                let to_end = s3.code.len() + 1int;
                match patch(emit_jump(s3, OpCode::Jump), to_taken) {
                    Err(e) => Err(e),
                    Ok(s4) => patch(emit(emit(s4, OpCode::Pop, s4.line), taken, s4.line), to_end),
                }
            },
        }
    }
}

// ---------------------------------------------------------------------------
// Statements
// ---------------------------------------------------------------------------

/// A `var` declaration or a statement.
pub open spec fn declaration(b: Seq<u8>, s: ParseState) -> Parsed
    decreases measure(b, s), 9int,
{
    if check(s, TokenKind::Var) {
        var_declaration(b, s)
    } else {
        statement(b, s)
    }
}

/// A statement, by its first token.
pub open spec fn statement(b: Seq<u8>, s: ParseState) -> Parsed
    decreases measure(b, s), 8int,
{
    match s.current {
        None => Err(stalled()),
        Some(sp) => match sp.0 {
            TokenKind::Print => print_statement(b, s),
            TokenKind::LeftBrace => block(b, s),
            TokenKind::If => if_statement(b, s),
            TokenKind::While => while_statement(b, s),
            TokenKind::For => for_statement(b, s),
            TokenKind::Return => return_statement(b, s),
            _ => expression_statement(b, s),
        },
    }
}

/// `print expr ;`: the value, then PRINT.
pub open spec fn print_statement(b: Seq<u8>, s: ParseState) -> Parsed
    decreases measure(b, s), 7int,
{
    let s1 = advance(b, s);
    if !smaller(b, s1, s) {
        Err(stalled())
    } else {
        match expression(b, s1, 0) {
            Err(e) => Err(e),
            Ok(s2) => match expect_advance(b, s2, TokenKind::Semicolon, "Expect ';' after value") {
                Err(e) => Err(e),
                Ok(s3) => Ok(emit(s3, OpCode::Print, s3.line)),
            },
        }
    }
}

/// `expr ;`: the value, then POP. The last expression of the input may
/// omit the `;` and keep its value for the final RETURN.
pub open spec fn expression_statement(b: Seq<u8>, s: ParseState) -> Parsed
    decreases measure(b, s), 7int,
{
    match expression(b, s, 0) {
        Err(e) => Err(e),
        Ok(s1) => if check(s1, TokenKind::Semicolon) {
            let s2 = advance(b, s1);
            Ok(emit(s2, OpCode::Pop, s2.line))
        } else if s1.current is None {
            Ok(s1)
        } else {
            Err(message("Expect ';' after expression"))
        },
    }
}

/// `var NAME (= expr)? ;`: the initial value (NIL when none), then at file
/// scope DEFINE_GLOBAL, in a block a new local whose slot is that value.
pub open spec fn var_declaration(b: Seq<u8>, s: ParseState) -> Parsed
    decreases measure(b, s), 7int,
{
    match var_name(b, advance(b, s)) {
        Err(e) => Err(e),
        Ok((s2, name)) => {
            let value = if check(s2, TokenKind::Equal) {
                let s3 = advance(b, s2);
                if !smaller(b, s3, s) {
                    Err(stalled())
                } else {
                    expression(b, s3, 0)
                }
            } else {
                Ok(emit(s2, OpCode::Nil, s2.line))
            };
            match value {
                Err(e) => Err(e),
                Ok(s4) => match expect_advance(
                    b,
                    s4,
                    TokenKind::Semicolon,
                    "Expect ';' after variable declaration",
                ) {
                    Err(e) => Err(e),
                    Ok(s5) => if s5.depth > 0 {
                        add_local(s5, name)
                    } else {
                        write_string(s5, OpCode::DefineGlobal, name, s5.line)
                    },
                },
            }
        },
    }
}

/// `{ declarations }` in a new scope.
pub open spec fn block(b: Seq<u8>, s: ParseState) -> Parsed
    decreases measure(b, s), 7int,
{
    let s1 = advance(b, s);
    match begin_scope(s1) {
        Err(e) => Err(e),
        Ok(s2) => if !smaller(b, s2, s) {
            Err(stalled())
        } else {
            match block_items(b, s2) {
                Err(e) => Err(e),
                Ok(s3) => match end_scope(s3) {
                    Err(e) => Err(e),
                    Ok(s4) => expect_advance(b, s4, TokenKind::RightBrace, "Expect '}' after block"),
                },
            }
        },
    }
}

/// The declarations of a block, up to its `}` or the end of the input.
pub open spec fn block_items(b: Seq<u8>, s: ParseState) -> Parsed
    decreases measure(b, s), 10int,
{
    if s.current is Some && !check(s, TokenKind::RightBrace) && !check(s, TokenKind::Eof) {
        match declaration(b, s) {
            Err(e) => Err(e),
            Ok(s1) => if smaller(b, s1, s) {
                block_items(b, s1)
            } else {
                Err(stalled())
            },
        }
    } else {
        Ok(s)
    }
}

/// `return ;` (NIL) or `return expr ;`, then RETURN.
pub open spec fn return_statement(b: Seq<u8>, s: ParseState) -> Parsed
    decreases measure(b, s), 7int,
{
    let s1 = advance(b, s);
    let value = if check(s1, TokenKind::Semicolon) {
        Ok(emit(s1, OpCode::Nil, s1.line))
    } else if !smaller(b, s1, s) {
        Err(stalled())
    } else {
        expression(b, s1, 0)
    };
    match value {
        Err(e) => Err(e),
        Ok(s2) => match expect_advance(b, s2, TokenKind::Semicolon, "Expect ';' after return value") {
            Err(e) => Err(e),
            Ok(s3) => Ok(emit(s3, OpCode::Return, s3.line)),
        },
    }
}

/// `if ( cond ) stmt (else stmt)?`: JUMP_IF_FALSE over the then-branch and
/// a JUMP over the else-branch; the condition is popped on both paths.
pub open spec fn if_statement(b: Seq<u8>, s: ParseState) -> Parsed
    decreases measure(b, s), 7int,
{
    match expect_advance(b, advance(b, s), TokenKind::LeftParen, "Expect '(' after if") {
        Err(e) => Err(e),
        Ok(s2) => if !smaller(b, s2, s) {
            Err(stalled())
        } else {
            match expression(b, s2, 0) {
                Err(e) => Err(e),
                Ok(s3) => match expect_advance(
                    b,
                    s3,
                    TokenKind::RightParen,
                    "Expect ')' after if condition",
                ) {
                    Err(e) => Err(e),
                    Ok(s4) => {
                        let to_else = s4.code.len() + 1int;
                        let s5 = emit(emit_jump(s4, OpCode::JumpIfFalse), OpCode::Pop, s4.line);
                        if !smaller(b, s5, s) {
                            Err(stalled())
                        } else {
                            match statement(b, s5) {
                                Err(e) => Err(e),
                                Ok(s6) => {
                                    let to_end = s6.code.len() + 1int;
                                    match patch(emit_jump(s6, OpCode::Jump), to_else) {
                                        Err(e) => Err(e),
                                        Ok(s7) => {
                                            let s8 = emit(s7, OpCode::Pop, s7.line);
                                            if check(s8, TokenKind::Else) {
                                                let s9 = advance(b, s8);
                                                if !smaller(b, s9, s) {
                                                    Err(stalled())
                                                } else {
                                                    match statement(b, s9) {
                                                        Err(e) => Err(e),
                                                        Ok(s10) => patch(s10, to_end),
                                                    }
                                                }
                                            } else {
                                                patch(s8, to_end)
                                            }
                                        },
                                    }
                                },
                            }
                        }
                    },
                },
            }
        },
    }
}

/// `while ( cond ) stmt`: the condition, JUMP_IF_FALSE to the exit, the
/// body, LOOP back to the condition; the condition is popped on both paths.
pub open spec fn while_statement(b: Seq<u8>, s: ParseState) -> Parsed
    decreases measure(b, s), 7int,
{
    let s1 = advance(b, s);
    let start = s1.code.len() as int;
    match expect_advance(b, s1, TokenKind::LeftParen, "Expect '(' after while") {
        Err(e) => Err(e),
        Ok(s2) => if !smaller(b, s2, s) {
            Err(stalled())
        } else {
            match expression(b, s2, 0) {
                Err(e) => Err(e),
                Ok(s3) => match expect_advance(
                    b,
                    s3,
                    TokenKind::RightParen,
                    "Expect ')' after while condition",
                ) {
                    Err(e) => Err(e),
                    Ok(s4) => {
                        let to_exit = s4.code.len() + 1int;
                        let s5 = emit(emit_jump(s4, OpCode::JumpIfFalse), OpCode::Pop, s4.line);
                        if !smaller(b, s5, s) {
                            Err(stalled())
                        } else {
                            match statement(b, s5) {
                                Err(e) => Err(e),
                                Ok(s6) => match emit_loop(s6, start) {
                                    Err(e) => Err(e),
                                    Ok(s7) => match patch(s7, to_exit) {
                                        Err(e) => Err(e),
                                        Ok(s8) => Ok(emit(s8, OpCode::Pop, s8.line)),
                                    },
                                },
                            }
                        }
                    },
                },
            }
        },
    }
}

/// The initializer clause of a `for`.
pub open spec fn for_initializer(b: Seq<u8>, s: ParseState, from: ParseState) -> Parsed
    decreases measure(b, from), 6int,
{
    if !smaller(b, s, from) {
        Err(stalled())
    } else {
        match s.current {
            None => Err(stalled()),
            Some(sp) => match sp.0 {
                TokenKind::Semicolon => Ok(advance(b, s)),
                TokenKind::Var => var_declaration(b, s),
                _ => expression_statement(b, s),
            },
        }
    }
}

/// `for ( init ; cond ; modifier ) stmt` in a scope of its own:
/// the condition (TRUE when absent), JUMP_IF_TRUE to the body, JUMP to the
/// exit, the modifier (its value popped), LOOP to the condition, the body,
/// LOOP to the modifier. The condition is popped on both paths, and the
/// scope's locals at the end.
pub open spec fn for_statement(b: Seq<u8>, s: ParseState) -> Parsed
    decreases measure(b, s), 7int,
{
    match begin_scope(s) {
        Err(e) => Err(e),
        Ok(s1) => match expect_advance(b, advance(b, s1), TokenKind::LeftParen, "Expect '(' after for") {
            Err(e) => Err(e),
            Ok(s3) => match for_initializer(b, s3, s) {
                Err(e) => Err(e),
                Ok(s4) => {
                    let cond = s4.code.len() as int;
                    let c = if check(s4, TokenKind::Semicolon) {
                        Ok(emit(s4, OpCode::True, s4.line))
                    } else if !smaller(b, s4, s) {
                        Err(stalled())
                    } else {
                        expression(b, s4, 0)
                    };
                    match c {
                        Err(e) => Err(e),
                        Ok(s5) => match expect_advance(
                            b,
                            s5,
                            TokenKind::Semicolon,
                            "Expect ';' after condition in for loop",
                        ) {
                            Err(e) => Err(e),
                            Ok(s6) => {
                                let to_body = s6.code.len() + 1int;
                                let s7 = emit_jump(s6, OpCode::JumpIfTrue);
                                let to_exit = s7.code.len() + 1int;
                                let s8 = emit_jump(s7, OpCode::Jump);
                                let modify = s8.code.len() as int;
                                let m = if !check(s8, TokenKind::RightParen) {
                                    if !smaller(b, s8, s) {
                                        Err(stalled())
                                    } else {
                                        match expression(b, s8, 0) {
                                            Err(e) => Err(e),
                                            Ok(t) => Ok(emit(t, OpCode::Pop, t.line)),
                                        }
                                    }
                                } else {
                                    Ok(s8)
                                };
                                match m {
                                    Err(e) => Err(e),
                                    Ok(s9) => for_rest(b, s9, s, cond, to_body, to_exit, modify),
                                }
                            },
                        },
                    }
                },
            },
        },
    }
}

/// The end of a `for`, from its `)` on.
pub open spec fn for_rest(
    b: Seq<u8>,
    s9: ParseState,
    s: ParseState,
    cond: int,
    to_body: int,
    to_exit: int,
    modify: int,
) -> Parsed
    decreases measure(b, s), 6int,
{
    match emit_loop(s9, cond) {
        Err(e) => Err(e),
        Ok(s10) => match expect_advance(b, s10, TokenKind::RightParen, "Expect ')' after for") {
            Err(e) => Err(e),
            Ok(s11) => match patch(s11, to_body) {
                Err(e) => Err(e),
                Ok(s12) => {
                    let s13 = emit(s12, OpCode::Pop, s12.line);
                    if !check(s13, TokenKind::LeftBrace) {
                        if s13.current is None {
                            Err(stalled())
                        } else {
                            Err(message("Expect '{' in for loop"))
                        }
                    } else if !smaller(b, s13, s) {
                        Err(stalled())
                    } else {
                        match statement(b, s13) {
                            Err(e) => Err(e),
                            Ok(s14) => match emit_loop(s14, modify) {
                                Err(e) => Err(e),
                                Ok(s15) => match patch(s15, to_exit) {
                                    Err(e) => Err(e),
                                    Ok(s16) => end_scope(emit(s16, OpCode::Pop, s16.line)),
                                },
                            },
                        }
                    }
                },
            },
        },
    }
}

// ---------------------------------------------------------------------------
// Programs
// ---------------------------------------------------------------------------

/// Declarations up to the end of the input.
pub open spec fn declarations(b: Seq<u8>, s: ParseState) -> Parsed
    decreases measure(b, s),
{
    if s.current is Some {
        match declaration(b, s) {
            Err(e) => Err(e),
            Ok(s1) => if smaller(b, s1, s) {
                declarations(b, s1)
            } else {
                Err(stalled())
            },
        }
    } else {
        Ok(s)
    }
}

/// The state of a new parser on a scanner at `pos`, `tline`.
pub open spec fn start(pos: int, tline: int) -> ParseState {
    ParseState {
        pos,
        tline,
        current: None,
        line: 0,
        code: Seq::empty(),
        lits: Seq::empty(),
        strs: Seq::empty(),
        lines: Seq::empty(),
        locals: Seq::empty(),
        depth: 0,
    }
}

/// Compiling a program: its declarations, then a final RETURN.
pub open spec fn compile(b: Seq<u8>, pos: int, tline: int) -> Parsed {
    let s1 = advance(b, start(pos, tline));
    if !(0 <= s1.pos <= b.len()) {
        Err(stalled())
    } else {
        match declarations(b, s1) {
            Err(e) => Err(e),
            Ok(s2) => if s2.current is Some {
                Err(failed_with(CompilationErrorReason::TooMayTokens))
            } else {
                Ok(emit(s2, OpCode::Return, s2.line))
            },
        }
    }
}

} // verus!
