use rlox::chunk::{Chunk, Jump};
use rlox::compiler::{Compiler, LocalVarResolution};
use rlox::error::{CompilationErrorReason, InterpretError};
use rlox::heap::{OffsetHeap, RcHeap};
use rlox::opcode::{Obj, OpCode};
use rlox::parser::Parser;
use rlox::tokenizer::{Token, TokenKind, Tokenizer};
use rlox::value::{Number, Value};
use rlox::vm::{ArithOp, Step, Vm};

#[derive(Clone, PartialEq, Debug)]
enum Outcome {
    Number(f64),
    Bool(bool),
    Text(String),
    Nil,
}

fn outcome(value: Value) -> Outcome {
    match value {
        Value::Number(n) => Outcome::Number(f64::from_bits(n.bits)),
        Value::Bool(b) => Outcome::Bool(b),
        Value::Object(o) => Outcome::Text(o.as_string().to_string()),
        Value::Nil => Outcome::Nil,
    }
}

fn number(x: f64) -> Number {
    Number { bits: x.to_bits() }
}

/// Runs a chunk to its end; the result and whether the stack was empty.
fn execute(chunk: &Chunk) -> Result<(Outcome, bool), InterpretError> {
    let mut vm = Vm::new(chunk);
    loop {
        match vm.step() {
            Step::Continue | Step::Print(_) => {}
            Step::Arithmetic { op, lhs, rhs } => {
                let (a, b) = (f64::from_bits(lhs.bits), f64::from_bits(rhs.bits));
                let r = match op {
                    ArithOp::Add => a + b,
                    ArithOp::Subtract => a - b,
                    ArithOp::Multiply => a * b,
                    ArithOp::Divide => a / b,
                };
                vm.push_number(number(r));
            }
            Step::Constant(literal) => vm.push_number(number(literal.parse::<f64>().unwrap())),
            Step::Done(v) => return Ok((outcome(v), vm.stack_is_empty())),
            Step::Failed(e) => return Err(e),
        }
    }
}

fn compile(source: &str) -> Result<Chunk, InterpretError> {
    Parser::parse(Tokenizer::new(source))
}

fn run(source: &str) -> Result<Outcome, InterpretError> {
    execute(&compile(source)?).map(|(o, _)| o)
}

fn kinds(source: &str) -> Vec<TokenKind> {
    let mut t = Tokenizer::new(source);
    let mut v = Vec::new();
    while let Some(token) = t.next() {
        v.push(token.kind);
    }
    v
}

fn code_of(chunk: &Chunk) -> Vec<u8> {
    let mut v = Vec::new();
    let mut i = 0;
    while let Some(b) = chunk.read_byte(i) {
        v.push(b);
        i += 1;
    }
    v
}

// Scanner

#[test]
fn scanner_kinds_of_a_statement() {
    assert_eq!(
        kinds("var x = 10; // note\nprint x >= 3;"),
        vec![
            TokenKind::Var,
            TokenKind::Identifier,
            TokenKind::Equal,
            TokenKind::Number,
            TokenKind::Semicolon,
            TokenKind::Print,
            TokenKind::Identifier,
            TokenKind::GreaterEqual,
            TokenKind::Number,
            TokenKind::Semicolon
        ]
    );
}

#[test]
fn reserved_word_needs_a_boundary() {
    assert_eq!(kinds("and"), vec![TokenKind::And]);
    assert_eq!(kinds("andand"), vec![TokenKind::Identifier]);
    assert_eq!(kinds("classes"), vec![TokenKind::Identifier]);
    assert_eq!(kinds("and_x and9"), vec![TokenKind::Identifier, TokenKind::Identifier]);
    assert_eq!(kinds("and(or)"), vec![TokenKind::And, TokenKind::LeftParen, TokenKind::Or, TokenKind::RightParen]);
}

#[test]
fn lines_count_in_comments_and_strings() {
    let mut t = Tokenizer::new("// one\n\"a\nb\" !");
    assert_eq!(t.next(), Some(Token::new(TokenKind::String, "\"a\nb\"", 7, 1)));
    assert_eq!(t.next(), Some(Token::new(TokenKind::Bang, "!", 13, 2)));
    assert_eq!(t.next(), None);
}

#[test]
fn unknown_byte_ends_the_stream() {
    assert_eq!(kinds("1 # 2"), vec![TokenKind::Number]);
}

#[test]
fn empty_source_has_no_tokens() {
    assert_eq!(kinds(""), vec![]);
    assert_eq!(kinds("   \n\t "), vec![]);
}

// Compiler

#[test]
fn precedence_orders_the_code() {
    let c = |op: OpCode| op.to_byte();
    let chunk = compile("10 + 30 * 40").unwrap();
    assert_eq!(
        code_of(&chunk),
        vec![
            c(OpCode::Constant), 0, c(OpCode::Constant), 1, c(OpCode::Constant), 2,
            c(OpCode::Multiply), c(OpCode::Add), c(OpCode::Return)
        ]
    );
    let chunk = compile("(10 + 30) * 40").unwrap();
    assert_eq!(
        code_of(&chunk),
        vec![
            c(OpCode::Constant), 0, c(OpCode::Constant), 1, c(OpCode::Add),
            c(OpCode::Constant), 2, c(OpCode::Multiply), c(OpCode::Return)
        ]
    );
}

#[test]
fn invalid_assignment_target() {
    let r = compile("var a; var b; a * b = 3 + 8;");
    assert_eq!(
        r.err(),
        Some(InterpretError::CompileError(CompilationErrorReason::Message(
            "Invalid assignment target"
        )))
    );
}

#[test]
fn jump_too_far() {
    let body = "true;".repeat(33000);
    let r = compile(&format!("if (false) {{ {} }}", body));
    assert_eq!(r.err(), Some(InterpretError::JumpTooFar));
    let body = "true;".repeat(32000);
    assert!(compile(&format!("if (false) {{ {} }}", body)).is_ok());
}

#[test]
fn disassembly_is_repeatable() {
    let chunk = compile("var x = 0; while (x < 3) { x = x + 1; } print \"done\";").unwrap();
    let first = chunk.disassemble_into_string("again");
    let second = chunk.disassemble_into_string("again");
    assert_eq!(first, second);
    assert!(first.starts_with("\n== again ==\n"));
}

#[test]
fn compile_errors() {
    let reason = |r: Result<Chunk, InterpretError>| match r {
        Err(InterpretError::CompileError(reason)) => reason,
        other => panic!("unexpected {:?}", other.map(|_| ())),
    };
    assert_eq!(reason(compile("print")), CompilationErrorReason::NotEnoughTokens);
    assert_eq!(reason(compile("(1 + 2")), CompilationErrorReason::ExpectedRightParen);
    assert_eq!(reason(compile("+1;")), CompilationErrorReason::ExpectedPrefix);
    assert_eq!(reason(compile("1 ! 2;")), CompilationErrorReason::ExpectedBinaryOperator);
    assert_eq!(
        reason(compile("{ var a; var a; }")),
        CompilationErrorReason::Message("Already a variable with this name in this scope")
    );
    assert_eq!(reason(compile("var 1;")), CompilationErrorReason::Message("Expected variable name"));
    assert_eq!(reason(compile("print 1")), CompilationErrorReason::NotEnoughTokens);
    assert_eq!(reason(compile("1 2")), CompilationErrorReason::Message("Expect ';' after expression"));
}

#[test]
fn pools_hold_256_entries() {
    assert!(compile(&"1;".repeat(256)).is_ok());
    assert_eq!(
        compile(&"1;".repeat(257)).err(),
        Some(InterpretError::CompileError(CompilationErrorReason::TooManyConstants))
    );
    assert_eq!(
        compile(&"\"s\";".repeat(257)).err(),
        Some(InterpretError::CompileError(CompilationErrorReason::TooManyStrings))
    );
    let mut block = String::from("{");
    for i in 0..257 {
        block.push_str(&format!(" var v{} = nil;", i));
    }
    block.push('}');
    assert_eq!(
        compile(&block).err(),
        Some(InterpretError::CompileError(CompilationErrorReason::TooManyLocals))
    );
}

#[test]
fn scope_table() {
    let mut c = Compiler::new();
    assert!(!c.in_local_scope());
    assert_eq!(
        c.end_scope().err(),
        Some(InterpretError::CompileError(CompilationErrorReason::ScopeUnderflow))
    );
    c.begin_scope().unwrap();
    assert_eq!(c.add_local_var("a".to_string()), Ok(0));
    c.begin_scope().unwrap();
    assert_eq!(c.add_local_var("a".to_string()), Ok(1));
    assert_eq!(c.add_local_var("b".to_string()), Ok(2));
    assert_eq!(c.resolve_local_variable("a"), LocalVarResolution::FoundAt(1));
    assert_eq!(c.end_scope(), Ok(2));
    assert_eq!(c.resolve_local_variable("a"), LocalVarResolution::FoundAt(0));
    assert_eq!(c.resolve_local_variable("b"), LocalVarResolution::NotFound);
    assert_eq!(c.end_scope(), Ok(1));
}

// Chunk

#[test]
fn jump_distances() {
    assert_eq!(Jump::forward(3, 10).unwrap().distance, 5);
    assert_eq!(Jump::forward(0, 65537).unwrap().distance, 65535);
    assert!(matches!(Jump::forward(0, 65538), Err(InterpretError::JumpTooFar)));
    assert_eq!(Jump::backward(10, 4).unwrap().distance, 9);
    assert!(matches!(Jump::backward(70000, 0), Err(InterpretError::JumpTooFar)));
    let j = Jump { distance: 0x1234 };
    assert_eq!(j.to_bytes(), (0x12, 0x34));
    assert_eq!(Jump::from_bytes(0x12, 0x34).distance, 0x1234);
}

#[test]
fn opcode_bytes_round_trip() {
    for b in 0..=255u8 {
        match OpCode::from_byte(b) {
            Some(op) => assert_eq!(op.to_byte(), b),
            None => assert!(b >= 26),
        }
    }
    assert_eq!(OpCode::from_byte(OpCode::Loop.to_byte()), Some(OpCode::Loop));
}

#[test]
fn chunk_reads_what_was_written() {
    let mut chunk = Chunk::new();
    chunk.write_constant("42".to_string(), 3).unwrap();
    chunk.write_string("hi".to_string(), 4).unwrap();
    let at = chunk.write_jump(OpCode::Jump, 5).unwrap();
    chunk.write_code(OpCode::Nil, 5);
    chunk.patch_jump(at).unwrap();
    chunk.write_loop(0, 6).unwrap();
    assert_eq!(chunk.read_constant(1).map(|s| s.as_str()), Some("42"));
    assert_eq!(chunk.read_string(3), Some("hi"));
    assert_eq!(chunk.read_jump(at).unwrap().distance, 1);
    assert_eq!(chunk.read_jump(9).unwrap().distance, 11);
    assert_eq!(chunk.line_at(0), 3);
    assert_eq!(chunk.line_at(8), 6);
    assert_eq!(chunk.read_byte(100), None);
}

// Machine

#[test]
fn left_associativity() {
    assert_eq!(run("return 10 - 4 - 1;"), Ok(Outcome::Number(5.0)));
    assert_eq!(run("return 100 / 10 / 2;"), Ok(Outcome::Number(5.0)));
}

#[test]
fn truthiness() {
    assert_eq!(run("return !nil;"), Ok(Outcome::Bool(true)));
    assert_eq!(run("return !0;"), Ok(Outcome::Bool(true)));
    assert_eq!(run("return !1;"), Ok(Outcome::Bool(false)));
    assert_eq!(run("return !false;"), Ok(Outcome::Bool(true)));
    assert_eq!(run("return !!false;"), Ok(Outcome::Bool(false)));
    assert_eq!(run("return !\"text\";"), Ok(Outcome::Bool(false)));
}

#[test]
fn equality_across_types() {
    assert_eq!(run("return true == 1;"), Ok(Outcome::Bool(false)));
    assert_eq!(run("return nil == nil;"), Ok(Outcome::Bool(true)));
    assert_eq!(run("return nil == false;"), Ok(Outcome::Bool(false)));
    assert_eq!(run("return \"1\" == 1;"), Ok(Outcome::Bool(false)));
}

#[test]
fn string_semantics() {
    assert_eq!(run("return \"ok\" == \"ok\";"), Ok(Outcome::Bool(true)));
    assert_eq!(run("return \"hello \" + \"world\";"), Ok(Outcome::Text("hello world".to_string())));
    assert_eq!(
        run("return \"a\" + 1;"),
        Err(InterpretError::RuntimeErrorWithReason("Operands must be numbers"))
    );
}

#[test]
fn scope_discipline() {
    let chunk = compile("var z; { var x; var y; x = 10; y = 20; z = x + y; } return z;").unwrap();
    assert_eq!(execute(&chunk), Ok((Outcome::Number(30.0), true)));
}

#[test]
fn control_flow() {
    assert_eq!(
        run("var x=0; var y=3; while (y>0) { y=y-1; x=x+1; } return x;"),
        Ok(Outcome::Number(3.0))
    );
    assert_eq!(
        run("var x=0; for (var i=0; i<10; i=i+1) { x=x+1; } return x;"),
        Ok(Outcome::Number(10.0))
    );
    assert_eq!(
        run("var x=0; for (;;) { x=x+1; if (x>=10) return x; } return x;"),
        Ok(Outcome::Number(10.0))
    );
}

#[test]
fn short_circuit() {
    assert_eq!(
        run("return -\"side effect\";"),
        Err(InterpretError::RuntimeErrorWithReason("Negation works on numbers only"))
    );
    assert_eq!(run("return false and -\"side effect\";"), Ok(Outcome::Bool(false)));
    assert_eq!(run("return true or -\"side effect\";"), Ok(Outcome::Bool(true)));
    assert_eq!(run("return true and 7;"), Ok(Outcome::Number(7.0)));
    assert_eq!(run("return nil or 7;"), Ok(Outcome::Number(7.0)));
}

#[test]
fn end_to_end_scenarios() {
    assert_eq!(run("return 10 + 30 * 2;"), Ok(Outcome::Number(70.0)));
    assert_eq!(run("return !(5 - 4 > 3 * 2 == !nil);"), Ok(Outcome::Bool(true)));
    assert_eq!(
        run("var s = \"hi \"; return s + \"there\";"),
        Ok(Outcome::Text("hi there".to_string()))
    );
    assert_eq!(
        run("var z=2; if (false) { z = 100; } else { z = 8; } return z;"),
        Ok(Outcome::Number(8.0))
    );
    assert_eq!(
        run("var x=0; for (var i=0; i<5; i=i+1) { x = x + i; } return x;"),
        Ok(Outcome::Number(10.0))
    );
    assert_eq!(run("var a=true; var b=false; return a and b or a;"), Ok(Outcome::Bool(true)));
}

#[test]
fn runtime_errors() {
    assert_eq!(
        run("x = 1;"),
        Err(InterpretError::RuntimeErrorWithReason("Global is not defined"))
    );
    assert_eq!(run("print 1;"), Err(InterpretError::StackUnderflowError));
    assert_eq!(
        run("return 1 < \"a\";"),
        Err(InterpretError::RuntimeErrorWithReason("Operands must be numbers"))
    );
    let mut chunk = Chunk::new();
    chunk.write_code(OpCode::Constant, 0);
    assert_eq!(execute(&chunk), Err(InterpretError::RuntimeError));
    let mut chunk = Chunk::new();
    chunk.write_set_local_var(3, 0);
    assert_eq!(execute(&chunk), Err(InterpretError::StackUnderflowError));
    let mut chunk = Chunk::new();
    chunk.write_code(OpCode::Nil, 0);
    chunk.write_get_local_var(3, 0);
    assert_eq!(
        execute(&chunk),
        Err(InterpretError::RuntimeErrorWithReason("Local variable value could not be found"))
    );
}

#[test]
fn numbers_compare_as_binary64() {
    let zero = number(0.0);
    let minus_zero = number(-0.0);
    let nan = number(f64::NAN);
    assert!(zero.equals(minus_zero));
    assert!(!nan.equals(nan));
    assert!(!nan.less_than(zero) && !zero.less_than(nan));
    assert!(number(-2.0).less_than(number(-1.0)));
    assert!(number(-1.0).less_than(number(0.5)));
    assert!(!zero.less_than(minus_zero));
    assert!(!zero.is_truthy() && !minus_zero.is_truthy() && nan.is_truthy());
    assert_eq!(f64::from_bits(number(2.5).negate().bits), -2.5);
}

#[test]
fn printed_values_are_handed_out() {
    let chunk = compile("print 1 + 2; print \"x\"; return nil;").unwrap();
    let mut vm = Vm::new(&chunk);
    let mut printed = Vec::new();
    loop {
        match vm.step() {
            Step::Print(v) => printed.push(outcome(v)),
            Step::Constant(literal) => vm.push_number(number(literal.parse::<f64>().unwrap())),
            Step::Arithmetic { op: ArithOp::Add, lhs, rhs } => {
                vm.push_number(number(f64::from_bits(lhs.bits) + f64::from_bits(rhs.bits)))
            }
            Step::Done(_) => break,
            Step::Continue => {}
            other => panic!("unexpected {:?}", other),
        }
    }
    assert_eq!(printed, vec![Outcome::Number(3.0), Outcome::Text("x".to_string())]);
}

#[test]
fn heaps() {
    let mut h = OffsetHeap::new();
    let a = h.allocate(Obj::String { str: "a".to_string() });
    let b = h.allocate(Obj::String { str: "b".to_string() });
    assert_eq!((a, b, h.size()), (0, 1, 2));
    assert_eq!(h.get(1).map(|o| o.as_string()), Some("b"));
    h.free_all();
    assert_eq!(h.size(), 0);
    let mut r = RcHeap::new();
    let o = r.allocate(Obj::String { str: "c".to_string() });
    assert_eq!(o.as_string(), "c");
    assert_eq!(r.size(), 1);
    r.free_all();
    assert_eq!(r.size(), 0);
    assert_eq!(o.as_string(), "c");
}

#[test]
fn run_stops_at_the_first_outcome() {
    let chunk = compile("return 1 + 2;").unwrap();
    let mut vm = Vm::new(&chunk);
    assert!(matches!(vm.run(0), Step::Continue));
    match vm.run(100) {
        Step::Constant(literal) => assert_eq!(literal, "1"),
        other => panic!("unexpected {:?}", other),
    }
    vm.push_number(number(1.0));
    match vm.run(100) {
        Step::Constant(literal) => assert_eq!(literal, "2"),
        other => panic!("unexpected {:?}", other),
    }
    vm.push_number(number(2.0));
    match vm.run(100) {
        Step::Arithmetic { op: ArithOp::Add, lhs, rhs } => {
            assert_eq!((f64::from_bits(lhs.bits), f64::from_bits(rhs.bits)), (1.0, 2.0))
        }
        other => panic!("unexpected {:?}", other),
    }
    vm.push_number(number(3.0));
    match vm.run(100) {
        Step::Done(v) => assert_eq!(outcome(v), Outcome::Number(3.0)),
        other => panic!("unexpected {:?}", other),
    }
    let endless = compile("while (true) { }").unwrap();
    let mut vm = Vm::new(&endless);
    assert!(matches!(vm.run(50), Step::Continue));
}
