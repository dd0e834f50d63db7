use rlox::chunk::Chunk;
use rlox::error::{CompilationErrorReason, InterpretError};
use rlox::opcode::OpCode;
use rlox::parser::Parser;
use rlox::tokenizer::Tokenizer;

fn listing(title: &str, lines: &[(usize, &str)]) -> String {
    let mut s = format!("\n== {} ==\n", title);
    for (at, text) in lines {
        s.push_str(&format!("{:8} {:8} | {}\n", at, 0, text));
    }
    s
}

fn compile(source: &str) -> Result<Chunk, InterpretError> {
    Parser::parse(Tokenizer::new(source))
}

#[test]
fn handles_new() {
    println!("{:?}", Parser::new(Tokenizer::new("10+10")))
}

#[test]
fn parse_1() {
    let it = Parser::parse(Tokenizer::new("10 + 30"));

    assert!(it.is_ok());

    let output = it.unwrap().disassemble_into_string("parse 1");
    let expected = listing(
        "parse 1",
        &[
            (0, "Constant 10"),
            (2, "Constant 30"),
            (4, "Add"),
            (5, "Return"),
        ],
    );
    assert_eq!(output, expected);
}

#[test]
fn parse_2() {
    let it = Parser::parse(Tokenizer::new("10 + 30 * 40"));

    assert!(it.is_ok());

    let output = it.unwrap().disassemble_into_string("parse 2");
    let expected = listing(
        "parse 2",
        &[
            (0, "Constant 10"),
            (2, "Constant 30"),
            (4, "Constant 40"),
            (6, "Multiply"),
            (7, "Add"),
            (8, "Return"),
        ],
    );
    assert_eq!(output, expected);
}

#[test]
fn parse_3() {
    let it = Parser::parse(Tokenizer::new("(10 + 30) * 40"));

    assert!(it.is_ok());

    let output = it.unwrap().disassemble_into_string("parse 3");
    let expected = listing(
        "parse 3",
        &[
            (0, "Constant 10"),
            (2, "Constant 30"),
            (4, "Add"),
            (5, "Constant 40"),
            (7, "Multiply"),
            (8, "Return"),
        ],
    );
    assert_eq!(output, expected);
}

#[test]
fn parse_4() {
    let it = Parser::parse(Tokenizer::new("(10 + -30) * 40"));

    assert!(it.is_ok());

    let output = it.unwrap().disassemble_into_string("parse 4");
    let expected = listing(
        "parse 4",
        &[
            (0, "Constant 10"),
            (2, "Constant 30"),
            (4, "Negate"),
            (5, "Add"),
            (6, "Constant 40"),
            (8, "Multiply"),
            (9, "Return"),
        ],
    );
    assert_eq!(output, expected);
}

#[test]
fn parse_5() {
    let it = Parser::parse(Tokenizer::new("\"hello world\""));

    assert!(it.is_ok());

    let output = it.unwrap().disassemble_into_string("parse 5");
    let expected = listing(
        "parse 5",
        &[
            (0, "String \"hello world\""),
            (2, "Return"),
        ],
    );
    assert_eq!(output, expected);
}

#[test]
fn parse_print_statement() {
    let it = Parser::parse(Tokenizer::new("print \"hello world\";"));

    assert!(it.is_ok());

    let output = it.unwrap().disassemble_into_string("parse print statement");
    let expected = listing(
        "parse print statement",
        &[
            (0, "String \"hello world\""),
            (2, "Print"),
            (3, "Return"),
        ],
    );
    assert_eq!(output, expected);
}

#[test]
fn parse_var_declaration_1() {
    let it = Parser::parse(Tokenizer::new("var it = 5 + 3;"));

    assert!(it.is_ok());

    let output = it.unwrap().disassemble_into_string("parse var declaration 1");
    let expected = listing(
        "parse var declaration 1",
        &[
            (0, "Constant 5"),
            (2, "Constant 3"),
            (4, "Add"),
            (5, "Global define \"it\""),
            (7, "Return"),
        ],
    );
    assert_eq!(output, expected);
}

#[test]
fn parse_var_declaration_2() {
    let it = Parser::parse(Tokenizer::new("var it = hello;"));

    assert!(it.is_ok());

    let output = it.unwrap().disassemble_into_string("parse var declaration 2");
    let expected = listing(
        "parse var declaration 2",
        &[
            (0, "Global get \"hello\""),
            (2, "Global define \"it\""),
            (4, "Return"),
        ],
    );
    assert_eq!(output, expected);
}

#[test]
fn parse_var_declaration_3() {
    let it = Parser::parse(Tokenizer::new("var it; it = 3 + 5; print it;"));

    assert!(it.is_ok());

    let output = it.unwrap().disassemble_into_string("parse var declaration 3");
    let expected = listing(
        "parse var declaration 3",
        &[
            (0, "Nil"),
            (1, "Global define \"it\""),
            (3, "Constant 3"),
            (5, "Constant 5"),
            (7, "Add"),
            (8, "Global set \"it\""),
            (10, "Pop"),
            (11, "Global get \"it\""),
            (13, "Print"),
            (14, "Return"),
        ],
    );
    assert_eq!(output, expected);
}

#[test]
fn parse_var_declaration_4() {
    let it = Parser::parse(Tokenizer::new("{ var x = 3; var y = 5; return y; } return 5;"));

    assert!(it.is_ok());

    let output = it.unwrap().disassemble_into_string("parse var declaration 4");
    let expected = listing(
        "parse var declaration 4",
        &[
            (0, "Constant 3"),
            (2, "Constant 5"),
            (4, "Local var get index(1)"),
            (6, "Return"),
            (7, "Pop"),
            (8, "Pop"),
            (9, "Constant 5"),
            (11, "Return"),
            (12, "Return"),
        ],
    );
    assert_eq!(output, expected);
}

#[test]
fn parse_if_statement() {
    let it = Parser::parse(Tokenizer::new("if (true){ var x = 3; var y = 5; return y; } return 5;"));

    assert!(it.is_ok());

    let output = it.unwrap().disassemble_into_string("parse if statement");
    let expected = listing(
        "parse if statement",
        &[
            (0, "True"),
            (1, "If (false) jump to 17"),
            (4, "Pop"),
            (5, "Constant 3"),
            (7, "Constant 5"),
            (9, "Local var get index(1)"),
            (11, "Return"),
            (12, "Pop"),
            (13, "Pop"),
            (14, "Jump to 18"),
            (17, "Pop"),
            (18, "Constant 5"),
            (20, "Return"),
            (21, "Return"),
        ],
    );
    assert_eq!(output, expected);
}

#[test]
fn parse_if_else_statement() {
    let it = Parser::parse(Tokenizer::new("if (true){ var x = 3; var y = 5; return y; } else { return 5; } return 10; "));

    assert!(it.is_ok());

    let output = it.unwrap().disassemble_into_string("parse if else statement");
    let expected = listing(
        "parse if else statement",
        &[
            (0, "True"),
            (1, "If (false) jump to 17"),
            (4, "Pop"),
            (5, "Constant 3"),
            (7, "Constant 5"),
            (9, "Local var get index(1)"),
            (11, "Return"),
            (12, "Pop"),
            (13, "Pop"),
            (14, "Jump to 21"),
            (17, "Pop"),
            (18, "Constant 5"),
            (20, "Return"),
            (21, "Constant 10"),
            (23, "Return"),
            (24, "Return"),
        ],
    );
    assert_eq!(output, expected);
}

#[test]
fn parse_and_expression() {
    let it = Parser::parse(Tokenizer::new("false and true"));

    assert!(it.is_ok());

    let output = it.unwrap().disassemble_into_string("parse and expression");
    let expected = listing(
        "parse and expression",
        &[
            (0, "False"),
            (1, "If (false) jump to 9"),
            (4, "Pop"),
            (5, "True"),
            (6, "Jump to 11"),
            (9, "Pop"),
            (10, "False"),
            (11, "Return"),
        ],
    );
    assert_eq!(output, expected);
}

#[test]
fn parse_or_expression() {
    let it = Parser::parse(Tokenizer::new("false or true"));

    assert!(it.is_ok());

    let output = it.unwrap().disassemble_into_string("parse or expression");
    let expected = listing(
        "parse or expression",
        &[
            (0, "False"),
            (1, "If (true) jump to 9"),
            (4, "Pop"),
            (5, "True"),
            (6, "Jump to 11"),
            (9, "Pop"),
            (10, "True"),
            (11, "Return"),
        ],
    );
    assert_eq!(output, expected);
}

#[test]
fn parse_while_statement() {
    let it = Parser::parse(Tokenizer::new("var z = 10; while (true) { var x = 3; } return 5;"));

    assert!(it.is_ok());

    let output = it.unwrap().disassemble_into_string("parse while statement");
    let expected = listing(
        "parse while statement",
        &[
            (0, "Constant 10"),
            (2, "Global define \"z\""),
            (4, "True"),
            (5, "If (false) jump to 15"),
            (8, "Pop"),
            (9, "Constant 3"),
            (11, "Pop"),
            (12, "Loop back to 4"),
            (15, "Pop"),
            (16, "Constant 5"),
            (18, "Return"),
            (19, "Return"),
        ],
    );
    assert_eq!(output, expected);
}

#[test]
fn parse_while_statement_2() {
    let it = Parser::parse(Tokenizer::new("var x = 0; var y = 3; while (y > 0) { y = y - 1; x = x + 1; } return x;"));

    assert!(it.is_ok());

    let output = it.unwrap().disassemble_into_string("parse while statement 2");
    let expected = listing(
        "parse while statement 2",
        &[
            (0, "Constant 0"),
            (2, "Global define \"x\""),
            (4, "Constant 3"),
            (6, "Global define \"y\""),
            (8, "Global get \"y\""),
            (10, "Constant 0"),
            (12, "Greater"),
            (13, "If (false) jump to 36"),
            (16, "Pop"),
            (17, "Global get \"y\""),
            (19, "Constant 1"),
            (21, "Subtract"),
            (22, "Global set \"y\""),
            (24, "Pop"),
            (25, "Global get \"x\""),
            (27, "Constant 1"),
            (29, "Add"),
            (30, "Global set \"x\""),
            (32, "Pop"),
            (33, "Loop back to 8"),
            (36, "Pop"),
            (37, "Global get \"x\""),
            (39, "Return"),
            (40, "Return"),
        ],
    );
    assert_eq!(output, expected);
}

#[test]
fn parse_for_loop_1() {
    let it = Parser::parse(Tokenizer::new("var x = 0; for (var i = 0; i < 10; i = i + 1) { x = x + 1; } print x;"));

    assert!(it.is_ok());

    let output = it.unwrap().disassemble_into_string("parse for loop 1");
    let expected = listing(
        "parse for loop 1",
        &[
            (0, "Constant 0"),
            (2, "Global define \"x\""),
            (4, "Constant 0"),
            (6, "Local var get index(0)"),
            (8, "Constant 10"),
            (10, "Less"),
            (11, "If (true) jump to 28"),
            (14, "Jump to 40"),
            (17, "Local var get index(0)"),
            (19, "Constant 1"),
            (21, "Add"),
            (22, "Local var set index(0)"),
            (24, "Pop"),
            (25, "Loop back to 6"),
            (28, "Pop"),
            (29, "Global get \"x\""),
            (31, "Constant 1"),
            (33, "Add"),
            (34, "Global set \"x\""),
            (36, "Pop"),
            (37, "Loop back to 17"),
            (40, "Pop"),
            (41, "Pop"),
            (42, "Global get \"x\""),
            (44, "Print"),
            (45, "Return"),
        ],
    );
    assert_eq!(output, expected);
}

#[test]
fn parse_for_loop_2() {
    let it = Parser::parse(Tokenizer::new("var x = 10; for (;;) { print x; } return x;"));

    assert!(it.is_ok());

    let output = it.unwrap().disassemble_into_string("parse for loop 2");
    let expected = listing(
        "parse for loop 2",
        &[
            (0, "Constant 10"),
            (2, "Global define \"x\""),
            (4, "True"),
            (5, "If (true) jump to 14"),
            (8, "Jump to 21"),
            (11, "Loop back to 4"),
            (14, "Pop"),
            (15, "Global get \"x\""),
            (17, "Print"),
            (18, "Loop back to 11"),
            (21, "Pop"),
            (22, "Global get \"x\""),
            (24, "Return"),
            (25, "Return"),
        ],
    );
    assert_eq!(output, expected);
}
