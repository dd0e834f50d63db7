use rlox::error::InterpretError;
use rlox::opcode::Obj;
use rlox::parser::Parser;
use rlox::tokenizer::Tokenizer;
use rlox::value::{Number, Value};
use rlox::vm::{ArithOp, Step, Vm};

/// A value that outlives the machine that made it.
#[derive(Clone, PartialEq, Debug)]
enum Returned {
    Number(f64),
    Bool(bool),
    Object(Obj),
    Nil,
}

impl From<Value> for Returned {
    fn from(value: Value) -> Self {
        match value {
            Value::Number(n) => Returned::Number(f64::from_bits(n.bits)),
            Value::Bool(b) => Returned::Bool(b),
            Value::Object(o) => Returned::Object(o.as_ref().clone()),
            Value::Nil => Returned::Nil,
        }
    }
}

impl From<&str> for Returned {
    fn from(it: &str) -> Self {
        Self::Object(Obj::String {
            str: it.to_string(),
        })
    }
}

impl From<f64> for Returned {
    fn from(it: f64) -> Self {
        Self::Number(it)
    }
}

impl From<bool> for Returned {
    fn from(it: bool) -> Self {
        Self::Bool(it)
    }
}

fn number(x: f64) -> Number {
    Number { bits: x.to_bits() }
}

/// Runs a chunk to its end; returns the result, the printed values and
/// whether the stack was empty at the end.
fn run(source: &str) -> Result<(Returned, Vec<Returned>, bool), InterpretError> {
    let chunk = Parser::parse(Tokenizer::new(source))?;
    let mut vm = Vm::new(&chunk);
    let mut printed = Vec::new();
    loop {
        match vm.step() {
            Step::Continue => {}
            Step::Print(v) => printed.push(Returned::from(v)),
            Step::Arithmetic { op, lhs, rhs } => {
                let (a, b) = (f64::from_bits(lhs.bits), f64::from_bits(rhs.bits));
                let r = match op {
                    ArithOp::Add => a + b,
                    ArithOp::Subtract => a - b,
                    ArithOp::Multiply => a * b,
                    ArithOp::Divide => a / b,
                };
                vm.push_number(number(r));
            }
            Step::Constant(literal) => vm.push_number(number(literal.parse::<f64>().unwrap())),
            Step::Done(v) => {
                let empty = vm.stack_is_empty();
                vm.free_heap();
                return Ok((Returned::from(v), printed, empty));
            }
            Step::Failed(e) => return Err(e),
        }
    }
}

fn interpret_result<T>(cases: Vec<(&str, T)>)
where
    Returned: From<T>,
{
    for (source, expected) in cases {
        let (result, _, _) = run(source).unwrap();
        assert_eq!(result, Returned::from(expected));
    }
}

#[test]
fn interpret_math_expression_with_precedence() {
    interpret_result(vec![("return 10 + 30 * 2;", 70.0)]);
}

#[test]
fn interpret_booleans() {
    interpret_result(vec![("return true;", true), ("return false;", false)])
}

#[test]
fn interpret_nil() {
    interpret_result(vec![
        ("return nil;", Returned::Nil),
        ("return;", Returned::Nil),
    ])
}

#[test]
fn interpret_not() {
    interpret_result(vec![
        ("return !false;", true),
        ("return !true;", false),
        ("return !!true;", true),
        ("return !!false;", false),
        ("return !(5 == 5);", false),
        ("return !nil;", true),
        ("return !0;", true),
        ("return !1;", false),
        ("return !-1;", false),
    ])
}

#[test]
fn interpret_equal() {
    interpret_result(vec![
        ("return 100 == 100;", true),
        ("return 100 == 10;", false),
        ("return true == true;", true),
        ("return true == false;", false),
        ("return nil == nil;", true),
        ("return true == 10;", false),
        ("return 100 == nil;", false),
        ("return false == nil;", false),
        ("return true == 1;", false),
    ])
}

#[test]
fn interpret_not_equal() {
    interpret_result(vec![
        ("return 100 != 100;", false),
        ("return 100 != 10;", true),
        ("return true != true;", false),
        ("return true != false;", true),
        ("return nil != nil;", false),
        ("return true != 10;", true),
        ("return 100 != nil;", true),
        ("return false != nil;", true),
        ("return true != 1;", true),
    ]);
}

#[test]
fn interpret_greater() {
    interpret_result(vec![
        ("return 100 > 100;", false),
        ("return 100 > 10;", true),
        ("return 10 > 100;", false),
    ])
}

#[test]
fn interpret_greater_equal() {
    interpret_result(vec![
        ("return 100 >= 100;", true),
        ("return 100 >= 10;", true),
        ("return 10 >= 100;", false),
    ])
}

#[test]
fn interpret_less() {
    interpret_result(vec![
        ("return 100 < 100;", false),
        ("return 100 < 10;", false),
        ("return 10 < 100;", true),
    ])
}

#[test]
fn interpret_less_equal() {
    interpret_result(vec![
        ("return 100 <= 100;", true),
        ("return 100 <= 10;", false),
        ("return 10 <= 100;", true),
    ])
}

#[test]
fn interpret_and_expression() {
    interpret_result(vec![
        ("return true and false;", false),
        ("return true and true;", true),
        ("return false and true;", false),
        ("return false and false;", false),
    ])
}

#[test]
fn interpret_or_expression() {
    interpret_result(vec![
        ("return true or false;", true),
        ("return true or true;", true),
        ("return false or true;", true),
        ("return false or false;", false),
    ])
}

#[test]
fn interpret_expression() {
    interpret_result(vec![("return !(5 - 4 > 3 * 2 == !nil);", true)])
}

#[test]
fn interpret_strings() {
    interpret_result(vec![("return \"hello world\";", "hello world")]);
}

#[test]
fn interpret_string_equality() {
    interpret_result(vec![
        ("return \"ok\" == \"ok\";", true),
        ("return \"ok\" == \"nok\";", false),
        ("return \"ok\" != \"nok\";", true),
        ("return \"ok\" != \"ok\";", false),
    ])
}

#[test]
fn interpret_string_concatenation() {
    interpret_result(vec![
        ("return \"hello \" + \"world\";", "hello world"),
        ("return \"hello\" + \" \"  + \"world\";", "hello world"),
    ])
}

#[test]
fn interpret_print_statement() {
    interpret_result(vec![("return 5 + 2;", 7.0)]);

    interpret_result(vec![
        ("return 5 > 2;", true),
        ("return 5 >= 5;", true),
        ("return 5 <= 7;", true),
        ("return 5 != 7;", true),
    ]);

    interpret_result(vec![
        ("return \"hello \" + \"world\";", "hello world"),
        ("return \"hello\" + \" \"  + \"world\";", "hello world"),
    ])
}

#[test]
fn interpret_var_statements() {
    interpret_result(vec![
        (
            "var summed = 5 + 2; print summed *2; return summed * 2;",
            14.0,
        ),
        (
            "var a; var b; var c; a = 5; b = 2; c = a + b; print c *2; return c * 2;",
            14.0,
        ),
    ]);
}

#[test]
fn interpret_unknown_globals_are_nil() {
    interpret_result(vec![("return unknown;", Returned::Nil)]);
}

#[test]
fn interpret_set_global() {
    interpret_result(vec![("var it; it = 3 + 5; return it;", 8.0)]);
}

#[test]
#[should_panic]
fn interpret_set_global_illegal_grammar() {
    interpret_result(vec![("var b; 1 * b = 3 + 8; return b;", 11.0)]);
}

#[test]
#[should_panic]
fn interpret_set_global_undefined() {
    interpret_result(vec![("var it; unknown = 3 + 5; return unknown;", 8.0)]);
}

#[test]
fn interpret_block_statements_1() {
    interpret_result(vec![("{ var x = 15; var y; } return;", Returned::Nil)]);
}

#[test]
fn interpret_block_statements_2() {
    interpret_result(vec![("{ var x; x = 10; print x; } return;", Returned::Nil)]);
}

#[test]
fn interpret_block_statements_3() {
    interpret_result(vec![("{ var x; print x; } return;", Returned::Nil)]);
}

#[test]
fn interpret_block_statements_4() {
    interpret_result(vec![(
        "{ var x; var y; x = 10; y = 20; print x; } return;",
        Returned::Nil,
    )]);
}

#[test]
fn interpret_block_statements_5() {
    interpret_result(vec![("var x; { x = 10; var y = 20; } return x;", 10.0)]);
}

#[test]
fn interpret_block_statements_6() {
    interpret_result(vec![(
        "var z; { var x; var y; x = 10; y = 20; z = x + y; } return z;",
        30.0,
    )]);
}

#[test]
fn interpret_block_statements_7() {
    interpret_result(vec![(
        "var z; { var x; var y; x = 10; y = 20; z = y; } return;",
        Returned::Nil,
    )]);
}

#[test]
fn interpret_if_statement_true() {
    interpret_result(vec![(
        "var z = 2; if (true) { var x = 3; var y = 5; z = x + y; } return z;",
        8.0,
    )]);
}

#[test]
fn interpret_if_statement_false() {
    interpret_result(vec![(
        "var z = 2; if (false) { var x = 3; var y = 5; z = x + y; } return z;",
        2.0,
    )]);
}

#[test]
fn interpret_if_else_statement_true() {
    interpret_result(vec![(
        "var z = 2; if (true) { var x = 3; var y = 5; z = x + y; } else { z = 200; }return z;",
        8.0,
    )]);
}

#[test]
fn interpret_if_else_statement_false() {
    interpret_result(vec![(
        "var z = 2; if (false) { var x = 3; var y = 5; z = x + y; } else { z = 200; }return z;",
        200.0,
    )]);
}

#[test]
fn interpret_if_else_statement_false_2() {
    interpret_result(vec![(
        "if (false){ var x = 3; var y = 5; } else { var y = 100; } var x = 5; return x +2;",
        7.0,
    )]);
}

#[test]
fn interpret_while_loop() {
    interpret_result(vec![(
        "var x = 0; var y = 3; while (y > 0) { y = y - 1; x = x + 1; } return x;",
        3.0,
    )]);

    interpret_result(vec![
        ("var x = true; while (x) { x  = false; } return x;", false),
        ("var x = true; while (x) { x  = !x; } return x;", false),
    ]);

    interpret_result(vec![(
        "var x = \"hi\"; var y = 3; while (y > 0) { y = y - 1; x = x + \"hi\"; } return x;",
        "hihihihi",
    )])
}

#[test]
fn interpret_for_loop() {
    interpret_result(vec![
        (
            "var x = 0; for (var i = 0; i < 10; i = i + 1) { x = x + 1; } return x;",
            10.0,
        ),
        ("var x = 0; for (; x < 10;) { x = x + 1; } return x;", 10.0),
        (
            "var x = 0; for (;;) { x = x + 1; if (x >= 10) return x; } return x;",
            10.0,
        ),
    ])
}
