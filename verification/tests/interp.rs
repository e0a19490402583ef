use gaut::interp::Interpreter;
use gaut::parser::Parser;
use gaut::value::Value;

fn run(src: &str) -> Value {
    let mut parser = Parser::new(src).unwrap();
    let program = parser.parse_program().unwrap();
    let mut interp = Interpreter::new(1024 * 1024);
    interp.load_program(&program).unwrap();
    interp.run_main().unwrap()
}

#[test]
fn calc_example() {
    let src = r#"
        add(a: i32, b: i32) -> i32 = a + b

        main() = {
          x: i32 = 10
          y: i32 = 20
          add(x, y)
        }
        "#;
    let v = run(src);
    assert_eq!(v, Value::Int(30));
}

#[test]
fn record_ref_example() {
    let src = r#"
        type Point = { x: i32, y: i32 }

        length_x(p: &Point) -> i32 = p.x

        main() = {
          origin: Point = { x: 0, y: 0 }
          length_x(&origin)
        }
        "#;
    let v = run(src);
    assert_eq!(v, Value::Int(0));
}

#[test]
fn if_block_and_move() {
    let src = r#"
        main() = {
          x: i32 = 1
          y: i32 = if x < 0 then 10 else 5
          y
        }
        "#;
    let v = run(src);
    assert_eq!(v, Value::Int(5));
}

use gaut::interp::RuntimeError;
use gaut::typecheck::{TypeChecker, TypeError};

fn interp_of(src: &str) -> Interpreter {
    let mut parser = Parser::new(src).unwrap();
    let program = parser.parse_program().unwrap();
    let mut interp = Interpreter::new(1024);
    interp.load_program(&program).unwrap();
    interp
}

fn run_err(src: &str) -> RuntimeError {
    interp_of(src).run_main().unwrap_err()
}

fn type_error(msg: &str) -> RuntimeError {
    RuntimeError::Type(msg.to_string())
}

fn record(fields: &[(&str, i64)]) -> Value {
    Value::record(
        fields
            .iter()
            .map(|(k, v)| (k.to_string(), Value::Int(*v)))
            .collect(),
    )
}

#[test]
fn checked_and_run() {
    let src = "add(a: i32, b: i32) -> i32 = a + b\nmain() = { x: i32 = 10  y: i32 = 20  add(x, y) }";
    let mut parser = Parser::new(src).unwrap();
    let program = parser.parse_program().unwrap();
    let mut tc = TypeChecker::new();
    assert_eq!(tc.check_program(&program), Ok(()));
    let mut interp = Interpreter::new(1024 * 1024);
    interp.load_program(&program).unwrap();
    assert_eq!(interp.run_main(), Ok(Value::Int(30)));
}

#[test]
fn move_twice_fails_in_checker_and_evaluator() {
    let src = "main() = { x: i32 = 1  a: i32 = x  b: i32 = x  a }";
    let mut parser = Parser::new(src).unwrap();
    let program = parser.parse_program().unwrap();
    let mut tc = TypeChecker::new();
    assert_eq!(
        tc.check_program(&program),
        Err(TypeError::Moved("x".to_string()))
    );
    let mut interp = Interpreter::new(1024);
    interp.load_program(&program).unwrap();
    assert_eq!(
        interp.run_main(),
        Err(RuntimeError::Moved("x".to_string()))
    );
}

#[test]
fn copy_and_borrow_leave_the_binding() {
    assert_eq!(run("main() = { x: i32 = 4  a: i32 = copy x  b: i32 = x  a + b }"), Value::Int(8));
    assert_eq!(
        run("f(r: &i32) -> i32 = r\nmain() = { x: i32 = 4  a: i32 = f(&x)  b: i32 = x  a + b }"),
        Value::Int(8)
    );
    assert_eq!(
        run_err("main() = { x: i32 = 4  a: i32 = x  copy x }"),
        RuntimeError::Moved("x".to_string())
    );
}

#[test]
fn borrowed_record_stays_usable() {
    let src = r#"
        type Point = { x: i32, y: i32 }
        length_x(p: &Point) -> i32 = p.x
        main() = {
          origin: Point = { x: 0, y: 7 }
          a: i32 = length_x(&origin)
          b: i32 = origin.y
          a + b
        }
        "#;
    assert_eq!(run(src), Value::Int(7));
}

#[test]
fn arithmetic() {
    assert_eq!(run("main() = 7 + 5"), Value::Int(12));
    assert_eq!(run("main() = 7 - 9"), Value::Int(-2));
    assert_eq!(run("main() = 7 * 6"), Value::Int(42));
    assert_eq!(run("main() = 7 / 2"), Value::Int(3));
    assert_eq!(run("main() = (0 - 7) / 2"), Value::Int(-3));
    assert_eq!(run("main() = 7 / (0 - 2)"), Value::Int(-3));
    assert_eq!(run("main() = (0 - 7) / (0 - 2)"), Value::Int(3));
    assert_eq!(run("main() = -(3)"), Value::Int(-3));
    assert_eq!(run("main() = 1 < 2"), Value::Bool(true));
    assert_eq!(run("main() = 2 < 2"), Value::Bool(false));
    assert_eq!(run("main() = !(1 < 2)"), Value::Bool(false));
    assert_eq!(run("main() = true && false"), Value::Bool(false));
    assert_eq!(run("main() = true || false"), Value::Bool(true));
    assert_eq!(run("main() = \"ab\" + \"cd\""), Value::Str("abcd".to_string()));
    assert_eq!(run("main() = 1 + 2 * 3 - 4 / 2"), Value::Int(5));
    assert_eq!(run("main() = ()"), Value::Unit);
    assert_eq!(run("main() = { }"), Value::Unit);
}

#[test]
fn arithmetic_errors() {
    assert_eq!(run_err("main() = 1 / 0"), type_error("division by zero"));
    assert_eq!(
        run_err("main() = 9223372036854775807 + 1"),
        type_error("integer overflow")
    );
    assert_eq!(
        run_err("main() = (0 - 9223372036854775807 - 1) - 1"),
        type_error("integer overflow")
    );
    assert_eq!(
        run_err("main() = 9223372036854775807 * 2"),
        type_error("integer overflow")
    );
    assert_eq!(
        run_err("main() = (0 - 9223372036854775807 - 1) / (0 - 1)"),
        type_error("integer overflow")
    );
    assert_eq!(
        run_err("main() = -(0 - 9223372036854775807 - 1)"),
        type_error("integer overflow")
    );
    assert_eq!(run("main() = 9223372036854775806 + 1"), Value::Int(i64::MAX));
    assert_eq!(run("main() = 0 - 9223372036854775807 - 1"), Value::Int(i64::MIN));
}

#[test]
fn operand_errors() {
    assert_eq!(run_err("main() = 1 + true"), type_error("invalid operands for +"));
    assert_eq!(run_err("main() = \"a\" - \"b\""), type_error("invalid operands for -"));
    assert_eq!(run_err("main() = \"a\" * 2"), type_error("invalid operands for *"));
    assert_eq!(run_err("main() = true / 2"), type_error("invalid operands for /"));
    assert_eq!(run_err("main() = \"a\" < \"b\""), type_error("invalid operands for <"));
    assert_eq!(run_err("main() = 1 && true"), type_error("invalid operands for &&"));
    assert_eq!(run_err("main() = 1 || true"), type_error("invalid operands for ||"));
    assert_eq!(run_err("main() = !1"), type_error("invalid unary operand"));
    assert_eq!(run_err("main() = -true"), type_error("invalid unary operand"));
    assert_eq!(
        run_err("main() = if 1 then 2 else 3"),
        type_error("if condition must be bool")
    );
    assert_eq!(
        run_err("f(a: i32) = a\nmain() = f()"),
        type_error("arity mismatch")
    );
    assert_eq!(
        run_err("main() = { a: i32 = 1  a.x }"),
        type_error("field access on non-record")
    );
    assert_eq!(
        run_err("main() = { mut a: i32 = 1  a.x = 2  0 }"),
        type_error("assignment into non-record field")
    );
    assert_eq!(
        run_err("main() = print(\"a\", \"b\")"),
        type_error("print/println expects one argument")
    );
}

#[test]
fn name_errors() {
    assert_eq!(
        run_err("main() = nope"),
        RuntimeError::UnknownIdent("nope".to_string())
    );
    assert_eq!(
        run_err("main() = nope(1)"),
        RuntimeError::UnknownIdent("nope".to_string())
    );
    assert_eq!(
        run_err("f() = 1"),
        RuntimeError::UnknownIdent("main".to_string())
    );
    assert_eq!(
        run_err("main() = { x: i32 = 1  x = 2  x }"),
        RuntimeError::NotMutable("x".to_string())
    );
    assert_eq!(
        run_err("main() = { p: P = { x: 1 }  p.y }"),
        RuntimeError::FieldNotFound("y".to_string())
    );
    assert_eq!(
        run_err("main() = { mut p: P = { x: 1 }  p.y = 2  0 }"),
        RuntimeError::FieldNotFound("y".to_string())
    );
    assert_eq!(
        run_err("main() = { mut p: P = { x: 1 }  q: P = p  p.x = 2  0 }"),
        RuntimeError::Moved("p".to_string())
    );
    assert_eq!(
        run_err("main() = { nope = 1  0 }"),
        RuntimeError::UnknownIdent("nope".to_string())
    );
}

#[test]
fn only_the_taken_branch_runs() {
    assert_eq!(
        run("main() = { x: i32 = 1  y: i32 = if true then x else x  y }"),
        Value::Int(1)
    );
    assert_eq!(
        run("main() = { x: i32 = 1  y: i32 = if false then nope else 3  x + y }"),
        Value::Int(4)
    );
}

#[test]
fn assignment() {
    assert_eq!(run("main() = { mut x: i32 = 1  x = 5  x }"), Value::Int(5));
    // whole-binding assignment refreshes a moved binding
    assert_eq!(
        run("main() = { mut x: i32 = 1  a: i32 = x  x = 2  x + a }"),
        Value::Int(3)
    );
    assert_eq!(
        run("main() = { mut p: P = { a: { b: 1, c: 2 }, d: 3 }  p.a.b = 5  p }"),
        Value::record(vec![
            ("a".to_string(), record(&[("b", 5), ("c", 2)])),
            ("d".to_string(), Value::Int(3)),
        ])
    );
    // assignment reaches an outer scope
    assert_eq!(
        run("main() = { mut x: i32 = 1  u: Unit = { x = 7 }  x }"),
        Value::Int(7)
    );
}

#[test]
fn records() {
    assert_eq!(
        run("main() = { x: 1, y: 2 }"),
        record(&[("x", 1), ("y", 2)])
    );
    // a name that comes twice keeps its first place and its last value
    assert_eq!(
        run("main() = { x: 1, y: 2, x: 3 }"),
        record(&[("x", 3), ("y", 2)])
    );
    let v = run("main() = { x: 1, y: 2, x: 3 }");
    let entries = v.entries().expect("a record");
    assert_eq!(
        entries,
        vec![
            ("x".to_string(), Value::Int(3)),
            ("y".to_string(), Value::Int(2))
        ]
    );
    assert_eq!(Value::Int(1).entries(), None);
    // moving a field out takes it from the record that was read
    assert_eq!(run("main() = { p: P = { x: 1, y: 2 }  p.y }"), Value::Int(2));
    assert_eq!(
        run("main() = { p: P = { a: { b: 4 } }  p.a.b }"),
        Value::Int(4)
    );
    // a copy is independent of what it was copied from
    assert_eq!(
        run("main() = { mut p: P = { x: 1 }  q: P = copy p  p.x = 2  q.x + p.x }"),
        Value::Int(3)
    );
}

#[test]
fn record_equality_ignores_order() {
    assert_eq!(run("main() = { x: 1, y: 2 } == { y: 2, x: 1 }"), Value::Bool(true));
    assert_eq!(run("main() = { x: 1, y: 2 } == { x: 1, y: 3 }"), Value::Bool(false));
    assert_eq!(run("main() = { x: 1 } == { x: 1, y: 2 }"), Value::Bool(false));
    assert_eq!(run("main() = { x: 1, y: 2 } == { x: 1, z: 2 }"), Value::Bool(false));
    assert_eq!(run("main() = { a: { x: 1, y: 2 } } == { a: { y: 2, x: 1 } }"), Value::Bool(true));
    assert_eq!(run("main() = 1 == 1"), Value::Bool(true));
    assert_eq!(run("main() = 1 == true"), Value::Bool(false));
    assert_eq!(run("main() = \"a\" == \"a\""), Value::Bool(true));
    assert_eq!(run("main() = () == ()"), Value::Bool(true));
    assert_eq!(record(&[("x", 1), ("y", 2)]), record(&[("y", 2), ("x", 1)]));
    assert_ne!(record(&[("x", 1)]), record(&[("x", 2)]));
    assert_ne!(record(&[]), Value::Unit);
    let r = record(&[("x", 1)]);
    assert_eq!(r.clone(), r);
}

#[test]
fn printing() {
    let mut interp = interp_of("main() = { print(\"a\")  println(\"b\")  a: Str = print(\"c\")  a }");
    assert_eq!(interp.output(), "");
    assert_eq!(interp.run_main(), Ok(Value::Str("c".to_string())));
    assert_eq!(interp.output(), "ab\nc");
    // a value that is no string is printed as the debugger shows it
    let mut interp = interp_of("main() = print(5)");
    assert_eq!(interp.run_main(), Ok(Value::Str("Int(5)".to_string())));
    assert_eq!(interp.output(), "Int(5)");
    let mut interp = interp_of("main() = println({ x: 1, y: { z: \"s\" }, u: (), b: true })");
    assert_eq!(interp.run_main().map(|_| ()), Ok(()));
    assert_eq!(
        interp.output(),
        "Record({\"x\": Int(1), \"y\": Record({\"z\": Str(\"s\")}), \"u\": Unit, \"b\": Bool(true)})\n"
    );
    // a function of the program is preferred to the builtin
    let mut interp = interp_of("print(msg: Str) = 1\nmain() = print(\"a\")");
    assert_eq!(interp.run_main(), Ok(Value::Int(1)));
    assert_eq!(interp.output(), "");
}

#[test]
fn globals() {
    assert_eq!(run("global g: i32 = 2 + 3\nmain() = g"), Value::Int(5));
    assert_eq!(run("g: i32 = 1\ng: i32 = 2\nmain() = g"), Value::Int(2));
    // every run starts from the loaded globals
    let mut interp = interp_of("g: i32 = 1\nmain() = g");
    assert_eq!(interp.run_main(), Ok(Value::Int(1)));
    assert_eq!(interp.run_main(), Ok(Value::Int(1)));
    // an initializer sees the functions and the globals before it
    assert_eq!(run("one() = 1\ng: i32 = one() + 1\nmain() = g"), Value::Int(2));
    assert_eq!(run("a: i32 = 1\nb: i32 = copy a\nmain() = a + b"), Value::Int(2));
    assert_eq!(
        run("a: i32 = 2\nget() = copy a\nb: i32 = get() + 1\nmain() = b"),
        Value::Int(3)
    );
    // what an initializer moves is moved for all that follows
    assert_eq!(run("a: i32 = 1\nb: i32 = a\nmain() = b"), Value::Int(1));
    assert_eq!(
        run_err("a: i32 = 1\nb: i32 = a\nmain() = a"),
        RuntimeError::Moved("a".to_string())
    );
    let mut parser = Parser::new("a: i32 = 1\nb: i32 = a\nc: i32 = a").unwrap();
    let program = parser.parse_program().unwrap();
    let mut interp = Interpreter::new(16);
    assert_eq!(
        interp.load_program(&program),
        Err(RuntimeError::Moved("a".to_string()))
    );
    // but not the globals behind it
    let mut parser = Parser::new("b: i32 = a\na: i32 = 1").unwrap();
    let program = parser.parse_program().unwrap();
    let mut interp = Interpreter::new(16);
    assert_eq!(
        interp.load_program(&program),
        Err(RuntimeError::UnknownIdent("a".to_string()))
    );
}

#[test]
fn globals_load_as_they_were_checked() {
    let agree = |src: &str, checked: Result<(), TypeError>, loaded: Result<(), RuntimeError>| {
        let mut parser = Parser::new(src).unwrap();
        let program = parser.parse_program().unwrap();
        let mut tc = TypeChecker::new();
        assert_eq!(tc.check_program(&program), checked);
        let mut interp = Interpreter::new(1024 * 1024);
        assert_eq!(interp.load_program(&program), loaded);
        interp
    };
    let mut interp = agree(
        "global a: i32 = 1  global b: i32 = copy a  main() = b",
        Ok(()),
        Ok(()),
    );
    assert_eq!(interp.run_main(), Ok(Value::Int(1)));
    let mut interp = agree(
        "type P = { x: i32, y: i32 }  global p: P = { x: 1, y: 2 }  global q: i32 = p.y  main() = q",
        Ok(()),
        Ok(()),
    );
    assert_eq!(interp.run_main(), Ok(Value::Int(2)));
    agree(
        "global a: i32 = 1  global b: i32 = a  global c: i32 = a  main() = c",
        Err(TypeError::Moved("a".to_string())),
        Err(RuntimeError::Moved("a".to_string())),
    );
    agree(
        "global b: i32 = a  global a: i32 = 1  main() = b",
        Err(TypeError::UnknownIdent("a".to_string())),
        Err(RuntimeError::UnknownIdent("a".to_string())),
    );
}

#[test]
fn calls_nest_up_to_the_limit() {
    let src = "down(n: i32) = if copy n < 1 then 0 else 1 + down(n - 1)\nmain() = down(100)";
    assert_eq!(run(src), Value::Int(100));
    assert_eq!(
        run_err("f() = f()\nmain() = f()"),
        type_error("call depth exceeded")
    );
    // the default limit leaves room for some hundred calls
    let deep = "down(n: i32) = if copy n < 1 then 0 else 1 + down(n - 1)\nmain() = down(510)";
    assert_eq!(run(deep), Value::Int(510));
    let mut interp = interp_of(src);
    interp.set_call_limit(50);
    assert_eq!(interp.run_main(), Err(type_error("call depth exceeded")));
    interp.set_call_limit(101);
    assert_eq!(interp.run_main(), Ok(Value::Int(100)));
    interp.set_call_limit(100);
    assert_eq!(interp.run_main(), Err(type_error("call depth exceeded")));
}

#[test]
fn from_source_loads_or_reports() {
    let mut interp = Interpreter::from_source("main() = 1 + 1").ok().expect("loads");
    assert_eq!(interp.run_main(), Ok(Value::Int(2)));
    assert_eq!(
        Interpreter::from_source("main() = {").err(),
        Some(type_error("unexpected end of input"))
    );
    assert_eq!(
        Interpreter::from_source("main() = #").err(),
        Some(type_error("lexer error: unexpected char '#'"))
    );
    assert_eq!(
        Interpreter::from_source("g: i32 = nope").err(),
        Some(RuntimeError::UnknownIdent("nope".to_string()))
    );
}

#[test]
fn scopes_nest() {
    assert_eq!(
        run("main() = { x: i32 = 1  y: i32 = { x: i32 = 2  x }  x + y }"),
        Value::Int(3)
    );
    // a binding of a block is gone behind the block
    assert_eq!(
        run_err("main() = { u: Unit = { x: i32 = 2 }  x }"),
        RuntimeError::UnknownIdent("x".to_string())
    );
}

#[test]
fn a_new_binding_replaces_the_old_at_run_time() {
    assert_eq!(
        run("main() = { x: i32 = 1  a: i32 = x  x: i32 = 2  x + a }"),
        Value::Int(3)
    );
}

#[test]
fn values_built_by_hand() {
    let v = Value::record(vec![
        ("a".to_string(), Value::Int(1)),
        ("b".to_string(), Value::Str("s".to_string())),
        ("a".to_string(), Value::Bool(true)),
    ]);
    assert_eq!(
        v.entries(),
        Some(vec![
            ("a".to_string(), Value::Bool(true)),
            ("b".to_string(), Value::Str("s".to_string())),
        ])
    );
    assert_eq!(
        gaut::interp::eval_binary(&Value::Int(6), &Value::Int(7), gaut::ast::BinaryOp::Mul),
        Ok(Value::Int(42))
    );
    assert_eq!(
        gaut::interp::eval_unary(gaut::ast::UnaryOp::Not, &Value::Bool(false)),
        Ok(Value::Bool(true))
    );
}
