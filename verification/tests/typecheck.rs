use gaut::ast::{Binding, Decl, Expr, FuncDecl, Ident, Literal, Program};
use gaut::parser::Parser;
use gaut::typecheck::{TypeChecker, TypeError};

fn check_ok(src: &str) {
    let mut parser = Parser::new(src).expect("parser init");
    let program = parser.parse_program().expect("parse program");
    let mut tc = TypeChecker::new();
    tc.check_program(&program).expect("typecheck ok");
}

fn check_err(src: &str) -> TypeError {
    let mut parser = Parser::new(src).expect("parser init");
    let program = parser.parse_program().expect("parse program");
    let mut tc = TypeChecker::new();
    tc.check_program(&program).expect_err("expected type error")
}

#[test]
fn success_hello() {
    let src = r#"
        global greeting: Str = "hello"

        print(msg: Str) = msg

        main() = {
          msg: Str = greeting + " world"
          print(msg)
        }
        "#;
    check_ok(src);
}

#[test]
fn success_calc() {
    let src = r#"
        add(a: i32, b: i32) -> i32 = a + b

        main() = {
          x: i32 = 1
          y: i32 = 2
          sum: i32 = add(x, y)
          copy sum
        }
        "#;
    check_ok(src);
}

#[test]
fn success_forward_call_with_inferred_return() {
    let src = r#"
        main() = {
          out: i32 = id(7)
          copy out
        }

        id(x: i32) = x
        "#;
    check_ok(src);
}

#[test]
fn success_infer_function_return_type() {
    let src = r#"
        id(x: i32) = x

        main() = {
          out: i32 = id(7)
          copy out
        }
        "#;
    check_ok(src);
}

#[test]
fn success_record_ref() {
    let src = r#"
        type Point = { x: i32, y: i32 }

        length_x(p: &Point) -> i32 = p.x

        main() = {
          origin: Point = { x: 0, y: 0 }
          px: i32 = length_x(&origin)
          copy px
        }
        "#;
    check_ok(src);
}

#[test]
fn fail_use_after_move() {
    let src = r#"
        main() = {
          x: i32 = 1
          y: i32 = x
          x
        }
        "#;
    let err = check_err(src);
    assert!(matches!(err, TypeError::Moved(_)));
}

#[test]
fn fail_escape_block() {
    let src = r#"
        main() = {
          y: i32 = { x: i32 = 1 x }
          y
        }
        "#;
    let err = check_err(src);
    assert!(matches!(err, TypeError::Escape));
}

#[test]
fn fail_type_mismatch() {
    let src = r#"
        add(a: i32, b: i32) -> i32 = a + b

        main() = {
          msg: Str = "hi"
          add(msg, msg)
        }
        "#;
    let err = check_err(src);
    assert!(matches!(err, TypeError::TypeMismatch { .. }));
}

fn named(name: &str) -> gaut::ast::Type {
    gaut::ast::Type::Named(gaut::ast::Ident(name.to_string()))
}

#[test]
fn move_twice_is_rejected() {
    let err = check_err("main() = { x: i32 = 1  a: i32 = x  b: i32 = x  a }");
    assert_eq!(err, TypeError::Moved("x".to_string()));
    // a field read moves the whole binding, and the error names the path
    let err = check_err(
        "type P = { x: i32, y: i32 }\nmain() = { p: P = { x: 1, y: 2 }  a: i32 = p.x  b: i32 = p.y  a }",
    );
    assert_eq!(err, TypeError::Moved("p.y".to_string()));
}

#[test]
fn copy_and_borrow_do_not_consume() {
    check_ok("main() = { x: i32 = 1  a: i32 = copy x  b: i32 = x  a }");
    check_ok("use_ref(r: &i32) -> i32 = 0\nmain() = { x: i32 = 1  a: i32 = use_ref(&x)  b: i32 = x  a }");
    // but neither works on a moved binding
    let err = check_err("main() = { x: i32 = 1  a: i32 = x  b: i32 = copy x  a }");
    assert_eq!(err, TypeError::Moved("x".to_string()));
    let err = check_err("use_ref(r: &i32) -> i32 = 0\nmain() = { x: i32 = 1  a: i32 = x  use_ref(&x) }");
    assert_eq!(err, TypeError::Moved("x".to_string()));
}

#[test]
fn assignment_refreshes_a_moved_binding() {
    check_ok("main() = { mut x: i32 = 1  a: i32 = x  x = 2  b: i32 = x  a }");
}

#[test]
fn nested_block_value_cannot_be_bound() {
    let err = check_err("main() = { y: i32 = { { 1 } }  y }");
    assert_eq!(err, TypeError::Escape);
    let err = check_err("main() = { y: i32 = { 1 }  y }");
    assert_eq!(err, TypeError::Escape);
    // a block that hands out something from outside itself is fine
    check_ok("main() = { a: i32 = 1  y: i32 = { a }  y }");
}

#[test]
fn reference_to_local_cannot_be_returned() {
    let err = check_err("type P = { x: i32 }\nf() -> &P = { p: P = { x: 1 }  &p }\nmain() = 0");
    assert_eq!(err, TypeError::Escape);
    // nor a record that holds a reference, nor a reference behind a type name
    let err = check_err("type R = { r: &i32 }\nmk(a: &i32) -> R = { { r: a } }\nmain() = 0");
    assert_eq!(err, TypeError::Escape);
    let err = check_err("type Q = &i32\nid(a: &i32) -> Q = a\nf(a: &i32) -> Q = { id(a) }\nmain() = 0");
    assert_eq!(err, TypeError::Escape);
    // a plain value may leave the body of a function
    check_ok("type P = { x: i32 }\nf() -> P = { p: P = { x: 1 }  p }\nmain() = 0");
}

#[test]
fn main_takes_no_parameters() {
    assert_eq!(check_err("main(x: i32) = x"), TypeError::MainHasParams);
    assert_eq!(
        check_err("main(x: i32) = nothing + \"s\""),
        TypeError::MainHasParams
    );
}

#[test]
fn unknown_names() {
    assert_eq!(
        check_err("main() = nope"),
        TypeError::UnknownIdent("nope".to_string())
    );
    assert_eq!(
        check_err("x: Nope = 1"),
        TypeError::UnknownType("Nope".to_string())
    );
    assert_eq!(
        check_err("main() = nope()"),
        TypeError::UnknownFunc("nope".to_string())
    );
    assert_eq!(
        check_err("main() = a.b()"),
        TypeError::UnknownFunc("a.b".to_string())
    );
    assert_eq!(
        check_err("type P = { x: i32 }\nmain() = { p: P = { x: 1 }  p.y }"),
        TypeError::UnknownIdent("y".to_string())
    );
    assert_eq!(
        check_err("main() = { a: i32 = 1  a.x }"),
        TypeError::UnknownIdent("x".to_string())
    );
}

#[test]
fn mismatches() {
    assert_eq!(
        check_err("x: i32 = true"),
        TypeError::TypeMismatch {
            expected: named("i32"),
            found: named("bool")
        }
    );
    assert_eq!(
        check_err("f(a: i32) -> i32 = a\nmain() = f(1, 2)"),
        TypeError::ArityMismatch {
            expected: 1,
            found: 2
        }
    );
    assert_eq!(
        check_err("x: i32 = 1 + true"),
        TypeError::TypeMismatch {
            expected: named("i32"),
            found: named("bool")
        }
    );
    assert_eq!(
        check_err("x: i32 = if 1 then 2 else 3"),
        TypeError::TypeMismatch {
            expected: named("bool"),
            found: named("i32")
        }
    );
    assert_eq!(
        check_err("f() -> Str = 1\nmain() = 0"),
        TypeError::TypeMismatch {
            expected: named("Str"),
            found: named("i32")
        }
    );
}

#[test]
fn immutable_binding_cannot_be_assigned() {
    assert_eq!(
        check_err("main() = { x: i32 = 1  x = 2  x }"),
        TypeError::NotMutable("x".to_string())
    );
    assert_eq!(
        check_err("type P = { x: i32 }\nmain() = { p: P = { x: 1 }  p.x = 2  0 }"),
        TypeError::NotMutable("p.x".to_string())
    );
    check_ok("type P = { x: i32 }\nmain() = { mut p: P = { x: 1 }  p.x = 2  0 }");
}

#[test]
fn return_types_that_cannot_be_inferred() {
    assert_eq!(
        check_err("f() = g()\ng() = f()\nmain() = 0"),
        TypeError::UnknownFuncReturn("f".to_string())
    );
    // three functions, declared callers first, need three rounds
    check_ok("a() = b()\nb() = c()\nc() = 1\nmain() = a()");
}

#[test]
fn scopes_are_closed_after_a_deferred_function() {
    // `first` waits for `late`; its parameter is not visible to `other`
    assert_eq!(
        check_err("first(p: i32) = { late(p) }\nother() = p\nlate(a: i32) = a\nmain() = 0"),
        TypeError::UnknownIdent("p".to_string())
    );
}

#[test]
fn alias_cycles_are_unknown_types() {
    assert_eq!(
        check_err("type A = B\ntype B = A\nx: A = 1"),
        TypeError::UnknownType("A".to_string())
    );
    assert_eq!(
        check_err("type A = { next: &A }\nf(a: A) -> i32 = 0\nmain() = 0"),
        TypeError::UnknownType("A".to_string())
    );
    check_ok("type A = B\ntype B = i32\nx: A = 1\nmain() = 0");
}

#[test]
fn records_are_compared_by_structure() {
    check_ok("type P = { x: i32, y: i32 }\ntype Q = { x: i32, y: i32 }\nf(p: P) -> Q = p\nmain() = 0");
    assert!(matches!(
        check_err("type P = { x: i32, y: i32 }\ntype Q = { y: i32, x: i32 }\nf(p: P) -> Q = p\nmain() = 0"),
        TypeError::TypeMismatch { .. }
    ));
}

#[test]
fn strings_take_all_four_arithmetic_operators() {
    check_ok("a: Str = \"x\" + \"y\"\nb: Str = \"x\" - \"y\"\nc: Str = \"x\" * \"y\"\nd: Str = \"x\" / \"y\"\nmain() = 0");
}

#[test]
fn both_branches_of_an_if_are_checked_in_turn() {
    // a move in the first branch is seen by the second
    assert_eq!(
        check_err("main() = { x: i32 = 1  if true then x else x }"),
        TypeError::Moved("x".to_string())
    );
}

#[test]
fn builtin_functions_are_known() {
    check_ok("main() = { s: Str = read_file(\"a\")  n: i32 = str_len(s)  n }");
    check_ok("main() = { r: ReadFileResult = try_read_file(\"a\")  ok: bool = r.ok  ok }");
    check_ok("main() = { b: Bytes = args()  s: Str = bytes_to_str(b)  str_slice(s, 0, 1) }");
    check_ok("main() = { ok: bool = try_write_file(\"a\", \"b\")  write_file(\"a\", \"b\") }");
    check_ok("main() = str_byte_at(println(print(\"a\")), 0)");
}

#[test]
fn globals_are_moved_like_any_binding() {
    assert_eq!(
        check_err("global g: i32 = 1\nf() = g\nh() = g\nmain() = 0"),
        TypeError::Moved("g".to_string())
    );
    check_ok("global g: i32 = 1\nf() = copy g\nh() = copy g\nmain() = 0");
}

#[test]
fn redeclaring_a_name_replaces_it() {
    check_ok("main() = { x: i32 = 1  x: Str = \"a\"  y: Str = x  y }");
    // the new binding is present even where the old one was moved
    check_ok("main() = { x: i32 = 1  a: i32 = x  x: i32 = 2  b: i32 = x  a }");
    // an inner binding hides an outer one and leaves it as it was
    check_ok("main() = { x: i32 = 1  u: Unit = { x: Str = \"a\"  y: Str = x }  x }");
}

#[test]
fn a_checker_can_be_used_on_syntax_built_by_hand() {
    let program = Program {
        decls: vec![
            Decl::Let(Binding {
                mutable: false,
                name: Ident("g".to_string()),
                ty: named("i32"),
                value: Expr::Literal(Literal::Int(-5)),
            }),
            Decl::Func(FuncDecl {
                name: Ident("main".to_string()),
                params: vec![],
                ret: None,
                body: Expr::Literal(Literal::Unit),
            }),
        ],
    };
    let mut tc = TypeChecker::new();
    assert_eq!(tc.check_program(&program), Ok(()));
    let copy = program.clone();
    assert_eq!(copy, program);
}

#[test]
fn builtin_prints_are_added_where_missing() {
    let decls_of = |src: &str| {
        let mut parser = Parser::new(src).expect("parser init");
        parser.parse_program().expect("parse program").decls
    };
    let print_like = |name: &str| {
        Decl::Func(FuncDecl {
            name: Ident(name.to_string()),
            params: vec![gaut::ast::Param {
                mutable: false,
                name: Ident("msg".to_string()),
                ty: named("Str"),
            }],
            ret: Some(named("Str")),
            body: Expr::Path(gaut::ast::Path(vec![Ident("msg".to_string())])),
        })
    };
    let mut decls = decls_of("main() = 0");
    gaut::builtins::append_builtin_prints(&mut decls);
    assert_eq!(decls.len(), 3);
    assert_eq!(decls[1], print_like("print"));
    assert_eq!(decls[2], print_like("println"));

    let mut decls = decls_of("println(a: i32) = a\nmain() = 0");
    gaut::builtins::append_builtin_prints(&mut decls);
    assert_eq!(decls.len(), 3);
    assert_eq!(decls[2], print_like("print"));

    let mut decls = decls_of("print: i32 = 1\nprint() = 0\nprintln() = 0");
    gaut::builtins::append_builtin_prints(&mut decls);
    assert_eq!(decls.len(), 3);

    // with the prints added, a program that prints passes the check
    let mut decls = decls_of("main() = println(\"hi\")");
    gaut::builtins::append_builtin_prints(&mut decls);
    let mut tc = TypeChecker::new();
    assert_eq!(tc.check_program(&Program { decls }), Ok(()));
}
