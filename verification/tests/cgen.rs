use gaut::ast::{Binding, Decl, Expr, Ident, Literal, Program, Type};
use gaut::cgen::{generate_c, generate_c_from_source, CgenError};
use gaut::parser::Parser;

#[test]
fn simple_program() {
    let src = r#"
        add(a: i32, b: i32) -> i32 = a + b

        main() = {
          x: i32 = 10
          y: i32 = 20
          add(x, y)
        }
        "#;
    let c = generate_c_from_source(src).unwrap();
    assert!(c.contains("int32_t add"));
    assert!(c.contains("main()"));
    assert!(c.contains("gaut_arena __arena"));
    assert!(c.contains("add(x, y)"));
}

#[test]
fn string_concat_uses_runtime() {
    let src = r#"
        main() = {
          msg: Str = "hello" + " world"
          msg
        }
        "#;
    let c = generate_c_from_source(src).unwrap();
    assert!(c.contains("gaut_str_concat"));
}

#[test]
fn record_ref_uses_arrow() {
    let src = r#"
        type Point = { x: i32, y: i32 }

        length_x(p: &Point) -> i32 = p.x

        main() = {
          origin: Point = { x: 0, y: 0 }
          px: i32 = length_x(&origin)
          px
        }
        "#;
    let c = generate_c_from_source(src).unwrap();
    assert!(c.contains("p->x"));
    assert!(c.contains("Point origin"));
}

#[test]
fn read_file_calls_runtime() {
    let src = r#"
        main() = {
          content: Str = read_file("foo.txt")
          content
        }
        "#;
    let c = generate_c_from_source(src).unwrap();
    assert!(c.contains("gaut_read_file"));
}

#[test]
fn whole_source_text() {
    let src = "add(a: i32, b: i32) -> i32 = a + b\nmain() = { x: i32 = 10 add(x, 2) }";
    let c = generate_c_from_source(src).unwrap();
    let expected = concat_lines(&[
        "#include <stdint.h>",
        "#include <stdbool.h>",
        "#include <stddef.h>",
        "#include \"runtime.h\"",
        "",
        "char* print(char* msg) { gaut_print(msg); return msg; }",
        "char* println(char* msg) { gaut_println(msg); return msg; }",
        "char* read_file(char* path) { return gaut_read_file(path); }",
        "void write_file(char* path, char* data) { gaut_write_file(path, data); }",
        "gaut_bytes args() { return gaut_args(); }",
        "",
        "int32_t add(int32_t a, int32_t b) {",
        "  uint8_t __arena_buf[GAUT_DEFAULT_ARENA_CAP];",
        "  gaut_arena __arena = gaut_arena_from_buffer(__arena_buf, GAUT_DEFAULT_ARENA_CAP);",
        "",
        "  gaut_scope __scope0 = gaut_scope_enter(&__arena);",
        "  int32_t __ret0 = a + b;",
        "  gaut_scope_leave(&__arena, __scope0);",
        "  return __ret0;",
        "}",
        "",
        "int main() {",
        "  uint8_t __arena_buf[GAUT_DEFAULT_ARENA_CAP];",
        "  gaut_arena __arena = gaut_arena_from_buffer(__arena_buf, GAUT_DEFAULT_ARENA_CAP);",
        "",
        "  gaut_scope __scope0 = gaut_scope_enter(&__arena);",
        "  int32_t x = 10;",
        "  int32_t __ret0 = add(x, 2);",
        "  gaut_scope_leave(&__arena, __scope0);",
        "  return __ret0;",
        "}",
        "",
    ]);
    assert_eq!(c, expected);
}

fn concat_lines(lines: &[&str]) -> String {
    let mut s = String::new();
    for l in lines {
        s.push_str(l);
        s.push('\n');
    }
    s
}

fn body_of(c: &str, head: &str) -> String {
    let start = c.find(head).expect("function is there");
    let rest = &c[start..];
    let end = rest.find("}\n\n").expect("function ends");
    rest[..end].to_string()
}

#[test]
fn types_and_globals() {
    let src = r#"
        type Point = { x: i32, y: &Str }
        type Id = i64
        global origin: Point = { x: 0, y: &name }
        name: Str = "n"
        flag() -> bool = !true
        "#;
    let c = generate_c_from_source(src).unwrap();
    assert!(c.contains("typedef struct {\n  int32_t x;\n  char** y;\n} Point;\n\n"));
    assert!(c.contains("typedef int64_t Id;\n\n"));
    assert!(c.contains("Point origin = (Point){ .x = 0, .y = &name };\n\n"));
    assert!(c.contains("char* name = \"n\";\n\n"));
    assert!(c.contains("bool flag() {"));
    assert!(c.contains("  bool __ret0 = !true;\n"));
}

#[test]
fn unit_main_returns_zero() {
    let c = generate_c_from_source("main() = { print(\"x\") }").unwrap();
    // print returns Str, so the inferred return type of main is Str
    assert!(body_of(&c, "int main()").contains("char* __ret0 = print(\"x\");"));
    let c = generate_c_from_source("main() -> Unit = { print(\"x\") }").unwrap();
    let body = body_of(&c, "int main()");
    assert!(body.contains("  print(\"x\");\n  gaut_scope_leave(&__arena, __scope0);\n  return 0;\n"));
    let c = generate_c_from_source("f() -> Unit = { }").unwrap();
    let body = body_of(&c, "void f()");
    assert!(body.ends_with("gaut_scope __scope0 = gaut_scope_enter(&__arena);\n  gaut_scope_leave(&__arena, __scope0);\n"));
}

#[test]
fn missing_return_expression() {
    let err = generate_c_from_source("f() -> i32 = { x: i32 = 1 }").unwrap_err();
    assert_eq!(
        err,
        CgenError::Unsupported("missing return expression".to_string())
    );
}

#[test]
fn parse_errors_are_reported() {
    let err = generate_c_from_source("main() = {").unwrap_err();
    assert_eq!(err, CgenError::Parse("unexpected end of input".to_string()));
    let err = generate_c_from_source("main() = |").unwrap_err();
    assert_eq!(
        err,
        CgenError::Parse("lexer error: unexpected '|'".to_string())
    );
    let err = generate_c_from_source("main() = )").unwrap_err();
    assert_eq!(
        err,
        CgenError::Parse("unexpected token: expected expression, found RParen".to_string())
    );
}

#[test]
fn program_builtins_replace_shims() {
    let c = generate_c_from_source("print(msg: Str) = msg\nargs() = 0").unwrap();
    assert!(!c.contains("char* print(char* msg) { gaut_print(msg); return msg; }"));
    assert!(c.contains("char* println(char* msg) { gaut_println(msg); return msg; }"));
    assert!(c.contains("char* print(char* msg) {\n  gaut_print(msg);\n  return msg;\n}\n\n"));
    assert!(!c.contains("gaut_bytes args() { return gaut_args(); }"));
    assert!(c.contains("gaut_bytes args() {\n  return gaut_args();\n}\n\n"));
}

#[test]
fn block_expression_and_if() {
    let src = "f(a: i32) -> i32 = { b: i32 = { c: i32 = a c } if b < 1 then -b else b * 2 }";
    let c = generate_c_from_source(src).unwrap();
    let body = body_of(&c, "int32_t f(int32_t a)");
    assert!(body.contains(
        "  int32_t b = ({ gaut_scope __scope1 = gaut_scope_enter(&__arena); int32_t c = a;\nint32_t __tmp0 = c; gaut_scope_leave(&__arena, __scope1); __tmp0; });\n"
    ));
    assert!(body.contains("  int32_t __ret1 = (b < 1 ? -b : b * 2);\n"));
}

#[test]
fn string_results_leave_the_arena() {
    let src = "f(a: Str, b: Str) -> Str = a + b\ng(a: Str, b: Str) -> i32 = { c: Str = a + b 1 }";
    let c = generate_c_from_source(src).unwrap();
    assert!(body_of(&c, "char* f(").contains("char* __ret0 = gaut_str_concat_heap(a, b);"));
    assert!(body_of(&c, "int32_t g(").contains("char* c = gaut_str_concat_arena(&__arena, a, b);"));
}

#[test]
fn negative_and_large_literals() {
    let mut parser = Parser::new("x: i64 = 9223372036854775807\ny: i64 = 0").unwrap();
    let program = parser.parse_program().unwrap();
    let c = generate_c(&program).unwrap();
    assert!(c.contains("int64_t x = 9223372036854775807;"));
    assert!(c.contains("int64_t y = 0;"));
}

#[test]
fn first_declared_record_alias_names_a_literal() {
    let src = "type A = { x: i32 }\ntype B = { x: i32 }\nv: B = { x: 1 }\nw: C = { y: 1 }";
    let c = generate_c_from_source(src).unwrap();
    assert!(c.contains("B v = (A){ .x = 1 };"));
    assert!(c.contains("C w = (struct {\n  int32_t y;\n}){ .y = 1 };"));
}

#[test]
fn cyclic_aliases_do_not_hang() {
    let c = generate_c_from_source("type A = &A\nf(a: A) -> i32 = a.x").unwrap();
    assert!(c.contains("typedef A** A;"));
    assert!(c.contains("a->x"));
}

#[test]
fn integers_are_written_in_decimal() {
    let global = |name: &str, value: i64| {
        Decl::Global(Binding {
            mutable: false,
            name: Ident(name.to_string()),
            ty: Type::Named(Ident("i64".to_string())),
            value: Expr::Literal(Literal::Int(value)),
        })
    };
    let program = Program {
        decls: vec![
            global("a", -5),
            global("b", i64::MIN),
            global("c", 10),
            global("d", 9),
            global("e", -120),
        ],
    };
    let c = generate_c(&program).unwrap();
    assert!(c.contains("int64_t a = -5;\n"));
    assert!(c.contains("int64_t b = -9223372036854775808;\n"));
    assert!(c.contains("int64_t c = 10;\n"));
    assert!(c.contains("int64_t d = 9;\n"));
    assert!(c.contains("int64_t e = -120;\n"));
    assert_eq!(gaut::cgen::nat_to_string(0), "0");
    assert_eq!(gaut::cgen::nat_to_string(u64::MAX), "18446744073709551615");
    assert_eq!(gaut::cgen::int_to_string(i64::MAX), "9223372036854775807");
}

#[test]
fn scopes_and_temporaries_are_numbered() {
    let src = "f(a: i32) -> i32 = { b: i32 = { a }  c: i32 = { b }  c }";
    let c = generate_c_from_source(src).unwrap();
    let body = body_of(&c, "int32_t f(int32_t a)");
    assert!(body.contains("gaut_scope __scope0 = gaut_scope_enter(&__arena);\n"));
    assert!(body.contains("int32_t b = ({ gaut_scope __scope1 = gaut_scope_enter(&__arena); int32_t __tmp0 = a; gaut_scope_leave(&__arena, __scope1); __tmp0; });"));
    assert!(body.contains("int32_t c = ({ gaut_scope __scope2 = gaut_scope_enter(&__arena); int32_t __tmp1 = b; gaut_scope_leave(&__arena, __scope2); __tmp1; });"));
    assert!(body.contains("int32_t __ret2 = c;"));
}
