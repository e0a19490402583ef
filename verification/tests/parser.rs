use gaut::ast::{BinaryOp, Decl, Expr, Literal, Program, Stmt, Type};
use gaut::lexer::{lex, Token};
use gaut::parser::{Parser, ParserError};

fn parse_ok(src: &str) -> Program {
    let mut p = Parser::new(src).unwrap();
    p.parse_program().unwrap()
}

#[test]
fn parse_hello_world() {
    let src = r#"
        global greeting: Str = "hello"

        print(msg: Str) = {
          msg
        }

        main() = {
          msg: Str = greeting + " world"
          print(msg)
        }
        "#;
    let program = parse_ok(src);
    assert_eq!(program.decls.len(), 3);
}

#[test]
fn parse_calc() {
    let src = r#"
        add(a: i32, b: i32) -> i32 = a + b

        main() = {
          x: i32 = 10
          y: i32 = 20
          sum: i32 = add(x, y)
          copy sum
        }
        "#;
    let program = parse_ok(src);
    assert_eq!(program.decls.len(), 2);
}

#[test]
fn parse_record_and_ref() {
    let src = r#"
        type Point = { x: i32, y: i32 }

        shift(p: Point, dx: i32, dy: i32) -> Point = {
          mut moved: Point = p
          moved.x = moved.x + dx
          moved.y = moved.y + dy
          moved
        }

        length_x(p: &Point) -> i32 = p.x

        main() = {
          origin: Point = { x: 0, y: 0 }
          p1: Point = shift(origin, 5, 0)
          px: i32 = length_x(&p1)
          copy px
        }
        "#;
    let program = parse_ok(src);
    assert_eq!(program.decls.len(), 4);
}

#[test]
fn fails_on_incomplete_if() {
    let src = "if true then 1";
    let mut parser = Parser::new(src).unwrap();
    let err = parser.parse_program().unwrap_err();
    assert!(matches!(err, ParserError::UnexpectedToken { .. }));
}

#[test]
fn lexes_every_kind_of_token() {
    let tokens = lex("import global mut type if then else copy true false x_1 42 \"a b\" { } ( ) : , . = -> & + - * / < == && || ! // rest\n_y")
        .ok()
        .expect("lex");
    let expected = vec![
        Token::KwImport,
        Token::KwGlobal,
        Token::KwMut,
        Token::KwType,
        Token::KwIf,
        Token::KwThen,
        Token::KwElse,
        Token::KwCopy,
        Token::Bool(true),
        Token::Bool(false),
        Token::Ident("x_1".to_string()),
        Token::Int(42),
        Token::Str("a b".to_string()),
        Token::LBrace,
        Token::RBrace,
        Token::LParen,
        Token::RParen,
        Token::Colon,
        Token::Comma,
        Token::Dot,
        Token::Assign,
        Token::Arrow,
        Token::Amp,
        Token::Plus,
        Token::Minus,
        Token::Star,
        Token::Slash,
        Token::Lt,
        Token::EqEq,
        Token::AndAnd,
        Token::OrOr,
        Token::Bang,
        Token::Ident("_y".to_string()),
        Token::Eof,
    ];
    assert_eq!(tokens, expected);
}

#[test]
fn lexer_errors() {
    assert_eq!(
        Parser::new("a | b").err(),
        Some(ParserError::Lexer("unexpected '|'".to_string()))
    );
    assert_eq!(
        Parser::new("a # b").err(),
        Some(ParserError::Lexer("unexpected char '#'".to_string()))
    );
    assert_eq!(
        Parser::new("x: i64 = 9223372036854775808").err(),
        Some(ParserError::InvalidNumber("9223372036854775808".to_string()))
    );
    assert!(Parser::new("x: i64 = 9223372036854775807").is_ok());
    // `=` before `>` is dropped, and `>` is no token
    assert_eq!(
        Parser::new("a => b").err(),
        Some(ParserError::Lexer("unexpected char '>'".to_string()))
    );
}

#[test]
fn unterminated_string_runs_to_the_end() {
    let tokens = lex("\"abc").ok().expect("lex");
    assert_eq!(tokens, vec![Token::Str("abc".to_string()), Token::Eof]);
}

#[test]
fn parser_error_messages() {
    assert_eq!(ParserError::Eof.to_string(), "unexpected end of input");
    assert_eq!(
        ParserError::InvalidNumber("99".to_string()).to_string(),
        "invalid number literal: 99"
    );
    assert_eq!(
        ParserError::Lexer("unexpected '|'".to_string()).to_string(),
        "lexer error: unexpected '|'"
    );
    assert_eq!(
        ParserError::UnexpectedToken {
            expected: "expression",
            found: Token::Ident("x".to_string())
        }
        .to_string(),
        "unexpected token: expected expression, found Ident(\"x\")"
    );
}

#[test]
fn precedence_groups_to_the_left() {
    // 1 - 2 - 3 * 4  is  (1 - 2) - (3 * 4)
    let program = parse_ok("x: i32 = 1 - 2 - 3 * 4");
    let Decl::Let(b) = &program.decls[0] else {
        panic!("a binding");
    };
    let Expr::Binary(outer) = &b.value else {
        panic!("a binary expression");
    };
    assert_eq!(outer.op, BinaryOp::Sub);
    let Expr::Binary(l) = &*outer.left else {
        panic!("left is binary");
    };
    assert_eq!(l.op, BinaryOp::Sub);
    assert_eq!(*l.left, Expr::Literal(Literal::Int(1)));
    assert_eq!(*l.right, Expr::Literal(Literal::Int(2)));
    let Expr::Binary(r) = &*outer.right else {
        panic!("right is binary");
    };
    assert_eq!(r.op, BinaryOp::Mul);
}

#[test]
fn block_tail_and_statements() {
    let program = parse_ok("f() = { a: i32 = 1 a = 2 g(a) a }");
    let Decl::Func(f) = &program.decls[0] else {
        panic!("a function");
    };
    let Expr::Block(b) = &f.body else {
        panic!("a block");
    };
    assert_eq!(b.stmts.len(), 3);
    assert!(matches!(b.stmts[0], Stmt::Binding(_)));
    assert!(matches!(b.stmts[1], Stmt::Assign(_)));
    assert!(matches!(b.stmts[2], Stmt::Expr(Expr::FuncCall(_))));
    assert!(matches!(b.tail.as_deref(), Some(Expr::Path(_))));
}

#[test]
fn record_literal_or_block() {
    let program = parse_ok("a: R = { x: 1, y: 2 }  f() = { x: i32 = 1 x }  g() = {}  u: Unit = ()");
    let Decl::Let(a) = &program.decls[0] else {
        panic!("a binding");
    };
    assert!(matches!(a.value, Expr::RecordLit(_)));
    let Decl::Func(f) = &program.decls[1] else {
        panic!("a function");
    };
    assert!(matches!(f.body, Expr::Block(_)));
    let Decl::Func(g) = &program.decls[2] else {
        panic!("a function");
    };
    assert!(matches!(&g.body, Expr::Block(b) if b.stmts.is_empty() && b.tail.is_none()));
    let Decl::Let(u) = &program.decls[3] else {
        panic!("a binding");
    };
    assert_eq!(u.value, Expr::Literal(Literal::Unit));
}

#[test]
fn types_parse() {
    let program = parse_ok("type A = &{ x: i32, y: &Str }  type E = {}");
    let Decl::Type(a) = &program.decls[0] else {
        panic!("a type");
    };
    let Type::Ref(inner) = &a.ty else {
        panic!("a reference");
    };
    let Type::Record(fields) = &**inner else {
        panic!("a record");
    };
    assert_eq!(fields.len(), 2);
    assert_eq!(fields[0].name.0, "x");
    assert!(matches!(fields[1].ty, Type::Ref(_)));
    let Decl::Type(e) = &program.decls[1] else {
        panic!("a type");
    };
    assert_eq!(e.ty, Type::Record(vec![]));
}

#[test]
fn block_without_end_is_eof() {
    let mut parser = Parser::new("f() = { a").unwrap();
    assert_eq!(parser.parse_program().unwrap_err(), ParserError::Eof);
}

#[test]
fn call_needs_a_path() {
    let mut parser = Parser::new("x: i32 = 1(2)").unwrap();
    assert_eq!(
        parser.parse_program().unwrap_err(),
        ParserError::UnexpectedToken {
            expected: "callable path",
            found: Token::LParen
        }
    );
}
