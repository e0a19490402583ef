//! The grammar, as mathematics.
//!
//! Every rule is a function from the tokens and a position to a piece of
//! syntax and the position behind it, or an error. Behind the last token
//! the parser sees `Eof` for ever. The executable parser in
//! [`crate::parser`] is proved to compute exactly these functions.

use crate::ast::{
    BinaryOp, BindingV, BlockV, DeclV, ExprV, FieldInitV, FieldV, FuncDeclV, LiteralV, Name,
    ParamV, PathV, StmtV, TypeV, UnaryOp,
};
use crate::lexer::{LexErrorV, TokenV};
use vstd::prelude::*;

verus! {

/// Model of a parser error.
pub enum ParserErrorV {
    Eof,
    UnexpectedToken { expected: Seq<char>, found: TokenV },
    InvalidNumber(Seq<char>),
    Lexer(Seq<char>),
}

/// A piece of syntax and the position behind it, or an error.
pub type Parse<T> = Result<(T, nat), ParserErrorV>;

/// The lexer's errors as parser errors.
pub open spec fn lex_error(e: LexErrorV) -> ParserErrorV {
    match e {
        LexErrorV::InvalidNumber(s) => ParserErrorV::InvalidNumber(s),
        LexErrorV::Lexer(s) => ParserErrorV::Lexer(s),
    }
}

/// The token at a position; `Eof` behind the last one.
pub open spec fn tok(ts: Seq<TokenV>, pos: nat) -> TokenV {
    if pos < ts.len() {
        ts[pos as int]
    } else {
        TokenV::Eof
    }
}

/// How many tokens are left at a position.
pub open spec fn left(ts: Seq<TokenV>, pos: nat) -> nat {
    if pos <= ts.len() {
        (ts.len() - pos) as nat
    } else {
        0
    }
}

/// The position behind a piece of syntax that was parsed from `pos` on and
/// is said to end at `end`. No rule ends before it starts (see
/// [`crate::parse_laws`]), so this is `end`; written this way, the rules are
/// seen to end without knowing that yet.
pub open spec fn fwd(pos: nat, end: nat) -> nat {
    if end >= pos {
        end
    } else {
        pos
    }
}

pub open spec fn unexpected<T>(msg: &str, found: TokenV) -> Parse<T> {
    Err(ParserErrorV::UnexpectedToken { expected: msg@, found })
}

/// The token `want` at `pos`, or an error that asks for `msg`.
pub open spec fn expect(ts: Seq<TokenV>, pos: nat, want: TokenV, msg: &str) -> Parse<()> {
    if tok(ts, pos) == want {
        Ok(((), pos + 1))
    } else {
        unexpected(msg, tok(ts, pos))
    }
}

/// A name at `pos`, or an error that asks for `msg`.
pub open spec fn expect_ident(ts: Seq<TokenV>, pos: nat, msg: &str) -> Parse<Name> {
    match tok(ts, pos) {
        TokenV::Ident(name) => Ok((name, pos + 1)),
        other => unexpected(msg, other),
    }
}

/// The segments of a path behind its first: `.` and a name, as often as
/// they come.
pub open spec fn path_rest(ts: Seq<TokenV>, pos: nat, acc: PathV) -> Parse<PathV>
    decreases left(ts, pos),
{
    if tok(ts, pos) == TokenV::Dot {
        match expect_ident(ts, pos + 1, "path segment") {
            Err(e) => Err(e),
            Ok((seg, _)) => path_rest(ts, pos + 2, acc.push(seg)),
        }
    } else {
        Ok((acc, pos))
    }
}

/// A path: names separated by dots.
pub open spec fn parse_path(ts: Seq<TokenV>, pos: nat) -> Parse<PathV> {
    match expect_ident(ts, pos, "path start") {
        Err(e) => Err(e),
        Ok((first, _)) => path_rest(ts, pos + 1, seq![first]),
    }
}

/// Looks ahead from `pos`, behind the start of the first field of what may
/// be a record literal: it is one where, outside any bracket, a comma or the
/// closing brace comes before any `=`.
pub open spec fn scan_record(ts: Seq<TokenV>, pos: nat, parens: nat, braces: nat) -> bool
    decreases left(ts, pos),
{
    if pos >= ts.len() {
        false
    } else {
        match ts[pos as int] {
            TokenV::LParen => scan_record(ts, pos + 1, parens + 1, braces),
            TokenV::RParen => scan_record(
                ts,
                pos + 1,
                if parens > 0 {
                    (parens - 1) as nat
                } else {
                    0
                },
                braces,
            ),
            TokenV::LBrace => scan_record(ts, pos + 1, parens, braces + 1),
            TokenV::RBrace => if braces == 0 && parens == 0 {
                true
            } else {
                scan_record(
                    ts,
                    pos + 1,
                    parens,
                    if braces > 0 {
                        (braces - 1) as nat
                    } else {
                        0
                    },
                )
            },
            TokenV::Comma => if braces == 0 && parens == 0 {
                true
            } else {
                scan_record(ts, pos + 1, parens, braces)
            },
            TokenV::Assign => if braces == 0 && parens == 0 {
                false
            } else {
                scan_record(ts, pos + 1, parens, braces)
            },
            _ => scan_record(ts, pos + 1, parens, braces),
        }
    }
}

/// Whether the tokens behind a `{` start a record literal: a name, a colon,
/// and then what [`scan_record`] asks for.
pub open spec fn looks_like_record_literal(ts: Seq<TokenV>, pos: nat) -> bool {
    tok(ts, pos) is Ident && tok(ts, pos + 1) == TokenV::Colon && scan_record(ts, pos + 2, 0, 0)
}

/// The binary operator that a token stands for on a level of precedence,
/// from 0, the loosest (`||`), to 5, the tightest (`*`, `/`).
pub open spec fn level_op(level: nat, t: TokenV) -> Option<BinaryOp> {
    match t {
        TokenV::OrOr if level == 0 => Some(BinaryOp::Or),
        TokenV::AndAnd if level == 1 => Some(BinaryOp::And),
        TokenV::EqEq if level == 2 => Some(BinaryOp::Eq),
        TokenV::Lt if level == 3 => Some(BinaryOp::Lt),
        TokenV::Plus if level == 4 => Some(BinaryOp::Add),
        TokenV::Minus if level == 4 => Some(BinaryOp::Sub),
        TokenV::Star if level == 5 => Some(BinaryOp::Mul),
        TokenV::Slash if level == 5 => Some(BinaryOp::Div),
        _ => None,
    }
}

pub open spec fn binary(left: ExprV, op: BinaryOp, right: ExprV) -> ExprV {
    ExprV::Binary { left: Box::new(left), op, right: Box::new(right) }
}

// ---------------------------------------------------------------------------
// Types
// ---------------------------------------------------------------------------
/// A type: `&` and a type, a record type in braces, or a name.
pub open spec fn parse_type(ts: Seq<TokenV>, pos: nat) -> Parse<TypeV>
    decreases left(ts, pos), 34nat,
{
    match tok(ts, pos) {
        TokenV::Amp => match parse_type(ts, pos + 1) {
            Err(e) => Err(e),
            Ok((inner, end)) => Ok((TypeV::Ref(Box::new(inner)), end)),
        },
        TokenV::LBrace => if tok(ts, pos + 1) == TokenV::RBrace {
            Ok((TypeV::Record(Seq::empty()), pos + 2))
        } else {
            type_fields(ts, pos + 1, Seq::empty())
        },
        _ => match expect_ident(ts, pos, "type name") {
            Err(e) => Err(e),
            Ok((name, end)) => Ok((TypeV::Named(name), end)),
        },
    }
}

/// The fields of a record type behind `acc`, up to the closing brace: each
/// a name, a colon and a type; a comma asks for another field.
pub open spec fn type_fields(ts: Seq<TokenV>, pos: nat, acc: Seq<FieldV>) -> Parse<TypeV>
    decreases left(ts, pos), 33nat,
{
    match expect_ident(ts, pos, "field name") {
        Err(e) => Err(e),
        Ok((name, _)) => match expect(ts, pos + 1, TokenV::Colon, "':' after field name") {
            Err(e) => Err(e),
            Ok(_) => match parse_type(ts, pos + 2) {
                Err(e) => Err(e),
                Ok((ty, end)) => {
                    let q = fwd(pos + 2, end);
                    let fields = acc.push(FieldV { name, ty });
                    if tok(ts, q) == TokenV::Comma {
                        type_fields(ts, q + 1, fields)
                    } else {
                        match expect(ts, q, TokenV::RBrace, "'}' to close record type") {
                            Err(e) => Err(e),
                            Ok(_) => Ok((TypeV::Record(fields), q + 1)),
                        }
                    }
                },
            },
        },
    }
}

/// The parameters of a function behind `acc`: each an optional `mut`, a
/// name, a colon and a type, separated by commas.
pub open spec fn parse_params(ts: Seq<TokenV>, pos: nat, acc: Seq<ParamV>) -> Parse<Seq<ParamV>> {
    params_rest(ts, pos, acc)
}

pub open spec fn params_rest(ts: Seq<TokenV>, pos: nat, acc: Seq<ParamV>) -> Parse<Seq<ParamV>>
    decreases left(ts, pos),
{
    let mutable = tok(ts, pos) == TokenV::KwMut;
    let p = if mutable {
        pos + 1
    } else {
        pos
    };
    match expect_ident(ts, p, "parameter name") {
        Err(e) => Err(e),
        Ok((name, _)) => match expect(ts, p + 1, TokenV::Colon, "':' after parameter name") {
            Err(e) => Err(e),
            Ok(_) => match parse_type(ts, p + 2) {
                Err(e) => Err(e),
                Ok((ty, end)) => {
                    let q = fwd(p + 2, end);
                    let params = acc.push(ParamV { mutable, name, ty });
                    if tok(ts, q) == TokenV::Comma {
                        params_rest(ts, q + 1, params)
                    } else {
                        Ok((params, q))
                    }
                },
            },
        },
    }
}

// ---------------------------------------------------------------------------
// Expressions, statements, blocks
// ---------------------------------------------------------------------------
/// An expression.
pub open spec fn parse_expr(ts: Seq<TokenV>, pos: nat) -> Parse<ExprV>
    decreases left(ts, pos), 30nat,
{
    parse_level(ts, pos, 0)
}

/// A chain of binary operators of one level of precedence and tighter ones,
/// grouped to the left.
pub open spec fn parse_level(ts: Seq<TokenV>, pos: nat, level: nat) -> Parse<ExprV>
    decreases left(ts, pos), (if level <= 5 {
        29 - 2 * level
    } else {
        18
    }),
{
    if level > 5 {
        parse_unary(ts, pos)
    } else {
        match parse_level(ts, pos, level + 1) {
            Err(e) => Err(e),
            Ok((first, end)) => level_rest(ts, fwd(pos, end), first, level),
        }
    }
}

/// What follows the first operand on a level: an operator of the level and
/// an operand, as often as they come.
pub open spec fn level_rest(ts: Seq<TokenV>, pos: nat, acc: ExprV, level: nat) -> Parse<ExprV>
    decreases left(ts, pos), (if level <= 5 {
        28 - 2 * level
    } else {
        0
    }),
{
    if level > 5 {
        Ok((acc, pos))
    } else {
        match level_op(level, tok(ts, pos)) {
            None => Ok((acc, pos)),
            Some(op) => match parse_level(ts, pos + 1, level + 1) {
                Err(e) => Err(e),
                Ok((right, end)) => level_rest(
                    ts,
                    fwd(pos + 1, end),
                    binary(acc, op, right),
                    level,
                ),
            },
        }
    }
}

/// A prefix operator (`-`, `!`, `copy`, `&`) and its operand, or what
/// [`parse_if`] parses.
pub open spec fn parse_unary(ts: Seq<TokenV>, pos: nat) -> Parse<ExprV>
    decreases left(ts, pos), 17nat,
{
    match tok(ts, pos) {
        TokenV::Minus => match parse_unary(ts, pos + 1) {
            Err(e) => Err(e),
            Ok((e, end)) => Ok((ExprV::Unary { op: UnaryOp::Neg, expr: Box::new(e) }, end)),
        },
        TokenV::Bang => match parse_unary(ts, pos + 1) {
            Err(e) => Err(e),
            Ok((e, end)) => Ok((ExprV::Unary { op: UnaryOp::Not, expr: Box::new(e) }, end)),
        },
        TokenV::KwCopy => match parse_unary(ts, pos + 1) {
            Err(e) => Err(e),
            Ok((e, end)) => Ok((ExprV::Copy(Box::new(e)), end)),
        },
        TokenV::Amp => match parse_unary(ts, pos + 1) {
            Err(e) => Err(e),
            Ok((e, end)) => Ok((ExprV::Ref(Box::new(e)), end)),
        },
        _ => parse_if(ts, pos),
    }
}

/// `if` condition `then` expression `else` expression, or what
/// [`parse_postfix`] parses.
pub open spec fn parse_if(ts: Seq<TokenV>, pos: nat) -> Parse<ExprV>
    decreases left(ts, pos), 16nat,
{
    if tok(ts, pos) == TokenV::KwIf {
        match parse_expr(ts, pos + 1) {
            Err(e) => Err(e),
            Ok((cond, end)) => {
                let q1 = fwd(pos + 1, end);
                match expect(ts, q1, TokenV::KwThen, "'then' in if expression") {
                    Err(e) => Err(e),
                    Ok(_) => match parse_expr(ts, q1 + 1) {
                        Err(e) => Err(e),
                        Ok((then_branch, end)) => {
                            let q2 = fwd(q1 + 1, end);
                            match expect(ts, q2, TokenV::KwElse, "'else' in if expression") {
                                Err(e) => Err(e),
                                Ok(_) => match parse_expr(ts, q2 + 1) {
                                    Err(e) => Err(e),
                                    Ok((else_branch, end)) => Ok(
                                        (
                                            ExprV::If {
                                                cond: Box::new(cond),
                                                then_branch: Box::new(then_branch),
                                                else_branch: Box::new(else_branch),
                                            },
                                            end,
                                        ),
                                    ),
                                },
                            }
                        },
                    },
                }
            },
        }
    } else {
        parse_postfix(ts, pos)
    }
}

/// A primary expression and the calls behind it.
pub open spec fn parse_postfix(ts: Seq<TokenV>, pos: nat) -> Parse<ExprV>
    decreases left(ts, pos), 15nat,
{
    match parse_primary(ts, pos) {
        Err(e) => Err(e),
        Ok((first, end)) => postfix_rest(ts, fwd(pos, end), first),
    }
}

/// The calls behind an expression: `(`, arguments separated by commas, and
/// `)`, as often as they come. What is called must be a path.
pub open spec fn postfix_rest(ts: Seq<TokenV>, pos: nat, acc: ExprV) -> Parse<ExprV>
    decreases left(ts, pos), 14nat,
{
    if tok(ts, pos) == TokenV::LParen {
        match acc {
            ExprV::Path(callee) => match call_tail(ts, pos + 1, callee) {
                Err(e) => Err(e),
                Ok((call, end)) => postfix_rest(ts, fwd(pos + 1, end), call),
            },
            _ => unexpected("callable path", TokenV::LParen),
        }
    } else {
        Ok((acc, pos))
    }
}

/// A call of `callee` behind its opening `(`: the arguments and the
/// closing `)`.
pub open spec fn call_tail(ts: Seq<TokenV>, pos: nat, callee: PathV) -> Parse<ExprV>
    decreases left(ts, pos), 33nat,
{
    if tok(ts, pos) == TokenV::RParen {
        Ok((ExprV::FuncCall { callee, args: Seq::empty() }, pos + 1))
    } else {
        match call_args(ts, pos, Seq::empty()) {
            Err(e) => Err(e),
            Ok((args, end)) => Ok((ExprV::FuncCall { callee, args }, end)),
        }
    }
}

/// The arguments of a call behind `acc`, up to and with the closing `)`.
pub open spec fn call_args(ts: Seq<TokenV>, pos: nat, acc: Seq<ExprV>) -> Parse<Seq<ExprV>>
    decreases left(ts, pos), 32nat,
{
    match parse_expr(ts, pos) {
        Err(e) => Err(e),
        Ok((arg, end)) => {
            let q = fwd(pos, end);
            let args = acc.push(arg);
            if tok(ts, q) == TokenV::Comma {
                call_args(ts, q + 1, args)
            } else {
                match expect(ts, q, TokenV::RParen, "')' after call args") {
                    Err(e) => Err(e),
                    Ok(_) => Ok((args, q + 1)),
                }
            }
        },
    }
}

/// A path, a literal, an expression in parentheses, `()`, a record literal
/// or a block.
pub open spec fn parse_primary(ts: Seq<TokenV>, pos: nat) -> Parse<ExprV>
    decreases left(ts, pos), 13nat,
{
    match tok(ts, pos) {
        TokenV::Ident(name) => match path_rest(ts, pos + 1, seq![name]) {
            Err(e) => Err(e),
            Ok((path, end)) => Ok((ExprV::Path(path), end)),
        },
        TokenV::Int(v) => Ok((ExprV::Literal(LiteralV::Int(v)), pos + 1)),
        TokenV::Str(s) => Ok((ExprV::Literal(LiteralV::Str(s)), pos + 1)),
        TokenV::Bool(b) => Ok((ExprV::Literal(LiteralV::Bool(b)), pos + 1)),
        TokenV::LParen => if tok(ts, pos + 1) == TokenV::RParen {
            Ok((ExprV::Literal(LiteralV::Unit), pos + 2))
        } else {
            match parse_expr(ts, pos + 1) {
                Err(e) => Err(e),
                Ok((e, end)) => {
                    let q = fwd(pos + 1, end);
                    match expect(ts, q, TokenV::RParen, "')' after expression") {
                        Err(e) => Err(e),
                        Ok(_) => Ok((e, q + 1)),
                    }
                },
            }
        },
        TokenV::LBrace => if tok(ts, pos + 1) == TokenV::RBrace {
            Ok((ExprV::Block(BlockV { stmts: Seq::empty(), tail: None }), pos + 2))
        } else if looks_like_record_literal(ts, pos + 1) {
            record_fields(ts, pos + 1, Seq::empty())
        } else {
            match parse_block(ts, pos) {
                Err(e) => Err(e),
                Ok((b, end)) => Ok((ExprV::Block(b), end)),
            }
        },
        other => unexpected("expression", other),
    }
}

/// The fields of a record literal behind `acc`, up to the closing brace:
/// each a name, a colon and an expression; a comma asks for another field.
pub open spec fn record_fields(ts: Seq<TokenV>, pos: nat, acc: Seq<FieldInitV>) -> Parse<ExprV>
    decreases left(ts, pos), 31nat,
{
    match expect_ident(ts, pos, "field name") {
        Err(e) => Err(e),
        Ok((name, _)) => match expect(ts, pos + 1, TokenV::Colon, "':' after field name") {
            Err(e) => Err(e),
            Ok(_) => match parse_expr(ts, pos + 2) {
                Err(e) => Err(e),
                Ok((value, end)) => {
                    let q = fwd(pos + 2, end);
                    let fields = acc.push(FieldInitV { name, value });
                    if tok(ts, q) == TokenV::Comma {
                        record_fields(ts, q + 1, fields)
                    } else {
                        match expect(ts, q, TokenV::RBrace, "'}' after record literal") {
                            Err(e) => Err(e),
                            Ok(_) => Ok((ExprV::RecordLit(fields), q + 1)),
                        }
                    }
                },
            },
        },
    }
}

/// A block: `{`, statements, and `}`.
pub open spec fn parse_block(ts: Seq<TokenV>, pos: nat) -> Parse<BlockV>
    decreases left(ts, pos), 12nat,
{
    match expect(ts, pos, TokenV::LBrace, "'{' to start block") {
        Err(e) => Err(e),
        Ok(_) => block_rest(ts, pos + 1, Seq::empty()),
    }
}

/// The statements of a block behind `acc`, up to and with the closing
/// brace. An expression statement right before the brace is the tail of the
/// block. A block that the text ends in is an `Eof` error.
pub open spec fn block_rest(ts: Seq<TokenV>, pos: nat, acc: Seq<StmtV>) -> Parse<BlockV>
    decreases left(ts, pos), 38nat,
{
    if tok(ts, pos) == TokenV::RBrace {
        Ok((BlockV { stmts: acc, tail: None }, pos + 1))
    } else if tok(ts, pos) == TokenV::Eof {
        Err(ParserErrorV::Eof)
    } else {
        match parse_stmt(ts, pos) {
            Err(e) => Err(e),
            Ok((stmt, end)) => {
                let q = fwd(pos, end);
                if tok(ts, q) == TokenV::RBrace {
                    match stmt {
                        StmtV::Expr(e) => Ok(
                            (BlockV { stmts: acc, tail: Some(Box::new(e)) }, q + 1),
                        ),
                        _ => Ok((BlockV { stmts: acc.push(stmt), tail: None }, q + 1)),
                    }
                } else if q > pos {
                    block_rest(ts, q, acc.push(stmt))
                } else {
                    // a statement holds at least one token
                    Err(ParserErrorV::Eof)
                }
            },
        }
    }
}

/// A statement: a binding (`mut`, or a name and a colon, first), an
/// assignment (a path and `=`), or an expression.
pub open spec fn parse_stmt(ts: Seq<TokenV>, pos: nat) -> Parse<StmtV>
    decreases left(ts, pos), 37nat,
{
    if tok(ts, pos) == TokenV::KwMut || (tok(ts, pos) is Ident && tok(ts, pos + 1)
        == TokenV::Colon) {
        match parse_binding(ts, pos) {
            Err(e) => Err(e),
            Ok((b, end)) => Ok((StmtV::Binding(b), end)),
        }
    } else {
        match parse_path(ts, pos) {
            Ok((target, end)) if tok(ts, fwd(pos, end)) == TokenV::Assign => match parse_expr(
                ts,
                fwd(pos, end) + 1,
            ) {
                Err(e) => Err(e),
                Ok((value, end)) => Ok((StmtV::Assign { target, value }, end)),
            },
            _ => match parse_expr(ts, pos) {
                Err(e) => Err(e),
                Ok((e, end)) => Ok((StmtV::Expr(e), end)),
            },
        }
    }
}

/// A binding: an optional `mut`, a name, a colon, a type, `=` and an
/// expression.
pub open spec fn parse_binding(ts: Seq<TokenV>, pos: nat) -> Parse<BindingV>
    decreases left(ts, pos), 36nat,
{
    let mutable = tok(ts, pos) == TokenV::KwMut;
    let p = if mutable {
        pos + 1
    } else {
        pos
    };
    match expect_ident(ts, p, "binding name") {
        Err(e) => Err(e),
        Ok((name, _)) => match expect(ts, p + 1, TokenV::Colon, "':' after binding name") {
            Err(e) => Err(e),
            Ok(_) => match parse_type(ts, p + 2) {
                Err(e) => Err(e),
                Ok((ty, end)) => {
                    let q = fwd(p + 2, end);
                    match expect(ts, q, TokenV::Assign, "'=' after binding type") {
                        Err(e) => Err(e),
                        Ok(_) => match parse_expr(ts, q + 1) {
                            Err(e) => Err(e),
                            Ok((value, end)) => Ok((BindingV { mutable, name, ty, value }, end)),
                        },
                    }
                },
            },
        },
    }
}

// ---------------------------------------------------------------------------
// Declarations
// ---------------------------------------------------------------------------
/// The rest of a function behind its parameters: `)`, an optional `->` and
/// type, `=` and the body.
pub open spec fn func_rest(ts: Seq<TokenV>, pos: nat, name: Name, params: Seq<ParamV>) -> Parse<
    DeclV,
> {
    match expect(ts, pos, TokenV::RParen, "')' after params") {
        Err(e) => Err(e),
        Ok(_) => {
            let ret = if tok(ts, pos + 1) == TokenV::Arrow {
                match parse_type(ts, pos + 2) {
                    Err(e) => Err(e),
                    Ok((ty, end)) => Ok((Some(ty), fwd(pos + 2, end))),
                }
            } else {
                Ok((None, pos + 1))
            };
            match ret {
                Err(e) => Err(e),
                Ok((ret, q)) => match expect(ts, q, TokenV::Assign, "'=' before function body") {
                    Err(e) => Err(e),
                    Ok(_) => match parse_expr(ts, q + 1) {
                        Err(e) => Err(e),
                        Ok((body, end)) => Ok(
                            (DeclV::Func(FuncDeclV { name, params, ret, body }), end),
                        ),
                    },
                },
            }
        },
    }
}

/// A declaration: `import` and a name; `global` and a binding; `type`, a
/// name, `=` and a type; a function (a name and `(` first); or a binding.
pub open spec fn parse_decl(ts: Seq<TokenV>, pos: nat) -> Parse<DeclV> {
    match tok(ts, pos) {
        TokenV::KwImport => match expect_ident(ts, pos + 1, "module name") {
            Err(e) => Err(e),
            Ok((module, end)) => Ok((DeclV::Import(module), end)),
        },
        TokenV::KwGlobal => match parse_binding(ts, pos + 1) {
            Err(e) => Err(e),
            Ok((b, end)) => Ok((DeclV::Global(b), end)),
        },
        TokenV::KwType => match expect_ident(ts, pos + 1, "type name") {
            Err(e) => Err(e),
            Ok((name, _)) => match expect(ts, pos + 2, TokenV::Assign, "'=' after type name") {
                Err(e) => Err(e),
                Ok(_) => match parse_type(ts, pos + 3) {
                    Err(e) => Err(e),
                    Ok((ty, end)) => Ok((DeclV::Type { name, ty }, end)),
                },
            },
        },
        TokenV::Ident(name) if tok(ts, pos + 1) == TokenV::LParen => {
            if tok(ts, pos + 2) == TokenV::RParen {
                func_rest(ts, pos + 2, name, Seq::empty())
            } else {
                match parse_params(ts, pos + 2, Seq::empty()) {
                    Err(e) => Err(e),
                    Ok((params, end)) => func_rest(ts, fwd(pos + 2, end), name, params),
                }
            }
        },
        _ => match parse_binding(ts, pos) {
            Err(e) => Err(e),
            Ok((b, end)) => Ok((DeclV::Let(b), end)),
        },
    }
}

/// The declarations of a program behind `acc`, up to `Eof`.
pub open spec fn program_rest(ts: Seq<TokenV>, pos: nat, acc: Seq<DeclV>) -> Parse<Seq<DeclV>>
    decreases left(ts, pos),
{
    if tok(ts, pos) == TokenV::Eof {
        Ok((acc, pos))
    } else {
        match parse_decl(ts, pos) {
            Err(e) => Err(e),
            Ok((d, end)) => if end > pos {
                program_rest(ts, end, acc.push(d))
            } else {
                // a declaration holds at least one token
                Err(ParserErrorV::Eof)
            },
        }
    }
}

/// A program: declarations up to the end of the text.
pub open spec fn parse_program(ts: Seq<TokenV>, pos: nat) -> Parse<Seq<DeclV>> {
    program_rest(ts, pos, Seq::empty())
}

} // verus!
