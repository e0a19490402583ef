//! The parser: from text to syntax.
//!
//! Every method is proved to compute the rule of the same name in
//! [`crate::parse_rules`] on the tokens of the text, and never to end before
//! it starts.

use crate::ast::{
    exprs_view, field_inits_view, idents_view, params_view, stmts_view, Assign, BinaryExpr,
    BinaryOp, Binding, Block, Decl, Expr, ExprV, FieldInit, FieldInitV, FieldType, FieldV,
    FuncCall, FuncDecl, Ident, IfExpr, ImportDecl, Literal, Param, ParamV, Path, Program,
    RecordLit, Stmt, StmtV, Type, TypeDecl, UnaryExpr, UnaryOp, DeclV,
};
use crate::lexer::{lex, lex_spec, same_token, tokens_view, LexError, Token, TokenV};
use crate::parse_rules;
use crate::parse_rules::{Parse, ParserErrorV};
use vstd::prelude::*;

verus! {

/// Why a text is no program.
#[derive(Debug, PartialEq, Eq)]
pub enum ParserError {
    Eof,
    UnexpectedToken { expected: &'static str, found: Token },
    InvalidNumber(String),
    Lexer(String),
}

impl View for ParserError {
    type V = ParserErrorV;

    open spec fn view(&self) -> ParserErrorV {
        match self {
            ParserError::Eof => ParserErrorV::Eof,
            ParserError::UnexpectedToken { expected, found } => ParserErrorV::UnexpectedToken {
                expected: expected@,
                found: found@,
            },
            ParserError::InvalidNumber(s) => ParserErrorV::InvalidNumber(s@),
            ParserError::Lexer(s) => ParserErrorV::Lexer(s@),
        }
    }
}

/// What `{:?}` prints for a token.
pub uninterp spec fn token_debug_text(t: TokenV) -> Seq<char>;

/// The text that `{:?}` prints for a token.
#[verifier::external_body]
fn token_debug(t: &Token) -> (r: String)
    ensures
        r@ == token_debug_text(t@),
{
    format!("{:?}", t)
}

/// The message of a parser error.
pub open spec fn error_text(e: ParserErrorV) -> Seq<char> {
    match e {
        ParserErrorV::Eof => "unexpected end of input"@,
        ParserErrorV::UnexpectedToken { expected, found } => "unexpected token: expected "@
            + expected + ", found "@ + token_debug_text(found),
        ParserErrorV::InvalidNumber(s) => "invalid number literal: "@ + s,
        ParserErrorV::Lexer(s) => "lexer error: "@ + s,
    }
}

impl ParserError {
    /// The message of the error.
    pub fn to_string(&self) -> (r: String)
        ensures
            r@ == error_text(self@),
    {
        match self {
            ParserError::Eof => String::from_str("unexpected end of input"),
            ParserError::UnexpectedToken { expected, found } => {
                let mut s = String::from_str("unexpected token: expected ");
                s.append(expected);
                s.append(", found ");
                s.append(token_debug(found).as_str());
                s
            },
            ParserError::InvalidNumber(n) => {
                let mut s = String::from_str("invalid number literal: ");
                s.append(n.as_str());
                s
            },
            ParserError::Lexer(m) => {
                let mut s = String::from_str("lexer error: ");
                s.append(m.as_str());
                s
            },
        }
    }
}

/// A parser over the tokens of a text.
pub struct Parser<'a> {
    tokens: Vec<Token>,
    pos: usize,
    eof: Token,
    _src: &'a str,
}

/// The executable result `r`, with the parser at `end`, is what the rule
/// gives.
pub open spec fn agrees<T: View>(r: Result<T, ParserError>, end: nat, want: Parse<T::V>) -> bool {
    match want {
        Ok((v, e)) => r matches Ok(x) && x@ == v && end == e,
        Err(err) => r matches Err(x) && x@ == err,
    }
}

/// As [`agrees`], for a result whose model is `model`.
pub open spec fn agrees_as<T, V>(
    r: Result<T, ParserError>,
    model: spec_fn(T) -> V,
    end: nat,
    want: Parse<V>,
) -> bool {
    match want {
        Ok((v, e)) => r matches Ok(x) && model(x) == v && end == e,
        Err(err) => r matches Err(x) && x@ == err,
    }
}

/// The operator of a level that a token stands for.
fn level_op(level: u8, t: &Token) -> (r: Option<BinaryOp>)
    ensures
        r == parse_rules::level_op(level as nat, t@),
{
    match t {
        Token::OrOr => if level == 0 {
            Some(BinaryOp::Or)
        } else {
            None
        },
        Token::AndAnd => if level == 1 {
            Some(BinaryOp::And)
        } else {
            None
        },
        Token::EqEq => if level == 2 {
            Some(BinaryOp::Eq)
        } else {
            None
        },
        Token::Lt => if level == 3 {
            Some(BinaryOp::Lt)
        } else {
            None
        },
        Token::Plus => if level == 4 {
            Some(BinaryOp::Add)
        } else {
            None
        },
        Token::Minus => if level == 4 {
            Some(BinaryOp::Sub)
        } else {
            None
        },
        Token::Star => if level == 5 {
            Some(BinaryOp::Mul)
        } else {
            None
        },
        Token::Slash => if level == 5 {
            Some(BinaryOp::Div)
        } else {
            None
        },
        _ => None,
    }
}

impl<'a> Parser<'a> {
    /// What holds of a parser between calls: its position is inside the
    /// tokens or right behind them.
    pub closed spec fn wf(&self) -> bool {
        &&& self.pos <= self.tokens@.len()
        &&& self.eof@ == TokenV::Eof
    }

    /// The tokens of the text.
    pub closed spec fn toks(&self) -> Seq<TokenV> {
        tokens_view(self.tokens@)
    }

    /// The position of the parser.
    pub closed spec fn position(&self) -> nat {
        self.pos as nat
    }

    /// How many tokens are left.
    pub open spec fn remaining(&self) -> nat {
        parse_rules::left(self.toks(), self.position())
    }

    /// The parser kept its tokens and did not go back.
    pub open spec fn kept(&self, after: &Self) -> bool {
        &&& after.wf()
        &&& after.toks() == self.toks()
        &&& after.position() >= self.position()
    }

    /// A parser at the start of the tokens of `source`.
    pub fn new(source: &'a str) -> (r: Result<Self, ParserError>)
        ensures
            match lex_spec(source@) {
                Ok(ts) => r matches Ok(p) && p.wf() && p.toks() == ts && p.position() == 0,
                Err(e) => r matches Err(x) && x@ == parse_rules::lex_error(e),
            },
    {
        match lex(source) {
            Ok(tokens) => Ok(Parser { tokens, pos: 0, eof: Token::Eof, _src: source }),
            Err(LexError::InvalidNumber(s)) => Err(ParserError::InvalidNumber(s)),
            Err(LexError::Lexer(s)) => Err(ParserError::Lexer(s)),
        }
    }

    // --- token helpers ---
    fn peek(&self) -> (t: &Token)
        requires
            self.wf(),
        ensures
            t@ == parse_rules::tok(self.toks(), self.position()),
    {
        if self.pos < self.tokens.len() {
            &self.tokens[self.pos]
        } else {
            &self.eof
        }
    }

    /// The token behind the next one.
    fn peek_next(&self) -> (t: &Token)
        requires
            self.wf(),
        ensures
            t@ == parse_rules::tok(self.toks(), self.position() + 1),
    {
        if self.pos < self.tokens.len() && self.pos + 1 < self.tokens.len() {
            &self.tokens[self.pos + 1]
        } else {
            &self.eof
        }
    }

    fn check(&self, token: &Token) -> (b: bool)
        requires
            self.wf(),
        ensures
            b == (parse_rules::tok(self.toks(), self.position()) == token@),
    {
        same_token(self.peek(), token)
    }

    fn peek_is_ident(&self) -> (b: bool)
        requires
            self.wf(),
        ensures
            b == (parse_rules::tok(self.toks(), self.position()) is Ident),
    {
        match self.peek() {
            Token::Ident(_) => true,
            _ => false,
        }
    }

    fn peek_next_is(&self, expected: &Token) -> (b: bool)
        requires
            self.wf(),
        ensures
            b == (parse_rules::tok(self.toks(), self.position() + 1) == expected@),
    {
        same_token(self.peek_next(), expected)
    }

    fn advance(&mut self) -> (t: Token)
        requires
            old(self).wf(),
        ensures
            old(self).kept(final(self)),
            t@ == parse_rules::tok(old(self).toks(), old(self).position()),
            final(self).position() == (if old(self).position() < old(self).toks().len() {
                old(self).position() + 1
            } else {
                old(self).position()
            }),
    {
        let tok = self.peek().clone();
        if self.pos < self.tokens.len() {
            self.pos += 1;
        }
        tok
    }

    /// Takes the next token if it is `token`.
    fn accept(&mut self, token: &Token) -> (b: bool)
        requires
            old(self).wf(),
            token@ != TokenV::Eof,
        ensures
            old(self).kept(final(self)),
            b == (parse_rules::tok(old(self).toks(), old(self).position()) == token@),
            final(self).position() == (if b {
                old(self).position() + 1
            } else {
                old(self).position()
            }),
            b ==> old(self).position() < old(self).toks().len(),
    {
        if self.check(token) {
            let _ = self.advance();
            true
        } else {
            false
        }
    }

    fn expect(&mut self, token: &Token, msg: &'static str) -> (r: Result<(), ParserError>)
        requires
            old(self).wf(),
            token@ != TokenV::Eof,
        ensures
            old(self).kept(final(self)),
            agrees(
                r,
                final(self).position(),
                parse_rules::expect(old(self).toks(), old(self).position(), token@, msg),
            ),
            r is Ok ==> old(self).position() < old(self).toks().len(),
    {
        if self.check(token) {
            let _ = self.advance();
            Ok(())
        } else {
            Err(ParserError::UnexpectedToken { expected: msg, found: self.peek().clone() })
        }
    }

    fn expect_ident(&mut self, msg: &'static str) -> (r: Result<Ident, ParserError>)
        requires
            old(self).wf(),
        ensures
            old(self).kept(final(self)),
            agrees(
                r,
                final(self).position(),
                parse_rules::expect_ident(old(self).toks(), old(self).position(), msg),
            ),
            r is Ok ==> old(self).position() < old(self).toks().len(),
    {
        match self.advance() {
            Token::Ident(name) => Ok(Ident(name)),
            other => Err(ParserError::UnexpectedToken { expected: msg, found: other }),
        }
    }

    /// The segments of a path behind those in `idents`.
    #[verifier::loop_isolation(false)]
    fn path_rest(&mut self, idents: Vec<Ident>) -> (r: Result<Path, ParserError>)
        requires
            old(self).wf(),
        ensures
            old(self).kept(final(self)),
            agrees(
                r,
                final(self).position(),
                parse_rules::path_rest(
                    old(self).toks(),
                    old(self).position(),
                    idents_view(idents@),
                ),
            ),
    {
        let mut idents = idents;
        let ghost ts = self.toks();
        let ghost first = idents_view(idents@);
        while self.accept(&Token::Dot)
            invariant
                old(self).kept(self),
                parse_rules::path_rest(ts, old(self).position(), first) == parse_rules::path_rest(
                    ts,
                    self.position(),
                    idents_view(idents@),
                ),
            decreases self.remaining(),
        {
            let seg = match self.expect_ident("path segment") {
                Ok(s) => s,
                Err(e) => {
                    return Err(e);
                },
            };
            proof {
                assert(idents_view(idents@.push(seg)) =~= idents_view(idents@).push(seg@));
            }
            idents.push(seg);
        }
        Ok(Path(idents))
    }

    // --- path helper ---
    fn try_parse_path(&mut self) -> (r: Result<Path, ParserError>)
        requires
            old(self).wf(),
        ensures
            old(self).kept(final(self)),
            agrees(
                r,
                final(self).position(),
                parse_rules::parse_path(old(self).toks(), old(self).position()),
            ),
    {
        let first = match self.expect_ident("path start") {
            Ok(s) => s,
            Err(e) => {
                return Err(e);
            },
        };
        let mut idents: Vec<Ident> = Vec::new();
        idents.push(first);
        proof {
            assert(idents_view(idents@) =~= seq![first@]);
        }
        self.path_rest(idents)
    }

    #[verifier::loop_isolation(false)]
    fn looks_like_record_literal(&self) -> (b: bool)
        requires
            self.wf(),
        ensures
            b == parse_rules::looks_like_record_literal(self.toks(), self.position()),
    {
        // Assumes current position is just after '{'
        if !self.peek_is_ident() {
            return false;
        }
        if !self.peek_next_is(&Token::Colon) {
            return false;
        }
        let ghost ts = self.toks();
        assert(self.tokens@.len() == self.tokens.len());
        let mut idx: usize = self.pos + 2;
        let mut depth_paren: usize = 0;
        let mut depth_brace: usize = 0;
        while idx < self.tokens.len()
            invariant
                self.pos + 2 <= idx,
                depth_paren <= idx,
                depth_brace <= idx,
                parse_rules::scan_record(ts, self.position() + 2, 0, 0) == parse_rules::scan_record(
                    ts,
                    idx as nat,
                    depth_paren as nat,
                    depth_brace as nat,
                ),
            decreases self.tokens.len() - idx,
        {
            match &self.tokens[idx] {
                Token::LParen => {
                    depth_paren += 1;
                },
                Token::RParen => {
                    if depth_paren > 0 {
                        depth_paren -= 1;
                    }
                },
                Token::LBrace => {
                    depth_brace += 1;
                },
                Token::RBrace => {
                    if depth_brace == 0 && depth_paren == 0 {
                        // reached end of first field
                        return true;
                    }
                    if depth_brace > 0 {
                        depth_brace -= 1;
                    }
                },
                Token::Comma => {
                    if depth_brace == 0 && depth_paren == 0 {
                        return true;
                    }
                },
                Token::Assign => {
                    if depth_brace == 0 && depth_paren == 0 {
                        return false;
                    }
                },
                _ => {},
            }
            idx += 1;
        }
        false
    }

    // --- types ---
    #[verifier::loop_isolation(false)]
    #[verifier::rlimit(40)]
    fn parse_type(&mut self) -> (r: Result<Type, ParserError>)
        requires
            old(self).wf(),
        ensures
            old(self).kept(final(self)),
            agrees(
                r,
                final(self).position(),
                parse_rules::parse_type(old(self).toks(), old(self).position()),
            ),
            r is Ok ==> final(self).position() > old(self).position(),
        decreases old(self).remaining(), 34nat,
    {
        let ghost ts = self.toks();
        if self.accept(&Token::Amp) {
            return match self.parse_type() {
                Ok(inner) => Ok(Type::Ref(Box::new(inner))),
                Err(e) => Err(e),
            };
        }
        if self.accept(&Token::LBrace) {
            let mut fields: Vec<FieldType> = Vec::new();
            if self.accept(&Token::RBrace) {
                let t = Type::Record(fields);
                proof {
                    assert(t@->Record_0 =~= Seq::<FieldV>::empty());
                }
                return Ok(t);
            }
            let ghost mut acc: Seq<FieldV> = Seq::empty();
            loop
                invariant
                    old(self).kept(self),
                    self.position() > old(self).position(),
                    acc.len() == fields.len(),
                    forall|j: int| 0 <= j < fields.len() ==> acc[j] == fields@[j]@,
                    parse_rules::parse_type(ts, old(self).position()) == parse_rules::type_fields(
                        ts,
                        self.position(),
                        acc,
                    ),
                decreases self.remaining(),
            {
                let name = match self.expect_ident("field name") {
                    Ok(s) => s,
                    Err(e) => {
                        return Err(e);
                    },
                };
                match self.expect(&Token::Colon, "':' after field name") {
                    Ok(()) => {},
                    Err(e) => {
                        return Err(e);
                    },
                }
                let ty = match self.parse_type() {
                    Ok(t) => t,
                    Err(e) => {
                        return Err(e);
                    },
                };
                let f = FieldType { name, ty };
                proof {
                    acc = acc.push(f@);
                }
                fields.push(f);
                if self.accept(&Token::Comma) {
                    continue ;
                }
                match self.expect(&Token::RBrace, "'}' to close record type") {
                    Ok(()) => {},
                    Err(e) => {
                        return Err(e);
                    },
                }
                let t = Type::Record(fields);
                proof {
                    assert(t@->Record_0 =~= acc);
                }
                return Ok(t);
            }
        }
        match self.expect_ident("type name") {
            Ok(name) => Ok(Type::Named(name)),
            Err(e) => Err(e),
        }
    }

    #[verifier::loop_isolation(false)]
    fn parse_params(&mut self) -> (r: Result<Vec<Param>, ParserError>)
        requires
            old(self).wf(),
        ensures
            old(self).kept(final(self)),
            agrees_as(
                r,
                |ps: Vec<Param>| params_view(ps@),
                final(self).position(),
                parse_rules::parse_params(old(self).toks(), old(self).position(), Seq::empty()),
            ),
    {
        let ghost ts = self.toks();
        let mut params: Vec<Param> = Vec::new();
        proof {
            assert(params_view(params@) =~= Seq::<ParamV>::empty());
        }
        loop
            invariant
                old(self).kept(self),
                parse_rules::params_rest(ts, old(self).position(), Seq::empty())
                    == parse_rules::params_rest(ts, self.position(), params_view(params@)),
            decreases self.remaining(),
        {
            let mutable = self.accept(&Token::KwMut);
            let name = match self.expect_ident("parameter name") {
                Ok(s) => s,
                Err(e) => {
                    return Err(e);
                },
            };
            match self.expect(&Token::Colon, "':' after parameter name") {
                Ok(()) => {},
                Err(e) => {
                    return Err(e);
                },
            }
            let ty = match self.parse_type() {
                Ok(t) => t,
                Err(e) => {
                    return Err(e);
                },
            };
            let p = Param { mutable, name, ty };
            proof {
                assert(params_view(params@.push(p)) =~= params_view(params@).push(p@));
            }
            params.push(p);
            if !self.accept(&Token::Comma) {
                break ;
            }
        }
        Ok(params)
    }

    // --- expressions ---
    fn parse_expr(&mut self) -> (r: Result<Expr, ParserError>)
        requires
            old(self).wf(),
        ensures
            old(self).kept(final(self)),
            agrees(
                r,
                final(self).position(),
                parse_rules::parse_expr(old(self).toks(), old(self).position()),
            ),
            r is Ok ==> final(self).position() > old(self).position(),
        decreases old(self).remaining(), 30nat,
    {
        self.parse_level(0)
    }

    /// A chain of binary operators of one level of precedence.
    #[verifier::loop_isolation(false)]
    #[verifier::rlimit(40)]
    fn parse_level(&mut self, level: u8) -> (r: Result<Expr, ParserError>)
        requires
            old(self).wf(),
        ensures
            old(self).kept(final(self)),
            agrees(
                r,
                final(self).position(),
                parse_rules::parse_level(old(self).toks(), old(self).position(), level as nat),
            ),
            r is Ok ==> final(self).position() > old(self).position(),
        decreases old(self).remaining(), (if level <= 5 {
            29 - 2 * level
        } else {
            18
        }),
    {
        if level > 5 {
            return self.parse_unary();
        }
        let ghost ts = self.toks();
        let mut expr = match self.parse_level(level + 1) {
            Ok(e) => e,
            Err(e) => {
                return Err(e);
            },
        };
        loop
            invariant
                old(self).kept(self),
                self.position() > old(self).position(),
                parse_rules::parse_level(ts, old(self).position(), level as nat)
                    == parse_rules::level_rest(ts, self.position(), expr@, level as nat),
            decreases self.remaining(),
        {
            let op = match level_op(level, self.peek()) {
                Some(op) => op,
                None => {
                    break ;
                },
            };
            let _ = self.advance();
            let right = match self.parse_level(level + 1) {
                Ok(e) => e,
                Err(e) => {
                    return Err(e);
                },
            };
            expr = Expr::Binary(BinaryExpr { left: Box::new(expr), op, right: Box::new(right) });
        }
        Ok(expr)
    }

    fn parse_unary(&mut self) -> (r: Result<Expr, ParserError>)
        requires
            old(self).wf(),
        ensures
            old(self).kept(final(self)),
            agrees(
                r,
                final(self).position(),
                parse_rules::parse_unary(old(self).toks(), old(self).position()),
            ),
            r is Ok ==> final(self).position() > old(self).position(),
        decreases old(self).remaining(), 17nat,
    {
        if self.accept(&Token::Minus) {
            return match self.parse_unary() {
                Ok(expr) => Ok(Expr::Unary(UnaryExpr { op: UnaryOp::Neg, expr: Box::new(expr) })),
                Err(e) => Err(e),
            };
        }
        if self.accept(&Token::Bang) {
            return match self.parse_unary() {
                Ok(expr) => Ok(Expr::Unary(UnaryExpr { op: UnaryOp::Not, expr: Box::new(expr) })),
                Err(e) => Err(e),
            };
        }
        if self.accept(&Token::KwCopy) {
            return match self.parse_unary() {
                Ok(expr) => Ok(Expr::Copy(Box::new(expr))),
                Err(e) => Err(e),
            };
        }
        if self.accept(&Token::Amp) {
            return match self.parse_unary() {
                Ok(expr) => Ok(Expr::Ref(Box::new(expr))),
                Err(e) => Err(e),
            };
        }
        self.parse_if()
    }

    fn parse_if(&mut self) -> (r: Result<Expr, ParserError>)
        requires
            old(self).wf(),
        ensures
            old(self).kept(final(self)),
            agrees(
                r,
                final(self).position(),
                parse_rules::parse_if(old(self).toks(), old(self).position()),
            ),
            r is Ok ==> final(self).position() > old(self).position(),
        decreases old(self).remaining(), 16nat,
    {
        if self.accept(&Token::KwIf) {
            let cond = match self.parse_expr() {
                Ok(e) => e,
                Err(e) => {
                    return Err(e);
                },
            };
            match self.expect(&Token::KwThen, "'then' in if expression") {
                Ok(()) => {},
                Err(e) => {
                    return Err(e);
                },
            }
            let then_branch = match self.parse_expr() {
                Ok(e) => e,
                Err(e) => {
                    return Err(e);
                },
            };
            match self.expect(&Token::KwElse, "'else' in if expression") {
                Ok(()) => {},
                Err(e) => {
                    return Err(e);
                },
            }
            let else_branch = match self.parse_expr() {
                Ok(e) => e,
                Err(e) => {
                    return Err(e);
                },
            };
            return Ok(Expr::If(Box::new(IfExpr { cond, then_branch, else_branch })));
        }
        self.parse_postfix()
    }

    /// The token before the next one.
    fn prev(&self) -> (t: &Token)
        requires
            self.wf(),
            self.position() > 0,
        ensures
            t@ == parse_rules::tok(self.toks(), (self.position() - 1) as nat),
    {
        &self.tokens[self.pos - 1]
    }

    /// The arguments of a call, behind the opening `(`, up to and with the
    /// closing `)`.
    #[verifier::loop_isolation(false)]
    fn call_args(&mut self) -> (r: Result<Vec<Expr>, ParserError>)
        requires
            old(self).wf(),
        ensures
            old(self).kept(final(self)),
            agrees_as(
                r,
                |es: Vec<Expr>| exprs_view(es@),
                final(self).position(),
                parse_rules::call_args(old(self).toks(), old(self).position(), Seq::empty()),
            ),
        decreases old(self).remaining(), 32nat,
    {
        let ghost ts = self.toks();
        let mut args: Vec<Expr> = Vec::new();
        proof {
            assert(exprs_view(args@) =~= Seq::<ExprV>::empty());
        }
        loop
            invariant
                old(self).kept(self),
                parse_rules::call_args(ts, old(self).position(), Seq::empty())
                    == parse_rules::call_args(ts, self.position(), exprs_view(args@)),
            decreases self.remaining(),
        {
            let arg = match self.parse_expr() {
                Ok(e) => e,
                Err(e) => {
                    return Err(e);
                },
            };
            proof {
                assert(exprs_view(args@.push(arg)) =~= exprs_view(args@).push(arg@));
            }
            args.push(arg);
            if self.accept(&Token::Comma) {
                continue ;
            }
            match self.expect(&Token::RParen, "')' after call args") {
                Ok(()) => {},
                Err(e) => {
                    return Err(e);
                },
            }
            break ;
        }
        Ok(args)
    }

    /// A call of `callee`, behind the opening `(`.
    fn call_tail(&mut self, callee: Path) -> (r: Result<Expr, ParserError>)
        requires
            old(self).wf(),
        ensures
            old(self).kept(final(self)),
            agrees(
                r,
                final(self).position(),
                parse_rules::call_tail(old(self).toks(), old(self).position(), callee@),
            ),
        decreases old(self).remaining(), 33nat,
    {
        let args = if self.accept(&Token::RParen) {
            let none: Vec<Expr> = Vec::new();
            proof {
                assert(exprs_view(none@) =~= Seq::<ExprV>::empty());
            }
            none
        } else {
            match self.call_args() {
                Ok(a) => a,
                Err(e) => {
                    return Err(e);
                },
            }
        };
        let e = Expr::FuncCall(FuncCall { callee, args });
        proof {
            assert(e@->FuncCall_args =~= exprs_view(args@));
        }
        Ok(e)
    }

    #[verifier::loop_isolation(false)]
    #[verifier::rlimit(40)]
    fn parse_postfix(&mut self) -> (r: Result<Expr, ParserError>)
        requires
            old(self).wf(),
        ensures
            old(self).kept(final(self)),
            agrees(
                r,
                final(self).position(),
                parse_rules::parse_postfix(old(self).toks(), old(self).position()),
            ),
            r is Ok ==> final(self).position() > old(self).position(),
        decreases old(self).remaining(), 15nat,
    {
        let ghost ts = self.toks();
        let mut expr = match self.parse_primary() {
            Ok(e) => e,
            Err(e) => {
                return Err(e);
            },
        };
        loop
            invariant
                old(self).kept(self),
                self.position() > old(self).position(),
                parse_rules::parse_postfix(ts, old(self).position()) == parse_rules::postfix_rest(
                    ts,
                    self.position(),
                    expr@,
                ),
            decreases self.remaining(),
        {
            if !self.accept(&Token::LParen) {
                break ;
            }
            // function call; callee must be a Path
            let path = match expr {
                Expr::Path(p) => p,
                _ => {
                    return Err(
                        ParserError::UnexpectedToken {
                            expected: "callable path",
                            found: self.prev().clone(),
                        },
                    );
                },
            };
            expr = match self.call_tail(path) {
                Ok(e) => e,
                Err(e) => {
                    return Err(e);
                },
            };
        }
        Ok(expr)
    }

    #[verifier::loop_isolation(false)]
    #[verifier::rlimit(40)]
    fn parse_primary(&mut self) -> (r: Result<Expr, ParserError>)
        requires
            old(self).wf(),
        ensures
            old(self).kept(final(self)),
            agrees(
                r,
                final(self).position(),
                parse_rules::parse_primary(old(self).toks(), old(self).position()),
            ),
            r is Ok ==> final(self).position() > old(self).position(),
        decreases old(self).remaining(), 13nat,
    {
        let ghost ts = self.toks();
        match self.advance() {
            Token::Ident(name) => {
                let first = Ident(name);
                let mut idents: Vec<Ident> = Vec::new();
                idents.push(first);
                proof {
                    assert(idents_view(idents@) =~= seq![first@]);
                }
                match self.path_rest(idents) {
                    Ok(p) => Ok(Expr::Path(p)),
                    Err(e) => Err(e),
                }
            },
            Token::Int(v) => Ok(Expr::Literal(Literal::Int(v))),
            Token::Str(s) => Ok(Expr::Literal(Literal::Str(s))),
            Token::Bool(b) => Ok(Expr::Literal(Literal::Bool(b))),
            Token::LParen => {
                if self.accept(&Token::RParen) {
                    return Ok(Expr::Literal(Literal::Unit));
                }
                let expr = match self.parse_expr() {
                    Ok(e) => e,
                    Err(e) => {
                        return Err(e);
                    },
                };
                match self.expect(&Token::RParen, "')' after expression") {
                    Ok(()) => Ok(expr),
                    Err(e) => Err(e),
                }
            },
            Token::LBrace => {
                // disambiguate record literal vs block with simple lookahead
                if self.check(&Token::RBrace) {
                    let _ = self.advance();
                    let b = Block { stmts: Vec::new(), tail: None };
                    proof {
                        assert(b@.stmts =~= Seq::<StmtV>::empty());
                    }
                    return Ok(Expr::Block(b));
                }
                if self.looks_like_record_literal() {
                    let mut fields: Vec<FieldInit> = Vec::new();
                    proof {
                        assert(field_inits_view(fields@) =~= Seq::<FieldInitV>::empty());
                    }
                    loop
                        invariant
                            old(self).kept(self),
                            self.position() > old(self).position(),
                            parse_rules::parse_primary(ts, old(self).position())
                                == parse_rules::record_fields(
                                ts,
                                self.position(),
                                field_inits_view(fields@),
                            ),
                        decreases self.remaining(),
                    {
                        let name = match self.expect_ident("field name") {
                            Ok(s) => s,
                            Err(e) => {
                                return Err(e);
                            },
                        };
                        match self.expect(&Token::Colon, "':' after field name") {
                            Ok(()) => {},
                            Err(e) => {
                                return Err(e);
                            },
                        }
                        let value = match self.parse_expr() {
                            Ok(e) => e,
                            Err(e) => {
                                return Err(e);
                            },
                        };
                        let f = FieldInit { name, value };
                        proof {
                            assert(field_inits_view(fields@.push(f)) =~= field_inits_view(
                                fields@,
                            ).push(f@));
                        }
                        fields.push(f);
                        if self.accept(&Token::Comma) {
                            continue ;
                        }
                        match self.expect(&Token::RBrace, "'}' after record literal") {
                            Ok(()) => {},
                            Err(e) => {
                                return Err(e);
                            },
                        }
                        let e = Expr::RecordLit(RecordLit { fields });
                        proof {
                            assert(e@->RecordLit_0 =~= field_inits_view(fields@));
                        }
                        return Ok(e);
                    }
                } else {
                    // rewind by one to let parse_block consume '{'
                    self.pos -= 1;
                    match self.parse_block() {
                        Ok(b) => Ok(Expr::Block(b)),
                        Err(e) => Err(e),
                    }
                }
            },
            other => Err(ParserError::UnexpectedToken { expected: "expression", found: other }),
        }
    }

    // --- blocks and statements ---
    #[verifier::loop_isolation(false)]
    #[verifier::rlimit(40)]
    fn parse_block(&mut self) -> (r: Result<Block, ParserError>)
        requires
            old(self).wf(),
        ensures
            old(self).kept(final(self)),
            agrees(
                r,
                final(self).position(),
                parse_rules::parse_block(old(self).toks(), old(self).position()),
            ),
            r is Ok ==> final(self).position() > old(self).position(),
        decreases old(self).remaining(), 12nat,
    {
        let ghost ts = self.toks();
        match self.expect(&Token::LBrace, "'{' to start block") {
            Ok(()) => {},
            Err(e) => {
                return Err(e);
            },
        }
        let mut stmts: Vec<Stmt> = Vec::new();
        proof {
            assert(stmts_view(stmts@) =~= Seq::<StmtV>::empty());
        }
        loop
            invariant
                old(self).kept(self),
                self.position() > old(self).position(),
                parse_rules::parse_block(ts, old(self).position()) == parse_rules::block_rest(
                    ts,
                    self.position(),
                    stmts_view(stmts@),
                ),
            decreases self.remaining(),
        {
            if self.check(&Token::RBrace) {
                let _ = self.advance();
                let b = Block { stmts, tail: None };
                proof {
                    assert(b@.stmts =~= stmts_view(stmts@));
                }
                return Ok(b);
            }
            if self.check(&Token::Eof) {
                return Err(ParserError::Eof);
            }
            let stmt = match self.parse_stmt() {
                Ok(s) => s,
                Err(e) => {
                    return Err(e);
                },
            };
            if self.check(&Token::RBrace) {
                let _ = self.advance();
                let b = match stmt {
                    Stmt::Expr(e) => {
                        let b = Block { stmts, tail: Some(Box::new(e)) };
                        proof {
                            assert(b@.stmts =~= stmts_view(stmts@));
                        }
                        b
                    },
                    other => {
                        proof {
                            assert(stmts_view(stmts@.push(other)) =~= stmts_view(stmts@).push(
                                other@,
                            ));
                        }
                        stmts.push(other);
                        let b = Block { stmts, tail: None };
                        proof {
                            assert(b@.stmts =~= stmts_view(stmts@));
                        }
                        b
                    },
                };
                return Ok(b);
            }
            proof {
                assert(stmts_view(stmts@.push(stmt)) =~= stmts_view(stmts@).push(stmt@));
            }
            stmts.push(stmt);
        }
    }

    #[verifier::rlimit(40)]
    fn parse_stmt(&mut self) -> (r: Result<Stmt, ParserError>)
        requires
            old(self).wf(),
        ensures
            old(self).kept(final(self)),
            agrees(
                r,
                final(self).position(),
                parse_rules::parse_stmt(old(self).toks(), old(self).position()),
            ),
            r is Ok ==> final(self).position() > old(self).position(),
        decreases old(self).remaining(), 37nat,
    {
        // binding starts with mut or ident followed by ':'
        if self.check(&Token::KwMut) || (self.peek_is_ident() && self.peek_next_is(&Token::Colon)) {
            return match self.parse_binding() {
                Ok(b) => Ok(Stmt::Binding(b)),
                Err(e) => Err(e),
            };
        }
        // assignment: Path '=' Expr (but not '==')

        if self.peek_is_ident() {
            let save = self.pos;
            match self.try_parse_path() {
                Ok(path) => {
                    if self.accept(&Token::Assign) {
                        return match self.parse_expr() {
                            Ok(value) => Ok(Stmt::Assign(Assign { target: path, value })),
                            Err(e) => Err(e),
                        };
                    }
                },
                Err(_) => {},
            }
            self.pos = save;  // rewind if not assign
        }
        // expression statement

        match self.parse_expr() {
            Ok(expr) => Ok(Stmt::Expr(expr)),
            Err(e) => Err(e),
        }
    }

    #[verifier::rlimit(40)]
    fn parse_binding(&mut self) -> (r: Result<Binding, ParserError>)
        requires
            old(self).wf(),
        ensures
            old(self).kept(final(self)),
            agrees(
                r,
                final(self).position(),
                parse_rules::parse_binding(old(self).toks(), old(self).position()),
            ),
            r is Ok ==> final(self).position() > old(self).position(),
        decreases old(self).remaining(), 36nat,
    {
        let mutable = self.accept(&Token::KwMut);
        let name = match self.expect_ident("binding name") {
            Ok(s) => s,
            Err(e) => {
                return Err(e);
            },
        };
        match self.expect(&Token::Colon, "':' after binding name") {
            Ok(()) => {},
            Err(e) => {
                return Err(e);
            },
        }
        let ty = match self.parse_type() {
            Ok(t) => t,
            Err(e) => {
                return Err(e);
            },
        };
        match self.expect(&Token::Assign, "'=' after binding type") {
            Ok(()) => {},
            Err(e) => {
                return Err(e);
            },
        }
        let value = match self.parse_expr() {
            Ok(e) => e,
            Err(e) => {
                return Err(e);
            },
        };
        Ok(Binding { mutable, name, ty, value })
    }

    // --- declarations ---
    #[verifier::rlimit(40)]
    fn parse_decl(&mut self) -> (r: Result<Decl, ParserError>)
        requires
            old(self).wf(),
        ensures
            old(self).kept(final(self)),
            agrees(
                r,
                final(self).position(),
                parse_rules::parse_decl(old(self).toks(), old(self).position()),
            ),
            r is Ok ==> final(self).position() > old(self).position(),
    {
        if self.accept(&Token::KwImport) {
            return match self.expect_ident("module name") {
                Ok(module) => Ok(Decl::Import(ImportDecl { module })),
                Err(e) => Err(e),
            };
        }
        if self.accept(&Token::KwGlobal) {
            return match self.parse_binding() {
                Ok(b) => Ok(Decl::Global(b)),
                Err(e) => Err(e),
            };
        }
        if self.accept(&Token::KwType) {
            let name = match self.expect_ident("type name") {
                Ok(s) => s,
                Err(e) => {
                    return Err(e);
                },
            };
            match self.expect(&Token::Assign, "'=' after type name") {
                Ok(()) => {},
                Err(e) => {
                    return Err(e);
                },
            }
            return match self.parse_type() {
                Ok(ty) => Ok(Decl::Type(TypeDecl { name, ty })),
                Err(e) => Err(e),
            };
        }
        // function vs let binding: lookahead for '('

        if self.peek_is_ident() && self.peek_next_is(&Token::LParen) {
            let name = match self.expect_ident("function name") {
                Ok(s) => s,
                Err(e) => {
                    return Err(e);
                },
            };
            match self.expect(&Token::LParen, "'(' after function name") {
                Ok(()) => {},
                Err(e) => {
                    return Err(e);
                },
            }
            let params = if self.check(&Token::RParen) {
                let none: Vec<Param> = Vec::new();
                proof {
                    assert(params_view(none@) =~= Seq::<ParamV>::empty());
                }
                none
            } else {
                match self.parse_params() {
                    Ok(p) => p,
                    Err(e) => {
                        return Err(e);
                    },
                }
            };
            match self.expect(&Token::RParen, "')' after params") {
                Ok(()) => {},
                Err(e) => {
                    return Err(e);
                },
            }
            let ret = if self.accept(&Token::Arrow) {
                match self.parse_type() {
                    Ok(t) => Some(t),
                    Err(e) => {
                        return Err(e);
                    },
                }
            } else {
                None
            };
            match self.expect(&Token::Assign, "'=' before function body") {
                Ok(()) => {},
                Err(e) => {
                    return Err(e);
                },
            }
            let body = match self.parse_expr() {
                Ok(e) => e,
                Err(e) => {
                    return Err(e);
                },
            };
            return Ok(Decl::Func(FuncDecl { name, params, ret, body }));
        }
        match self.parse_binding() {
            Ok(b) => Ok(Decl::Let(b)),
            Err(e) => Err(e),
        }
    }

    /// Parses the declarations of the text up to its end.
    #[verifier::loop_isolation(false)]
    pub fn parse_program(&mut self) -> (r: Result<Program, ParserError>)
        requires
            old(self).wf(),
        ensures
            old(self).kept(final(self)),
            agrees(
                r,
                final(self).position(),
                parse_rules::parse_program(old(self).toks(), old(self).position()),
            ),
    {
        let ghost ts = self.toks();
        let mut decls: Vec<Decl> = Vec::new();
        let ghost mut acc: Seq<DeclV> = Seq::empty();
        while !self.check(&Token::Eof)
            invariant
                old(self).kept(self),
                acc.len() == decls.len(),
                forall|j: int| 0 <= j < decls.len() ==> acc[j] == decls@[j]@,
                parse_rules::parse_program(ts, old(self).position()) == parse_rules::program_rest(
                    ts,
                    self.position(),
                    acc,
                ),
            decreases self.remaining(),
        {
            let d = match self.parse_decl() {
                Ok(d) => d,
                Err(e) => {
                    return Err(e);
                },
            };
            proof {
                acc = acc.push(d@);
            }
            decls.push(d);
        }
        let p = Program { decls };
        proof {
            assert(p@ =~= acc);
        }
        Ok(p)
    }
}

} // verus!
