//! Laws of the grammar, proved from the rules in [`crate::parse_rules`]:
//! no rule ends before it starts, and every piece of syntax holds at least
//! one token.

use crate::ast::{DeclV, ExprV, FieldInitV, FieldV, Name, ParamV, PathV, StmtV};
use crate::lexer::TokenV;
use crate::parse_rules::{
    binary, block_rest, call_args, call_tail, expect, expect_ident, fwd, left, level_op,
    level_rest, looks_like_record_literal, params_rest, parse_binding, parse_block, parse_decl,
    parse_expr, parse_if, parse_level, parse_path, parse_postfix, parse_primary, parse_stmt,
    parse_type, parse_unary, path_rest, postfix_rest, program_rest, record_fields, tok,
    type_fields, func_rest,
};
use vstd::prelude::*;

verus! {

/// A path ends behind its first segment or later.
pub proof fn lemma_path_rest_advances(ts: Seq<TokenV>, pos: nat, acc: PathV)
    ensures
        path_rest(ts, pos, acc) matches Ok((_, end)) ==> end >= pos,
    decreases left(ts, pos),
{
    if tok(ts, pos) == TokenV::Dot {
        match expect_ident(ts, pos + 1, "path segment") {
            Err(_) => {},
            Ok((seg, _)) => {
                lemma_path_rest_advances(ts, pos + 2, acc.push(seg));
            },
        }
    }
}

/// A type holds at least one token.
pub proof fn lemma_type_advances(ts: Seq<TokenV>, pos: nat)
    ensures
        parse_type(ts, pos) matches Ok((_, end)) ==> end > pos,
    decreases left(ts, pos), 34nat,
{
    match tok(ts, pos) {
        TokenV::Amp => {
            lemma_type_advances(ts, pos + 1);
        },
        TokenV::LBrace => {
            if tok(ts, pos + 1) != TokenV::RBrace {
                lemma_type_fields_advance(ts, pos + 1, Seq::empty());
            }
        },
        _ => {},
    }
}

/// The fields of a record type and its closing brace hold at least one
/// token.
pub proof fn lemma_type_fields_advance(ts: Seq<TokenV>, pos: nat, acc: Seq<FieldV>)
    ensures
        type_fields(ts, pos, acc) matches Ok((_, end)) ==> end > pos,
    decreases left(ts, pos), 33nat,
{
    match expect_ident(ts, pos, "field name") {
        Err(_) => {},
        Ok((name, _)) => match expect(ts, pos + 1, TokenV::Colon, "':' after field name") {
            Err(_) => {},
            Ok(_) => {
                lemma_type_advances(ts, pos + 2);
                match parse_type(ts, pos + 2) {
                    Err(_) => {},
                    Ok((ty, end)) => {
                        let q = fwd(pos + 2, end);
                        if tok(ts, q) == TokenV::Comma {
                            lemma_type_fields_advance(ts, q + 1, acc.push(FieldV { name, ty }));
                        }
                    },
                }
            },
        },
    }
}

/// Parameters hold at least one token.
pub proof fn lemma_params_advance(ts: Seq<TokenV>, pos: nat, acc: Seq<ParamV>)
    ensures
        params_rest(ts, pos, acc) matches Ok((_, end)) ==> end > pos,
    decreases left(ts, pos),
{
    let mutable = tok(ts, pos) == TokenV::KwMut;
    let p: nat = if mutable {
        pos + 1
    } else {
        pos
    };
    match expect_ident(ts, p, "parameter name") {
        Err(_) => {},
        Ok((name, _)) => match expect(ts, p + 1, TokenV::Colon, "':' after parameter name") {
            Err(_) => {},
            Ok(_) => {
                lemma_type_advances(ts, p + 2);
                match parse_type(ts, p + 2) {
                    Err(_) => {},
                    Ok((ty, end)) => {
                        let q = fwd(p + 2, end);
                        if tok(ts, q) == TokenV::Comma {
                            lemma_params_advance(
                                ts,
                                q + 1,
                                acc.push(ParamV { mutable, name, ty }),
                            );
                        }
                    },
                }
            },
        },
    }
}

/// An expression holds at least one token.
pub proof fn lemma_expr_advances(ts: Seq<TokenV>, pos: nat)
    ensures
        parse_expr(ts, pos) matches Ok((_, end)) ==> end > pos,
    decreases left(ts, pos), 30nat,
{
    lemma_level_advances(ts, pos, 0);
}

/// A chain of binary operators holds at least one token.
pub proof fn lemma_level_advances(ts: Seq<TokenV>, pos: nat, level: nat)
    ensures
        parse_level(ts, pos, level) matches Ok((_, end)) ==> end > pos,
    decreases left(ts, pos), (if level <= 5 {
        29 - 2 * level
    } else {
        18
    }),
{
    if level > 5 {
        lemma_unary_advances(ts, pos);
    } else {
        lemma_level_advances(ts, pos, level + 1);
        match parse_level(ts, pos, level + 1) {
            Err(_) => {},
            Ok((first, end)) => {
                lemma_level_rest_advances(ts, fwd(pos, end), first, level);
            },
        }
    }
}

/// What follows the first operand of a chain ends where it starts or later.
pub proof fn lemma_level_rest_advances(ts: Seq<TokenV>, pos: nat, acc: ExprV, level: nat)
    ensures
        level_rest(ts, pos, acc, level) matches Ok((_, end)) ==> end >= pos,
    decreases left(ts, pos), (if level <= 5 {
        28 - 2 * level
    } else {
        0
    }),
{
    if level <= 5 {
        match level_op(level, tok(ts, pos)) {
            None => {},
            Some(op) => {
                lemma_level_advances(ts, pos + 1, level + 1);
                match parse_level(ts, pos + 1, level + 1) {
                    Err(_) => {},
                    Ok((right, end)) => {
                        lemma_level_rest_advances(
                            ts,
                            fwd(pos + 1, end),
                            binary(acc, op, right),
                            level,
                        );
                    },
                }
            },
        }
    }
}

pub proof fn lemma_unary_advances(ts: Seq<TokenV>, pos: nat)
    ensures
        parse_unary(ts, pos) matches Ok((_, end)) ==> end > pos,
    decreases left(ts, pos), 17nat,
{
    match tok(ts, pos) {
        TokenV::Minus | TokenV::Bang | TokenV::KwCopy | TokenV::Amp => {
            lemma_unary_advances(ts, pos + 1);
        },
        _ => {
            lemma_if_advances(ts, pos);
        },
    }
}

pub proof fn lemma_if_advances(ts: Seq<TokenV>, pos: nat)
    ensures
        parse_if(ts, pos) matches Ok((_, end)) ==> end > pos,
    decreases left(ts, pos), 16nat,
{
    if tok(ts, pos) == TokenV::KwIf {
        lemma_expr_advances(ts, pos + 1);
        match parse_expr(ts, pos + 1) {
            Err(_) => {},
            Ok((_, end)) => {
                let q1 = fwd(pos + 1, end);
                match expect(ts, q1, TokenV::KwThen, "'then' in if expression") {
                    Err(_) => {},
                    Ok(_) => {
                        lemma_expr_advances(ts, q1 + 1);
                        match parse_expr(ts, q1 + 1) {
                            Err(_) => {},
                            Ok((_, end)) => {
                                let q2 = fwd(q1 + 1, end);
                                match expect(ts, q2, TokenV::KwElse, "'else' in if expression") {
                                    Err(_) => {},
                                    Ok(_) => {
                                        lemma_expr_advances(ts, q2 + 1);
                                    },
                                }
                            },
                        }
                    },
                }
            },
        }
    } else {
        lemma_postfix_advances(ts, pos);
    }
}

pub proof fn lemma_postfix_advances(ts: Seq<TokenV>, pos: nat)
    ensures
        parse_postfix(ts, pos) matches Ok((_, end)) ==> end > pos,
    decreases left(ts, pos), 15nat,
{
    lemma_primary_advances(ts, pos);
    match parse_primary(ts, pos) {
        Err(_) => {},
        Ok((first, end)) => {
            lemma_postfix_rest_advances(ts, fwd(pos, end), first);
        },
    }
}

pub proof fn lemma_postfix_rest_advances(ts: Seq<TokenV>, pos: nat, acc: ExprV)
    ensures
        postfix_rest(ts, pos, acc) matches Ok((_, end)) ==> end >= pos,
    decreases left(ts, pos), 14nat,
{
    if tok(ts, pos) == TokenV::LParen {
        match acc {
            ExprV::Path(callee) => {
                lemma_call_tail_advances(ts, pos + 1, callee);
                match call_tail(ts, pos + 1, callee) {
                    Err(_) => {},
                    Ok((call, end)) => {
                        lemma_postfix_rest_advances(ts, fwd(pos + 1, end), call);
                    },
                }
            },
            _ => {},
        }
    }
}

pub proof fn lemma_call_tail_advances(ts: Seq<TokenV>, pos: nat, callee: PathV)
    ensures
        call_tail(ts, pos, callee) matches Ok((_, end)) ==> end > pos,
    decreases left(ts, pos), 33nat,
{
    if tok(ts, pos) != TokenV::RParen {
        lemma_call_args_advance(ts, pos, Seq::empty());
    }
}

pub proof fn lemma_call_args_advance(ts: Seq<TokenV>, pos: nat, acc: Seq<ExprV>)
    ensures
        call_args(ts, pos, acc) matches Ok((_, end)) ==> end > pos,
    decreases left(ts, pos), 32nat,
{
    lemma_expr_advances(ts, pos);
    match parse_expr(ts, pos) {
        Err(_) => {},
        Ok((arg, end)) => {
            let q = fwd(pos, end);
            if tok(ts, q) == TokenV::Comma {
                lemma_call_args_advance(ts, q + 1, acc.push(arg));
            }
        },
    }
}

pub proof fn lemma_primary_advances(ts: Seq<TokenV>, pos: nat)
    ensures
        parse_primary(ts, pos) matches Ok((_, end)) ==> end > pos,
    decreases left(ts, pos), 13nat,
{
    match tok(ts, pos) {
        TokenV::Ident(name) => {
            lemma_path_rest_advances(ts, pos + 1, seq![name]);
        },
        TokenV::LParen => {
            if tok(ts, pos + 1) != TokenV::RParen {
                lemma_expr_advances(ts, pos + 1);
            }
        },
        TokenV::LBrace => {
            if tok(ts, pos + 1) == TokenV::RBrace {
            } else if looks_like_record_literal(ts, pos + 1) {
                lemma_record_fields_advance(ts, pos + 1, Seq::empty());
            } else {
                lemma_block_advances(ts, pos);
            }
        },
        _ => {},
    }
}

pub proof fn lemma_record_fields_advance(ts: Seq<TokenV>, pos: nat, acc: Seq<FieldInitV>)
    ensures
        record_fields(ts, pos, acc) matches Ok((_, end)) ==> end > pos,
    decreases left(ts, pos), 31nat,
{
    match expect_ident(ts, pos, "field name") {
        Err(_) => {},
        Ok((name, _)) => match expect(ts, pos + 1, TokenV::Colon, "':' after field name") {
            Err(_) => {},
            Ok(_) => {
                lemma_expr_advances(ts, pos + 2);
                match parse_expr(ts, pos + 2) {
                    Err(_) => {},
                    Ok((value, end)) => {
                        let q = fwd(pos + 2, end);
                        if tok(ts, q) == TokenV::Comma {
                            lemma_record_fields_advance(
                                ts,
                                q + 1,
                                acc.push(FieldInitV { name, value }),
                            );
                        }
                    },
                }
            },
        },
    }
}

pub proof fn lemma_block_advances(ts: Seq<TokenV>, pos: nat)
    ensures
        parse_block(ts, pos) matches Ok((_, end)) ==> end > pos,
    decreases left(ts, pos), 12nat,
{
    if tok(ts, pos) == TokenV::LBrace {
        lemma_block_rest_advances(ts, pos + 1, Seq::empty());
    }
}

/// The statements of a block and its closing brace hold at least one
/// token, and no statement in it is empty.
pub proof fn lemma_block_rest_advances(ts: Seq<TokenV>, pos: nat, acc: Seq<StmtV>)
    ensures
        block_rest(ts, pos, acc) matches Ok((_, end)) ==> end > pos,
    decreases left(ts, pos), 38nat,
{
    if tok(ts, pos) != TokenV::RBrace && tok(ts, pos) != TokenV::Eof {
        lemma_stmt_advances(ts, pos);
        match parse_stmt(ts, pos) {
            Err(_) => {},
            Ok((stmt, end)) => {
                let q = fwd(pos, end);
                if tok(ts, q) != TokenV::RBrace && q > pos {
                    lemma_block_rest_advances(ts, q, acc.push(stmt));
                }
            },
        }
    }
}

/// A statement holds at least one token.
pub proof fn lemma_stmt_advances(ts: Seq<TokenV>, pos: nat)
    ensures
        parse_stmt(ts, pos) matches Ok((_, end)) ==> end > pos,
    decreases left(ts, pos), 37nat,
{
    if tok(ts, pos) == TokenV::KwMut || (tok(ts, pos) is Ident && tok(ts, pos + 1)
        == TokenV::Colon) {
        lemma_binding_advances(ts, pos);
    } else {
        match expect_ident(ts, pos, "path start") {
            Err(_) => {},
            Ok((first, _)) => {
                lemma_path_rest_advances(ts, pos + 1, seq![first]);
            },
        }
        match parse_path(ts, pos) {
            Ok((target, end)) if tok(ts, fwd(pos, end)) == TokenV::Assign => {
                lemma_expr_advances(ts, fwd(pos, end) + 1);
            },
            _ => {
                lemma_expr_advances(ts, pos);
            },
        }
    }
}

/// A binding holds at least one token.
pub proof fn lemma_binding_advances(ts: Seq<TokenV>, pos: nat)
    ensures
        parse_binding(ts, pos) matches Ok((_, end)) ==> end > pos,
    decreases left(ts, pos), 36nat,
{
    let mutable = tok(ts, pos) == TokenV::KwMut;
    let p: nat = if mutable {
        pos + 1
    } else {
        pos
    };
    match expect_ident(ts, p, "binding name") {
        Err(_) => {},
        Ok((name, _)) => match expect(ts, p + 1, TokenV::Colon, "':' after binding name") {
            Err(_) => {},
            Ok(_) => {
                lemma_type_advances(ts, p + 2);
                match parse_type(ts, p + 2) {
                    Err(_) => {},
                    Ok((ty, end)) => {
                        let q = fwd(p + 2, end);
                        match expect(ts, q, TokenV::Assign, "'=' after binding type") {
                            Err(_) => {},
                            Ok(_) => {
                                lemma_expr_advances(ts, q + 1);
                            },
                        }
                    },
                }
            },
        },
    }
}

/// The rest of a function holds at least one token.
pub proof fn lemma_func_rest_advances(ts: Seq<TokenV>, pos: nat, name: Name, params: Seq<ParamV>)
    ensures
        func_rest(ts, pos, name, params) matches Ok((_, end)) ==> end > pos,
{
    match expect(ts, pos, TokenV::RParen, "')' after params") {
        Err(_) => {},
        Ok(_) => {
            if tok(ts, pos + 1) == TokenV::Arrow {
                lemma_type_advances(ts, pos + 2);
                match parse_type(ts, pos + 2) {
                    Err(_) => {},
                    Ok((ty, end)) => {
                        lemma_expr_advances(ts, fwd(pos + 2, end) + 1);
                    },
                }
            } else {
                lemma_expr_advances(ts, pos + 2);
            }
        },
    }
}

/// A declaration holds at least one token.
pub proof fn lemma_decl_advances(ts: Seq<TokenV>, pos: nat)
    ensures
        parse_decl(ts, pos) matches Ok((_, end)) ==> end > pos,
{
    match tok(ts, pos) {
        TokenV::KwImport => {},
        TokenV::KwGlobal => {
            lemma_binding_advances(ts, pos + 1);
        },
        TokenV::KwType => {
            lemma_type_advances(ts, pos + 3);
        },
        TokenV::Ident(name) if tok(ts, pos + 1) == TokenV::LParen => {
            if tok(ts, pos + 2) == TokenV::RParen {
                lemma_func_rest_advances(ts, pos + 2, name, Seq::empty());
            } else {
                lemma_params_advance(ts, pos + 2, Seq::empty());
                match params_rest(ts, pos + 2, Seq::empty()) {
                    Err(_) => {},
                    Ok((params, end)) => {
                        lemma_func_rest_advances(ts, fwd(pos + 2, end), name, params);
                    },
                }
            }
        },
        _ => {
            lemma_binding_advances(ts, pos);
        },
    }
}

/// The declarations of a program end where they start or later.
pub proof fn lemma_program_advances(ts: Seq<TokenV>, pos: nat, acc: Seq<DeclV>)
    ensures
        program_rest(ts, pos, acc) matches Ok((_, end)) ==> end >= pos,
    decreases left(ts, pos),
{
    if tok(ts, pos) != TokenV::Eof {
        lemma_decl_advances(ts, pos);
        match parse_decl(ts, pos) {
            Err(_) => {},
            Ok((d, end)) => {
                if end > pos {
                    lemma_program_advances(ts, end, acc.push(d));
                }
            },
        }
    }
}

/// A program is parsed up to the end of its text: a parse that succeeds
/// stops at `Eof`.
pub proof fn lemma_program_reaches_the_end(ts: Seq<TokenV>, pos: nat, acc: Seq<DeclV>)
    ensures
        program_rest(ts, pos, acc) matches Ok((_, end)) ==> tok(ts, end) == TokenV::Eof,
    decreases left(ts, pos),
{
    if tok(ts, pos) != TokenV::Eof {
        match parse_decl(ts, pos) {
            Err(_) => {},
            Ok((d, end)) => {
                if end > pos {
                    lemma_program_reaches_the_end(ts, end, acc.push(d));
                }
            },
        }
    }
}

} // verus!
