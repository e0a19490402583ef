//! Move uniqueness at run time: once a binding was moved, its cell stays
//! empty through whatever is evaluated next, unless that assigns to it.
//!
//! A function sees the bindings of its caller, so what is evaluated next
//! includes the bodies of all functions that may be called.

use crate::ast::{BlockV, ExprV, FieldInitV, FuncDeclV, Name, ParamV, PathV, StmtV};
use crate::check_rules::ValueMode;
use crate::eval_rules::{
    assign_path, bind_args, block_body, call_function, eval_args, eval_block, eval_call,
    eval_expr, eval_record, eval_stmt, eval_stmts, insert_cell, is_print, pop_scope, printed,
    push_scope, read_value, set_cell, CellV, EnvV, RuntimeErrorV,
};
use crate::move_laws::{assigns, block_assigns, stmt_assigns};
use crate::scopes::{find_scope, lemma_find_scope_innermost};
use crate::value::{put, EntryV, ValueV};
use vstd::prelude::*;

verus! {

/// No function holds an assignment to a path that starts at `x`.
pub open spec fn no_function_assigns(funcs: Map<Name, FuncDeclV>, x: Name) -> bool {
    forall|name: Name| funcs.contains_key(name) ==> !assigns((#[trigger] funcs[name]).body, x)
}

/// The scopes below `keep` declare the same names in both environments, and
/// the cell of `x` in scope `d`, one of them, is empty in the second.
pub open spec fn stays_empty(before: EnvV, after: EnvV, keep: int, d: int, x: Name) -> bool {
    &&& after.scopes.len() == before.scopes.len()
    &&& forall|k: int|
        0 <= k < keep ==> (#[trigger] after.scopes[k]).dom() == before.scopes[k].dom()
    &&& after.scopes[d].contains_key(x)
    &&& after.scopes[d][x].value is None
}

/// The cell of `x` in scope `d`, below `keep`, is empty.
pub open spec fn empty_in(env: EnvV, keep: int, d: int, x: Name) -> bool {
    &&& 0 <= d < keep <= env.scopes.len()
    &&& env.scopes[d].contains_key(x)
    &&& env.scopes[d][x].value is None
}

proof fn lemma_stays_transitive(a: EnvV, b: EnvV, c: EnvV, keep: int, d: int, x: Name)
    requires
        empty_in(a, keep, d, x),
        stays_empty(a, b, keep, d, x),
        stays_empty(b, c, keep, d, x),
    ensures
        stays_empty(a, c, keep, d, x),
        empty_in(b, keep, d, x),
{
}

proof fn lemma_read_keeps(env: EnvV, p: PathV, mode: ValueMode, keep: int, d: int, x: Name)
    requires
        empty_in(env, keep, d, x),
    ensures
        stays_empty(env, read_value(env, p, mode).0, keep, d, x),
{
    if p.len() > 0 {
        lemma_find_scope_innermost(env.scopes, p[0]);
        match find_scope(env.scopes, p[0]) {
            None => {},
            Some(k) => {
                let cell = env.scopes[k][p[0]];
                let scope = env.scopes[k].insert(p[0], CellV { value: None, ..cell });
                assert(scope.dom() =~= env.scopes[k].dom());
            },
        }
    }
}

proof fn lemma_assign_keeps(env: EnvV, p: PathV, value: ValueV, keep: int, d: int, x: Name)
    requires
        empty_in(env, keep, d, x),
        !(p.len() > 0 && p[0] == x),
    ensures
        stays_empty(env, assign_path(env, p, value).0, keep, d, x),
{
    if p.len() > 0 {
        lemma_find_scope_innermost(env.scopes, p[0]);
        match find_scope(env.scopes, p[0]) {
            None => {},
            Some(k) => {
                let cell = env.scopes[k][p[0]];
                assert forall|c: CellV| (#[trigger] env.scopes[k].insert(p[0], c)).dom()
                    =~= env.scopes[k].dom() by {}
            },
        }
    }
}

proof fn lemma_bind_args_keep(
    env: EnvV,
    params: Seq<ParamV>,
    args: Seq<ValueV>,
    i: int,
    keep: int,
    d: int,
    x: Name,
)
    requires
        empty_in(env, keep, d, x),
        keep < env.scopes.len(),
    ensures
        stays_empty(env, bind_args(env, params, args, i), keep, d, x),
    decreases params.len() - i,
{
    if 0 <= i < params.len() && i < args.len() {
        let next = insert_cell(
            env,
            params[i].name,
            CellV { mutable: params[i].mutable, value: Some(args[i]) },
        );
        lemma_bind_args_keep(next, params, args, i + 1, keep, d, x);
    }
}

/// Whatever expression is evaluated, an empty cell stays empty, unless the
/// expression, or a function, assigns to its binding.
pub proof fn lemma_eval_keeps_empty(
    funcs: Map<Name, FuncDeclV>,
    env: EnvV,
    e: ExprV,
    mode: ValueMode,
    fuel: nat,
    keep: int,
    d: int,
    x: Name,
)
    requires
        empty_in(env, keep, d, x),
        !assigns(e, x),
        no_function_assigns(funcs, x),
    ensures
        stays_empty(env, eval_expr(funcs, env, e, mode, fuel).0, keep, d, x),
    decreases fuel, e, 0nat,
{
    match e {
        ExprV::Literal(_) => {},
        ExprV::Path(p) => {
            lemma_read_keeps(env, p, mode, keep, d, x);
        },
        ExprV::Copy(inner) => {
            lemma_eval_keeps_empty(funcs, env, *inner, ValueMode::Copy, fuel, keep, d, x);
        },
        ExprV::Ref(inner) => {
            lemma_eval_keeps_empty(funcs, env, *inner, ValueMode::Borrow, fuel, keep, d, x);
        },
        ExprV::FuncCall { callee, args } => {
            lemma_call_keeps_empty(funcs, env, callee, args, fuel, keep, d, x);
        },
        ExprV::If { cond, then_branch, else_branch } => {
            lemma_eval_keeps_empty(funcs, env, *cond, ValueMode::Move, fuel, keep, d, x);
            let (e1, rc) = eval_expr(funcs, env, *cond, ValueMode::Move, fuel);
            lemma_eval_keeps_empty(funcs, e1, *then_branch, ValueMode::Move, fuel, keep, d, x);
            lemma_eval_keeps_empty(funcs, e1, *else_branch, ValueMode::Move, fuel, keep, d, x);
            lemma_stays_transitive(
                env,
                e1,
                eval_expr(funcs, e1, *then_branch, ValueMode::Move, fuel).0,
                keep,
                d,
                x,
            );
            lemma_stays_transitive(
                env,
                e1,
                eval_expr(funcs, e1, *else_branch, ValueMode::Move, fuel).0,
                keep,
                d,
                x,
            );
        },
        ExprV::Block(b) => {
            lemma_block_keeps_empty(funcs, env, b, fuel, keep, d, x);
        },
        ExprV::RecordLit(fields) => {
            lemma_record_keeps_empty(funcs, env, fields, 0, Seq::empty(), fuel, keep, d, x);
        },
        ExprV::Unary { op, expr } => {
            lemma_eval_keeps_empty(funcs, env, *expr, ValueMode::Move, fuel, keep, d, x);
        },
        ExprV::Binary { left, op, right } => {
            lemma_eval_keeps_empty(funcs, env, *left, ValueMode::Move, fuel, keep, d, x);
            let (e1, rl) = eval_expr(funcs, env, *left, ValueMode::Move, fuel);
            lemma_eval_keeps_empty(funcs, e1, *right, ValueMode::Move, fuel, keep, d, x);
            let (e2, rr) = eval_expr(funcs, e1, *right, ValueMode::Move, fuel);
            lemma_stays_transitive(env, e1, e2, keep, d, x);
        },
    }
}

proof fn lemma_call_keeps_empty(
    funcs: Map<Name, FuncDeclV>,
    env: EnvV,
    callee: PathV,
    args: Seq<ExprV>,
    fuel: nat,
    keep: int,
    d: int,
    x: Name,
)
    requires
        empty_in(env, keep, d, x),
        forall|i: int| 0 <= i < args.len() ==> !assigns(#[trigger] args[i], x),
        no_function_assigns(funcs, x),
    ensures
        stays_empty(env, eval_call(funcs, env, callee, args, fuel).0, keep, d, x),
    decreases fuel, args, args.len() + 1,
{
    let name = crate::check_rules::path_text(callee);
    if funcs.contains_key(name) {
        lemma_args_keep_empty(funcs, env, args, 0, Seq::empty(), fuel, keep, d, x);
        let (e1, r) = eval_args(funcs, env, args, 0, Seq::empty(), fuel);
        match r {
            Err(_) => {},
            Ok(values) => {
                if fuel > 0 {
                    lemma_function_keeps_empty(
                        funcs,
                        e1,
                        funcs[name],
                        values,
                        (fuel - 1) as nat,
                        keep,
                        d,
                        x,
                    );
                    lemma_stays_transitive(
                        env,
                        e1,
                        call_function(funcs, e1, funcs[name], values, (fuel - 1) as nat).0,
                        keep,
                        d,
                        x,
                    );
                }
            },
        }
    } else if is_print(name) {
        if args.len() == 1 {
            lemma_eval_keeps_empty(funcs, env, args[0], ValueMode::Move, fuel, keep, d, x);
        }
    }
}

proof fn lemma_args_keep_empty(
    funcs: Map<Name, FuncDeclV>,
    env: EnvV,
    args: Seq<ExprV>,
    i: int,
    acc: Seq<ValueV>,
    fuel: nat,
    keep: int,
    d: int,
    x: Name,
)
    requires
        empty_in(env, keep, d, x),
        forall|j: int| 0 <= j < args.len() ==> !assigns(#[trigger] args[j], x),
        no_function_assigns(funcs, x),
    ensures
        stays_empty(env, eval_args(funcs, env, args, i, acc, fuel).0, keep, d, x),
    decreases fuel, args, args.len() - i,
{
    if 0 <= i < args.len() {
        lemma_eval_keeps_empty(funcs, env, args[i], ValueMode::Move, fuel, keep, d, x);
        let (e1, r) = eval_expr(funcs, env, args[i], ValueMode::Move, fuel);
        match r {
            Err(_) => {},
            Ok(v) => {
                lemma_args_keep_empty(funcs, e1, args, i + 1, acc.push(v), fuel, keep, d, x);
                lemma_stays_transitive(
                    env,
                    e1,
                    eval_args(funcs, e1, args, i + 1, acc.push(v), fuel).0,
                    keep,
                    d,
                    x,
                );
            },
        }
    }
}

proof fn lemma_record_keeps_empty(
    funcs: Map<Name, FuncDeclV>,
    env: EnvV,
    fields: Seq<FieldInitV>,
    i: int,
    acc: Seq<EntryV>,
    fuel: nat,
    keep: int,
    d: int,
    x: Name,
)
    requires
        empty_in(env, keep, d, x),
        forall|j: int| 0 <= j < fields.len() ==> !assigns((#[trigger] fields[j]).value, x),
        no_function_assigns(funcs, x),
    ensures
        stays_empty(env, eval_record(funcs, env, fields, i, acc, fuel).0, keep, d, x),
    decreases fuel, fields, fields.len() - i,
{
    if 0 <= i < fields.len() {
        lemma_eval_keeps_empty(funcs, env, fields[i].value, ValueMode::Move, fuel, keep, d, x);
        let (e1, r) = eval_expr(funcs, env, fields[i].value, ValueMode::Move, fuel);
        match r {
            Err(_) => {},
            Ok(v) => {
                let acc2 = put(acc, fields[i].name, v);
                lemma_record_keeps_empty(funcs, e1, fields, i + 1, acc2, fuel, keep, d, x);
                lemma_stays_transitive(
                    env,
                    e1,
                    eval_record(funcs, e1, fields, i + 1, acc2, fuel).0,
                    keep,
                    d,
                    x,
                );
            },
        }
    }
}

proof fn lemma_function_keeps_empty(
    funcs: Map<Name, FuncDeclV>,
    env: EnvV,
    f: FuncDeclV,
    args: Seq<ValueV>,
    fuel: nat,
    keep: int,
    d: int,
    x: Name,
)
    requires
        empty_in(env, keep, d, x),
        !assigns(f.body, x),
        no_function_assigns(funcs, x),
    ensures
        stays_empty(env, call_function(funcs, env, f, args, fuel).0, keep, d, x),
    decreases fuel, f.body, 2nat,
{
    if f.params.len() == args.len() {
        let e0 = push_scope(env);
        assert(empty_in(e0, keep, d, x));
        lemma_bind_args_keep(e0, f.params, args, 0, keep, d, x);
        let e1 = bind_args(e0, f.params, args, 0);
        let e2 = match f.body {
            ExprV::Block(b) => {
                lemma_block_keeps_empty(funcs, e1, b, fuel, keep, d, x);
                eval_block(funcs, e1, b, fuel).0
            },
            other => {
                lemma_eval_keeps_empty(funcs, e1, other, ValueMode::Move, fuel, keep, d, x);
                eval_expr(funcs, e1, other, ValueMode::Move, fuel).0
            },
        };
        lemma_stays_transitive(e0, e1, e2, keep, d, x);
        assert forall|k: int| 0 <= k < keep implies (#[trigger] pop_scope(e2).scopes[k]).dom()
            == env.scopes[k].dom() by {
            assert(pop_scope(e2).scopes[k] == e2.scopes[k]);
            assert(e0.scopes[k] == env.scopes[k]);
        }
    }
}

proof fn lemma_block_keeps_empty(
    funcs: Map<Name, FuncDeclV>,
    env: EnvV,
    b: BlockV,
    fuel: nat,
    keep: int,
    d: int,
    x: Name,
)
    requires
        empty_in(env, keep, d, x),
        !block_assigns(b, x),
        no_function_assigns(funcs, x),
    ensures
        stays_empty(env, eval_block(funcs, env, b, fuel).0, keep, d, x),
    decreases fuel, b, 1nat,
{
    let e0 = push_scope(env);
    assert(empty_in(e0, keep, d, x));
    lemma_body_keeps_empty(funcs, e0, b, fuel, keep, d, x);
    let (e1, r) = block_body(funcs, e0, b, fuel);
    assert forall|k: int| 0 <= k < keep implies (#[trigger] pop_scope(e1).scopes[k]).dom()
        == env.scopes[k].dom() by {
        assert(pop_scope(e1).scopes[k] == e1.scopes[k]);
        assert(e0.scopes[k] == env.scopes[k]);
    }
}

proof fn lemma_body_keeps_empty(
    funcs: Map<Name, FuncDeclV>,
    env: EnvV,
    b: BlockV,
    fuel: nat,
    keep: int,
    d: int,
    x: Name,
)
    requires
        empty_in(env, keep, d, x),
        keep < env.scopes.len(),
        !block_assigns(b, x),
        no_function_assigns(funcs, x),
    ensures
        stays_empty(env, block_body(funcs, env, b, fuel).0, keep, d, x),
    decreases fuel, b, 0nat,
{
    lemma_stmts_keep_empty(funcs, env, b.stmts, 0, fuel, keep, d, x);
    let (e1, r) = eval_stmts(funcs, env, b.stmts, 0, fuel);
    match b.tail {
        None => {},
        Some(tail) => {
            lemma_eval_keeps_empty(funcs, e1, *tail, ValueMode::Move, fuel, keep, d, x);
            lemma_stays_transitive(
                env,
                e1,
                eval_expr(funcs, e1, *tail, ValueMode::Move, fuel).0,
                keep,
                d,
                x,
            );
        },
    }
}

proof fn lemma_stmts_keep_empty(
    funcs: Map<Name, FuncDeclV>,
    env: EnvV,
    stmts: Seq<StmtV>,
    i: int,
    fuel: nat,
    keep: int,
    d: int,
    x: Name,
)
    requires
        empty_in(env, keep, d, x),
        keep < env.scopes.len(),
        forall|j: int| 0 <= j < stmts.len() ==> !stmt_assigns(#[trigger] stmts[j], x),
        no_function_assigns(funcs, x),
    ensures
        stays_empty(env, eval_stmts(funcs, env, stmts, i, fuel).0, keep, d, x),
    decreases fuel, stmts, stmts.len() - i,
{
    if 0 <= i < stmts.len() {
        lemma_stmt_keeps_empty(funcs, env, stmts[i], fuel, keep, d, x);
        let (e1, r) = eval_stmt(funcs, env, stmts[i], fuel);
        lemma_stmts_keep_empty(funcs, e1, stmts, i + 1, fuel, keep, d, x);
        lemma_stays_transitive(
            env,
            e1,
            eval_stmts(funcs, e1, stmts, i + 1, fuel).0,
            keep,
            d,
            x,
        );
    }
}

proof fn lemma_stmt_keeps_empty(
    funcs: Map<Name, FuncDeclV>,
    env: EnvV,
    s: StmtV,
    fuel: nat,
    keep: int,
    d: int,
    x: Name,
)
    requires
        empty_in(env, keep, d, x),
        keep < env.scopes.len(),
        !stmt_assigns(s, x),
        no_function_assigns(funcs, x),
    ensures
        stays_empty(env, eval_stmt(funcs, env, s, fuel).0, keep, d, x),
    decreases fuel, s, 0nat,
{
    match s {
        StmtV::Binding(b) => {
            lemma_eval_keeps_empty(funcs, env, b.value, ValueMode::Move, fuel, keep, d, x);
        },
        StmtV::Assign { target, value } => {
            lemma_eval_keeps_empty(funcs, env, value, ValueMode::Move, fuel, keep, d, x);
            let (e1, r) = eval_expr(funcs, env, value, ValueMode::Move, fuel);
            match r {
                Err(_) => {},
                Ok(v) => {
                    lemma_assign_keeps(e1, target, v, keep, d, x);
                    lemma_stays_transitive(env, e1, assign_path(e1, target, v).0, keep, d, x);
                },
            }
        },
        StmtV::Expr(e) => {
            lemma_eval_keeps_empty(funcs, env, e, ValueMode::Move, fuel, keep, d, x);
        },
    }
}

/// Move uniqueness at run time. After a binding was read under `Move`, and
/// whatever expression was evaluated next, every read of the binding fails
/// with a moved-value error, unless the expression or a function assigns to
/// the binding.
pub proof fn lemma_move_uniqueness(
    funcs: Map<Name, FuncDeclV>,
    env: EnvV,
    x: Name,
    between: ExprV,
    mode: ValueMode,
    again: ValueMode,
    fuel: nat,
)
    requires
        read_value(env, seq![x], ValueMode::Move).1 is Ok,
        !assigns(between, x),
        no_function_assigns(funcs, x),
    ensures
        ({
            let e1 = read_value(env, seq![x], ValueMode::Move).0;
            let e2 = eval_expr(funcs, e1, between, mode, fuel).0;
            read_value(e2, seq![x], again) == (
                e2,
                Err::<ValueV, RuntimeErrorV>(RuntimeErrorV::Moved(x)),
            )
        }),
{
    let path = seq![x];
    lemma_find_scope_innermost(env.scopes, x);
    let d = find_scope(env.scopes, x)->0;
    let e1 = read_value(env, path, ValueMode::Move).0;
    let keep = env.scopes.len() as int;
    let cell = env.scopes[d][x];
    let scope = env.scopes[d].insert(x, CellV { value: None, ..cell });
    assert(scope.dom() =~= env.scopes[d].dom());
    assert(empty_in(e1, keep, d, x));
    lemma_eval_keeps_empty(funcs, e1, between, mode, fuel, keep, d, x);
    let e2 = eval_expr(funcs, e1, between, mode, fuel).0;
    lemma_find_scope_innermost(e2.scopes, x);
    assert forall|j: int| d < j < e2.scopes.len() implies !(#[trigger] e2.scopes[j]).contains_key(
        x,
    ) by {
        assert(e2.scopes[j].dom() == e1.scopes[j].dom());
        assert(e1.scopes[j] == env.scopes[j]);
    }
    assert(find_scope(e2.scopes, x) == Some(d));
}

} // verus!
