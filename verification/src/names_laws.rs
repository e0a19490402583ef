//! Evaluation declares names only in scopes that it opens itself: the
//! scopes that were open before hold the same names afterwards, whatever was
//! evaluated and whether it succeeded or failed.

use crate::ast::{BlockV, ExprV, FieldInitV, FuncDeclV, Name, ParamV, PathV, StmtV};
use crate::check_rules::{path_text, ValueMode};
use crate::eval_rules::{
    assign_path, bind_args, block_body, call_function, eval_args, eval_block, eval_call,
    eval_expr, eval_record, eval_stmt, eval_stmts, insert_cell, is_print, pop_scope, push_scope,
    read_value, CellV, EnvV,
};
use crate::scopes::{find_scope, lemma_find_scope_innermost};
use crate::value::{put, EntryV, ValueV};
use vstd::prelude::*;

verus! {

/// The two environments are as deep as each other, and their scopes below
/// `keep` declare the same names.
pub open spec fn keeps_names(before: EnvV, after: EnvV, keep: int) -> bool {
    &&& after.scopes.len() == before.scopes.len()
    &&& forall|k: int|
        0 <= k < keep ==> (#[trigger] after.scopes[k]).dom() == before.scopes[k].dom()
}

proof fn lemma_keeps_transitive(a: EnvV, b: EnvV, c: EnvV, keep: int)
    requires
        0 <= keep <= a.scopes.len(),
        keeps_names(a, b, keep),
        keeps_names(b, c, keep),
    ensures
        keeps_names(a, c, keep),
{
}

proof fn lemma_read_keeps(env: EnvV, p: PathV, mode: ValueMode, keep: int)
    requires
        0 <= keep <= env.scopes.len(),
    ensures
        keeps_names(env, read_value(env, p, mode).0, keep),
{
    if p.len() > 0 {
        lemma_find_scope_innermost(env.scopes, p[0]);
        match find_scope(env.scopes, p[0]) {
            None => {},
            Some(k) => {
                let cell = env.scopes[k][p[0]];
                let scope = env.scopes[k].insert(p[0], CellV { value: None, ..cell });
                assert(scope.dom() =~= env.scopes[k].dom());
            },
        }
    }
}

proof fn lemma_assign_keeps(env: EnvV, p: PathV, value: ValueV, keep: int)
    requires
        0 <= keep <= env.scopes.len(),
    ensures
        keeps_names(env, assign_path(env, p, value).0, keep),
{
    if p.len() > 0 {
        lemma_find_scope_innermost(env.scopes, p[0]);
        match find_scope(env.scopes, p[0]) {
            None => {},
            Some(k) => {
                assert forall|c: CellV| (#[trigger] env.scopes[k].insert(p[0], c)).dom()
                    =~= env.scopes[k].dom() by {}
            },
        }
    }
}

proof fn lemma_bind_args_keep(
    env: EnvV,
    params: Seq<ParamV>,
    args: Seq<ValueV>,
    i: int,
    keep: int,
)
    requires
        0 <= keep < env.scopes.len(),
    ensures
        keeps_names(env, bind_args(env, params, args, i), keep),
    decreases params.len() - i,
{
    if 0 <= i < params.len() && i < args.len() {
        let next = insert_cell(
            env,
            params[i].name,
            CellV { mutable: params[i].mutable, value: Some(args[i]) },
        );
        lemma_bind_args_keep(next, params, args, i + 1, keep);
    }
}

/// Whatever expression is evaluated, the scopes that were open hold the
/// same names afterwards.
pub proof fn lemma_eval_keeps_names(
    funcs: Map<Name, FuncDeclV>,
    env: EnvV,
    e: ExprV,
    mode: ValueMode,
    fuel: nat,
    keep: int,
)
    requires
        0 <= keep <= env.scopes.len(),
    ensures
        keeps_names(env, eval_expr(funcs, env, e, mode, fuel).0, keep),
    decreases fuel, e, 0nat,
{
    match e {
        ExprV::Literal(_) => {},
        ExprV::Path(p) => {
            lemma_read_keeps(env, p, mode, keep);
        },
        ExprV::Copy(inner) => {
            lemma_eval_keeps_names(funcs, env, *inner, ValueMode::Copy, fuel, keep);
        },
        ExprV::Ref(inner) => {
            lemma_eval_keeps_names(funcs, env, *inner, ValueMode::Borrow, fuel, keep);
        },
        ExprV::FuncCall { callee, args } => {
            lemma_call_keeps_names(funcs, env, callee, args, fuel, keep);
        },
        ExprV::If { cond, then_branch, else_branch } => {
            lemma_eval_keeps_names(funcs, env, *cond, ValueMode::Move, fuel, keep);
            let (e1, rc) = eval_expr(funcs, env, *cond, ValueMode::Move, fuel);
            lemma_eval_keeps_names(funcs, e1, *then_branch, ValueMode::Move, fuel, keep);
            lemma_eval_keeps_names(funcs, e1, *else_branch, ValueMode::Move, fuel, keep);
            lemma_keeps_transitive(
                env,
                e1,
                eval_expr(funcs, e1, *then_branch, ValueMode::Move, fuel).0,
                keep,
            );
            lemma_keeps_transitive(
                env,
                e1,
                eval_expr(funcs, e1, *else_branch, ValueMode::Move, fuel).0,
                keep,
            );
        },
        ExprV::Block(b) => {
            lemma_block_keeps_names(funcs, env, b, fuel, keep);
        },
        ExprV::RecordLit(fields) => {
            lemma_record_keeps_names(funcs, env, fields, 0, Seq::empty(), fuel, keep);
        },
        ExprV::Unary { op, expr } => {
            lemma_eval_keeps_names(funcs, env, *expr, ValueMode::Move, fuel, keep);
        },
        ExprV::Binary { left, op, right } => {
            lemma_eval_keeps_names(funcs, env, *left, ValueMode::Move, fuel, keep);
            let (e1, rl) = eval_expr(funcs, env, *left, ValueMode::Move, fuel);
            lemma_eval_keeps_names(funcs, e1, *right, ValueMode::Move, fuel, keep);
            let (e2, rr) = eval_expr(funcs, e1, *right, ValueMode::Move, fuel);
            lemma_keeps_transitive(env, e1, e2, keep);
        },
    }
}

/// The scope of the top-level bindings is the only scope behind a top-level
/// initializer, and it holds the names that it held before: what is taken
/// back is that scope, with nothing declared in it and nothing gone from it.
pub proof fn lemma_global_scope_is_taken_back(
    st: crate::eval_rules::InterpV,
    b: crate::ast::BindingV,
    fuel: nat,
)
    ensures
        eval_expr(
            st.funcs,
            crate::eval_rules::global_env(st),
            b.value,
            ValueMode::Move,
            fuel,
        ).0.scopes.len() == 1,
        crate::eval_rules::eval_global(st, b, fuel).0.globals.dom() == st.globals.dom(),
{
    let env = crate::eval_rules::global_env(st);
    lemma_eval_keeps_names(st.funcs, env, b.value, ValueMode::Move, fuel, 1);
    let after = eval_expr(st.funcs, env, b.value, ValueMode::Move, fuel).0;
    assert(after.scopes[0].dom() == env.scopes[0].dom());
}

proof fn lemma_call_keeps_names(
    funcs: Map<Name, FuncDeclV>,
    env: EnvV,
    callee: PathV,
    args: Seq<ExprV>,
    fuel: nat,
    keep: int,
)
    requires
        0 <= keep <= env.scopes.len(),
    ensures
        keeps_names(env, eval_call(funcs, env, callee, args, fuel).0, keep),
    decreases fuel, args, args.len() + 1,
{
    let name = path_text(callee);
    if funcs.contains_key(name) {
        lemma_args_keep_names(funcs, env, args, 0, Seq::empty(), fuel, keep);
        let (e1, r) = eval_args(funcs, env, args, 0, Seq::empty(), fuel);
        match r {
            Err(_) => {},
            Ok(values) => {
                if fuel > 0 {
                    lemma_function_keeps_names(
                        funcs,
                        e1,
                        funcs[name],
                        values,
                        (fuel - 1) as nat,
                        keep,
                    );
                    lemma_keeps_transitive(
                        env,
                        e1,
                        call_function(funcs, e1, funcs[name], values, (fuel - 1) as nat).0,
                        keep,
                    );
                }
            },
        }
    } else if is_print(name) {
        if args.len() == 1 {
            lemma_eval_keeps_names(funcs, env, args[0], ValueMode::Move, fuel, keep);
        }
    }
}

proof fn lemma_args_keep_names(
    funcs: Map<Name, FuncDeclV>,
    env: EnvV,
    args: Seq<ExprV>,
    i: int,
    acc: Seq<ValueV>,
    fuel: nat,
    keep: int,
)
    requires
        0 <= keep <= env.scopes.len(),
    ensures
        keeps_names(env, eval_args(funcs, env, args, i, acc, fuel).0, keep),
    decreases fuel, args, args.len() - i,
{
    if 0 <= i < args.len() {
        lemma_eval_keeps_names(funcs, env, args[i], ValueMode::Move, fuel, keep);
        let (e1, r) = eval_expr(funcs, env, args[i], ValueMode::Move, fuel);
        match r {
            Err(_) => {},
            Ok(v) => {
                lemma_args_keep_names(funcs, e1, args, i + 1, acc.push(v), fuel, keep);
                lemma_keeps_transitive(
                    env,
                    e1,
                    eval_args(funcs, e1, args, i + 1, acc.push(v), fuel).0,
                    keep,
                );
            },
        }
    }
}

proof fn lemma_record_keeps_names(
    funcs: Map<Name, FuncDeclV>,
    env: EnvV,
    fields: Seq<FieldInitV>,
    i: int,
    acc: Seq<EntryV>,
    fuel: nat,
    keep: int,
)
    requires
        0 <= keep <= env.scopes.len(),
    ensures
        keeps_names(env, eval_record(funcs, env, fields, i, acc, fuel).0, keep),
    decreases fuel, fields, fields.len() - i,
{
    if 0 <= i < fields.len() {
        lemma_eval_keeps_names(funcs, env, fields[i].value, ValueMode::Move, fuel, keep);
        let (e1, r) = eval_expr(funcs, env, fields[i].value, ValueMode::Move, fuel);
        match r {
            Err(_) => {},
            Ok(v) => {
                let acc2 = put(acc, fields[i].name, v);
                lemma_record_keeps_names(funcs, e1, fields, i + 1, acc2, fuel, keep);
                lemma_keeps_transitive(
                    env,
                    e1,
                    eval_record(funcs, e1, fields, i + 1, acc2, fuel).0,
                    keep,
                );
            },
        }
    }
}

proof fn lemma_function_keeps_names(
    funcs: Map<Name, FuncDeclV>,
    env: EnvV,
    f: FuncDeclV,
    args: Seq<ValueV>,
    fuel: nat,
    keep: int,
)
    requires
        0 <= keep <= env.scopes.len(),
    ensures
        keeps_names(env, call_function(funcs, env, f, args, fuel).0, keep),
    decreases fuel, f.body, 2nat,
{
    if f.params.len() == args.len() {
        let e0 = push_scope(env);
        lemma_bind_args_keep(e0, f.params, args, 0, keep);
        let e1 = bind_args(e0, f.params, args, 0);
        let e2 = match f.body {
            ExprV::Block(b) => {
                lemma_block_keeps_names(funcs, e1, b, fuel, keep);
                eval_block(funcs, e1, b, fuel).0
            },
            other => {
                lemma_eval_keeps_names(funcs, e1, other, ValueMode::Move, fuel, keep);
                eval_expr(funcs, e1, other, ValueMode::Move, fuel).0
            },
        };
        lemma_keeps_transitive(e0, e1, e2, keep);
        assert forall|k: int| 0 <= k < keep implies (#[trigger] pop_scope(e2).scopes[k]).dom()
            == env.scopes[k].dom() by {
            assert(pop_scope(e2).scopes[k] == e2.scopes[k]);
            assert(e0.scopes[k] == env.scopes[k]);
        }
    }
}

proof fn lemma_block_keeps_names(
    funcs: Map<Name, FuncDeclV>,
    env: EnvV,
    b: BlockV,
    fuel: nat,
    keep: int,
)
    requires
        0 <= keep <= env.scopes.len(),
    ensures
        keeps_names(env, eval_block(funcs, env, b, fuel).0, keep),
    decreases fuel, b, 1nat,
{
    let e0 = push_scope(env);
    lemma_body_keeps_names(funcs, e0, b, fuel, keep);
    let (e1, r) = block_body(funcs, e0, b, fuel);
    assert forall|k: int| 0 <= k < keep implies (#[trigger] pop_scope(e1).scopes[k]).dom()
        == env.scopes[k].dom() by {
        assert(pop_scope(e1).scopes[k] == e1.scopes[k]);
        assert(e0.scopes[k] == env.scopes[k]);
    }
}

proof fn lemma_body_keeps_names(
    funcs: Map<Name, FuncDeclV>,
    env: EnvV,
    b: BlockV,
    fuel: nat,
    keep: int,
)
    requires
        0 <= keep < env.scopes.len(),
    ensures
        keeps_names(env, block_body(funcs, env, b, fuel).0, keep),
    decreases fuel, b, 0nat,
{
    lemma_stmts_keep_names(funcs, env, b.stmts, 0, fuel, keep);
    let (e1, r) = eval_stmts(funcs, env, b.stmts, 0, fuel);
    match b.tail {
        None => {},
        Some(tail) => {
            lemma_eval_keeps_names(funcs, e1, *tail, ValueMode::Move, fuel, keep);
            lemma_keeps_transitive(
                env,
                e1,
                eval_expr(funcs, e1, *tail, ValueMode::Move, fuel).0,
                keep,
            );
        },
    }
}

proof fn lemma_stmts_keep_names(
    funcs: Map<Name, FuncDeclV>,
    env: EnvV,
    stmts: Seq<StmtV>,
    i: int,
    fuel: nat,
    keep: int,
)
    requires
        0 <= keep < env.scopes.len(),
    ensures
        keeps_names(env, eval_stmts(funcs, env, stmts, i, fuel).0, keep),
    decreases fuel, stmts, stmts.len() - i,
{
    if 0 <= i < stmts.len() {
        lemma_stmt_keeps_names(funcs, env, stmts[i], fuel, keep);
        let (e1, r) = eval_stmt(funcs, env, stmts[i], fuel);
        lemma_stmts_keep_names(funcs, e1, stmts, i + 1, fuel, keep);
        lemma_keeps_transitive(env, e1, eval_stmts(funcs, e1, stmts, i + 1, fuel).0, keep);
    }
}

proof fn lemma_stmt_keeps_names(
    funcs: Map<Name, FuncDeclV>,
    env: EnvV,
    s: StmtV,
    fuel: nat,
    keep: int,
)
    requires
        0 <= keep < env.scopes.len(),
    ensures
        keeps_names(env, eval_stmt(funcs, env, s, fuel).0, keep),
    decreases fuel, s, 0nat,
{
    match s {
        StmtV::Binding(b) => {
            lemma_eval_keeps_names(funcs, env, b.value, ValueMode::Move, fuel, keep);
        },
        StmtV::Assign { target, value } => {
            lemma_eval_keeps_names(funcs, env, value, ValueMode::Move, fuel, keep);
            let (e1, r) = eval_expr(funcs, env, value, ValueMode::Move, fuel);
            match r {
                Err(_) => {},
                Ok(v) => {
                    lemma_assign_keeps(e1, target, v, keep);
                    lemma_keeps_transitive(env, e1, assign_path(e1, target, v).0, keep);
                },
            }
        },
        StmtV::Expr(e) => {
            lemma_eval_keeps_names(funcs, env, e, ValueMode::Move, fuel, keep);
        },
    }
}

} // verus!
