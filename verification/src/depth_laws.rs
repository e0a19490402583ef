//! Stack discipline: scopes are opened and closed in pairs, so checking or
//! evaluating anything leaves the scope stack as deep as it found it,
//! whether it succeeds or fails.

use crate::ast::{BindingV, BlockV, DeclV, ExprV, FieldInitV, FieldV, FuncDeclV, Name, ParamV, PathV, StmtV};
use crate::check_rules;
use crate::check_rules::{CheckerV, RoundV, SigV, ValueMode};
use crate::eval_rules;
use crate::eval_rules::EnvV;
use crate::value::{EntryV, ValueV};
use vstd::prelude::*;

verus! {

// ---------------------------------------------------------------------------
// The checker
// ---------------------------------------------------------------------------
proof fn lemma_read_path_keeps_depth(st: CheckerV, p: PathV, mode: ValueMode)
    ensures
        check_rules::read_path(st, p, mode).0.scopes.len() == st.scopes.len(),
{
    if p.len() > 0 {
        lemma_set_moved_keeps_depth(st, p[0], true);
    }
}

proof fn lemma_set_moved_keeps_depth(st: CheckerV, name: Name, moved: bool)
    ensures
        check_rules::set_moved(st, name, moved).scopes.len() == st.scopes.len(),
{
    crate::scopes::lemma_find_scope_innermost(st.scopes, name);
}

proof fn lemma_read_value_keeps_depth(env: EnvV, p: PathV, mode: ValueMode)
    ensures
        eval_rules::read_value(env, p, mode).0.scopes.len() == env.scopes.len(),
{
    if p.len() > 0 {
        crate::scopes::lemma_find_scope_innermost(env.scopes, p[0]);
    }
}

proof fn lemma_assign_path_keeps_depth(env: EnvV, p: PathV, value: ValueV)
    ensures
        eval_rules::assign_path(env, p, value).0.scopes.len() == env.scopes.len(),
{
    if p.len() > 0 {
        crate::scopes::lemma_find_scope_innermost(env.scopes, p[0]);
    }
}

/// Checking an expression leaves the scope stack as deep as it was.
pub proof fn lemma_check_expr_keeps_depth(st: CheckerV, e: ExprV, mode: ValueMode)
    ensures
        check_rules::check_expr(st, e, mode).0.scopes.len() == st.scopes.len(),
    decreases e, 0nat,
{
    match e {
        ExprV::Literal(_) => {},
        ExprV::Path(p) => {
            lemma_read_path_keeps_depth(st, p, mode);
        },
        ExprV::Copy(inner) => {
            lemma_check_expr_keeps_depth(st, *inner, ValueMode::Copy);
        },
        ExprV::Ref(inner) => {
            lemma_check_expr_keeps_depth(st, *inner, ValueMode::Borrow);
        },
        ExprV::FuncCall { callee, args } => {
            lemma_check_call_keeps_depth(st, callee, args);
        },
        ExprV::If { cond, then_branch, else_branch } => {
            lemma_check_expr_keeps_depth(st, *cond, ValueMode::Move);
            let s1 = check_rules::check_expr(st, *cond, ValueMode::Move).0;
            lemma_check_expr_keeps_depth(s1, *then_branch, ValueMode::Move);
            let s2 = check_rules::check_expr(s1, *then_branch, ValueMode::Move).0;
            lemma_check_expr_keeps_depth(s2, *else_branch, ValueMode::Move);
        },
        ExprV::Block(b) => {
            lemma_check_block_keeps_depth(st, b, false);
        },
        ExprV::RecordLit(fields) => {
            lemma_check_record_keeps_depth(
                st,
                fields,
                0,
                Seq::empty(),
                check_rules::depth_of(st),
                true,
            );
        },
        ExprV::Unary { op, expr } => {
            lemma_check_expr_keeps_depth(st, *expr, ValueMode::Move);
        },
        ExprV::Binary { left, op, right } => {
            lemma_check_expr_keeps_depth(st, *left, ValueMode::Move);
            let s1 = check_rules::check_expr(st, *left, ValueMode::Move).0;
            lemma_check_expr_keeps_depth(s1, *right, ValueMode::Move);
        },
    }
}

proof fn lemma_check_call_keeps_depth(st: CheckerV, callee: PathV, args: Seq<ExprV>)
    ensures
        check_rules::check_call(st, callee, args).0.scopes.len() == st.scopes.len(),
    decreases args, args.len() + 1,
{
    if callee.len() == 1 && st.funcs.contains_key(callee[0]) {
        let sig = st.funcs[callee[0]];
        if sig.params.len() == args.len() {
            lemma_check_args_keep_depth(st, args, sig.params, 0);
        }
    }
}

proof fn lemma_check_args_keep_depth(st: CheckerV, args: Seq<ExprV>, params: Seq<ParamV>, i: int)
    ensures
        check_rules::check_args(st, args, params, i).0.scopes.len() == st.scopes.len(),
    decreases args, args.len() - i,
{
    if 0 <= i < args.len() && i < params.len() {
        lemma_check_expr_keeps_depth(st, args[i], ValueMode::Move);
        let s1 = check_rules::check_expr(st, args[i], ValueMode::Move).0;
        lemma_check_args_keep_depth(s1, args, params, i + 1);
    }
}

proof fn lemma_check_record_keeps_depth(
    st: CheckerV,
    fields: Seq<FieldInitV>,
    i: int,
    acc: Seq<FieldV>,
    depth: nat,
    escapable: bool,
)
    ensures
        check_rules::check_record(st, fields, i, acc, depth, escapable).0.scopes.len()
            == st.scopes.len(),
    decreases fields, fields.len() - i,
{
    if 0 <= i < fields.len() {
        lemma_check_expr_keeps_depth(st, fields[i].value, ValueMode::Move);
        let (s1, r) = check_rules::check_expr(st, fields[i].value, ValueMode::Move);
        match r {
            Err(_) => {},
            Ok(v) => {
                lemma_check_record_keeps_depth(
                    s1,
                    fields,
                    i + 1,
                    acc.push(FieldV { name: fields[i].name, ty: v.ty }),
                    check_rules::max_depth(depth, v.origin_depth),
                    escapable && v.escapable,
                );
            },
        }
    }
}

/// A block closes the scope that it opened, also where its check fails.
pub proof fn lemma_check_block_keeps_depth(st: CheckerV, b: BlockV, allow: bool)
    ensures
        check_rules::check_block(st, b, allow).0.scopes.len() == st.scopes.len(),
    decreases b, 1nat,
{
    lemma_check_body_keeps_depth(check_rules::push_scope(st), b, allow);
}

proof fn lemma_check_body_keeps_depth(st: CheckerV, b: BlockV, allow: bool)
    ensures
        check_rules::block_body(st, b, allow).0.scopes.len() == st.scopes.len(),
    decreases b, 0nat,
{
    lemma_check_stmts_keep_depth(st, b.stmts, 0);
    let s1 = check_rules::check_stmts(st, b.stmts, 0).0;
    match b.tail {
        None => {},
        Some(tail) => {
            lemma_check_expr_keeps_depth(s1, *tail, ValueMode::Move);
        },
    }
}

proof fn lemma_check_stmts_keep_depth(st: CheckerV, stmts: Seq<StmtV>, i: int)
    ensures
        check_rules::check_stmts(st, stmts, i).0.scopes.len() == st.scopes.len(),
    decreases stmts, stmts.len() - i,
{
    if 0 <= i < stmts.len() {
        lemma_check_stmt_keeps_depth(st, stmts[i]);
        let s1 = check_rules::check_stmt(st, stmts[i]).0;
        lemma_check_stmts_keep_depth(s1, stmts, i + 1);
    }
}

proof fn lemma_check_stmt_keeps_depth(st: CheckerV, s: StmtV)
    ensures
        check_rules::check_stmt(st, s).0.scopes.len() == st.scopes.len(),
    decreases s, 0nat,
{
    match s {
        StmtV::Binding(b) => {
            lemma_check_binding_keeps_depth(st, b, check_rules::depth_of(st));
        },
        StmtV::Assign { target, value } => {
            lemma_check_assign_keeps_depth(st, target, value);
        },
        StmtV::Expr(e) => {
            lemma_check_expr_keeps_depth(st, e, ValueMode::Move);
        },
    }
}

proof fn lemma_check_assign_keeps_depth(st: CheckerV, target: PathV, value: ExprV)
    ensures
        check_rules::check_assign(st, target, value).0.scopes.len() == st.scopes.len(),
    decreases value, 1nat,
{
    lemma_check_expr_keeps_depth(st, value, ValueMode::Move);
    let s1 = check_rules::check_expr(st, value, ValueMode::Move).0;
    if target.len() > 0 {
        lemma_set_moved_keeps_depth(s1, target[0], false);
    }
}

/// A binding declares its name in the innermost scope and opens none.
pub proof fn lemma_check_binding_keeps_depth(st: CheckerV, b: BindingV, depth: nat)
    ensures
        check_rules::check_binding(st, b, depth).0.scopes.len() == st.scopes.len(),
    decreases b, 0nat,
{
    lemma_check_expr_keeps_depth(st, b.value, ValueMode::Move);
}

proof fn lemma_bind_params_keep_depth(st: CheckerV, params: Seq<ParamV>, i: int, depth: nat)
    ensures
        check_rules::bind_params(st, params, i, depth).0.scopes.len() == st.scopes.len(),
    decreases params.len() - i,
{
    if 0 <= i < params.len() {
        match check_rules::resolve_type(st, params[i].ty) {
            Err(_) => {},
            Ok(ty) => {
                lemma_bind_params_keep_depth(
                    check_rules::insert_var(
                        st,
                        params[i].name,
                        check_rules::SlotV {
                            ty,
                            mutable: params[i].mutable,
                            moved: false,
                            origin_depth: depth,
                        },
                    ),
                    params,
                    i + 1,
                    depth,
                );
            },
        }
    }
}

/// A function closes the scope of its parameters, also where its check
/// fails or waits for a return type.
pub proof fn lemma_check_func_keeps_depth(st: CheckerV, f: FuncDeclV)
    ensures
        check_rules::check_func(st, f).0.scopes.len() == st.scopes.len(),
{
    if !(f.name == "main"@ && f.params.len() != 0) && st.funcs.contains_key(f.name) {
        let s0 = check_rules::push_scope(st);
        let sig = st.funcs[f.name];
        let depth = check_rules::depth_of(s0);
        lemma_bind_params_keep_depth(s0, sig.params, 0, depth);
        let s1 = check_rules::bind_params(s0, sig.params, 0, depth).0;
        match f.body {
            ExprV::Block(b) => {
                lemma_check_block_keeps_depth(s1, b, true);
            },
            other => {
                lemma_check_expr_keeps_depth(s1, other, ValueMode::Move);
            },
        }
    }
}

proof fn lemma_round_keeps_depth(st: CheckerV, pending: Seq<FuncDeclV>, i: int, acc: RoundV)
    ensures
        check_rules::round(st, pending, i, acc).0.scopes.len() == st.scopes.len(),
    decreases pending.len() - i,
{
    if 0 <= i < pending.len() {
        lemma_check_func_keeps_depth(st, pending[i]);
        let (s1, r) = check_rules::check_func(st, pending[i]);
        match r {
            Ok(()) => {
                lemma_round_keeps_depth(s1, pending, i + 1, RoundV { progressed: true, ..acc });
            },
            Err(check_rules::TypeErrorV::UnknownFuncReturn(_)) => {
                lemma_round_keeps_depth(
                    s1,
                    pending,
                    i + 1,
                    RoundV { deferred: acc.deferred.push(pending[i]), ..acc },
                );
            },
            Err(_) => {},
        }
    }
}

proof fn lemma_worklist_keeps_depth(st: CheckerV, pending: Seq<FuncDeclV>)
    ensures
        check_rules::worklist(st, pending).0.scopes.len() == st.scopes.len(),
    decreases pending.len(),
{
    if pending.len() != 0 {
        let start = RoundV { deferred: Seq::empty(), progressed: false };
        lemma_round_keeps_depth(st, pending, 0, start);
        check_rules::lemma_round_progress(st, pending, 0, start);
        let (s1, r) = check_rules::round(st, pending, 0, start);
        match r {
            Err(_) => {},
            Ok(out) => {
                if out.progressed {
                    lemma_worklist_keeps_depth(s1, out.deferred);
                }
            },
        }
    }
}

proof fn lemma_collect_keeps_scopes(st: CheckerV, decls: Seq<DeclV>, i: int)
    ensures
        check_rules::collect(st, decls, i).scopes == st.scopes,
    decreases decls.len() - i,
{
    if 0 <= i < decls.len() {
        let s1 = match decls[i] {
            DeclV::Type { name, ty } => CheckerV { types: st.types.insert(name, ty), ..st },
            DeclV::Func(f) => CheckerV {
                funcs: st.funcs.insert(f.name, SigV { params: f.params, ret: f.ret }),
                ..st
            },
            _ => st,
        };
        lemma_collect_keeps_scopes(s1, decls, i + 1);
    }
}

proof fn lemma_globals_keep_depth(st: CheckerV, decls: Seq<DeclV>, i: int)
    ensures
        check_rules::check_globals(st, decls, i).0.scopes.len() == st.scopes.len(),
    decreases decls.len() - i,
{
    if 0 <= i < decls.len() {
        match decls[i] {
            DeclV::Global(b) | DeclV::Let(b) => {
                lemma_check_binding_keeps_depth(st, b, 0);
                let s1 = check_rules::check_binding(st, b, 0).0;
                lemma_globals_keep_depth(s1, decls, i + 1);
            },
            _ => {
                lemma_globals_keep_depth(st, decls, i + 1);
            },
        }
    }
}

/// A check of a program opens the global scope and leaves it open: behind
/// it the scope stack is one deeper, whether the check succeeded or failed.
pub proof fn lemma_check_program_opens_one_scope(st: CheckerV, decls: Seq<DeclV>)
    ensures
        check_rules::check_program(st, decls).0.scopes.len() == st.scopes.len() + 1,
{
    lemma_collect_keeps_scopes(st, decls, 0);
    let s1 = check_rules::push_scope(check_rules::collect(st, decls, 0));
    lemma_globals_keep_depth(s1, decls, 0);
    let s2 = check_rules::check_globals(s1, decls, 0).0;
    lemma_worklist_keeps_depth(s2, check_rules::funcs_of(decls, 0));
}

// ---------------------------------------------------------------------------
// The evaluator
// ---------------------------------------------------------------------------
/// Evaluating an expression leaves the scope stack as deep as it was.
pub proof fn lemma_eval_expr_keeps_depth(
    funcs: Map<Name, FuncDeclV>,
    env: EnvV,
    e: ExprV,
    mode: ValueMode,
    fuel: nat,
)
    ensures
        eval_rules::eval_expr(funcs, env, e, mode, fuel).0.scopes.len() == env.scopes.len(),
    decreases fuel, e, 0nat,
{
    match e {
        ExprV::Literal(_) => {},
        ExprV::Path(p) => {
            lemma_read_value_keeps_depth(env, p, mode);
        },
        ExprV::Copy(inner) => {
            lemma_eval_expr_keeps_depth(funcs, env, *inner, ValueMode::Copy, fuel);
        },
        ExprV::Ref(inner) => {
            lemma_eval_expr_keeps_depth(funcs, env, *inner, ValueMode::Borrow, fuel);
        },
        ExprV::FuncCall { callee, args } => {
            lemma_eval_call_keeps_depth(funcs, env, callee, args, fuel);
        },
        ExprV::If { cond, then_branch, else_branch } => {
            lemma_eval_expr_keeps_depth(funcs, env, *cond, ValueMode::Move, fuel);
            let e1 = eval_rules::eval_expr(funcs, env, *cond, ValueMode::Move, fuel).0;
            lemma_eval_expr_keeps_depth(funcs, e1, *then_branch, ValueMode::Move, fuel);
            lemma_eval_expr_keeps_depth(funcs, e1, *else_branch, ValueMode::Move, fuel);
        },
        ExprV::Block(b) => {
            lemma_eval_block_keeps_depth(funcs, env, b, fuel);
        },
        ExprV::RecordLit(fields) => {
            lemma_eval_record_keeps_depth(funcs, env, fields, 0, Seq::empty(), fuel);
        },
        ExprV::Unary { op, expr } => {
            lemma_eval_expr_keeps_depth(funcs, env, *expr, ValueMode::Move, fuel);
        },
        ExprV::Binary { left, op, right } => {
            lemma_eval_expr_keeps_depth(funcs, env, *left, ValueMode::Move, fuel);
            let e1 = eval_rules::eval_expr(funcs, env, *left, ValueMode::Move, fuel).0;
            lemma_eval_expr_keeps_depth(funcs, e1, *right, ValueMode::Move, fuel);
        },
    }
}

proof fn lemma_eval_call_keeps_depth(
    funcs: Map<Name, FuncDeclV>,
    env: EnvV,
    callee: PathV,
    args: Seq<ExprV>,
    fuel: nat,
)
    ensures
        eval_rules::eval_call(funcs, env, callee, args, fuel).0.scopes.len() == env.scopes.len(),
    decreases fuel, args, args.len() + 1,
{
    let name = check_rules::path_text(callee);
    if funcs.contains_key(name) {
        lemma_eval_args_keep_depth(funcs, env, args, 0, Seq::empty(), fuel);
        let (e1, r) = eval_rules::eval_args(funcs, env, args, 0, Seq::empty(), fuel);
        match r {
            Err(_) => {},
            Ok(values) => {
                if fuel > 0 {
                    lemma_call_function_keeps_depth(
                        funcs,
                        e1,
                        funcs[name],
                        values,
                        (fuel - 1) as nat,
                    );
                }
            },
        }
    } else if eval_rules::is_print(name) {
        if args.len() == 1 {
            lemma_eval_expr_keeps_depth(funcs, env, args[0], ValueMode::Move, fuel);
        }
    }
}

proof fn lemma_eval_args_keep_depth(
    funcs: Map<Name, FuncDeclV>,
    env: EnvV,
    args: Seq<ExprV>,
    i: int,
    acc: Seq<ValueV>,
    fuel: nat,
)
    ensures
        eval_rules::eval_args(funcs, env, args, i, acc, fuel).0.scopes.len() == env.scopes.len(),
    decreases fuel, args, args.len() - i,
{
    if 0 <= i < args.len() {
        lemma_eval_expr_keeps_depth(funcs, env, args[i], ValueMode::Move, fuel);
        let (e1, r) = eval_rules::eval_expr(funcs, env, args[i], ValueMode::Move, fuel);
        match r {
            Err(_) => {},
            Ok(v) => {
                lemma_eval_args_keep_depth(funcs, e1, args, i + 1, acc.push(v), fuel);
            },
        }
    }
}

proof fn lemma_eval_record_keeps_depth(
    funcs: Map<Name, FuncDeclV>,
    env: EnvV,
    fields: Seq<FieldInitV>,
    i: int,
    acc: Seq<EntryV>,
    fuel: nat,
)
    ensures
        eval_rules::eval_record(funcs, env, fields, i, acc, fuel).0.scopes.len()
            == env.scopes.len(),
    decreases fuel, fields, fields.len() - i,
{
    if 0 <= i < fields.len() {
        lemma_eval_expr_keeps_depth(funcs, env, fields[i].value, ValueMode::Move, fuel);
        let (e1, r) = eval_rules::eval_expr(funcs, env, fields[i].value, ValueMode::Move, fuel);
        match r {
            Err(_) => {},
            Ok(v) => {
                lemma_eval_record_keeps_depth(
                    funcs,
                    e1,
                    fields,
                    i + 1,
                    crate::value::put(acc, fields[i].name, v),
                    fuel,
                );
            },
        }
    }
}

proof fn lemma_bind_args_keep_depth(env: EnvV, params: Seq<ParamV>, args: Seq<ValueV>, i: int)
    requires
        env.scopes.len() > 0,
    ensures
        eval_rules::bind_args(env, params, args, i).scopes.len() == env.scopes.len(),
    decreases params.len() - i,
{
    if 0 <= i < params.len() && i < args.len() {
        lemma_bind_args_keep_depth(
            eval_rules::insert_cell(
                env,
                params[i].name,
                eval_rules::CellV { mutable: params[i].mutable, value: Some(args[i]) },
            ),
            params,
            args,
            i + 1,
        );
    }
}

/// A call closes the scope of its parameters, also where it fails.
pub proof fn lemma_call_function_keeps_depth(
    funcs: Map<Name, FuncDeclV>,
    env: EnvV,
    f: FuncDeclV,
    args: Seq<ValueV>,
    fuel: nat,
)
    ensures
        eval_rules::call_function(funcs, env, f, args, fuel).0.scopes.len() == env.scopes.len(),
    decreases fuel, f.body, 2nat,
{
    if f.params.len() == args.len() {
        let e0 = eval_rules::push_scope(env);
        lemma_bind_args_keep_depth(e0, f.params, args, 0);
        let e1 = eval_rules::bind_args(e0, f.params, args, 0);
        match f.body {
            ExprV::Block(b) => {
                lemma_eval_block_keeps_depth(funcs, e1, b, fuel);
            },
            other => {
                lemma_eval_expr_keeps_depth(funcs, e1, other, ValueMode::Move, fuel);
            },
        }
    }
}

/// A block closes the scope that it opened, also where it fails.
pub proof fn lemma_eval_block_keeps_depth(
    funcs: Map<Name, FuncDeclV>,
    env: EnvV,
    b: BlockV,
    fuel: nat,
)
    ensures
        eval_rules::eval_block(funcs, env, b, fuel).0.scopes.len() == env.scopes.len(),
    decreases fuel, b, 1nat,
{
    lemma_eval_body_keeps_depth(funcs, eval_rules::push_scope(env), b, fuel);
}

proof fn lemma_eval_body_keeps_depth(
    funcs: Map<Name, FuncDeclV>,
    env: EnvV,
    b: BlockV,
    fuel: nat,
)
    requires
        env.scopes.len() > 0,
    ensures
        eval_rules::block_body(funcs, env, b, fuel).0.scopes.len() == env.scopes.len(),
    decreases fuel, b, 0nat,
{
    lemma_eval_stmts_keep_depth(funcs, env, b.stmts, 0, fuel);
    let e1 = eval_rules::eval_stmts(funcs, env, b.stmts, 0, fuel).0;
    match b.tail {
        None => {},
        Some(tail) => {
            lemma_eval_expr_keeps_depth(funcs, e1, *tail, ValueMode::Move, fuel);
        },
    }
}

proof fn lemma_eval_stmts_keep_depth(
    funcs: Map<Name, FuncDeclV>,
    env: EnvV,
    stmts: Seq<StmtV>,
    i: int,
    fuel: nat,
)
    requires
        env.scopes.len() > 0,
    ensures
        eval_rules::eval_stmts(funcs, env, stmts, i, fuel).0.scopes.len() == env.scopes.len(),
    decreases fuel, stmts, stmts.len() - i,
{
    if 0 <= i < stmts.len() {
        lemma_eval_stmt_keeps_depth(funcs, env, stmts[i], fuel);
        let e1 = eval_rules::eval_stmt(funcs, env, stmts[i], fuel).0;
        lemma_eval_stmts_keep_depth(funcs, e1, stmts, i + 1, fuel);
    }
}

proof fn lemma_eval_stmt_keeps_depth(
    funcs: Map<Name, FuncDeclV>,
    env: EnvV,
    s: StmtV,
    fuel: nat,
)
    requires
        env.scopes.len() > 0,
    ensures
        eval_rules::eval_stmt(funcs, env, s, fuel).0.scopes.len() == env.scopes.len(),
    decreases fuel, s, 0nat,
{
    match s {
        StmtV::Binding(b) => {
            lemma_eval_expr_keeps_depth(funcs, env, b.value, ValueMode::Move, fuel);
        },
        StmtV::Assign { target, value } => {
            lemma_eval_expr_keeps_depth(funcs, env, value, ValueMode::Move, fuel);
            let (e1, r) = eval_rules::eval_expr(funcs, env, value, ValueMode::Move, fuel);
            match r {
                Err(_) => {},
                Ok(v) => {
                    lemma_assign_path_keeps_depth(e1, target, v);
                },
            }
        },
        StmtV::Expr(e) => {
            lemma_eval_expr_keeps_depth(funcs, env, e, ValueMode::Move, fuel);
        },
    }
}

} // verus!
