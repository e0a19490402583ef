//! Move uniqueness for whole programs: once a binding was moved, it stays
//! moved through whatever is checked next, unless that assigns to it.

use crate::ast::{BindingV, BlockV, ExprV, FieldInitV, FieldV, Name, ParamV, PathV, StmtV};
use crate::check_rules::{
    block_body, check_args, check_assign, check_binding, check_block, check_call, check_expr,
    check_record, check_stmt, check_stmts, insert_var, lookup, path_text, pop_scope, push_scope,
    read_path, set_moved, CheckerV, SlotV, TyInfoV, TypeErrorV, ValueMode,
};
use crate::scopes::{find_scope, lemma_find_scope_innermost};
use vstd::prelude::*;

verus! {

/// Whether an expression holds an assignment to a path that starts at `x`.
pub open spec fn assigns(e: ExprV, x: Name) -> bool
    decreases e, 0nat,
{
    match e {
        ExprV::Literal(_) => false,
        ExprV::Path(_) => false,
        ExprV::Copy(inner) => assigns(*inner, x),
        ExprV::Ref(inner) => assigns(*inner, x),
        ExprV::FuncCall { callee, args } => exists|i: int|
            0 <= i < args.len() && assigns(#[trigger] args[i], x),
        ExprV::If { cond, then_branch, else_branch } => assigns(*cond, x) || assigns(
            *then_branch,
            x,
        ) || assigns(*else_branch, x),
        ExprV::Block(b) => block_assigns(b, x),
        ExprV::RecordLit(fields) => exists|i: int|
            0 <= i < fields.len() && assigns((#[trigger] fields[i]).value, x),
        ExprV::Unary { op, expr } => assigns(*expr, x),
        ExprV::Binary { left, op, right } => assigns(*left, x) || assigns(*right, x),
    }
}

/// Whether a block holds an assignment to a path that starts at `x`.
pub open spec fn block_assigns(b: BlockV, x: Name) -> bool
    decreases b, 0nat,
{
    (exists|i: int| 0 <= i < b.stmts.len() && stmt_assigns(#[trigger] b.stmts[i], x)) || (
    match b.tail {
        Some(e) => assigns(*e, x),
        None => false,
    })
}

/// Whether a statement holds an assignment to a path that starts at `x`.
pub open spec fn stmt_assigns(s: StmtV, x: Name) -> bool
    decreases s, 0nat,
{
    match s {
        StmtV::Binding(b) => assigns(b.value, x),
        StmtV::Assign { target, value } => (target.len() > 0 && target[0] == x) || assigns(
            value,
            x,
        ),
        StmtV::Expr(e) => assigns(e, x),
    }
}

/// The scopes below `keep` declare the same names in both states, and the
/// binding of `x` in scope `d`, one of them, is moved in the second.
pub open spec fn stays_moved(before: CheckerV, after: CheckerV, keep: int, d: int, x: Name) -> bool {
    &&& after.scopes.len() == before.scopes.len()
    &&& forall|k: int|
        0 <= k < keep ==> (#[trigger] after.scopes[k]).dom() == before.scopes[k].dom()
    &&& after.scopes[d].contains_key(x)
    &&& after.scopes[d][x].moved
}

/// The binding of `x` in scope `d`, below `keep`, is moved.
pub open spec fn moved_in(st: CheckerV, keep: int, d: int, x: Name) -> bool {
    &&& 0 <= d < keep <= st.scopes.len()
    &&& st.scopes[d].contains_key(x)
    &&& st.scopes[d][x].moved
}

proof fn lemma_set_moved_keeps(st: CheckerV, name: Name, moved: bool, keep: int, d: int, x: Name)
    requires
        moved_in(st, keep, d, x),
        moved || name != x,
    ensures
        stays_moved(st, set_moved(st, name, moved), keep, d, x),
{
    lemma_find_scope_innermost(st.scopes, name);
    match find_scope(st.scopes, name) {
        None => {},
        Some(k) => {
            let scope = st.scopes[k].insert(name, SlotV { moved, ..st.scopes[k][name] });
            assert(scope.dom() =~= st.scopes[k].dom());
        },
    }
}

proof fn lemma_insert_var_keeps(st: CheckerV, name: Name, slot: SlotV, keep: int, d: int, x: Name)
    requires
        moved_in(st, keep, d, x),
        keep < st.scopes.len(),
    ensures
        stays_moved(st, insert_var(st, name, slot), keep, d, x),
{
}

proof fn lemma_stays_transitive(a: CheckerV, b: CheckerV, c: CheckerV, keep: int, d: int, x: Name)
    requires
        moved_in(a, keep, d, x),
        stays_moved(a, b, keep, d, x),
        stays_moved(b, c, keep, d, x),
    ensures
        stays_moved(a, c, keep, d, x),
        moved_in(b, keep, d, x),
{
}

proof fn lemma_read_keeps(st: CheckerV, p: PathV, mode: ValueMode, keep: int, d: int, x: Name)
    requires
        moved_in(st, keep, d, x),
    ensures
        stays_moved(st, read_path(st, p, mode).0, keep, d, x),
{
    if p.len() > 0 {
        lemma_set_moved_keeps(st, p[0], true, keep, d, x);
    }
}

/// Whatever expression is checked, a moved binding stays moved, unless the
/// expression assigns to it.
pub proof fn lemma_expr_keeps_moved(
    st: CheckerV,
    e: ExprV,
    mode: ValueMode,
    keep: int,
    d: int,
    x: Name,
)
    requires
        moved_in(st, keep, d, x),
        !assigns(e, x),
    ensures
        stays_moved(st, check_expr(st, e, mode).0, keep, d, x),
    decreases e, 0nat,
{
    match e {
        ExprV::Literal(_) => {},
        ExprV::Path(p) => {
            lemma_read_keeps(st, p, mode, keep, d, x);
        },
        ExprV::Copy(inner) => {
            lemma_expr_keeps_moved(st, *inner, ValueMode::Copy, keep, d, x);
        },
        ExprV::Ref(inner) => {
            lemma_expr_keeps_moved(st, *inner, ValueMode::Borrow, keep, d, x);
        },
        ExprV::FuncCall { callee, args } => {
            lemma_call_keeps_moved(st, callee, args, keep, d, x);
        },
        ExprV::If { cond, then_branch, else_branch } => {
            lemma_expr_keeps_moved(st, *cond, ValueMode::Move, keep, d, x);
            let (s1, rc) = check_expr(st, *cond, ValueMode::Move);
            lemma_expr_keeps_moved(s1, *then_branch, ValueMode::Move, keep, d, x);
            let (s2, rt) = check_expr(s1, *then_branch, ValueMode::Move);
            lemma_expr_keeps_moved(s2, *else_branch, ValueMode::Move, keep, d, x);
            let (s3, re) = check_expr(s2, *else_branch, ValueMode::Move);
            lemma_stays_transitive(st, s1, s2, keep, d, x);
            lemma_stays_transitive(st, s2, s3, keep, d, x);
        },
        ExprV::Block(b) => {
            lemma_block_keeps_moved(st, b, false, keep, d, x);
        },
        ExprV::RecordLit(fields) => {
            lemma_record_keeps_moved(
                st,
                fields,
                0,
                Seq::empty(),
                crate::check_rules::depth_of(st),
                true,
                keep,
                d,
                x,
            );
        },
        ExprV::Unary { op, expr } => {
            lemma_expr_keeps_moved(st, *expr, ValueMode::Move, keep, d, x);
        },
        ExprV::Binary { left, op, right } => {
            lemma_expr_keeps_moved(st, *left, ValueMode::Move, keep, d, x);
            let (s1, rl) = check_expr(st, *left, ValueMode::Move);
            lemma_expr_keeps_moved(s1, *right, ValueMode::Move, keep, d, x);
            let (s2, rr) = check_expr(s1, *right, ValueMode::Move);
            lemma_stays_transitive(st, s1, s2, keep, d, x);
        },
    }
}

proof fn lemma_call_keeps_moved(
    st: CheckerV,
    callee: PathV,
    args: Seq<ExprV>,
    keep: int,
    d: int,
    x: Name,
)
    requires
        moved_in(st, keep, d, x),
        forall|i: int| 0 <= i < args.len() ==> !assigns(#[trigger] args[i], x),
    ensures
        stays_moved(st, check_call(st, callee, args).0, keep, d, x),
    decreases args, args.len() + 1,
{
    if callee.len() == 1 && st.funcs.contains_key(callee[0]) {
        let sig = st.funcs[callee[0]];
        if sig.params.len() == args.len() {
            lemma_args_keep_moved(st, args, sig.params, 0, keep, d, x);
        }
    }
}

proof fn lemma_args_keep_moved(
    st: CheckerV,
    args: Seq<ExprV>,
    params: Seq<ParamV>,
    i: int,
    keep: int,
    d: int,
    x: Name,
)
    requires
        moved_in(st, keep, d, x),
        forall|j: int| 0 <= j < args.len() ==> !assigns(#[trigger] args[j], x),
    ensures
        stays_moved(st, check_args(st, args, params, i).0, keep, d, x),
    decreases args, args.len() - i,
{
    if 0 <= i < args.len() && i < params.len() {
        lemma_expr_keeps_moved(st, args[i], ValueMode::Move, keep, d, x);
        let (s1, r) = check_expr(st, args[i], ValueMode::Move);
        lemma_args_keep_moved(s1, args, params, i + 1, keep, d, x);
        lemma_stays_transitive(st, s1, check_args(s1, args, params, i + 1).0, keep, d, x);
    }
}

proof fn lemma_record_keeps_moved(
    st: CheckerV,
    fields: Seq<FieldInitV>,
    i: int,
    acc: Seq<FieldV>,
    depth: nat,
    escapable: bool,
    keep: int,
    d: int,
    x: Name,
)
    requires
        moved_in(st, keep, d, x),
        forall|j: int| 0 <= j < fields.len() ==> !assigns((#[trigger] fields[j]).value, x),
    ensures
        stays_moved(st, check_record(st, fields, i, acc, depth, escapable).0, keep, d, x),
    decreases fields, fields.len() - i,
{
    if 0 <= i < fields.len() {
        lemma_expr_keeps_moved(st, fields[i].value, ValueMode::Move, keep, d, x);
        let (s1, r) = check_expr(st, fields[i].value, ValueMode::Move);
        match r {
            Err(_) => {},
            Ok(v) => {
                let acc2 = acc.push(FieldV { name: fields[i].name, ty: v.ty });
                let depth2 = crate::check_rules::max_depth(depth, v.origin_depth);
                let escapable2 = escapable && v.escapable;
                lemma_record_keeps_moved(
                    s1,
                    fields,
                    i + 1,
                    acc2,
                    depth2,
                    escapable2,
                    keep,
                    d,
                    x,
                );
                lemma_stays_transitive(
                    st,
                    s1,
                    check_record(s1, fields, i + 1, acc2, depth2, escapable2).0,
                    keep,
                    d,
                    x,
                );
            },
        }
    }
}

proof fn lemma_block_keeps_moved(
    st: CheckerV,
    b: BlockV,
    allow: bool,
    keep: int,
    d: int,
    x: Name,
)
    requires
        moved_in(st, keep, d, x),
        !block_assigns(b, x),
    ensures
        stays_moved(st, check_block(st, b, allow).0, keep, d, x),
    decreases b, 1nat,
{
    let s0 = push_scope(st);
    assert(moved_in(s0, keep, d, x));
    lemma_block_body_keeps_moved(s0, b, allow, keep, d, x);
    let (s1, r) = block_body(s0, b, allow);
    assert(pop_scope(s1).scopes.len() == st.scopes.len());
    assert forall|k: int| 0 <= k < keep implies (#[trigger] pop_scope(s1).scopes[k]).dom()
        == st.scopes[k].dom() by {
        assert(pop_scope(s1).scopes[k] == s1.scopes[k]);
        assert(s0.scopes[k] == st.scopes[k]);
    }
}

proof fn lemma_block_body_keeps_moved(
    st: CheckerV,
    b: BlockV,
    allow: bool,
    keep: int,
    d: int,
    x: Name,
)
    requires
        moved_in(st, keep, d, x),
        keep < st.scopes.len(),
        !block_assigns(b, x),
    ensures
        stays_moved(st, block_body(st, b, allow).0, keep, d, x),
    decreases b, 0nat,
{
    lemma_stmts_keep_moved(st, b.stmts, 0, keep, d, x);
    let (s1, r) = check_stmts(st, b.stmts, 0);
    match b.tail {
        None => {},
        Some(tail) => {
            lemma_expr_keeps_moved(s1, *tail, ValueMode::Move, keep, d, x);
            let (s2, rt) = check_expr(s1, *tail, ValueMode::Move);
            lemma_stays_transitive(st, s1, s2, keep, d, x);
        },
    }
}

proof fn lemma_stmts_keep_moved(
    st: CheckerV,
    stmts: Seq<StmtV>,
    i: int,
    keep: int,
    d: int,
    x: Name,
)
    requires
        moved_in(st, keep, d, x),
        keep < st.scopes.len(),
        forall|j: int| 0 <= j < stmts.len() ==> !stmt_assigns(#[trigger] stmts[j], x),
    ensures
        stays_moved(st, check_stmts(st, stmts, i).0, keep, d, x),
    decreases stmts, stmts.len() - i,
{
    if 0 <= i < stmts.len() {
        lemma_stmt_keeps_moved(st, stmts[i], keep, d, x);
        let (s1, r) = check_stmt(st, stmts[i]);
        lemma_stmts_keep_moved(s1, stmts, i + 1, keep, d, x);
        lemma_stays_transitive(st, s1, check_stmts(s1, stmts, i + 1).0, keep, d, x);
    }
}

proof fn lemma_stmt_keeps_moved(st: CheckerV, s: StmtV, keep: int, d: int, x: Name)
    requires
        moved_in(st, keep, d, x),
        keep < st.scopes.len(),
        !stmt_assigns(s, x),
    ensures
        stays_moved(st, check_stmt(st, s).0, keep, d, x),
    decreases s, 0nat,
{
    match s {
        StmtV::Binding(b) => {
            lemma_binding_keeps_moved(st, b, crate::check_rules::depth_of(st), keep, d, x);
        },
        StmtV::Assign { target, value } => {
            lemma_assign_keeps_moved(st, target, value, keep, d, x);
        },
        StmtV::Expr(e) => {
            lemma_expr_keeps_moved(st, e, ValueMode::Move, keep, d, x);
        },
    }
}

proof fn lemma_assign_keeps_moved(
    st: CheckerV,
    target: PathV,
    value: ExprV,
    keep: int,
    d: int,
    x: Name,
)
    requires
        moved_in(st, keep, d, x),
        !(target.len() > 0 && target[0] == x),
        !assigns(value, x),
    ensures
        stays_moved(st, check_assign(st, target, value).0, keep, d, x),
    decreases value, 1nat,
{
    match lookup(st, target) {
        Err(_) => {},
        Ok((binding_depth, slot)) => {
            if slot.mutable {
                lemma_expr_keeps_moved(st, value, ValueMode::Move, keep, d, x);
                let (s1, r) = check_expr(st, value, ValueMode::Move);
                lemma_set_moved_keeps(s1, target[0], false, keep, d, x);
                lemma_stays_transitive(st, s1, set_moved(s1, target[0], false), keep, d, x);
            }
        },
    }
}

proof fn lemma_binding_keeps_moved(
    st: CheckerV,
    b: BindingV,
    depth: nat,
    keep: int,
    d: int,
    x: Name,
)
    requires
        moved_in(st, keep, d, x),
        keep < st.scopes.len(),
        !assigns(b.value, x),
    ensures
        stays_moved(st, check_binding(st, b, depth).0, keep, d, x),
    decreases b, 0nat,
{
    lemma_expr_keeps_moved(st, b.value, ValueMode::Move, keep, d, x);
    let (s1, r) = check_expr(st, b.value, ValueMode::Move);
    match crate::check_rules::resolve_type(st, b.ty) {
        Err(_) => {},
        Ok(ty_ann) => {
            let slot = SlotV { ty: ty_ann, mutable: b.mutable, moved: false, origin_depth: depth };
            lemma_insert_var_keeps(s1, b.name, slot, keep, d, x);
            lemma_stays_transitive(st, s1, insert_var(s1, b.name, slot), keep, d, x);
        },
    }
}

/// Move uniqueness. After a binding was read under `Move`, and whatever
/// expression that does not assign to it was checked next, every read of the
/// binding fails with a moved-value error.
pub proof fn lemma_move_uniqueness(
    st: CheckerV,
    x: Name,
    between: ExprV,
    mode: ValueMode,
    again: ValueMode,
)
    requires
        read_path(st, seq![x], ValueMode::Move).1 is Ok,
        !assigns(between, x),
    ensures
        ({
            let s1 = read_path(st, seq![x], ValueMode::Move).0;
            let s2 = check_expr(s1, between, mode).0;
            read_path(s2, seq![x], again) == (
                s2,
                Err::<TyInfoV, TypeErrorV>(TypeErrorV::Moved(x)),
            )
        }),
{
    let path = seq![x];
    assert(path.drop_first() =~= Seq::<Name>::empty());
    lemma_find_scope_innermost(st.scopes, x);
    let d = find_scope(st.scopes, x)->0;
    let s1 = read_path(st, path, ValueMode::Move).0;
    let keep = st.scopes.len() as int;
    let scope = st.scopes[d].insert(x, SlotV { moved: true, ..st.scopes[d][x] });
    assert(scope.dom() =~= st.scopes[d].dom());
    assert(moved_in(s1, keep, d, x));
    lemma_expr_keeps_moved(s1, between, mode, keep, d, x);
    let s2 = check_expr(s1, between, mode).0;
    // the innermost scope that declares x is still scope d
    lemma_find_scope_innermost(s2.scopes, x);
    assert forall|j: int| d < j < s2.scopes.len() implies !(#[trigger] s2.scopes[j]).contains_key(
        x,
    ) by {
        assert(s2.scopes[j].dom() == s1.scopes[j].dom());
        assert(s1.scopes[j] == st.scopes[j]);
    }
    assert(find_scope(s2.scopes, x) == Some(d));
    assert(path_text(path) == x);
}

} // verus!
