//! Laws of the static checker, proved from the rules in
//! [`crate::check_rules`].

use crate::ast::{contains_ref, BindingV, BlockV, ExprV, FuncDeclV, Name, PathV};
use crate::check_rules::{
    check_binding, check_block, check_expr, check_func, ensure_not_escape, lookup, path_text,
    read_path, resolve_type, set_moved, CheckerV, SlotV, TyInfoV, TypeErrorV, ValueMode,
};
use crate::scopes::{find_scope, lemma_find_scope_innermost, lemma_find_scope_same_names};
use vstd::prelude::*;

verus! {

/// Setting a moved flag keeps every binding where it is, with its type,
/// mutability and origin.
pub proof fn lemma_set_moved_keeps_bindings(st: CheckerV, name: Name, moved: bool, other: Name)
    ensures
        find_scope(set_moved(st, name, moved).scopes, other) == find_scope(st.scopes, other),
        match find_scope(st.scopes, other) {
            Some(d) => {
                let before = st.scopes[d][other];
                let after = set_moved(st, name, moved).scopes[d][other];
                &&& after.ty == before.ty
                &&& after.mutable == before.mutable
                &&& after.origin_depth == before.origin_depth
                &&& after.moved == (if other == name {
                    moved
                } else {
                    before.moved
                })
            },
            None => true,
        },
{
    lemma_find_scope_innermost(st.scopes, name);
    lemma_find_scope_innermost(st.scopes, other);
    match find_scope(st.scopes, name) {
        None => {},
        Some(d) => {
            let scope = st.scopes[d].insert(name, SlotV { moved, ..st.scopes[d][name] });
            assert(scope.dom() =~= st.scopes[d].dom());
            lemma_find_scope_same_names(st.scopes, d, scope, other);
        },
    }
}

/// Move uniqueness. After a path was read under `Move`, every further read
/// of it, in any mode, fails with `Moved` and changes nothing.
pub proof fn lemma_read_after_move_fails(st: CheckerV, path: PathV, again: ValueMode)
    requires
        read_path(st, path, ValueMode::Move).1 is Ok,
    ensures
        read_path(read_path(st, path, ValueMode::Move).0, path, again) == (
            read_path(st, path, ValueMode::Move).0,
            Err::<TyInfoV, TypeErrorV>(TypeErrorV::Moved(path_text(path))),
        ),
{
    lemma_set_moved_keeps_bindings(st, path[0], true, path[0]);
}

/// A read of a binding that is marked moved fails with `Moved`, in every
/// mode, and changes nothing.
pub proof fn lemma_read_of_moved_fails(st: CheckerV, path: PathV, mode: ValueMode)
    requires
        lookup(st, path) matches Ok((_, slot)) && slot.moved,
    ensures
        read_path(st, path, mode) == (
            st,
            Err::<TyInfoV, TypeErrorV>(TypeErrorV::Moved(path_text(path))),
        ),
{
}

/// No read clears a moved flag: a binding that is marked moved stays so
/// across a read of any path in any mode.
pub proof fn lemma_read_keeps_moved(st: CheckerV, path: PathV, mode: ValueMode, name: Name)
    requires
        find_scope(st.scopes, name) matches Some(d) && st.scopes[d][name].moved,
    ensures
        find_scope(read_path(st, path, mode).0.scopes, name) == find_scope(st.scopes, name),
        find_scope(st.scopes, name) matches Some(d) && read_path(st, path, mode).0.scopes[d][name].moved,
{
    if path.len() > 0 {
        lemma_set_moved_keeps_bindings(st, path[0], true, name);
    }
}

/// Copy and borrow do not consume. A read under `Copy` or `Borrow` that
/// succeeds leaves the state as it was, and a `Move` read of the same path
/// right after it succeeds.
pub proof fn lemma_shared_read_keeps_binding(st: CheckerV, path: PathV, mode: ValueMode)
    requires
        mode != ValueMode::Move,
        read_path(st, path, mode).1 is Ok,
    ensures
        read_path(st, path, mode).0 == st,
        read_path(st, path, ValueMode::Move).1 == read_path(st, path, mode).1,
{
}

/// A value whose structural type holds a reference never passes the escape
/// rule into a shallower depth, whatever its escapable flag says.
pub proof fn lemma_reference_cannot_escape(
    st: CheckerV,
    info: TyInfoV,
    target: nat,
)
    requires
        info.origin_depth > target,
        resolve_type(st, info.ty) matches Ok(r) && contains_ref(r),
    ensures
        ensure_not_escape(st, info, target) == Err::<(), TypeErrorV>(TypeErrorV::Escape),
{
}

/// A value that is not escapable never passes the escape rule into a
/// shallower depth.
pub proof fn lemma_unescapable_cannot_escape(
    st: CheckerV,
    info: TyInfoV,
    target: nat,
)
    requires
        info.origin_depth > target,
        !info.escapable,
    ensures
        ensure_not_escape(st, info, target) == Err::<(), TypeErrorV>(TypeErrorV::Escape),
{
}

/// The tail value of a block that is used as an expression is never
/// escapable: a value escapes at most once, at a function body.
pub proof fn lemma_inner_block_value_not_escapable(st: CheckerV, b: BlockV)
    requires
        b.tail is Some,
    ensures
        check_block(st, b, false).1 matches Ok(info) ==> !info.escapable,
        check_expr(st, ExprV::Block(b), ValueMode::Move).1 matches Ok(info) ==> !info.escapable,
{
}

/// A binding whose value is the tail of a block expression, produced deeper
/// than the binding, is rejected with `Escape`.
pub proof fn lemma_binding_of_deeper_block_value_rejected(st: CheckerV, b: BindingV, depth: nat)
    requires
        b.value matches ExprV::Block(bl) && bl.tail is Some,
        resolve_type(st, b.ty) is Ok,
        check_expr(st, b.value, ValueMode::Move).1 matches Ok(info) && info.origin_depth > depth,
    ensures
        check_binding(st, b, depth).1 == Err::<(), TypeErrorV>(TypeErrorV::Escape),
{
    lemma_inner_block_value_not_escapable(st, b.value->Block_0);
}

/// A function called `main` that declares a parameter is rejected with
/// `MainHasParams` before anything else of it is looked at, body included.
pub proof fn lemma_main_takes_no_parameters(st: CheckerV, f: FuncDeclV)
    requires
        f.name == "main"@,
        f.params.len() > 0,
    ensures
        check_func(st, f) == (st, Err::<(), TypeErrorV>(TypeErrorV::MainHasParams)),
{
}

} // verus!
