//! Laws of the evaluator, proved from the rules in [`crate::eval_rules`].

use crate::ast::{Name, PathV};
use crate::check_rules::ValueMode;
use crate::eval_rules::{assign_path, read_value, set_cell, CellV, EnvV, RuntimeErrorV};
use crate::scopes::{find_scope, lemma_find_scope_innermost, lemma_find_scope_same_names};
use crate::value::ValueV;
use vstd::prelude::*;

verus! {

/// Replacing the cell of a declared name keeps every name where it is
/// found, and every other cell as it is.
pub proof fn lemma_set_cell_keeps_bindings(env: EnvV, d: int, name: Name, cell: CellV, other: Name)
    requires
        find_scope(env.scopes, name) == Some(d),
    ensures
        find_scope(set_cell(env, d, name, cell).scopes, other) == find_scope(env.scopes, other),
        find_scope(env.scopes, other) matches Some(k) ==> set_cell(
            env,
            d,
            name,
            cell,
        ).scopes[k][other] == (if other == name {
            cell
        } else {
            env.scopes[k][other]
        }),
{
    lemma_find_scope_innermost(env.scopes, name);
    lemma_find_scope_innermost(env.scopes, other);
    let scope = env.scopes[d].insert(name, cell);
    assert(scope.dom() =~= env.scopes[d].dom());
    lemma_find_scope_same_names(env.scopes, d, scope, other);
}

/// Move uniqueness. After a path was read under `Move`, every further read
/// of it, in any mode, fails with `Moved` and changes nothing.
pub proof fn lemma_read_after_move_fails(env: EnvV, path: PathV, again: ValueMode)
    requires
        read_value(env, path, ValueMode::Move).1 is Ok,
    ensures
        read_value(read_value(env, path, ValueMode::Move).0, path, again) == (
            read_value(env, path, ValueMode::Move).0,
            Err::<ValueV, RuntimeErrorV>(RuntimeErrorV::Moved(path[0])),
        ),
{
    let d = find_scope(env.scopes, path[0])->0;
    let cell = env.scopes[d][path[0]];
    lemma_set_cell_keeps_bindings(env, d, path[0], CellV { value: None, ..cell }, path[0]);
}

/// A read of a binding whose cell is empty fails with `Moved`, in every
/// mode, and changes nothing.
pub proof fn lemma_read_of_moved_fails(env: EnvV, path: PathV, mode: ValueMode)
    requires
        path.len() > 0,
        find_scope(env.scopes, path[0]) matches Some(d) && env.scopes[d][path[0]].value is None,
    ensures
        read_value(env, path, mode) == (
            env,
            Err::<ValueV, RuntimeErrorV>(RuntimeErrorV::Moved(path[0])),
        ),
{
}

/// No read fills a cell: a binding whose cell is empty stays so across a
/// read of any path in any mode.
pub proof fn lemma_read_keeps_moved(env: EnvV, path: PathV, mode: ValueMode, name: Name)
    requires
        find_scope(env.scopes, name) matches Some(d) && env.scopes[d][name].value is None,
    ensures
        find_scope(read_value(env, path, mode).0.scopes, name) == find_scope(env.scopes, name),
        find_scope(env.scopes, name) matches Some(d) && read_value(
            env,
            path,
            mode,
        ).0.scopes[d][name].value is None,
{
    if path.len() > 0 {
        match find_scope(env.scopes, path[0]) {
            None => {},
            Some(d) => {
                let cell = env.scopes[d][path[0]];
                lemma_set_cell_keeps_bindings(
                    env,
                    d,
                    path[0],
                    CellV { value: None, ..cell },
                    name,
                );
            },
        }
    }
}

/// Copy and borrow do not consume. A read under `Copy` or `Borrow` leaves
/// the environment as it was, and where it succeeds a `Move` read of the
/// same path right after it gives the same value.
pub proof fn lemma_shared_read_keeps_binding(env: EnvV, path: PathV, mode: ValueMode)
    requires
        mode != ValueMode::Move,
    ensures
        read_value(env, path, mode).0 == env,
        read_value(env, path, ValueMode::Move).1 == read_value(env, path, mode).1,
{
}

/// Assignment refreshes. After an assignment to a binding itself, the
/// binding holds the assigned value, whether or not it was moved before.
pub proof fn lemma_assignment_makes_present(env: EnvV, name: Name, value: ValueV)
    requires
        assign_path(env, seq![name], value).1 is Ok,
    ensures
        read_value(assign_path(env, seq![name], value).0, seq![name], ValueMode::Copy) == (
            assign_path(env, seq![name], value).0,
            Ok::<ValueV, RuntimeErrorV>(value),
        ),
{
    let path = seq![name];
    let d = find_scope(env.scopes, name)->0;
    let cell = env.scopes[d][name];
    lemma_set_cell_keeps_bindings(env, d, name, CellV { value: Some(value), ..cell }, name);
    assert(path.drop_first() =~= Seq::<Name>::empty());
}

} // verus!
