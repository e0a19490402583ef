//! The scope stack that the checker and the evaluator share: a sequence of
//! maps from names to whatever each of them keeps of a binding, innermost
//! scope last.

use crate::ast::Name;
use vstd::prelude::*;

verus! {

/// The innermost scope that declares `name`.
pub open spec fn find_scope<V>(scopes: Seq<Map<Name, V>>, name: Name) -> Option<int>
    decreases scopes.len(),
{
    if scopes.len() == 0 {
        None
    } else if scopes.last().contains_key(name) {
        Some(scopes.len() - 1)
    } else {
        find_scope(scopes.drop_last(), name)
    }
}

/// The scope that `find_scope` names declares the name, and no scope inside
/// it does.
pub proof fn lemma_find_scope_innermost<V>(scopes: Seq<Map<Name, V>>, name: Name)
    ensures
        match find_scope(scopes, name) {
            Some(d) => 0 <= d < scopes.len() && scopes[d].contains_key(name) && forall|j: int|
                d < j < scopes.len() ==> !(#[trigger] scopes[j]).contains_key(name),
            None => forall|j: int|
                0 <= j < scopes.len() ==> !(#[trigger] scopes[j]).contains_key(name),
        },
    decreases scopes.len(),
{
    if scopes.len() > 0 && !scopes.last().contains_key(name) {
        lemma_find_scope_innermost(scopes.drop_last(), name);
        assert forall|j: int| 0 <= j < scopes.len() - 1 implies scopes[j] == scopes.drop_last()[j] by {}
    }
}

/// Replacing a scope by one that declares the same names does not change
/// where any name is found.
pub proof fn lemma_find_scope_same_names<V>(
    scopes: Seq<Map<Name, V>>,
    d: int,
    scope: Map<Name, V>,
    name: Name,
)
    requires
        0 <= d < scopes.len(),
        scope.dom() == scopes[d].dom(),
    ensures
        find_scope(scopes.update(d, scope), name) == find_scope(scopes, name),
    decreases scopes.len(),
{
    let updated = scopes.update(d, scope);
    if d == scopes.len() - 1 {
        assert(updated.drop_last() =~= scopes.drop_last());
    } else {
        assert(updated.drop_last() =~= scopes.drop_last().update(d, scope));
        lemma_find_scope_same_names(scopes.drop_last(), d, scope, name);
    }
}

} // verus!
