//! The checker and the evaluator enforce one discipline: on states that
//! agree on which bindings are moved, a read of a binding fails in both or in
//! neither, and afterwards the states agree again.

use crate::ast::Name;
use crate::check_rules::{read_path, CheckerV, SlotV, TypeErrorV, ValueMode};
use crate::eval_rules::{read_value, CellV, EnvV, RuntimeErrorV};
use crate::scopes::{find_scope, lemma_find_scope_innermost};
use vstd::prelude::*;

verus! {

/// The checker's scopes and the evaluator's declare the same names, scope
/// by scope, and a binding is marked moved in the one exactly where its cell
/// is empty in the other.
pub open spec fn agree(st: CheckerV, env: EnvV) -> bool {
    &&& st.scopes.len() == env.scopes.len()
    &&& forall|d: int|
        0 <= d < st.scopes.len() ==> (#[trigger] st.scopes[d]).dom() == env.scopes[d].dom()
    &&& forall|d: int, name: Name|
        0 <= d < st.scopes.len() && st.scopes[d].contains_key(name) ==> (
        #[trigger] st.scopes[d][name]).moved == (env.scopes[d][name].value is None)
}

/// Where a name is found depends only on which names the scopes declare.
pub proof fn lemma_find_scope_same_domains<A, B>(
    a: Seq<Map<Name, A>>,
    b: Seq<Map<Name, B>>,
    name: Name,
)
    requires
        a.len() == b.len(),
        forall|d: int| 0 <= d < a.len() ==> (#[trigger] a[d]).dom() == b[d].dom(),
    ensures
        find_scope(a, name) == find_scope(b, name),
    decreases a.len(),
{
    if a.len() > 0 {
        assert(a.last().dom() == b.last().dom());
        assert(a.last().contains_key(name) == b.last().contains_key(name));
        if !a.last().contains_key(name) {
            assert forall|d: int| 0 <= d < a.drop_last().len() implies (
            #[trigger] a.drop_last()[d]).dom() == b.drop_last()[d].dom() by {
                assert(a.drop_last()[d] == a[d]);
                assert(b.drop_last()[d] == b[d]);
            }
            lemma_find_scope_same_domains(a.drop_last(), b.drop_last(), name);
        }
    }
}

/// One discipline, enforced twice. On states that agree, a read of a
/// binding by its name succeeds in the checker exactly when it succeeds in
/// the evaluator, fails with a moved-value error in the one exactly when it
/// does in the other, and leaves states that agree.
pub proof fn lemma_reads_agree(st: CheckerV, env: EnvV, name: Name, mode: ValueMode)
    requires
        agree(st, env),
    ensures
        read_path(st, seq![name], mode).1 is Ok <==> read_value(env, seq![name], mode).1 is Ok,
        (read_path(st, seq![name], mode).1 matches Err(TypeErrorV::Moved(_))) <==> (read_value(
            env,
            seq![name],
            mode,
        ).1 matches Err(RuntimeErrorV::Moved(_))),
        agree(read_path(st, seq![name], mode).0, read_value(env, seq![name], mode).0),
{
    let path = seq![name];
    assert(path.drop_first() =~= Seq::<Name>::empty());
    lemma_find_scope_same_domains(st.scopes, env.scopes, name);
    lemma_find_scope_innermost(st.scopes, name);
    match find_scope(st.scopes, name) {
        None => {},
        Some(d) => {
            let slot = st.scopes[d][name];
            let cell = env.scopes[d][name];
            if !slot.moved && mode == ValueMode::Move {
                let st2 = read_path(st, path, mode).0;
                let env2 = read_value(env, path, mode).0;
                let new_slot = SlotV { moved: true, ..slot };
                let new_cell = CellV { value: None, ..cell };
                assert(st2.scopes == st.scopes.update(d, st.scopes[d].insert(name, new_slot)));
                assert(env2.scopes == env.scopes.update(d, env.scopes[d].insert(name, new_cell)));
                assert forall|k: int| 0 <= k < st2.scopes.len() implies (
                #[trigger] st2.scopes[k]).dom() == env2.scopes[k].dom() by {
                    assert(st.scopes[k].dom() == env.scopes[k].dom());
                    if k == d {
                        assert(st2.scopes[k].dom() =~= st.scopes[k].dom());
                        assert(env2.scopes[k].dom() =~= env.scopes[k].dom());
                    }
                }
                assert forall|k: int, n: Name|
                    0 <= k < st2.scopes.len() && st2.scopes[k].contains_key(n) implies (
                #[trigger] st2.scopes[k][n]).moved == (env2.scopes[k][n].value is None) by {
                    if k == d && n == name {
                    } else {
                        assert(st.scopes[k].contains_key(n));
                        assert(st.scopes[k][n].moved == (env.scopes[k][n].value is None));
                    }
                }
            }
        },
    }
}

} // verus!
