//! What holds of the library as a whole: statements that relate several of
//! its parts, each proved from the definitions that the parts are verified
//! against.
use vstd::prelude::*;

use crate::frame::{binds, distinct, lemma_put, put, value_of};
use crate::resolver::{
    depth_of, r_assign, r_declare, r_define, r_local, status_rank, Names, Resolving, VarStatus,
};
use crate::scope::{ancestor, parents_first, resolve, NodeView};

verus! {

/// Every name of `before` is a name of `after`, with a status that is not earlier.
pub open spec fn frame_grows(before: Names, after: Names) -> bool {
    forall|name: Seq<char>|
        binds(before, name) ==> binds(after, name) && status_rank(
            (#[trigger] value_of(before, name))->0,
        ) <= status_rank(value_of(after, name)->0)
}

/// The scopes of `after` are those of `before`, each grown.
pub open spec fn stack_grows(before: Seq<Names>, after: Seq<Names>) -> bool {
    before.len() == after.len() && forall|i: int|
        0 <= i < before.len() ==> frame_grows(#[trigger] before[i], after[i])
}

/// Whether no frame of `stack` holds a name twice.
pub open spec fn well_formed(stack: Seq<Names>) -> bool {
    forall|i: int| 0 <= i < stack.len() ==> distinct(#[trigger] stack[i])
}

proof fn lemma_put_grows(frame: Names, name: Seq<char>, status: VarStatus)
    requires
        distinct(frame),
        binds(frame, name) ==> status_rank(value_of(frame, name)->0) <= status_rank(status),
    ensures
        frame_grows(frame, put(frame, name, status)),
        distinct(put(frame, name, status)),
{
    lemma_put(frame, name, status);
    let after = put(frame, name, status);
    assert forall|k: Seq<char>| binds(frame, k) implies binds(after, k) && status_rank(
        (#[trigger] value_of(frame, k))->0,
    ) <= status_rank(value_of(after, k)->0) by {
        if k == name {
        } else {
            assert(value_of(after, k) == value_of(frame, k));
        }
    }
}

proof fn lemma_update_grows(stack: Seq<Names>, at: int, frame: Names)
    requires
        0 <= at < stack.len(),
        frame_grows(stack[at], frame),
    ensures
        stack_grows(stack, stack.update(at, frame)),
{
    let after = stack.update(at, frame);
    assert forall|i: int| 0 <= i < stack.len() implies frame_grows(
        #[trigger] stack[i],
        after[i],
    ) by {
        if i != at {
            assert(after[i] == stack[i]);
        }
    }
}

/// The statuses of the names in a scope never go back: declaring,
/// defining and assigning a name, and resolving a use of one, leave every
/// scope with the names it had, each with the status it had or a later one.
pub proof fn lemma_status_monotone(st: Resolving, expr: usize, name: Seq<char>, assign: bool)
    requires
        well_formed(st.stack),
    ensures
        stack_grows(st.stack, r_declare(st, name).st.stack),
        stack_grows(st.stack, r_define(st, name).st.stack),
        stack_grows(st.stack, r_assign(st, name).st.stack),
        stack_grows(st.stack, r_local(st, expr, name, assign).stack),
{
    reveal(r_declare);
    reveal(r_define);
    reveal(r_assign);
    reveal(r_local);
    let n = st.stack.len() as int;
    assert(stack_grows(st.stack, st.stack)) by {
        assert forall|i: int| 0 <= i < n implies frame_grows(#[trigger] st.stack[i], st.stack[i]) by {}
    }
    if n > 0 {
        let top = st.stack.last();
        assert(distinct(st.stack[n - 1]));
        if !binds(top, name) {
            lemma_put_grows(top, name, VarStatus::Declared);
            lemma_update_grows(st.stack, n - 1, put(top, name, VarStatus::Declared));
        }
        if value_of(top, name) == Some(VarStatus::Declared) {
            lemma_put_grows(top, name, VarStatus::Defined);
            lemma_update_grows(st.stack, n - 1, put(top, name, VarStatus::Defined));
        }
        if value_of(top, name) == Some(VarStatus::Defined) || value_of(top, name) == Some(
            VarStatus::Assigned,
        ) {
            lemma_put_grows(top, name, VarStatus::Assigned);
            lemma_update_grows(st.stack, n - 1, put(top, name, VarStatus::Assigned));
        }
    }
    match depth_of(st.stack, name) {
        None => {},
        Some(d) => {
            lemma_depth_in_range(st.stack, name);
            let at = n - 1 - d;
            assert(distinct(st.stack[at]));
            lemma_put_grows(st.stack[at], name, VarStatus::Assigned);
            lemma_update_grows(st.stack, at, put(st.stack[at], name, VarStatus::Assigned));
        },
    }
}

/// A depth that the resolver finds for a name leads to a scope that declares the name,
/// and no scope nearer than that declares it.
pub proof fn lemma_depth_in_range(stack: Seq<Names>, name: Seq<char>)
    ensures
        match depth_of(stack, name) {
            Some(d) => 0 <= d < stack.len() && binds(stack[stack.len() - 1 - d], name)
                && forall|k: int| 0 <= k < d ==> !binds(#[trigger] stack[stack.len() - 1 - k], name),
            None => forall|k: int| 0 <= k < stack.len() ==> !binds(#[trigger] stack[k], name),
        },
    decreases stack.len(),
{
    if stack.len() > 0 && !binds(stack.last(), name) {
        let rest = stack.drop_last();
        lemma_depth_in_range(rest, name);
        match depth_of(rest, name) {
            Some(d) => {
                assert(rest[rest.len() - 1 - d] == stack[stack.len() - 1 - (d + 1)]);
                assert forall|k: int| 0 <= k < d + 1 implies !binds(
                    #[trigger] stack[stack.len() - 1 - k],
                    name,
                ) by {
                    if k > 0 {
                        assert(rest[rest.len() - 1 - (k - 1)] == stack[stack.len() - 1 - k]);
                    }
                }
            },
            None => {
                assert forall|k: int| 0 <= k < stack.len() implies !binds(
                    #[trigger] stack[k],
                    name,
                ) by {
                    if k < rest.len() {
                        assert(rest[k] == stack[k]);
                    }
                }
            },
        }
    }
}

/// Whether the chain of scopes that starts at `at` declares, scope by
/// scope and as far as `depth` links up, the names that the resolver's
/// frames declare, innermost first.
pub open spec fn mirrors<T>(
    scopes: Seq<NodeView<T>>,
    at: int,
    stack: Seq<Names>,
    name: Seq<char>,
    depth: int,
) -> bool {
    forall|k: nat|
        k <= depth ==> match #[trigger] ancestor(scopes, at, k) {
            Some(a) => 0 <= a < scopes.len() && k < stack.len() && (scopes[a].vars.contains_key(
                name,
            ) <==> binds(stack[stack.len() - 1 - k], name)),
            None => false,
        }
}

proof fn lemma_ancestor_step<T>(scopes: Seq<NodeView<T>>, at: int, k: nat)
    requires
        0 <= at < scopes.len(),
        scopes[at].parent is Some,
    ensures
        ancestor(scopes, at, k + 1) == ancestor(scopes, scopes[at].parent->0 as int, k),
{
}

proof fn lemma_walk_up<T>(
    scopes: Seq<NodeView<T>>,
    at: int,
    name: Seq<char>,
    depth: nat,
)
    requires
        parents_first(scopes),
        0 <= at < scopes.len(),
        ancestor(scopes, at, depth) is Some,
        scopes[ancestor(scopes, at, depth)->0].vars.contains_key(name),
        forall|k: nat|
            k < depth ==> ancestor(scopes, at, k) is Some && !scopes[(#[trigger] ancestor(
                scopes,
                at,
                k,
            ))->0].vars.contains_key(name),
    ensures
        resolve(scopes, at, name) == ancestor(scopes, at, depth),
    decreases depth,
{
    if depth == 0 {
    } else {
        assert(ancestor(scopes, at, 0) == Some(at));
        assert(!scopes[at].vars.contains_key(name));
        let p = scopes[at].parent->0 as int;
        assert(scopes[at].parent is Some);
        assert(p < at);
        assert forall|k: nat| k < depth - 1 implies ancestor(scopes, p, k) is Some && !scopes[(
        #[trigger] ancestor(scopes, p, k))->0].vars.contains_key(name) by {
            lemma_ancestor_step(scopes, at, k);
            assert(ancestor(scopes, at, k + 1) is Some);
        }
        lemma_ancestor_step(scopes, at, (depth - 1) as nat);
        lemma_walk_up(scopes, p, name, (depth - 1) as nat);
    }
}

/// The depth that the resolver records for the use of a name leads to the
/// scope that a walk up from the use finds the name in: where the chain of
/// scopes at run time declares the name just where the resolver's frames do,
/// reading at the recorded depth and looking the name up give the same binding.
pub proof fn lemma_depth_agrees<T>(
    scopes: Seq<NodeView<T>>,
    at: int,
    stack: Seq<Names>,
    name: Seq<char>,
)
    requires
        parents_first(scopes),
        0 <= at < scopes.len(),
        depth_of(stack, name) is Some,
        mirrors(scopes, at, stack, name, depth_of(stack, name)->0),
    ensures
        ancestor(scopes, at, depth_of(stack, name)->0 as nat) is Some,
        resolve(scopes, at, name) == ancestor(scopes, at, depth_of(stack, name)->0 as nat),
{
    let d = depth_of(stack, name)->0;
    lemma_depth_in_range(stack, name);
    assert(ancestor(scopes, at, d as nat) is Some);
    assert forall|k: nat| k < d implies ancestor(scopes, at, k) is Some && !scopes[(
    #[trigger] ancestor(scopes, at, k))->0].vars.contains_key(name) by {
        assert(!binds(stack[stack.len() - 1 - k], name));
    }
    lemma_walk_up(scopes, at, name, d as nat);
}

} // verus!
