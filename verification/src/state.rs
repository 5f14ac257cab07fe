//! The mathematical model of a channel endpoint.
//!
//! A [`SessionState`] is what a channel handle declares about itself: the
//! protocol that remains and the stack of recursion bodies in scope,
//! innermost last.  The `step_*` functions say how each channel operation
//! transforms that state; the lemmas here state the laws the state machine
//! obeys: paired endpoints stay mutually dual after every matched pair of
//! operations, walking a choice list reaches exactly the picked branch, and
//! restarting a recursion returns to the entered body.

use vstd::prelude::*;

use crate::proto::Protocol;
use crate::proto::ProtoList;
use crate::proto::branches;
use crate::proto::dual;
use crate::proto::dual_list;
use crate::proto::lemma_dual_wf;
use crate::proto::wf;
use crate::proto::wf_list;

verus! {

/// One endpoint's declared position in a conversation: the remaining
/// protocol and the recursion environment, innermost entry last.
pub struct SessionState {
    pub proto: Protocol,
    pub env: Seq<Protocol>,
}

/// The peer's view of an environment: the dual of every entry.
pub open spec fn dual_env(env: Seq<Protocol>) -> Seq<Protocol> {
    env.map_values(|p: Protocol| dual(p))
}

/// The peer's view of an endpoint state.
pub open spec fn dual_state(s: SessionState) -> SessionState {
    SessionState { proto: dual(s.proto), env: dual_env(s.env) }
}

/// Well-formedness of an endpoint state: the remaining protocol is closed
/// under the current stack, and each stack entry was closed under the stack
/// below it when it was pushed.
pub open spec fn state_wf(s: SessionState) -> bool {
    &&& wf(s.proto, s.env.len())
    &&& forall|i: int| 0 <= i < s.env.len() ==> wf(#[trigger] s.env[i], i as nat + 1)
}

/// Successor state after a send or a receive: continue with the payload.
pub open spec fn step_next(s: SessionState) -> SessionState {
    match s.proto {
        Protocol::Send(n) => SessionState { proto: *n, env: s.env },
        Protocol::Recv(n) => SessionState { proto: *n, env: s.env },
        _ => s,
    }
}

/// Successor state after taking the first branch of a choice or an offer.
pub open spec fn step_head(s: SessionState) -> SessionState {
    match s.proto {
        Protocol::Choose(ProtoList::More(h, _)) => SessionState { proto: *h, env: s.env },
        Protocol::Offer(ProtoList::More(h, _)) => SessionState { proto: *h, env: s.env },
        _ => s,
    }
}

/// Successor state after passing over the first branch of a choice or an
/// offer: the same kind of node over the remaining branches.
pub open spec fn step_tail(s: SessionState) -> SessionState {
    match s.proto {
        Protocol::Choose(ProtoList::More(_, t)) => SessionState {
            proto: Protocol::Choose(*t),
            env: s.env,
        },
        Protocol::Offer(ProtoList::More(_, t)) => SessionState {
            proto: Protocol::Offer(*t),
            env: s.env,
        },
        _ => s,
    }
}

/// Successor state after entering a recursion: the body becomes the current
/// protocol and is pushed onto the environment.
pub open spec fn step_enter(s: SessionState) -> SessionState {
    match s.proto {
        Protocol::Rec(b) => SessionState { proto: *b, env: s.env.push(*b) },
        _ => s,
    }
}

/// Successor state after restarting the innermost recursion body.
pub open spec fn step_zero(s: SessionState) -> SessionState {
    match s.proto {
        Protocol::Var(n) if n == 0 => SessionState { proto: s.env.last(), env: s.env },
        _ => s,
    }
}

/// Successor state after popping one recursion level on the way to an
/// outer entry.
pub open spec fn step_succ(s: SessionState) -> SessionState {
    match s.proto {
        Protocol::Var(n) if n >= 1 => SessionState {
            proto: Protocol::Var((n - 1) as u64),
            env: s.env.drop_last(),
        },
        _ => s,
    }
}

/// A send or a receive preserves well-formedness.
pub proof fn lemma_step_next_wf(s: SessionState)
    requires
        state_wf(s),
        s.proto is Send || s.proto is Recv,
    ensures
        state_wf(step_next(s)),
{
}

/// Heads of well-formed branch lists are well-formed.
proof fn lemma_wf_list_parts(l: ProtoList, depth: nat)
    requires
        wf_list(l, depth),
        l is More,
    ensures
        l matches ProtoList::More(h, t) ==> wf(*h, depth) && wf_list(*t, depth),
{
}

/// Taking the first branch preserves well-formedness.
pub proof fn lemma_step_head_wf(s: SessionState)
    requires
        state_wf(s),
        s.proto is Choose || s.proto is Offer,
    ensures
        state_wf(step_head(s)),
{
    match s.proto {
        Protocol::Choose(l) => lemma_wf_list_parts(l, s.env.len()),
        Protocol::Offer(l) => lemma_wf_list_parts(l, s.env.len()),
        _ => {}
    }
}

/// Passing over the first branch preserves well-formedness, provided at
/// least one branch remains.
pub proof fn lemma_step_tail_wf(s: SessionState)
    requires
        state_wf(s),
        s.proto matches Protocol::Choose(l) ==> l@.len() >= 2,
        s.proto matches Protocol::Offer(l) ==> l@.len() >= 2,
        s.proto is Choose || s.proto is Offer,
    ensures
        state_wf(step_tail(s)),
{
    match s.proto {
        Protocol::Choose(l) => lemma_tail_list_wf(l, s.env.len()),
        Protocol::Offer(l) => lemma_tail_list_wf(l, s.env.len()),
        _ => {}
    }
}

/// The tail of a well-formed list of two or more branches is itself a
/// well-formed, non-empty list.
proof fn lemma_tail_list_wf(l: ProtoList, depth: nat)
    requires
        wf_list(l, depth),
        l@.len() >= 2,
        l is More,
    ensures
        l matches ProtoList::More(h, t) ==> *t is More && wf_list(*t, depth),
{
    match l {
        ProtoList::More(h, t) => {
            lemma_branches_more(l);
            lemma_branches_more(*t);
        }
        ProtoList::Nil => {}
    }
}

/// A list with at least two branches has a non-empty tail.
pub proof fn lemma_branches_more(l: ProtoList)
    ensures
        l matches ProtoList::More(h, t) ==> l@ == seq![*h] + (*t)@ && l@.len() == 1 + (*t)@.len(),
        l is Nil ==> l@.len() == 0,
{
}

/// Entering a recursion preserves well-formedness.
pub proof fn lemma_step_enter_wf(s: SessionState)
    requires
        state_wf(s),
        s.proto is Rec,
    ensures
        state_wf(step_enter(s)),
{
    let t = step_enter(s);
    match s.proto {
        Protocol::Rec(b) => {
            assert forall|i: int| 0 <= i < t.env.len() implies wf(
                #[trigger] t.env[i],
                i as nat + 1,
            ) by {
                if i < s.env.len() {
                    assert(t.env[i] == s.env[i]);
                } else {
                    assert(t.env[i] == *b);
                }
            }
        }
        _ => {}
    }
}

/// Restarting the innermost body preserves well-formedness.
pub proof fn lemma_step_zero_wf(s: SessionState)
    requires
        state_wf(s),
        s.proto == Protocol::Var(0u64),
    ensures
        s.env.len() >= 1,
        state_wf(step_zero(s)),
{
    assert(wf(s.env[s.env.len() - 1], (s.env.len() - 1) as nat + 1));
}

/// Popping one recursion level preserves well-formedness.
pub proof fn lemma_step_succ_wf(s: SessionState)
    requires
        state_wf(s),
        s.proto matches Protocol::Var(n) && n >= 1,
    ensures
        s.env.len() >= 2,
        state_wf(step_succ(s)),
{
    let t = step_succ(s);
    assert forall|i: int| 0 <= i < t.env.len() implies wf(#[trigger] t.env[i], i as nat + 1) by {
        assert(t.env[i] == s.env[i]);
    }
}

/// Duality of whole endpoint states is preserved under `dual_state`'s
/// environment map when the stack grows or shrinks.
proof fn lemma_dual_env_push(env: Seq<Protocol>, p: Protocol)
    ensures
        dual_env(env.push(p)) == dual_env(env).push(dual(p)),
{
    assert(dual_env(env.push(p)) =~= dual_env(env).push(dual(p)));
}

proof fn lemma_dual_env_drop_last(env: Seq<Protocol>)
    requires
        env.len() >= 1,
    ensures
        dual_env(env.drop_last()) == dual_env(env).drop_last(),
{
    assert(dual_env(env.drop_last()) =~= dual_env(env).drop_last());
}

/// A well-formed state stays well-formed on the peer's side.
pub proof fn lemma_dual_state_wf(s: SessionState)
    requires
        state_wf(s),
    ensures
        state_wf(dual_state(s)),
{
    let d = dual_state(s);
    lemma_dual_wf(s.proto, s.env.len());
    assert forall|i: int| 0 <= i < d.env.len() implies wf(#[trigger] d.env[i], i as nat + 1) by {
        assert(d.env[i] == dual(s.env[i]));
        lemma_dual_wf(s.env[i], i as nat + 1);
    }
}

/// After one side's send and the other side's receive, the two endpoint
/// states are still mutually dual: stepping commutes with duality.
pub proof fn lemma_dual_step_next(s: SessionState)
    requires
        s.proto is Send || s.proto is Recv,
    ensures
        dual_state(s).proto is Recv <==> s.proto is Send,
        step_next(dual_state(s)) == dual_state(step_next(s)),
{
}

/// After one side takes the first branch of a choice and the other side's
/// offer takes its first branch, the states are still mutually dual.
pub proof fn lemma_dual_step_head(s: SessionState)
    requires
        s.proto is Choose || s.proto is Offer,
    ensures
        dual_state(s).proto is Offer <==> s.proto is Choose,
        step_head(dual_state(s)) == dual_state(step_head(s)),
{
    match s.proto {
        Protocol::Choose(l) => {
            match l {
                ProtoList::More(h, t) => {
                    assert(dual_list(l) == ProtoList::More(
                        Box::new(dual(*h)),
                        Box::new(dual_list(*t)),
                    ));
                }
                ProtoList::Nil => {}
            }
        }
        Protocol::Offer(l) => {
            match l {
                ProtoList::More(h, t) => {
                    assert(dual_list(l) == ProtoList::More(
                        Box::new(dual(*h)),
                        Box::new(dual_list(*t)),
                    ));
                }
                ProtoList::Nil => {}
            }
        }
        _ => {}
    }
}

/// After one side passes over the first branch and the other side does the
/// same, the states are still mutually dual.
pub proof fn lemma_dual_step_tail(s: SessionState)
    requires
        s.proto is Choose || s.proto is Offer,
    ensures
        step_tail(dual_state(s)) == dual_state(step_tail(s)),
{
    match s.proto {
        Protocol::Choose(l) => {
            match l {
                ProtoList::More(h, t) => {
                    assert(dual_list(l) == ProtoList::More(
                        Box::new(dual(*h)),
                        Box::new(dual_list(*t)),
                    ));
                }
                ProtoList::Nil => {}
            }
        }
        Protocol::Offer(l) => {
            match l {
                ProtoList::More(h, t) => {
                    assert(dual_list(l) == ProtoList::More(
                        Box::new(dual(*h)),
                        Box::new(dual_list(*t)),
                    ));
                }
                ProtoList::Nil => {}
            }
        }
        _ => {}
    }
}

/// After both sides enter a recursion, the states are still mutually dual.
pub proof fn lemma_dual_step_enter(s: SessionState)
    requires
        s.proto is Rec,
    ensures
        dual_state(s).proto is Rec,
        step_enter(dual_state(s)) == dual_state(step_enter(s)),
{
    match s.proto {
        Protocol::Rec(b) => lemma_dual_env_push(s.env, *b),
        _ => {}
    }
}

/// After both sides restart the innermost recursion body, the states are
/// still mutually dual.
pub proof fn lemma_dual_step_zero(s: SessionState)
    requires
        s.proto == Protocol::Var(0u64),
        s.env.len() >= 1,
    ensures
        dual_state(s).proto == Protocol::Var(0u64),
        step_zero(dual_state(s)) == dual_state(step_zero(s)),
{
    assert(dual_env(s.env).last() == dual(s.env.last()));
}

/// After both sides pop one recursion level, the states are still mutually
/// dual.
pub proof fn lemma_dual_step_succ(s: SessionState)
    requires
        s.proto matches Protocol::Var(n) && n >= 1,
        s.env.len() >= 1,
    ensures
        dual_state(s).proto == s.proto,
        step_succ(dual_state(s)) == dual_state(step_succ(s)),
{
    lemma_dual_env_drop_last(s.env);
}

/// The branch lists of a choice or an offer, the empty sequence elsewhere.
pub open spec fn branch_seq(p: Protocol) -> Seq<Protocol> {
    match p {
        Protocol::Choose(l) => l@,
        Protocol::Offer(l) => l@,
        _ => Seq::empty(),
    }
}

/// The state after passing over the first `i` branches.
pub open spec fn skip_steps(s: SessionState, i: nat) -> SessionState
    decreases i,
{
    if i == 0 {
        s
    } else {
        skip_steps(step_tail(s), (i - 1) as nat)
    }
}

/// Dualising every branch of a list dualises its branch sequence.
proof fn lemma_dual_list_branches(l: ProtoList)
    ensures
        branches(dual_list(l)) == branches(l).map_values(|p: Protocol| dual(p)),
    decreases l,
{
    match l {
        ProtoList::Nil => {
            assert(branches(dual_list(l)) =~= branches(l).map_values(|p: Protocol| dual(p)));
        }
        ProtoList::More(h, t) => {
            lemma_dual_list_branches(*t);
            assert(branches(dual_list(l)) =~= branches(l).map_values(|p: Protocol| dual(p)));
        }
    }
}

/// Choice fidelity: from a choice or an offer over branches `l`, passing
/// over the first `i` branches and then taking the head lands on exactly
/// `l[i]`, with the environment untouched; the peer, doing the same on the
/// dual state, lands on `dual(l[i])`.  For a one-branch list this says the
/// single branch is always the one selected.
pub proof fn lemma_choice_fidelity(s: SessionState, i: nat)
    requires
        s.proto is Choose || s.proto is Offer,
        i < branch_seq(s.proto).len(),
    ensures
        step_head(skip_steps(s, i)) == (SessionState {
            proto: branch_seq(s.proto)[i as int],
            env: s.env,
        }),
        step_head(skip_steps(dual_state(s), i)) == (SessionState {
            proto: dual(branch_seq(s.proto)[i as int]),
            env: dual_env(s.env),
        }),
    decreases i,
{
    lemma_choice_fidelity_one(s, i);
    match s.proto {
        Protocol::Choose(l) => lemma_dual_list_branches(l),
        Protocol::Offer(l) => lemma_dual_list_branches(l),
        _ => {}
    }
    lemma_choice_fidelity_one(dual_state(s), i);
}

/// One side of choice fidelity: walking `i` tails and taking the head
/// reaches branch `i`.
proof fn lemma_choice_fidelity_one(s: SessionState, i: nat)
    requires
        s.proto is Choose || s.proto is Offer,
        i < branch_seq(s.proto).len(),
    ensures
        step_head(skip_steps(s, i)) == (SessionState {
            proto: branch_seq(s.proto)[i as int],
            env: s.env,
        }),
    decreases i,
{
    match s.proto {
        Protocol::Choose(l) => {
            lemma_branches_more(l);
            if i > 0 {
                lemma_choice_fidelity_one(step_tail(s), (i - 1) as nat);
            }
        }
        Protocol::Offer(l) => {
            lemma_branches_more(l);
            if i > 0 {
                lemma_choice_fidelity_one(step_tail(s), (i - 1) as nat);
            }
        }
        _ => {}
    }
}

/// Recursion restart: once a recursion has been entered, reaching the
/// innermost recursion variable and restarting yields exactly the state the
/// entry produced, so the body may run again unchanged.
pub proof fn lemma_recursion_restart(s: SessionState)
    requires
        s.proto is Rec,
    ensures
        step_zero(
            SessionState { proto: Protocol::Var(0u64), env: step_enter(s).env },
        ) == step_enter(s),
{
}

/// The state after popping `k` recursion levels.
pub open spec fn pop_steps(s: SessionState, k: nat) -> SessionState
    decreases k,
{
    if k == 0 {
        s
    } else {
        pop_steps(step_succ(s), (k - 1) as nat)
    }
}

/// Popping out of `k` recursion levels from `Var(d)` discards exactly the
/// `k` innermost environment entries and leaves `Var(d - k)`: a recursion
/// variable resolves to the entry exactly that many levels up.
pub proof fn lemma_recursion_pop(s: SessionState, k: nat)
    requires
        state_wf(s),
        s.proto matches Protocol::Var(d) && k <= d,
    ensures
        pop_steps(s, k) == (SessionState {
            proto: Protocol::Var((branch_var(s.proto) - k) as u64),
            env: s.env.take(s.env.len() - k),
        }),
        state_wf(pop_steps(s, k)),
    decreases k,
{
    if k == 0 {
        assert(s.env.take(s.env.len() - 0) =~= s.env);
    } else {
        lemma_step_succ_wf(s);
        assert(s.env.drop_last() =~= s.env.take(s.env.len() - 1));
        lemma_recursion_pop(step_succ(s), (k - 1) as nat);
        assert(s.env.drop_last().take(s.env.drop_last().len() - (k - 1)) =~= s.env.take(
            s.env.len() - k,
        ));
    }
}

/// The index of a recursion variable, `0` elsewhere.
pub open spec fn branch_var(p: Protocol) -> nat {
    match p {
        Protocol::Var(n) => n as nat,
        _ => 0,
    }
}

} // verus!
