//! Walks through a finite set of states: a walk that lasts longer than the
//! set is large passes some state twice, and so it never ends.

use vstd::prelude::*;
use vstd::set_lib::lemma_len_subset;

verus! {

/// Whether the walk from `start` makes `fuel` steps without leaving
/// `within`.
pub open spec fn survives<S>(
    step: spec_fn(S) -> Option<S>,
    within: Set<S>,
    start: S,
    fuel: nat,
) -> bool
    decreases fuel,
{
    within.contains(start) && (fuel == 0 || match step(start) {
        Some(next) => survives(step, within, next, (fuel - 1) as nat),
        None => false,
    })
}

/// The state that the walk from `start` reaches after `k` steps, as far as
/// it gets.
pub open spec fn state_after<S>(step: spec_fn(S) -> Option<S>, start: S, k: nat) -> S
    decreases k,
{
    if k == 0 {
        start
    } else {
        match step(start) {
            Some(next) => state_after(step, next, (k - 1) as nat),
            None => start,
        }
    }
}

/// A walk that makes `fuel` steps is, after `k` of them, at a state of the
/// set from which it makes the remaining steps.
pub proof fn lemma_survives_from_later<S>(
    step: spec_fn(S) -> Option<S>,
    within: Set<S>,
    start: S,
    fuel: nat,
    k: nat,
)
    requires
        k <= fuel,
        survives(step, within, start, fuel),
    ensures
        within.contains(state_after(step, start, k)),
        survives(step, within, state_after(step, start, k), (fuel - k) as nat),
    decreases k,
{
    if k > 0 {
        let next = step(start)->Some_0;
        lemma_survives_from_later(step, within, next, (fuel - 1) as nat, (k - 1) as nat);
    }
}

/// A walk that makes `a` steps, and `b` more from where it then is, makes
/// `a + b` steps.
pub proof fn lemma_survives_joined<S>(
    step: spec_fn(S) -> Option<S>,
    within: Set<S>,
    start: S,
    a: nat,
    b: nat,
)
    requires
        survives(step, within, start, a),
        survives(step, within, state_after(step, start, a), b),
    ensures
        survives(step, within, start, a + b),
    decreases a,
{
    if a > 0 {
        let next = step(start)->Some_0;
        lemma_survives_joined(step, within, next, (a - 1) as nat, b);
    }
}

/// More states than the set holds cannot all differ.
pub proof fn lemma_pigeonhole<S>(states: Seq<S>, within: Set<S>) -> (pair: (int, int))
    requires
        within.finite(),
        within.len() < states.len(),
        forall|i: int| 0 <= i < states.len() ==> within.contains(#[trigger] states[i]),
    ensures
        0 <= pair.0 < pair.1 < states.len(),
        states[pair.0] == states[pair.1],
{
    if states.no_duplicates() {
        states.unique_seq_to_set();
        assert(states.to_set().subset_of(within)) by {
            assert forall|s: S| states.to_set().contains(s) implies within.contains(s) by {
                let i = choose|i: int| 0 <= i < states.len() && states[i] == s;
                assert(within.contains(states[i]));
            }
        }
        lemma_len_subset(states.to_set(), within);
        assert(false);
    }
    let (i, j) = choose|i: int, j: int|
        0 <= i < states.len() && 0 <= j < states.len() && i != j && states[i] == states[j];
    if i < j {
        (i, j)
    } else {
        (j, i)
    }
}

/// A walk within a finite set that makes as many steps as the set has
/// states makes any number of steps: it never ends.
pub proof fn lemma_walk_never_ends<S>(
    step: spec_fn(S) -> Option<S>,
    within: Set<S>,
    start: S,
    n: nat,
    fuel: nat,
)
    requires
        within.finite(),
        within.len() <= n,
        survives(step, within, start, n),
    ensures
        survives(step, within, start, fuel),
    decreases fuel,
{
    if fuel <= n {
        lemma_survives_prefix(step, within, start, n, fuel);
    } else {
        let states = Seq::new((n + 1) as nat, |k: int| state_after(step, start, k as nat));
        assert forall|k: int| 0 <= k < states.len() implies within.contains(
            #[trigger] states[k],
        ) by {
            lemma_survives_from_later(step, within, start, n, k as nat);
        }
        let (i, j) = lemma_pigeonhole(states, within);
        let shorter = (fuel - (j - i)) as nat;
        lemma_walk_never_ends(step, within, start, n, shorter);
        lemma_survives_from_later(step, within, start, shorter, i as nat);
        lemma_survives_prefix(step, within, start, n, j as nat);
        assert(state_after(step, start, i as nat) == state_after(step, start, j as nat));
        lemma_survives_joined(step, within, start, j as nat, (fuel - j) as nat);
    }
}

/// A walk that makes `fuel` steps makes every smaller number of steps.
pub proof fn lemma_survives_prefix<S>(
    step: spec_fn(S) -> Option<S>,
    within: Set<S>,
    start: S,
    fuel: nat,
    fewer: nat,
)
    requires
        fewer <= fuel,
        survives(step, within, start, fuel),
    ensures
        survives(step, within, start, fewer),
    decreases fewer,
{
    if fewer > 0 {
        let next = step(start)->Some_0;
        lemma_survives_prefix(step, within, next, (fuel - 1) as nat, (fewer - 1) as nat);
    }
}

} // verus!
