use vstd::arithmetic::div_mod::{lemma_fundamental_div_mod, lemma_mod_bound};
use vstd::arithmetic::mul::lemma_mul_inequality;
use vstd::prelude::*;

verus! {

/// How many of `units` leaf units the outer worker `i` of `workers` is
/// given: an even part for everyone, and one more for each of the first
/// `units % workers` workers.
pub open spec fn share(workers: nat, units: nat, i: nat) -> nat
    recommends
        workers > 0,
        i < workers,
{
    (units / workers) + if i < units % workers {
        1nat
    } else {
        0nat
    }
}

/// The units given to the outer workers `0..count` together.
pub open spec fn shares_sum(workers: nat, units: nat, count: nat) -> nat
    decreases count,
{
    if count == 0 {
        0
    } else {
        shares_sum(workers, units, (count - 1) as nat) + share(
            workers,
            units,
            (count - 1) as nat,
        )
    }
}

/// The first `count` workers hold `count` even parts and as much of the
/// remainder as there are workers to take it.
pub proof fn lemma_shares_prefix(workers: nat, units: nat, count: nat)
    requires
        workers > 0,
    ensures
        shares_sum(workers, units, count) == count * (units / workers) + if count < units
            % workers {
            count
        } else {
            units % workers
        },
    decreases count,
{
    let even = units / workers;
    if count == 0 {
        assert(count * even == 0) by (nonlinear_arith)
            requires
                count == 0,
        ;
    } else {
        let before = (count - 1) as nat;
        lemma_shares_prefix(workers, units, before);
        assert(count * even == before * even + even) by (nonlinear_arith)
            requires
                count == before + 1,
        ;
    }
}

/// The shares of all the workers add up to the number of units: nothing is
/// dropped and nothing is issued twice.
pub proof fn lemma_shares_total(workers: nat, units: nat)
    requires
        workers > 0,
    ensures
        shares_sum(workers, units, workers) == units,
{
    lemma_shares_prefix(workers, units, workers);
    lemma_mod_bound(units as int, workers as int);
    lemma_fundamental_div_mod(units as int, workers as int);
}

/// No two workers' shares differ by more than one unit.
pub proof fn lemma_shares_balanced(workers: nat, units: nat, i: nat, j: nat)
    requires
        workers > 0,
        i < workers,
        j < workers,
    ensures
        share(workers, units, i) <= share(workers, units, j) + 1,
        share(workers, units, j) <= share(workers, units, i) + 1,
{
}

/// The larger shares go to the workers of lowest index: exactly the first
/// `units % workers` of them hold one unit more than the rest.
pub proof fn lemma_shares_front_loaded(workers: nat, units: nat, i: nat)
    requires
        workers > 0,
        i < workers,
    ensures
        i < units % workers ==> share(workers, units, i) == units / workers + 1,
        i >= units % workers ==> share(workers, units, i) == units / workers,
        forall|j: nat| i <= j < workers ==> share(workers, units, j) <= share(workers, units, i),
{
}

/// The share of the outer worker `i`.
pub fn unit_share(workers: usize, units: u32, i: usize) -> (count: usize)
    requires
        workers > 0,
        i < workers,
    ensures
        count == share(workers as nat, units as nat, i as nat),
        count <= units,
{
    let total: usize = units as usize;
    let even: usize = total / workers;
    let extra: usize = total % workers;
    proof {
        lemma_fundamental_div_mod(total as int, workers as int);
        lemma_mul_inequality(1, workers as int, even as int);
    }
    if i < extra {
        even + 1
    } else {
        even
    }
}

} // verus!
