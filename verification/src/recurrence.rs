use vstd::arithmetic::div_mod::{
    lemma_add_mod_noop, lemma_mod_bound, lemma_mod_sub_multiples_vanish, lemma_small_mod,
};
use vstd::arithmetic::power2::{
    lemma2_to64, lemma_pow2_strictly_increases, lemma_pow2_unfold, pow2,
};
use vstd::prelude::*;

verus! {

/// The linear recurrence that the computation engine evaluates: the terms
/// `0, 1, 1, 2, 3, 5, ...`, each the sum of the two before it.
pub open spec fn term(n: nat) -> nat
    decreases n,
{
    if n < 2 {
        n
    } else {
        term((n - 1) as nat) + term((n - 2) as nat)
    }
}

/// The number of values a machine word can take.
pub open spec fn word_range() -> int {
    usize::MAX as int + 1
}

/// The term of index `n` as a machine word holds it: reduced modulo the
/// word's range. The engine adds without overflow protection, so this is
/// the value it produces for every index.
pub open spec fn term_word(n: nat) -> usize {
    (term(n) as int % word_range()) as usize
}

/// A term that fits a machine word is held exactly.
pub proof fn lemma_term_word_exact(n: nat)
    requires
        term(n) <= usize::MAX,
    ensures
        term_word(n) == term(n),
{
    lemma_small_mod(term(n), word_range() as nat);
}

/// The terms grow no faster than the powers of two.
pub proof fn lemma_term_below_power(n: nat)
    ensures
        term(n) < pow2(n),
    decreases n,
{
    lemma2_to64();
    if n >= 2 {
        lemma_term_below_power((n - 1) as nat);
        lemma_term_below_power((n - 2) as nat);
        lemma_pow2_unfold(n);
        lemma_pow2_unfold((n - 1) as nat);
    }
}

/// The terms of index up to thirty-two fit every machine word, so they are
/// held exactly whatever the word size.
pub proof fn lemma_small_index_exact(n: nat)
    requires
        n <= 32,
    ensures
        term(n) <= u32::MAX,
        term_word(n) == term(n),
{
    lemma2_to64();
    lemma_term_below_power(n);
    if n < 32 {
        lemma_pow2_strictly_increases(n, 32);
    }
    lemma_term_word_exact(n);
}

/// Adding the word forms of two consecutive terms, wrapping on overflow,
/// gives the word form of the next term.
pub proof fn lemma_term_word_step(k: nat)
    requires
        k >= 2,
    ensures
        vstd::wrapping::usize_specs::wrapping_add(
            term_word((k - 1) as nat),
            term_word((k - 2) as nat),
        ) == term_word(k),
{
    let m = word_range();
    let a = term((k - 1) as nat) as int;
    let b = term((k - 2) as nat) as int;
    lemma_add_mod_noop(a, b, m);
    lemma_mod_bound(a, m);
    lemma_mod_bound(b, m);
    let s = a % m + b % m;
    if s >= m {
        lemma_mod_sub_multiples_vanish(s, m);
        lemma_small_mod((s - m) as nat, m as nat);
    } else {
        lemma_small_mod(s as nat, m as nat);
    }
}

} // verus!
