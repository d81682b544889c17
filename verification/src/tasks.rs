use crate::error::EngineError;
use crate::memo::MemoTable;
use crate::recurrence::{lemma_term_word_exact, term, term_word};
use vstd::prelude::*;

verus! {

/// Hands a value to `std::hint::black_box`, which returns it unchanged and
/// keeps the compiler from reasoning about where it came from.
#[verifier::external_body]
fn opaque_to_optimizer(value: i32) -> (same: i32)
    ensures
        same == value,
{
    std::hint::black_box(value)
}

/// The workload of the dispatch scenarios: a unit that does next to
/// nothing, so that what is measured is the dispatch itself. It touches
/// nothing outside itself and can be run any number of times.
pub fn dummy_task() {
    let mut var: i32 = 1;
    var += 1;
    let _ = opaque_to_optimizer(var);
}

/// What `fib` returns for the index `n`.
pub open spec fn fib_outcome(n: usize) -> Result<usize, EngineError> {
    if n == usize::MAX {
        Err(EngineError::InvalidConfiguration)
    } else {
        Ok(term_word(n as nat))
    }
}

/// Computing the same index again, over another fresh table, gives the
/// same outcome: it depends on the index and on nothing else.
pub proof fn lemma_fib_repeatable(
    n: usize,
    first: Result<usize, EngineError>,
    second: Result<usize, EngineError>,
)
    requires
        first == fib_outcome(n),
        second == fib_outcome(n),
    ensures
        first == second,
{
}

/// The term of index `n` of the recurrence, computed over a fresh memo
/// table that is dropped before the function returns.
pub fn fib(n: usize) -> (value: Result<usize, EngineError>)
    ensures
        value == fib_outcome(n),
        n < usize::MAX && term(n as nat) <= usize::MAX ==> value == Ok::<usize, EngineError>(
            term(n as nat) as usize,
        ),
{
    proof {
        if term(n as nat) <= usize::MAX {
            lemma_term_word_exact(n as nat);
        }
    }
    match MemoTable::new(n) {
        Ok(mut table) => table.resolve(n),
        Err(e) => Err(e),
    }
}

} // verus!
