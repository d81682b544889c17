use vstd::prelude::*;

verus! {

/// Why a dispatch or a computation was refused or did not finish.
///
/// No partial result ever accompanies an error: a call returns everything it
/// was asked for, or one of these.
#[derive(Clone, Copy, Debug, PartialEq, Eq, Structural)]
pub enum EngineError {
    /// The request itself cannot be carried out: no worker was asked for
    /// although there is work, or a count does not fit the machine word.
    InvalidConfiguration,
    /// The host did not provide the worker pool that was asked for.
    ResourceExhausted,
    /// A recurrence index lies outside the memo table it was aimed at.
    IndexOutOfRange,
    /// A unit of work failed while it held shared state, so its result is
    /// lost.
    PoisonedState,
}

} // verus!
