use crate::error::EngineError;
use vstd::prelude::*;

verus! {

/// The runtime of the `tokio` crate: here a fixed set of worker threads and
/// the scheduler that feeds them. Nothing inside it is visible to a proof.
#[verifier::external_type_specification]
#[verifier::external_body]
pub struct ExRuntime(tokio::runtime::Runtime);

/// The barrier of the `tokio` crate: it holds back whoever arrives until as
/// many have arrived as it was made for.
#[verifier::external_type_specification]
#[verifier::external_body]
pub struct ExBarrier(tokio::sync::Barrier);

/// The error with which `tokio` reports that a submitted task did not run
/// to its end.
#[verifier::external_type_specification]
#[verifier::external_body]
pub struct ExJoinError(tokio::task::JoinError);

/// The error with which the operating system refuses a resource.
#[verifier::external_type_specification]
#[verifier::external_body]
pub struct ExIoError(std::io::Error);

/// The largest pool this library asks the host for. The scheduler behind
/// the pool keeps its count of awake workers in the bits of one machine
/// word above the sixteenth; a count up to this one fits every word size.
pub const MAX_POOL_THREADS: usize = 65_535;

/// Builds a multi-threaded `tokio` runtime through
/// `tokio::runtime::Builder`: `new_multi_thread`, then `worker_threads`,
/// then `build`.
///
/// `worker_threads` panics on zero, which the precondition leaves out, and
/// `build` hands back the operating system's error where the runtime's
/// resources cannot be set up. Nothing is claimed of the runtime that comes
/// back. Where the host refuses to start one of the worker threads, `build`
/// panics instead of returning; that is outside this contract.
#[verifier::external_body]
fn start_runtime(threads: usize) -> (built: Result<tokio::runtime::Runtime, std::io::Error>)
    requires
        1 <= threads <= MAX_POOL_THREADS,
{
    tokio::runtime::Builder::new_multi_thread().worker_threads(threads).build()
}

/// Makes a barrier for `parties` arrivals with `tokio::sync::Barrier::new`.
///
/// The constructor only stores the count; it reads a count of zero as one,
/// which the precondition leaves out. Nothing is claimed of the barrier
/// that comes back.
#[verifier::external_body]
pub(crate) fn new_barrier(parties: usize) -> (barrier: tokio::sync::Barrier)
    requires
        parties >= 1,
{
    tokio::sync::Barrier::new(parties)
}

/// Hands `work` to `tokio::runtime::Runtime::spawn_blocking` and waits for
/// it with `tokio::runtime::Runtime::block_on`.
///
/// `spawn_blocking` runs the closure once on a thread of the runtime, and
/// the handle it returns resolves to what the closure returned, or to an
/// error if the closure panicked. So a value that comes back is one the
/// closure can return. `block_on` panics when it is called from inside a
/// task of a runtime; that is outside this contract.
#[verifier::external_body]
fn run_blocking<T: Send + 'static, F: FnOnce() -> T + Send + 'static>(
    runtime: &tokio::runtime::Runtime,
    work: F,
) -> (outcome: Result<T, tokio::task::JoinError>)
    requires
        work.requires(()),
    ensures
        outcome matches Ok(value) ==> work.ensures((), value),
{
    runtime.block_on(runtime.spawn_blocking(work))
}

/// A fixed-size pool of worker threads. Its size is set when it is built
/// and never changes.
pub struct WorkerPool {
    runtime: tokio::runtime::Runtime,
    threads: usize,
}

/// What building a pool of `threads` workers can come to, before the host
/// has had its say: `None` where the host decides.
pub open spec fn pool_refusal(threads: usize) -> Option<EngineError> {
    if threads == 0 {
        Some(EngineError::InvalidConfiguration)
    } else if threads > MAX_POOL_THREADS {
        Some(EngineError::ResourceExhausted)
    } else {
        None
    }
}

impl WorkerPool {
    /// The number of worker threads of this pool.
    pub closed spec fn spec_size(&self) -> usize {
        self.threads
    }

    /// The runtime that this pool was built around and submits its work
    /// to. It is the same one for as long as the pool lives.
    pub closed spec fn spec_runtime(&self) -> tokio::runtime::Runtime {
        self.runtime
    }

    /// The pool that a runtime built for `threads` workers makes, or the
    /// error that stands for the host's refusal.
    fn from_built(
        built: Result<tokio::runtime::Runtime, std::io::Error>,
        threads: usize,
    ) -> (made: Result<WorkerPool, EngineError>)
        ensures
            built is Ok <==> made is Ok,
            made matches Ok(pool) ==> pool.spec_size() == threads && built == Ok::<
                tokio::runtime::Runtime,
                std::io::Error,
            >(pool.spec_runtime()),
            made matches Err(e) ==> e == EngineError::ResourceExhausted,
    {
        match built {
            Ok(runtime) => Ok(WorkerPool { runtime, threads }),
            Err(_) => Err(EngineError::ResourceExhausted),
        }
    }

    /// Builds a pool of `threads` worker threads.
    ///
    /// A pool of no threads is a configuration error, and one of more than
    /// `MAX_POOL_THREADS` is more than any host is asked for. Otherwise
    /// the host decides: the pool comes back with the size asked for, or
    /// the host's refusal as `ResourceExhausted`. No retry is made.
    pub fn new(threads: usize) -> (made: Result<WorkerPool, EngineError>)
        ensures
            pool_refusal(threads) matches Some(e) ==> made == Err::<WorkerPool, EngineError>(e),
            pool_refusal(threads) is None ==> match made {
                Ok(pool) => pool.spec_size() == threads,
                Err(e) => e == EngineError::ResourceExhausted,
            },
    {
        if threads == 0 {
            return Err(EngineError::InvalidConfiguration);
        }
        if threads > MAX_POOL_THREADS {
            return Err(EngineError::ResourceExhausted);
        }
        WorkerPool::from_built(start_runtime(threads), threads)
    }

    /// The number of worker threads of this pool.
    #[verifier::when_used_as_spec(spec_size)]
    pub fn size(&self) -> (threads: usize)
        ensures
            threads == self.spec_size(),
    {
        self.threads
    }

    /// The runtime behind the pool, for submitting units of work to it:
    /// a borrow of the pool's own runtime, the one that `run_to_completion`
    /// runs its work on, and no other.
    pub fn runtime(&self) -> (behind: &tokio::runtime::Runtime)
        ensures
            *behind == self.spec_runtime(),
    {
        &self.runtime
    }

    /// What a unit of work that was run to its end comes to: its value, or
    /// `PoisonedState` where it failed before it could hand one back.
    fn settle<T>(outcome: Result<T, tokio::task::JoinError>) -> (settled: Result<
        T,
        EngineError,
    >)
        ensures
            outcome is Ok <==> settled is Ok,
            outcome matches Ok(value) ==> settled == Ok::<T, EngineError>(value),
            outcome is Err ==> settled == Err::<T, EngineError>(EngineError::PoisonedState),
    {
        match outcome {
            Ok(value) => Ok(value),
            Err(_) => Err(EngineError::PoisonedState),
        }
    }

    /// Runs `work` on the pool and blocks the caller until it has finished.
    ///
    /// A value that comes back is one that `work` returned; a unit that
    /// failed comes back as `PoisonedState`.
    pub fn run_to_completion<T: Send + 'static, F: FnOnce() -> T + Send + 'static>(
        &self,
        work: F,
    ) -> (finished: Result<T, EngineError>)
        requires
            work.requires(()),
        ensures
            match finished {
                Ok(value) => work.ensures((), value),
                Err(e) => e == EngineError::PoisonedState,
            },
    {
        WorkerPool::settle(run_blocking(&self.runtime, work))
    }
}

} // verus!
