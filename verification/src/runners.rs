use crate::error::EngineError;
use crate::partition::{lemma_shares_total, share, shares_sum, unit_share};
use crate::pool::{new_barrier, pool_refusal, WorkerPool};
use crate::recurrence::term_word;
use crate::tasks::{fib, fib_outcome};
use std::sync::Arc;
use vstd::prelude::*;

verus! {

/// How the leaf units of one dispatch are laid out: how many there are,
/// and over how many outer units they are spread. With no outer unit the
/// caller submits every leaf itself (the flat pattern); otherwise the
/// caller submits the outer units only, and each of them submits its share
/// of the leaves.
///
/// A leaf unit runs the workload once and then arrives at the completion
/// barrier. An outer unit never arrives: the barrier counts leaves and the
/// caller, whatever the shape of the fan-out.
pub struct DispatchPlan {
    units: u32,
    groups: Vec<usize>,
}

impl DispatchPlan {
    #[verifier::type_invariant]
    spec fn sound(self) -> bool {
        &&& self.units < usize::MAX
        &&& forall|i: int|
            0 <= i < self.groups@.len() ==> #[trigger] self.groups@[i] == share(
                self.groups@.len(),
                self.units as nat,
                i as nat,
            )
    }

    /// The number of leaf units.
    pub closed spec fn spec_units(&self) -> u32 {
        self.units
    }

    /// The number of outer units; zero for the flat pattern.
    pub closed spec fn spec_outer_units(&self) -> usize {
        self.groups.len()
    }

    /// The leaf units that the caller submits itself.
    pub open spec fn spec_direct_units(&self) -> usize {
        if self.spec_outer_units() == 0 {
            self.spec_units() as usize
        } else {
            0
        }
    }

    /// The leaf units that the outer unit `i` submits.
    pub open spec fn spec_group_size(&self, i: usize) -> usize {
        share(self.spec_outer_units() as nat, self.spec_units() as nat, i as nat) as usize
    }

    /// The party count of the completion barrier: every leaf unit and the
    /// caller.
    pub open spec fn spec_parties(&self) -> usize {
        (self.spec_units() + 1) as usize
    }

    /// The number of leaf units.
    #[verifier::when_used_as_spec(spec_units)]
    pub fn units(&self) -> (n: u32)
        ensures
            n == self.spec_units(),
    {
        self.units
    }

    /// The number of outer units; zero for the flat pattern.
    #[verifier::when_used_as_spec(spec_outer_units)]
    pub fn outer_units(&self) -> (n: usize)
        ensures
            n == self.spec_outer_units(),
    {
        self.groups.len()
    }

    /// The leaf units that the caller submits itself.
    #[verifier::when_used_as_spec(spec_direct_units)]
    pub fn direct_units(&self) -> (n: usize)
        ensures
            n == self.spec_direct_units(),
    {
        if self.groups.len() == 0 {
            self.units as usize
        } else {
            0
        }
    }

    /// The leaf units that the outer unit `i` submits.
    #[verifier::when_used_as_spec(spec_group_size)]
    pub fn group_size(&self, i: usize) -> (n: usize)
        requires
            i < self.spec_outer_units(),
        ensures
            n == self.spec_group_size(i),
            n == share(self.spec_outer_units() as nat, self.spec_units() as nat, i as nat),
    {
        proof {
            use_type_invariant(self);
        }
        self.groups[i]
    }

    /// The party count of the completion barrier: every leaf unit and the
    /// caller.
    #[verifier::when_used_as_spec(spec_parties)]
    pub fn parties(&self) -> (n: usize)
        ensures
            n == self.spec_parties(),
            n == self.spec_units() + 1,
    {
        proof {
            use_type_invariant(self);
        }
        self.units as usize + 1
    }

    /// Every leaf unit of a plan is submitted exactly once: what the caller
    /// submits and what the outer units submit add up to the number of
    /// units, which is one less than the barrier's party count. So the barrier
    /// opens when the last leaf has arrived, and not before.
    pub proof fn lemma_accounts_for_every_unit(self)
        ensures
            self.spec_direct_units() + shares_sum(
                self.spec_outer_units() as nat,
                self.spec_units() as nat,
                self.spec_outer_units() as nat,
            ) == self.spec_units(),
    {
        if self.spec_outer_units() > 0 {
            lemma_shares_total(self.spec_outer_units() as nat, self.spec_units() as nat);
        }
    }
}

/// What is left to do once a dispatch has been prepared.
pub enum Dispatch<F> {
    /// Nothing: there was no unit to submit, or every unit has run already.
    Settled,
    /// The units of `plan` are to be submitted to `pool`, each leaf to run
    /// `task` and then to arrive at `barrier`, and the caller is to arrive
    /// at `barrier` after that. The barrier was made for `plan.parties()`
    /// arrivals and has seen none yet.
    Pending { pool: WorkerPool, barrier: Arc<tokio::sync::Barrier>, plan: DispatchPlan, task: F },
}

/// The error, if any, with which a dispatch of `tasks` units on `threads`
/// workers is refused before the host is asked for the pool.
pub open spec fn dispatch_refusal(threads: usize, tasks: u32) -> Option<EngineError> {
    if tasks == 0 {
        None
    } else if threads == 0 || tasks + 1 > usize::MAX {
        Some(EngineError::InvalidConfiguration)
    } else {
        pool_refusal(threads)
    }
}

/// Whether `prepared` is a possible outcome of preparing `tasks` units of
/// the workload `task` on `threads` workers, spread over `outer` outer
/// units.
///
/// No unit needs no pool and is settled at once. A request that is refused
/// has one outcome, its error. Otherwise the host decides whether the pool
/// is there; if it is, the plan is the one asked for and the workload the
/// one handed in.
pub open spec fn dispatch_outcome<F>(
    threads: usize,
    tasks: u32,
    outer: usize,
    task: F,
    prepared: Result<Dispatch<F>, EngineError>,
) -> bool {
    if tasks == 0 {
        prepared == Ok::<Dispatch<F>, EngineError>(Dispatch::Settled)
    } else if let Some(e) = dispatch_refusal(threads, tasks) {
        prepared == Err::<Dispatch<F>, EngineError>(e)
    } else {
        match prepared {
            Ok(Dispatch::Pending { pool, barrier, plan, task: handed }) => {
                &&& pool.spec_size() == threads
                &&& plan.spec_units() == tasks
                &&& plan.spec_outer_units() == outer
                &&& handed == task
            },
            Ok(Dispatch::Settled) => false,
            Err(e) => e == EngineError::ResourceExhausted,
        }
    }
}

/// Makes the barrier and the pool for the units of `plan`.
fn launch<F>(threads: usize, plan: DispatchPlan, task: F) -> (prepared: Result<
    Dispatch<F>,
    EngineError,
>)
    requires
        plan.spec_units() > 0,
        threads > 0,
    ensures
        dispatch_outcome(threads, plan.spec_units(), plan.spec_outer_units(), task, prepared),
{
    proof {
        use_type_invariant(&plan);
    }
    let barrier = Arc::new(new_barrier(plan.parties()));
    match WorkerPool::new(threads) {
        Ok(pool) => Ok(Dispatch::Pending { pool, barrier, plan, task }),
        Err(e) => Err(e),
    }
}

/// Prepares the flat dispatch of `tasks` leaf units on a fresh pool of
/// `threads` workers: the caller is to submit every unit itself, each to
/// run `task` once.
///
/// With no unit there is nothing to prepare. With units and no worker the
/// request is refused as `InvalidConfiguration`, and so is a number of
/// units whose barrier the machine word cannot count.
pub fn serial<F: Fn()>(threads: usize, tasks: u32, task: F) -> (prepared: Result<
    Dispatch<F>,
    EngineError,
>)
    requires
        task.requires(()),
    ensures
        dispatch_outcome(threads, tasks, 0, task, prepared),
{
    if tasks == 0 {
        return Ok(Dispatch::Settled);
    }
    if threads == 0 || tasks as u64 >= usize::MAX as u64 {
        return Err(EngineError::InvalidConfiguration);
    }
    launch(threads, DispatchPlan { units: tasks, groups: Vec::new() }, task)
}

/// As `serial`, unless `simple` is set: then the workload is run `tasks`
/// times in the calling thread, one run after the other, with no pool and
/// no barrier, and the dispatch is settled when the function returns.
pub fn serial_with_simple<F: Fn()>(threads: usize, tasks: u32, task: F, simple: bool) -> (prepared:
    Result<Dispatch<F>, EngineError>)
    requires
        task.requires(()),
    ensures
        simple ==> prepared == Ok::<Dispatch<F>, EngineError>(Dispatch::Settled),
        !simple ==> dispatch_outcome(threads, tasks, 0, task, prepared),
{
    if !simple {
        serial(threads, tasks, task)
    } else {
        let mut done: u32 = 0;
        while done < tasks
            invariant
                done <= tasks,
                task.requires(()),
            decreases tasks - done,
        {
            task();
            done = done + 1;
        }
        Ok(Dispatch::Settled)
    }
}

/// Prepares the partitioned dispatch of `tasks` leaf units on a fresh pool
/// of `threads` workers: the caller is to submit one outer unit for each
/// worker, and the outer unit `i` its share of the leaves,
/// `share(threads, tasks, i)`, each leaf to run `task` once.
///
/// With no unit there is nothing to prepare. With units and no worker the
/// request is refused as `InvalidConfiguration`, and so is a number of
/// units whose barrier the machine word cannot count.
pub fn parallel<F: Fn()>(threads: usize, tasks: u32, task: F) -> (prepared: Result<
    Dispatch<F>,
    EngineError,
>)
    requires
        task.requires(()),
    ensures
        dispatch_outcome(threads, tasks, threads, task, prepared),
{
    if tasks == 0 {
        return Ok(Dispatch::Settled);
    }
    if threads == 0 || tasks as u64 >= usize::MAX as u64 {
        return Err(EngineError::InvalidConfiguration);
    }
    let mut groups: Vec<usize> = Vec::new();
    let mut i: usize = 0;
    while i < threads
        invariant
            0 < threads,
            i <= threads,
            groups@.len() == i,
            forall|j: int|
                0 <= j < i ==> #[trigger] groups@[j] == share(
                    threads as nat,
                    tasks as nat,
                    j as nat,
                ),
        decreases threads - i,
    {
        let current_tasks: usize = unit_share(threads, tasks, i);
        groups.push(current_tasks);
        i = i + 1;
    }
    launch(threads, DispatchPlan { units: tasks, groups }, task)
}

/// The error, if any, with which the computation of the term of index
/// `num` on `threads` workers is refused before the host is asked for the
/// pool: there is no worker, or no table can be made for the index, or the
/// pool is beyond what any host is asked for.
pub open spec fn recurrence_refusal(threads: usize, num: usize) -> Option<EngineError> {
    if threads == 0 || num == usize::MAX {
        Some(EngineError::InvalidConfiguration)
    } else {
        pool_refusal(threads)
    }
}

/// Whether `found` is a possible outcome of computing the term of index
/// `num` on a pool of `threads` workers.
///
/// A request that is refused before the host is asked for the pool has
/// one outcome, its error. Otherwise the value, where one comes back, is
/// the term; the host may refuse the pool, and the unit that computes may
/// fail.
pub open spec fn recurrence_outcome(
    threads: usize,
    num: usize,
    found: Result<usize, EngineError>,
) -> bool {
    if let Some(e) = recurrence_refusal(threads, num) {
        found == Err::<usize, EngineError>(e)
    } else {
        ||| found == Ok::<usize, EngineError>(term_word(num as nat))
        ||| found == Err::<usize, EngineError>(EngineError::ResourceExhausted)
        ||| found == Err::<usize, EngineError>(EngineError::PoisonedState)
    }
}

/// Two computations of the same index that both come back with a value
/// come back with the same one, whatever the sizes of their pools.
pub proof fn lemma_recurrence_repeatable(
    threads_a: usize,
    threads_b: usize,
    num: usize,
    first: Result<usize, EngineError>,
    second: Result<usize, EngineError>,
)
    requires
        recurrence_outcome(threads_a, num, first),
        recurrence_outcome(threads_b, num, second),
        first is Ok,
        second is Ok,
    ensures
        first == second,
        first == Ok::<usize, EngineError>(term_word(num as nat)),
{
}

/// Computes the term of index `num` of the recurrence on a fresh pool of
/// `threads` workers, and blocks until it is there.
pub fn fibonacci(threads: usize, num: usize) -> (found: Result<usize, EngineError>)
    ensures
        recurrence_outcome(threads, num, found),
{
    if threads == 0 || num == usize::MAX {
        return Err(EngineError::InvalidConfiguration);
    }
    let pool = match WorkerPool::new(threads) {
        Ok(pool) => pool,
        Err(e) => {
            return Err(e);
        },
    };
    let work = move || -> (value: Result<usize, EngineError>)
        ensures
            value == fib_outcome(num),
        { fib(num) };
    match pool.run_to_completion(work) {
        Ok(value) => value,
        Err(e) => Err(e),
    }
}

} // verus!
