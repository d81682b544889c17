use vstd::prelude::*;

verus! {

/// The scenario a run measures.
#[derive(Clone, Copy, Debug, PartialEq, Eq, Structural)]
pub enum Mode {
    /// Every unit is submitted by the caller.
    Serial,
    /// The units are spread over outer units, one for each worker.
    Parallel,
    /// One term of the recurrence is computed.
    Fibonacci,
}

impl Mode {
    /// The name under which the mode is shown.
    pub open spec fn label(self) -> Seq<char> {
        match self {
            Mode::Serial => "Serial"@,
            Mode::Parallel => "Parallel"@,
            Mode::Fibonacci => "Fibonacci"@,
        }
    }

    /// The name under which the mode is shown.
    pub fn to_string(&self) -> (name: String)
        ensures
            name@ == self.label(),
    {
        match self {
            Mode::Serial => "Serial".to_owned(),
            Mode::Parallel => "Parallel".to_owned(),
            Mode::Fibonacci => "Fibonacci".to_owned(),
        }
    }
}

/// The parameters of a dispatch scenario.
pub struct TaskArgs {
    /// The number of leaf units to dispatch.
    pub tasks: u32,
}

/// The parameters of the recurrence scenario.
pub struct FibArgs {
    /// The index of the term to compute.
    pub num: usize,
}

/// A scenario together with its parameters.
pub enum Commands {
    Serial(TaskArgs),
    Parallel(TaskArgs),
    Fibonacci(FibArgs),
}

/// The mode that a command selects.
pub open spec fn mode_of(cmd: Commands) -> Mode {
    match cmd {
        Commands::Serial(_) => Mode::Serial,
        Commands::Parallel(_) => Mode::Parallel,
        Commands::Fibonacci(_) => Mode::Fibonacci,
    }
}

/// The mode that a command selects.
pub fn get_mode(cmd: &Commands) -> (mode: Mode)
    ensures
        mode == mode_of(*cmd),
{
    match cmd {
        Commands::Serial(_) => Mode::Serial,
        Commands::Parallel(_) => Mode::Parallel,
        Commands::Fibonacci(_) => Mode::Fibonacci,
    }
}

/// Asks `num_cpus::get` for the number of processors that this process may
/// run on. The answer is the machine's, so nothing is claimed of it.
#[verifier::external_body]
fn available_cpus() -> usize {
    num_cpus::get()
}

/// The pool size to use where `requested` was asked for and the machine
/// offers `available` processors: what was asked for, and the machine's
/// count where nothing was.
pub fn pick_threads(requested: Option<usize>, available: usize) -> (threads: usize)
    ensures
        threads == match requested {
            Some(count) => count,
            None => available,
        },
{
    match requested {
        Some(count) => count,
        None => available,
    }
}

/// The pool size of a run: the one that was asked for, or else the number
/// of processors of this machine.
pub fn thread_count(requested: Option<usize>) -> (threads: usize)
    ensures
        requested matches Some(count) ==> threads == count,
{
    pick_threads(requested, available_cpus())
}

} // verus!
