//! A small engine for measuring how task-dispatch strategies behave on a
//! worker pool: the arithmetic and the rules of dispatch, the memoized
//! recurrence workload, and the construction of the pool itself.

pub mod error;
pub mod memo;
pub mod mode;
pub mod partition;
pub mod pool;
pub mod recurrence;
pub mod runners;
pub mod tasks;
