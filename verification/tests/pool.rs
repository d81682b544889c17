use spawn_bench::error::EngineError;
use spawn_bench::pool::{WorkerPool, MAX_POOL_THREADS};
use spawn_bench::tasks::fib;

#[test]
fn pool_has_the_size_asked_for() {
    let pool = WorkerPool::new(3).unwrap();
    assert_eq!(pool.size(), 3);
    assert!(matches!(WorkerPool::new(0), Err(EngineError::InvalidConfiguration)));
    assert!(matches!(
        WorkerPool::new(MAX_POOL_THREADS + 1),
        Err(EngineError::ResourceExhausted)
    ));
}

#[test]
fn pool_runs_work_to_completion() {
    let pool = WorkerPool::new(2).unwrap();
    let seed: u64 = 20;
    assert_eq!(pool.run_to_completion(move || seed * 2 + 1), Ok(41));
    assert_eq!(pool.run_to_completion(|| fib(20)), Ok(Ok(6765)));
}

#[test]
fn pool_limit_is_the_largest_sixteen_bit_count() {
    assert_eq!(MAX_POOL_THREADS, 65_535);
}

#[test]
fn pool_reports_a_failed_unit() {
    let pool = WorkerPool::new(1).unwrap();
    let failed: Result<u8, EngineError> = pool.run_to_completion(|| panic!("unit failed"));
    assert_eq!(failed, Err(EngineError::PoisonedState));
    assert_eq!(pool.run_to_completion(|| 5u8), Ok(5));
}
