use spawn_bench::error::EngineError;
use spawn_bench::partition::unit_share;
use spawn_bench::pool::MAX_POOL_THREADS;
use spawn_bench::runners::{parallel, serial, serial_with_simple, Dispatch};
use spawn_bench::tasks::dummy_task;
use std::cell::Cell;

fn shares(workers: usize, units: u32) -> Vec<usize> {
    let mut all: Vec<usize> = Vec::new();
    for i in 0..workers {
        all.push(unit_share(workers, units, i));
    }
    all
}

#[test]
fn share_exact_values() {
    assert_eq!(shares(4, 10), vec![3, 3, 2, 2]);
    assert_eq!(shares(3, 10), vec![4, 3, 3]);
    assert_eq!(shares(4, 3), vec![1, 1, 1, 0]);
    assert_eq!(shares(1, 7), vec![7]);
    assert_eq!(shares(5, 0), vec![0, 0, 0, 0, 0]);
    assert_eq!(shares(2, 8), vec![4, 4]);
}

#[test]
fn shares_add_up_and_are_balanced() {
    for workers in 1..20usize {
        for units in 0..200u32 {
            let all = shares(workers, units);
            let total: usize = all.iter().sum();
            assert_eq!(total, units as usize);
            let largest = *all.iter().max().unwrap();
            let smallest = *all.iter().min().unwrap();
            assert!(largest - smallest <= 1);
            let extra = units as usize % workers;
            for i in 0..workers {
                if i < extra {
                    assert_eq!(all[i], units as usize / workers + 1);
                } else {
                    assert_eq!(all[i], units as usize / workers);
                }
            }
        }
    }
}

#[test]
fn shares_are_exact_for_large_counts() {
    assert_eq!(shares(3, 16_777_217), vec![5_592_406, 5_592_406, 5_592_405]);
    assert_eq!(unit_share(7, u32::MAX, 0), 613_566_757);
    assert_eq!(unit_share(7, u32::MAX, 2), 613_566_757);
    assert_eq!(unit_share(7, u32::MAX, 3), 613_566_756);
    assert_eq!(unit_share(7, u32::MAX, 6), 613_566_756);
}

#[test]
fn serial_prepares_a_flat_plan() {
    match serial(4, 1000, dummy_task) {
        Ok(Dispatch::Pending { pool, barrier: _, plan, task: _ }) => {
            assert_eq!(pool.size(), 4);
            assert_eq!(plan.units(), 1000);
            assert_eq!(plan.outer_units(), 0);
            assert_eq!(plan.direct_units(), 1000);
            assert_eq!(plan.parties(), 1001);
        }
        _ => panic!("a flat dispatch of 1000 units was not prepared"),
    }
}

#[test]
fn serial_with_no_unit_is_settled() {
    assert!(matches!(serial(4, 0, dummy_task), Ok(Dispatch::Settled)));
    assert!(matches!(serial(0, 0, dummy_task), Ok(Dispatch::Settled)));
}

#[test]
fn serial_refuses_units_without_workers() {
    assert!(matches!(serial(0, 1, dummy_task), Err(EngineError::InvalidConfiguration)));
    assert!(matches!(serial(0, u32::MAX, dummy_task), Err(EngineError::InvalidConfiguration)));
}

#[test]
fn serial_refuses_a_pool_beyond_the_limit() {
    assert!(matches!(serial(MAX_POOL_THREADS + 1, 8, dummy_task), Err(EngineError::ResourceExhausted)));
}

#[test]
fn parallel_prepares_a_partitioned_plan() {
    match parallel(3, 10, dummy_task) {
        Ok(Dispatch::Pending { pool, barrier: _, plan, task: _ }) => {
            assert_eq!(pool.size(), 3);
            assert_eq!(plan.units(), 10);
            assert_eq!(plan.outer_units(), 3);
            assert_eq!(plan.direct_units(), 0);
            assert_eq!(plan.parties(), 11);
            assert_eq!(plan.group_size(0), 4);
            assert_eq!(plan.group_size(1), 3);
            assert_eq!(plan.group_size(2), 3);
        }
        _ => panic!("a partitioned dispatch of 10 units was not prepared"),
    }
}

#[test]
fn parallel_with_fewer_units_than_workers() {
    match parallel(4, 3, dummy_task) {
        Ok(Dispatch::Pending { pool, barrier: _, plan, task: _ }) => {
            assert_eq!(pool.size(), 4);
            assert_eq!(plan.outer_units(), 4);
            assert_eq!(plan.group_size(0), 1);
            assert_eq!(plan.group_size(1), 1);
            assert_eq!(plan.group_size(2), 1);
            assert_eq!(plan.group_size(3), 0);
            assert_eq!(plan.parties(), 4);
        }
        _ => panic!("a partitioned dispatch of 3 units was not prepared"),
    }
}

#[test]
fn parallel_with_no_unit_issues_nothing() {
    assert!(matches!(parallel(4, 0, dummy_task), Ok(Dispatch::Settled)));
    assert!(matches!(parallel(0, 0, dummy_task), Ok(Dispatch::Settled)));
}

#[test]
fn parallel_refuses_units_without_workers() {
    assert!(matches!(parallel(0, 1, dummy_task), Err(EngineError::InvalidConfiguration)));
    assert!(matches!(parallel(0, 1_000_000, dummy_task), Err(EngineError::InvalidConfiguration)));
}

#[test]
fn parallel_refuses_a_pool_beyond_the_limit() {
    assert!(matches!(parallel(MAX_POOL_THREADS + 1, 8, dummy_task), Err(EngineError::ResourceExhausted)));
}

#[test]
fn a_plan_issues_every_unit_once() {
    for (threads, tasks) in [(1usize, 1u32), (2, 7), (3, 1000), (8, 1024), (5, 3)] {
        for partitioned in [false, true] {
            let runs = Cell::new(0usize);
            let count = || runs.set(runs.get() + 1);
            let prepared = if partitioned {
                parallel(threads, tasks, count)
            } else {
                serial(threads, tasks, count)
            };
            match prepared {
                Ok(Dispatch::Pending { pool: _, barrier: _, plan, task }) => {
                    for _ in 0..plan.direct_units() {
                        task();
                    }
                    for i in 0..plan.outer_units() {
                        for _ in 0..plan.group_size(i) {
                            task();
                        }
                    }
                    assert_eq!(runs.get(), tasks as usize);
                    assert_eq!(runs.get() + 1, plan.parties());
                }
                _ => panic!("the dispatch was not prepared"),
            }
        }
    }
}

#[test]
fn simple_mode_runs_the_workload_in_place() {
    let runs = Cell::new(0u32);
    let prepared = serial_with_simple(4, 1000, || runs.set(runs.get() + 1), true);
    assert!(matches!(prepared, Ok(Dispatch::Settled)));
    assert_eq!(runs.get(), 1000);
}

#[test]
fn simple_mode_needs_no_worker() {
    let runs = Cell::new(0u32);
    let prepared = serial_with_simple(0, 17, || runs.set(runs.get() + 1), true);
    assert!(matches!(prepared, Ok(Dispatch::Settled)));
    assert_eq!(runs.get(), 17);
    let none = serial_with_simple(0, 0, || runs.set(runs.get() + 1), true);
    assert!(matches!(none, Ok(Dispatch::Settled)));
    assert_eq!(runs.get(), 17);
}

#[test]
fn pooled_mode_leaves_the_workload_to_the_caller() {
    let runs = Cell::new(0u32);
    match serial_with_simple(2, 50, || runs.set(runs.get() + 1), false) {
        Ok(Dispatch::Pending { pool, barrier: _, plan, task: _ }) => {
            assert_eq!(pool.size(), 2);
            assert_eq!(plan.direct_units(), 50);
            assert_eq!(plan.outer_units(), 0);
            assert_eq!(plan.parties(), 51);
        }
        _ => panic!("a flat dispatch of 50 units was not prepared"),
    }
    assert_eq!(runs.get(), 0);
    assert!(matches!(
        serial_with_simple(0, 50, dummy_task, false),
        Err(EngineError::InvalidConfiguration)
    ));
}
