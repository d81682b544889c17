use spawn_bench::runners::{parallel, serial, Dispatch};
use std::sync::atomic::{AtomicUsize, Ordering};
use std::sync::Arc;

fn carry_out<F: Fn() + Clone + Send + 'static>(prepared: Dispatch<F>) {
    match prepared {
        Dispatch::Settled => {}
        Dispatch::Pending { pool, barrier, plan, task } => {
            let runtime = pool.runtime();
            for _ in 0..plan.direct_units() {
                let arrival = barrier.clone();
                let unit = task.clone();
                runtime.spawn(async move {
                    unit();
                    arrival.wait().await;
                });
            }
            for i in 0..plan.outer_units() {
                let count = plan.group_size(i);
                let shared = barrier.clone();
                let workload = task.clone();
                runtime.spawn(async move {
                    for _ in 0..count {
                        let arrival = shared.clone();
                        let unit = workload.clone();
                        tokio::spawn(async move {
                            unit();
                            arrival.wait().await;
                        });
                    }
                });
            }
            runtime.block_on(barrier.wait());
        }
    }
}

#[test]
fn flat_dispatch_runs_every_unit_before_the_barrier_opens() {
    for (threads, tasks) in [(1usize, 1u32), (2, 100), (4, 5000), (3, 0)] {
        let runs = Arc::new(AtomicUsize::new(0));
        let seen = runs.clone();
        let prepared = serial(threads, tasks, move || {
            seen.fetch_add(1, Ordering::SeqCst);
        });
        carry_out(prepared.unwrap());
        assert_eq!(runs.load(Ordering::SeqCst), tasks as usize);
    }
}

#[test]
fn partitioned_dispatch_runs_every_unit_before_the_barrier_opens() {
    for (threads, tasks) in [(1usize, 1u32), (3, 10), (4, 3), (4, 5000), (7, 1000), (4, 0)] {
        let runs = Arc::new(AtomicUsize::new(0));
        let seen = runs.clone();
        let prepared = parallel(threads, tasks, move || {
            seen.fetch_add(1, Ordering::SeqCst);
        });
        carry_out(prepared.unwrap());
        assert_eq!(runs.load(Ordering::SeqCst), tasks as usize);
    }
}
