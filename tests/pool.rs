use gru::thread::{Key, Pool, Query, ResSlot, TaskKey, WorkerState};

type Job = Box<dyn FnOnce() -> usize>;

/// Runs each handed-out job at once, as a worker would, and reports its result.
fn run(assigned: Vec<(usize, Key, Job)>) -> Vec<(usize, Key, usize)> {
    assigned.into_iter().map(|(w, key, job)| (w, key, job())).collect()
}

fn job(v: usize) -> Job {
    Box::new(move || v)
}

#[test]
fn query_twice_gives_invalid_key() {
    let mut pool: Pool<Job, usize> = Pool::new(1);
    let key: TaskKey<usize> = pool.spawn(job(42));
    assert!(matches!(pool.query(key.clone()), Query::Pending));
    let (assigned, ok) = pool.poll(Vec::new());
    assert!(ok);
    assert_eq!(assigned.len(), 1);
    let finished = run(assigned);
    let mut done = false;
    for _ in 0..10 {
        let (_, ok) = pool.poll(finished.clone());
        assert!(ok);
        if let Query::Done(v) = pool.query(key.clone()) {
            assert_eq!(v, 42);
            done = true;
            break;
        }
    }
    assert!(done);
    assert!(matches!(pool.query(key.clone()), Query::InvalidKey));
    assert!(matches!(pool.query(key), Query::InvalidKey));
}

#[test]
fn four_sleepers_on_two_workers() {
    // Task i takes i * 10 ms; a simulated clock decides which worker reports first.
    let mut pool: Pool<Job, usize> = Pool::new(2);
    let keys: Vec<TaskKey<usize>> = (0..4).map(|i| pool.spawn(job(i))).collect();
    let mut running: Vec<(u64, (usize, Key, usize))> = Vec::new();
    let mut now: u64 = 0;
    let mut finished = Vec::new();
    let mut turns = 0;
    while pool.available() < 4 {
        turns += 1;
        assert!(turns < 100);
        let (assigned, ok) = pool.poll(std::mem::take(&mut finished));
        assert!(ok);
        for (w, key, result) in run(assigned) {
            running.push((now + 10 * result as u64, (w, key, result)));
        }
        running.sort_by_key(|r| r.0);
        if !running.is_empty() {
            let (t, report) = running.remove(0);
            now = t;
            finished.push(report);
        }
    }
    let mut got: Vec<usize> = Vec::new();
    for key in keys {
        match pool.query(key) {
            Query::Done(v) => got.push(v),
            Query::Pending => panic!("pending after all results are in"),
            Query::InvalidKey => panic!("invalid key"),
        }
    }
    got.sort();
    assert_eq!(got, vec![0, 1, 2, 3]);
    assert_eq!(pool.available(), 0);
}

#[test]
fn reused_slot_gets_next_generation() {
    let mut pool: Pool<Job, usize> = Pool::new(1);
    let first: TaskKey<usize> = pool.spawn(job(1));
    assert_eq!(first.index(), 0);
    assert_eq!(first.generation(), 0);
    let finished = run(pool.poll(Vec::new()).0);
    pool.poll(finished);
    assert!(matches!(pool.query(first.clone()), Query::Done(1)));
    let second: TaskKey<usize> = pool.spawn(job(2));
    assert_eq!(second.index(), 0);
    assert_eq!(second.generation(), 1);
    let finished = run(pool.poll(Vec::new()).0);
    pool.poll(finished);
    // The stale key never sees the result of the task that now owns the slot.
    assert!(matches!(pool.query(first), Query::InvalidKey));
    assert!(matches!(pool.query(second), Query::Done(2)));
}

#[test]
fn available_counts_results_not_taken() {
    let mut pool: Pool<Job, usize> = Pool::new(3);
    let keys: Vec<TaskKey<usize>> = (0..3).map(|i| pool.spawn(job(10 + i))).collect();
    assert_eq!(pool.available(), 0);
    let finished = run(pool.poll(Vec::new()).0);
    assert_eq!(pool.available(), 0);
    pool.poll(finished);
    assert_eq!(pool.available(), 3);
    assert!(matches!(pool.query(keys[1].clone()), Query::Done(11)));
    assert_eq!(pool.available(), 2);
    assert!(matches!(pool.query(keys[1].clone()), Query::InvalidKey));
    assert_eq!(pool.available(), 2);
}

#[test]
fn queue_is_served_in_order_by_worker_index() {
    let mut pool: Pool<Job, usize> = Pool::new(2);
    let keys: Vec<TaskKey<usize>> = (0..5).map(|i| pool.spawn(job(i))).collect();
    let assigned = pool.dispatch();
    assert_eq!(assigned.len(), 2);
    assert_eq!(assigned[0].0, 0);
    assert_eq!(assigned[1].0, 1);
    assert_eq!(assigned[0].1, (keys[0].index(), keys[0].generation()));
    assert_eq!(assigned[1].1, (keys[1].index(), keys[1].generation()));
    // Both workers are busy: nothing more is handed out.
    assert!(pool.dispatch().is_empty());
    let finished = run(assigned);
    assert!(pool.deliver(finished[1].0, finished[1].1, finished[1].2));
    let next = pool.dispatch();
    assert_eq!(next.len(), 1);
    assert_eq!(next[0].0, 1);
    assert_eq!(next[0].1, (keys[2].index(), keys[2].generation()));
}

#[test]
fn report_that_was_not_handed_out_is_refused() {
    let mut pool: Pool<Job, usize> = Pool::new(2);
    let key: TaskKey<usize> = pool.spawn(job(7));
    let assigned = pool.dispatch();
    assert_eq!(assigned[0].0, 0);
    // Wrong worker, wrong generation, unknown worker: all refused, nothing stored.
    assert!(!pool.deliver(1, (key.index(), key.generation()), 7));
    assert!(!pool.deliver(0, (key.index(), key.generation() + 1), 7));
    assert!(!pool.deliver(5, (key.index(), key.generation()), 7));
    let (_, ok) = pool.poll(vec![(1, (key.index(), key.generation()), 7)]);
    assert!(!ok);
    assert_eq!(pool.available(), 0);
    assert!(matches!(pool.query(key.clone()), Query::Pending));
    assert!(pool.deliver(0, (key.index(), key.generation()), 7));
    assert!(matches!(pool.query(key), Query::Done(7)));
}

#[test]
fn replaced_worker_finishes_the_resent_task() {
    // A worker whose channel broke gets a replacement at the same index, and the same
    // hand-over is sent again; the pool itself keeps its worker count and state.
    let mut pool: Pool<Job, usize> = Pool::new(2);
    let key: TaskKey<usize> = pool.spawn(job(9));
    let (assigned, _) = pool.poll(Vec::new());
    let (w, k, job) = assigned.into_iter().next().unwrap();
    assert!(matches!(pool.worker_state(w), WorkerState::Busy(b) if b == k));
    assert_eq!(pool.num_workers(), 2);
    let result = job();
    let (_, ok) = pool.poll(vec![(w, k, result)]);
    assert!(ok);
    assert_eq!(pool.num_workers(), 2);
    assert!(matches!(pool.query(key), Query::Done(9)));
}

#[test]
fn key_of_another_pool_is_invalid() {
    let mut a: Pool<Job, usize> = Pool::new(1);
    let mut b: Pool<Job, usize> = Pool::new(1);
    let key: TaskKey<usize> = a.spawn(job(3));
    assert!(matches!(b.query(key), Query::InvalidKey));
}

#[test]
fn every_task_comes_back_exactly_once() {
    let mut pool: Pool<Job, usize> = Pool::new(3);
    let keys: Vec<TaskKey<usize>> = (0..20).map(|i| pool.spawn(job(100 + i))).collect();
    assert!(pool.can_spawn());
    let mut seen = vec![0usize; 20];
    let mut finished = Vec::new();
    let mut turns = 0;
    while seen.iter().any(|&n| n == 0) {
        turns += 1;
        assert!(turns < 100);
        let (assigned, ok) = pool.poll(std::mem::take(&mut finished));
        assert!(ok);
        // Workers report in reverse order of hand-over.
        let mut reports = run(assigned);
        reports.reverse();
        finished = reports;
        for (i, key) in keys.iter().enumerate() {
            if let Query::Done(v) = pool.query(key.clone()) {
                assert_eq!(v, 100 + i);
                seen[i] += 1;
            }
        }
    }
    assert!(seen.iter().all(|&n| n == 1));
    for key in keys {
        assert!(matches!(pool.query(key), Query::InvalidKey));
    }
    assert_eq!(pool.available(), 0);
}

#[test]
fn slot_states() {
    let a: ResSlot<u8> = ResSlot::Free;
    let b: ResSlot<u8> = ResSlot::Pending;
    let c: ResSlot<u8> = ResSlot::Done(1);
    assert!(a.free() && !a.pending());
    assert!(!b.free() && b.pending());
    assert!(!c.free() && !c.pending());
}
