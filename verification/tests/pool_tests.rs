use repo_manager::command::CommandOutcome;
use repo_manager::dispatch::git_fetch_fast_async;
use repo_manager::messages::GitMessage;
use repo_manager::pool::{AcquirePoll, OperationPool, PoolGuard, GIT_OPERATION_LIMIT, POLL_INTERVAL_MS};

#[test]
fn standard_pool_has_eight_slots() {
    let pool = OperationPool::standard();
    assert_eq!(GIT_OPERATION_LIMIT, 8);
    assert_eq!(pool.capacity, 8);
    assert_eq!(pool.available, 8);
    assert_eq!(pool.in_use(), 0);
}

#[test]
fn held_slots_never_exceed_capacity() {
    let mut pool = OperationPool::new(3);
    let mut guards = Vec::new();
    let script = [true, true, false, true, true, true, false, false, true, false, false, false, false, true];
    for take in script {
        if take {
            if let Some(guard) = PoolGuard::acquire(&mut pool) {
                guards.push(guard);
            }
        } else if let Some(guard) = guards.pop() {
            pool.release(guard);
        }
        assert!(pool.in_use() <= 3);
        assert_eq!(pool.in_use(), guards.len());
        assert_eq!(pool.capacity, 3);
    }
}

#[test]
fn ninth_acquisition_fails_until_a_slot_is_released() {
    let mut pool = OperationPool::standard();
    let mut guards = Vec::new();
    for _ in 0..8 {
        guards.push(PoolGuard::acquire(&mut pool).expect("a slot is free"));
    }
    assert!(PoolGuard::acquire(&mut pool).is_none());
    assert_eq!(pool.in_use(), 8);
    pool.release(guards.pop().unwrap());
    assert!(PoolGuard::acquire(&mut pool).is_some());
    assert_eq!(pool.in_use(), 8);
}

#[test]
fn slot_is_returned_when_the_holder_fails() {
    let mut pool = OperationPool::standard();
    let mut guards = Vec::new();
    for _ in 0..7 {
        guards.push(PoolGuard::acquire(&mut pool).expect("a slot is free"));
    }
    let failing = CommandOutcome::Exited {
        success: false,
        stdout: String::new(),
        stderr: "fatal: repository not found".to_string(),
    };
    let report = git_fetch_fast_async("/tmp/r", &mut pool, &failing, true, &Vec::new());
    assert!(matches!(report, Some(GitMessage::Error { .. })));
    assert_eq!(pool.in_use(), 7);
    for _ in 0..1 {
        guards.push(PoolGuard::acquire(&mut pool).expect("the failing holder gave its slot back"));
    }
    assert_eq!(pool.in_use(), 8);
    assert!(PoolGuard::acquire(&mut pool).is_none());
}

#[test]
fn release_never_grows_the_pool() {
    let mut pool = OperationPool::new(1);
    let guard = PoolGuard::acquire(&mut pool).unwrap();
    let mut other = OperationPool::new(1);
    other.release(guard);
    assert_eq!(other.available, 1);
    assert_eq!(other.in_use(), 0);
}

#[test]
fn waiting_worker_polls_then_gives_up() {
    let mut pool = OperationPool::new(1);
    let held = match PoolGuard::try_acquire_with_timeout(&mut pool, 0, 5000) {
        AcquirePoll::Acquired(guard) => guard,
        other => panic!("unexpected answer {:?}", other),
    };
    match PoolGuard::try_acquire_with_timeout(&mut pool, 10, 5000) {
        AcquirePoll::Wait { sleep_ms } => {
            assert_eq!(sleep_ms, 10);
            assert_eq!(POLL_INTERVAL_MS, 10);
        }
        other => panic!("unexpected answer {:?}", other),
    }
    assert!(matches!(
        PoolGuard::try_acquire_with_timeout(&mut pool, 4999, 5000),
        AcquirePoll::Wait { .. }
    ));
    assert!(matches!(
        PoolGuard::try_acquire_with_timeout(&mut pool, 5000, 5000),
        AcquirePoll::TimedOut
    ));
    pool.release(held);
    assert!(matches!(
        PoolGuard::try_acquire_with_timeout(&mut pool, 5000, 5000),
        AcquirePoll::TimedOut
    ));
    assert_eq!(pool.in_use(), 0);
    assert!(matches!(
        PoolGuard::try_acquire_with_timeout(&mut pool, 4999, 5000),
        AcquirePoll::Acquired(_)
    ));
}
