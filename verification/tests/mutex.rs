use ustd::sync::{GiveOutcome, LockPoll, Mutex};
use ustd::task::{BlockingContext, Task, TaskContext, TaskId};

fn task_context(id: u64, priority: u8) -> TaskContext {
    TaskContext::new(Task::new(TaskId::new(id), priority))
}

#[test]
fn try_lock_and_unlock() {
    let cx = task_context(1, 0);
    let mut m = Mutex::new(41u64).unwrap();
    assert!(!m.is_locked());
    let mut guard = m.try_lock(&cx).expect("fresh mutex must lock");
    assert!(m.is_locked());
    assert_eq!(*guard.get(), 41);
    *guard.get_mut() = 42;
    let outcome = m.unlock(&cx, guard);
    assert_ne!(outcome, GiveOutcome::AlreadyGiven);
    assert!(!m.is_locked());
    let guard = m.try_lock(&cx).expect("released mutex must lock again");
    assert_eq!(*guard.get(), 42);
    m.unlock(&cx, guard);
}

#[test]
fn second_lock_fails_while_guard_lives() {
    let a = task_context(1, 0);
    let b = task_context(2, 0);
    let mut m = Mutex::new(0u32).unwrap();
    let guard = m.try_lock(&a).unwrap();
    assert!(m.try_lock(&b).is_none());
    assert!(m.try_lock(&a).is_none());
    m.unlock(&a, guard);
    let guard = m.try_lock(&b).unwrap();
    m.unlock(&b, guard);
}

#[test]
fn mutual_exclusion_counter() {
    // Two tasks each increment a shared counter 10,000 times while
    // holding the same mutex: the final counter is exactly 20,000 and
    // the other task can never lock mid-increment.
    const ROUNDS: usize = 10_000;
    let a = task_context(1, 0);
    let b = task_context(2, 0);
    let mut m = Mutex::new(0u64).unwrap();
    for _ in 0..ROUNDS {
        let mut guard = m.try_lock(&a).unwrap();
        assert!(m.try_lock(&b).is_none());
        *guard.get_mut() += 1;
        m.unlock(&a, guard);

        let mut guard = m.try_lock(&b).unwrap();
        assert!(m.try_lock(&a).is_none());
        *guard.get_mut() += 1;
        m.unlock(&b, guard);
    }
    let guard = m.try_lock(&a).unwrap();
    assert_eq!(*guard.get(), 2 * ROUNDS as u64);
    m.unlock(&a, guard);
}

#[test]
fn blocked_locker_wakes_on_unlock() {
    let holder = task_context(1, 0);
    let waiter = task_context(2, 3);
    let mut m = Mutex::new(7i32).unwrap();
    let guard = m.try_lock(&holder).unwrap();
    assert!(m.lock_start(&waiter).is_none());
    match m.lock_poll(&waiter, false) {
        LockPoll::Waiting => {}
        _ => panic!("not selected yet"),
    }
    match m.unlock(&holder, guard) {
        GiveOutcome::Woken(w) => assert_eq!(w.id, waiter.task().id()),
        other => panic!("expected a wake, got {:?}", other),
    }
    let guard = match m.lock_poll(&waiter, false) {
        LockPoll::Locked(g) => g,
        _ => panic!("selected locker must acquire"),
    };
    assert_eq!(*guard.get(), 7);
    m.unlock(&waiter, guard);
}

#[test]
fn lock_timeout_is_a_distinct_condition() {
    let holder = task_context(1, 0);
    let waiter = task_context(2, 0);
    let mut m = Mutex::new(0u8).unwrap();
    let guard = m.try_lock(&holder).unwrap();
    assert!(m.lock_start(&waiter).is_none());
    assert!(m.contains_waiter(waiter.task().id()));
    match m.lock_poll(&waiter, true) {
        LockPoll::TimedOut => {}
        _ => panic!("bound elapsed unselected must time out"),
    }
    assert!(!m.contains_waiter(waiter.task().id()));
    // The holder's release then raises the inner semaphore for the next locker.
    assert_eq!(m.unlock(&holder, guard), GiveOutcome::Raised);
}

#[test]
fn unlock_wake_respects_priority() {
    let holder = task_context(1, 0);
    let low = task_context(2, 1);
    let high = task_context(3, 4);
    let mut m = Mutex::new(0u8).unwrap();
    let guard = m.try_lock(&holder).unwrap();
    assert!(m.lock_start(&low).is_none());
    assert!(m.lock_start(&high).is_none());
    match m.unlock(&holder, guard) {
        GiveOutcome::Woken(w) => assert_eq!(w.id, high.task().id()),
        other => panic!("expected a wake, got {:?}", other),
    }
}
