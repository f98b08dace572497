use ustd::sync::{GiveOutcome, Semaphore, TakePoll, Waiter};
use ustd::task::{BlockingContext, Interrupt, InterruptContext, Task, TaskContext, TaskId};

fn task_context(id: u64, priority: u8) -> TaskContext {
    TaskContext::new(Task::new(TaskId::new(id), priority))
}

#[test]
fn fresh_semaphore_is_down() {
    let cx = task_context(1, 0);
    let mut sem = Semaphore::new().unwrap();
    assert!(!sem.try_take(&cx));
    assert!(sem.try_give(&cx));
    assert!(sem.try_take(&cx));
    assert!(!sem.try_take(&cx));
}

#[test]
fn give_on_up_fails() {
    let cx = task_context(1, 0);
    let mut sem = Semaphore::new().unwrap();
    assert!(sem.try_give(&cx));
    assert!(!sem.try_give(&cx));
    assert_eq!(sem.give(&cx), GiveOutcome::AlreadyGiven);
    assert!(sem.try_take(&cx));
    assert_eq!(sem.give(&cx), GiveOutcome::Raised);
}

#[test]
fn acquires_never_exceed_releases() {
    // Signal conservation observed on a concrete interleaved history.
    let cx = task_context(1, 0);
    let mut sem = Semaphore::new().unwrap();
    let mut gives: u32 = 0;
    let mut takes: u32 = 0;
    let script: [bool; 12] = [
        true, true, false, false, true, false, true, true, false, false, false, true,
    ];
    for &is_give in script.iter() {
        if is_give {
            if sem.try_give(&cx) {
                gives += 1;
            }
        } else {
            if sem.try_take(&cx) {
                takes += 1;
            }
        }
        assert!(takes <= gives);
        assert!(gives <= takes + 1);
    }
}

#[test]
fn priority_wake_order() {
    // Five waiters with distinct priorities 4,3,2,1,0 block; five
    // releases wake them strictly in descending priority order.
    let releaser = task_context(100, 5);
    let mut waiters: Vec<TaskContext> = Vec::new();
    for i in 0..5u64 {
        waiters.push(task_context(i + 1, i as u8));
    }
    let mut sem = Semaphore::new().unwrap();
    for cx in waiters.iter() {
        assert!(!sem.take_start(cx));
    }
    let mut woken_priorities: Vec<u8> = Vec::new();
    for _ in 0..5 {
        match sem.give(&releaser) {
            GiveOutcome::Woken(Waiter { id, priority }) => {
                woken_priorities.push(priority);
                let winner = waiters.iter().find(|cx| cx.task().id() == id).unwrap();
                assert_eq!(sem.take_poll(winner, false), TakePoll::Acquired);
            }
            other => panic!("expected a wake, got {:?}", other),
        }
    }
    assert_eq!(woken_priorities, vec![4, 3, 2, 1, 0]);
}

#[test]
fn tie_breaks_to_earliest_registered() {
    let releaser = task_context(100, 5);
    let first = task_context(1, 2);
    let second = task_context(2, 2);
    let mut sem = Semaphore::new().unwrap();
    assert!(!sem.take_start(&first));
    assert!(!sem.take_start(&second));
    match sem.give(&releaser) {
        GiveOutcome::Woken(w) => assert_eq!(w.id, first.task().id()),
        other => panic!("expected a wake, got {:?}", other),
    }
}

#[test]
fn selection_wins_over_elapsed_bound() {
    // A waiter whose bound elapsed but who was already selected still
    // claims the signal: late selection counts as success.
    let releaser = task_context(100, 5);
    let waiter = task_context(1, 0);
    let mut sem = Semaphore::new().unwrap();
    assert!(!sem.take_start(&waiter));
    match sem.give(&releaser) {
        GiveOutcome::Woken(w) => assert_eq!(w.id, waiter.task().id()),
        other => panic!("expected a wake, got {:?}", other),
    }
    assert_eq!(sem.take_poll(&waiter, true), TakePoll::Acquired);
}

#[test]
fn timed_out_waiter_leaves_wait_set() {
    let waiter = task_context(1, 0);
    let cx = task_context(2, 0);
    let mut sem = Semaphore::new().unwrap();
    assert!(!sem.take_start(&waiter));
    assert!(sem.contains_waiter(waiter.task().id()));
    assert_eq!(sem.take_poll(&waiter, false), TakePoll::Waiting);
    assert_eq!(sem.take_poll(&waiter, true), TakePoll::TimedOut);
    assert!(!sem.contains_waiter(waiter.task().id()));
    // The semaphore is back to its fresh state: a release raises it.
    assert_eq!(sem.give(&cx), GiveOutcome::Raised);
}

#[test]
fn zero_timeout_agrees_with_try_take() {
    // A bounded acquire whose bound is already elapsed behaves as the
    // non-blocking acquire, on both a Down and an Up semaphore.
    let cx = task_context(1, 0);
    let mut down_a = Semaphore::new().unwrap();
    let mut down_b = Semaphore::new().unwrap();
    assert!(!down_a.try_take(&cx));
    assert!(!down_b.take_start(&cx));
    assert_eq!(down_b.take_poll(&cx, true), TakePoll::TimedOut);

    let mut up_a = Semaphore::new().unwrap();
    let mut up_b = Semaphore::new().unwrap();
    assert!(up_a.try_give(&cx));
    assert!(up_b.try_give(&cx));
    assert!(up_a.try_take(&cx));
    assert!(up_b.take_start(&cx));
}

#[test]
fn ping_pong() {
    // Two tasks alternate signalling two semaphores 1024 times each
    // while incrementing a shared counter; increments strictly
    // alternate and nothing is lost or duplicated.
    const N: usize = 1024;
    let prod = task_context(1, 0);
    let cons = task_context(2, 1);
    let mut isem = Semaphore::new().unwrap();
    let mut osem = Semaphore::new().unwrap();
    let mut val: usize = 0;

    assert!(isem.try_give(&cons));
    for i in 0..N {
        assert!(isem.try_take(&prod));
        assert_eq!(val, 2 * i);
        val += 1;
        assert!(osem.try_give(&prod));

        assert!(osem.try_take(&cons));
        assert_eq!(val, 2 * i + 1);
        val += 1;
        assert!(isem.try_give(&cons));
    }
    assert_eq!(val, 2 * N);
    assert!(isem.try_take(&prod));
}

#[test]
fn interrupt_safe_operations() {
    // The interrupt-safe release/acquire variants work from an
    // Interrupt context and never register a waiter (they cannot
    // block); a nonzero wait from an interrupt does not type-check.
    let icx = InterruptContext::new();
    let mut sem = Semaphore::new().unwrap();
    assert!(!sem.try_take(&icx));
    assert!(sem.try_give(&icx));
    assert!(!sem.try_give(&icx));
    assert!(sem.try_take(&icx));
    assert!(!icx.should_yield());

    let marker = Interrupt::new();
    assert!(sem.try_give(marker.context()));
    assert!(sem.try_take(marker.context()));
}

#[test]
fn invariant_is_observable() {
    let cx = task_context(1, 0);
    let mut sem = Semaphore::new().unwrap();
    sem.observe_invariant();
    assert!(sem.try_give(&cx));
    sem.observe_invariant();
}
