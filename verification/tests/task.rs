use ustd::task::{
    BlockingContext, Builder, Handle, JoinPoll, State, Task, TaskContext, TaskId,
};

fn task_context(id: u64, priority: u8) -> TaskContext {
    TaskContext::new(Task::new(TaskId::new(id), priority))
}

#[test]
fn task_descriptor() {
    let t = Task::new(TaskId::new(7), 3);
    assert_eq!(t.id(), TaskId::new(7));
    assert_eq!(t.priority(), 3);
    let copy = t;
    assert_eq!(copy.id(), t.id());
    assert_ne!(TaskId::new(7), TaskId::new(8));
}

#[test]
fn join_idempotent() {
    // A pre-completion join never reports completion; after completion
    // every join reports it, however often it is repeated and whatever
    // bound it carries.
    let joiner = task_context(1, 0);
    let mut h = Handle::new(Task::new(TaskId::new(2), 1));
    assert_eq!(h.join(&joiner, 0, None), JoinPoll::Waiting);
    assert_eq!(h.join(&joiner, 1_000_000, None), JoinPoll::Waiting);
    h.complete();
    assert_eq!(h.join(&joiner, 0, None), JoinPoll::Done);
    assert_eq!(h.join(&joiner, 0, None), JoinPoll::Done);
    assert_eq!(h.join(&joiner, 99, Some(1)), JoinPoll::Done);
    assert_eq!(h.join(&joiner, 0, Some(0)), JoinPoll::Done);
}

#[test]
fn join_times_out_only_at_the_bound() {
    let joiner = task_context(1, 0);
    let h = Handle::new(Task::new(TaskId::new(2), 1));
    assert_eq!(h.join(&joiner, 3, Some(5)), JoinPoll::Waiting);
    assert_eq!(h.join(&joiner, 5, Some(5)), JoinPoll::TimedOut);
    assert_eq!(h.join(&joiner, 10, Some(5)), JoinPoll::TimedOut);
    assert_eq!(h.join(&joiner, u64::MAX, None), JoinPoll::Waiting);
}

#[test]
fn lifecycle_marks_finished_once() {
    let mut s = State::new();
    assert!(!s.is_finished());
    assert_eq!(s.poll_finished(0, Some(10)), JoinPoll::Waiting);
    s.finish();
    assert!(s.is_finished());
    assert_eq!(s.poll_finished(0, Some(0)), JoinPoll::Done);
}

#[test]
fn builder_collects_settings() {
    let (task, handle, cx) = Builder::new()
        .name("worker")
        .stack_size(4096)
        .priority(2)
        .build(TaskId::new(11));
    assert_eq!(task.id(), TaskId::new(11));
    assert_eq!(task.priority(), 2);
    assert_eq!(handle.task().id(), task.id());
    assert_eq!(cx.task().id(), task.id());
    assert_eq!(cx.task().priority(), 2);
}

#[test]
fn builder_default_priority_is_lowest() {
    let (task, _, _) = Builder::new().build(TaskId::new(1));
    assert_eq!(task.priority(), 0);
}

#[test]
fn handle_returns_descriptor_cheaply() {
    let h = Handle::new(Task::new(TaskId::new(3), 4));
    assert_eq!(h.task().id(), TaskId::new(3));
    assert_eq!(h.task().priority(), 4);
}

#[test]
fn builder_exposes_native_settings() {
    let b = Builder::new().name("io").stack_size(2048);
    assert_eq!(b.configured_name().map(|s| s.as_str()), Some("io"));
    assert_eq!(b.configured_stack_size(), Some(2048));
    let bare = Builder::new();
    assert!(bare.configured_name().is_none());
    assert!(bare.configured_stack_size().is_none());
}
