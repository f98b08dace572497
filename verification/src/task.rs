use vstd::prelude::*;

use crate::Priority;

verus! {

/// Unique identifier of an execution unit.
///
/// The native layer derives it from the underlying unit (a thread id or
/// a kernel task handle); the core only compares identifiers.
#[derive(Clone, Copy, PartialEq, Eq, Hash, Debug, Structural)]
pub struct TaskId(u64);

impl TaskId {
    /// The raw value the identifier was built from.
    pub closed spec fn raw(&self) -> u64 {
        self.0
    }

    /// Wrap a raw identifier handed out by the native layer.
    pub fn new(raw: u64) -> (id: TaskId)
        ensures
            id.raw() == raw,
    {
        TaskId(raw)
    }

    /// Identifiers are equal exactly when their raw values are.
    pub proof fn lemma_eq_raw(a: TaskId, b: TaskId)
        ensures
            a == b <==> a.raw() == b.raw(),
    {
    }
}

/// Passive descriptor of a schedulable unit: identity plus priority.
///
/// Freely copyable; owning one grants no control over the unit itself.
#[derive(Clone, Copy, PartialEq, Eq, Debug, Structural)]
pub struct Task {
    pub id: TaskId,
    pub priority: Priority,
}

impl Task {
    /// Build a descriptor for the unit with the given identity.
    pub fn new(id: TaskId, priority: Priority) -> (t: Task)
        ensures
            t.id == id,
            t.priority == priority,
    {
        Task { id, priority }
    }

    /// The unit's unique identifier.
    pub fn id(&self) -> (id: TaskId)
        ensures
            id == self.id,
    {
        self.id
    }

    /// The priority the unit was spawned with.
    pub fn priority(&self) -> (p: Priority)
        ensures
            p == self.priority,
    {
        self.priority
    }
}

/// Outcome of one round of a bounded wait.
#[derive(Clone, Copy, PartialEq, Eq, Debug, Structural)]
pub enum JoinPoll {
    /// The awaited event has happened; the wait is over with success.
    Done,
    /// The bound elapsed before the event; the wait is over with failure.
    TimedOut,
    /// Neither yet: the caller suspends and polls again when woken.
    Waiting,
}

/// What one round of a joiner's wait decides, given whether the task
/// has finished, how long the joiner has waited, and its bound
/// (`None` meaning forever).
pub open spec fn join_poll_spec(done: bool, elapsed_ms: u64, timeout_ms: Option<u64>) -> JoinPoll {
    if done {
        JoinPoll::Done
    } else if timeout_ms matches Some(t) && elapsed_ms >= t {
        JoinPoll::TimedOut
    } else {
        JoinPoll::Waiting
    }
}

/// Join is idempotent: once a poll of the lifecycle record reports
/// completion, every later poll does too, whatever elapsed time or
/// bound it carries; and no poll ever reports completion before the
/// task has actually finished.
pub proof fn lemma_join_idempotent(
    done: bool,
    e1: u64,
    t1: Option<u64>,
    e2: u64,
    t2: Option<u64>,
)
    ensures
        join_poll_spec(done, e1, t1) is Done ==> join_poll_spec(done, e2, t2) is Done,
        !done ==> !(join_poll_spec(done, e1, t1) is Done),
{
}

/// Shared lifecycle record of a spawned task.
///
/// Exactly one writer — the task itself, exactly once, when its closure
/// returns — and arbitrarily many readers (joiners).
pub struct State {
    finished: bool,
}

impl State {
    /// Whether the task has signalled completion.
    pub closed spec fn done(&self) -> bool {
        self.finished
    }

    /// A fresh record for a task that has not finished.
    pub fn new() -> (s: State)
        ensures
            !s.done(),
    {
        State { finished: false }
    }

    /// Mark the task finished. Called exactly once, at normal
    /// completion; a second mark is a defect, so it is ruled out here
    /// rather than tolerated.
    pub fn finish(&mut self)
        requires
            !old(self).done(),
        ensures
            final(self).done(),
    {
        self.finished = true;
    }

    /// Whether completion has been signalled.
    pub fn is_finished(&self) -> (r: bool)
        ensures
            r == self.done(),
    {
        self.finished
    }

    /// One round of a joiner's wait loop: report completion, report a
    /// timeout once the bound has elapsed, or keep waiting. The caller
    /// suspends between rounds; a `None` bound waits forever.
    pub fn poll_finished(&self, elapsed_ms: u64, timeout_ms: Option<u64>) -> (r: JoinPoll)
        ensures
            r == join_poll_spec(self.done(), elapsed_ms, timeout_ms),
    {
        if self.finished {
            JoinPoll::Done
        } else {
            match timeout_ms {
                Some(t) => if elapsed_ms >= t {
                    JoinPoll::TimedOut
                } else {
                    JoinPoll::Waiting
                },
                None => JoinPoll::Waiting,
            }
        }
    }
}

/// Owner's view of a spawned task: it retrieves the descriptor and
/// observes completion. Letting the handle go neither cancels nor
/// otherwise affects the running task.
pub struct Handle {
    task: Task,
    state: State,
}

impl Handle {
    /// The descriptor of the spawned task.
    pub closed spec fn task_of(&self) -> Task {
        self.task
    }

    /// Whether the task has signalled completion.
    pub closed spec fn done(&self) -> bool {
        self.state.done()
    }

    /// Pair a descriptor with a fresh lifecycle record.
    pub fn new(task: Task) -> (h: Handle)
        ensures
            h.task_of() == task,
            !h.done(),
    {
        Handle { task, state: State::new() }
    }

    /// The passive descriptor. Cheap and always available.
    pub fn task(&self) -> (t: Task)
        ensures
            t == self.task_of(),
    {
        self.task
    }

    /// The completion signal: delivered exactly once, when the spawned
    /// closure returns. Delivering it twice is a defect.
    pub fn complete(&mut self)
        requires
            !old(self).done(),
        ensures
            final(self).done(),
            final(self).task_of() == old(self).task_of(),
    {
        self.state.finish();
    }

    /// One round of a joiner's wait, requiring a blocking-capable
    /// context: completion wins, then the bound, else the caller
    /// suspends and polls again. Idempotent — after completion every
    /// round reports `Done` immediately.
    pub fn join<C: BlockingContext>(&self, _cx: &C, elapsed_ms: u64, timeout_ms: Option<u64>) -> (r:
        JoinPoll)
        ensures
            r == join_poll_spec(self.done(), elapsed_ms, timeout_ms),
    {
        self.state.poll_finished(elapsed_ms, timeout_ms)
    }
}

/// Capability common to every execution environment: identity of the
/// environment kind and the right to issue non-blocking operations.
pub trait Context {
    /// Whether this environment may suspend. Interrupt handlers never
    /// may; tasks and timer callbacks always may.
    spec fn blocking(&self) -> bool;
}

/// Capability of environments that may suspend: tasks and timer
/// callbacks, never interrupt handlers.
pub trait BlockingContext: Context {
    /// The descriptor of the unit this context belongs to.
    spec fn current_task(&self) -> Task;

    /// Retrieve the descriptor of the unit this context belongs to.
    fn task(&self) -> (t: Task)
        ensures
            t == self.current_task(),
    ;

    /// Every blocking-capable context carries the blocking capability.
    proof fn blocking_capability(&self)
        ensures
            self.blocking(),
    ;
}

/// Context bound one-to-one to a running task for the task's whole
/// life. Carries the full capability set, including blocking calls.
///
/// The native layer must keep at most one alive per unit at a time;
/// constructing a second while the first lives is a usage error there.
pub struct TaskContext {
    task: Task,
    ticks: u32,
}

impl TaskContext {
    /// The monotonic tick count last reported to this context.
    pub closed spec fn tick_count(&self) -> u32 {
        self.ticks
    }

    /// Enter a context for the unit with the given descriptor, with
    /// the tick counter at zero.
    pub fn new(task: Task) -> (cx: TaskContext)
        ensures
            cx.current_task() == task,
            cx.tick_count() == 0,
    {
        TaskContext { task, ticks: 0 }
    }

    /// Report the passage of native time to this context: the tick
    /// counter advances, wrapping at its width as the native counter
    /// does.
    pub fn advance_ticks(&mut self, delta: u32)
        ensures
            final(self).tick_count() == old(self).tick_count().wrapping_add(delta),
            final(self).current_task() == old(self).current_task(),
    {
        self.ticks = self.ticks.wrapping_add(delta);
    }
}

impl Context for TaskContext {
    open spec fn blocking(&self) -> bool {
        true
    }
}

impl crate::time::TimeContext for TaskContext {
    closed spec fn ticks_now(&self) -> u32 {
        self.ticks
    }

    fn get_tick_count(&mut self) -> (t: u32) {
        self.ticks
    }
}

impl BlockingContext for TaskContext {
    closed spec fn current_task(&self) -> Task {
        self.task
    }

    fn task(&self) -> (t: Task) {
        self.task
    }

    proof fn blocking_capability(&self) {
    }
}

/// Context inside an interrupt handler: non-blocking, non-allocating
/// operations only. It does not implement [`BlockingContext`], so a
/// call that could suspend is rejected at compile time — no backend can
/// suspend an interrupt handler.
pub struct InterruptContext {
    _private: (),
}

impl InterruptContext {
    /// Enter an interrupt context. The native layer must keep at most
    /// one alive per unit at a time.
    pub fn new() -> (cx: InterruptContext)
        ensures
            !cx.blocking(),
    {
        InterruptContext { _private: () }
    }

    /// Whether the handler should request a context switch on exit.
    /// The host backend has no real interrupts, so never.
    pub fn should_yield(&self) -> (r: bool)
        ensures
            !r,
    {
        false
    }
}

impl Context for InterruptContext {
    open spec fn blocking(&self) -> bool {
        false
    }
}

/// Marker that the current execution unit is running as an interrupt.
///
/// While it exists the unit must issue interrupt-safe calls only. The
/// native layer must keep at most one alive per unit at a time;
/// entering a second before leaving the first is a usage error there.
pub struct Interrupt {
    context: InterruptContext,
}

impl Interrupt {
    /// The capability token the marker carries.
    pub closed spec fn capability(&self) -> InterruptContext {
        self.context
    }

    /// Mark the current execution unit as an interrupt.
    pub fn new() -> (i: Interrupt)
        ensures
            !i.capability().blocking(),
    {
        Interrupt { context: InterruptContext::new() }
    }

    /// The capability token the marker carries.
    pub fn context(&self) -> (cx: &InterruptContext)
        ensures
            cx == self.capability(),
            !cx.blocking(),
    {
        &self.context
    }
}

/// Task builder: optional name and stack size, and the priority the
/// scheduler honours (default priority is the lowest).
pub struct Builder {
    name: Option<String>,
    stack_size: Option<usize>,
    priority: Priority,
}

impl Builder {
    /// The name set so far, if any.
    pub closed spec fn name_of(&self) -> Option<Seq<char>> {
        match self.name {
            Some(n) => Some(n@),
            None => None,
        }
    }

    /// The stack size set so far, if any.
    pub closed spec fn stack_size_of(&self) -> Option<usize> {
        self.stack_size
    }

    /// The priority set so far.
    pub closed spec fn priority_of(&self) -> Priority {
        self.priority
    }

    /// A builder with nothing set and the default priority.
    pub fn new() -> (b: Builder)
        ensures
            b.name_of() is None,
            b.stack_size_of() is None,
            b.priority_of() == 0,
    {
        Builder { name: None, stack_size: None, priority: 0 }
    }

    /// Set the new task's name.
    pub fn name(self, name: &str) -> (b: Builder)
        ensures
            b.name_of() == Some(name@),
            b.stack_size_of() == self.stack_size_of(),
            b.priority_of() == self.priority_of(),
    {
        Builder { name: Some(name.to_owned()), ..self }
    }

    /// Set the new task's stack size.
    pub fn stack_size(self, size: usize) -> (b: Builder)
        ensures
            b.name_of() == self.name_of(),
            b.stack_size_of() == Some(size),
            b.priority_of() == self.priority_of(),
    {
        Builder { stack_size: Some(size), ..self }
    }

    /// Set the new task's priority.
    pub fn priority(self, priority: Priority) -> (b: Builder)
        ensures
            b.name_of() == self.name_of(),
            b.stack_size_of() == self.stack_size_of(),
            b.priority_of() == priority,
    {
        Builder { priority, ..self }
    }

    /// The configured name, for the native layer to put on the unit.
    pub fn configured_name(&self) -> (r: Option<&String>)
        ensures
            match r {
                Some(n) => self.name_of() == Some(n@),
                None => self.name_of() is None,
            },
    {
        self.name.as_ref()
    }

    /// The configured stack size, for the native layer to apply.
    pub fn configured_stack_size(&self) -> (r: Option<usize>)
        ensures
            r == self.stack_size_of(),
    {
        self.stack_size
    }

    /// Assemble the records for a freshly created execution unit whose
    /// identity the native layer supplies: the descriptor, the handle
    /// the spawner keeps, and the context the new task runs with.
    pub fn build(self, id: TaskId) -> (r: (Task, Handle, TaskContext))
        ensures
            r.0.id == id,
            r.0.priority == self.priority_of(),
            r.1.task_of() == r.0,
            !r.1.done(),
            r.2.current_task() == r.0,
    {
        let task = Task { id, priority: self.priority };
        (task, Handle::new(task), TaskContext::new(task))
    }
}

} // verus!
