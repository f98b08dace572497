use vstd::prelude::*;

use crate::task::{BlockingContext, Context, Task};
use crate::time::TimeContext;

verus! {

/// What a timer callback asks for at the end of an invocation.
#[derive(Clone, Copy, PartialEq, Eq, Debug, Structural)]
pub enum TimerDirective {
    /// No further invocations.
    Stop,
    /// Run again, optionally adopting a new period (in milliseconds)
    /// from the next tick onward; `None` keeps the period unchanged.
    Continue(Option<u64>),
}

/// Context a timer callback runs with: bound to one callback
/// invocation, blocking-capable, with the identity and clock of the
/// timer's own execution unit.
pub struct TimerContext {
    task: Task,
    ticks: u32,
}

impl TimerContext {
    /// The monotonic tick count last reported to this context.
    pub closed spec fn tick_count(&self) -> u32 {
        self.ticks
    }

    /// Enter a context for one callback invocation on the timer unit
    /// with the given descriptor.
    pub fn new(task: Task) -> (cx: TimerContext)
        ensures
            cx.current_task() == task,
            cx.tick_count() == 0,
    {
        TimerContext { task, ticks: 0 }
    }

    /// Report the passage of native time to this context: the tick
    /// counter advances, wrapping at its width as the native counter
    /// does.
    pub fn advance_ticks(&mut self, delta: u32)
        ensures
            final(self).tick_count() == old(self).tick_count().wrapping_add(delta),
            final(self).current_task() == old(self).current_task(),
    {
        self.ticks = self.ticks.wrapping_add(delta);
    }
}

impl Context for TimerContext {
    open spec fn blocking(&self) -> bool {
        true
    }
}

impl BlockingContext for TimerContext {
    closed spec fn current_task(&self) -> Task {
        self.task
    }

    fn task(&self) -> (t: Task) {
        self.task
    }

    proof fn blocking_capability(&self) {
    }
}

impl TimeContext for TimerContext {
    closed spec fn ticks_now(&self) -> u32 {
        self.ticks
    }

    fn get_tick_count(&mut self) -> (t: u32) {
        self.ticks
    }
}

/// One tick of the native timer loop: the callback runs only if no stop
/// has taken effect, and its directive then sets the next period or
/// halts the timer. Yields the new period, the new halted flag, and
/// whether the callback ran this tick.
pub open spec fn timer_tick(period_ms: u64, halted: bool, d: TimerDirective) -> (u64, bool, bool) {
    if halted {
        (period_ms, true, false)
    } else {
        match d {
            TimerDirective::Stop => (period_ms, true, true),
            TimerDirective::Continue(Some(p)) => (p, false, true),
            TimerDirective::Continue(None) => (period_ms, false, true),
        }
    }
}

/// No callback invocation occurs after a stop has taken effect: a
/// halted timer never fires again and never leaves the halted state,
/// through any further ticks.
pub proof fn lemma_no_fire_after_stop(period_ms: u64, d: TimerDirective)
    ensures
        !timer_tick(period_ms, true, d).2,
        timer_tick(period_ms, true, d).1,
        timer_tick(period_ms, true, d).0 == period_ms,
{
}

/// Periodic timer: the callback runs once per elapsed period until the
/// callback requests a stop or an external stop call is made.
///
/// The native layer owns the tick loop: it sleeps for the period, asks
/// [`Timer::should_fire`], runs the callback with a fresh
/// [`TimerContext`] and hands the directive to [`Timer::apply`]. An
/// external [`Timer::stop`] takes effect no later than the next
/// scheduled tick; a race between a stop and a firing tick resolves to
/// at most one further complete invocation, never a partial one.
pub struct Timer {
    period_ms: u64,
    stopped: bool,
}

impl Timer {
    /// The current period between callback invocations, in
    /// milliseconds.
    pub closed spec fn period(&self) -> u64 {
        self.period_ms
    }

    /// Whether a stop has taken effect.
    pub closed spec fn halted(&self) -> bool {
        self.stopped
    }

    /// The current period between callback invocations, in
    /// milliseconds: how long the native loop sleeps before the next
    /// tick.
    pub fn period_ms(&self) -> (p: u64)
        ensures
            p == self.period(),
    {
        self.period_ms
    }

    /// External stop request: no callback invocation after it takes
    /// effect.
    pub fn stop(&mut self)
        ensures
            final(self).halted(),
            final(self).period() == old(self).period(),
    {
        self.stopped = true;
    }

    /// Whether a pending tick may still invoke the callback: checked
    /// immediately after each between-tick wait, so a stop takes effect
    /// no later than the next scheduled tick.
    pub fn should_fire(&self) -> (r: bool)
        ensures
            r == !self.halted(),
    {
        !self.stopped
    }

    /// Apply the directive a callback returned: halt, or continue with
    /// the period optionally changed from the next tick onward. No
    /// invocation happens after a stop took effect, so no directive
    /// arrives on a halted timer.
    pub fn apply(&mut self, d: TimerDirective)
        requires
            !old(self).halted(),
        ensures
            ({
                let step = timer_tick(old(self).period(), old(self).halted(), d);
                &&& final(self).period() == step.0
                &&& final(self).halted() == step.1
                &&& step.2
            }),
    {
        match d {
            TimerDirective::Stop => self.stopped = true,
            TimerDirective::Continue(Some(p)) => self.period_ms = p,
            TimerDirective::Continue(None) => (),
        }
    }
}

/// Timer builder: a period and a name, then start.
pub struct TimerBuilder {
    period_ms: u64,
    name: Option<String>,
}

impl TimerBuilder {
    /// The period the timer will start with.
    pub closed spec fn period(&self) -> u64 {
        self.period_ms
    }

    /// The name set so far, if any.
    pub closed spec fn name_of(&self) -> Option<Seq<char>> {
        match self.name {
            Some(n) => Some(n@),
            None => None,
        }
    }

    /// A builder for a timer with the given period in milliseconds.
    pub fn new(period_ms: u64) -> (b: TimerBuilder)
        ensures
            b.period() == period_ms,
            b.name_of() is None,
    {
        TimerBuilder { period_ms, name: None }
    }

    /// Set the timer's name.
    pub fn name(self, name: &str) -> (b: TimerBuilder)
        ensures
            b.period() == self.period(),
            b.name_of() == Some(name@),
    {
        TimerBuilder { name: Some(name.to_owned()), ..self }
    }

    /// The running timer record the native tick loop drives: not
    /// halted, at the built period.
    pub fn start(self) -> (t: Timer)
        ensures
            t.period() == self.period(),
            !t.halted(),
    {
        Timer { period_ms: self.period_ms, stopped: false }
    }
}

} // verus!
