use ustd::task::{BlockingContext, Task, TaskId};
use ustd::time::TimeContext;
use ustd::timer::{TimerBuilder, TimerContext, TimerDirective};

#[test]
fn builder_starts_running() {
    let timer = TimerBuilder::new(100).name("ticker").start();
    assert!(timer.should_fire());
    assert_eq!(timer.period_ms(), 100);
}

#[test]
fn callback_can_change_the_period() {
    let mut timer = TimerBuilder::new(100).start();
    timer.apply(TimerDirective::Continue(None));
    assert_eq!(timer.period_ms(), 100);
    assert!(timer.should_fire());
    timer.apply(TimerDirective::Continue(Some(25)));
    assert_eq!(timer.period_ms(), 25);
    assert!(timer.should_fire());
}

#[test]
fn callback_can_stop_the_timer() {
    let mut timer = TimerBuilder::new(10).start();
    timer.apply(TimerDirective::Stop);
    assert!(!timer.should_fire());
    assert_eq!(timer.period_ms(), 10);
}

#[test]
fn external_stop_takes_effect_at_the_next_tick() {
    let mut timer = TimerBuilder::new(10).start();
    assert!(timer.should_fire());
    timer.stop();
    // The tick loop checks immediately after waking: no further
    // invocation happens.
    assert!(!timer.should_fire());
    timer.stop();
    assert!(!timer.should_fire());
}

#[test]
fn timer_context_carries_identity_and_clock() {
    let mut cx = TimerContext::new(Task::new(TaskId::new(9), 1));
    assert_eq!(cx.task().id(), TaskId::new(9));
    cx.advance_ticks(5);
    assert_eq!(cx.get_tick_count(), 5);
}
