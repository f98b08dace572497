use vstd::prelude::*;

verus! {

/// The native tick value that stands for "wait forever".
pub const INFINITE_TICKS: u32 = 0xFFFF_FFFF;

/// Convert an optional millisecond bound into native ticks (one tick
/// per millisecond): `None`, meaning forever, maps to the infinite
/// sentinel. A finite bound at or beyond the sentinel cannot be
/// represented by the native layer and is ruled out.
pub fn duration_into_ticks(native: Option<u64>) -> (t: u32)
    requires
        native matches Some(ms) ==> ms < INFINITE_TICKS as u64,
    ensures
        t == match native {
            Some(ms) => ms as u32,
            None => INFINITE_TICKS,
        },
        native is None <==> t == INFINITE_TICKS,
{
    match native {
        Some(ms) => ms as u32,
        None => INFINITE_TICKS,
    }
}

/// Convert native ticks back into an optional millisecond bound: the
/// infinite sentinel maps to `None`.
pub fn duration_from_ticks(ticks: u32) -> (r: Option<u64>)
    ensures
        r == if ticks < INFINITE_TICKS {
            Some(ticks as u64)
        } else {
            None::<u64>
        },
{
    if ticks < INFINITE_TICKS {
        Some(ticks as u64)
    } else {
        None
    }
}

/// Monotonic tick source. Available from Task and Timer contexts; not
/// guaranteed from Interrupt context, which does not implement it.
pub trait TimeContext: Sized {
    /// The tick count the native clock has reached for this context.
    spec fn ticks_now(&self) -> u32;

    /// Read the native tick counter.
    fn get_tick_count(&mut self) -> (t: u32)
        ensures
            t == old(self).ticks_now(),
            *final(self) == *old(self),
    ;
}

/// A point in tick time, captured from a context's clock.
pub struct Instant {
    start: u32,
}

impl Instant {
    /// The tick count at which this instant was captured.
    pub closed spec fn start_ticks(&self) -> u32 {
        self.start
    }

    /// Capture the current tick count.
    pub fn now<C: TimeContext>(cx: &mut C) -> (i: Instant)
        ensures
            i.start_ticks() == old(cx).ticks_now(),
            *final(cx) == *old(cx),
    {
        Instant { start: cx.get_tick_count() }
    }

    /// Milliseconds since this instant, by wrapping tick arithmetic. A
    /// lapse that reaches the infinite sentinel is not representable
    /// and is ruled out.
    pub fn elapsed<C: TimeContext>(&self, cx: &mut C) -> (ms: u64)
        requires
            old(cx).ticks_now().wrapping_sub(self.start_ticks()) != INFINITE_TICKS,
        ensures
            ms == old(cx).ticks_now().wrapping_sub(self.start_ticks()) as u64,
            *final(cx) == *old(cx),
    {
        let now = cx.get_tick_count();
        let ticks = now.wrapping_sub(self.start);
        match duration_from_ticks(ticks) {
            Some(ms) => ms,
            None => {
                proof {
                    assert(false);
                }
                0
            },
        }
    }
}

/// Whether a bound of `timeout_ms` has elapsed after waiting
/// `elapsed_ms`; `None` waits forever and never elapses.
pub open spec fn bound_elapsed_spec(timeout_ms: Option<u64>, elapsed_ms: u64) -> bool {
    match timeout_ms {
        Some(t) => elapsed_ms >= t,
        None => false,
    }
}

/// Whether a bound has elapsed. Feeds the `timed_out` argument of the
/// polling calls of bounded waits.
pub fn bound_elapsed(timeout_ms: Option<u64>, elapsed_ms: u64) -> (r: bool)
    ensures
        r == bound_elapsed_spec(timeout_ms, elapsed_ms),
{
    match timeout_ms {
        Some(t) => elapsed_ms >= t,
        None => false,
    }
}

/// How much of a bound is left after `elapsed_ms`, saturating at zero;
/// a forever bound stays forever.
pub fn remaining_bound(timeout_ms: Option<u64>, elapsed_ms: u64) -> (r: Option<u64>)
    ensures
        r == match timeout_ms {
            Some(t) => Some(
                if elapsed_ms >= t {
                    0u64
                } else {
                    (t - elapsed_ms) as u64
                },
            ),
            None => None::<u64>,
        },
        (r == Some(0u64)) <==> bound_elapsed_spec(timeout_ms, elapsed_ms),
{
    match timeout_ms {
        Some(t) => if elapsed_ms >= t {
            Some(0)
        } else {
            Some(t - elapsed_ms)
        },
        None => None,
    }
}

/// A bounded wait can report a timeout only once at least its full
/// bound has elapsed — never earlier — and a wait without a bound never
/// times out at all.
pub proof fn lemma_timeout_lower_bound(timeout_ms: Option<u64>, elapsed_ms: u64)
    ensures
        bound_elapsed_spec(timeout_ms, elapsed_ms) ==> (timeout_ms matches Some(t) && elapsed_ms
            >= t),
        (timeout_ms matches Some(t) && elapsed_ms < t) ==> !bound_elapsed_spec(
            timeout_ms,
            elapsed_ms,
        ),
        timeout_ms is None ==> !bound_elapsed_spec(timeout_ms, elapsed_ms),
{
}

} // verus!
