use vstd::prelude::*;

use crate::Priority;
use crate::error::Error;
use crate::task::{BlockingContext, Context, TaskContext, TaskId};

verus! {

use vstd::multiset::Multiset;

/// Binary-semaphore state.
#[derive(Clone, Copy, PartialEq, Eq, Debug, Structural)]
pub enum SemState {
    /// Empty: the next acquire blocks or fails.
    Down,
    /// Given: exactly one pending signal, no waiters.
    Up,
    /// A release selected this waiter; the signal is reserved for it
    /// until it wakes and claims it. At most one waiter is ever in this
    /// transitional state.
    Wake(TaskId),
}

/// One task registered in a semaphore's wait set.
#[derive(Clone, Copy, PartialEq, Eq, Debug, Structural)]
pub struct Waiter {
    pub id: TaskId,
    pub priority: Priority,
}

/// What a release did.
#[derive(Clone, Copy, PartialEq, Eq, Debug, Structural)]
pub enum GiveOutcome {
    /// The signal was already pending: failure, nothing changed.
    AlreadyGiven,
    /// No waiters: the state rose to Up.
    Raised,
    /// The signal resolved directly to waking this waiter.
    Woken(Waiter),
}

/// Outcome of one round of a suspended acquirer's wake-up loop.
#[derive(Clone, Copy, PartialEq, Eq, Debug, Structural)]
pub enum TakePoll {
    /// This caller was the selected waiter: the acquire succeeds.
    Acquired,
    /// The bound elapsed unselected: the caller left the wait set and
    /// the acquire fails.
    TimedOut,
    /// Not selected yet: the caller suspends again.
    Waiting,
}

/// Whether `id` is registered in the wait set `q`.
pub open spec fn queued(q: Seq<Waiter>, id: TaskId) -> bool {
    exists|i: int| 0 <= i < q.len() && q[i].id == id
}

/// Wait sets register each task at most once.
pub open spec fn unique_ids(q: Seq<Waiter>) -> bool {
    forall|i: int, j: int| 0 <= i < j < q.len() ==> q[i].id != q[j].id
}

/// The position of `id` in `q` (meaningful when `queued` and ids are
/// unique).
pub open spec fn id_index(q: Seq<Waiter>, id: TaskId) -> int {
    choose|i: int| 0 <= i < q.len() && q[i].id == id
}

/// No two waiters share a priority.
pub open spec fn distinct_priorities(q: Seq<Waiter>) -> bool {
    forall|i: int, j: int| 0 <= i < j < q.len() ==> q[i].priority != q[j].priority
}

/// The structural invariant of a semaphore: every task is registered at
/// most once; a pending signal (Up) coexists with no waiters; a
/// selected waiter has already left the wait set.
pub open spec fn sem_wf(v: SemState, q: Seq<Waiter>) -> bool {
    &&& unique_ids(q)
    &&& (v is Up ==> q.len() == 0)
    &&& (v matches SemState::Wake(id) ==> !queued(q, id))
}

/// The index a release selects from a non-empty wait set: the
/// earliest-registered waiter of maximal priority.
pub open spec fn wake_index(q: Seq<Waiter>) -> int
    decreases q.len(),
{
    if q.len() <= 1 {
        0
    } else {
        let rest = wake_index(q.drop_first()) + 1;
        if q[0].priority >= q[rest].priority {
            0
        } else {
            rest
        }
    }
}

/// What it means for `k` to be the selected index of `q`: every waiter
/// has priority at most `q[k]`'s, and every earlier waiter strictly
/// less — the deterministic tie-break in favour of the earliest
/// registered.
pub open spec fn is_wake_index(q: Seq<Waiter>, k: int) -> bool {
    &&& 0 <= k < q.len()
    &&& forall|j: int| 0 <= j < q.len() ==> q[j].priority <= q[k].priority
    &&& forall|j: int| 0 <= j < k ==> q[j].priority < q[k].priority
}

/// `wake_index` selects a highest-priority waiter, earliest first.
pub proof fn lemma_wake_index_is_selected(q: Seq<Waiter>)
    requires
        q.len() > 0,
    ensures
        is_wake_index(q, wake_index(q)),
    decreases q.len(),
{
    if q.len() > 1 {
        let rest = q.drop_first();
        lemma_wake_index_is_selected(rest);
        let r = wake_index(rest) + 1;
        assert(forall|j: int| 1 <= j < q.len() ==> q[j] == rest[j - 1]);
        if q[0].priority >= q[r].priority {
            assert forall|j: int| 0 <= j < q.len() implies #[trigger] q[j].priority <= q[0].priority by {
                if j >= 1 {
                    assert(rest[j - 1].priority <= rest[r - 1].priority);
                }
            }
        } else {
            assert forall|j: int| 0 <= j < q.len() implies #[trigger] q[j].priority <= q[r].priority by {
                if j >= 1 {
                    assert(rest[j - 1].priority <= rest[r - 1].priority);
                }
            }
            assert forall|j: int| 0 <= j < r implies #[trigger] q[j].priority < q[r].priority by {
                if j >= 1 {
                    assert(rest[j - 1].priority < rest[r - 1].priority);
                }
            }
        }
    }
}

/// The selected index is unique: the two defining conditions pin it.
pub proof fn lemma_wake_index_unique(q: Seq<Waiter>, k1: int, k2: int)
    requires
        is_wake_index(q, k1),
        is_wake_index(q, k2),
    ensures
        k1 == k2,
{
    if k1 < k2 {
        assert(q[k1].priority < q[k2].priority);
        assert(q[k2].priority <= q[k1].priority);
    }
    if k2 < k1 {
        assert(q[k2].priority < q[k1].priority);
        assert(q[k1].priority <= q[k2].priority);
    }
}

/// The release transition: fails unless Down; with waiters, the signal
/// resolves directly to the selected waiter; otherwise the state rises
/// to Up.
pub open spec fn sem_give(v: SemState, q: Seq<Waiter>) -> (SemState, Seq<Waiter>, GiveOutcome) {
    if !(v is Down) {
        (v, q, GiveOutcome::AlreadyGiven)
    } else if q.len() == 0 {
        (SemState::Up, q, GiveOutcome::Raised)
    } else {
        let k = wake_index(q);
        (SemState::Wake(q[k].id), q.remove(k), GiveOutcome::Woken(q[k]))
    }
}

/// The non-blocking acquire transition: consumes a pending signal,
/// fails otherwise.
pub open spec fn sem_try_take(v: SemState) -> (SemState, bool) {
    if v is Up {
        (SemState::Down, true)
    } else {
        (v, false)
    }
}

/// The first half of a blocking acquire: consume a pending signal at
/// once, or register the caller in the wait set.
pub open spec fn sem_take_start(v: SemState, q: Seq<Waiter>, w: Waiter) -> (
    SemState,
    Seq<Waiter>,
    bool,
) {
    if v is Up {
        (SemState::Down, q, true)
    } else {
        (v, q.push(w), false)
    }
}

/// One round of the suspended acquirer's loop: claim the signal if this
/// caller was the one selected (rejecting stale or duplicate wakes);
/// otherwise, once the bound has elapsed, leave the wait set and fail;
/// otherwise keep waiting.
pub open spec fn sem_take_poll(v: SemState, q: Seq<Waiter>, id: TaskId, timed_out: bool) -> (
    SemState,
    Seq<Waiter>,
    TakePoll,
) {
    if v == SemState::Wake(id) {
        (SemState::Down, q, TakePoll::Acquired)
    } else if timed_out {
        (v, q.remove(id_index(q, id)), TakePoll::TimedOut)
    } else {
        (v, q, TakePoll::Waiting)
    }
}

/// Binary semaphore with priority-ordered wake selection.
///
/// The executable methods are the transitions of the state machine; the
/// native layer runs them under the instance's internal lock and
/// performs the suspensions and wake-ups they call for.
pub struct Semaphore {
    value: SemState,
    queue: Vec<Waiter>,
}

impl Semaphore {
    /// Live semaphores always satisfy the structural invariant.
    #[verifier::type_invariant]
    spec fn wf(&self) -> bool {
        sem_wf(self.value, self.queue@)
    }

    /// The current binary state.
    pub closed spec fn state(&self) -> SemState {
        self.value
    }

    /// The wait set, in registration order.
    pub closed spec fn waiters(&self) -> Seq<Waiter> {
        self.queue@
    }

    /// Whether `id` is registered in the wait set.
    pub open spec fn has_waiter(&self, id: TaskId) -> bool {
        queued(self.waiters(), id)
    }

    /// Whether `id` is still inside a blocking acquire: registered, or
    /// already selected and about to wake.
    pub open spec fn awaited_by(&self, id: TaskId) -> bool {
        self.has_waiter(id) || self.state() == SemState::Wake(id)
    }

    /// Every live semaphore satisfies the structural invariant
    /// [`sem_wf`]: a semaphore that is Up has no waiters, a selected
    /// waiter is no longer registered, and no task is registered twice.
    pub fn observe_invariant(&self)
        ensures
            sem_wf(self.state(), self.waiters()),
    {
        proof {
            use_type_invariant(self);
        }
    }

    /// Create a semaphore in the empty (Down) state.
    pub fn new() -> (r: Result<Semaphore, Error>)
        ensures
            r matches Ok(s) && s.state() is Down && s.waiters() =~= Seq::<Waiter>::empty(),
    {
        Ok(Semaphore { value: SemState::Down, queue: Vec::new() })
    }

    /// A semaphore in a chosen binary state with an empty wait set.
    pub(crate) fn with_state(value: SemState) -> (s: Semaphore)
        requires
            !(value is Wake),
        ensures
            s.state() == value,
            s.waiters() =~= Seq::<Waiter>::empty(),
    {
        Semaphore { value, queue: Vec::new() }
    }

    /// Whether `id` is currently registered in the wait set.
    pub fn contains_waiter(&self, id: TaskId) -> (r: bool)
        ensures
            r == self.has_waiter(id),
    {
        let n = self.queue.len();
        let mut i: usize = 0;
        while i < n
            invariant
                0 <= i <= n,
                n == self.queue@.len(),
                forall|j: int| 0 <= j < i ==> self.queue@[j].id != id,
            decreases n - i,
        {
            if self.queue[i].id == id {
                return true;
            }
            i += 1;
        }
        false
    }

    /// The earliest-registered waiter of maximal priority.
    fn select_wake_index(queue: &Vec<Waiter>) -> (k: usize)
        requires
            queue@.len() > 0,
        ensures
            k == wake_index(queue@),
            is_wake_index(queue@, k as int),
    {
        let n = queue.len();
        let mut best: usize = 0;
        let mut i: usize = 1;
        while i < n
            invariant
                n == queue@.len(),
                0 < n,
                0 <= best < i <= n,
                is_wake_index(queue@.subrange(0, i as int), best as int),
            decreases n - i,
        {
            proof {
                assert(forall|j: int|
                    0 <= j <= i ==> queue@.subrange(0, i as int + 1)[j] == queue@[j]);
            }
            if queue[i].priority > queue[best].priority {
                best = i;
            }
            i += 1;
        }
        proof {
            assert(queue@.subrange(0, n as int) =~= queue@);
            lemma_wake_index_is_selected(queue@);
            lemma_wake_index_unique(queue@, best as int, wake_index(queue@));
        }
        best
    }

    /// Non-blocking release, reporting its full effect: failure when
    /// the signal is already pending; otherwise, with waiters present,
    /// the signal goes directly to the highest-priority waiter (ties to
    /// the earliest registered), who is to be woken; otherwise the
    /// state rises to Up. The context argument is the caller's
    /// capability token; the native layer routes the call through the
    /// entry point matching its kind (task or interrupt).
    pub fn give<C: Context>(&mut self, _cx: &C) -> (r: GiveOutcome)
        ensures
            ({
                let step = sem_give(old(self).state(), old(self).waiters());
                &&& final(self).state() == step.0
                &&& final(self).waiters() == step.1
                &&& r == step.2
            }),
    {
        proof {
            use_type_invariant(&*self);
        }
        match self.value {
            SemState::Down => {
                if self.queue.len() == 0 {
                    self.value = SemState::Up;
                    GiveOutcome::Raised
                } else {
                    let k = Self::select_wake_index(&self.queue);
                    let ghost q0 = self.queue@;
                    let mut q: Vec<Waiter> = Vec::new();
                    std::mem::swap(&mut q, &mut self.queue);
                    let w = q.remove(k);
                    proof {
                        lemma_remove_keeps_unique(q0, k as int);
                        lemma_removed_not_queued(q0, k as int);
                    }
                    self.queue = q;
                    self.value = SemState::Wake(w.id);
                    GiveOutcome::Woken(w)
                }
            },
            _ => GiveOutcome::AlreadyGiven,
        }
    }

    /// Non-blocking release: `true` on success, `false` when the signal
    /// was already pending.
    pub fn try_give<C: Context>(&mut self, cx: &C) -> (r: bool)
        ensures
            r <==> old(self).state() is Down,
            ({
                let step = sem_give(old(self).state(), old(self).waiters());
                final(self).state() == step.0 && final(self).waiters() == step.1
            }),
    {
        match self.give(cx) {
            GiveOutcome::AlreadyGiven => false,
            _ => true,
        }
    }

    /// Non-blocking acquire: `true` on success, `false` when the signal
    /// is not pending.
    pub fn try_take<C: Context>(&mut self, _cx: &C) -> (r: bool)
        ensures
            r <==> old(self).state() is Up,
            ({
                let step = sem_try_take(old(self).state());
                final(self).state() == step.0 && r == step.1
            }),
            final(self).waiters() == old(self).waiters(),
    {
        proof {
            use_type_invariant(&*self);
        }
        match self.value {
            SemState::Up => {
                self.value = SemState::Down;
                true
            },
            _ => false,
        }
    }

    /// First half of a blocking acquire, requiring a blocking-capable
    /// context: consume a pending signal at once (`true`), or register
    /// the caller — identity plus priority — in the wait set (`false`),
    /// after which the caller suspends and drives [`Self::take_poll`]
    /// at every wake-up.
    pub fn take_start<C: BlockingContext>(&mut self, cx: &C) -> (r: bool)
        requires
            !old(self).awaited_by(cx.current_task().id),
        ensures
            ({
                let w = Waiter {
                    id: cx.current_task().id,
                    priority: cx.current_task().priority,
                };
                let step = sem_take_start(old(self).state(), old(self).waiters(), w);
                &&& final(self).state() == step.0
                &&& final(self).waiters() == step.1
                &&& r == step.2
            }),
            r <==> old(self).state() is Up,
            !r ==> final(self).awaited_by(cx.current_task().id),
    {
        proof {
            use_type_invariant(&*self);
        }
        match self.value {
            SemState::Up => {
                self.value = SemState::Down;
                true
            },
            _ => {
                let t = cx.task();
                let w = Waiter { id: t.id, priority: t.priority };
                let mut q: Vec<Waiter> = Vec::new();
                std::mem::swap(&mut q, &mut self.queue);
                q.push(w);
                self.queue = q;
                proof {
                    assert(self.queue@[self.queue@.len() - 1].id == t.id);
                }
                false
            },
        }
    }

    /// One round of the suspended acquirer's wake-up loop. `timed_out`
    /// says whether the caller's bound has already elapsed. Claiming
    /// the signal wins even over an elapsed bound; a timed-out caller
    /// removes itself from the wait set; otherwise it suspends again.
    /// On both final outcomes the caller is guaranteed to have left the
    /// wait set.
    pub fn take_poll<C: BlockingContext>(&mut self, cx: &C, timed_out: bool) -> (r: TakePoll)
        requires
            old(self).awaited_by(cx.current_task().id),
        ensures
            ({
                let step = sem_take_poll(
                    old(self).state(),
                    old(self).waiters(),
                    cx.current_task().id,
                    timed_out,
                );
                &&& final(self).state() == step.0
                &&& final(self).waiters() == step.1
                &&& r == step.2
            }),
            r is Acquired <==> old(self).state() == SemState::Wake(cx.current_task().id),
            !(r is Waiting) ==> !final(self).awaited_by(cx.current_task().id),
            r is Waiting ==> *final(self) == *old(self) && !timed_out,
    {
        proof {
            use_type_invariant(&*self);
        }
        let t = cx.task();
        let selected = match self.value {
            SemState::Wake(id) => id == t.id,
            _ => false,
        };
        if selected {
            self.value = SemState::Down;
            TakePoll::Acquired
        } else if timed_out {
            let k = self.find_waiter(t.id);
            let ghost q0 = self.queue@;
            let mut q: Vec<Waiter> = Vec::new();
            std::mem::swap(&mut q, &mut self.queue);
            let _w = q.remove(k);
            proof {
                lemma_remove_keeps_unique(q0, k as int);
                lemma_removed_not_queued(q0, k as int);
                assert(q0[id_index(q0, t.id)].id == t.id);
                assert(id_index(q0, t.id) == k as int);
                if old(self).value is Wake {
                    let other = old(self).value->Wake_0;
                    assert(!queued(q0, other));
                    assert(!queued(q@, other)) by {
                        lemma_remove_keeps_not_queued(q0, k as int, other);
                    }
                }
            }
            self.queue = q;
            TakePoll::TimedOut
        } else {
            TakePoll::Waiting
        }
    }

    /// The position of `id` in the wait set.
    fn find_waiter(&self, id: TaskId) -> (k: usize)
        requires
            self.has_waiter(id),
            unique_ids(self.waiters()),
        ensures
            k < self.waiters().len(),
            self.waiters()[k as int].id == id,
            k as int == id_index(self.waiters(), id),
    {
        let n = self.queue.len();
        let mut i: usize = 0;
        while i < n
            invariant
                0 <= i <= n,
                n == self.queue@.len(),
                queued(self.queue@, id),
                unique_ids(self.queue@),
                forall|j: int| 0 <= j < i ==> self.queue@[j].id != id,
            decreases n - i,
        {
            if self.queue[i].id == id {
                proof {
                    let w = id_index(self.queue@, id);
                    assert(0 <= w < self.queue@.len() && self.queue@[w].id == id);
                }
                return i;
            }
            i += 1;
        }
        proof {
            assert(false);
        }
        0
    }
}

/// Removing an entry keeps the remaining ids unique.
proof fn lemma_remove_keeps_unique(q: Seq<Waiter>, k: int)
    requires
        unique_ids(q),
        0 <= k < q.len(),
    ensures
        unique_ids(q.remove(k)),
{
    let r = q.remove(k);
    assert forall|i: int, j: int| 0 <= i < j < r.len() implies r[i].id != r[j].id by {
        let i0 = if i < k {
            i
        } else {
            i + 1
        };
        let j0 = if j < k {
            j
        } else {
            j + 1
        };
        assert(r[i] == q[i0] && r[j] == q[j0]);
    }
}

/// After removing the only entry with its id, that id is gone.
proof fn lemma_removed_not_queued(q: Seq<Waiter>, k: int)
    requires
        unique_ids(q),
        0 <= k < q.len(),
    ensures
        !queued(q.remove(k), q[k].id),
{
    let r = q.remove(k);
    assert forall|i: int| 0 <= i < r.len() implies r[i].id != q[k].id by {
        let i0 = if i < k {
            i
        } else {
            i + 1
        };
        assert(r[i] == q[i0]);
    }
}

/// Removing one entry cannot introduce an id.
proof fn lemma_remove_keeps_not_queued(q: Seq<Waiter>, k: int, id: TaskId)
    requires
        0 <= k < q.len(),
        !queued(q, id),
    ensures
        !queued(q.remove(k), id),
{
    let r = q.remove(k);
    assert forall|i: int| 0 <= i < r.len() implies r[i].id != id by {
        let i0 = if i < k {
            i
        } else {
            i + 1
        };
        assert(r[i] == q[i0]);
    }
}

/// One call in a semaphore history.
#[derive(Clone, Copy, PartialEq, Eq, Debug, Structural)]
pub enum SemOp {
    /// Non-blocking release.
    Give,
    /// Non-blocking acquire.
    TryTake,
    /// First half of a blocking acquire by this waiter.
    TakeStart(Waiter),
    /// One wake-up round of a suspended acquirer: its identity and
    /// whether its bound has elapsed.
    TakePoll(TaskId, bool),
}

/// Effect of one call on a semaphore, with how many successful acquires
/// and releases it contributes. Calls that violate their caller
/// obligations (starting a wait while already waiting, polling while
/// not waiting) are skipped.
pub open spec fn sem_step(v: SemState, q: Seq<Waiter>, op: SemOp) -> (
    SemState,
    Seq<Waiter>,
    int,
    int,
) {
    match op {
        SemOp::Give => {
            let r = sem_give(v, q);
            (
                r.0,
                r.1,
                0int,
                if r.2 is AlreadyGiven {
                    0int
                } else {
                    1int
                },
            )
        },
        SemOp::TryTake => {
            let r = sem_try_take(v);
            (
                r.0,
                q,
                if r.1 {
                    1int
                } else {
                    0int
                },
                0int,
            )
        },
        SemOp::TakeStart(w) => {
            if queued(q, w.id) || v == SemState::Wake(w.id) {
                (v, q, 0int, 0int)
            } else {
                let r = sem_take_start(v, q, w);
                (
                    r.0,
                    r.1,
                    if r.2 {
                        1int
                    } else {
                        0int
                    },
                    0int,
                )
            }
        },
        SemOp::TakePoll(id, timed_out) => {
            if queued(q, id) || v == SemState::Wake(id) {
                let r = sem_take_poll(v, q, id, timed_out);
                (
                    r.0,
                    r.1,
                    if r.2 is Acquired {
                        1int
                    } else {
                        0int
                    },
                    0int,
                )
            } else {
                (v, q, 0int, 0int)
            }
        },
    }
}

/// A semaphore history: the state and wait set after a sequence of
/// calls on a fresh (Down, empty wait set) semaphore, with the running
/// totals of successful acquires and successful releases.
pub open spec fn sem_run(ops: Seq<SemOp>) -> (SemState, Seq<Waiter>, int, int)
    decreases ops.len(),
{
    if ops.len() == 0 {
        (SemState::Down, Seq::empty(), 0int, 0int)
    } else {
        let prev = sem_run(ops.drop_last());
        let s = sem_step(prev.0, prev.1, ops.last());
        (s.0, s.1, prev.2 + s.2, prev.3 + s.3)
    }
}

/// How many acquires the current state still owes: one while a signal
/// is pending or reserved for a selected waiter, none while Down.
pub open spec fn pending(v: SemState) -> int {
    if v is Down {
        0int
    } else {
        1int
    }
}

/// Signal conservation: over any history of a fresh semaphore, the
/// successful releases exceed the successful acquires by exactly the
/// signal still pending. In particular the count of successful acquires
/// never exceeds the count of successful releases.
pub proof fn lemma_signal_conservation(ops: Seq<SemOp>)
    ensures
        ({
            let r = sem_run(ops);
            &&& r.3 == r.2 + pending(r.0)
            &&& r.2 <= r.3
        }),
    decreases ops.len(),
{
    if ops.len() > 0 {
        lemma_signal_conservation(ops.drop_last());
    }
}

/// A release observed while the signal is already pending never
/// succeeds: when the next call of a history is a release in state Up,
/// the count of successful releases does not move.
pub proof fn lemma_no_release_while_up(ops: Seq<SemOp>, i: int)
    requires
        0 <= i < ops.len(),
        ops[i] is Give,
        sem_run(ops.take(i)).0 is Up,
    ensures
        sem_run(ops.take(i + 1)).3 == sem_run(ops.take(i)).3,
{
    assert(ops.take(i + 1).drop_last() =~= ops.take(i));
    assert(ops.take(i + 1).last() == ops[i]);
}

/// A release with waiters present wakes the highest-priority waiter,
/// ties going to the earliest registered — the defining property that
/// distinguishes this primitive from a naive signal.
pub proof fn lemma_release_wakes_highest(v: SemState, q: Seq<Waiter>)
    requires
        v is Down,
        q.len() > 0,
    ensures
        sem_give(v, q).2 == GiveOutcome::Woken(q[wake_index(q)]),
        is_wake_index(q, wake_index(q)),
{
    lemma_wake_index_is_selected(q);
}

/// The order in which repeated releases drain a wait set, each selected
/// waiter claiming its signal before the next release arrives: the
/// selected waiter first, then the drain of the remainder.
pub open spec fn wake_sequence(q: Seq<Waiter>) -> Seq<Waiter>
    decreases q.len(),
    via wake_sequence_decreases
{
    if q.len() == 0 {
        Seq::empty()
    } else {
        seq![q[wake_index(q)]] + wake_sequence(q.remove(wake_index(q)))
    }
}

#[via_fn]
proof fn wake_sequence_decreases(q: Seq<Waiter>) {
    if q.len() > 0 {
        lemma_wake_index_is_selected(q);
    }
}

/// Removing a waiter keeps the remaining priorities distinct.
proof fn lemma_remove_keeps_distinct(q: Seq<Waiter>, k: int)
    requires
        distinct_priorities(q),
        0 <= k < q.len(),
    ensures
        distinct_priorities(q.remove(k)),
{
    let r = q.remove(k);
    assert forall|i: int, j: int| 0 <= i < j < r.len() implies r[i].priority != r[j].priority by {
        let i0 = if i < k {
            i
        } else {
            i + 1
        };
        let j0 = if j < k {
            j
        } else {
            j + 1
        };
        assert(r[i] == q[i0] && r[j] == q[j0]);
    }
}

/// Every waiter the drain wakes comes from the wait set.
proof fn lemma_wake_sequence_members(q: Seq<Waiter>)
    ensures
        forall|i: int| 0 <= i < wake_sequence(q).len() ==> q.contains(#[trigger] wake_sequence(q)[i]),
    decreases q.len(),
{
    if q.len() > 0 {
        let k = wake_index(q);
        lemma_wake_index_is_selected(q);
        let q2 = q.remove(k);
        lemma_wake_sequence_members(q2);
        let ws = wake_sequence(q);
        assert forall|i: int| 0 <= i < ws.len() implies q.contains(ws[i]) by {
            if i == 0 {
                assert(ws[0] == q[k]);
            } else {
                assert(ws[i] == wake_sequence(q2)[i - 1]);
                assert(q2.contains(ws[i]));
                let w = choose|n: int| 0 <= n < q2.len() && q2[n] == ws[i];
                let w0 = if w < k {
                    w
                } else {
                    w + 1
                };
                assert(q[w0] == q2[w]);
            }
        }
    }
}

/// Draining a wait set by repeated releases wakes exactly the
/// registered waiters — the same length, nothing lost or duplicated —
/// in non-increasing priority order, strictly decreasing when the
/// priorities are distinct.
pub proof fn lemma_wake_sequence_drains_by_priority(q: Seq<Waiter>)
    ensures
        wake_sequence(q).len() == q.len(),
        wake_sequence(q).to_multiset() == q.to_multiset(),
        forall|i: int, j: int| 0 <= i < j < q.len() ==> wake_sequence(q)[i].priority
            >= wake_sequence(q)[j].priority,
        distinct_priorities(q) ==> (forall|i: int, j: int| 0 <= i < j < q.len()
            ==> wake_sequence(q)[i].priority > wake_sequence(q)[j].priority),
    decreases q.len(),
{
    broadcast use vstd::seq_lib::group_to_multiset_ensures;
    broadcast use vstd::multiset::group_multiset_axioms;

    let ws = wake_sequence(q);
    if q.len() == 0 {
        assert(ws.to_multiset() =~= q.to_multiset()) by {
            vstd::multiset::lemma_multiset_empty_len(q.to_multiset());
        }
    } else {
        let k = wake_index(q);
        lemma_wake_index_is_selected(q);
        let q2 = q.remove(k);
        let ws2 = wake_sequence(q2);
        if distinct_priorities(q) {
            lemma_remove_keeps_distinct(q, k);
        }
        lemma_wake_sequence_drains_by_priority(q2);
        lemma_wake_sequence_members(q2);

        assert(ws == seq![q[k]] + ws2);
        assert(ws.len() == q.len());

        assert(ws.to_multiset() =~= q.to_multiset()) by {
            vstd::seq_lib::lemma_multiset_commutative(seq![q[k]], ws2);
            assert(seq![q[k]] =~= Seq::<Waiter>::empty().push(q[k]));
            assert(Seq::<Waiter>::empty().to_multiset() =~= Multiset::<Waiter>::empty()) by {
                vstd::multiset::lemma_multiset_empty_len(
                    Seq::<Waiter>::empty().to_multiset(),
                );
            }
            assert(seq![q[k]].to_multiset() =~= Multiset::<Waiter>::empty().insert(q[k]));
            assert(q2.to_multiset() =~= q.to_multiset().remove(q[k]));
            assert(q.contains(q[k]));
            assert(q.to_multiset().count(q[k]) > 0);
        }

        assert forall|i: int, j: int| 0 <= i < j < q.len() implies ws[i].priority
            >= ws[j].priority by {
            if i == 0 {
                assert(ws[j] == ws2[j - 1]);
                assert(q2.contains(ws2[j - 1]));
                let n = choose|n: int| 0 <= n < q2.len() && q2[n] == ws2[j - 1];
                let n0 = if n < k {
                    n
                } else {
                    n + 1
                };
                assert(q[n0] == q2[n]);
                assert(q[n0].priority <= q[k].priority);
            } else {
                assert(ws[i] == ws2[i - 1] && ws[j] == ws2[j - 1]);
            }
        }

        if distinct_priorities(q) {
            assert forall|i: int, j: int| 0 <= i < j < q.len() implies ws[i].priority
                > ws[j].priority by {
                if i == 0 {
                    assert(ws[j] == ws2[j - 1]);
                    assert(q2.contains(ws2[j - 1]));
                    let n = choose|n: int| 0 <= n < q2.len() && q2[n] == ws2[j - 1];
                    let n0 = if n < k {
                        n
                    } else {
                        n + 1
                    };
                    assert(q[n0] == q2[n]);
                    assert(q[n0].priority <= q[k].priority);
                    if n0 < k {
                        assert(q[n0].priority != q[k].priority);
                    } else {
                        assert(k < n0);
                        assert(q[k].priority != q[n0].priority);
                    }
                } else {
                    assert(ws[i] == ws2[i - 1] && ws[j] == ws2[j - 1]);
                }
            }
        }
    }
}

/// Of two releases racing on a Down semaphore, exactly one succeeds;
/// of two acquires racing on an Up semaphore, exactly one succeeds.
/// Each pair serialises under the instance lock, so the race is the two
/// orders of the same two steps.
pub proof fn lemma_exactly_one_wins(v: SemState, q: Seq<Waiter>)
    ensures
        v is Down ==> ({
            let first = sem_give(v, q);
            let second = sem_give(first.0, first.1);
            !(first.2 is AlreadyGiven) && second.2 is AlreadyGiven
        }),
        v is Up ==> ({
            let first = sem_try_take(v);
            let second = sem_try_take(first.0);
            first.1 && !second.1
        }),
{
}

/// A bounded acquire whose bound is zero agrees with the non-blocking
/// acquire: it succeeds exactly when the signal is pending, and on
/// failure — starting the wait and timing out at once — it leaves the
/// semaphore exactly as it found it.
pub proof fn lemma_zero_timeout_degenerates(v: SemState, q: Seq<Waiter>, w: Waiter)
    requires
        sem_wf(v, q),
        !queued(q, w.id),
        v != SemState::Wake(w.id),
    ensures
        sem_take_start(v, q, w).2 == sem_try_take(v).1,
        sem_take_start(v, q, w).2 ==> sem_take_start(v, q, w).0 == sem_try_take(v).0
            && sem_take_start(v, q, w).1 == q,
        !sem_take_start(v, q, w).2 ==> ({
            let started = sem_take_start(v, q, w);
            let polled = sem_take_poll(started.0, started.1, w.id, true);
            &&& polled.2 is TimedOut
            &&& polled.0 == v
            &&& polled.1 =~= q
        }),
{
    if !(v is Up) {
        let q1 = q.push(w);
        assert(q1[q.len() as int].id == w.id);
        let k = id_index(q1, w.id);
        assert(0 <= k < q1.len() && q1[k].id == w.id);
        if k < q.len() {
            assert(q[k] == q1[k]);
            assert(queued(q, w.id));
        }
        assert(k == q.len() as int);
        assert(q1.remove(q.len() as int) =~= q);
    }
}

/// Outcome of one round of a suspended locker's wake-up loop.
pub enum LockPoll<T> {
    /// This caller was the selected waiter: it now holds the guard.
    Locked(MutexGuard<T>),
    /// The bound elapsed unselected: the caller left the inner semaphore's wait
    /// set. Reported as a distinct condition — the guard's presence is
    /// the success signal, so a failed lock gets its own channel.
    TimedOut,
    /// Not selected yet: the caller suspends again.
    Waiting,
}

/// Exclusive access to the value guarded by a [`Mutex`].
///
/// The guard owns the value while it is out; handing the guard back
/// through [`Mutex::unlock`] is the only way to reopen the inner semaphore, so
/// exactly one guard can be live per mutex at any instant.
pub struct MutexGuard<T> {
    value: T,
}

impl<T> MutexGuard<T> {
    /// The guarded value.
    pub closed spec fn value_of(&self) -> T {
        self.value
    }

    /// Read the guarded value.
    pub fn get(&self) -> (r: &T)
        ensures
            *r == self.value_of(),
    {
        &self.value
    }

    /// Write access to the guarded value.
    pub fn get_mut(&mut self) -> (r: &mut T)
        ensures
            *r == old(self).value_of(),
            final(self).value_of() == *final(r),
    {
        &mut self.value
    }

    /// Surrender the value (used when the inner semaphore reopens).
    fn into_inner(self) -> (v: T)
        ensures
            v == self.value_of(),
    {
        self.value
    }
}

/// Mutual exclusion composed from one binary semaphore — the inner semaphore,
/// initialized Up — plus the guarded value.
///
/// The inner semaphore is Down exactly while a guard is live; re-entrant locking by
/// the same task is not supported and will deadlock.
pub struct Mutex<T> {
    sem: Semaphore,
    slot: Option<T>,
}

impl<T> Mutex<T> {
    /// The binary state of the inner semaphore.
    pub closed spec fn sem_state(&self) -> SemState {
        self.sem.state()
    }

    /// The inner semaphore's wait set: the tasks blocked on the lock.
    pub closed spec fn sem_waiters(&self) -> Seq<Waiter> {
        self.sem.waiters()
    }

    /// The value at rest in the mutex, absent while a guard is out.
    pub closed spec fn stored(&self) -> Option<T> {
        self.slot
    }

    /// Whether a guard is live.
    pub open spec fn locked(&self) -> bool {
        self.sem_state() is Down
    }

    /// Whether `id` is blocked on the inner semaphore.
    pub open spec fn awaited_by(&self, id: TaskId) -> bool {
        queued(self.sem_waiters(), id) || self.sem_state() == SemState::Wake(id)
    }

    /// The value sits in the mutex exactly while no guard is live.
    pub open spec fn wf(&self) -> bool {
        (self.stored() is Some) <==> !(self.sem_state() is Down)
    }

    /// A mutex around `value`, unlocked.
    pub fn new(value: T) -> (r: Result<Mutex<T>, Error>)
        ensures
            r matches Ok(m) && m.wf() && !m.locked() && m.sem_state() is Up && m.stored()
                == Some(value) && m.sem_waiters() =~= Seq::<Waiter>::empty(),
    {
        Ok(Mutex { sem: Semaphore::with_state(SemState::Up), slot: Some(value) })
    }

    /// Non-blocking lock attempt: on success the guard carries the
    /// value, granting exclusive access; on failure (already locked)
    /// there is nothing — "acquired" and "unavailable" are told apart
    /// by presence, not by a status flag.
    pub fn try_lock(&mut self, cx: &TaskContext) -> (r: Option<MutexGuard<T>>)
        requires
            old(self).wf(),
        ensures
            final(self).wf(),
            r is Some <==> old(self).sem_state() is Up,
            r matches Some(g) ==> final(self).locked() && old(self).stored() == Some(g.value_of())
                && final(self).stored() is None
                && final(self).sem_waiters() == old(self).sem_waiters(),
            r is None ==> final(self).sem_state() == old(self).sem_state()
                && final(self).sem_waiters() == old(self).sem_waiters()
                && final(self).stored() == old(self).stored(),
    {
        if self.sem.try_take(cx) {
            let mut s: Option<T> = None;
            std::mem::swap(&mut s, &mut self.slot);
            match s {
                Some(v) => Some(MutexGuard { value: v }),
                None => {
                    proof {
                        assert(false);
                    }
                    None
                },
            }
        } else {
            None
        }
    }

    /// First half of a blocking lock: take the inner semaphore at once, or join
    /// its wait set, suspend, and drive [`Self::lock_poll`] at every
    /// wake-up.
    pub fn lock_start(&mut self, cx: &TaskContext) -> (r: Option<MutexGuard<T>>)
        requires
            old(self).wf(),
            !old(self).awaited_by(cx.current_task().id),
        ensures
            final(self).wf(),
            r is Some <==> old(self).sem_state() is Up,
            r matches Some(g) ==> final(self).locked() && old(self).stored() == Some(g.value_of())
                && final(self).stored() is None
                && final(self).sem_waiters() == old(self).sem_waiters(),
            r is None ==> ({
                let w = Waiter {
                    id: cx.current_task().id,
                    priority: cx.current_task().priority,
                };
                &&& final(self).sem_state() == old(self).sem_state()
                &&& final(self).sem_waiters() == old(self).sem_waiters().push(w)
                &&& final(self).stored() == old(self).stored()
                &&& final(self).awaited_by(cx.current_task().id)
            }),
    {
        if self.sem.take_start(cx) {
            let mut s: Option<T> = None;
            std::mem::swap(&mut s, &mut self.slot);
            match s {
                Some(v) => Some(MutexGuard { value: v }),
                None => {
                    proof {
                        assert(false);
                    }
                    None
                },
            }
        } else {
            None
        }
    }

    /// One round of the suspended locker's wake-up loop: claim the inner semaphore
    /// if this caller was the one selected, report a distinct timeout
    /// once the bound has elapsed, or keep waiting.
    pub fn lock_poll(&mut self, cx: &TaskContext, timed_out: bool) -> (r: LockPoll<T>)
        requires
            old(self).wf(),
            old(self).awaited_by(cx.current_task().id),
        ensures
            final(self).wf(),
            ({
                let step = sem_take_poll(
                    old(self).sem_state(),
                    old(self).sem_waiters(),
                    cx.current_task().id,
                    timed_out,
                );
                &&& final(self).sem_state() == step.0
                &&& final(self).sem_waiters() == step.1
                &&& (r is Locked <==> step.2 is Acquired)
                &&& (r is TimedOut <==> step.2 is TimedOut)
            }),
            r matches LockPoll::Locked(g) ==> final(self).locked() && old(self).stored() == Some(
                g.value_of()) && final(self).stored() is None,
            !(r is Locked) ==> final(self).stored() == old(self).stored(),
            !(r is Waiting) ==> !final(self).awaited_by(cx.current_task().id),
    {
        match self.sem.take_poll(cx, timed_out) {
            TakePoll::Acquired => {
                let mut s: Option<T> = None;
                std::mem::swap(&mut s, &mut self.slot);
                match s {
                    Some(v) => LockPoll::Locked(MutexGuard { value: v }),
                    None => {
                        proof {
                            assert(false);
                        }
                        LockPoll::Waiting
                    },
                }
            },
            TakePoll::TimedOut => LockPoll::TimedOut,
            TakePoll::Waiting => LockPoll::Waiting,
        }
    }

    /// Scoped release: hand the value back and reopen the inner semaphore, waking
    /// the highest-priority blocked locker if any. The release must
    /// succeed — and provably does, since the inner semaphore can only be Down
    /// while exactly one guard is live.
    pub fn unlock(&mut self, cx: &TaskContext, guard: MutexGuard<T>) -> (r: GiveOutcome)
        requires
            old(self).wf(),
            old(self).locked(),
        ensures
            final(self).wf(),
            !(r is AlreadyGiven),
            final(self).stored() == Some(guard.value_of()),
            ({
                let step = sem_give(old(self).sem_state(), old(self).sem_waiters());
                &&& final(self).sem_state() == step.0
                &&& final(self).sem_waiters() == step.1
                &&& r == step.2
            }),
    {
        self.slot = Some(guard.into_inner());
        self.sem.give(cx)
    }

    /// Whether `id` is currently blocked on the lock.
    pub fn contains_waiter(&self, id: TaskId) -> (r: bool)
        ensures
            r == queued(self.sem_waiters(), id),
    {
        self.sem.contains_waiter(id)
    }

    /// Whether a guard is currently live.
    pub fn is_locked(&self) -> (r: bool)
        requires
            self.wf(),
        ensures
            r == self.locked(),
    {
        match &self.slot {
            Some(_) => false,
            None => true,
        }
    }
}

/// Mutual exclusion: while a guard is live the inner semaphore is Down, so no
/// second lock attempt can succeed — the non-blocking attempt fails and
/// the blocking one can only register and wait.
pub proof fn lemma_mutual_exclusion(v: SemState, q: Seq<Waiter>, w: Waiter)
    requires
        v is Down,
    ensures
        !sem_try_take(v).1,
        !sem_take_start(v, q, w).2,
{
}

} // verus!
