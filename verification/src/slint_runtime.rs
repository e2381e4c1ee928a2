//! Event-driven idle mechanics for long-lived Slint applications.
//!
//! The state and policy an event loop needs to sleep indefinitely when a
//! static scene has no deadline: the wait decision, a coalescing wake
//! edge, per-output redraw intent, idle counters and a deterministic clock.
//! Each is a plain value with `&mut` operations; an event loop that shares
//! one across threads puts it behind its own lock.

use std::collections::BTreeSet;

use vstd::prelude::*;
use vstd::laws_cmp::obeys_cmp;
use vstd::std_specs::cmp::OrdSpec;
use vstd::std_specs::iter::IteratorSpec;
use vstd::std_specs::btree::{group_btree_axioms, increasing_seq, spec_btree_keys_iter};

use crate::duration::{Duration, MAX_NANOS, from_std, spec_min};

verus! {

broadcast use group_btree_axioms;

/// The exact Slint release shared consumers must use.
pub const SLINT_VERSION: &'static str = "1.17.1";

/// A wakeup decision made after events, timers, and rendering have been drained.
#[derive(Clone, Copy, Debug, PartialEq, Eq, Structural)]
pub enum WaitDecision {
    /// A visible animation needs another frame after this delay.
    Frame(Duration),
    /// No animation is active; wait for this real Slint timer deadline.
    Timer(Duration),
    /// No work or deadline exists. Block until an external event.
    Indefinite,
}

/// What [`IdleScheduler::decide`] decides: a frame after the shorter of the
/// frame interval and the next timer while an animation is visible; else
/// the next timer; else block.
pub open spec fn spec_decide(
    frame_interval: Duration,
    has_visible_animation: bool,
    next_timer: Option<Duration>,
) -> WaitDecision {
    if has_visible_animation {
        WaitDecision::Frame(
            match next_timer {
                Some(t) => if t@ <= frame_interval@ {
                    t
                } else {
                    frame_interval
                },
                None => frame_interval,
            },
        )
    } else {
        match next_timer {
            Some(t) => WaitDecision::Timer(t),
            None => WaitDecision::Indefinite,
        }
    }
}

/// Pure idle policy. Event-loop integrations turn its result into their
/// native timer/event source.
#[derive(Clone, Copy, Debug, PartialEq, Eq, Structural)]
pub struct IdleScheduler {
    frame_interval: Duration,
}

impl IdleScheduler {
    pub closed spec fn interval(self) -> Duration {
        self.frame_interval
    }

    /// Build a scheduler for the display's active refresh interval.
    pub fn new(frame_interval: Duration) -> (s: IdleScheduler)
        ensures
            s.interval() == frame_interval,
    {
        IdleScheduler { frame_interval }
    }

    /// Decide from already-observed animation and timer state.
    pub fn decide(&self, has_visible_animation: bool, next_timer: Option<Duration>) -> (d:
        WaitDecision)
        ensures
            d == spec_decide(self.interval(), has_visible_animation, next_timer),
    {
        if has_visible_animation {
            WaitDecision::Frame(
                match next_timer {
                    Some(timer) => timer.min(self.frame_interval),
                    None => self.frame_interval,
                },
            )
        } else if let Some(timer) = next_timer {
            WaitDecision::Timer(timer)
        } else {
            WaitDecision::Indefinite
        }
    }
}

/// `slint::Window`, passed through to ask whether it is animating.
#[verifier::external_type_specification]
#[verifier::external_body]
pub struct ExWindow(slint::Window);

/// `slint::Window::has_active_animations`: whether an animation is running
/// on the window's properties. The answer comes from Slint's animation
/// driver at the time of the call, so nothing is stated of it.
#[verifier::external_body]
fn window_has_active_animations(window: &slint::Window) -> (active: bool) {
    window.has_active_animations()
}

/// `slint::platform::duration_until_next_timer_update`: how long until the
/// next Slint timer fires, or `None` without an active timer. It depends on
/// the timers and the clock, so nothing is stated of it.
#[verifier::external_body]
fn next_timer_update() -> (next: Option<core::time::Duration>) {
    slint::platform::duration_until_next_timer_update()
}

/// Whether any visible window is animating, from each window's answer.
pub fn any_animating(answers: &[bool]) -> (b: bool)
    ensures
        b == answers@.contains(true),
{
    let mut i: usize = 0;
    while i < answers.len()
        invariant
            i <= answers@.len(),
            forall|j: int| 0 <= j < i ==> !answers@[j],
        decreases answers@.len() - i,
    {
        if answers[i] {
            assert(answers@[i as int] == true);
            return true;
        }
        i = i + 1;
    }
    proof {
        if answers@.contains(true) {
            let k = choose|k: int| 0 <= k < answers@.len() && answers@[k] == true;
            assert(!answers@[k]);
        }
    }
    false
}

impl IdleScheduler {
    /// Query Slint after `update_timers_and_animations()` and rendering.
    ///
    /// Only visible windows should be supplied. Hidden windows with infinite
    /// animations must not keep the application frame clock alive. Each
    /// window is asked whether it is animating; the decision is
    /// [`IdleScheduler::decide`]'s on whether any answered yes
    /// ([`any_animating`]) and on Slint's next timer.
    pub fn from_slint(&self, visible_windows: &[&slint::Window]) -> (d: WaitDecision)
        ensures
            exists|answers: Seq<bool>, next: Option<Duration>|
                answers.len() == visible_windows@.len() && d == #[trigger] spec_decide(
                    self.interval(),
                    answers.contains(true),
                    next,
                ),
    {
        let mut answers: Vec<bool> = Vec::new();
        let mut i: usize = 0;
        while i < visible_windows.len()
            invariant
                i <= visible_windows@.len(),
                answers@.len() == i,
            decreases visible_windows@.len() - i,
        {
            answers.push(window_has_active_animations(visible_windows[i]));
            i = i + 1;
        }
        let active = any_animating(answers.as_slice());
        let next = match next_timer_update() {
            Some(t) => Some(from_std(t)),
            None => None,
        };
        let d = self.decide(active, next);
        assert(answers@.len() == visible_windows@.len() && d == spec_decide(
            self.interval(),
            answers@.contains(true),
            next,
        ));
        d
    }
}

impl Default for IdleScheduler {
    /// A 60 Hz display: a frame interval of 16 666 667 ns.
    fn default() -> (s: IdleScheduler)
        ensures
            s.interval()@ == 16_666_667,
    {
        IdleScheduler::new(Duration::from_nanos(16_666_667))
    }
}

/// A frame is never scheduled later than the display's interval or later
/// than the next real timer, nothing is ever scheduled while idle with no
/// deadline, and with no animation a reported timer is waited for exactly.
pub proof fn lemma_decide_bounds(
    frame_interval: Duration,
    has_visible_animation: bool,
    next_timer: Option<Duration>,
)
    ensures
        spec_decide(frame_interval, has_visible_animation, next_timer) matches WaitDecision::Frame(
            d,
        ) ==> d@ <= frame_interval@ && (next_timer matches Some(t) ==> d@ <= t@),
        spec_decide(frame_interval, has_visible_animation, next_timer) is Indefinite <==> (
        !has_visible_animation && next_timer is None),
        !has_visible_animation ==> (next_timer matches Some(t) ==> spec_decide(
            frame_interval,
            has_visible_animation,
            next_timer,
        ) == WaitDecision::Timer(t)),
{
}

/// Edge-coalescing event-loop wake source.
///
/// The callback runs only on the transition from no pending wake to
/// pending. Event loops call [`acknowledge`](Self::acknowledge) immediately
/// after consuming the wake edge and before draining application events, so
/// a later request creates a fresh edge instead of being lost.
pub struct WakeHandle<F: Fn()> {
    pending: bool,
    notify: F,
    /// How many times the callback has run.
    notified: Ghost<nat>,
}

impl<F: Fn()> WakeHandle<F> {
    #[verifier::type_invariant]
    spec fn callable(self) -> bool {
        call_requires(self.notify, ())
    }

    /// A wake edge is pending.
    pub closed spec fn pending(self) -> bool {
        self.pending
    }

    /// How many times the callback has run.
    pub closed spec fn notifications(self) -> nat {
        self.notified@
    }

    /// A handle with no wake pending that runs `notify` on each edge.
    pub fn new(notify: F) -> (w: WakeHandle<F>)
        requires
            call_requires(notify, ()),
        ensures
            !w.pending(),
            w.notifications() == 0,
    {
        WakeHandle { pending: false, notify, notified: Ghost(0) }
    }

    /// Request an event-loop wake. Returns true only for the coalesced edge,
    /// which is also the only time the callback runs.
    pub fn wake(&mut self) -> (edge: bool)
        ensures
            (edge, final(self).pending()) == spec_wake(old(self).pending()),
            final(self).notifications() == old(self).notifications() + if edge {
                1nat
            } else {
                0nat
            },
    {
        proof {
            use_type_invariant(&*self);
        }
        if !self.pending {
            self.pending = true;
            (self.notify)();
            self.notified = Ghost(self.notified@ + 1);
            true
        } else {
            false
        }
    }

    /// Clear the pending edge immediately after consuming it, before draining
    /// application work. Returns whether an edge was pending.
    pub fn acknowledge(&mut self) -> (was: bool)
        ensures
            (was, final(self).pending()) == spec_acknowledge(old(self).pending()),
            final(self).notifications() == old(self).notifications(),
    {
        proof {
            use_type_invariant(&*self);
        }
        let was = self.pending;
        self.pending = false;
        was
    }

    pub fn is_pending(&self) -> (p: bool)
        ensures
            p == self.pending(),
    {
        self.pending
    }

    /// The glue an application's `WindowAdapter::request_redraw()` delegates
    /// to, for one output.
    pub fn redraw_handle<O>(&self, output: O) -> (r: RedrawHandle<O>)
        ensures
            r.output() == output,
    {
        RedrawHandle { output }
    }
}

/// A wake: whether it is an edge, and whether a wake is pending after it.
pub open spec fn spec_wake(pending: bool) -> (bool, bool) {
    (!pending, true)
}

/// An acknowledgement: whether an edge was pending, and whether one is
/// pending after it.
pub open spec fn spec_acknowledge(pending: bool) -> (bool, bool) {
    (pending, false)
}

/// Requests coalesce until acknowledged: of two wakes with no
/// acknowledgement between them the second is never an edge, and once a
/// pending edge is acknowledged the next wake is an edge again.
pub proof fn lemma_wake_coalesces(pending: bool)
    ensures
        ({
            let (first, after_first) = spec_wake(pending);
            let (second, _) = spec_wake(after_first);
            !second
        }),
        ({
            let (_, after_wake) = spec_wake(pending);
            let (acked, after_ack) = spec_acknowledge(after_wake);
            let (again, _) = spec_wake(after_ack);
            acked && again
        }),
{
}

proof fn lemma_take_whole<T>(s: Seq<T>)
    ensures
        s.take(s.len() as int) == s,
{
    assert(s.take(s.len() as int) =~= s);
}

/// Dereferencing an increasing sequence of references keeps it increasing.
proof fn lemma_unref_increasing<O: Ord>(keys: Seq<&O>)
    requires
        obeys_cmp::<O>(),
        increasing_seq(keys),
    ensures
        increasing_seq(keys.unref()),
{
    broadcast use vstd::laws_cmp::lemma_ref_obeys_cmp_spec;
    assert(obeys_cmp::<&O>());
    vstd::std_specs::btree::axiom_increasing_seq_meaning::<&O>(keys);
    vstd::std_specs::btree::axiom_increasing_seq_meaning::<O>(keys.unref());
    let u = keys.unref();
    assert forall|i: int, j: int| #![trigger u[i], u[j]] 0 <= i < j < u.len() implies u[i].cmp_spec(
        &u[j],
    ) is Less by {
        assert(OrdSpec::cmp_spec(&keys[i], &keys[j]) is Less);
        assert(u[i] == *keys[i] && u[j] == *keys[j]);
    }
}

/// Precise, coalescing per-output redraw intent.
pub struct DirtySet<O> {
    set: BTreeSet<O>,
}

impl<O: Ord + Copy> DirtySet<O> {
    /// The outputs marked and not yet taken.
    pub closed spec fn outputs(&self) -> Set<O> {
        self.set@
    }

    pub fn new() -> (d: DirtySet<O>)
        ensures
            d.outputs() == Set::<O>::empty(),
    {
        DirtySet { set: BTreeSet::new() }
    }

    /// Mark an output dirty. Returns true only when newly inserted.
    pub fn mark(&mut self, output: O) -> (inserted: bool)
        requires
            obeys_cmp::<O>(),
        ensures
            final(self).outputs() == old(self).outputs().insert(output),
            inserted == !old(self).outputs().contains(output),
    {
        self.set.insert(output)
    }

    pub fn is_empty(&self) -> (e: bool)
        ensures
            e == (self.outputs() == Set::<O>::empty()),
    {
        let e = self.set.is_empty();
        proof {
            if !e {
                let x = self.set@.choose();
                assert(!(self.set@ =~= Set::<O>::empty()) || !self.set@.contains(x));
            } else {
                assert(self.set@ =~= Set::<O>::empty());
            }
        }
        e
    }

    pub fn len(&self) -> (n: usize)
        requires
            obeys_cmp::<O>(),
        ensures
            n == self.outputs().len(),
    {
        self.set.len()
    }

    /// Drain all dirty outputs in deterministic (ascending) order.
    pub fn take_all(&mut self) -> (taken: Vec<O>)
        requires
            obeys_cmp::<O>(),
        ensures
            final(self).outputs() == Set::<O>::empty(),
            taken@.to_set() == old(self).outputs(),
            taken@.no_duplicates(),
            taken@.len() == old(self).outputs().len(),
            increasing_seq(taken@),
    {
        let mut taken: Vec<O> = Vec::new();
        let ghost keys = spec_btree_keys_iter(&self.set).remaining();
        for x in it: self.set.iter()
            invariant
                it.seq() == keys,
                taken@ == it.seq().take(it.index()).unref(),
        {
            taken.push(*x);
        }
        proof {
            lemma_take_whole(keys);
            lemma_unref_increasing::<O>(keys);
        }
        self.set.clear();
        taken
    }
}

impl<O: Ord + Copy> Default for DirtySet<O> {
    /// An empty set.
    fn default() -> (d: DirtySet<O>)
        ensures
            d.outputs() == Set::<O>::empty(),
    {
        DirtySet::new()
    }
}

/// Minimal Slint adapter glue: dirties exactly one output, records the
/// request, and wakes the host loop. It never renders or acquires a buffer.
pub struct RedrawHandle<O> {
    output: O,
}

impl<O> RedrawHandle<O> {
    /// The output this handle dirties.
    pub closed spec fn output(self) -> O {
        self.output
    }
}

impl<O: Copy + Ord> RedrawHandle<O> {
    /// Record the request, mark this handle's output dirty, and wake the
    /// loop (which runs the wake callback only on a fresh edge). Returns
    /// whether this request was that edge.
    pub fn request_redraw<F: Fn()>(
        &self,
        dirty: &mut DirtySet<O>,
        metrics: &mut Metrics,
        wake: &mut WakeHandle<F>,
    ) -> (edge: bool)
        requires
            obeys_cmp::<O>(),
        ensures
            final(metrics)@ == (MetricsSnapshot {
                redraw_requests: old(metrics)@.redraw_requests.wrapping_add(1),
                ..old(metrics)@
            }),
            final(dirty).outputs() == old(dirty).outputs().insert(self.output()),
            final(wake).pending(),
            edge == !old(wake).pending(),
            final(wake).notifications() == old(wake).notifications() + if old(wake).pending() {
                0nat
            } else {
                1nat
            },
    {
        metrics.record_redraw_request();
        dirty.mark(self.output);
        wake.wake()
    }
}

/// Monotonic idle observability counters.
pub struct Metrics {
    wake_requests: u64,
    redraw_requests: u64,
    buffer_acquires: u64,
    renders: u64,
    commits: u64,
}

/// A consistent point-in-time copy of [`Metrics`].
#[derive(Clone, Copy, Debug, Default, PartialEq, Eq, Structural)]
pub struct MetricsSnapshot {
    pub wake_requests: u64,
    pub redraw_requests: u64,
    pub buffer_acquires: u64,
    pub renders: u64,
    pub commits: u64,
}

impl View for Metrics {
    type V = MetricsSnapshot;

    closed spec fn view(&self) -> MetricsSnapshot {
        MetricsSnapshot {
            wake_requests: self.wake_requests,
            redraw_requests: self.redraw_requests,
            buffer_acquires: self.buffer_acquires,
            renders: self.renders,
            commits: self.commits,
        }
    }
}

impl Metrics {
    /// All counters at zero.
    pub fn new() -> (m: Metrics)
        ensures
            m@ == (MetricsSnapshot {
                wake_requests: 0,
                redraw_requests: 0,
                buffer_acquires: 0,
                renders: 0,
                commits: 0,
            }),
    {
        Metrics { wake_requests: 0, redraw_requests: 0, buffer_acquires: 0, renders: 0, commits: 0 }
    }

    pub fn record_wake(&mut self)
        ensures
            final(self)@ == (MetricsSnapshot {
                wake_requests: old(self)@.wake_requests.wrapping_add(1),
                ..old(self)@
            }),
    {
        self.wake_requests = self.wake_requests.wrapping_add(1);
    }

    pub fn record_redraw_request(&mut self)
        ensures
            final(self)@ == (MetricsSnapshot {
                redraw_requests: old(self)@.redraw_requests.wrapping_add(1),
                ..old(self)@
            }),
    {
        self.redraw_requests = self.redraw_requests.wrapping_add(1);
    }

    pub fn record_buffer_acquire(&mut self)
        ensures
            final(self)@ == (MetricsSnapshot {
                buffer_acquires: old(self)@.buffer_acquires.wrapping_add(1),
                ..old(self)@
            }),
    {
        self.buffer_acquires = self.buffer_acquires.wrapping_add(1);
    }

    pub fn record_render(&mut self)
        ensures
            final(self)@ == (MetricsSnapshot { renders: old(self)@.renders.wrapping_add(1), ..old(self)@ }),
    {
        self.renders = self.renders.wrapping_add(1);
    }

    pub fn record_commit(&mut self)
        ensures
            final(self)@ == (MetricsSnapshot { commits: old(self)@.commits.wrapping_add(1), ..old(self)@ }),
    {
        self.commits = self.commits.wrapping_add(1);
    }

    pub fn snapshot(&self) -> (s: MetricsSnapshot)
        ensures
            s == self@,
    {
        MetricsSnapshot {
            wake_requests: self.wake_requests,
            redraw_requests: self.redraw_requests,
            buffer_acquires: self.buffer_acquires,
            renders: self.renders,
            commits: self.commits,
        }
    }
}

impl Default for Metrics {
    /// All counters at zero.
    fn default() -> (m: Metrics)
        ensures
            m@ == (MetricsSnapshot {
                wake_requests: 0,
                redraw_requests: 0,
                buffer_acquires: 0,
                renders: 0,
                commits: 0,
            }),
    {
        Metrics::new()
    }
}

/// Deterministic elapsed-time source for event-loop tests.
#[derive(Clone, Copy, Debug, PartialEq, Eq, Structural)]
pub struct FakeClock {
    now: Duration,
}

impl FakeClock {
    pub closed spec fn time(self) -> Duration {
        self.now
    }

    /// A clock at zero.
    pub fn new() -> (c: FakeClock)
        ensures
            c.time()@ == 0,
    {
        FakeClock { now: Duration::zero() }
    }

    pub fn now(&self) -> (t: Duration)
        ensures
            t == self.time(),
    {
        self.now
    }

    /// Move the clock forward by `by` (saturating) and return the new time.
    pub fn advance(&mut self, by: Duration) -> (t: Duration)
        ensures
            t@ == spec_min(old(self).time()@ + by@, MAX_NANOS as nat),
            final(self).time() == t,
    {
        self.now = self.now.saturating_add(by);
        self.now
    }

    /// The time `delay` from now (saturating).
    pub fn deadline_after(&self, delay: Duration) -> (d: Duration)
        ensures
            d@ == spec_min(self.time()@ + delay@, MAX_NANOS as nat),
    {
        self.now.saturating_add(delay)
    }

    /// How long until `deadline`; zero once it has passed.
    pub fn remaining_until(&self, deadline: Duration) -> (r: Duration)
        ensures
            r@ == (if deadline@ >= self.time()@ {
                deadline@ - self.time()@
            } else {
                0
            }),
    {
        deadline.saturating_sub(self.now)
    }
}

impl Default for FakeClock {
    /// A clock at zero.
    fn default() -> (c: FakeClock)
        ensures
            c.time()@ == 0,
    {
        FakeClock::new()
    }
}

/// A deadline set `delay` ahead is `delay - elapsed` away after the clock
/// has advanced by `elapsed <= delay`, and zero away once it has advanced
/// past it, provided nothing saturated.
pub proof fn lemma_deadline_countdown(start: nat, delay: nat, elapsed: nat)
    requires
        start + delay <= MAX_NANOS,
        start + elapsed <= MAX_NANOS,
    ensures
        ({
            let deadline = spec_min(start + delay, MAX_NANOS as nat);
            let now = spec_min(start + elapsed, MAX_NANOS as nat);
            let remaining = if deadline >= now {
                deadline - now
            } else {
                0
            };
            &&& elapsed <= delay ==> remaining == delay - elapsed
            &&& elapsed >= delay ==> remaining == 0
        }),
{
}

} // verus!
