//! A countdown that either stops at its first expiry or repeats.

use vstd::arithmetic::div_mod::{lemma_fundamental_div_mod, lemma_fundamental_div_mod_converse};
use vstd::prelude::*;

verus! {

/// What a timer does when it reaches its duration.
#[derive(Clone, Copy, Debug, PartialEq, Eq, Structural)]
pub enum TimerMode {
    /// Stop at the first expiry and stay finished.
    Once,
    /// Wrap around and keep counting.
    Repeating,
}

/// Why a timer could not be built.
#[derive(Clone, Copy, Debug, PartialEq, Eq, Structural)]
pub enum TimerError {
    /// The duration was zero.
    InvalidDuration,
}

/// The mathematical state of a timer.
pub struct TimerView {
    /// Length of one period, in nanoseconds.
    pub duration: nat,
    /// Time counted in the current period, in nanoseconds.
    pub elapsed: nat,
    /// Whether the timer wraps at expiry.
    pub repeating: bool,
    /// Whether the last tick found the duration reached.
    pub finished: bool,
    /// Whether the last tick crossed an expiry edge.
    pub just_finished: bool,
}

impl TimerView {
    /// A timer that has not been ticked yet.
    pub open spec fn fresh(duration: nat, repeating: bool) -> TimerView {
        TimerView { duration, elapsed: 0, repeating, finished: false, just_finished: false }
    }

    /// The invariant of every timer.
    pub open spec fn wf(self) -> bool {
        &&& self.duration > 0
        &&& self.elapsed <= self.duration
        &&& self.repeating ==> self.elapsed < self.duration
        &&& !self.repeating ==> (self.finished <==> self.elapsed == self.duration)
        &&& self.just_finished ==> self.finished
    }

    /// The state after `delta` more nanoseconds.
    ///
    /// A stopped one-shot timer stays as it is and no longer signals. Otherwise
    /// the time is added; when the sum reaches the duration the timer signals
    /// once, however many periods the sum spans, and a repeating timer keeps
    /// the remainder.
    pub open spec fn tick(self, delta: nat) -> TimerView {
        let total = self.elapsed + delta;
        if !self.repeating && self.finished {
            TimerView { just_finished: false, ..self }
        } else if total < self.duration {
            TimerView { elapsed: total, finished: false, just_finished: false, ..self }
        } else if self.repeating {
            TimerView {
                elapsed: total % self.duration,
                finished: true,
                just_finished: true,
                ..self
            }
        } else {
            TimerView { elapsed: self.duration, finished: true, just_finished: true, ..self }
        }
    }

    /// The state after a restart: the count is back at zero.
    pub open spec fn reset(self) -> TimerView {
        TimerView { elapsed: 0, finished: false, just_finished: false, ..self }
    }
}

/// A countdown over nanoseconds.
#[derive(Clone, Copy, Debug, PartialEq, Eq, Structural)]
pub struct Timer {
    duration: u64,
    elapsed: u64,
    mode: TimerMode,
    finished: bool,
    just_finished: bool,
}

impl View for Timer {
    type V = TimerView;

    closed spec fn view(&self) -> TimerView {
        TimerView {
            duration: self.duration as nat,
            elapsed: self.elapsed as nat,
            repeating: self.mode == TimerMode::Repeating,
            finished: self.finished,
            just_finished: self.just_finished,
        }
    }
}

impl Timer {
    #[verifier::type_invariant]
    closed spec fn inv(self) -> bool {
        self@.wf()
    }

    /// The timer of `duration` nanoseconds that has not been ticked yet.
    pub closed spec fn fresh(duration: u64, mode: TimerMode) -> Timer {
        Timer { duration, elapsed: 0, mode, finished: false, just_finished: false }
    }

    /// This timer after `delta` more nanoseconds.
    pub closed spec fn ticked(self, delta: u64) -> Timer {
        let total = self.elapsed + delta;
        if self.mode == TimerMode::Once && self.finished {
            Timer { just_finished: false, ..self }
        } else if total < self.duration {
            Timer { elapsed: total as u64, finished: false, just_finished: false, ..self }
        } else if self.mode == TimerMode::Repeating {
            Timer {
                elapsed: (total % self.duration as int) as u64,
                finished: true,
                just_finished: true,
                ..self
            }
        } else {
            Timer { elapsed: self.duration, finished: true, just_finished: true, ..self }
        }
    }

    /// This timer after a restart.
    pub closed spec fn restarted(self) -> Timer {
        Timer { elapsed: 0, finished: false, just_finished: false, ..self }
    }

    /// What `fresh`, `ticked` and `restarted` are, seen as mathematical
    /// states.
    pub proof fn lemma_views(self, duration: u64, mode: TimerMode, delta: u64)
        ensures
            Timer::fresh(duration, mode)@ == TimerView::fresh(
                duration as nat,
                mode == TimerMode::Repeating,
            ),
            self@.wf() ==> self.ticked(delta)@ == self@.tick(delta as nat),
            self.restarted()@ == self@.reset(),
    {
    }

    /// Builds a timer of `duration` nanoseconds; a zero duration is refused.
    pub fn new(duration: u64, mode: TimerMode) -> (r: Result<Timer, TimerError>)
        ensures
            duration == 0 ==> r == Err::<Timer, TimerError>(TimerError::InvalidDuration),
            duration > 0 ==> r == Ok::<Timer, TimerError>(Timer::fresh(duration, mode)),
            duration > 0 ==> r->Ok_0@ == TimerView::fresh(
                duration as nat,
                mode == TimerMode::Repeating,
            ),
    {
        if duration == 0 {
            Err(TimerError::InvalidDuration)
        } else {
            Ok(Timer { duration, elapsed: 0, mode, finished: false, just_finished: false })
        }
    }

    /// Builds a timer of a duration that is known to be positive.
    pub(crate) fn started(duration: u64, mode: TimerMode) -> (r: Timer)
        requires
            duration > 0,
        ensures
            r == Timer::fresh(duration, mode),
            r@ == TimerView::fresh(duration as nat, mode == TimerMode::Repeating),
    {
        Timer { duration, elapsed: 0, mode, finished: false, just_finished: false }
    }

    /// Advances the timer by `delta` nanoseconds.
    pub fn tick(&mut self, delta: u64)
        ensures
            *final(self) == old(self).ticked(delta),
            final(self)@ == old(self)@.tick(delta as nat),
            final(self)@.wf(),
    {
        proof {
            use_type_invariant(&*self);
        }
        let duration = self.duration;
        let mode = self.mode;
        let total: u128 = self.elapsed as u128 + delta as u128;
        let (elapsed, finished, just_finished) = if mode == TimerMode::Once && self.finished {
            (self.elapsed, true, false)
        } else if total < duration as u128 {
            (total as u64, false, false)
        } else if mode == TimerMode::Repeating {
            ((total % (duration as u128)) as u64, true, true)
        } else {
            (duration, true, true)
        };
        *self = Timer { duration, elapsed, mode, finished, just_finished };
    }

    /// Restarts the count from zero.
    pub fn reset(&mut self)
        ensures
            *final(self) == old(self).restarted(),
            final(self)@ == old(self)@.reset(),
            final(self)@.wf(),
    {
        proof {
            use_type_invariant(&*self);
        }
        *self = Timer {
            duration: self.duration,
            elapsed: 0,
            mode: self.mode,
            finished: false,
            just_finished: false,
        };
    }

    /// Whether the last tick crossed an expiry edge.
    pub fn just_finished(&self) -> (r: bool)
        ensures
            r == self@.just_finished,
    {
        self.just_finished
    }

    /// Whether the last tick found the duration reached.
    pub fn finished(&self) -> (r: bool)
        ensures
            r == self@.finished,
    {
        self.finished
    }

    /// The time counted in the current period, in nanoseconds.
    pub fn elapsed(&self) -> (r: u64)
        ensures
            r == self@.elapsed,
            r <= self@.duration,
    {
        proof {
            use_type_invariant(self);
        }
        self.elapsed
    }

    /// The length of one period, in nanoseconds.
    pub fn duration(&self) -> (r: u64)
        ensures
            r == self@.duration,
            r > 0,
    {
        proof {
            use_type_invariant(self);
        }
        self.duration
    }

    /// The timer's mode.
    pub fn mode(&self) -> (r: TimerMode)
        ensures
            (r == TimerMode::Repeating) == self@.repeating,
    {
        self.mode
    }
}

/// The time that the first `k` ticks of `deltas` add up to.
pub open spec fn cumulative(deltas: Seq<u64>, k: nat) -> nat
    decreases k,
{
    if k == 0 || k > deltas.len() {
        0
    } else {
        cumulative(deltas, (k - 1) as nat) + deltas[k - 1] as nat
    }
}

/// The state that `start` reaches through the first `k` ticks of `deltas`.
pub open spec fn after_ticks(start: TimerView, deltas: Seq<u64>, k: nat) -> TimerView
    decreases k,
{
    if k == 0 || k > deltas.len() {
        start
    } else {
        after_ticks(start, deltas, (k - 1) as nat).tick(deltas[k - 1] as nat)
    }
}

/// Adding `delta` to a running total moves its remainder and its quotient as
/// the remainder alone says.
proof fn lemma_add_to_total(total: nat, delta: nat, d: nat)
    requires
        d > 0,
    ensures
        (total + delta) % d == (total % d + delta) % d,
        (total + delta) / d == total / d + (total % d + delta) / d,
        (total % d + delta >= d) <==> (total + delta) / d > total / d,
{
    let di = d as int;
    let q = total as int / di;
    let r = total as int % di;
    let s = r + delta;
    let sq = s / di;
    let sr = s % di;
    lemma_fundamental_div_mod(total as int, di);
    lemma_fundamental_div_mod(s, di);
    assert(total + delta == (q + sq) * di + sr) by (nonlinear_arith)
        requires
            total == di * q + r,
            s == di * sq + sr,
            s == r + delta,
    ;
    lemma_fundamental_div_mod_converse((total + delta) as int, di, q + sq, sr);
    assert((s >= di) <==> sq > 0) by (nonlinear_arith)
        requires
            di > 0,
            s >= 0,
            s == di * sq + sr,
            0 <= sr,
            sr < di,
    ;
}

/// A timer's state after any run of ticks is a function of the total time.
///
/// From a fresh timer, a repeating one holds the total modulo the duration; a
/// one-shot one holds the total capped at the duration and is finished from
/// the moment the total reaches it.
pub proof fn lemma_state_follows_total(duration: nat, repeating: bool, deltas: Seq<u64>, k: nat)
    requires
        duration > 0,
        k <= deltas.len(),
    ensures
        ({
            let t = after_ticks(TimerView::fresh(duration, repeating), deltas, k);
            let total = cumulative(deltas, k);
            &&& t.wf()
            &&& t.duration == duration
            &&& t.repeating == repeating
            &&& repeating ==> t.elapsed == total % duration
            &&& !repeating ==> t.elapsed == if total < duration { total } else { duration }
            &&& !repeating ==> (t.finished <==> total >= duration)
        }),
    decreases k,
{
    if k > 0 {
        let j = (k - 1) as nat;
        lemma_state_follows_total(duration, repeating, deltas, j);
        lemma_add_to_total(cumulative(deltas, j), deltas[k - 1] as nat, duration);
        let prev = after_ticks(TimerView::fresh(duration, repeating), deltas, j);
        if repeating {
            let s = prev.elapsed + deltas[k - 1] as nat;
            if s < duration {
                lemma_fundamental_div_mod_converse(s as int, duration as int, 0, s as int);
            }
        }
    } else {
        lemma_fundamental_div_mod_converse(0, duration as int, 0, 0);
    }
}

/// A timer signals on exactly the tick whose cumulative time crosses a
/// duration boundary.
///
/// Tick number `k` (counted from zero) of a fresh timer leaves `just_finished`
/// set if and only if, for a repeating timer, the total time after the tick
/// lies in a later period than the total before it, and, for a one-shot timer,
/// the total reaches the duration with this tick for the first time. The
/// signal is a single flag, so a tick that spans many periods still signals
/// once.
pub proof fn lemma_signals_on_boundary(duration: nat, repeating: bool, deltas: Seq<u64>, k: nat)
    requires
        duration > 0,
        k < deltas.len(),
    ensures
        ({
            let t = after_ticks(TimerView::fresh(duration, repeating), deltas, k + 1);
            let before = cumulative(deltas, k);
            let now = cumulative(deltas, k + 1);
            &&& repeating ==> (t.just_finished <==> now / duration > before / duration)
            &&& !repeating ==> (t.just_finished <==> before < duration <= now)
        }),
{
    lemma_state_follows_total(duration, repeating, deltas, k);
    lemma_add_to_total(cumulative(deltas, k), deltas[k as int] as nat, duration);
    let prev = after_ticks(TimerView::fresh(duration, repeating), deltas, k);
}

} // verus!
