use vstd::prelude::*;

use crate::system::System;

verus! {

/// How long a timer runs before it is due.
#[derive(Clone, Copy, Debug, PartialEq, Eq, Structural)]
pub enum Duration {
    /// Never due.
    Forever,
    /// Due after this many milliseconds.
    Millis(u32),
}

/// What a [`Timer`] holds: when it was armed, for how long, and whether it is
/// armed at all.
pub struct TimerView {
    pub start: u32,
    pub length: u32,
    pub armed: bool,
}

/// One-shot interval timer measured against the system's millisecond clock.
///
/// Once it has reported itself due it is disarmed, and stays so until it is
/// armed again.
pub struct Timer {
    start_time: u32,
    length: u32,
    is_disabled: bool,
}

/// Milliseconds from `start` to `now` on a clock that wraps at 2^32.
pub open spec fn elapsed(start: u32, now: u32) -> int {
    (now as int - start as int) % 0x1_0000_0000
}

/// The timer after being armed at clock reading `now` for `duration`; for
/// `Forever` it is disarmed instead.
pub open spec fn after_reset(v: TimerView, now: u32, duration: Duration) -> TimerView {
    match duration {
        Duration::Forever => TimerView { armed: false, ..v },
        Duration::Millis(ms) => TimerView { start: now, length: ms, armed: true },
    }
}

/// The timer after being made due at once, at clock reading `now`.
pub open spec fn after_force(now: u32) -> TimerView {
    TimerView { start: now, length: 0, armed: true }
}

/// Whether the timer is due at clock reading `now`.
pub open spec fn is_due(v: TimerView, now: u32) -> bool {
    v.armed && elapsed(v.start, now) >= v.length
}

/// The timer after it has been asked, at clock reading `now`, whether it is
/// due: disarmed if it was, unchanged otherwise.
pub open spec fn after_poll(v: TimerView, now: u32) -> TimerView {
    if is_due(v, now) {
        TimerView { armed: false, ..v }
    } else {
        v
    }
}

impl View for Timer {
    type V = TimerView;

    closed spec fn view(&self) -> TimerView {
        TimerView { start: self.start_time, length: self.length, armed: !self.is_disabled }
    }
}

impl Timer {
    /// A disarmed timer.
    pub fn new() -> (t: Timer)
        ensures
            t@ == (TimerView { start: 0, length: 0, armed: false }),
    {
        Timer { start_time: 0, length: 0, is_disabled: true }
    }

    /// Arms the timer for `duration` from the current clock reading, or
    /// disarms it for `Duration::Forever`.
    pub fn reset(&mut self, sys: &System, duration: &Duration)
        ensures
            final(self)@ == after_reset(old(self)@, sys@.millis, *duration),
    {
        match duration {
            Duration::Forever => {
                self.is_disabled = true;
            },
            Duration::Millis(ms) => {
                self.start_time = sys.get_millis();
                self.length = *ms;
                self.is_disabled = false;
            },
        }
    }

    /// Arms the timer so that it is due at the next check.
    pub fn force_ready(&mut self, sys: &System)
        ensures
            final(self)@ == after_force(sys@.millis),
    {
        self.is_disabled = false;
        self.length = 0;
        self.start_time = sys.get_millis();
    }

    /// Reports whether the timer is due, disarming it if so.
    pub fn is_ready(&mut self, sys: &System) -> (r: bool)
        ensures
            r == is_due(old(self)@, sys@.millis),
            final(self)@ == after_poll(old(self)@, sys@.millis),
    {
        if self.is_disabled {
            return false;
        }
        let now = sys.get_millis();
        let passed = now.wrapping_sub(self.start_time);
        assert(passed == elapsed(self.start_time, now));
        if passed >= self.length {
            self.is_disabled = true;
            true
        } else {
            false
        }
    }
}

/// The timer is one-shot: armed at `now` for `length > 0` milliseconds, it
/// is not due at once, nor at any reading before `length` has passed; it is
/// due once the clock has advanced by `k >= length` (less than a full turn of
/// the clock); and once it has reported that, it is never due again, at any
/// reading, until it is armed anew.
pub proof fn lemma_one_shot(v: TimerView, now: u32, length: u32, k: int)
    requires
        length > 0,
        length <= k < 0x1_0000_0000,
    ensures
        ({
            let armed = after_reset(v, now, Duration::Millis(length));
            let due_at = ((now + k) % 0x1_0000_0000) as u32;
            let spent = after_poll(armed, due_at);
            &&& !is_due(armed, now)
            &&& after_poll(armed, now) == armed
            &&& forall|j: int|
                0 <= j < length ==> !is_due(armed, #[trigger] (((now + j) % 0x1_0000_0000) as u32))
            &&& is_due(armed, due_at)
            &&& forall|t: u32| !is_due(spent, t) && after_poll(spent, t) == spent
        }),
{
}

} // verus!
