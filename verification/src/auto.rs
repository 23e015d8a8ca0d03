//! The schedulers that advance the script by themselves: auto-play, which
//! waits for a time that depends on the line just shown, and skip, which
//! does not wait.

use vstd::prelude::*;

verus! {

/// The auto-play scheduler: a switch, one timer and the pulses of timers
/// that have fired.
#[derive(Debug, Clone, Copy, PartialEq, Eq, Structural)]
pub struct AutoExecutor {
    /// Whether auto-play is switched on.
    pub is_auto: bool,
    /// The time that the outstanding timer was set to, in milliseconds.
    pub timer: Option<u64>,
    /// Number of timers that have fired and were not yet acted on.
    pub ready: u64,
}

impl AutoExecutor {
    /// The scheduler with its timer set to `duration` milliseconds, in place
    /// of an outstanding one.
    pub open spec fn scheduled(self, duration: u64) -> AutoExecutor {
        AutoExecutor { timer: Some(duration), ..self }
    }

    /// The scheduler after its timer was cancelled.
    pub open spec fn cancelled(self) -> AutoExecutor {
        AutoExecutor { timer: None, ..self }
    }

    /// The scheduler after its outstanding timer ran out: the timer is gone
    /// and has left a pulse. Without a timer nothing changes.
    pub open spec fn fired(self) -> AutoExecutor {
        if self.timer is Some {
            AutoExecutor {
                timer: None,
                ready: if self.ready < u64::MAX {
                    (self.ready + 1) as u64
                } else {
                    u64::MAX
                },
                ..self
            }
        } else {
            self
        }
    }

    /// A scheduler switched off, without timer or pulse.
    pub fn new() -> (r: Self)
        ensures
            r == (AutoExecutor { is_auto: false, timer: None, ready: 0 }),
    {
        AutoExecutor { is_auto: false, timer: None, ready: 0 }
    }

    /// Flips the switch. Switching off cancels the outstanding timer.
    pub fn toggle(&mut self)
        ensures
            final(self).is_auto == !old(self).is_auto,
            final(self).ready == old(self).ready,
            final(self).timer == if old(self).is_auto {
                None
            } else {
                old(self).timer
            },
    {
        if self.is_auto {
            self.is_auto = false;
            self.timer = None;
        } else {
            self.is_auto = true;
        }
    }

    /// Sets the timer to `duration` milliseconds, in place of an outstanding one.
    pub fn schedule(&mut self, duration: u64)
        ensures
            *final(self) == old(self).scheduled(duration),
    {
        self.timer = Some(duration);
    }

    /// Cancels the outstanding timer; it does not fire.
    pub fn reset(&mut self)
        ensures
            *final(self) == old(self).cancelled(),
    {
        self.timer = None;
    }

    /// The time that the outstanding timer was set to, in milliseconds.
    pub fn wait(&self) -> (r: Option<u64>)
        ensures
            r == self.timer,
    {
        self.timer
    }

    /// The outstanding timer has run out: it leaves a pulse. Without a
    /// timer nothing changes.
    pub fn fire(&mut self)
        ensures
            *final(self) == old(self).fired(),
    {
        if self.timer.is_some() {
            self.timer = None;
            self.ready = self.ready.saturating_add(1);
        }
    }

    /// Whether the script is to advance now: auto-play is on and a pulse is
    /// there, which is used up.
    pub fn poll(&mut self) -> (r: bool)
        ensures
            r == (old(self).is_auto && old(self).ready > 0),
            r ==> *final(self) == (AutoExecutor {
                ready: (old(self).ready - 1) as u64,
                ..*old(self)
            }),
            !r ==> *final(self) == *old(self),
    {
        if self.is_auto && self.ready > 0 {
            self.ready = self.ready - 1;
            true
        } else {
            false
        }
    }
}

/// The skip scheduler: a switch.
#[derive(Debug, Clone, Copy, PartialEq, Eq, Structural)]
pub struct SkipExecutor {
    /// Whether fast-forward is switched on.
    pub is_skip: bool,
}

impl SkipExecutor {
    /// A scheduler switched off.
    pub fn new() -> (r: Self)
        ensures
            r == (SkipExecutor { is_skip: false }),
    {
        SkipExecutor { is_skip: false }
    }

    /// Flips the switch.
    pub fn toggle(&mut self)
        ensures
            final(self).is_skip == !old(self).is_skip,
    {
        self.is_skip = !self.is_skip;
    }

    /// Whether the script is to advance now: at every tick while fast-forward is on.
    pub fn poll(&self) -> (r: bool)
        ensures
            r == self.is_skip,
    {
        self.is_skip
    }
}

/// The newest request wins: after the timer was set twice, only the
/// second time is outstanding, and when it runs out it leaves one pulse, as
/// if the first had never been set.
pub proof fn lemma_newest_timer_wins(s: AutoExecutor, first: u64, second: u64)
    ensures
        s.scheduled(first).scheduled(second) == s.scheduled(second),
        s.scheduled(first).scheduled(second).timer == Some(second),
        s.scheduled(first).scheduled(second).fired() == s.scheduled(second).fired(),
        s.scheduled(first).scheduled(second).fired().fired() == s.scheduled(second).fired(),
{
}

/// A timer that was cancelled does not fire: it leaves no pulse.
pub proof fn lemma_cancelled_timer_is_silent(s: AutoExecutor, duration: u64)
    ensures
        s.scheduled(duration).cancelled().fired() == s.cancelled(),
        s.scheduled(duration).cancelled().fired().ready == s.ready,
{
}

} // verus!
