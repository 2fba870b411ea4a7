//! Two-state power scheduler driven by touch inactivity.
//!
//! The device is `Active` while motion is recently observed and drops
//! to `Sleep` once a hardware timer shows a sustained idle window. The
//! scheduler owns no timer itself: each tick it is told whether a
//! sample arrived and how many ticks the inactivity timer counted, and
//! it answers with what to do to the timer and how fast to poll next.

use vstd::prelude::*;

verus! {

/// Whole timer-seconds of inactivity the scheduler tolerates; it drops
/// to sleep strictly beyond this many.
pub const SLEEP_AFTER_SECS: u64 = 4;

/// The device's operating mode.
#[derive(Clone, Copy, Debug, PartialEq, Eq, Structural)]
pub enum PowerState {
    Active,
    Sleep,
}

/// What the caller must do with the inactivity timer after a tick.
#[derive(Clone, Copy, Debug, PartialEq, Eq, Structural)]
pub enum TimerCmd {
    /// Reset the counter to zero and start it.
    Arm,
    /// Stop the counter.
    Stop,
    /// Leave the timer as it is.
    Keep,
}

/// How fast to poll until the next tick.
#[derive(Clone, Copy, Debug, PartialEq, Eq, Structural)]
pub enum PollCadence {
    /// Yield only briefly: motion is live and latency matters.
    Tight,
    /// Sleep long between polls to save power.
    Coarse,
}

/// The scheduler's state: the power mode, and whether the inactivity
/// timer is armed and counting toward sleep.
#[derive(Clone, Copy, Debug, PartialEq, Eq, Structural)]
pub struct Scheduler {
    pub state: PowerState,
    pub waiting_for_sleep: bool,
}

impl Scheduler {
    /// The transition relation, one poll tick at a time:
    /// - a sample wakes the device and disarms the timer;
    /// - the first idle tick while active arms the timer;
    /// - an idle tick while armed drops to sleep once the timer shows
    ///   strictly more than `SLEEP_AFTER_SECS` whole seconds;
    /// - anything else changes nothing.
    pub open spec fn spec_step(self, sample_seen: bool, elapsed_ticks: u64, tick_hz: u64) -> (
        Scheduler,
        TimerCmd,
    ) {
        if sample_seen {
            (
                Scheduler { state: PowerState::Active, waiting_for_sleep: false },
                TimerCmd::Keep,
            )
        } else if self.state == PowerState::Active && !self.waiting_for_sleep {
            (Scheduler { state: PowerState::Active, waiting_for_sleep: true }, TimerCmd::Arm)
        } else if self.state == PowerState::Active && elapsed_ticks / tick_hz
            > SLEEP_AFTER_SECS {
            (
                Scheduler { state: PowerState::Sleep, waiting_for_sleep: self.waiting_for_sleep },
                TimerCmd::Stop,
            )
        } else {
            (self, TimerCmd::Keep)
        }
    }

    /// The poll cadence the current mode asks for.
    pub open spec fn spec_cadence(self) -> PollCadence {
        if self.state == PowerState::Active {
            PollCadence::Tight
        } else {
            PollCadence::Coarse
        }
    }

    /// A scheduler as at boot: asleep, timer unarmed.
    pub fn new() -> (s: Scheduler)
        ensures
            s == (Scheduler { state: PowerState::Sleep, waiting_for_sleep: false }),
    {
        Scheduler { state: PowerState::Sleep, waiting_for_sleep: false }
    }

    /// Advance the scheduler by one poll tick. `sample_seen` says
    /// whether the sensor reported motion, `elapsed_ticks` is the
    /// inactivity timer's counter and `tick_hz` its rate. Returns what
    /// the caller must do with the timer.
    pub fn on_tick(&mut self, sample_seen: bool, elapsed_ticks: u64, tick_hz: u64) -> (cmd:
        TimerCmd)
        requires
            tick_hz > 0,
        ensures
            *final(self) == old(self).spec_step(sample_seen, elapsed_ticks, tick_hz).0,
            cmd == old(self).spec_step(sample_seen, elapsed_ticks, tick_hz).1,
    {
        if sample_seen {
            self.state = PowerState::Active;
            self.waiting_for_sleep = false;
            TimerCmd::Keep
        } else if self.state == PowerState::Active && !self.waiting_for_sleep {
            self.waiting_for_sleep = true;
            TimerCmd::Arm
        } else if self.state == PowerState::Active && elapsed_ticks / tick_hz > SLEEP_AFTER_SECS {
            self.state = PowerState::Sleep;
            TimerCmd::Stop
        } else {
            TimerCmd::Keep
        }
    }

    /// How fast to poll until the next tick.
    pub fn cadence(&self) -> (c: PollCadence)
        ensures
            c == self.spec_cadence(),
    {
        if self.state == PowerState::Active {
            PollCadence::Tight
        } else {
            PollCadence::Coarse
        }
    }
}

/// Law: a tick that carries a sample always leaves the device awake
/// with the inactivity timer disarmed, whatever came before.
pub proof fn lemma_sample_wakes(s: Scheduler, elapsed_ticks: u64, tick_hz: u64)
    ensures
        s.spec_step(true, elapsed_ticks, tick_hz).0 == (Scheduler {
            state: PowerState::Active,
            waiting_for_sleep: false,
        }),
        s.spec_step(true, elapsed_ticks, tick_hz).1 == TimerCmd::Keep,
{
}

/// Law: an armed, active scheduler stays awake through the whole idle
/// window and drops to sleep exactly when the timer shows strictly
/// more than `SLEEP_AFTER_SECS` seconds.
pub proof fn lemma_sleep_exactly_past_window(s: Scheduler, elapsed_ticks: u64, tick_hz: u64)
    requires
        s.state == PowerState::Active,
        s.waiting_for_sleep,
        tick_hz > 0,
    ensures
        elapsed_ticks / tick_hz > SLEEP_AFTER_SECS ==> s.spec_step(false, elapsed_ticks, tick_hz)
            == ((Scheduler { state: PowerState::Sleep, waiting_for_sleep: true }, TimerCmd::Stop)),
        elapsed_ticks / tick_hz <= SLEEP_AFTER_SECS ==> s.spec_step(false, elapsed_ticks, tick_hz)
            == ((s, TimerCmd::Keep)),
{
}

} // verus!
