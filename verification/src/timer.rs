//! The Pomodoro phase timer: a small state machine over phases, a
//! one-second countdown, and a completed-cycle counter.

use vstd::prelude::*;

verus! {

/// Nominal Focus duration in seconds (25 minutes).
pub const FOCUS_SECS: u64 = 1500;
/// Nominal short-break duration in seconds (5 minutes).
pub const SHORT_BREAK_SECS: u64 = 300;
/// Nominal long-break duration in seconds (30 minutes).
pub const LONG_BREAK_SECS: u64 = 1800;

/// The three phases of the Pomodoro cycle.
#[derive(Clone, Copy, Debug, PartialEq, Eq, Structural)]
pub enum Phase {
    Focus,
    ShortBreak,
    LongBreak,
}

impl Phase {
    /// Nominal duration of this phase, in seconds.
    pub open spec fn spec_duration_secs(self) -> u64 {
        match self {
            Phase::Focus => FOCUS_SECS,
            Phase::ShortBreak => SHORT_BREAK_SECS,
            Phase::LongBreak => LONG_BREAK_SECS,
        }
    }

    /// Nominal duration of this phase, in seconds.
    pub fn duration_secs(&self) -> (d: u64)
        ensures
            d == self.spec_duration_secs(),
    {
        match self {
            Phase::Focus => FOCUS_SECS,
            Phase::ShortBreak => SHORT_BREAK_SECS,
            Phase::LongBreak => LONG_BREAK_SECS,
        }
    }
}

/// The full timer state.
///
/// `focus_total_secs` remembers the configured Focus duration (nominal,
/// or chosen by the user) so that it survives breaks: when a break
/// completes, the next Focus phase starts from this value, not from the
/// nominal one.
#[derive(Clone, Copy, Debug, PartialEq, Eq, Structural)]
pub struct TimerState {
    pub phase: Phase,
    pub remaining_secs: u64,
    pub total_secs: u64,
    pub is_running: bool,
    pub cycles_completed: usize,
    pub focus_total_secs: u64,
}

/// The break chosen after a Focus phase completes, given the cycle count
/// that now includes it: every fourth cycle earns the long break.
pub open spec fn spec_next_phase_after_focus(cycles_after: int) -> Phase {
    if cycles_after % 4 == 0 {
        Phase::LongBreak
    } else {
        Phase::ShortBreak
    }
}

/// The timer state one tick later.
///
/// A tick is a no-op while paused. With time left it counts one second
/// down. With no time left it performs the phase completion: out of
/// Focus it bumps the cycle counter and selects the break by the cycle
/// rule; out of a break it returns to Focus with the configured Focus
/// duration. The running flag is never touched, so breaks auto-start.
pub open spec fn spec_after_tick(s: TimerState) -> TimerState {
    if !s.is_running {
        s
    } else if s.remaining_secs > 0 {
        TimerState { remaining_secs: (s.remaining_secs - 1) as u64, ..s }
    } else if s.phase is Focus {
        let c = s.cycles_completed + 1;
        let p = spec_next_phase_after_focus(c);
        TimerState {
            phase: p,
            remaining_secs: p.spec_duration_secs(),
            total_secs: p.spec_duration_secs(),
            cycles_completed: c as usize,
            ..s
        }
    } else {
        TimerState {
            phase: Phase::Focus,
            remaining_secs: s.focus_total_secs,
            total_secs: s.focus_total_secs,
            ..s
        }
    }
}

/// The timer state after `reset`: Focus at the nominal duration,
/// paused, cycle counter untouched.
pub open spec fn spec_after_reset(s: TimerState) -> TimerState {
    TimerState {
        phase: Phase::Focus,
        remaining_secs: FOCUS_SECS,
        total_secs: FOCUS_SECS,
        is_running: false,
        cycles_completed: s.cycles_completed,
        focus_total_secs: FOCUS_SECS,
    }
}

/// The timer state after `set_duration(seconds)`: a no-op while
/// running, otherwise Focus paused at the chosen duration, which also
/// becomes the configured Focus duration.
pub open spec fn spec_after_set_duration(s: TimerState, seconds: u64) -> TimerState {
    if s.is_running {
        s
    } else {
        TimerState {
            phase: Phase::Focus,
            remaining_secs: seconds,
            total_secs: seconds,
            is_running: false,
            cycles_completed: s.cycles_completed,
            focus_total_secs: seconds,
        }
    }
}

/// The timer state `n` ticks later.
pub open spec fn spec_after_ticks(s: TimerState, n: nat) -> TimerState
    decreases n,
{
    if n == 0 {
        s
    } else {
        spec_after_tick(spec_after_ticks(s, (n - 1) as nat))
    }
}

impl TimerState {
    /// The countdown never runs past the phase length, and a Focus phase
    /// always shows the configured Focus duration as its total.
    pub open spec fn wf(self) -> bool {
        &&& self.remaining_secs <= self.total_secs
        &&& self.phase is Focus ==> self.total_secs == self.focus_total_secs
    }

    /// The state the application starts in: Focus, nominal duration,
    /// paused, no cycles completed.
    pub open spec fn spec_initial() -> TimerState {
        TimerState {
            phase: Phase::Focus,
            remaining_secs: FOCUS_SECS,
            total_secs: FOCUS_SECS,
            is_running: false,
            cycles_completed: 0,
            focus_total_secs: FOCUS_SECS,
        }
    }

    /// Flips the running flag; counters and durations are untouched.
    pub fn toggle_run(&mut self)
        ensures
            *final(self) == (TimerState { is_running: !old(self).is_running, ..*old(self) }),
    {
        self.is_running = !self.is_running;
    }

    /// Advances the timer by one tick and reports a completed Focus
    /// phase, if any, with the duration to persist for it (the
    /// configured Focus total, not elapsed wall time).
    pub fn tick(&mut self) -> (completed_focus: Option<u64>)
        requires
            old(self).is_running && old(self).remaining_secs == 0 && old(self).phase is Focus
                ==> old(self).cycles_completed < usize::MAX,
        ensures
            *final(self) == spec_after_tick(*old(self)),
            completed_focus == (if old(self).is_running && old(self).remaining_secs == 0
                && old(self).phase is Focus {
                Some(old(self).total_secs)
            } else {
                None::<u64>
            }),
    {
        if self.is_running {
            if self.remaining_secs > 0 {
                self.remaining_secs = self.remaining_secs - 1;
                None
            } else {
                match self.phase {
                    Phase::Focus => {
                        let completed_total = self.total_secs;
                        self.cycles_completed = self.cycles_completed + 1;
                        if self.cycles_completed % 4 == 0 {
                            self.phase = Phase::LongBreak;
                        } else {
                            self.phase = Phase::ShortBreak;
                        }
                        let d = self.phase.duration_secs();
                        self.remaining_secs = d;
                        self.total_secs = d;
                        Some(completed_total)
                    }
                    _ => {
                        self.phase = Phase::Focus;
                        self.remaining_secs = self.focus_total_secs;
                        self.total_secs = self.focus_total_secs;
                        None
                    }
                }
            }
        } else {
            None
        }
    }

    /// Forces Focus phase at the nominal duration, paused. The cycle
    /// counter is never changed.
    pub fn reset(&mut self)
        ensures
            *final(self) == spec_after_reset(*old(self)),
    {
        self.phase = Phase::Focus;
        self.remaining_secs = FOCUS_SECS;
        self.total_secs = FOCUS_SECS;
        self.is_running = false;
        self.focus_total_secs = FOCUS_SECS;
    }

    /// Drains the countdown so that the next tick performs the normal
    /// completion transition; no transition happens here.
    pub fn skip_phase(&mut self)
        ensures
            *final(self) == (TimerState { remaining_secs: 0, ..*old(self) }),
    {
        self.remaining_secs = 0;
    }

    /// Chooses a custom Focus duration. Valid only while paused: while
    /// running the call is a no-op. Break durations are unaffected.
    pub fn set_duration(&mut self, seconds: u64)
        ensures
            *final(self) == spec_after_set_duration(*old(self), seconds),
    {
        if !self.is_running {
            self.phase = Phase::Focus;
            self.remaining_secs = seconds;
            self.total_secs = seconds;
            self.focus_total_secs = seconds;
        }
    }
}

impl Default for TimerState {
    /// The application's starting timer state.
    fn default() -> (t: TimerState)
        ensures
            t == TimerState::spec_initial(),
    {
        TimerState {
            phase: Phase::Focus,
            remaining_secs: FOCUS_SECS,
            total_secs: FOCUS_SECS,
            is_running: false,
            cycles_completed: 0,
            focus_total_secs: FOCUS_SECS,
        }
    }
}

/// Law: while the timer runs inside a phase, ticking counts straight
/// down. Over any sequence of `n` ticks that stays within the current
/// phase, the remaining seconds after each step equal the start minus
/// the steps taken — non-increasing, and never wrapping below zero.
pub proof fn lemma_ticks_count_down(s: TimerState, n: nat)
    requires
        s.is_running,
        n <= s.remaining_secs,
    ensures
        forall|m: nat|
            m <= n ==> #[trigger] spec_after_ticks(s, m).remaining_secs == s.remaining_secs - m,
        forall|m: nat| m <= n ==> #[trigger] spec_after_ticks(s, m).is_running,
    decreases n,
{
    if n > 0 {
        lemma_ticks_count_down(s, (n - 1) as nat);
        assert(spec_after_ticks(s, n) == spec_after_tick(spec_after_ticks(s, (n - 1) as nat)));
    }
}

/// Law: the tick that completes a Focus phase increments the cycle
/// counter by exactly one and selects the next break by the cycle rule:
/// LongBreak exactly when the new count is a multiple of four,
/// ShortBreak otherwise, each starting at its nominal duration.
pub proof fn lemma_break_selection(s: TimerState)
    requires
        s.is_running,
        s.remaining_secs == 0,
        s.phase is Focus,
        s.cycles_completed < usize::MAX,
    ensures
        spec_after_tick(s).cycles_completed == s.cycles_completed + 1,
        spec_after_tick(s).phase == (if (s.cycles_completed + 1) % 4 == 0 {
            Phase::LongBreak
        } else {
            Phase::ShortBreak
        }),
        spec_after_tick(s).remaining_secs == spec_after_tick(s).phase.spec_duration_secs(),
        spec_after_tick(s).total_secs == spec_after_tick(s).phase.spec_duration_secs(),
        spec_after_tick(s).is_running == s.is_running,
{
}

/// Law: a tick preserves the timer's well-formedness.
pub proof fn lemma_tick_preserves_wf(s: TimerState)
    requires
        s.wf(),
    ensures
        spec_after_tick(s).wf(),
{
}

} // verus!
