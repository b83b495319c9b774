use pomimi::timer::{Phase, TimerState, FOCUS_SECS, LONG_BREAK_SECS, SHORT_BREAK_SECS};

fn running_focus(remaining: u64, cycles: usize) -> TimerState {
    TimerState {
        phase: Phase::Focus,
        remaining_secs: remaining,
        total_secs: FOCUS_SECS,
        is_running: true,
        cycles_completed: cycles,
        focus_total_secs: FOCUS_SECS,
    }
}

#[test]
fn durations_are_nominal() {
    assert_eq!(Phase::Focus.duration_secs(), 1500);
    assert_eq!(Phase::ShortBreak.duration_secs(), 300);
    assert_eq!(Phase::LongBreak.duration_secs(), 1800);
}

#[test]
fn default_state_is_focus_paused() {
    let t = TimerState::default();
    assert_eq!(t.phase, Phase::Focus);
    assert_eq!(t.remaining_secs, FOCUS_SECS);
    assert_eq!(t.total_secs, FOCUS_SECS);
    assert!(!t.is_running);
    assert_eq!(t.cycles_completed, 0);
}

#[test]
fn tick_while_paused_changes_nothing() {
    let mut t = TimerState::default();
    let completed = t.tick();
    assert!(completed.is_none());
    assert_eq!(t, TimerState::default());
}

#[test]
fn tick_counts_down_by_one_second() {
    let mut t = running_focus(10, 0);
    for expected in (0..10).rev() {
        let completed = t.tick();
        assert!(completed.is_none());
        assert_eq!(t.remaining_secs, expected);
        assert_eq!(t.phase, Phase::Focus);
    }
}

#[test]
fn fourth_cycle_selects_long_break() {
    // Starting at cycles_completed = 3 with the nominal Focus duration,
    // 1500 ticks drain the phase and the completing tick selects
    // LongBreak at its nominal 1800 seconds.
    let mut t = running_focus(FOCUS_SECS, 3);
    for _ in 0..FOCUS_SECS {
        assert!(t.tick().is_none());
    }
    assert_eq!(t.remaining_secs, 0);
    assert_eq!(t.phase, Phase::Focus);
    let completed = t.tick();
    assert_eq!(completed, Some(FOCUS_SECS));
    assert_eq!(t.phase, Phase::LongBreak);
    assert_eq!(t.remaining_secs, LONG_BREAK_SECS);
    assert_eq!(t.total_secs, LONG_BREAK_SECS);
    assert_eq!(t.cycles_completed, 4);
    assert!(t.is_running);
}

#[test]
fn other_cycles_select_short_break() {
    let mut t = running_focus(0, 0);
    let completed = t.tick();
    assert_eq!(completed, Some(FOCUS_SECS));
    assert_eq!(t.phase, Phase::ShortBreak);
    assert_eq!(t.remaining_secs, SHORT_BREAK_SECS);
    assert_eq!(t.cycles_completed, 1);
}

#[test]
fn break_completion_returns_to_configured_focus() {
    // A custom Focus duration is sticky across breaks.
    let mut t = TimerState::default();
    t.set_duration(3000);
    t.toggle_run();
    t.skip_phase();
    let completed = t.tick(); // completes Focus, enters a break
    assert_eq!(completed, Some(3000));
    assert_eq!(t.phase, Phase::ShortBreak);
    t.skip_phase();
    let completed = t.tick(); // completes the break
    assert!(completed.is_none());
    assert_eq!(t.phase, Phase::Focus);
    assert_eq!(t.remaining_secs, 3000);
    assert_eq!(t.total_secs, 3000);
}

#[test]
fn reset_restores_focus_defaults_and_keeps_cycles() {
    let mut t = running_focus(7, 2);
    t.set_duration(3000); // no-op while running
    t.reset();
    assert_eq!(t.phase, Phase::Focus);
    assert_eq!(t.remaining_secs, 1500);
    assert_eq!(t.total_secs, 1500);
    assert!(!t.is_running);
    assert_eq!(t.cycles_completed, 2);
}

#[test]
fn set_duration_while_paused_takes_effect() {
    let mut t = TimerState::default();
    t.set_duration(3000);
    assert_eq!(t.phase, Phase::Focus);
    assert_eq!(t.remaining_secs, 3000);
    assert_eq!(t.total_secs, 3000);
    assert!(!t.is_running);
}

#[test]
fn set_duration_while_running_is_a_noop() {
    let mut t = running_focus(42, 1);
    let before = t;
    t.set_duration(3000);
    assert_eq!(t, before);
}

#[test]
fn toggle_run_flips_only_the_running_flag() {
    let mut t = TimerState::default();
    t.toggle_run();
    assert!(t.is_running);
    assert_eq!(t.remaining_secs, FOCUS_SECS);
    t.toggle_run();
    assert!(!t.is_running);
}

#[test]
fn skip_phase_defers_to_the_next_tick() {
    let mut t = running_focus(1234, 0);
    t.skip_phase();
    assert_eq!(t.remaining_secs, 0);
    assert_eq!(t.phase, Phase::Focus);
    assert_eq!(t.cycles_completed, 0);
    let completed = t.tick();
    assert_eq!(completed, Some(FOCUS_SECS));
    assert_eq!(t.phase, Phase::ShortBreak);
}
