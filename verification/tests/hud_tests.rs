use convenient_window::adjustment_hud::{
    Feedback, Kind, Level, Presentation, Screen, PENDING_DELAY_MS, PENDING_LIFETIME_MS,
};

const NOW: u64 = 1_000_000;

/// The key under which the overlay compares a level reading.
fn level_key(value: f32) -> Option<u32> {
    if value.is_nan() {
        None
    } else if value == 0.0 {
        Some(0)
    } else {
        Some(value.to_bits())
    }
}

fn feedback(sequence: u64, pending: bool) -> Feedback {
    Feedback {
        interaction: 1,
        sequence,
        pending,
        kind: Kind::Brightness,
        screen: Screen { left: -1920, top: 0, right: 0, bottom: 1080 },
        level: None,
        error: None,
    }
}

fn readback(sequence: u64, value: f32) -> Feedback {
    let mut result = feedback(sequence, false);
    result.level = Some(Level { value: level_key(value), muted: false, device_name: "Display".into() });
    result
}

#[test]
fn old_results_cannot_replace_or_extend_a_new_action() {
    let now = NOW;
    let mut state = Presentation::default();
    assert!(state.update(feedback(2, true), now));
    assert!(!state.update(feedback(1, false), now));
    assert!(state.update(feedback(2, false), now));
    assert!(!state.expire(now + 1_000));
    assert!(state.expire(now + 2_000));
    assert!(!state.expire(now + 3_000));
    assert!(!state.update(feedback(1, false), now));
}

#[test]
fn unchanged_readbacks_extend_lifetime_without_redrawing_or_showing_again() {
    let now = NOW;
    let mut state = Presentation::default();
    let initial = readback(1, 0.4);
    state.update(initial.clone(), now);
    state.positioned_screen = Some(initial.screen);
    state.rendered_revision = state.snapshot.revision;
    assert!(state.try_reveal(now));
    state.visible = true;
    let revision = state.snapshot.revision;
    for sequence in 2..=100u64 {
        let mut next = readback(sequence, 0.4);
        next.pending = sequence % 2 == 1;
        assert!(!state.update(next, now + sequence * 30));
        assert_eq!(state.snapshot.revision, revision);
        assert!(!state.try_reveal(now));
    }
    assert!(!state.expire(now + 4_199));
    assert!(state.expire(now + 4_200));
    assert!(state.update(readback(101, 0.4), now + 5_000));
    state.rendered_revision = state.snapshot.revision;
    assert!(state.try_reveal(now + 5_000));
}

#[test]
fn device_mute_errors_and_screen_changes_still_redraw() {
    let now = NOW;
    let initial = readback(1, 0.4);
    let mut variants = vec![readback(2, 0.5); 5];
    variants[1].level.as_mut().unwrap().muted = true;
    variants[1].level.as_mut().unwrap().value = level_key(0.4);
    variants[2].level.as_mut().unwrap().device_name = "Other display".into();
    variants[2].level.as_mut().unwrap().value = level_key(0.4);
    variants[3].error = Some("Unavailable".into());
    variants[4].screen.left = 0;
    for next in variants {
        let mut state = Presentation::default();
        state.update(initial.clone(), now);
        state.positioned_screen = Some(initial.screen);
        state.visible = true;
        assert!(state.update(next, now));
        assert_eq!(state.snapshot.revision, 2);
    }
    let mut state = Presentation::default();
    state.update(initial.clone(), now);
    state.positioned_screen = Some(initial.screen);
    assert!(!state.update(readback(2, 0.4), now));
    state.positioned_screen = None;
    assert!(state.update(readback(3, 0.4), now));
}

#[test]
fn idle_and_unrendered_pending_do_not_schedule_main_thread_ticks() {
    let now = NOW;
    let mut state = Presentation::default();
    assert!(!state.timer_due(now));
    state.update(feedback(1, true), now);
    assert!(!state.timer_due(now + PENDING_DELAY_MS));
    state.rendered_revision = state.snapshot.revision;
    assert!(!state.timer_due(now + 249));
    assert!(state.timer_due(now + PENDING_DELAY_MS));
    assert!(state.try_reveal(now + PENDING_DELAY_MS));
    state.visible = true;
    assert!(!state.timer_due(now + 1_000));
    assert!(state.timer_due(now + PENDING_LIFETIME_MS));
    state.expire(now + PENDING_LIFETIME_MS);
    assert!(!state.timer_due(now + PENDING_LIFETIME_MS));
}

#[test]
fn continuous_input_keeps_readback_until_the_next_result() {
    let now = NOW;
    let mut state = Presentation::default();
    state.update(readback(1, 0.4), now);
    for sequence in 2..20u64 {
        let mut pending = readback(sequence, 0.4);
        pending.pending = true;
        state.update(pending, now);
        state.rendered_revision = state.snapshot.revision;
        assert!(state.try_reveal(now));
        let shown = state.snapshot.feedback.as_ref().unwrap();
        assert!(shown.pending);
        assert_eq!(shown.level.as_ref().unwrap().value, level_key(0.4));
        assert_eq!(shown.level.as_ref().unwrap().device_name, "Display");
    }
    state.update(readback(19, 0.6), now);
    assert_eq!(
        state.snapshot.feedback.as_ref().unwrap().level.as_ref().unwrap().value,
        level_key(0.6)
    );
    let mut failure = feedback(20, false);
    failure.error = Some("Disconnected".into());
    state.update(failure, now);
    assert!(state.snapshot.feedback.as_ref().unwrap().level.is_none());
}

#[test]
fn slow_feedback_is_revealed_once_without_postponement_by_new_input() {
    let now = NOW;
    let mut state = Presentation::default();
    for sequence in 1..=5u64 {
        let time = now + sequence * 40 - 40;
        state.update(feedback(sequence, true), time);
        state.rendered_revision = state.snapshot.revision;
        assert!(!state.try_reveal(time));
    }
    assert!(!state.try_reveal(now + 249));
    assert!(state.try_reveal(now + 250));
    state.update(feedback(6, true), now + 300);
    state.rendered_revision = state.snapshot.revision;
    assert!(state.try_reveal(now + 300));
}

#[test]
fn fast_readback_or_error_cancels_the_initial_wait() {
    let now = NOW;
    let mut failure = feedback(2, false);
    failure.error = Some("Disconnected".into());
    for result in [readback(2, 0.4), failure] {
        let mut state = Presentation::default();
        state.update(feedback(1, true), now);
        state.rendered_revision = state.snapshot.revision;
        assert!(!state.try_reveal(now));
        state.update(result, now + 20);
        assert!(!state.try_reveal(now + 20));
        state.rendered_revision = state.snapshot.revision;
        assert!(state.try_reveal(now + 20));
        assert!(state.reveal_at.is_none());
        assert!(state.expire(now + 4_000));
        assert!(!state.try_reveal(now + 4_000));
    }
}

#[test]
fn new_interaction_or_expired_hud_starts_a_fresh_wait() {
    let now = NOW;
    let mut other_kind = feedback(2, true);
    other_kind.kind = Kind::Volume;
    other_kind.interaction = 2;
    let mut other_screen = feedback(2, true);
    other_screen.screen.left = 0;
    other_screen.interaction = 2;
    for (next, delay, expire) in [
        (other_kind, 0u64, false),
        (other_screen, 0, false),
        (feedback(2, true), 2_000, false),
        (feedback(2, true), 2_000, true),
    ] {
        let mut state = Presentation::default();
        state.update(readback(1, 0.4), now);
        if expire {
            state.expire(now + delay);
        }
        state.update(next, now + delay);
        assert!(state.snapshot.feedback.as_ref().unwrap().level.is_none());
        state.rendered_revision = state.snapshot.revision;
        assert!(!state.try_reveal(now + delay));
        assert!(state.try_reveal(now + delay + 250));
    }
}

#[test]
fn reset_tick_forgets_reports_and_hides_the_overlay() {
    let now = NOW;
    let mut state = Presentation::default();
    state.update(feedback(5, true), now);
    let revision = state.snapshot.revision;
    assert_eq!(state.tick(true, now), (true, false));
    assert_eq!(state.latest, 0);
    assert_eq!(state.snapshot.revision, revision + 1);
    assert!(state.snapshot.feedback.is_none());
    assert!(state.update(feedback(1, true), now));
}

#[test]
fn timer_tick_ends_a_finished_wait_or_clears_an_expired_overlay() {
    let now = NOW;
    let mut state = Presentation::default();
    state.update(feedback(1, true), now);
    state.rendered_revision = state.snapshot.revision;
    assert_eq!(state.tick(false, now + 100), (false, false));
    assert_eq!(state.tick(false, now + PENDING_DELAY_MS), (false, true));
    assert!(state.reveal_at.is_none());
    state.visible = true;
    assert_eq!(state.tick(false, now + PENDING_LIFETIME_MS), (true, false));
    assert!(!state.visible);
    assert!(state.snapshot.feedback.is_none());
}

#[test]
fn readings_that_are_not_numbers_always_redraw() {
    let now = NOW;
    let mut state = Presentation::default();
    let first = readback(1, f32::NAN);
    state.update(first.clone(), now);
    state.positioned_screen = Some(first.screen);
    assert!(state.update(readback(2, f32::NAN), now));
    let zero = readback(3, 0.0);
    state.update(zero, now);
    state.positioned_screen = Some(first.screen);
    assert!(!state.update(readback(4, -0.0), now));
}

#[test]
fn same_content_ignores_pending_once_a_reading_is_shown() {
    let a = readback(1, 0.4);
    let mut b = readback(2, 0.4);
    b.pending = true;
    assert!(a.same_content(&b));
    let c = feedback(3, true);
    let d = feedback(4, false);
    assert!(!c.same_content(&d));
    assert!(c.same_content(&feedback(5, true)));
}

#[test]
fn a_visible_overlay_hides_while_a_new_wait_runs_and_is_placed_once() {
    let now = NOW;
    let mut state = Presentation::default();
    state.update(readback(1, 0.4), now);
    assert!(state.needs_placement(&Screen { left: -1920, top: 0, right: 0, bottom: 1080 }));
    state.positioned_screen = Some(Screen { left: -1920, top: 0, right: 0, bottom: 1080 });
    assert!(!state.needs_placement(&Screen { left: -1920, top: 0, right: 0, bottom: 1080 }));
    assert!(state.needs_placement(&Screen { left: 0, top: 0, right: 1920, bottom: 1080 }));
    state.visible = true;
    assert!(!state.hides_for_wait(now));
    let mut next = feedback(2, true);
    next.interaction = 2;
    state.update(next, now);
    assert!(state.hides_for_wait(now + 100));
    assert!(!state.hides_for_wait(now + PENDING_DELAY_MS));
}
