use redaction::CountdownTimer;
use redaction::GameState;
use redaction::timer::clock_display;
use redaction::timer::update_countdown;
use redaction::timer::LIFETIME_MS;
use redaction::timer::PENALTY_MS;

#[test]
fn ticking_counts_down_and_clamps_at_zero() {
    let mut t = CountdownTimer::new(5_000);
    assert_eq!(t.remaining_ms(), 5_000);
    assert!(!t.is_finished());

    t.tick(1_200);
    assert_eq!(t.remaining_ms(), 3_800);

    t.tick(10_000);
    assert_eq!(t.remaining_ms(), 0);
    assert!(t.is_finished());

    // Finished stays finished.
    t.tick(1);
    assert_eq!(t.remaining_ms(), 0);
    assert!(t.is_finished());
}

#[test]
fn penalty_deducts_the_fixed_amount() {
    let mut t = CountdownTimer::new(5_000);
    t.penalty();
    assert_eq!(t.remaining_ms(), 5_000 - PENALTY_MS);
    let mut short = CountdownTimer::new(300);
    short.penalty();
    assert_eq!(short.remaining_ms(), 0);
}

#[test]
fn session_ends_exactly_when_the_countdown_runs_out() {
    let mut t = CountdownTimer::new(2_000);
    assert_eq!(update_countdown(&mut t, 1_999), None);
    assert_eq!(update_countdown(&mut t, 1), Some(GameState::END));
    assert_eq!(update_countdown(&mut t, 5), Some(GameState::END));
}

#[test]
fn remaining_seconds_round_down() {
    let mut t = CountdownTimer::new(LIFETIME_MS);
    t.tick(500);
    assert_eq!(t.remaining_secs(), (LIFETIME_MS / 1000) - 1);
}

#[test]
fn clock_face_splits_minutes_and_seconds() {
    assert_eq!(clock_display(0), (0, 0));
    assert_eq!(clock_display(59), (0, 59));
    assert_eq!(clock_display(60), (1, 0));
    assert_eq!(clock_display(200), (3, 20));
    assert_eq!(clock_display(3_599), (59, 59));
}
