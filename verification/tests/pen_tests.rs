use redaction::audio::LoopCommand;
use redaction::audio::SoundBank;
use redaction::audio::SoundEvent;
use redaction::audio::Sounds;
use redaction::feedback::feedback_sound;
use redaction::feedback::FeedbackObject;
use redaction::feedback::Feedbacks;
use redaction::pen::can_draw_check;
use redaction::pen::check_refill;
use redaction::pen::handle_sound_loops;
use redaction::pen::next_animation;
use redaction::pen::pen_drop;
use redaction::pen::GoNextPage;
use redaction::pen::InkSupplyPercent;
use redaction::pen::Marker;

fn marker(tip_active: bool, can_draw: bool, off_page: bool) -> Marker {
    Marker { tip_active, can_draw, off_page }
}

#[test]
fn refilling_needs_the_tip_at_the_reservoir() {
    let mut ink = InkSupplyPercent(40, false);

    check_refill(&marker(true, true, false), &mut ink, true);
    assert_eq!(ink, InkSupplyPercent(41, true));

    check_refill(&marker(true, true, false), &mut ink, false);
    assert_eq!(ink, InkSupplyPercent(41, false));

    check_refill(&marker(false, true, false), &mut ink, true);
    assert_eq!(ink, InkSupplyPercent(41, false));
}

#[test]
fn drawing_needs_ink_and_an_uncapped_pen() {
    let mut m = marker(true, false, false);
    can_draw_check(&mut m, &InkSupplyPercent(50, false), 1);
    assert!(m.can_draw);

    can_draw_check(&mut m, &InkSupplyPercent(0, false), 1);
    assert!(!m.can_draw);

    can_draw_check(&mut m, &InkSupplyPercent(50, false), 0);
    assert!(!m.can_draw);
}

#[test]
fn lifting_the_pen_leaves_the_page_and_stops_refilling() {
    let mut m = marker(true, true, false);
    let mut ink = InkSupplyPercent(30, true);

    pen_drop(&mut m, &mut ink, true);
    assert!(!m.off_page);
    assert!(ink.1);

    pen_drop(&mut m, &mut ink, false);
    assert!(m.off_page);
    assert!(!ink.1);
    assert_eq!(ink.0, 30);
}

#[test]
fn animations_cycle_in_order() {
    assert_eq!(next_animation(0, 2), 1);
    assert_eq!(next_animation(1, 2), 0);
    assert_eq!(next_animation(2, 5), 3);
    assert_eq!(next_animation(0, 1), 0);
}

#[test]
fn button_fires_once_per_press() {
    let mut b = GoNextPage { go: false, can_go: true };
    let m = marker(true, true, false);

    // Tip near the armed button: fires and disarms.
    b.check_button(&m, true, false);
    assert!(b.go);
    assert!(!b.can_go);

    // Still held near it: no second fire.
    b.check_button(&m, true, false);
    assert!(!b.go);
    assert!(!b.can_go);

    // Releasing the mouse re-arms it.
    b.check_button(&m, false, true);
    assert!(!b.go);
    assert!(b.can_go);

    // Without the tip down, nothing fires.
    b.check_button(&marker(false, true, false), true, false);
    assert!(!b.go);
    assert!(b.can_go);
}

#[test]
fn loop_sounds_follow_the_pen_state() {
    let quiet = SoundBank::new();
    let mut loud = SoundBank::new();
    loud.note_played(&SoundEvent { sound: Sounds::Slurp, looped: true });
    assert!(loud.looping);

    // Refilling starts the slurp loop, unless one is playing.
    let refilling = InkSupplyPercent(10, true);
    let idle_ink = InkSupplyPercent(10, false);
    assert_eq!(
        handle_sound_loops(&marker(true, true, true), &refilling, &quiet),
        LoopCommand::Start(Sounds::Slurp)
    );
    assert_eq!(
        handle_sound_loops(&marker(true, true, true), &refilling, &loud),
        LoopCommand::Keep
    );

    // Drawing on the page starts the drag loop.
    assert_eq!(
        handle_sound_loops(&marker(true, true, false), &idle_ink, &quiet),
        LoopCommand::Start(Sounds::MarkerDrag)
    );

    // Anything else stops a playing loop and otherwise stays quiet.
    assert_eq!(
        handle_sound_loops(&marker(true, false, true), &idle_ink, &loud),
        LoopCommand::Stop
    );
    assert_eq!(
        handle_sound_loops(&marker(true, false, true), &idle_ink, &quiet),
        LoopCommand::Keep
    );
}

#[test]
fn one_shot_sounds_leave_the_loop_slot_alone() {
    let mut bank = SoundBank::new();
    bank.note_played(&SoundEvent { sound: Sounds::Correct, looped: false });
    assert!(!bank.looping);
    bank.note_played(&SoundEvent { sound: Sounds::MarkerDrag, looped: true });
    assert!(bank.looping);
    bank.note_stopped();
    assert!(!bank.looping);
}

#[test]
fn feedback_picks_its_sound() {
    assert_eq!(feedback_sound(Feedbacks::Correct), Sounds::Correct);
    assert_eq!(feedback_sound(Feedbacks::Wrong), Sounds::Wrong);
}

#[test]
fn feedback_objects_expire_after_their_lifetime() {
    let mut fb = FeedbackObject::new(3_000);
    assert!(!fb.tick(1_000));
    assert!(!fb.tick(1_999));
    assert!(fb.tick(1));
    assert!(fb.tick(500));
}
