use redaction::menu::button_visual;
use redaction::menu::end_action;
use redaction::menu::menu_action;
use redaction::menu::ButtonInteraction;
use redaction::menu::ButtonVisual;
use redaction::menu::EndAction;
use redaction::menu::MenuAction;
use redaction::stages::glass_broken;
use redaction::stages::glass_stage;
use redaction::stages::mob_spawn_needed;
use redaction::stages::mob_target;
use redaction::timer::LIFETIME_MS;
use redaction::GameState;

#[test]
fn mob_grows_from_empty_to_full() {
    assert_eq!(mob_target(0, LIFETIME_MS), 0);
    assert_eq!(mob_target(LIFETIME_MS / 2, LIFETIME_MS), 16);
    assert_eq!(mob_target(LIFETIME_MS, LIFETIME_MS), 32);
    // One member appears exactly at 1/32 of the session: 6250 ms of
    // 200000 ms.
    assert_eq!(mob_target(6_249, LIFETIME_MS), 0);
    assert_eq!(mob_target(6_250, LIFETIME_MS), 1);
}

#[test]
fn mob_spawns_only_below_target() {
    assert!(mob_spawn_needed(0, 1));
    assert!(!mob_spawn_needed(1, 1));
    assert!(!mob_spawn_needed(5, 3));
}

#[test]
fn glass_cracks_stage_by_stage_and_caps() {
    assert_eq!(glass_stage(0, LIFETIME_MS), 0);
    // Stage 9 — the breaking point — is reached a little after 9/11 of
    // the session.
    assert_eq!(glass_stage(163_636, LIFETIME_MS), 8);
    assert_eq!(glass_stage(163_637, LIFETIME_MS), 9);
    // The last texture is the cap, even at full time.
    assert_eq!(glass_stage(LIFETIME_MS, LIFETIME_MS), 10);
}

#[test]
fn glass_breaks_at_stage_nine() {
    assert!(!glass_broken(8));
    assert!(glass_broken(9));
    assert!(glass_broken(10));
}

#[test]
fn buttons_colour_by_interaction() {
    assert_eq!(button_visual(ButtonInteraction::Pressed, false), ButtonVisual::Pressed);
    assert_eq!(button_visual(ButtonInteraction::Pressed, true), ButtonVisual::Pressed);
    assert_eq!(button_visual(ButtonInteraction::Idle, true), ButtonVisual::Pressed);
    assert_eq!(
        button_visual(ButtonInteraction::Hovered, true),
        ButtonVisual::HoveredSelected
    );
    assert_eq!(button_visual(ButtonInteraction::Hovered, false), ButtonVisual::Hovered);
    assert_eq!(button_visual(ButtonInteraction::Idle, false), ButtonVisual::Normal);
}

#[test]
fn menu_and_end_actions_pick_the_next_state() {
    assert_eq!(menu_action(MenuAction::Play), Some(GameState::PLAYING));
    assert_eq!(menu_action(MenuAction::Quit), None);
    assert_eq!(end_action(EndAction::Replay), Some(GameState::END));
    assert_eq!(end_action(EndAction::Quit), None);
}

#[test]
fn sessions_start_loading() {
    assert_eq!(GameState::default(), GameState::LOADING);
}
