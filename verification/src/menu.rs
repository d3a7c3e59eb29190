//! The decisions behind the menu and end screens: how a button looks for
//! a given interaction, and which state each action switches to.

use vstd::prelude::*;
use crate::GameState;

verus! {

/// How the pointer currently touches a button.
#[derive(Clone, Copy, PartialEq, Eq, Structural, Debug)]
pub enum ButtonInteraction {
    Pressed,
    Hovered,
    Idle,
}

/// Which of the button colours to show.
#[derive(Clone, Copy, PartialEq, Eq, Structural, Debug)]
pub enum ButtonVisual {
    Pressed,
    HoveredSelected,
    Hovered,
    Normal,
}

/// The button colour for an interaction: pressing, or resting on a
/// selected option, shows the pressed colour; hovering brightens, and a
/// selected option keeps its highlight under the pointer.
pub fn button_visual(interaction: ButtonInteraction, selected: bool) -> (v: ButtonVisual)
    ensures
        interaction == ButtonInteraction::Pressed ==> v == ButtonVisual::Pressed,
        interaction == ButtonInteraction::Idle && selected ==> v == ButtonVisual::Pressed,
        interaction == ButtonInteraction::Hovered && selected ==> v
            == ButtonVisual::HoveredSelected,
        interaction == ButtonInteraction::Hovered && !selected ==> v == ButtonVisual::Hovered,
        interaction == ButtonInteraction::Idle && !selected ==> v == ButtonVisual::Normal,
{
    match (interaction, selected) {
        (ButtonInteraction::Pressed, _) => ButtonVisual::Pressed,
        (ButtonInteraction::Idle, true) => ButtonVisual::Pressed,
        (ButtonInteraction::Hovered, true) => ButtonVisual::HoveredSelected,
        (ButtonInteraction::Hovered, false) => ButtonVisual::Hovered,
        (ButtonInteraction::Idle, false) => ButtonVisual::Normal,
    }
}

/// The main menu's options.
#[derive(Clone, Copy, PartialEq, Eq, Structural, Debug)]
pub enum MenuAction {
    Play,
    Quit,
}

/// Pressing a menu button: playing enters the session; quitting has no
/// next state — the caller ends the process.
pub fn menu_action(action: MenuAction) -> (next: Option<GameState>)
    ensures
        action == MenuAction::Play ==> next == Some(GameState::PLAYING),
        action == MenuAction::Quit ==> next is None,
{
    match action {
        MenuAction::Play => Some(GameState::PLAYING),
        MenuAction::Quit => None,
    }
}

/// The end screen's options.
#[derive(Clone, Copy, PartialEq, Eq, Structural, Debug)]
pub enum EndAction {
    Replay,
    Quit,
}

/// Pressing an end-screen button: replaying re-enters the end state (the
/// screen is rebuilt); quitting has no next state — the caller ends the
/// process.
pub fn end_action(action: EndAction) -> (next: Option<GameState>)
    ensures
        action == EndAction::Replay ==> next == Some(GameState::END),
        action == EndAction::Quit ==> next is None,
{
    match action {
        EndAction::Replay => Some(GameState::END),
        EndAction::Quit => None,
    }
}

} // verus!
