//! Decisions of the UI loop, parted from its terminal and channel plumbing:
//! which player command an input event turns into, and how a player event
//! moves the playback position the renderer uses.

use vstd::prelude::*;

use crate::player;
use crate::player::Message;

verus! {

/// Input events the key handler produces for the UI loop.
#[derive(Clone, Debug)]
pub enum Event {
    /// Toggle between playing and paused.
    TogglePlay,
    /// Load the track at the given path.
    LoadTrack(String),
    /// Leave the application.
    Quit,
    /// Anything unrecognized; ignored.
    Unknown,
}

/// Represents the app's state.
pub struct AppState {}

impl Default for AppState {
    fn default() -> (r: AppState)
        ensures
            r == (AppState {}),
    {
        AppState {}
    }
}

/// What the UI loop does with one input event.
#[derive(Debug)]
pub enum UiAction {
    /// Forward the command to the player.
    Forward(Message),
    /// End the application.
    Quit,
    /// Do nothing.
    Ignore,
}

/// Maps one input event to the UI loop's action: play/pause and load are
/// forwarded to the player as commands, quit ends the loop, and anything
/// unrecognized is ignored rather than an error.
pub fn action_for_event(ev: Event) -> (a: UiAction)
    ensures
        a == match ev {
            Event::TogglePlay => UiAction::Forward(Message::TogglePlay),
            Event::LoadTrack(path) => UiAction::Forward(Message::Load(path)),
            Event::Quit => UiAction::Quit,
            Event::Unknown => UiAction::Ignore,
        },
{
    match ev {
        Event::TogglePlay => UiAction::Forward(Message::TogglePlay),
        Event::LoadTrack(path) => UiAction::Forward(Message::Load(path)),
        Event::Quit => UiAction::Quit,
        Event::Unknown => UiAction::Ignore,
    }
}

/// Folds one player event into the playback position the renderer centers
/// on: so many played packets advance it, every other event leaves it.
pub fn apply_player_event(position: usize, ev: &player::Event) -> (r: usize)
    requires
        (*ev) matches player::Event::PlayedPackage(n) ==> position + n <= usize::MAX,
    ensures
        r == match *ev {
            player::Event::PlayedPackage(n) => (position + n) as usize,
            _ => position,
        },
{
    match ev {
        player::Event::PlayedPackage(n) => position + *n,
        _ => position,
    }
}

} // verus!
