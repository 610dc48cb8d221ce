//! Playback commands: the closed set of actions, their names, and the
//! one-line script that performs each.

use vstd::prelude::*;
use crate::error::{check_run, is_execution_error, script_failed_text, ScriptRun, SpotifyError};
use crate::text::same_chars;

verus! {

/// A playback command for the player.
#[derive(Clone, Copy, Debug, PartialEq, Eq, Structural)]
pub enum PlaybackAction {
    Play,
    Pause,
    Next,
    Previous,
    Quit,
}

/// The name by which a caller asks for an action.
pub open spec fn action_name(a: PlaybackAction) -> Seq<char> {
    match a {
        PlaybackAction::Play => "play"@,
        PlaybackAction::Pause => "pause"@,
        PlaybackAction::Next => "next"@,
        PlaybackAction::Previous => "previous"@,
        PlaybackAction::Quit => "quit"@,
    }
}

/// The action with the given name, if there is one.
pub open spec fn action_named(name: Seq<char>) -> Option<PlaybackAction> {
    if name == "play"@ {
        Some(PlaybackAction::Play)
    } else if name == "pause"@ {
        Some(PlaybackAction::Pause)
    } else if name == "next"@ {
        Some(PlaybackAction::Next)
    } else if name == "previous"@ {
        Some(PlaybackAction::Previous)
    } else if name == "quit"@ {
        Some(PlaybackAction::Quit)
    } else {
        None
    }
}

/// The script that performs an action.
pub open spec fn action_script(a: PlaybackAction) -> Seq<char> {
    match a {
        PlaybackAction::Play => "tell application \"Spotify\" to play"@,
        PlaybackAction::Pause => "tell application \"Spotify\" to pause"@,
        PlaybackAction::Next => "tell application \"Spotify\" to next track"@,
        PlaybackAction::Previous => "tell application \"Spotify\" to previous track"@,
        PlaybackAction::Quit => "tell application \"Spotify\" to quit"@,
    }
}

impl PlaybackAction {
    /// The action with the given name, if there is one.
    pub fn from_name(name: &str) -> (r: Option<PlaybackAction>)
        ensures
            r == action_named(name@),
    {
        if same_chars(name, "play") {
            Some(PlaybackAction::Play)
        } else if same_chars(name, "pause") {
            Some(PlaybackAction::Pause)
        } else if same_chars(name, "next") {
            Some(PlaybackAction::Next)
        } else if same_chars(name, "previous") {
            Some(PlaybackAction::Previous)
        } else if same_chars(name, "quit") {
            Some(PlaybackAction::Quit)
        } else {
            None
        }
    }

    /// The name of this action.
    pub fn name(&self) -> (r: &'static str)
        ensures
            r@ == action_name(*self),
    {
        match self {
            PlaybackAction::Play => "play",
            PlaybackAction::Pause => "pause",
            PlaybackAction::Next => "next",
            PlaybackAction::Previous => "previous",
            PlaybackAction::Quit => "quit",
        }
    }

    /// The script that performs this action.
    pub fn script(&self) -> (r: &'static str)
        ensures
            r@ == action_script(*self),
    {
        match self {
            PlaybackAction::Play => "tell application \"Spotify\" to play",
            PlaybackAction::Pause => "tell application \"Spotify\" to pause",
            PlaybackAction::Next => "tell application \"Spotify\" to next track",
            PlaybackAction::Previous => "tell application \"Spotify\" to previous track",
            PlaybackAction::Quit => "tell application \"Spotify\" to quit",
        }
    }
}

/// Each action's name leads back to that action, so the five names are
/// distinct.
pub proof fn lemma_action_name_round_trip(a: PlaybackAction)
    ensures
        action_named(action_name(a)) == Some(a),
{
    reveal_strlit("play");
    reveal_strlit("pause");
    reveal_strlit("next");
    reveal_strlit("previous");
    reveal_strlit("quit");
    assert("pause"@.len() != "play"@.len());
    assert("next"@[0] != "play"@[0] && "next"@[0] != "pause"@[0]);
    assert("previous"@.len() != "play"@.len() && "previous"@.len() != "pause"@.len());
    assert("previous"@.len() != "next"@.len());
    assert("quit"@[0] != "play"@[0] && "quit"@[0] != "next"@[0]);
    assert("quit"@.len() != "pause"@.len() && "quit"@.len() != "previous"@.len());
}

/// The script for the action with the given name; an unknown name is an
/// `InvalidAction` error, found before anything is run.
pub fn command_script(action: &str) -> (r: Result<&'static str, SpotifyError>)
    ensures
        match action_named(action@) {
            Some(a) => r matches Ok(s) && s@ == action_script(a),
            None => r == Err::<&'static str, SpotifyError>(SpotifyError::InvalidAction),
        },
{
    match PlaybackAction::from_name(action) {
        Some(a) => Ok(a.script()),
        None => Err(SpotifyError::InvalidAction),
    }
}

/// Turns the outcome of running a command script into the command's result:
/// a launch failure or a failure status is an execution error; the output
/// of a successful run is not read.
pub fn command_from_run(run: Result<ScriptRun, String>) -> (r: Result<(), SpotifyError>)
    ensures
        run is Err ==> is_execution_error(r, run->Err_0@),
        run is Ok && !run->Ok_0.success ==> is_execution_error(r, script_failed_text()),
        run is Ok && run->Ok_0.success ==> r is Ok,
{
    match check_run(run) {
        Err(e) => Err(e),
        Ok(_) => Ok(()),
    }
}

} // verus!
