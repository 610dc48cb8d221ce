use spotify_menubar::error::{ScriptRun, SpotifyError};
use spotify_menubar::playback::{command_from_run, command_script, PlaybackAction};

#[test]
fn unknown_action_is_rejected() {
    assert_eq!(command_script("shuffle"), Err(SpotifyError::InvalidAction));
    assert_eq!(command_script("Play"), Err(SpotifyError::InvalidAction));
    assert_eq!(command_script(""), Err(SpotifyError::InvalidAction));
    assert_eq!(command_script("play "), Err(SpotifyError::InvalidAction));
}

#[test]
fn known_actions_have_their_scripts() {
    assert_eq!(command_script("play"), Ok("tell application \"Spotify\" to play"));
    assert_eq!(command_script("pause"), Ok("tell application \"Spotify\" to pause"));
    assert_eq!(command_script("next"), Ok("tell application \"Spotify\" to next track"));
    assert_eq!(command_script("previous"), Ok("tell application \"Spotify\" to previous track"));
    assert_eq!(command_script("quit"), Ok("tell application \"Spotify\" to quit"));
}

#[test]
fn action_names_round_trip() {
    let all = [
        PlaybackAction::Play,
        PlaybackAction::Pause,
        PlaybackAction::Next,
        PlaybackAction::Previous,
        PlaybackAction::Quit,
    ];
    for a in all {
        assert_eq!(PlaybackAction::from_name(a.name()), Some(a));
        assert_eq!(command_script(a.name()), Ok(a.script()));
    }
    assert_eq!(PlaybackAction::from_name("stop"), None);
}

#[test]
fn failed_command_run_is_an_execution_error() {
    let run = ScriptRun { success: false, stdout: b"anything".to_vec() };
    assert_eq!(
        command_from_run(Ok(run)),
        Err(SpotifyError::Execution("Failed to execute AppleScript".to_string()))
    );
    assert_eq!(
        command_from_run(Err("cannot spawn".to_string())),
        Err(SpotifyError::Execution("cannot spawn".to_string()))
    );
}

#[test]
fn successful_command_run_ignores_output() {
    let run = ScriptRun { success: true, stdout: b"garbage\xff".to_vec() };
    assert_eq!(command_from_run(Ok(run)), Ok(()));
    let run = ScriptRun { success: true, stdout: Vec::new() };
    assert_eq!(command_from_run(Ok(run)), Ok(()));
}
