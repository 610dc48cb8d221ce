//! Status parsing and playback-command dispatch for a menu-bar Spotify
//! controller that talks to the player through AppleScript.

pub mod error;
pub mod playback;
pub mod status;
pub mod text;
