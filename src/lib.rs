//! An interactive audio playlist controller: tracks, an ordered duplicate-free
//! playlist with a current position, and the playback state machine that
//! decides what the audio sink must do for each operator command.
pub mod command;
pub mod track;
pub mod playlist;
pub mod controller;
