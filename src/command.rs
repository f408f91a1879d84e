//! The operator's command words and the help text that lists them.
use vstd::prelude::*;

verus! {

/// A command word typed at the prompt.
#[derive(Clone, Copy, Debug, PartialEq, Eq, Structural)]
pub enum Commands {
    Help,
    PrintPlaylist,
    LoadSong,
    RemoveSong,
    PauseCurrent,
    StartCurrent,
    Loop,
    StopLoop,
    StartOver,
    ShowCurrent,
    SkipTo,
    Unknown,
}

/// The command that a (trimmed) input word denotes.
pub open spec fn command_of(word: Seq<char>) -> Commands {
    if word == "help"@ {
        Commands::Help
    } else if word == "playlist"@ {
        Commands::PrintPlaylist
    } else if word == "load"@ {
        Commands::LoadSong
    } else if word == "remove"@ {
        Commands::RemoveSong
    } else if word == "pause"@ {
        Commands::PauseCurrent
    } else if word == "start"@ {
        Commands::StartCurrent
    } else if word == "current"@ {
        Commands::ShowCurrent
    } else if word == "loop"@ {
        Commands::Loop
    } else if word == "stoploop"@ {
        Commands::StopLoop
    } else if word == "startover"@ {
        Commands::StartOver
    } else if word == "skip"@ {
        Commands::SkipTo
    } else {
        Commands::Unknown
    }
}

/// Maps an input word to its command; any other word is `Unknown`.
pub fn from_str(command: &str) -> (r: Commands)
    ensures
        r == command_of(command@),
{
    let w = String::from_str(command);
    if w == String::from_str("help") {
        Commands::Help
    } else if w == String::from_str("playlist") {
        Commands::PrintPlaylist
    } else if w == String::from_str("load") {
        Commands::LoadSong
    } else if w == String::from_str("remove") {
        Commands::RemoveSong
    } else if w == String::from_str("pause") {
        Commands::PauseCurrent
    } else if w == String::from_str("start") {
        Commands::StartCurrent
    } else if w == String::from_str("current") {
        Commands::ShowCurrent
    } else if w == String::from_str("loop") {
        Commands::Loop
    } else if w == String::from_str("stoploop") {
        Commands::StopLoop
    } else if w == String::from_str("startover") {
        Commands::StartOver
    } else if w == String::from_str("skip") {
        Commands::SkipTo
    } else {
        Commands::Unknown
    }
}

/// The help text printed at start-up and on `help`.
pub const USAGE: &'static str = "
    Usage:
        help -> prints this usage
        playlist -> prints the current playlist
        load -> <absolute path> -> loads the audio file at the supplied path
        remove -> <basename> -> removes the audio file that corresponds to basename from the playlist
        pause -> pauses the currently playing song
        start -> resumes the currently playing song
        current -> shows the current song's name
        loop -> loops the current song
        stoploop -> stops the current song's loop
        startover -> starts the current song from the beginning
        skip -> <basename> -> skips to an audio file and continues playing from there
    ";

/// The help text as an owned string.
pub fn usage() -> (r: String)
    ensures
        r@ == USAGE@,
{
    String::from_str(USAGE)
}

} // verus!
