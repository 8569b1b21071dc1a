//! The commands that the punch clock takes.

use vstd::prelude::*;
use crate::text::same_text;

verus! {

/// A command to the punch clock.
#[derive(Clone, Copy, Debug, PartialEq, Eq, Structural)]
pub enum Command {
    /// `clock_in`: begin a work session.
    ClockIn,
    /// `clock_out`: end the open work session.
    ClockOut,
    /// `show_logs`: show the log, line by line.
    ShowLogs,
    /// `total_time`: show the time worked.
    TotalTime,
    /// `exit`: leave.
    Exit,
    /// Any other word.
    Unknown,
}

impl Command {
    /// The command that a word stands for. Only the exact words are known.
    pub open spec fn of_word(word: Seq<char>) -> Command {
        if word == "clock_in"@ {
            Command::ClockIn
        } else if word == "clock_out"@ {
            Command::ClockOut
        } else if word == "show_logs"@ {
            Command::ShowLogs
        } else if word == "total_time"@ {
            Command::TotalTime
        } else if word == "exit"@ {
            Command::Exit
        } else {
            Command::Unknown
        }
    }

    /// Reads a command word.
    pub fn from_word(word: &str) -> (command: Command)
        ensures
            command == Command::of_word(word@),
    {
        if same_text(word, "clock_in") {
            Command::ClockIn
        } else if same_text(word, "clock_out") {
            Command::ClockOut
        } else if same_text(word, "show_logs") {
            Command::ShowLogs
        } else if same_text(word, "total_time") {
            Command::TotalTime
        } else if same_text(word, "exit") {
            Command::Exit
        } else {
            Command::Unknown
        }
    }
}

} // verus!
