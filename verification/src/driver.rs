//! The decisions of a run: which candidates become file tasks, and what is
//! reported of each.
//!
//! Enumerating the candidates, running the tasks and printing the events are
//! left to the caller. A run goes through all its candidates: no decision
//! here ends it.

use vstd::prelude::*;
use vstd::string::*;

use crate::file_task::FileError;

verus! {

/// How much an event matters.
#[derive(Debug, Clone, Copy, PartialEq, Eq, Structural)]
pub enum Level {
    Info,
    Warn,
    Error,
}

impl Level {
    /// The place of a level in the order `Info`, `Warn`, `Error`.
    pub open spec fn rank(self) -> int {
        match self {
            Level::Info => 0,
            Level::Warn => 1,
            Level::Error => 2,
        }
    }

    /// The lowest level that is shown: warnings in a quiet run, everything
    /// otherwise.
    pub fn threshold(quiet: bool) -> (level: Level)
        ensures
            level == if quiet { Level::Warn } else { Level::Info },
    {
        if quiet {
            Level::Warn
        } else {
            Level::Info
        }
    }

    /// Whether an event of this level is shown.
    pub fn is_shown(self, quiet: bool) -> (shown: bool)
        ensures
            shown == (self.rank() >= (if quiet { Level::Warn } else { Level::Info }).rank()),
            shown == (!quiet || self != Level::Info),
    {
        match self {
            Level::Info => !quiet,
            Level::Warn => true,
            Level::Error => true,
        }
    }
}

/// Something to report: a level and a line of text.
#[derive(Debug)]
pub struct Event {
    pub level: Level,
    pub message: String,
}

/// What the search for sources came up with.
#[derive(Debug)]
pub enum Candidate {
    /// A path that the selector matches, and whether a regular file lies
    /// there.
    Found { path: String, is_file: bool },
    /// A path that the search could not read, and why.
    Unreadable { path: String, cause: String },
}

/// What is done with a candidate.
#[derive(Debug)]
pub enum Step {
    /// A file task is started for the path.
    Dispatch { path: String },
    /// Nothing is read or written; the event says why.
    Skip { event: Event },
}

/// The line for a path that is no regular file.
pub open spec fn not_file_text(path: Seq<char>) -> Seq<char> {
    path + ", skipping (not file) ..."@
}

/// The line for a path that the search could not read.
pub open spec fn unreadable_text(path: Seq<char>, cause: Seq<char>) -> Seq<char> {
    path + ", skipping (glob error: `"@ + cause + "`) ..."@
}

/// The line for a file that was transformed.
pub open spec fn transformed_text(source: Seq<char>, destination: Seq<char>) -> Seq<char> {
    source + " => "@ + destination + " ..."@
}

/// The line for a file whose task failed.
pub open spec fn failed_text(source: Seq<char>, cause: Seq<char>) -> Seq<char> {
    source + ", skipping ("@ + cause + ") ..."@
}

/// The line that ends a run.
pub open spec fn done_text() -> Seq<char> {
    "Done!"@
}

impl Event {
    /// A warning: `path` is skipped because no regular file lies there.
    pub fn not_file(path: &str) -> (event: Event)
        ensures
            event.level == Level::Warn,
            event.message@ == not_file_text(path@),
    {
        let mut message = String::from_str(path);
        message.append(", skipping (not file) ...");
        Event { level: Level::Warn, message }
    }

    /// A warning: `path` is skipped because the search could not read it.
    pub fn unreadable(path: &str, cause: &str) -> (event: Event)
        ensures
            event.level == Level::Warn,
            event.message@ == unreadable_text(path@, cause@),
    {
        let mut message = String::from_str(path);
        message.append(", skipping (glob error: `");
        message.append(cause);
        message.append("`) ...");
        Event { level: Level::Warn, message }
    }

    /// For information: `source` was transformed into `destination`.
    pub fn transformed(source: &str, destination: &str) -> (event: Event)
        ensures
            event.level == Level::Info,
            event.message@ == transformed_text(source@, destination@),
    {
        let mut message = String::from_str(source);
        message.append(" => ");
        message.append(destination);
        message.append(" ...");
        Event { level: Level::Info, message }
    }

    /// An error: the task of `source` failed.
    pub fn failed(source: &str, error: FileError) -> (event: Event)
        ensures
            event.level == Level::Error,
            event.message@ == failed_text(source@, error.text()),
    {
        let mut message = String::from_str(source);
        message.append(", skipping (");
        message.append(error.message());
        message.append(") ...");
        Event { level: Level::Error, message }
    }

    /// For information: all candidates have been gone through.
    pub fn done() -> (event: Event)
        ensures
            event.level == Level::Info,
            event.message@ == done_text(),
    {
        Event { level: Level::Info, message: String::from_str("Done!") }
    }
}

/// Decides on a candidate: a regular file is dispatched, anything else is
/// skipped with a warning.
pub fn triage(candidate: Candidate) -> (step: Step)
    ensures
        match candidate {
            Candidate::Found { path, is_file } => if is_file {
                step matches Step::Dispatch { path: dispatched } && dispatched@ == path@
            } else {
                step matches Step::Skip { event } && event.level == Level::Warn && event.message@
                    == not_file_text(path@)
            },
            Candidate::Unreadable { path, cause } => step matches Step::Skip { event }
                && event.level == Level::Warn && event.message@ == unreadable_text(
                path@,
                cause@,
            ),
        },
{
    match candidate {
        Candidate::Found { path, is_file } => {
            if is_file {
                Step::Dispatch { path }
            } else {
                Step::Skip { event: Event::not_file(path.as_str()) }
            }
        },
        Candidate::Unreadable { path, cause } => Step::Skip {
            event: Event::unreadable(path.as_str(), cause.as_str()),
        },
    }
}

/// The event for the outcome of the task of `source`: the destination that
/// was written, or the failure.
pub fn report(source: &str, outcome: &Result<String, FileError>) -> (event: Event)
    ensures
        match outcome {
            Ok(destination) => event.level == Level::Info && event.message@ == transformed_text(
                source@,
                destination@,
            ),
            Err(error) => event.level == Level::Error && event.message@ == failed_text(
                source@,
                error.text(),
            ),
        },
{
    match outcome {
        Ok(destination) => Event::transformed(source, destination.as_str()),
        Err(error) => Event::failed(source, *error),
    }
}

} // verus!
