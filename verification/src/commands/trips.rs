//! Commands on the trips of a schedule.

use vstd::prelude::*;
use crate::commands::{CommandInterpreter, Report};
use crate::gtfs::GtfsSchedule;
use crate::text::join2;

verus! {

/// The trips of a schedule, as a target of commands.
pub struct TripsCommandInterpreter<'a>(pub &'a GtfsSchedule);

/// Why a command on trips failed. The interpreter accepts every command, so
/// it hands out no such error.
#[derive(Debug)]
pub enum TripsCommandError {
    /// The command is none that trips offer.
    InvalidCommand(String),
}

impl TripsCommandError {
    /// The message of the error.
    pub open spec fn text(&self) -> Seq<char> {
        match self {
            TripsCommandError::InvalidCommand(command) => "Invalid command: "@ + command@,
        }
    }

    /// The message of the error.
    pub fn to_string(&self) -> (message: String)
        ensures
            message@ == self.text(),
    {
        match self {
            TripsCommandError::InvalidCommand(command) => join2(
                "Invalid command: ",
                command.as_str(),
            ),
        }
    }
}

impl<'a> CommandInterpreter for TripsCommandInterpreter<'a> {
    type CommandResult = Report;

    type CommandError = TripsCommandError;

    open spec fn runs(&self, command: Seq<char>, outcome: Result<Report, TripsCommandError>) -> bool {
        outcome matches Ok(Report::Nothing)
    }

    /// Accepts `command` and reports nothing.
    fn interpret(&self, command: &str) -> (outcome: Result<Report, TripsCommandError>)
        ensures
            outcome matches Ok(Report::Nothing),
    {
        Ok(Report::Nothing)
    }
}

} // verus!
