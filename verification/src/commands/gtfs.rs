//! Commands at a node of the navigation: a schedule and how it was reached.

use vstd::prelude::*;
use crate::commands::routes::{RoutesCommandError, RoutesCommandInterpreter};
use crate::commands::stops::{StopsCommandError, StopsCommandInterpreter};
use crate::commands::trips::{TripsCommandError, TripsCommandInterpreter};
use crate::commands::{node_runs, CommandInterpreter, Report};
use crate::gtfs::{GtfsSchedule, ScheduleView};
use crate::text::{copy_optional_text, join2, same_text, split_command, tail};

verus! {

/// A position in the navigation: the schedule that a selection reached, the
/// identifier and name of what was selected, and the node it was selected
/// from, where that is kept. The root has an empty identifier, no name and
/// no parent.
#[derive(Debug)]
pub struct GtfsNode {
    pub gtfs: GtfsSchedule,
    pub parent: Option<Box<GtfsNode>>,
    pub node_id: String,
    pub node_name: Option<String>,
}

/// What a node holds.
pub struct NodeView {
    pub gtfs: ScheduleView,
    pub parent: Option<Box<NodeView>>,
    pub node_id: Seq<char>,
    pub node_name: Option<Seq<char>>,
}

impl GtfsNode {
    /// What the node holds.
    pub open spec fn model(&self) -> NodeView
        decreases self,
    {
        NodeView {
            gtfs: self.gtfs@,
            parent: match self.parent {
                Some(parent) => Some(Box::new(parent.model())),
                None => None,
            },
            node_id: self.node_id@,
            node_name: match self.node_name {
                Some(name) => Some(name@),
                None => None,
            },
        }
    }
}

impl GtfsNode {
    /// The root of the navigation over `gtfs`: the whole schedule, with an
    /// empty identifier, no name and no parent.
    pub fn root(gtfs: GtfsSchedule) -> (node: GtfsNode)
        ensures
            node.gtfs == gtfs,
            node.parent is None,
            node.node_id@ == Seq::<char>::empty(),
            node.node_name is None,
    {
        GtfsNode { gtfs, parent: None, node_id: String::new(), node_name: None }
    }
}

impl View for GtfsNode {
    type V = NodeView;

    open spec fn view(&self) -> NodeView {
        self.model()
    }
}

impl Clone for GtfsNode {
    fn clone(&self) -> (copy: Self)
        ensures
            copy@ == self@,
        decreases self,
    {
        GtfsNode {
            gtfs: self.gtfs.clone(),
            parent: match &self.parent {
                Some(parent) => Some(Box::new((&**parent).clone())),
                None => None,
            },
            node_id: self.node_id.clone(),
            node_name: copy_optional_text(&self.node_name),
        }
    }
}

/// Why a command at a node failed.
#[derive(Debug)]
pub enum GTFSCommandInterpreterError {
    /// The first segment names nothing that a node offers.
    InvalidCommand(String),
    /// `stops` stood alone.
    StopsSubcommandRequired,
    /// `routes` stood alone.
    RoutesSubcommandRequired,
    /// `trips` stood alone.
    TripsSubcommandRequired,
    StopsSubcommandError(Box<StopsCommandError>),
    RoutesCommandError(RoutesCommandError),
    TripsCommandError(TripsCommandError),
}

impl GTFSCommandInterpreterError {
    /// The message of the error.
    pub open spec fn text(&self) -> Seq<char>
        decreases self,
    {
        match self {
            GTFSCommandInterpreterError::InvalidCommand(command) => "Invalid command: "@ + command@,
            GTFSCommandInterpreterError::StopsSubcommandRequired => "Stops subcommand required"@,
            GTFSCommandInterpreterError::RoutesSubcommandRequired => "Routes subcommand required"@,
            GTFSCommandInterpreterError::TripsSubcommandRequired => "Trips subcommand required"@,
            GTFSCommandInterpreterError::StopsSubcommandError(e) => "Error interpreting stops subcommand: "@
                + e.text(),
            GTFSCommandInterpreterError::RoutesCommandError(e) => "Error interpreting routes command: "@
                + e.text(),
            GTFSCommandInterpreterError::TripsCommandError(e) => "Error interpreting trips command: "@
                + e.text(),
        }
    }

    /// The message of the error.
    pub fn to_string(&self) -> (message: String)
        ensures
            message@ == self.text(),
        decreases self,
    {
        match self {
            GTFSCommandInterpreterError::InvalidCommand(command) => join2(
                "Invalid command: ",
                command.as_str(),
            ),
            GTFSCommandInterpreterError::StopsSubcommandRequired => String::from_str(
                "Stops subcommand required",
            ),
            GTFSCommandInterpreterError::RoutesSubcommandRequired => String::from_str(
                "Routes subcommand required",
            ),
            GTFSCommandInterpreterError::TripsSubcommandRequired => String::from_str(
                "Trips subcommand required",
            ),
            GTFSCommandInterpreterError::StopsSubcommandError(e) => join2(
                "Error interpreting stops subcommand: ",
                e.to_string().as_str(),
            ),
            GTFSCommandInterpreterError::RoutesCommandError(e) => join2(
                "Error interpreting routes command: ",
                e.to_string().as_str(),
            ),
            GTFSCommandInterpreterError::TripsCommandError(e) => join2(
                "Error interpreting trips command: ",
                e.to_string().as_str(),
            ),
        }
    }
}

/// What follows the first character of `s`, where anything does.
pub fn try_tail(s: &str) -> (rest: Option<String>)
    ensures
        match rest {
            Some(text) => tail(s@) == Some(text@),
            None => tail(s@) is None,
        },
{
    let n = s.unicode_len();
    if n <= 1 {
        None
    } else {
        let rest = s.substring_char(1, n);
        Some(String::from_str(rest))
    }
}

impl CommandInterpreter for GtfsNode {
    type CommandResult = Report;

    type CommandError = GTFSCommandInterpreterError;

    open spec fn runs(
        &self,
        command: Seq<char>,
        outcome: Result<Report, GTFSCommandInterpreterError>,
    ) -> bool {
        node_runs(self.gtfs@, command, outcome)
    }

    /// Carries out `command` at the node.
    fn interpret(&self, command: &str) -> (outcome: Result<Report, GTFSCommandInterpreterError>)
        ensures
            node_runs(self.gtfs@, command@, outcome),
        decreases command@.len(), 0nat,
    {
        let (first, rest) = split_command(command);
        if same_text(first, "info") {
            Ok(
                Report::ScheduleInfo {
                    stops: self.gtfs.stops.len(),
                    routes: self.gtfs.routes.len(),
                    trips: self.gtfs.trips.len(),
                },
            )
        } else if same_text(first, "stops") {
            match try_tail(rest) {
                Some(sub) => match StopsCommandInterpreter(&self.gtfs).interpret(sub.as_str()) {
                    Ok(report) => Ok(report),
                    Err(e) => Err(GTFSCommandInterpreterError::StopsSubcommandError(Box::new(e))),
                },
                None => Err(GTFSCommandInterpreterError::StopsSubcommandRequired),
            }
        } else if same_text(first, "routes") {
            match try_tail(rest) {
                Some(sub) => match RoutesCommandInterpreter(self).interpret(sub.as_str()) {
                    Ok(report) => Ok(report),
                    Err(e) => Err(GTFSCommandInterpreterError::RoutesCommandError(e)),
                },
                None => Err(GTFSCommandInterpreterError::RoutesSubcommandRequired),
            }
        } else if same_text(first, "trips") {
            match try_tail(rest) {
                Some(sub) => match TripsCommandInterpreter(&self.gtfs).interpret(sub.as_str()) {
                    Ok(report) => Ok(report),
                    Err(e) => Err(GTFSCommandInterpreterError::TripsCommandError(e)),
                },
                None => Err(GTFSCommandInterpreterError::TripsSubcommandRequired),
            }
        } else {
            Err(GTFSCommandInterpreterError::InvalidCommand(String::from_str(command)))
        }
    }
}

} // verus!
