//! The command language: dotted paths that walk from a schedule down to one
//! route or stop and report on what they find.
//!
//! A command is a sequence of segments with a separator between them. The
//! first segment names an action or a collection at the place where the
//! command is given; what follows it is handed down, as it stands, to the
//! place that the first segment leads to.

pub mod gtfs;
pub mod routes;
pub mod stops;
pub mod trips;

use vstd::prelude::*;
use crate::commands::gtfs::GTFSCommandInterpreterError;
use crate::commands::routes::{lists_routes, RoutesCommandError};
use crate::commands::stops::{lists_stops, StopsCommandError};
use crate::gtfs::keyed::has_key;
use crate::gtfs::ScheduleView;
use crate::projection::{route_projection, stop_projection};
use crate::text::{after_first_segment, first_segment, tail, without_first};

verus! {

/// What a command found, for the caller to print.
#[derive(Debug, PartialEq, Eq)]
pub enum Report {
    /// The sizes of the tables of a schedule.
    ScheduleInfo { stops: usize, routes: usize, trips: usize },
    /// The number of routes.
    RoutesInfo { routes: usize },
    /// The number of stops.
    StopsInfo { stops: usize },
    /// One line for each member of a collection.
    Listing { lines: Vec<String> },
    /// Nothing to print.
    Nothing,
}

/// Something that takes one command line and carries it out.
pub trait CommandInterpreter {
    type CommandResult;

    type CommandError;

    /// Whether `outcome` is what `command` comes to here.
    spec fn runs(
        &self,
        command: Seq<char>,
        outcome: Result<Self::CommandResult, Self::CommandError>,
    ) -> bool;

    /// Carries out `command`.
    fn interpret(&self, command: &str) -> (outcome: Result<
        Self::CommandResult,
        Self::CommandError,
    >)
        ensures
            self.runs(command@, outcome),
    ;
}

/// Whether `outcome` is what `command` comes to at a node with the schedule
/// `schedule`. `info` reports the sizes of the tables. `stops`, `routes` and
/// `trips` hand what follows their separator to the collection; standing
/// alone they are refused. Any other first segment is refused.
pub open spec fn node_runs(
    schedule: ScheduleView,
    command: Seq<char>,
    outcome: Result<Report, GTFSCommandInterpreterError>,
) -> bool
    decreases command.len(), 0nat,
{
    let first = first_segment(command);
    let rest = after_first_segment(command);
    if first == "info"@ {
        outcome matches Ok(Report::ScheduleInfo { stops, routes, trips }) && stops
            == schedule.stops.len() && routes == schedule.routes.len() && trips
            == schedule.trips.len()
    } else if first == "stops"@ {
        match tail(rest) {
            Some(sub) => match outcome {
                Ok(report) => stops_run(schedule, sub, Ok(report)),
                Err(GTFSCommandInterpreterError::StopsSubcommandError(cause)) => stops_run(
                    schedule,
                    sub,
                    Err(*cause),
                ),
                Err(_) => false,
            },
            None => outcome matches Err(GTFSCommandInterpreterError::StopsSubcommandRequired),
        }
    } else if first == "routes"@ {
        match tail(rest) {
            Some(sub) => match outcome {
                Ok(report) => routes_run(schedule, sub, Ok(report)),
                Err(GTFSCommandInterpreterError::RoutesCommandError(cause)) => routes_run(
                    schedule,
                    sub,
                    Err(cause),
                ),
                Err(_) => false,
            },
            None => outcome matches Err(GTFSCommandInterpreterError::RoutesSubcommandRequired),
        }
    } else if first == "trips"@ {
        match tail(rest) {
            Some(sub) => outcome matches Ok(Report::Nothing),
            None => outcome matches Err(GTFSCommandInterpreterError::TripsSubcommandRequired),
        }
    } else {
        outcome matches Err(GTFSCommandInterpreterError::InvalidCommand(refused)) && refused@
            == command
    }
}

/// Whether `outcome` is what `command` comes to at the routes of
/// `schedule`. `list` gives one line for each route and `info` their
/// number, whatever follows. Any other first segment must be the identifier
/// of a route: what follows its separator is then carried out at the node of
/// that route, and a failure there is reported under the route's identifier.
pub open spec fn routes_run(
    schedule: ScheduleView,
    command: Seq<char>,
    outcome: Result<Report, RoutesCommandError>,
) -> bool
    decreases command.len(), 1nat,
{
    let first = first_segment(command);
    let rest = after_first_segment(command);
    if first == "list"@ {
        outcome matches Ok(Report::Listing { lines }) && lists_routes(lines@, schedule.routes)
    } else if first == "info"@ {
        outcome matches Ok(Report::RoutesInfo { routes }) && routes == schedule.routes.len()
    } else if !has_key(schedule.routes, first) {
        outcome matches Err(RoutesCommandError::InvalidCommand(refused)) && refused@ == command
    } else {
        match outcome {
            Ok(report) => node_runs(
                route_projection(schedule, first),
                without_first(rest),
                Ok(report),
            ),
            Err(RoutesCommandError::ErrorExecutingCommandForRoute(route_id, cause)) => route_id@
                == first && node_runs(
                route_projection(schedule, first),
                without_first(rest),
                Err(*cause),
            ),
            Err(_) => false,
        }
    }
}

/// Whether `outcome` is what `command` comes to at the stops of `schedule`.
/// `list` gives one line for each stop and `info` their number, whatever
/// follows. Any other first segment must be the identifier of a stop: what
/// follows its separator is then carried out at the node of that stop, and a
/// failure there is reported under the stop's identifier.
pub open spec fn stops_run(
    schedule: ScheduleView,
    command: Seq<char>,
    outcome: Result<Report, StopsCommandError>,
) -> bool
    decreases command.len(), 1nat,
{
    let first = first_segment(command);
    let rest = after_first_segment(command);
    if first == "list"@ {
        outcome matches Ok(Report::Listing { lines }) && lists_stops(lines@, schedule.stops)
    } else if first == "info"@ {
        outcome matches Ok(Report::StopsInfo { stops }) && stops == schedule.stops.len()
    } else if !has_key(schedule.stops, first) {
        outcome matches Err(StopsCommandError::InvalidCommand(refused)) && refused@ == command
    } else {
        match outcome {
            Ok(report) => node_runs(
                stop_projection(schedule, first),
                without_first(rest),
                Ok(report),
            ),
            Err(StopsCommandError::ErrorExecutingCommandForStop(stop_id, cause)) => stop_id@
                == first && node_runs(
                stop_projection(schedule, first),
                without_first(rest),
                Err(*cause),
            ),
            Err(_) => false,
        }
    }
}

} // verus!
