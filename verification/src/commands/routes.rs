//! Commands on the routes of a node, and the projection onto one route.

use vstd::prelude::*;
use crate::commands::gtfs::{GTFSCommandInterpreterError, GtfsNode, NodeView};
use crate::gtfs::index::{IdIndex, Name};
use crate::gtfs::keyed::{
    has_key, lemma_has_key_push, lemma_marked_is_filter, lookup, position, select,
};
use crate::commands::{routes_run, CommandInterpreter, Report};
use crate::gtfs::routes::{Route, RouteName, Routes};
use crate::gtfs::stop_times::{StopTime, StopTimes};
use crate::gtfs::stops::{Stop, Stops};
use crate::gtfs::trips::{Trip, Trips};
use crate::gtfs::{GtfsSchedule, ScheduleView};
use crate::projection::{called_at, calls_at, of_trips, on_route, route_projection};
use crate::text::{join2, join3, lemma_no_mark, same_text, skip_first, split_command};

verus! {

/// The routes of a node, as a target of commands.
pub struct RoutesCommandInterpreter<'a>(pub &'a GtfsNode);

/// Why a command on routes failed.
#[derive(Debug)]
pub enum RoutesCommandError {
    /// The first segment is no command and no route identifier.
    InvalidCommand(String),
    /// The route could not be projected onto; the message says why. A route
    /// that was found can be projected onto, so no command hands this error
    /// out.
    ErrorGettingRoute(String),
    /// The rest of the command failed at the route named.
    ErrorExecutingCommandForRoute(String, Box<GTFSCommandInterpreterError>),
    /// The schedule has no route with this identifier.
    NoSuchRoute(String),
}

impl RoutesCommandError {
    /// The message of the error.
    pub open spec fn text(&self) -> Seq<char>
        decreases self,
    {
        match self {
            RoutesCommandError::InvalidCommand(command) => "Invalid command: "@ + command@,
            RoutesCommandError::ErrorGettingRoute(reason) => "Error getting route: "@ + reason@,
            RoutesCommandError::ErrorExecutingCommandForRoute(route_id, cause) =>
                "Error executing command for route "@ + route_id@ + ": "@ + cause.text(),
            RoutesCommandError::NoSuchRoute(route_id) => "No such route: "@ + route_id@,
        }
    }

    /// The message of the error.
    pub fn to_string(&self) -> (message: String)
        ensures
            message@ == self.text(),
        decreases self,
    {
        match self {
            RoutesCommandError::InvalidCommand(command) => join2(
                "Invalid command: ",
                command.as_str(),
            ),
            RoutesCommandError::ErrorGettingRoute(reason) => join2(
                "Error getting route: ",
                reason.as_str(),
            ),
            RoutesCommandError::ErrorExecutingCommandForRoute(route_id, cause) => {
                let mut message = join3("Error executing command for route ", route_id.as_str(), ": ");
                message.append(cause.to_string().as_str());
                message
            },
            RoutesCommandError::NoSuchRoute(route_id) => join2("No such route: ", route_id.as_str()),
        }
    }
}

/// For each trip of `trips`, whether it runs on the route `route_id`.
fn mark_trips_of_route(trips: &Vec<Trip>, route_id: &str) -> (marks: Vec<bool>)
    ensures
        marks@.len() == trips@.len(),
        forall|i: int| 0 <= i < trips@.len() ==> marks@[i] == (trips@[i].route_id@ == route_id@),
{
    let mut marks: Vec<bool> = Vec::new();
    let n = trips.len();
    let mut i: usize = 0;
    while i < n
        invariant
            i <= n,
            n == trips@.len(),
            marks@.len() == i,
            forall|k: int| 0 <= k < i ==> marks@[k] == (trips@[k].route_id@ == route_id@),
        decreases n - i,
    {
        marks.push(same_text(trips[i].route_id.as_str(), route_id));
        i += 1;
    }
    marks
}

/// For each call of `calls`, whether it belongs to one of `trips`.
fn mark_calls_of_trips(calls: &Vec<StopTime>, trips: &Vec<Trip>) -> (marks: Vec<bool>)
    ensures
        marks@.len() == calls@.len(),
        forall|i: int| 0 <= i < calls@.len() ==> marks@[i] == has_key(trips@, calls@[i].trip_id@),
{
    let index = IdIndex::build(trips);
    let mut marks: Vec<bool> = Vec::new();
    let n = calls.len();
    let mut i: usize = 0;
    while i < n
        invariant
            i <= n,
            n == calls@.len(),
            index.indexes(trips@),
            marks@.len() == i,
            forall|k: int| 0 <= k < i ==> marks@[k] == has_key(trips@, calls@[k].trip_id@),
        decreases n - i,
    {
        marks.push(index.find(trips, calls[i].trip_id.as_str()).is_some());
        i += 1;
    }
    marks
}

/// The stops that the calls of `calls` are made at.
fn stops_called_at<'a>(calls: &'a Vec<StopTime>) -> (names: Vec<Name<'a>>)
    ensures
        forall|id: Seq<char>| has_key(names@, id) <==> calls_at(calls@, id),
{
    let mut names: Vec<Name<'a>> = Vec::new();
    let n = calls.len();
    let mut i: usize = 0;
    while i < n
        invariant
            i <= n,
            n == calls@.len(),
            forall|id: Seq<char>| has_key(names@, id) <==> calls_at(calls@.take(i as int), id),
        decreases n - i,
    {
        let ghost before = names@;
        match &calls[i].stop_id {
            Some(stop_id) => {
                names.push(Name { text: stop_id.as_str() });
            },
            None => {},
        }
        proof {
            let earlier = calls@.take(i as int);
            let now = calls@.take(i + 1);
            assert forall|id: Seq<char>| has_key(names@, id) <==> calls_at(now, id) by {
                if calls@[i as int].stop() is Some {
                    lemma_has_key_push(before, names@[before.len() as int], id);
                }
                if calls@[i as int].stop() == Some(id) {
                    assert(now[i as int].stop() == Some(id));
                }
            }
        }
        i += 1;
    }
    proof {
        assert(calls@.take(n as int) =~= calls@);
    }
    names
}

/// For each stop of `stops`, whether some call of `calls` is made at it.
fn mark_stops_of_calls(stops: &Vec<Stop>, calls: &Vec<StopTime>) -> (marks: Vec<bool>)
    ensures
        marks@.len() == stops@.len(),
        forall|i: int| 0 <= i < stops@.len() ==> marks@[i] == calls_at(calls@, stops@[i].stop_id@),
{
    let names = stops_called_at(calls);
    let index = IdIndex::build(&names);
    let mut marks: Vec<bool> = Vec::new();
    let n = stops.len();
    let mut i: usize = 0;
    while i < n
        invariant
            i <= n,
            n == stops@.len(),
            index.indexes(names@),
            forall|id: Seq<char>| has_key(names@, id) <==> calls_at(calls@, id),
            marks@.len() == i,
            forall|k: int| 0 <= k < i ==> marks@[k] == calls_at(calls@, stops@[k].stop_id@),
        decreases n - i,
    {
        marks.push(index.find(&names, stops[i].stop_id.as_str()).is_some());
        i += 1;
    }
    marks
}

/// The projection of `schedule` onto the route `route_id`, where the
/// schedule has that route.
pub fn project_by_route(schedule: &GtfsSchedule, route_id: &str) -> (projected: Result<
    GtfsSchedule,
    RoutesCommandError,
>)
    ensures
        match projected {
            Ok(part) => has_key(schedule.routes@, route_id@) && part@ == route_projection(
                schedule@,
                route_id@,
            ),
            Err(RoutesCommandError::NoSuchRoute(id)) => !has_key(schedule.routes@, route_id@) && id@
                == route_id@,
            Err(_) => false,
        },
{
    let at = match position(&schedule.routes.routes, route_id) {
        Some(at) => at,
        None => {
            return Err(RoutesCommandError::NoSuchRoute(String::from_str(route_id)));
        },
    };
    let mut routes: Vec<Route> = Vec::new();
    routes.push(schedule.routes.routes[at].clone());

    let trip_marks = mark_trips_of_route(&schedule.trips.trips, route_id);
    let trips = select(&schedule.trips.trips, &trip_marks);
    proof {
        lemma_marked_is_filter(schedule.trips@, trip_marks@, on_route(route_id@));
    }

    let call_marks = mark_calls_of_trips(&schedule.stop_times.stop_times, &trips);
    let stop_times = select(&schedule.stop_times.stop_times, &call_marks);
    proof {
        lemma_marked_is_filter(schedule.stop_times@, call_marks@, of_trips(trips@));
    }

    let stop_marks = mark_stops_of_calls(&schedule.stops.stops, &stop_times);
    let stops = select(&schedule.stops.stops, &stop_marks);
    proof {
        lemma_marked_is_filter(schedule.stops@, stop_marks@, called_at(stop_times@));
    }

    Ok(
        GtfsSchedule {
            stops: Stops { stops },
            routes: Routes { routes },
            trips: Trips { trips },
            stop_times: StopTimes { stop_times },
        },
    )
}

/// The node that selecting the route `route_id` at `parent` leads to: the
/// projection onto the route, reached from `parent`, under the route's
/// identifier and name.
pub open spec fn route_node(parent: NodeView, route_id: Seq<char>) -> NodeView {
    NodeView {
        gtfs: route_projection(parent.gtfs, route_id),
        parent: Some(Box::new(parent)),
        node_id: route_id,
        node_name: match lookup(parent.gtfs.routes, route_id) {
            Some(route) => Some(route.name.spec_long_or_short()),
            None => None,
        },
    }
}

impl RoutesCommandInterpreter<'_> {
    /// The node of the route `route_id`, where the schedule has that route.
    pub fn route(&self, route_id: &str) -> (node: Result<GtfsNode, RoutesCommandError>)
        ensures
            match node {
                Ok(child) => has_key(self.0.gtfs.routes@, route_id@) && child@ == route_node(
                    self.0@,
                    route_id@,
                ),
                Err(RoutesCommandError::NoSuchRoute(id)) => !has_key(self.0.gtfs.routes@, route_id@)
                    && id@ == route_id@,
                Err(_) => false,
            },
    {
        let gtfs = project_by_route(&self.0.gtfs, route_id)?;
        let name = String::from_str(gtfs.routes.routes[0].name());
        Ok(
            GtfsNode {
                gtfs,
                parent: Some(Box::new(self.0.clone())),
                node_id: String::from_str(route_id),
                node_name: Some(name),
            },
        )
    }
}

/// The line that lists `route`: its identifier, then its long name with the
/// short name in brackets where it has both, else the name it has.
pub open spec fn route_line(route: Route) -> Seq<char> {
    route.route_id@ + ": "@ + match route.name {
        RouteName::LongAndShort(long, short) => long@ + " ("@ + short@ + ")"@,
        RouteName::Long(name) => name@,
        RouteName::Short(name) => name@,
    }
}

/// Whether `lines` holds the line of each route of `routes`, in their order.
pub open spec fn lists_routes(lines: Seq<String>, routes: Seq<Route>) -> bool {
    &&& lines.len() == routes.len()
    &&& forall|i: int| 0 <= i < lines.len() ==> (#[trigger] lines[i])@ == route_line(routes[i])
}

impl RoutesCommandInterpreter<'_> {
    /// One line for each route of the node, in the order of the schedule.
    pub fn list(&self) -> (lines: Vec<String>)
        ensures
            lists_routes(lines@, self.0.gtfs.routes@),
    {
        let routes = &self.0.gtfs.routes.routes;
        let mut lines: Vec<String> = Vec::new();
        let n = routes.len();
        let mut i: usize = 0;
        while i < n
            invariant
                i <= n,
                n == routes@.len(),
                lines@.len() == i,
                forall|k: int| 0 <= k < i ==> (#[trigger] lines@[k])@ == route_line(routes@[k]),
            decreases n - i,
        {
            let route = &routes[i];
            let mut line = join2(route.route_id.as_str(), ": ");
            match (route.route_long_name(), route.route_short_name()) {
                (Some(long), Some(short)) => {
                    line.append(long);
                    line.append(" (");
                    line.append(short);
                    line.append(")");
                },
                _ => {
                    line.append(route.name());
                },
            }
            lines.push(line);
            i += 1;
        }
        lines
    }

    /// The number of routes of the node.
    pub fn info(&self) -> (routes: usize)
        ensures
            routes == self.0.gtfs.routes@.len(),
    {
        self.0.gtfs.routes.len()
    }
}

impl<'a> CommandInterpreter for RoutesCommandInterpreter<'a> {
    type CommandResult = Report;

    type CommandError = RoutesCommandError;

    open spec fn runs(&self, command: Seq<char>, outcome: Result<Report, RoutesCommandError>) -> bool {
        routes_run(self.0.gtfs@, command, outcome)
    }

    /// Carries out `command` at the routes of the node.
    fn interpret(&self, command: &str) -> (outcome: Result<Report, RoutesCommandError>)
        ensures
            routes_run(self.0.gtfs@, command@, outcome),
        decreases command@.len(), 1nat,
    {
        let (first, rest) = split_command(command);
        if same_text(first, "list") {
            Ok(Report::Listing { lines: self.list() })
        } else if same_text(first, "info") {
            Ok(Report::RoutesInfo { routes: self.info() })
        } else {
            match self.route(first) {
                Err(RoutesCommandError::NoSuchRoute(_)) => Err(
                    RoutesCommandError::InvalidCommand(String::from_str(command)),
                ),
                Err(e) => Err(RoutesCommandError::ErrorGettingRoute(e.to_string())),
                Ok(child) => match child.interpret(skip_first(rest).as_str()) {
                    Ok(report) => Ok(report),
                    Err(e) => Err(
                        RoutesCommandError::ErrorExecutingCommandForRoute(
                            String::from_str(first),
                            Box::new(e),
                        ),
                    ),
                },
            }
        }
    }
}

/// At the routes of any schedule, and so at those of a projection, `list`
/// gives one line for each route, and that is the number that `info`
/// reports.
pub proof fn list_matches_info(
    schedule: ScheduleView,
    listed: Result<Report, RoutesCommandError>,
    counted: Result<Report, RoutesCommandError>,
)
    requires
        routes_run(schedule, "list"@, listed),
        routes_run(schedule, "info"@, counted),
    ensures
        listed matches Ok(Report::Listing { lines }) && counted matches Ok(
            Report::RoutesInfo { routes },
        ) && lines@.len() == routes && routes == schedule.routes.len() && lists_routes(
            lines@,
            schedule.routes,
        ),
{
    reveal_strlit("list");
    reveal_strlit("info");
    lemma_no_mark("list"@, '.');
    lemma_no_mark("info"@, '.');
    assert("info"@[0] != "list"@[0]);
}

} // verus!
