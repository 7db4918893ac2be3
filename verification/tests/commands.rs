#![allow(dead_code)]

use gtfs_explorer::commands::gtfs::{try_tail, GTFSCommandInterpreterError, GtfsNode};
use gtfs_explorer::commands::routes::{RoutesCommandError, RoutesCommandInterpreter};
use gtfs_explorer::commands::stops::{StopCommandError, StopsCommandError, StopsCommandInterpreter};
use gtfs_explorer::commands::trips::{TripsCommandError, TripsCommandInterpreter};
use gtfs_explorer::commands::{CommandInterpreter, Report};
use gtfs_explorer::gtfs::routes::{Route, RouteName, RouteType, Routes};
use gtfs_explorer::gtfs::stop_times::{StopTime, StopTimes};
use gtfs_explorer::gtfs::stops::{
    BoardingAreaDetails, EntranceExitDetails, GenericNodeDetails, LocationTypeDetails,
    StationDetails, Stop, StopDetails, Stops,
};
use gtfs_explorer::gtfs::trips::{Trip, Trips};
use gtfs_explorer::gtfs::util::Decimal;
use gtfs_explorer::gtfs::GtfsSchedule;
use gtfs_explorer::text::{same_text, skip_first, split_command};

fn degrees(value: f64) -> Decimal {
    Decimal { bits: value.to_bits() }
}

fn stop_with(id: &str, details: LocationTypeDetails) -> Stop {
    Stop {
        stop_id: id.to_string(),
        stop_code: None,
        tts_stop_name: None,
        stop_desc: None,
        zone_id: None,
        stop_url: None,
        stop_timezone: None,
        wheelchair_boarding: None,
        level_id: None,
        platform_code: None,
        location_type_details: details,
    }
}

fn station(id: &str, name: &str) -> Stop {
    stop_with(
        id,
        LocationTypeDetails::Station(StationDetails {
            stop_name: name.to_string(),
            stop_lat: degrees(42.355),
            stop_lon: degrees(-71.06),
        }),
    )
}

fn platform(id: &str, name: &str, parent: Option<&str>) -> Stop {
    stop_with(
        id,
        LocationTypeDetails::Stop(StopDetails {
            stop_name: name.to_string(),
            stop_lat: degrees(42.355),
            stop_lon: degrees(-71.06),
            parent_station: parent.map(|p| p.to_string()),
        }),
    )
}

fn entrance(id: &str, name: &str, parent: &str) -> Stop {
    stop_with(
        id,
        LocationTypeDetails::EntranceExit(EntranceExitDetails {
            stop_name: name.to_string(),
            stop_lat: degrees(42.355),
            stop_lon: degrees(-71.06),
            parent_station: parent.to_string(),
        }),
    )
}

fn node(id: &str, parent: &str) -> Stop {
    stop_with(
        id,
        LocationTypeDetails::GenericNode(GenericNodeDetails {
            stop_name: None,
            stop_lat: None,
            stop_lon: None,
            parent_station: parent.to_string(),
        }),
    )
}

fn boarding_area(id: &str, parent: &str) -> Stop {
    stop_with(
        id,
        LocationTypeDetails::BoardingArea(BoardingAreaDetails {
            stop_name: None,
            stop_lat: None,
            stop_lon: None,
            parent_station: parent.to_string(),
        }),
    )
}

fn route(id: &str, name: RouteName) -> Route {
    Route {
        route_id: id.to_string(),
        agency_id: None,
        name,
        route_desc: None,
        route_type: RouteType::Bus,
        route_url: None,
        route_color: None,
        route_text_color: None,
        route_sort_order: None,
        continuous_pickup: None,
        continuous_drop_off: None,
        network_id: None,
    }
}

fn trip(id: &str, route_id: &str) -> Trip {
    Trip {
        trip_id: id.to_string(),
        route_id: route_id.to_string(),
        service_id: "weekday".to_string(),
        trip_headsign: None,
        trip_short_name: None,
        direction_id: None,
        block_id: None,
        shape_id: None,
        wheelchair_accessible: None,
        bikes_allowed: None,
    }
}

fn call(trip_id: &str, stop_id: Option<&str>, sequence: usize) -> StopTime {
    StopTime {
        trip_id: trip_id.to_string(),
        stop_id: stop_id.map(|s| s.to_string()),
        arrival_time: None,
        departure_time: None,
        location_group_id: None,
        location_id: None,
        stop_sequence: sequence,
        stop_headsign: None,
        start_pickup_drop_off_window: None,
        end_pickup_drop_off_window: None,
        pickup_type: None,
        drop_off_type: None,
        continuous_pickup: None,
        continuous_drop_off: None,
        shape_dist_traveled: None,
        timepoint: None,
        pickup_booking_rule_id: None,
        drop_off_booking_rule_id: None,
    }
}

fn schedule(stops: Vec<Stop>, routes: Vec<Route>, trips: Vec<Trip>, calls: Vec<StopTime>) -> GtfsSchedule {
    GtfsSchedule {
        stops: Stops { stops },
        routes: Routes { routes },
        trips: Trips { trips },
        stop_times: StopTimes { stop_times: calls },
    }
}

fn stop_ids(part: &GtfsSchedule) -> Vec<String> {
    part.stops.stops.iter().map(|s| s.stop_id.clone()).collect()
}

fn route_ids(part: &GtfsSchedule) -> Vec<String> {
    part.routes.routes.iter().map(|r| r.route_id.clone()).collect()
}

fn trip_ids(part: &GtfsSchedule) -> Vec<String> {
    part.trips.trips.iter().map(|t| t.trip_id.clone()).collect()
}

fn call_keys(part: &GtfsSchedule) -> Vec<(String, Option<String>, usize)> {
    part.stop_times
        .stop_times
        .iter()
        .map(|c| (c.trip_id.clone(), c.stop_id.clone(), c.stop_sequence))
        .collect()
}

fn downtown() -> GtfsSchedule {
    schedule(
        vec![
            station("A", "Downtown"),
            platform("A1", "Platform 1", Some("A")),
            entrance("A2", "North Entrance", "A"),
            node("A3", "A"),
            boarding_area("A1a", "A1"),
            station("B", "Uptown"),
            platform("B1", "Uptown Platform", Some("B")),
            platform("C", "Corner", None),
        ],
        vec![
            route("R1", RouteName::LongAndShort("Main Line".to_string(), "1".to_string())),
            route("R2", RouteName::Short("2".to_string())),
            route("R3", RouteName::Long("Crosstown".to_string())),
        ],
        vec![trip("T1", "R1"), trip("T2", "R1"), trip("T3", "R3")],
        vec![
            call("T1", Some("A1"), 1),
            call("T1", Some("B1"), 2),
            call("T2", Some("C"), 1),
            call("T2", None, 2),
            call("T3", Some("B1"), 1),
            call("T3", Some("C"), 2),
        ],
    )
}

fn root() -> GtfsNode {
    GtfsNode::root(downtown())
}

#[test]
fn root_node_has_no_identity() {
    let node = root();
    assert_eq!(node.node_id, "");
    assert_eq!(node.node_name, None);
    assert!(node.parent.is_none());
    assert_eq!(node.gtfs.stops.len(), 8);
    let copy = node.clone();
    assert_eq!(copy.node_id, "");
    assert_eq!(copy.gtfs.routes.len(), 3);
}

fn lines(report: Report) -> Vec<String> {
    match report {
        Report::Listing { lines } => lines,
        other => panic!("expected a listing, got {:?}", other),
    }
}

#[test]
fn info_at_the_root_counts_the_tables() {
    assert_eq!(
        root().interpret("info").unwrap(),
        Report::ScheduleInfo { stops: 8, routes: 3, trips: 3 }
    );
    assert_eq!(
        root().interpret("info.and.more").unwrap(),
        Report::ScheduleInfo { stops: 8, routes: 3, trips: 3 }
    );
}

#[test]
fn collection_alone_requires_a_subcommand() {
    assert!(matches!(
        root().interpret("stops"),
        Err(GTFSCommandInterpreterError::StopsSubcommandRequired)
    ));
    assert!(matches!(
        root().interpret("stops."),
        Err(GTFSCommandInterpreterError::StopsSubcommandRequired)
    ));
    assert!(matches!(
        root().interpret("routes"),
        Err(GTFSCommandInterpreterError::RoutesSubcommandRequired)
    ));
    assert!(matches!(
        root().interpret("routes."),
        Err(GTFSCommandInterpreterError::RoutesSubcommandRequired)
    ));
    assert!(matches!(
        root().interpret("trips"),
        Err(GTFSCommandInterpreterError::TripsSubcommandRequired)
    ));
}

#[test]
fn unknown_first_segment_is_invalid() {
    match root().interpret("bogus.list") {
        Err(GTFSCommandInterpreterError::InvalidCommand(command)) => {
            assert_eq!(command, "bogus.list")
        }
        other => panic!("expected InvalidCommand, got {:?}", other),
    }
    match root().interpret("") {
        Err(GTFSCommandInterpreterError::InvalidCommand(command)) => assert_eq!(command, ""),
        other => panic!("expected InvalidCommand, got {:?}", other),
    }
    match root().interpret(".routes") {
        Err(GTFSCommandInterpreterError::InvalidCommand(command)) => assert_eq!(command, ".routes"),
        other => panic!("expected InvalidCommand, got {:?}", other),
    }
}

#[test]
fn routes_list_gives_one_line_for_each_route() {
    assert_eq!(
        lines(root().interpret("routes.list").unwrap()),
        vec!["R1: Main Line (1)", "R2: 2", "R3: Crosstown"]
    );
    assert_eq!(
        lines(root().interpret("routes.list.trailing.segments").unwrap()),
        vec!["R1: Main Line (1)", "R2: 2", "R3: Crosstown"]
    );
}

#[test]
fn routes_info_counts_the_routes() {
    assert_eq!(root().interpret("routes.info").unwrap(), Report::RoutesInfo { routes: 3 });
    assert_eq!(root().interpret("routes.info.more").unwrap(), Report::RoutesInfo { routes: 3 });
}

#[test]
fn stops_list_gives_one_line_for_each_stop() {
    assert_eq!(
        lines(root().interpret("stops.list").unwrap()),
        vec![
            "A: Downtown",
            "A1: Platform 1",
            "A2: North Entrance",
            "A3: Unnamed Location",
            "A1a: Unnamed Location",
            "B: Uptown",
            "B1: Uptown Platform",
            "C: Corner",
        ]
    );
}

#[test]
fn stops_info_counts_the_stops() {
    assert_eq!(root().interpret("stops.info").unwrap(), Report::StopsInfo { stops: 8 });
}

#[test]
fn trips_accept_every_command() {
    assert_eq!(root().interpret("trips.list").unwrap(), Report::Nothing);
    assert_eq!(root().interpret("trips.T1.info").unwrap(), Report::Nothing);
    let feed = downtown();
    assert_eq!(TripsCommandInterpreter(&feed).interpret("").unwrap(), Report::Nothing);
}

#[test]
fn route_id_leads_into_its_projection() {
    assert_eq!(
        root().interpret("routes.R1.info").unwrap(),
        Report::ScheduleInfo { stops: 3, routes: 1, trips: 2 }
    );
    assert_eq!(
        root().interpret("routes.R2.info").unwrap(),
        Report::ScheduleInfo { stops: 0, routes: 1, trips: 0 }
    );
    assert_eq!(
        lines(root().interpret("routes.R1.stops.list").unwrap()),
        vec!["A1: Platform 1", "B1: Uptown Platform", "C: Corner"]
    );
}

#[test]
fn stop_id_leads_into_its_projection() {
    assert_eq!(
        root().interpret("stops.A.info").unwrap(),
        Report::ScheduleInfo { stops: 5, routes: 1, trips: 1 }
    );
    assert_eq!(
        lines(root().interpret("stops.C.routes.list").unwrap()),
        vec!["R1: Main Line (1)", "R3: Crosstown"]
    );
}

#[test]
fn path_through_stop_reaches_only_its_routes() {
    assert_eq!(
        lines(root().interpret("stops.A.routes.R1.routes.list").unwrap()),
        vec!["R1: Main Line (1)"]
    );
    let refused = root().interpret("stops.A.routes.R3.list").unwrap_err();
    match &refused {
        GTFSCommandInterpreterError::StopsSubcommandError(at_stops) => match &**at_stops {
            StopsCommandError::ErrorExecutingCommandForStop(stop_id, cause) => {
                assert_eq!(stop_id, "A");
                match &**cause {
                    GTFSCommandInterpreterError::RoutesCommandError(
                        RoutesCommandError::InvalidCommand(command),
                    ) => assert_eq!(command, "R3.list"),
                    other => panic!("expected InvalidCommand at routes, got {:?}", other),
                }
            }
            other => panic!("expected a failure at stop A, got {:?}", other),
        },
        other => panic!("expected a stops failure, got {:?}", other),
    }
    assert_eq!(
        refused.to_string(),
        "Error interpreting stops subcommand: Error executing command for stop A: \
         Error interpreting routes command: Invalid command: R3.list"
    );
}

#[test]
fn selecting_an_entity_alone_is_invalid_at_its_node() {
    let refused = root().interpret("routes.R1").unwrap_err();
    match &refused {
        GTFSCommandInterpreterError::RoutesCommandError(
            RoutesCommandError::ErrorExecutingCommandForRoute(route_id, cause),
        ) => {
            assert_eq!(route_id, "R1");
            assert!(matches!(
                &**cause,
                GTFSCommandInterpreterError::InvalidCommand(command) if command.is_empty()
            ));
        }
        other => panic!("expected a failure at route R1, got {:?}", other),
    }
    assert_eq!(
        refused.to_string(),
        "Error interpreting routes command: Error executing command for route R1: Invalid command: "
    );
}

#[test]
fn unknown_id_is_invalid_at_the_collection() {
    match root().interpret("routes.R9.list") {
        Err(GTFSCommandInterpreterError::RoutesCommandError(
            RoutesCommandError::InvalidCommand(command),
        )) => assert_eq!(command, "R9.list"),
        other => panic!("expected InvalidCommand, got {:?}", other),
    }
    match root().interpret("stops.Z") {
        Err(GTFSCommandInterpreterError::StopsSubcommandError(cause)) => match *cause {
            StopsCommandError::InvalidCommand(command) => assert_eq!(command, "Z"),
            other => panic!("expected InvalidCommand, got {:?}", other),
        },
        other => panic!("expected a stops failure, got {:?}", other),
    }
}

#[test]
fn list_matches_info_on_a_projection() {
    let node = root();
    let child = RoutesCommandInterpreter(&node).route("R1").unwrap();
    let routes = RoutesCommandInterpreter(&child);
    assert_eq!(routes.list().len(), routes.info());
    assert_eq!(routes.info(), 1);
    assert_eq!(
        lines(routes.interpret("list").unwrap()).len(),
        match routes.interpret("info").unwrap() {
            Report::RoutesInfo { routes } => routes,
            other => panic!("expected a count, got {:?}", other),
        }
    );
    let all = RoutesCommandInterpreter(&node);
    assert_eq!(all.list().len(), all.info());
    let feed = downtown();
    let stops = StopsCommandInterpreter(&feed);
    assert_eq!(stops.list().len(), stops.info());
}

#[test]
fn error_messages_name_what_failed() {
    assert_eq!(
        GTFSCommandInterpreterError::InvalidCommand("x".to_string()).to_string(),
        "Invalid command: x"
    );
    assert_eq!(
        GTFSCommandInterpreterError::StopsSubcommandRequired.to_string(),
        "Stops subcommand required"
    );
    assert_eq!(
        GTFSCommandInterpreterError::RoutesSubcommandRequired.to_string(),
        "Routes subcommand required"
    );
    assert_eq!(
        GTFSCommandInterpreterError::TripsSubcommandRequired.to_string(),
        "Trips subcommand required"
    );
    assert_eq!(
        GTFSCommandInterpreterError::TripsCommandError(TripsCommandError::InvalidCommand(
            "t".to_string()
        ))
        .to_string(),
        "Error interpreting trips command: Invalid command: t"
    );
    assert_eq!(
        RoutesCommandError::ErrorGettingRoute("why".to_string()).to_string(),
        "Error getting route: why"
    );
    assert_eq!(RoutesCommandError::NoSuchRoute("R9".to_string()).to_string(), "No such route: R9");
    assert_eq!(
        StopsCommandError::ErrorGettingStop("why".to_string()).to_string(),
        "Error getting stop: why"
    );
    assert_eq!(StopCommandError::NoSuchStop("Z".to_string()).to_string(), "No such stop: Z");
    assert_eq!(
        StopCommandError::ErrorGettingDescendants(
            "A".to_string(),
            Box::new(StopCommandError::NoSuchStop("A9".to_string()))
        )
        .to_string(),
        "Error getting descendants for stop A: No such stop: A9"
    );
}

#[test]
fn commands_split_at_the_first_separator() {
    assert_eq!(split_command("stops.A.list"), ("stops", ".A.list"));
    assert_eq!(split_command("info"), ("info", ""));
    assert_eq!(split_command(""), ("", ""));
    assert_eq!(split_command(".x"), ("", ".x"));
    assert_eq!(split_command("x."), ("x", "."));
    assert_eq!(split_command("caf\u{e9}.na\u{ef}ve"), ("caf\u{e9}", ".na\u{ef}ve"));
}

#[test]
fn tail_drops_the_separator() {
    assert_eq!(try_tail(".A.list"), Some("A.list".to_string()));
    assert_eq!(try_tail("."), None);
    assert_eq!(try_tail(""), None);
    assert_eq!(try_tail("\u{e9}x"), Some("x".to_string()));
    assert_eq!(skip_first(".A"), "A");
    assert_eq!(skip_first("."), "");
    assert_eq!(skip_first(""), "");
}

#[test]
fn texts_compare_by_their_characters() {
    assert!(same_text("", ""));
    assert!(same_text("stops", "stops"));
    assert!(!same_text("stops", "stop"));
    assert!(!same_text("stops", "stopz"));
    assert!(same_text("caf\u{e9}", "caf\u{e9}"));
    assert!(!same_text("cafe", "caf\u{e9}"));
}
