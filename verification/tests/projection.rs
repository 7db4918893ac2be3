use gtfs_explorer::commands::routes::{project_by_route, RoutesCommandError, RoutesCommandInterpreter};
use gtfs_explorer::commands::stops::{project_by_stop, StopCommandError, StopsCommandInterpreter};
use gtfs_explorer::commands::gtfs::GtfsNode;
use gtfs_explorer::gtfs::routes::{Route, RouteName, RouteType, Routes};
use gtfs_explorer::gtfs::stop_times::{StopTime, StopTimes};
use gtfs_explorer::gtfs::stops::{
    BoardingAreaDetails, EntranceExitDetails, GenericNodeDetails, LocationTypeDetails,
    StationDetails, Stop, StopDetails, Stops,
};
use gtfs_explorer::gtfs::trips::{Trip, Trips};
use gtfs_explorer::gtfs::util::Decimal;
use gtfs_explorer::gtfs::GtfsSchedule;

fn degrees(value: f64) -> Decimal {
    Decimal { bits: value.to_bits() }
}

fn stop_with(id: &str, details: LocationTypeDetails) -> Stop {
    Stop {
        stop_id: id.to_string(),
        stop_code: None,
        tts_stop_name: None,
        stop_desc: None,
        zone_id: None,
        stop_url: None,
        stop_timezone: None,
        wheelchair_boarding: None,
        level_id: None,
        platform_code: None,
        location_type_details: details,
    }
}

fn station(id: &str, name: &str) -> Stop {
    stop_with(
        id,
        LocationTypeDetails::Station(StationDetails {
            stop_name: name.to_string(),
            stop_lat: degrees(42.355),
            stop_lon: degrees(-71.06),
        }),
    )
}

fn platform(id: &str, name: &str, parent: Option<&str>) -> Stop {
    stop_with(
        id,
        LocationTypeDetails::Stop(StopDetails {
            stop_name: name.to_string(),
            stop_lat: degrees(42.355),
            stop_lon: degrees(-71.06),
            parent_station: parent.map(|p| p.to_string()),
        }),
    )
}

fn entrance(id: &str, name: &str, parent: &str) -> Stop {
    stop_with(
        id,
        LocationTypeDetails::EntranceExit(EntranceExitDetails {
            stop_name: name.to_string(),
            stop_lat: degrees(42.355),
            stop_lon: degrees(-71.06),
            parent_station: parent.to_string(),
        }),
    )
}

fn node(id: &str, parent: &str) -> Stop {
    stop_with(
        id,
        LocationTypeDetails::GenericNode(GenericNodeDetails {
            stop_name: None,
            stop_lat: None,
            stop_lon: None,
            parent_station: parent.to_string(),
        }),
    )
}

fn boarding_area(id: &str, parent: &str) -> Stop {
    stop_with(
        id,
        LocationTypeDetails::BoardingArea(BoardingAreaDetails {
            stop_name: None,
            stop_lat: None,
            stop_lon: None,
            parent_station: parent.to_string(),
        }),
    )
}

fn route(id: &str, name: RouteName) -> Route {
    Route {
        route_id: id.to_string(),
        agency_id: None,
        name,
        route_desc: None,
        route_type: RouteType::Bus,
        route_url: None,
        route_color: None,
        route_text_color: None,
        route_sort_order: None,
        continuous_pickup: None,
        continuous_drop_off: None,
        network_id: None,
    }
}

fn trip(id: &str, route_id: &str) -> Trip {
    Trip {
        trip_id: id.to_string(),
        route_id: route_id.to_string(),
        service_id: "weekday".to_string(),
        trip_headsign: None,
        trip_short_name: None,
        direction_id: None,
        block_id: None,
        shape_id: None,
        wheelchair_accessible: None,
        bikes_allowed: None,
    }
}

fn call(trip_id: &str, stop_id: Option<&str>, sequence: usize) -> StopTime {
    StopTime {
        trip_id: trip_id.to_string(),
        stop_id: stop_id.map(|s| s.to_string()),
        arrival_time: None,
        departure_time: None,
        location_group_id: None,
        location_id: None,
        stop_sequence: sequence,
        stop_headsign: None,
        start_pickup_drop_off_window: None,
        end_pickup_drop_off_window: None,
        pickup_type: None,
        drop_off_type: None,
        continuous_pickup: None,
        continuous_drop_off: None,
        shape_dist_traveled: None,
        timepoint: None,
        pickup_booking_rule_id: None,
        drop_off_booking_rule_id: None,
    }
}

fn schedule(stops: Vec<Stop>, routes: Vec<Route>, trips: Vec<Trip>, calls: Vec<StopTime>) -> GtfsSchedule {
    GtfsSchedule {
        stops: Stops { stops },
        routes: Routes { routes },
        trips: Trips { trips },
        stop_times: StopTimes { stop_times: calls },
    }
}

fn stop_ids(part: &GtfsSchedule) -> Vec<String> {
    part.stops.stops.iter().map(|s| s.stop_id.clone()).collect()
}

fn route_ids(part: &GtfsSchedule) -> Vec<String> {
    part.routes.routes.iter().map(|r| r.route_id.clone()).collect()
}

fn trip_ids(part: &GtfsSchedule) -> Vec<String> {
    part.trips.trips.iter().map(|t| t.trip_id.clone()).collect()
}

fn call_keys(part: &GtfsSchedule) -> Vec<(String, Option<String>, usize)> {
    part.stop_times
        .stop_times
        .iter()
        .map(|c| (c.trip_id.clone(), c.stop_id.clone(), c.stop_sequence))
        .collect()
}

fn downtown() -> GtfsSchedule {
    schedule(
        vec![
            station("A", "Downtown"),
            platform("A1", "Platform 1", Some("A")),
            entrance("A2", "North Entrance", "A"),
            node("A3", "A"),
            boarding_area("A1a", "A1"),
            station("B", "Uptown"),
            platform("B1", "Uptown Platform", Some("B")),
            platform("C", "Corner", None),
        ],
        vec![
            route("R1", RouteName::LongAndShort("Main Line".to_string(), "1".to_string())),
            route("R2", RouteName::Short("2".to_string())),
            route("R3", RouteName::Long("Crosstown".to_string())),
        ],
        vec![trip("T1", "R1"), trip("T2", "R1"), trip("T3", "R3")],
        vec![
            call("T1", Some("A1"), 1),
            call("T1", Some("B1"), 2),
            call("T2", Some("C"), 1),
            call("T2", None, 2),
            call("T3", Some("B1"), 1),
            call("T3", Some("C"), 2),
        ],
    )
}

#[test]
fn station_projects_with_its_platform_trip_and_route() {
    let feed = schedule(
        vec![station("A", "Downtown"), platform("A1", "Platform 1", Some("A"))],
        vec![route("R1", RouteName::Short("1".to_string()))],
        vec![trip("T1", "R1")],
        vec![call("T1", Some("A1"), 1)],
    );
    let part = project_by_stop(&feed, "A").unwrap();
    assert_eq!(stop_ids(&part), vec!["A", "A1"]);
    assert_eq!(trip_ids(&part), vec!["T1"]);
    assert_eq!(route_ids(&part), vec!["R1"]);
    assert_eq!(call_keys(&part), vec![("T1".to_string(), Some("A1".to_string()), 1)]);
}

#[test]
fn route_without_trips_projects_to_itself_alone() {
    let feed = downtown();
    let part = project_by_route(&feed, "R2").unwrap();
    assert_eq!(route_ids(&part), vec!["R2"]);
    assert!(part.trips.trips.is_empty());
    assert!(part.stops.stops.is_empty());
    assert!(part.stop_times.stop_times.is_empty());
}

#[test]
fn route_projection_keeps_what_the_route_reaches() {
    let feed = downtown();
    let part = project_by_route(&feed, "R1").unwrap();
    assert_eq!(route_ids(&part), vec!["R1"]);
    assert_eq!(trip_ids(&part), vec!["T1", "T2"]);
    assert_eq!(stop_ids(&part), vec!["A1", "B1", "C"]);
    assert_eq!(
        call_keys(&part),
        vec![
            ("T1".to_string(), Some("A1".to_string()), 1),
            ("T1".to_string(), Some("B1".to_string()), 2),
            ("T2".to_string(), Some("C".to_string()), 1),
            ("T2".to_string(), None, 2),
        ]
    );
    assert_eq!(part.routes.routes[0], feed.routes.routes[0]);
    assert_eq!(part.trips.trips[1], feed.trips.trips[1]);
    assert_eq!(part.stops.stops[0], feed.stops.stops[1]);
}

#[test]
fn route_projection_keeps_calls_without_a_stop() {
    let feed = downtown();
    let part = project_by_route(&feed, "R1").unwrap();
    let of_second: Vec<(Option<String>, usize)> = part
        .stop_times
        .for_trip("T2")
        .iter()
        .map(|c| (c.stop_id.clone(), c.stop_sequence))
        .collect();
    assert_eq!(of_second, vec![(Some("C".to_string()), 1), (None, 2)]);
    assert_eq!(stop_ids(&part), vec!["A1", "B1", "C"]);

    let only = schedule(
        vec![station("A", "Downtown")],
        vec![route("R1", RouteName::Short("1".to_string()))],
        vec![trip("T1", "R1"), trip("T2", "R9")],
        vec![call("T1", None, 1), call("T2", None, 1), call("T1", None, 2)],
    );
    let part = project_by_route(&only, "R1").unwrap();
    assert_eq!(
        call_keys(&part),
        vec![("T1".to_string(), None, 1), ("T1".to_string(), None, 2)]
    );
    assert_eq!(trip_ids(&part), vec!["T1"]);
    assert!(part.stops.stops.is_empty());
}

#[test]
fn missing_route_is_not_found() {
    let feed = downtown();
    match project_by_route(&feed, "R9") {
        Err(RoutesCommandError::NoSuchRoute(id)) => assert_eq!(id, "R9"),
        other => panic!("expected NoSuchRoute, got {:?}", other.map(|_| ())),
    }
    match project_by_route(&feed, "A") {
        Err(RoutesCommandError::NoSuchRoute(id)) => assert_eq!(id, "A"),
        other => panic!("expected NoSuchRoute, got {:?}", other.map(|_| ())),
    }
}

#[test]
fn missing_stop_is_not_found() {
    let feed = downtown();
    match project_by_stop(&feed, "Z") {
        Err(StopCommandError::NoSuchStop(id)) => assert_eq!(id, "Z"),
        other => panic!("expected NoSuchStop, got {:?}", other.map(|_| ())),
    }
    let empty = schedule(vec![], vec![], vec![], vec![]);
    assert!(matches!(project_by_stop(&empty, "A"), Err(StopCommandError::NoSuchStop(_))));
    assert!(matches!(project_by_route(&empty, "A"), Err(RoutesCommandError::NoSuchRoute(_))));
}

#[test]
fn parent_named_but_absent_is_not_found() {
    let feed = schedule(vec![platform("PL1", "Platform", Some("GONE"))], vec![], vec![], vec![]);
    assert!(matches!(project_by_stop(&feed, "GONE"), Err(StopCommandError::NoSuchStop(_))));
    let part = project_by_stop(&feed, "PL1").unwrap();
    assert_eq!(stop_ids(&part), vec!["PL1"]);
}

#[test]
fn stop_projection_gathers_the_whole_subtree() {
    let feed = downtown();
    let part = project_by_stop(&feed, "A").unwrap();
    assert_eq!(stop_ids(&part), vec!["A", "A1", "A2", "A3", "A1a"]);
    assert_eq!(trip_ids(&part), vec!["T1"]);
    assert_eq!(route_ids(&part), vec!["R1"]);
    assert_eq!(call_keys(&part), vec![("T1".to_string(), Some("A1".to_string()), 1)]);
}

#[test]
fn leaf_stop_projects_to_itself() {
    let feed = downtown();
    let part = project_by_stop(&feed, "C").unwrap();
    assert_eq!(stop_ids(&part), vec!["C"]);
    assert_eq!(trip_ids(&part), vec!["T2", "T3"]);
    assert_eq!(route_ids(&part), vec!["R1", "R3"]);
}

#[test]
fn child_projection_leaves_ancestors_out() {
    let feed = downtown();
    let part = project_by_stop(&feed, "A1").unwrap();
    assert_eq!(stop_ids(&part), vec!["A1", "A1a"]);
    assert!(!stop_ids(&part).contains(&"A".to_string()));
}

#[test]
fn stop_projection_is_stable_when_repeated() {
    let feed = downtown();
    let once = project_by_stop(&feed, "A").unwrap();
    let twice = project_by_stop(&once, "A").unwrap();
    assert_eq!(stop_ids(&twice), stop_ids(&once));
    assert_eq!(trip_ids(&twice), trip_ids(&once));
    assert_eq!(route_ids(&twice), route_ids(&once));
    assert_eq!(call_keys(&twice), call_keys(&once));
}

#[test]
fn route_projection_is_stable_when_repeated() {
    let feed = downtown();
    let once = project_by_route(&feed, "R1").unwrap();
    let twice = project_by_route(&once, "R1").unwrap();
    assert_eq!(stop_ids(&twice), stop_ids(&once));
    assert_eq!(trip_ids(&twice), trip_ids(&once));
    assert_eq!(route_ids(&twice), route_ids(&once));
    assert_eq!(call_keys(&twice), call_keys(&once));
    assert!(matches!(project_by_route(&once, "R3"), Err(RoutesCommandError::NoSuchRoute(_))));
}

#[test]
fn stop_projection_holds_the_stop_and_grows_only_with_children() {
    let feed = downtown();
    for id in ["A", "A1", "A2", "A3", "A1a", "B", "B1", "C"] {
        let part = project_by_stop(&feed, id).unwrap();
        assert!(stop_ids(&part).contains(&id.to_string()));
        let has_child = feed
            .stops
            .stops
            .iter()
            .any(|s| s.parent_station() == Some(id) && s.stop_id != id);
        assert_eq!(part.stops.len() > 1, has_child);
    }
}

#[test]
fn cycle_of_parents_ends_the_walk() {
    let feed = schedule(
        vec![
            platform("X", "X", Some("Y")),
            platform("Y", "Y", Some("X")),
            platform("S", "Self", Some("S")),
            platform("Z", "Z", Some("X")),
        ],
        vec![],
        vec![],
        vec![],
    );
    assert_eq!(stop_ids(&project_by_stop(&feed, "X").unwrap()), vec!["X", "Y", "Z"]);
    assert_eq!(stop_ids(&project_by_stop(&feed, "Y").unwrap()), vec!["X", "Y", "Z"]);
    assert_eq!(stop_ids(&project_by_stop(&feed, "S").unwrap()), vec!["S"]);
    assert_eq!(stop_ids(&project_by_stop(&feed, "Z").unwrap()), vec!["Z"]);
}

#[test]
fn deep_chain_is_followed_to_the_end() {
    let mut stops = vec![station("s0", "Root")];
    for i in 1..200 {
        stops.push(platform(&format!("s{}", i), "Level", Some(&format!("s{}", i - 1))));
    }
    stops.reverse();
    let feed = schedule(stops, vec![], vec![], vec![]);
    assert_eq!(project_by_stop(&feed, "s0").unwrap().stops.len(), 200);
    assert_eq!(project_by_stop(&feed, "s150").unwrap().stops.len(), 50);
}

#[test]
fn descendants_come_in_the_order_of_the_schedule() {
    let feed = downtown();
    let found = StopsCommandInterpreter(&feed).clone_descendants("B").unwrap();
    let ids: Vec<&str> = found.stops.iter().map(|s| s.stop_id.as_str()).collect();
    assert_eq!(ids, vec!["B", "B1"]);
    assert!(matches!(
        StopsCommandInterpreter(&feed).clone_descendants("nowhere"),
        Err(StopCommandError::NoSuchStop(_))
    ));
}

#[test]
fn route_node_remembers_where_it_came_from() {
    let root = GtfsNode { gtfs: downtown(), parent: None, node_id: String::new(), node_name: None };
    let child = RoutesCommandInterpreter(&root).route("R1").unwrap();
    assert_eq!(child.node_id, "R1");
    assert_eq!(child.node_name.as_deref(), Some("Main Line"));
    let parent = child.parent.as_ref().unwrap();
    assert_eq!(parent.node_id, "");
    assert_eq!(parent.gtfs.stops.len(), 8);
    assert_eq!(route_ids(&child.gtfs), vec!["R1"]);
    let short = RoutesCommandInterpreter(&root).route("R2").unwrap();
    assert_eq!(short.node_name.as_deref(), Some("2"));
    assert!(matches!(
        RoutesCommandInterpreter(&root).route("nope"),
        Err(RoutesCommandError::NoSuchRoute(_))
    ));
}

#[test]
fn stop_node_keeps_no_parent() {
    let feed = downtown();
    let child = StopsCommandInterpreter(&feed).stop("A").unwrap();
    assert_eq!(child.node_id, "A");
    assert_eq!(child.node_name.as_deref(), Some("Downtown"));
    assert!(child.parent.is_none());
    let unnamed = StopsCommandInterpreter(&feed).stop("A3").unwrap();
    assert_eq!(unnamed.node_name, None);
    assert!(matches!(
        StopsCommandInterpreter(&feed).stop("nope"),
        Err(StopCommandError::NoSuchStop(_))
    ));
}

#[test]
fn source_schedule_is_left_as_it_was() {
    let feed = downtown();
    let _ = project_by_stop(&feed, "A").unwrap();
    let _ = project_by_route(&feed, "R1").unwrap();
    assert_eq!(feed.stops.len(), 8);
    assert_eq!(feed.routes.len(), 3);
    assert_eq!(feed.trips.len(), 3);
    assert_eq!(feed.stop_times.iter().len(), 6);
}
