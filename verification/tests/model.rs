#![allow(dead_code)]

use gtfs_explorer::commands::routes::project_by_route;
use gtfs_explorer::commands::stops::project_by_stop;
use gtfs_explorer::gtfs::keyed::{copy_all, place_all, position, put, select, Identified, Record};
use gtfs_explorer::gtfs::routes::{Route, RouteName, RouteType, Routes};
use gtfs_explorer::gtfs::stop_times::{StopTime, StopTimes};
use gtfs_explorer::gtfs::stops::{
    BoardingAreaDetails, EntranceExitDetails, GenericNodeDetails, LocationTypeDetails,
    StationDetails, Stop, StopDetails, Stops,
};
use gtfs_explorer::gtfs::trips::{Trip, Trips};
use gtfs_explorer::gtfs::util::{parse_optional_field, Decimal};
use gtfs_explorer::gtfs::GtfsSchedule;
use gtfs_explorer::text::{copy_optional_text, join2, join3};

fn degrees(value: f64) -> Decimal {
    Decimal { bits: value.to_bits() }
}

fn stop_with(id: &str, details: LocationTypeDetails) -> Stop {
    Stop {
        stop_id: id.to_string(),
        stop_code: None,
        tts_stop_name: None,
        stop_desc: None,
        zone_id: None,
        stop_url: None,
        stop_timezone: None,
        wheelchair_boarding: None,
        level_id: None,
        platform_code: None,
        location_type_details: details,
    }
}

fn station(id: &str, name: &str) -> Stop {
    stop_with(
        id,
        LocationTypeDetails::Station(StationDetails {
            stop_name: name.to_string(),
            stop_lat: degrees(42.355),
            stop_lon: degrees(-71.06),
        }),
    )
}

fn platform(id: &str, name: &str, parent: Option<&str>) -> Stop {
    stop_with(
        id,
        LocationTypeDetails::Stop(StopDetails {
            stop_name: name.to_string(),
            stop_lat: degrees(42.355),
            stop_lon: degrees(-71.06),
            parent_station: parent.map(|p| p.to_string()),
        }),
    )
}

fn entrance(id: &str, name: &str, parent: &str) -> Stop {
    stop_with(
        id,
        LocationTypeDetails::EntranceExit(EntranceExitDetails {
            stop_name: name.to_string(),
            stop_lat: degrees(42.355),
            stop_lon: degrees(-71.06),
            parent_station: parent.to_string(),
        }),
    )
}

fn node(id: &str, parent: &str) -> Stop {
    stop_with(
        id,
        LocationTypeDetails::GenericNode(GenericNodeDetails {
            stop_name: None,
            stop_lat: None,
            stop_lon: None,
            parent_station: parent.to_string(),
        }),
    )
}

fn boarding_area(id: &str, parent: &str) -> Stop {
    stop_with(
        id,
        LocationTypeDetails::BoardingArea(BoardingAreaDetails {
            stop_name: None,
            stop_lat: None,
            stop_lon: None,
            parent_station: parent.to_string(),
        }),
    )
}

fn route(id: &str, name: RouteName) -> Route {
    Route {
        route_id: id.to_string(),
        agency_id: None,
        name,
        route_desc: None,
        route_type: RouteType::Bus,
        route_url: None,
        route_color: None,
        route_text_color: None,
        route_sort_order: None,
        continuous_pickup: None,
        continuous_drop_off: None,
        network_id: None,
    }
}

fn trip(id: &str, route_id: &str) -> Trip {
    Trip {
        trip_id: id.to_string(),
        route_id: route_id.to_string(),
        service_id: "weekday".to_string(),
        trip_headsign: None,
        trip_short_name: None,
        direction_id: None,
        block_id: None,
        shape_id: None,
        wheelchair_accessible: None,
        bikes_allowed: None,
    }
}

fn call(trip_id: &str, stop_id: Option<&str>, sequence: usize) -> StopTime {
    StopTime {
        trip_id: trip_id.to_string(),
        stop_id: stop_id.map(|s| s.to_string()),
        arrival_time: None,
        departure_time: None,
        location_group_id: None,
        location_id: None,
        stop_sequence: sequence,
        stop_headsign: None,
        start_pickup_drop_off_window: None,
        end_pickup_drop_off_window: None,
        pickup_type: None,
        drop_off_type: None,
        continuous_pickup: None,
        continuous_drop_off: None,
        shape_dist_traveled: None,
        timepoint: None,
        pickup_booking_rule_id: None,
        drop_off_booking_rule_id: None,
    }
}

#[test]
fn collections_insert_and_get_by_identifier() {
    let mut stops = Stops::new();
    assert_eq!(stops.len(), 0);
    assert!(stops.insert(station("A", "First")).is_none());
    assert!(stops.insert(station("B", "Second")).is_none());
    let replaced = stops.insert(station("A", "Third")).unwrap();
    assert_eq!(replaced.get_stop_name(), Some("First"));
    assert_eq!(stops.len(), 2);
    assert_eq!(stops.stops[0].get_stop_name(), Some("Third"));
    assert_eq!(stops.get("B").unwrap().get_stop_name(), Some("Second"));
    assert!(stops.get("C").is_none());

    let mut routes = Routes::new();
    assert!(routes.insert(route("R1", RouteName::Short("1".to_string()))).is_none());
    assert!(routes.insert(route("R1", RouteName::Short("one".to_string()))).is_some());
    assert_eq!(routes.len(), 1);
    assert_eq!(routes.get("R1").unwrap().name(), "one");
    assert!(routes.get("R2").is_none());

    let mut trips = Trips::new();
    assert!(trips.insert(trip("T1", "R1")).is_none());
    assert!(trips.insert(trip("T2", "R1")).is_none());
    assert_eq!(trips.insert(trip("T1", "R2")).unwrap().route_id, "R1");
    assert_eq!(trips.len(), 2);
    assert_eq!(trips.get("T1").unwrap().route_id, "R2");
    assert!(trips.get("T3").is_none());

    let mut calls = StopTimes::new();
    calls.push(call("T1", Some("A"), 2));
    calls.push(call("T1", Some("A"), 1));
    assert_eq!(calls.iter().len(), 2);
    assert_eq!(calls.iter()[0].stop_sequence, 2);
}

#[test]
fn records_copy_as_they_are() {
    let stop = platform("A1", "Platform 1", Some("A"));
    assert_eq!(stop.clone(), stop);
    assert_eq!(stop.replica(), stop);
    let route = route("R1", RouteName::LongAndShort("Main".to_string(), "1".to_string()));
    assert_eq!(route.clone(), route);
    let trip = trip("T1", "R1");
    assert_eq!(trip.clone(), trip);
    let call = call("T1", None, 3);
    assert_eq!(call.clone(), call);
    assert_eq!(copy_all(&vec![trip.clone(), trip.clone()]), vec![trip.clone(), trip.clone()]);
    assert_eq!(copy_optional_text(&Some("x".to_string())), Some("x".to_string()));
    assert_eq!(copy_optional_text(&None), None);
    assert_eq!(stop.key_text(), "A1");
    assert_eq!(route.key_text(), "R1");
    assert_eq!(trip.key_text(), "T1");
}

#[test]
fn schedule_copies_whole() {
    let feed = GtfsSchedule {
        stops: Stops { stops: vec![station("A", "Downtown")] },
        routes: Routes { routes: vec![route("R1", RouteName::Short("1".to_string()))] },
        trips: Trips { trips: vec![trip("T1", "R1")] },
        stop_times: StopTimes { stop_times: vec![call("T1", Some("A"), 1)] },
    };
    let copy = feed.clone();
    assert_eq!(copy.stops.stops, feed.stops.stops);
    assert_eq!(copy.routes.routes, feed.routes.routes);
    assert_eq!(copy.trips.trips, feed.trips.trips);
    assert_eq!(copy.stop_times.stop_times, feed.stop_times.stop_times);
}

#[test]
fn selection_keeps_the_marked_records_in_order() {
    let trips = vec![trip("T1", "R1"), trip("T2", "R1"), trip("T3", "R2")];
    let kept = select(&trips, &vec![true, false, true]);
    assert_eq!(kept, vec![trip("T1", "R1"), trip("T3", "R2")]);
    assert!(select(&trips, &vec![false, false, false]).is_empty());
    assert_eq!(select(&trips, &vec![false, true]), vec![trip("T2", "R1")]);
    assert_eq!(select(&trips, &vec![true, false, false, true]), vec![trip("T1", "R1")]);
}

#[test]
fn position_is_the_first_place_of_an_identifier() {
    let trips = vec![trip("T1", "R1"), trip("T2", "R1"), trip("T1", "R2")];
    assert_eq!(position(&trips, "T1"), Some(0));
    assert_eq!(position(&trips, "T2"), Some(1));
    assert_eq!(position(&trips, "T3"), None);
    let mut table = vec![trip("T1", "R1")];
    assert!(put(&mut table, trip("T2", "R1")).is_none());
    assert_eq!(put(&mut table, trip("T1", "R9")), Some(trip("T1", "R1")));
    assert_eq!(table, vec![trip("T1", "R9"), trip("T2", "R1")]);
    assert_eq!(
        place_all(&vec![trip("T1", "R1"), trip("T2", "R1"), trip("T1", "R9")]),
        vec![trip("T1", "R9"), trip("T2", "R1")]
    );
}

#[test]
fn stop_name_can_be_changed_in_place() {
    let mut stop = station("A", "Downtown");
    *stop.mut_stop_name().unwrap() = "Uptown".to_string();
    assert_eq!(stop.get_stop_name(), Some("Uptown"));
    let mut platform = platform("A1", "One", None);
    platform.mut_stop_name().unwrap().push_str(" West");
    assert_eq!(platform.get_stop_name(), Some("One West"));
    let mut entrance = entrance("A2", "Door", "A");
    *entrance.mut_stop_name().unwrap() = "Portal".to_string();
    assert_eq!(entrance.get_stop_name(), Some("Portal"));
    let mut unnamed = node("A3", "A");
    assert!(unnamed.mut_stop_name().is_none());
    let mut area = boarding_area("A4", "A1");
    assert!(area.mut_stop_name().is_none());
    if let LocationTypeDetails::BoardingArea(details) = &mut area.location_type_details {
        details.stop_name = Some("Area".to_string());
    }
    *area.mut_stop_name().unwrap() = "Zone".to_string();
    assert_eq!(area.get_stop_name(), Some("Zone"));
    assert_eq!(area.parent_station(), Some("A1"));
}

#[test]
fn stop_name_can_be_taken_out() {
    assert_eq!(station("A", "Downtown").take_stop_name(), (Some("Downtown".to_string()), None));
    assert_eq!(platform("A1", "One", None).take_stop_name(), (Some("One".to_string()), None));
    assert_eq!(entrance("A2", "Door", "A").take_stop_name(), (Some("Door".to_string()), None));
    assert_eq!(node("A3", "A").take_stop_name(), (None, Some(node("A3", "A"))));
    let mut area = boarding_area("A4", "A1");
    if let LocationTypeDetails::BoardingArea(details) = &mut area.location_type_details {
        details.stop_name = Some("Area".to_string());
    }
    assert_eq!(area.take_stop_name(), (Some("Area".to_string()), Some(boarding_area("A4", "A1"))));
}

#[test]
fn optional_field_is_read_where_it_is_given() {
    let parse = |text: &str| text.parse::<u16>().map_err(|_| text.len());
    assert_eq!(parse_optional_field(None, parse), Ok(None));
    assert_eq!(parse_optional_field(Some("12"), parse), Ok(Some(12)));
    assert_eq!(parse_optional_field(Some("twelve"), parse), Err(6));
}

#[test]
fn texts_join_in_order() {
    assert_eq!(join2("ab", "cd"), "abcd");
    assert_eq!(join2("", ""), "");
    assert_eq!(join3("a", "", "c"), "ac");
    assert_eq!(join3("R1", ": ", "Main"), "R1: Main");
}

#[test]
fn large_schedule_projects_in_good_time() {
    let mut stops = Vec::new();
    let mut trips = Vec::new();
    let mut calls = Vec::new();
    let mut routes = Vec::new();
    for s in 0..2000 {
        stops.push(station(&format!("S{}", s), "Station"));
        stops.push(platform(&format!("S{}p", s), "Platform", Some(&format!("S{}", s))));
    }
    for r in 0..50 {
        routes.push(route(&format!("R{}", r), RouteName::Short(format!("{}", r))));
        for t in 0..200 {
            let id = format!("R{}T{}", r, t);
            trips.push(trip(&id, &format!("R{}", r)));
            for k in 0..10 {
                calls.push(call(&id, Some(&format!("S{}p", (r * 40 + k + t) % 2000)), k));
            }
        }
    }
    let feed = GtfsSchedule {
        stops: Stops { stops },
        routes: Routes { routes },
        trips: Trips { trips },
        stop_times: StopTimes { stop_times: calls },
    };
    let by_route = project_by_route(&feed, "R7").unwrap();
    assert_eq!(by_route.trips.len(), 200);
    assert_eq!(by_route.stop_times.iter().len(), 2000);
    assert_eq!(by_route.stops.len(), 209);
    let by_stop = project_by_stop(&feed, "S300").unwrap();
    assert_eq!(by_stop.stops.len(), 2);
    assert!(by_stop.trips.len() > 0);
    assert_eq!(by_stop.trips.len(), by_stop.stop_times.iter().len());
    assert!(by_stop.routes.len() >= 1);
    let placed = place_all(&feed.trips.trips);
    assert_eq!(placed.len(), 10000);
}
