//! What it means to project a schedule onto one route or onto one stop: the
//! part of the schedule that the selection reaches, and nothing else.

use vstd::prelude::*;
use crate::gtfs::keyed::{
    distinct_keys, first_place, first_with_key, has_key, lemma_filter_all, lemma_filter_keeps_distinct,
    lemma_filter_members, lemma_filter_twice, lemma_first_is_lookup, lemma_has_first,
    lemma_lookup_in_filter, lookup,
};
use crate::gtfs::routes::Route;
use crate::gtfs::stop_times::StopTime;
use crate::gtfs::stops::Stop;
use crate::gtfs::trips::Trip;
use crate::gtfs::ScheduleView;

verus! {

/// Whether some call of `calls` is made at the stop `stop_id`.
pub open spec fn calls_at(calls: Seq<StopTime>, stop_id: Seq<char>) -> bool {
    exists|i: int| 0 <= i < calls.len() && (#[trigger] calls[i]).stop() == Some(stop_id)
}

/// Whether some call of `calls` belongs to the trip `trip_id`.
pub open spec fn calls_on(calls: Seq<StopTime>, trip_id: Seq<char>) -> bool {
    exists|i: int| 0 <= i < calls.len() && (#[trigger] calls[i]).trip_id@ == trip_id
}

/// Whether some trip of `trips` runs on the route `route_id`.
pub open spec fn runs_on(trips: Seq<Trip>, route_id: Seq<char>) -> bool {
    exists|i: int| 0 <= i < trips.len() && (#[trigger] trips[i]).route_id@ == route_id
}

/// The test that a trip runs on the route `route_id`.
pub open spec fn on_route(route_id: Seq<char>) -> spec_fn(Trip) -> bool {
    |trip: Trip| trip.route_id@ == route_id
}

/// The test that a call belongs to one of `trips`.
pub open spec fn of_trips(trips: Seq<Trip>) -> spec_fn(StopTime) -> bool {
    |call: StopTime| has_key(trips, call.trip_id@)
}

/// The test that some call of `calls` is made at a stop.
pub open spec fn called_at(calls: Seq<StopTime>) -> spec_fn(Stop) -> bool {
    |stop: Stop| calls_at(calls, stop.stop_id@)
}

/// The trips of `trips` that run on the route `route_id`.
pub open spec fn trips_of_route(trips: Seq<Trip>, route_id: Seq<char>) -> Seq<Trip> {
    trips.filter(on_route(route_id))
}

/// The calls of `calls` that belong to one of `trips`, whether they name a
/// stop or not.
pub open spec fn calls_of_trips(calls: Seq<StopTime>, trips: Seq<Trip>) -> Seq<StopTime> {
    calls.filter(of_trips(trips))
}

/// The stops of `stops` at which some call of `calls` is made.
pub open spec fn stops_of_calls(stops: Seq<Stop>, calls: Seq<StopTime>) -> Seq<Stop> {
    stops.filter(called_at(calls))
}

/// The route `route_id` alone, where `routes` has it.
pub open spec fn route_alone(routes: Seq<Route>, route_id: Seq<char>) -> Seq<Route> {
    match lookup(routes, route_id) {
        Some(route) => seq![route],
        None => Seq::<Route>::empty(),
    }
}

/// The projection of `schedule` onto the route `route_id`: that route, the
/// trips that run on it, all the calls of those trips, and the stops that
/// those calls are made at.
pub open spec fn route_projection(schedule: ScheduleView, route_id: Seq<char>) -> ScheduleView {
    let trips = trips_of_route(schedule.trips, route_id);
    let stop_times = calls_of_trips(schedule.stop_times, trips);
    ScheduleView {
        stops: stops_of_calls(schedule.stops, stop_times),
        routes: route_alone(schedule.routes, route_id),
        trips,
        stop_times,
    }
}

/// The identifier of the location that the stop `id` lies in, where
/// `stops` has the stop and it names one.
pub open spec fn parent_of(stops: Seq<Stop>, id: Seq<char>) -> Option<Seq<char>> {
    match lookup(stops, id) {
        Some(stop) => stop.spec_parent_station(),
        None => None,
    }
}

/// Whether `steps` parent links lead from the stop `id` up to the stop
/// `ancestor`, every stop on the way being one of `stops`.
pub open spec fn climbs_to(stops: Seq<Stop>, id: Seq<char>, ancestor: Seq<char>, steps: nat) -> bool
    decreases steps,
{
    if steps == 0 {
        id == ancestor && has_key(stops, id)
    } else {
        match parent_of(stops, id) {
            Some(parent) => climbs_to(stops, parent, ancestor, (steps - 1) as nat),
            None => false,
        }
    }
}

/// Whether the stop `id` is `ancestor` itself or lies, directly or through
/// other stops, in it.
pub open spec fn descends_from(stops: Seq<Stop>, id: Seq<char>, ancestor: Seq<char>) -> bool {
    exists|steps: nat| climbs_to(stops, id, ancestor, steps)
}

/// The test that a stop is the stop `root` of `stops` or lies in it.
pub open spec fn inside(stops: Seq<Stop>, root: Seq<char>) -> spec_fn(Stop) -> bool {
    |stop: Stop| descends_from(stops, stop.stop_id@, root)
}

/// The test that a call is made at one of `stops`.
pub open spec fn at_stops(stops: Seq<Stop>) -> spec_fn(StopTime) -> bool {
    |call: StopTime| call.stop() matches Some(stop_id) && has_key(stops, stop_id)
}

/// The test that some call of `calls` belongs to a trip.
pub open spec fn called_on(calls: Seq<StopTime>) -> spec_fn(Trip) -> bool {
    |trip: Trip| calls_on(calls, trip.trip_id@)
}

/// The test that some trip of `trips` runs on a route.
pub open spec fn run_by(trips: Seq<Trip>) -> spec_fn(Route) -> bool {
    |route: Route| runs_on(trips, route.route_id@)
}

/// The stop `stop_id` and all that lies in it.
pub open spec fn descendants_of(stops: Seq<Stop>, stop_id: Seq<char>) -> Seq<Stop> {
    stops.filter(inside(stops, stop_id))
}

/// The calls of `calls` that are made at one of `stops`.
pub open spec fn calls_at_stops(calls: Seq<StopTime>, stops: Seq<Stop>) -> Seq<StopTime> {
    calls.filter(at_stops(stops))
}

/// The trips of `trips` that some call of `calls` belongs to.
pub open spec fn trips_of_calls(trips: Seq<Trip>, calls: Seq<StopTime>) -> Seq<Trip> {
    trips.filter(called_on(calls))
}

/// The routes of `routes` that some trip of `trips` runs on.
pub open spec fn routes_of_trips(routes: Seq<Route>, trips: Seq<Trip>) -> Seq<Route> {
    routes.filter(run_by(trips))
}

/// The projection of `schedule` onto the stop `stop_id`: that stop with all
/// that lies in it, the calls made there, the trips of those calls, and the
/// routes of those trips.
pub open spec fn stop_projection(schedule: ScheduleView, stop_id: Seq<char>) -> ScheduleView {
    let stops = descendants_of(schedule.stops, stop_id);
    let stop_times = calls_at_stops(schedule.stop_times, stops);
    let trips = trips_of_calls(schedule.trips, stop_times);
    ScheduleView {
        stops,
        routes: routes_of_trips(schedule.routes, trips),
        trips,
        stop_times,
    }
}

/// Whether some stop of `stops` other than `stop_id` names `stop_id` as the
/// location it lies in.
pub open spec fn has_child(stops: Seq<Stop>, stop_id: Seq<char>) -> bool {
    exists|i: int|
        0 <= i < stops.len() && (#[trigger] stops[i]).stop_id@ != stop_id && parent_of(
            stops,
            stops[i].stop_id@,
        ) == Some(stop_id)
}

/// The projection onto a route that the schedule has holds that route
/// alone, the trips that run on it and no others, the calls of those trips
/// and no others, and the stops of those calls and no others.
pub proof fn route_projection_holds_what_the_route_reaches(
    schedule: ScheduleView,
    route_id: Seq<char>,
)
    requires
        has_key(schedule.routes, route_id),
    ensures
        ({
            let part = route_projection(schedule, route_id);
            &&& part.routes.len() == 1
            &&& part.routes[0].route_id@ == route_id
            &&& schedule.routes.contains(part.routes[0])
            &&& forall|trip: Trip| #[trigger]
                part.trips.contains(trip) <==> schedule.trips.contains(trip) && trip.route_id@
                    == route_id
            &&& forall|call: StopTime| #[trigger]
                part.stop_times.contains(call) <==> schedule.stop_times.contains(call) && has_key(
                    part.trips,
                    call.trip_id@,
                )
            &&& forall|stop: Stop| #[trigger]
                part.stops.contains(stop) <==> schedule.stops.contains(stop) && calls_at(
                    part.stop_times,
                    stop.stop_id@,
                )
        }),
{
    let part = route_projection(schedule, route_id);
    lemma_has_first(schedule.routes, route_id);
    lemma_first_is_lookup(schedule.routes, route_id, first_place(schedule.routes, route_id));
    lemma_filter_members(schedule.trips, on_route(route_id));
    lemma_filter_members(schedule.stop_times, of_trips(part.trips));
    lemma_filter_members(schedule.stops, called_at(part.stop_times));
}

/// The projection onto a stop holds the stops that are that stop or lie in
/// it and no others, the calls made at those stops and no others, the trips
/// of those calls and no others, and the routes of those trips and no
/// others.
pub proof fn stop_projection_holds_what_the_stop_reaches(schedule: ScheduleView, stop_id: Seq<char>)
    ensures
        ({
            let part = stop_projection(schedule, stop_id);
            &&& forall|stop: Stop| #[trigger]
                part.stops.contains(stop) <==> schedule.stops.contains(stop) && descends_from(
                    schedule.stops,
                    stop.stop_id@,
                    stop_id,
                )
            &&& forall|call: StopTime| #[trigger]
                part.stop_times.contains(call) <==> schedule.stop_times.contains(call) && (
                call.stop() matches Some(id) && has_key(part.stops, id))
            &&& forall|trip: Trip| #[trigger]
                part.trips.contains(trip) <==> schedule.trips.contains(trip) && calls_on(
                    part.stop_times,
                    trip.trip_id@,
                )
            &&& forall|route: Route| #[trigger]
                part.routes.contains(route) <==> schedule.routes.contains(route) && runs_on(
                    part.trips,
                    route.route_id@,
                )
        }),
{
    let part = stop_projection(schedule, stop_id);
    lemma_filter_members(schedule.stops, inside(schedule.stops, stop_id));
    lemma_filter_members(schedule.stop_times, at_stops(part.stops));
    lemma_filter_members(schedule.trips, called_on(part.stop_times));
    lemma_filter_members(schedule.routes, run_by(part.trips));
}

/// A projection of a schedule that holds no identifier twice holds none
/// twice either.
pub proof fn projections_stay_keyed(schedule: ScheduleView, id: Seq<char>)
    requires
        schedule.keyed(),
    ensures
        route_projection(schedule, id).keyed(),
        stop_projection(schedule, id).keyed(),
{
    let by_route = route_projection(schedule, id);
    lemma_filter_keeps_distinct(schedule.trips, on_route(id));
    lemma_filter_keeps_distinct(schedule.stops, called_at(by_route.stop_times));
    let by_stop = stop_projection(schedule, id);
    lemma_filter_keeps_distinct(schedule.stops, inside(schedule.stops, id));
    lemma_filter_keeps_distinct(schedule.trips, called_on(by_stop.stop_times));
    lemma_filter_keeps_distinct(schedule.routes, run_by(by_stop.trips));
}

/// A stop that lies in `root` is found among the descendants of `root` as
/// it is found among all the stops.
proof fn lemma_descendant_is_kept(stops: Seq<Stop>, root: Seq<char>, id: Seq<char>)
    requires
        descends_from(stops, id, root),
    ensures
        has_key(stops, id),
        has_key(descendants_of(stops, root), id),
        lookup(descendants_of(stops, root), id) == lookup(stops, id),
{
    let steps = choose|steps: nat| climbs_to(stops, id, root, steps);
    lemma_has_first(stops, id);
    lemma_lookup_in_filter(stops, inside(stops, root), id);
}

/// The parent links that lead up to `root` among all the stops lead up to
/// it among its descendants alone.
proof fn lemma_climb_stays_inside(stops: Seq<Stop>, root: Seq<char>, id: Seq<char>, steps: nat)
    requires
        climbs_to(stops, id, root, steps),
    ensures
        climbs_to(descendants_of(stops, root), id, root, steps),
    decreases steps,
{
    lemma_descendant_is_kept(stops, root, id);
    if steps > 0 {
        let parent = parent_of(stops, id)->0;
        lemma_climb_stays_inside(stops, root, parent, (steps - 1) as nat);
    }
}

/// Projecting onto a stop a second time changes nothing: the projection
/// onto `stop_id` of the projection onto `stop_id` is that projection.
pub proof fn stop_projection_is_idempotent(schedule: ScheduleView, stop_id: Seq<char>)
    ensures
        stop_projection(stop_projection(schedule, stop_id), stop_id) == stop_projection(
            schedule,
            stop_id,
        ),
{
    let once = stop_projection(schedule, stop_id);
    let twice = stop_projection(once, stop_id);
    let within = inside(once.stops, stop_id);
    assert forall|i: int| 0 <= i < once.stops.len() implies within(#[trigger] once.stops[i]) by {
        let id = once.stops[i].stop_id@;
        let steps = choose|steps: nat| climbs_to(schedule.stops, id, stop_id, steps);
        lemma_climb_stays_inside(schedule.stops, stop_id, id, steps);
    }
    lemma_filter_all(once.stops, within);
    lemma_filter_twice(schedule.stop_times, at_stops(once.stops));
    lemma_filter_twice(schedule.trips, called_on(once.stop_times));
    lemma_filter_twice(schedule.routes, run_by(once.trips));
}

/// Projecting onto a route a second time changes nothing: the projection
/// onto `route_id` of the projection onto `route_id` is that projection.
pub proof fn route_projection_is_idempotent(schedule: ScheduleView, route_id: Seq<char>)
    ensures
        route_projection(route_projection(schedule, route_id), route_id) == route_projection(
            schedule,
            route_id,
        ),
{
    let once = route_projection(schedule, route_id);
    let twice = route_projection(once, route_id);
    lemma_filter_twice(schedule.trips, on_route(route_id));
    lemma_filter_twice(schedule.stop_times, of_trips(once.trips));
    lemma_filter_twice(schedule.stops, called_at(once.stop_times));
    if has_key(schedule.routes, route_id) {
        lemma_has_first(schedule.routes, route_id);
        assert(first_with_key(once.routes, route_id, 0));
        lemma_first_is_lookup(once.routes, route_id, 0);
    } else {
        assert(!has_key(once.routes, route_id));
    }
    assert(twice.routes =~= once.routes);
}

/// A stop other than `root` that climbs to `root` shows a child of `root`.
proof fn lemma_climb_passes_child(stops: Seq<Stop>, root: Seq<char>, id: Seq<char>, steps: nat)
    requires
        climbs_to(stops, id, root, steps),
        id != root,
    ensures
        has_child(stops, root),
    decreases steps,
{
    let parent = parent_of(stops, id)->0;
    if parent == root {
        lemma_has_first(stops, id);
        let i = first_place(stops, id);
    } else {
        lemma_climb_passes_child(stops, root, parent, (steps - 1) as nat);
    }
}

/// The projection onto a stop that the schedule has holds that stop, and
/// it holds another stop if and only if the stop has a child. Where no two
/// stops share an identifier, it holds more than one stop if and only if
/// the stop has a child.
pub proof fn stop_projection_holds_the_stop(schedule: ScheduleView, stop_id: Seq<char>)
    requires
        has_key(schedule.stops, stop_id),
    ensures
        ({
            let part = stop_projection(schedule, stop_id);
            &&& has_key(part.stops, stop_id)
            &&& lookup(part.stops, stop_id) == lookup(schedule.stops, stop_id)
            &&& (exists|i: int| 0 <= i < part.stops.len() && (#[trigger] part.stops[i]).stop_id@
                != stop_id) <==> has_child(schedule.stops, stop_id)
            &&& distinct_keys(schedule.stops) ==> (part.stops.len() > 1 <==> has_child(
                schedule.stops,
                stop_id,
            ))
        }),
{
    let stops = schedule.stops;
    let part = stop_projection(schedule, stop_id);
    let within = inside(stops, stop_id);
    assert(climbs_to(stops, stop_id, stop_id, 0));
    lemma_descendant_is_kept(stops, stop_id, stop_id);
    let has_other = exists|i: int|
        0 <= i < part.stops.len() && (#[trigger] part.stops[i]).stop_id@ != stop_id;
    if has_other {
        let i = choose|i: int|
            0 <= i < part.stops.len() && (#[trigger] part.stops[i]).stop_id@ != stop_id;
        stops.lemma_filter_pred(within, i);
        let id = part.stops[i].stop_id@;
        let steps = choose|steps: nat| climbs_to(stops, id, stop_id, steps);
        lemma_climb_passes_child(stops, stop_id, id, steps);
    }
    if has_child(stops, stop_id) {
        let c = choose|c: int|
            0 <= c < stops.len() && (#[trigger] stops[c]).stop_id@ != stop_id && parent_of(
                stops,
                stops[c].stop_id@,
            ) == Some(stop_id);
        let id = stops[c].stop_id@;
        assert(climbs_to(stops, id, stop_id, 1));
        lemma_descendant_is_kept(stops, stop_id, id);
        lemma_has_first(part.stops, id);
        lemma_has_first(part.stops, stop_id);
    }
    if distinct_keys(stops) && part.stops.len() > 1 {
        lemma_filter_keeps_distinct(stops, within);
        assert(part.stops[0].stop_id@ != part.stops[1].stop_id@);
    }
}

/// Whether the stop `id` lies in itself: some parent links, at least one,
/// lead from it back to it.
pub open spec fn lies_on_cycle(stops: Seq<Stop>, id: Seq<char>) -> bool {
    exists|steps: nat| steps > 0 && #[trigger] climbs_to(stops, id, id, steps)
}

/// Whether no stop of `stops` lies in itself.
pub open spec fn acyclic(stops: Seq<Stop>) -> bool {
    forall|i: int| 0 <= i < stops.len() ==> !lies_on_cycle(stops, (#[trigger] stops[i]).stop_id@)
}

/// Whether the stop at place `at` is the first of `stops` that lies in
/// itself.
pub open spec fn first_on_cycle(stops: Seq<Stop>, at: int) -> bool {
    &&& 0 <= at < stops.len()
    &&& lies_on_cycle(stops, stops[at].stop_id@)
    &&& forall|j: int| 0 <= j < at ==> !lies_on_cycle(stops, (#[trigger] stops[j]).stop_id@)
}

/// The place of the first stop of `stops` that lies in itself, where there
/// is one.
pub open spec fn cycle_place(stops: Seq<Stop>) -> int {
    choose|at: int| first_on_cycle(stops, at)
}

/// The first stop that lies in itself stands at one place only, and with it
/// the stops are not acyclic.
pub proof fn lemma_first_on_cycle_is_unique(stops: Seq<Stop>, at: int)
    requires
        first_on_cycle(stops, at),
    ensures
        cycle_place(stops) == at,
        !acyclic(stops),
{
    let other = cycle_place(stops);
    if other < at {
        assert(!lies_on_cycle(stops, stops[other].stop_id@));
    }
    if at < other {
        assert(!lies_on_cycle(stops, stops[at].stop_id@));
    }
}

/// A stop that climbs to another is one of the stops.
pub proof fn lemma_climber_is_stop(stops: Seq<Stop>, id: Seq<char>, ancestor: Seq<char>, steps: nat)
    requires
        climbs_to(stops, id, ancestor, steps),
    ensures
        has_key(stops, id),
{
}

/// A climb goes one step further where the stop it arrives at names a
/// parent that is one of the stops.
pub proof fn lemma_climb_one_more(
    stops: Seq<Stop>,
    id: Seq<char>,
    ancestor: Seq<char>,
    parent: Seq<char>,
    steps: nat,
)
    requires
        climbs_to(stops, id, ancestor, steps),
        parent_of(stops, ancestor) == Some(parent),
        has_key(stops, parent),
    ensures
        climbs_to(stops, id, parent, steps + 1),
    decreases steps,
{
    if steps == 0 {
        assert(climbs_to(stops, parent, parent, 0));
    } else {
        let next = parent_of(stops, id)->0;
        lemma_climb_one_more(stops, next, ancestor, parent, (steps - 1) as nat);
    }
}

/// From a stop that lies in itself every climb goes on: the stop that it
/// arrives at names a parent that is one of the stops.
pub proof fn lemma_cycle_goes_on(
    stops: Seq<Stop>,
    id: Seq<char>,
    reached: Seq<char>,
    around: nat,
    steps: nat,
)
    requires
        around > 0,
        climbs_to(stops, id, id, around),
        climbs_to(stops, id, reached, steps),
    ensures
        parent_of(stops, reached) is Some,
        has_key(stops, parent_of(stops, reached)->0),
    decreases steps,
{
    let parent = parent_of(stops, id)->0;
    lemma_climber_is_stop(stops, parent, id, (around - 1) as nat);
    if steps > 0 {
        lemma_climb_one_more(stops, parent, id, parent, (around - 1) as nat);
        lemma_cycle_goes_on(stops, parent, reached, around, (steps - 1) as nat);
    }
}

/// A stop lies in itself exactly where it names a parent that is the stop
/// or lies in it.
pub proof fn lemma_cycle_through_parent(stops: Seq<Stop>, id: Seq<char>)
    ensures
        lies_on_cycle(stops, id) <==> parent_of(stops, id) is Some && descends_from(
            stops,
            parent_of(stops, id)->0,
            id,
        ),
{
    if lies_on_cycle(stops, id) {
        let steps = choose|steps: nat| steps > 0 && #[trigger] climbs_to(stops, id, id, steps);
        assert(climbs_to(stops, parent_of(stops, id)->0, id, (steps - 1) as nat));
    }
    if parent_of(stops, id) is Some && descends_from(stops, parent_of(stops, id)->0, id) {
        let parent = parent_of(stops, id)->0;
        let steps = choose|steps: nat| climbs_to(stops, parent, id, steps);
        assert(climbs_to(stops, id, id, steps + 1));
    }
}

/// A climb among the stops that a test by identifier keeps is a climb among
/// all the stops.
proof fn lemma_climb_among_kept(
    stops: Seq<Stop>,
    wanted: spec_fn(Stop) -> bool,
    id: Seq<char>,
    ancestor: Seq<char>,
    steps: nat,
)
    requires
        forall|x: Stop, y: Stop| x.stop_id@ == y.stop_id@ ==> wanted(x) == wanted(y),
        climbs_to(stops.filter(wanted), id, ancestor, steps),
    ensures
        climbs_to(stops, id, ancestor, steps),
    decreases steps,
{
    let kept = stops.filter(wanted);
    lemma_climber_is_stop(kept, id, ancestor, steps);
    lemma_has_first(kept, id);
    lemma_filter_members(stops, wanted);
    let found = kept[first_place(kept, id)];
    assert(kept.contains(found));
    let at = choose|at: int| 0 <= at < stops.len() && stops[at] == found;
    assert(has_key(stops, id));
    lemma_has_first(stops, id);
    lemma_lookup_in_filter(stops, wanted, id);
    if steps > 0 {
        lemma_climb_among_kept(stops, wanted, parent_of(kept, id)->0, ancestor, (steps - 1) as nat);
    }
}

/// Where no stop of a schedule lies in itself, none of a projection of it
/// does.
pub proof fn projections_stay_acyclic(schedule: ScheduleView, id: Seq<char>)
    requires
        acyclic(schedule.stops),
    ensures
        acyclic(route_projection(schedule, id).stops),
        acyclic(stop_projection(schedule, id).stops),
{
    let by_route = route_projection(schedule, id);
    let by_stop = stop_projection(schedule, id);
    lemma_filter_members(schedule.stops, called_at(by_route.stop_times));
    lemma_filter_members(schedule.stops, inside(schedule.stops, id));
    assert forall|i: int| 0 <= i < by_route.stops.len() implies !lies_on_cycle(
        by_route.stops,
        (#[trigger] by_route.stops[i]).stop_id@,
    ) by {
        let stop = by_route.stops[i];
        assert(by_route.stops.contains(stop));
        let at = choose|at: int| 0 <= at < schedule.stops.len() && schedule.stops[at] == stop;
        if lies_on_cycle(by_route.stops, stop.stop_id@) {
            let steps = choose|steps: nat|
                steps > 0 && #[trigger] climbs_to(by_route.stops, stop.stop_id@, stop.stop_id@, steps);
            lemma_climb_among_kept(
                schedule.stops,
                called_at(by_route.stop_times),
                stop.stop_id@,
                stop.stop_id@,
                steps,
            );
            assert(lies_on_cycle(schedule.stops, schedule.stops[at].stop_id@));
        }
    }
    assert forall|i: int| 0 <= i < by_stop.stops.len() implies !lies_on_cycle(
        by_stop.stops,
        (#[trigger] by_stop.stops[i]).stop_id@,
    ) by {
        let stop = by_stop.stops[i];
        assert(by_stop.stops.contains(stop));
        let at = choose|at: int| 0 <= at < schedule.stops.len() && schedule.stops[at] == stop;
        if lies_on_cycle(by_stop.stops, stop.stop_id@) {
            let steps = choose|steps: nat|
                steps > 0 && #[trigger] climbs_to(by_stop.stops, stop.stop_id@, stop.stop_id@, steps);
            lemma_climb_among_kept(
                schedule.stops,
                inside(schedule.stops, id),
                stop.stop_id@,
                stop.stop_id@,
                steps,
            );
            assert(lies_on_cycle(schedule.stops, schedule.stops[at].stop_id@));
        }
    }
}

} // verus!
