//! The records of a transit feed and the collections that hold them.

pub mod fields;
pub(crate) mod index;
pub mod keyed;
pub mod loaders;
pub mod routes;
pub mod stop_times;
pub mod stops;
pub mod table;
pub mod trips;
pub mod util;

use vstd::prelude::*;
use crate::gtfs::keyed::{copy_all, distinct_keys};
use crate::gtfs::routes::{Route, Routes};
use crate::gtfs::stop_times::{StopTime, StopTimes};
use crate::gtfs::stops::{Stop, Stops};
use crate::gtfs::trips::{Trip, Trips};

verus! {

/// What a schedule holds: its four tables, each in order.
pub struct ScheduleView {
    pub stops: Seq<Stop>,
    pub routes: Seq<Route>,
    pub trips: Seq<Trip>,
    pub stop_times: Seq<StopTime>,
}

impl ScheduleView {
    /// Whether no table holds an identifier twice.
    pub open spec fn keyed(self) -> bool {
        &&& distinct_keys(self.stops)
        &&& distinct_keys(self.routes)
        &&& distinct_keys(self.trips)
    }
}

/// A schedule: a whole feed, or the part of one that a selection reaches.
#[derive(Debug)]
pub struct GtfsSchedule {
    pub stops: Stops,
    pub routes: Routes,
    pub trips: Trips,
    pub stop_times: StopTimes,
}

impl View for GtfsSchedule {
    type V = ScheduleView;

    open spec fn view(&self) -> ScheduleView {
        ScheduleView {
            stops: self.stops@,
            routes: self.routes@,
            trips: self.trips@,
            stop_times: self.stop_times@,
        }
    }
}

impl Clone for GtfsSchedule {
    fn clone(&self) -> (copy: Self)
        ensures
            copy@ == self@,
    {
        GtfsSchedule {
            stops: Stops { stops: copy_all(&self.stops.stops) },
            routes: Routes { routes: copy_all(&self.routes.routes) },
            trips: Trips { trips: copy_all(&self.trips.trips) },
            stop_times: StopTimes { stop_times: copy_all(&self.stop_times.stop_times) },
        }
    }
}

} // verus!
