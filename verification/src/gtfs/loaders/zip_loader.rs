//! The steps of loading a schedule from an archive of tables. Whoever holds
//! the archive opens the file that the loading wants next, reads its header
//! and rows, and feeds them in; the loading says what comes of it.

use vstd::prelude::*;
use crate::gtfs::fields::Cell;
use crate::gtfs::keyed::placed_all;
use crate::gtfs::routes::{Route, Routes, RoutesCsvLoadError};
use crate::gtfs::stop_times::{StopTime, StopTimes, StopTimesCsvLoadError};
use crate::gtfs::stops::{stops_come_to, Stops, StopsCsvLoadError};
use crate::gtfs::table::rows_load;
use crate::gtfs::trips::{Trip, Trips, TripsCsvLoadError};
use crate::gtfs::GtfsSchedule;
use crate::text::{join2, join3};

verus! {

/// The header and the rows of one table as they were read: no header where
/// it could not be read, and for each row its cells or why it could not be
/// read.
#[derive(Debug)]
pub struct TableRows {
    pub header: Option<Vec<String>>,
    pub rows: Vec<Result<Vec<Cell>, String>>,
}

/// Why a schedule could not be loaded: a table could not be opened, with
/// the name of its file and the reason, or it could not be read.
#[derive(Debug)]
pub enum ZipLoaderError {
    FailedToOpenStops(String, String),
    FailedToOpenRoutes(String, String),
    FailedToOpenTrips(String, String),
    FailedToOpenStopTimes(String, String),
    FailedToLoadStops(StopsCsvLoadError),
    FailedToLoadRoutes(RoutesCsvLoadError),
    FailedToLoadTrips(TripsCsvLoadError),
    FailedToLoadStopTimes(StopTimesCsvLoadError),
}

impl ZipLoaderError {
    /// The message of the error.
    pub open spec fn text(&self) -> Seq<char> {
        match self {
            ZipLoaderError::FailedToOpenStops(file, e) => "Failed to open "@ + file@ + ": "@ + e@,
            ZipLoaderError::FailedToOpenRoutes(file, e) => "Failed to open "@ + file@ + ": "@ + e@,
            ZipLoaderError::FailedToOpenTrips(file, e) => "Failed to open "@ + file@ + ": "@ + e@,
            ZipLoaderError::FailedToOpenStopTimes(file, e) => "Failed to open "@ + file@ + ": "@
                + e@,
            ZipLoaderError::FailedToLoadStops(e) => "Failed to load stops: "@ + e.text(),
            ZipLoaderError::FailedToLoadRoutes(e) => "Failed to load routes: "@ + e.text(),
            ZipLoaderError::FailedToLoadTrips(e) => "Failed to load trips: "@ + e.text(),
            ZipLoaderError::FailedToLoadStopTimes(e) => "Failed to load stop times: "@ + e.text(),
        }
    }

    /// The message of the error.
    pub fn to_string(&self) -> (message: String)
        ensures
            message@ == self.text(),
    {
        match self {
            ZipLoaderError::FailedToOpenStops(file, e) => {
                let mut message = join3("Failed to open ", file.as_str(), ": ");
                message.append(e.as_str());
                message
            },
            ZipLoaderError::FailedToOpenRoutes(file, e) => {
                let mut message = join3("Failed to open ", file.as_str(), ": ");
                message.append(e.as_str());
                message
            },
            ZipLoaderError::FailedToOpenTrips(file, e) => {
                let mut message = join3("Failed to open ", file.as_str(), ": ");
                message.append(e.as_str());
                message
            },
            ZipLoaderError::FailedToOpenStopTimes(file, e) => {
                let mut message = join3("Failed to open ", file.as_str(), ": ");
                message.append(e.as_str());
                message
            },
            ZipLoaderError::FailedToLoadStops(e) => join2(
                "Failed to load stops: ",
                e.to_string().as_str(),
            ),
            ZipLoaderError::FailedToLoadRoutes(e) => join2(
                "Failed to load routes: ",
                e.to_string().as_str(),
            ),
            ZipLoaderError::FailedToLoadTrips(e) => join2(
                "Failed to load trips: ",
                e.to_string().as_str(),
            ),
            ZipLoaderError::FailedToLoadStopTimes(e) => join2(
                "Failed to load stop times: ",
                e.to_string().as_str(),
            ),
        }
    }
}

/// How far the loading of a schedule has come: the tables that were read,
/// in the order stops, routes, trips, stop times.
#[derive(Debug)]
pub enum Loading {
    /// Nothing was read yet.
    Started,
    /// The stops were read.
    WithStops(Stops),
    /// The stops and the routes were read.
    WithRoutes(Stops, Routes),
    /// The stops, the routes and the trips were read.
    WithTrips(Stops, Routes, Trips),
    /// All four tables were read.
    Loaded(GtfsSchedule),
}

/// Whether `routes` is what the table comes to.
pub open spec fn routes_read(table: TableRows, routes: Routes) -> bool {
    routes.keyed() && exists|loaded: Vec<Route>| #[trigger]
        rows_load::<Route>(table.header, table.rows@, Ok(loaded)) && routes@ == placed_all(loaded@)
}

/// Whether `trips` is what the table comes to.
pub open spec fn trips_read(table: TableRows, trips: Trips) -> bool {
    trips.keyed() && exists|loaded: Vec<Trip>| #[trigger]
        rows_load::<Trip>(table.header, table.rows@, Ok(loaded)) && trips@ == placed_all(loaded@)
}

/// Whether feeding `opened` to the loading `before` comes to `outcome`. A
/// table that could not be opened fails the loading under the name of its
/// file; one that could not be read fails it with the reason; one that was
/// read takes the loading one table further and leaves what was read as it
/// is. Stops of which one lies in itself count as not read. A loading that
/// has all four tables stays as it is.
pub open spec fn feeds(
    before: Loading,
    opened: Result<TableRows, String>,
    outcome: Result<Loading, ZipLoaderError>,
) -> bool {
    match (before, opened) {
        (Loading::Started, Err(reason)) => outcome matches Err(
            ZipLoaderError::FailedToOpenStops(file, why),
        ) && file@ == "stops.txt"@ && why@ == reason@,
        (Loading::Started, Ok(table)) => match outcome {
            Ok(Loading::WithStops(stops)) => stops_come_to(table.header, table.rows@, Ok(stops)),
            Err(ZipLoaderError::FailedToLoadStops(e)) => stops_come_to(
                table.header,
                table.rows@,
                Err(e),
            ),
            _ => false,
        },
        (Loading::WithStops(_), Err(reason)) => outcome matches Err(
            ZipLoaderError::FailedToOpenRoutes(file, why),
        ) && file@ == "routes.txt"@ && why@ == reason@,
        (Loading::WithStops(stops), Ok(table)) => match outcome {
            Ok(Loading::WithRoutes(same, routes)) => same@ == stops@ && routes_read(table, routes),
            Err(ZipLoaderError::FailedToLoadRoutes(e)) => rows_load::<Route>(
                table.header,
                table.rows@,
                Err(e.fault()),
            ),
            _ => false,
        },
        (Loading::WithRoutes(_, _), Err(reason)) => outcome matches Err(
            ZipLoaderError::FailedToOpenTrips(file, why),
        ) && file@ == "trips.txt"@ && why@ == reason@,
        (Loading::WithRoutes(stops, routes), Ok(table)) => match outcome {
            Ok(Loading::WithTrips(same_stops, same_routes, trips)) => same_stops@ == stops@
                && same_routes@ == routes@ && trips_read(table, trips),
            Err(ZipLoaderError::FailedToLoadTrips(e)) => rows_load::<Trip>(
                table.header,
                table.rows@,
                Err(e.fault()),
            ),
            _ => false,
        },
        (Loading::WithTrips(_, _, _), Err(reason)) => outcome matches Err(
            ZipLoaderError::FailedToOpenStopTimes(file, why),
        ) && file@ == "stop_times.txt"@ && why@ == reason@,
        (Loading::WithTrips(stops, routes, trips), Ok(table)) => match outcome {
            Ok(Loading::Loaded(schedule)) => schedule.stops@ == stops@ && schedule.routes@
                == routes@ && schedule.trips@ == trips@ && rows_load::<StopTime>(
                table.header,
                table.rows@,
                Ok(schedule.stop_times.stop_times),
            ),
            Err(ZipLoaderError::FailedToLoadStopTimes(e)) => rows_load::<StopTime>(
                table.header,
                table.rows@,
                Err(e.fault()),
            ),
            _ => false,
        },
        (Loading::Loaded(schedule), _) => outcome matches Ok(Loading::Loaded(same)) && same@
            == schedule@,
    }
}

impl Loading {
    /// The name of the file that holds the table to feed next, where one is
    /// still wanted.
    pub open spec fn wanted(&self) -> Option<Seq<char>> {
        match self {
            Loading::Started => Some("stops.txt"@),
            Loading::WithStops(_) => Some("routes.txt"@),
            Loading::WithRoutes(_, _) => Some("trips.txt"@),
            Loading::WithTrips(_, _, _) => Some("stop_times.txt"@),
            Loading::Loaded(_) => None,
        }
    }

    /// A loading that has read nothing yet.
    pub fn new() -> (loading: Loading)
        ensures
            loading is Started,
    {
        Loading::Started
    }

    /// The name of the file that holds the table to feed next, where one is
    /// still wanted.
    pub fn wants(&self) -> (file: Option<&'static str>)
        ensures
            match file {
                Some(name) => self.wanted() == Some(name@),
                None => self.wanted() is None,
            },
    {
        match self {
            Loading::Started => Some("stops.txt"),
            Loading::WithStops(_) => Some("routes.txt"),
            Loading::WithRoutes(_, _) => Some("trips.txt"),
            Loading::WithTrips(_, _, _) => Some("stop_times.txt"),
            Loading::Loaded(_) => None,
        }
    }

    /// Takes the table that was wanted, as it was opened and read, or the
    /// reason why it could not be opened, and says how far the loading has
    /// come with it.
    pub fn feed(self, opened: Result<TableRows, String>) -> (outcome: Result<Loading, ZipLoaderError>)
        ensures
            feeds(self, opened, outcome),
    {
        match self {
            Loading::Started => match opened {
                Err(reason) => Err(
                    ZipLoaderError::FailedToOpenStops(String::from_str("stops.txt"), reason),
                ),
                Ok(table) => match Stops::try_from(&table.header, &table.rows) {
                    Ok(stops) => Ok(Loading::WithStops(stops)),
                    Err(e) => Err(ZipLoaderError::FailedToLoadStops(e)),
                },
            },
            Loading::WithStops(stops) => match opened {
                Err(reason) => Err(
                    ZipLoaderError::FailedToOpenRoutes(String::from_str("routes.txt"), reason),
                ),
                Ok(table) => match Routes::try_from(&table.header, &table.rows) {
                    Ok(routes) => Ok(Loading::WithRoutes(stops, routes)),
                    Err(e) => Err(ZipLoaderError::FailedToLoadRoutes(e)),
                },
            },
            Loading::WithRoutes(stops, routes) => match opened {
                Err(reason) => Err(
                    ZipLoaderError::FailedToOpenTrips(String::from_str("trips.txt"), reason),
                ),
                Ok(table) => match Trips::try_from(&table.header, &table.rows) {
                    Ok(trips) => Ok(Loading::WithTrips(stops, routes, trips)),
                    Err(e) => Err(ZipLoaderError::FailedToLoadTrips(e)),
                },
            },
            Loading::WithTrips(stops, routes, trips) => match opened {
                Err(reason) => Err(
                    ZipLoaderError::FailedToOpenStopTimes(
                        String::from_str("stop_times.txt"),
                        reason,
                    ),
                ),
                Ok(table) => match StopTimes::try_from(&table.header, &table.rows) {
                    Ok(stop_times) => Ok(
                        Loading::Loaded(GtfsSchedule { stops, routes, trips, stop_times }),
                    ),
                    Err(e) => Err(ZipLoaderError::FailedToLoadStopTimes(e)),
                },
            },
            Loading::Loaded(schedule) => Ok(Loading::Loaded(schedule)),
        }
    }

    /// The schedule, once all four tables were read.
    pub fn finish(self) -> (schedule: Option<GtfsSchedule>)
        ensures
            match schedule {
                Some(loaded) => self matches Loading::Loaded(same) && same@ == loaded@,
                None => !(self is Loaded),
            },
    {
        match self {
            Loading::Loaded(schedule) => Some(schedule),
            _ => None,
        }
    }
}

} // verus!
