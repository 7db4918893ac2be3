//! Trips: one scheduled run of a vehicle along a route.

use vstd::prelude::*;
use crate::gtfs::keyed::{
    distinct_keys, lemma_first_is_lookup, lookup, placed, position, put, Identified, Record,
};
use crate::gtfs::fields::{optional_text, read_tri_state, text_of, tri_state, Cell, Fields};
use crate::gtfs::keyed::{place_all, placed_all};
use crate::gtfs::table::{load_rows, rows_load, FromFields, TableFault};
use crate::gtfs::util::parse_optional_field;
use crate::text::{copy_optional_text, join2, join3, same_text};

verus! {

/// One of the two opposing directions of travel along a route.
#[derive(Debug, PartialEq, Eq)]
pub enum Direction {
    A,
    B,
}

/// The direction that `text` stands for, where it stands for one.
pub open spec fn direction_of(text: Seq<char>) -> Option<Direction> {
    if text == "0"@ {
        Some(Direction::A)
    } else if text == "1"@ {
        Some(Direction::B)
    } else {
        None
    }
}

impl Direction {
    /// The direction that `s` stands for: `0` for the one, `1` for the
    /// other.
    pub fn from_str(s: &str) -> (direction: Result<Direction, String>)
        ensures
            match direction {
                Ok(d) => direction_of(s@) == Some(d),
                Err(message) => direction_of(s@) is None && message@ == "invalid direction '"@ + s@
                    + "'"@,
            },
    {
        if same_text(s, "0") {
            Ok(Direction::A)
        } else if same_text(s, "1") {
            Ok(Direction::B)
        } else {
            Err(join3("invalid direction '", s, "'"))
        }
    }
}

impl Clone for Direction {
    fn clone(&self) -> (copy: Self)
        ensures
            copy == *self,
    {
        match self {
            Direction::A => Direction::A,
            Direction::B => Direction::B,
        }
    }
}

/// A trip of the feed.
#[derive(Debug, PartialEq)]
pub struct Trip {
    pub trip_id: String,
    pub route_id: String,
    pub service_id: String,
    pub trip_headsign: Option<String>,
    pub trip_short_name: Option<String>,
    pub direction_id: Option<Direction>,
    pub block_id: Option<String>,
    pub shape_id: Option<String>,
    pub wheelchair_accessible: Option<bool>,
    pub bikes_allowed: Option<bool>,
}

impl Clone for Trip {
    fn clone(&self) -> (copy: Self)
        ensures
            copy == *self,
    {
        Trip {
            trip_id: self.trip_id.clone(),
            route_id: self.route_id.clone(),
            service_id: self.service_id.clone(),
            trip_headsign: copy_optional_text(&self.trip_headsign),
            trip_short_name: copy_optional_text(&self.trip_short_name),
            direction_id: match &self.direction_id {
                Some(d) => Some(d.clone()),
                None => None,
            },
            block_id: copy_optional_text(&self.block_id),
            shape_id: copy_optional_text(&self.shape_id),
            wheelchair_accessible: self.wheelchair_accessible,
            bikes_allowed: self.bikes_allowed,
        }
    }
}

impl Record for Trip {
    fn replica(&self) -> (copy: Self)
        ensures
            copy == *self,
    {
        self.clone()
    }
}

impl Identified for Trip {
    open spec fn key(&self) -> Seq<char> {
        self.trip_id@
    }

    fn key_text(&self) -> (text: &str)
        ensures
            text@ == self.key(),
    {
        self.trip_id.as_str()
    }
}

/// The trips of a schedule, keyed by trip identifier: the trips stand in the
/// order in which their identifiers were first inserted. A collection that
/// `insert` built holds no identifier twice (`keyed`).
#[derive(Debug)]
pub struct Trips {
    pub trips: Vec<Trip>,
}

impl View for Trips {
    type V = Seq<Trip>;

    open spec fn view(&self) -> Seq<Trip> {
        self.trips@
    }
}

impl Trips {
    /// Whether no identifier occurs twice.
    pub open spec fn keyed(&self) -> bool {
        distinct_keys(self@)
    }

    /// The empty collection.
    pub fn new() -> (trips: Trips)
        ensures
            trips@ == Seq::<Trip>::empty(),
            trips.keyed(),
    {
        Trips { trips: Vec::new() }
    }

    /// The number of trips.
    pub fn len(&self) -> (n: usize)
        ensures
            n == self@.len(),
    {
        self.trips.len()
    }

    /// The first trip with identifier `id`, if there is one.
    pub fn get(&self, id: &str) -> (found: Option<&Trip>)
        ensures
            match found {
                Some(trip) => lookup(self@, id@) == Some(*trip),
                None => lookup(self@, id@) is None,
            },
    {
        match position(&self.trips, id) {
            Some(i) => {
                proof {
                    lemma_first_is_lookup(self@, id@, i as int);
                }
                Some(&self.trips[i])
            },
            None => None,
        }
    }

    /// Puts `trip` into the collection: in the place of the first trip with the
    /// same identifier, which is handed back, or at the end where there is
    /// none.
    pub fn insert(&mut self, trip: Trip) -> (replaced: Option<Trip>)
        ensures
            final(self)@ == placed(old(self)@, trip),
            replaced == lookup(old(self)@, trip.key()),
            old(self).keyed() ==> final(self).keyed(),
    {
        put(&mut self.trips, trip)
    }
}

/// Why a trip could not be read from its fields.
#[derive(Debug, PartialEq, Eq)]
pub enum TripLoadError {
    TripIdRequired,
    RouteIdRequired,
    ServiceIdRequired,
    TripHeadsignError(String),
    TripShortNameError(String),
    DirectionIdError(String),
    BlockIdError(String),
    ShapeIdRequired,
    WheelchairAccessibleError(String),
    BikesAllowedError(String),
}

impl TripLoadError {
    /// The message of the error.
    pub open spec fn text(&self) -> Seq<char> {
        match self {
            TripLoadError::TripIdRequired => "trip_id is required"@,
            TripLoadError::RouteIdRequired => "route_id is required"@,
            TripLoadError::ServiceIdRequired => "service_id is required"@,
            TripLoadError::TripHeadsignError(e) => "Error parsing trip headsign: "@ + e@,
            TripLoadError::TripShortNameError(e) => "Error parsing trip short name: "@ + e@,
            TripLoadError::DirectionIdError(e) => "Error parsing direction id: "@ + e@,
            TripLoadError::BlockIdError(e) => "Error parsing block id: "@ + e@,
            TripLoadError::ShapeIdRequired => "shape_id is required"@,
            TripLoadError::WheelchairAccessibleError(e) => "Error parsing wheelchair accessible: "@
                + e@,
            TripLoadError::BikesAllowedError(e) => "Error parsing bikes allowed: "@ + e@,
        }
    }

    /// The message of the error.
    pub fn to_string(&self) -> (message: String)
        ensures
            message@ == self.text(),
    {
        match self {
            TripLoadError::TripIdRequired => String::from_str("trip_id is required"),
            TripLoadError::RouteIdRequired => String::from_str("route_id is required"),
            TripLoadError::ServiceIdRequired => String::from_str("service_id is required"),
            TripLoadError::TripHeadsignError(e) => join2("Error parsing trip headsign: ", e.as_str()),
            TripLoadError::TripShortNameError(e) => join2(
                "Error parsing trip short name: ",
                e.as_str(),
            ),
            TripLoadError::DirectionIdError(e) => join2("Error parsing direction id: ", e.as_str()),
            TripLoadError::BlockIdError(e) => join2("Error parsing block id: ", e.as_str()),
            TripLoadError::ShapeIdRequired => String::from_str("shape_id is required"),
            TripLoadError::WheelchairAccessibleError(e) => join2(
                "Error parsing wheelchair accessible: ",
                e.as_str(),
            ),
            TripLoadError::BikesAllowedError(e) => join2("Error parsing bikes allowed: ", e.as_str()),
        }
    }
}

/// The direction that the optional `text` stands for, where it is given
/// and stands for one.
pub open spec fn optional_direction(text: Option<Seq<char>>) -> Option<Direction> {
    match text {
        Some(t) => direction_of(t),
        None => None,
    }
}

/// Whether `text` is given and stands for no direction.
pub open spec fn direction_refused(text: Option<Seq<char>>) -> bool {
    match text {
        Some(t) => direction_of(t) is None,
        None => false,
    }
}

/// Whether `trip` holds what the fields say of a trip.
pub open spec fn trip_holds(fields: Map<Seq<char>, Cell>, trip: Trip) -> bool {
    &&& Some(trip.trip_id@) == text_of(fields, "trip_id"@)
    &&& Some(trip.route_id@) == text_of(fields, "route_id"@)
    &&& Some(trip.service_id@) == text_of(fields, "service_id"@)
    &&& optional_text(trip.trip_headsign) == text_of(fields, "trip_headsign"@)
    &&& optional_text(trip.trip_short_name) == text_of(fields, "trip_short_name"@)
    &&& trip.direction_id == optional_direction(text_of(fields, "direction_id"@))
    &&& optional_text(trip.block_id) == text_of(fields, "block_id"@)
    &&& optional_text(trip.shape_id) == text_of(fields, "shape_id"@)
    &&& Some(trip.wheelchair_accessible) == tri_state(text_of(fields, "wheelchair_accessible"@))
    &&& Some(trip.bikes_allowed) == tri_state(text_of(fields, "bikes_allowed"@))
}

/// Whether the fields make a trip: the three identifiers are given, and
/// what is given of direction, wheelchairs and bikes stands for something.
pub open spec fn trip_accepted(fields: Map<Seq<char>, Cell>) -> bool {
    &&& text_of(fields, "trip_id"@) is Some
    &&& text_of(fields, "route_id"@) is Some
    &&& text_of(fields, "service_id"@) is Some
    &&& !direction_refused(text_of(fields, "direction_id"@))
    &&& tri_state(text_of(fields, "wheelchair_accessible"@)) is Some
    &&& tri_state(text_of(fields, "bikes_allowed"@)) is Some
}

/// Whether `outcome` is what the fields come to as a trip: the trip that
/// they make, or the first thing that is wrong with them, in the order
/// identifier, route, service, direction, wheelchairs, bikes.
pub open spec fn trip_loads(fields: Map<Seq<char>, Cell>, outcome: Result<Trip, TripLoadError>) -> bool {
    if text_of(fields, "trip_id"@) is None {
        outcome == Err::<Trip, TripLoadError>(TripLoadError::TripIdRequired)
    } else if text_of(fields, "route_id"@) is None {
        outcome == Err::<Trip, TripLoadError>(TripLoadError::RouteIdRequired)
    } else if text_of(fields, "service_id"@) is None {
        outcome == Err::<Trip, TripLoadError>(TripLoadError::ServiceIdRequired)
    } else if direction_refused(text_of(fields, "direction_id"@)) {
        outcome matches Err(TripLoadError::DirectionIdError(message)) && message@
            == "invalid direction '"@ + text_of(fields, "direction_id"@)->0 + "'"@
    } else if tri_state(text_of(fields, "wheelchair_accessible"@)) is None {
        outcome matches Err(TripLoadError::WheelchairAccessibleError(given)) && Some(given@)
            == text_of(fields, "wheelchair_accessible"@)
    } else if tri_state(text_of(fields, "bikes_allowed"@)) is None {
        outcome matches Err(TripLoadError::BikesAllowedError(given)) && Some(given@) == text_of(
            fields,
            "bikes_allowed"@,
        )
    } else {
        outcome matches Ok(trip) && trip_holds(fields, trip)
    }
}

impl Trip {
    /// Reads a trip from the fields of a row.
    pub fn try_from(fields: &Fields) -> (outcome: Result<Trip, TripLoadError>)
        ensures
            trip_loads(fields@, outcome),
            outcome is Ok <==> trip_accepted(fields@),
    {
        let trip_id = match fields.owned_text("trip_id") {
            Some(id) => id,
            None => {
                return Err(TripLoadError::TripIdRequired);
            },
        };
        let route_id = match fields.owned_text("route_id") {
            Some(id) => id,
            None => {
                return Err(TripLoadError::RouteIdRequired);
            },
        };
        let service_id = match fields.owned_text("service_id") {
            Some(id) => id,
            None => {
                return Err(TripLoadError::ServiceIdRequired);
            },
        };
        let direction_id = match parse_optional_field(
            fields.text("direction_id"),
            Direction::from_str,
        ) {
            Ok(direction) => direction,
            Err(message) => {
                return Err(TripLoadError::DirectionIdError(message));
            },
        };
        let wheelchair_accessible = match read_tri_state(fields.text("wheelchair_accessible")) {
            Some(state) => state,
            None => {
                return Err(
                    TripLoadError::WheelchairAccessibleError(
                        fields.owned_text("wheelchair_accessible").unwrap(),
                    ),
                );
            },
        };
        let bikes_allowed = match read_tri_state(fields.text("bikes_allowed")) {
            Some(state) => state,
            None => {
                return Err(
                    TripLoadError::BikesAllowedError(fields.owned_text("bikes_allowed").unwrap()),
                );
            },
        };
        Ok(
            Trip {
                trip_id,
                route_id,
                service_id,
                trip_headsign: fields.owned_text("trip_headsign"),
                trip_short_name: fields.owned_text("trip_short_name"),
                direction_id,
                block_id: fields.owned_text("block_id"),
                shape_id: fields.owned_text("shape_id"),
                wheelchair_accessible,
                bikes_allowed,
            },
        )
    }
}

impl FromFields for Trip {
    type Fault = TripLoadError;

    open spec fn accepts(fields: Map<Seq<char>, Cell>) -> bool {
        trip_accepted(fields)
    }

    open spec fn loads(fields: Map<Seq<char>, Cell>, outcome: Result<Trip, TripLoadError>) -> bool {
        trip_loads(fields, outcome)
    }

    open spec fn reads(fields: Map<Seq<char>, Cell>) -> bool {
        true
    }

    fn from_fields(fields: &Fields) -> (outcome: Result<Trip, TripLoadError>)
        ensures
            Self::loads(fields@, outcome),
            outcome is Ok <==> Self::accepts(fields@),
            Self::reads(fields@),
    {
        Trip::try_from(fields)
    }
}

/// Why the table of trips could not be read.
#[derive(Debug)]
pub enum TripsCsvLoadError {
    NoHeader,
    TripLoadError(TripLoadError),
    CSVReadError(String),
}

impl TripsCsvLoadError {
    /// The message of the error.
    pub open spec fn text(&self) -> Seq<char> {
        match self {
            TripsCsvLoadError::NoHeader => "No header found"@,
            TripsCsvLoadError::TripLoadError(e) => "Error loading trip: "@ + e.text(),
            TripsCsvLoadError::CSVReadError(e) => "Error reading CSV: "@ + e@,
        }
    }

    /// The message of the error.
    pub fn to_string(&self) -> (message: String)
        ensures
            message@ == self.text(),
    {
        match self {
            TripsCsvLoadError::NoHeader => String::from_str("No header found"),
            TripsCsvLoadError::TripLoadError(e) => join2(
                "Error loading trip: ",
                e.to_string().as_str(),
            ),
            TripsCsvLoadError::CSVReadError(e) => join2("Error reading CSV: ", e.as_str()),
        }
    }

    /// The error as a fault of the table.
    pub open spec fn fault(self) -> TableFault<TripLoadError> {
        match self {
            TripsCsvLoadError::NoHeader => TableFault::NoHeader,
            TripsCsvLoadError::TripLoadError(e) => TableFault::Record(e),
            TripsCsvLoadError::CSVReadError(e) => TableFault::Read(e),
        }
    }
}

impl Trips {
    /// Reads the trips of a table from its header and rows: the trip of each
    /// row is put into the collection in the order of the rows, so that of
    /// trips with one identifier the last counts. The first row that could
    /// not be read or is refused ends the reading.
    pub fn try_from(header: &Option<Vec<String>>, rows: &Vec<Result<Vec<Cell>, String>>) -> (outcome:
        Result<Trips, TripsCsvLoadError>)
        ensures
            match outcome {
                Ok(trips) => trips.keyed() && exists|loaded: Vec<Trip>| #[trigger]
                    rows_load::<Trip>(*header, rows@, Ok(loaded)) && trips@ == placed_all(loaded@),
                Err(e) => rows_load::<Trip>(*header, rows@, Err(e.fault())),
            },
    {
        match load_rows::<Trip>(header, rows) {
            Ok(loaded) => {
                let trips = place_all(&loaded);
                Ok(Trips { trips })
            },
            Err(TableFault::NoHeader) => Err(TripsCsvLoadError::NoHeader),
            Err(TableFault::Record(e)) => Err(TripsCsvLoadError::TripLoadError(e)),
            Err(TableFault::Read(e)) => Err(TripsCsvLoadError::CSVReadError(e)),
        }
    }
}

} // verus!
