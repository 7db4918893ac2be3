//! Stops: the places of a feed, from stations down to boarding areas.

use vstd::prelude::*;
use crate::gtfs::keyed::{
    distinct_keys, lemma_first_is_lookup, lookup, placed, position, put, Identified, Record,
};
use crate::gtfs::fields::{
    decimal_if_given, optional_text, read_tri_state, required_decimal, required_text, text_of,
    tri_state, Cell, Fields,
};
use crate::gtfs::keyed::{place_all, placed_all};
use crate::gtfs::table::{load_rows, rows_load, FromFields, TableFault};
use crate::gtfs::util::{
    describe_int_error, int_error_text, parse_u8, reads_u8, u8_parsed, Decimal,
};
use crate::commands::stops::stop_on_cycle;
use crate::projection::{acyclic, cycle_place, lemma_first_on_cycle_is_unique};
use crate::text::{copy_optional_text, join2, join3};

verus! {

/// A time zone of `chrono_tz`, carried through as it was looked up.
#[verifier::external_type_specification]
#[verifier::external_body]
pub struct ExTz(chrono_tz::Tz);

/// What `Tz::from_str` returns for `name`, where it returns a time zone.
pub uninterp spec fn timezone_named(name: Seq<char>) -> Option<chrono_tz::Tz>;

/// `Tz::from_str`: `chrono_tz` looks `name` up in its table of time zones.
/// Which names it knows is not stated here, only that the same name gives
/// the same answer; where it knows none, the error that it gives displays as
/// the message stated.
#[verifier::external_body]
pub(crate) fn timezone_from_name(name: &str) -> (found: Result<chrono_tz::Tz, String>)
    ensures
        match found {
            Ok(zone) => timezone_named(name@) == Some(zone),
            Err(why) => timezone_named(name@) is None && why@ == "failed to parse timezone"@,
        },
{
    name.parse::<chrono_tz::Tz>().map_err(|e| e.to_string())
}

/// What is said of a stop or platform: it need not belong to a station.
#[derive(Debug, PartialEq)]
pub struct StopDetails {
    pub stop_name: String,
    pub stop_lat: Decimal,
    pub stop_lon: Decimal,
    pub parent_station: Option<String>,
}

/// What is said of a station. A station has no parent.
#[derive(Debug, PartialEq)]
pub struct StationDetails {
    pub stop_name: String,
    pub stop_lat: Decimal,
    pub stop_lon: Decimal,
}

/// What is said of an entrance or exit of a station.
#[derive(Debug, PartialEq)]
pub struct EntranceExitDetails {
    pub stop_name: String,
    pub stop_lat: Decimal,
    pub stop_lon: Decimal,
    pub parent_station: String,
}

/// What is said of a generic node inside a station.
#[derive(Debug, PartialEq)]
pub struct GenericNodeDetails {
    pub stop_name: Option<String>,
    pub stop_lat: Option<Decimal>,
    pub stop_lon: Option<Decimal>,
    pub parent_station: String,
}

/// What is said of a boarding area on a platform.
#[derive(Debug, PartialEq)]
pub struct BoardingAreaDetails {
    pub stop_name: Option<String>,
    pub stop_lat: Option<Decimal>,
    pub stop_lon: Option<Decimal>,
    pub parent_station: String,
}

/// The type of a location together with what that type requires.
#[derive(Debug, PartialEq)]
pub enum LocationTypeDetails {
    Stop(StopDetails),
    Station(StationDetails),
    EntranceExit(EntranceExitDetails),
    GenericNode(GenericNodeDetails),
    BoardingArea(BoardingAreaDetails),
}

impl Clone for LocationTypeDetails {
    fn clone(&self) -> (copy: Self)
        ensures
            copy == *self,
    {
        match self {
            LocationTypeDetails::Stop(d) => LocationTypeDetails::Stop(
                StopDetails {
                    stop_name: d.stop_name.clone(),
                    stop_lat: d.stop_lat,
                    stop_lon: d.stop_lon,
                    parent_station: copy_optional_text(&d.parent_station),
                },
            ),
            LocationTypeDetails::Station(d) => LocationTypeDetails::Station(
                StationDetails {
                    stop_name: d.stop_name.clone(),
                    stop_lat: d.stop_lat,
                    stop_lon: d.stop_lon,
                },
            ),
            LocationTypeDetails::EntranceExit(d) => LocationTypeDetails::EntranceExit(
                EntranceExitDetails {
                    stop_name: d.stop_name.clone(),
                    stop_lat: d.stop_lat,
                    stop_lon: d.stop_lon,
                    parent_station: d.parent_station.clone(),
                },
            ),
            LocationTypeDetails::GenericNode(d) => LocationTypeDetails::GenericNode(
                GenericNodeDetails {
                    stop_name: copy_optional_text(&d.stop_name),
                    stop_lat: d.stop_lat,
                    stop_lon: d.stop_lon,
                    parent_station: d.parent_station.clone(),
                },
            ),
            LocationTypeDetails::BoardingArea(d) => LocationTypeDetails::BoardingArea(
                BoardingAreaDetails {
                    stop_name: copy_optional_text(&d.stop_name),
                    stop_lat: d.stop_lat,
                    stop_lon: d.stop_lon,
                    parent_station: d.parent_station.clone(),
                },
            ),
        }
    }
}

/// A location of the feed.
#[derive(Debug, PartialEq)]
pub struct Stop {
    pub stop_id: String,
    pub stop_code: Option<String>,
    pub tts_stop_name: Option<String>,
    pub stop_desc: Option<String>,
    pub zone_id: Option<String>,
    pub stop_url: Option<String>,
    pub stop_timezone: Option<chrono_tz::Tz>,
    pub wheelchair_boarding: Option<bool>,
    pub level_id: Option<String>,
    pub platform_code: Option<String>,
    /// The type of location, with what that type requires.
    pub location_type_details: LocationTypeDetails,
}

impl Stop {
    /// The name, where the location has one.
    pub open spec fn spec_stop_name(&self) -> Option<String> {
        match self.location_type_details {
            LocationTypeDetails::Stop(d) => Some(d.stop_name),
            LocationTypeDetails::Station(d) => Some(d.stop_name),
            LocationTypeDetails::EntranceExit(d) => Some(d.stop_name),
            LocationTypeDetails::GenericNode(d) => d.stop_name,
            LocationTypeDetails::BoardingArea(d) => d.stop_name,
        }
    }

    /// The latitude, where the location has one.
    pub open spec fn spec_stop_lat(&self) -> Option<Decimal> {
        match self.location_type_details {
            LocationTypeDetails::Stop(d) => Some(d.stop_lat),
            LocationTypeDetails::Station(d) => Some(d.stop_lat),
            LocationTypeDetails::EntranceExit(d) => Some(d.stop_lat),
            LocationTypeDetails::GenericNode(d) => d.stop_lat,
            LocationTypeDetails::BoardingArea(d) => d.stop_lat,
        }
    }

    /// The longitude, where the location has one.
    pub open spec fn spec_stop_lon(&self) -> Option<Decimal> {
        match self.location_type_details {
            LocationTypeDetails::Stop(d) => Some(d.stop_lon),
            LocationTypeDetails::Station(d) => Some(d.stop_lon),
            LocationTypeDetails::EntranceExit(d) => Some(d.stop_lon),
            LocationTypeDetails::GenericNode(d) => d.stop_lon,
            LocationTypeDetails::BoardingArea(d) => d.stop_lon,
        }
    }

    /// The identifier of the location that this one lies in, where it names
    /// one. A station names none.
    pub open spec fn spec_parent_station(&self) -> Option<Seq<char>> {
        match self.location_type_details {
            LocationTypeDetails::Stop(d) => match d.parent_station {
                Some(parent) => Some(parent@),
                None => None,
            },
            LocationTypeDetails::Station(_) => None,
            LocationTypeDetails::EntranceExit(d) => Some(d.parent_station@),
            LocationTypeDetails::GenericNode(d) => Some(d.parent_station@),
            LocationTypeDetails::BoardingArea(d) => Some(d.parent_station@),
        }
    }

    /// The name, where the location has one.
    pub fn get_stop_name(&self) -> (name: Option<&str>)
        ensures
            match name {
                Some(text) => self.spec_stop_name() matches Some(s) && text@ == s@,
                None => self.spec_stop_name() is None,
            },
    {
        match &self.location_type_details {
            LocationTypeDetails::Stop(d) => Some(d.stop_name.as_str()),
            LocationTypeDetails::Station(d) => Some(d.stop_name.as_str()),
            LocationTypeDetails::EntranceExit(d) => Some(d.stop_name.as_str()),
            LocationTypeDetails::GenericNode(d) => match &d.stop_name {
                Some(name) => Some(name.as_str()),
                None => None,
            },
            LocationTypeDetails::BoardingArea(d) => match &d.stop_name {
                Some(name) => Some(name.as_str()),
                None => None,
            },
        }
    }

    /// The location with `name` in place of the name it has; the location
    /// itself where its type lets it go without a name and it has none.
    pub open spec fn renamed(&self, name: String) -> Stop {
        Stop {
            location_type_details: match self.location_type_details {
                LocationTypeDetails::Stop(d) => LocationTypeDetails::Stop(
                    StopDetails { stop_name: name, ..d },
                ),
                LocationTypeDetails::Station(d) => LocationTypeDetails::Station(
                    StationDetails { stop_name: name, ..d },
                ),
                LocationTypeDetails::EntranceExit(d) => LocationTypeDetails::EntranceExit(
                    EntranceExitDetails { stop_name: name, ..d },
                ),
                LocationTypeDetails::GenericNode(d) => LocationTypeDetails::GenericNode(
                    GenericNodeDetails {
                        stop_name: if d.stop_name is Some {
                            Some(name)
                        } else {
                            None
                        },
                        ..d
                    },
                ),
                LocationTypeDetails::BoardingArea(d) => LocationTypeDetails::BoardingArea(
                    BoardingAreaDetails {
                        stop_name: if d.stop_name is Some {
                            Some(name)
                        } else {
                            None
                        },
                        ..d
                    },
                ),
            },
            ..*self
        }
    }

    /// The location without its name, where its type lets it go without
    /// one.
    pub open spec fn unnamed(&self) -> Option<Stop> {
        match self.location_type_details {
            LocationTypeDetails::GenericNode(d) => Some(
                Stop {
                    location_type_details: LocationTypeDetails::GenericNode(
                        GenericNodeDetails { stop_name: None, ..d },
                    ),
                    ..*self
                },
            ),
            LocationTypeDetails::BoardingArea(d) => Some(
                Stop {
                    location_type_details: LocationTypeDetails::BoardingArea(
                        BoardingAreaDetails { stop_name: None, ..d },
                    ),
                    ..*self
                },
            ),
            _ => None,
        }
    }

    /// The name, to be changed in place, where the location has one.
    pub fn mut_stop_name(&mut self) -> (name: Option<&mut String>)
        ensures
            match name {
                Some(text) => old(self).spec_stop_name() == Some(*text) && *final(self) == old(
                    self,
                ).renamed(*final(text)),
                None => old(self).spec_stop_name() is None && *final(self) == *old(self),
            },
    {
        match &mut self.location_type_details {
            LocationTypeDetails::Stop(d) => Some(&mut d.stop_name),
            LocationTypeDetails::Station(d) => Some(&mut d.stop_name),
            LocationTypeDetails::EntranceExit(d) => Some(&mut d.stop_name),
            LocationTypeDetails::GenericNode(d) => match &mut d.stop_name {
                Some(name) => Some(name),
                None => None,
            },
            LocationTypeDetails::BoardingArea(d) => match &mut d.stop_name {
                Some(name) => Some(name),
                None => None,
            },
        }
    }

    /// Takes the location apart into its name, where it has one, and the
    /// location without the name, where its type lets it go without one.
    pub fn take_stop_name(self) -> (parts: (Option<String>, Option<Stop>))
        ensures
            parts.0 == self.spec_stop_name(),
            parts.1 == self.unnamed(),
    {
        let Stop {
            stop_id,
            stop_code,
            tts_stop_name,
            stop_desc,
            zone_id,
            stop_url,
            stop_timezone,
            wheelchair_boarding,
            level_id,
            platform_code,
            location_type_details,
        } = self;
        match location_type_details {
            LocationTypeDetails::Stop(d) => (Some(d.stop_name), None),
            LocationTypeDetails::Station(d) => (Some(d.stop_name), None),
            LocationTypeDetails::EntranceExit(d) => (Some(d.stop_name), None),
            LocationTypeDetails::GenericNode(d) => {
                let GenericNodeDetails { stop_name, stop_lat, stop_lon, parent_station } = d;
                (
                    stop_name,
                    Some(
                        Stop {
                            stop_id,
                            stop_code,
                            tts_stop_name,
                            stop_desc,
                            zone_id,
                            stop_url,
                            stop_timezone,
                            wheelchair_boarding,
                            level_id,
                            platform_code,
                            location_type_details: LocationTypeDetails::GenericNode(
                                GenericNodeDetails {
                                    stop_name: None,
                                    stop_lat,
                                    stop_lon,
                                    parent_station,
                                },
                            ),
                        },
                    ),
                )
            },
            LocationTypeDetails::BoardingArea(d) => {
                let BoardingAreaDetails { stop_name, stop_lat, stop_lon, parent_station } = d;
                (
                    stop_name,
                    Some(
                        Stop {
                            stop_id,
                            stop_code,
                            tts_stop_name,
                            stop_desc,
                            zone_id,
                            stop_url,
                            stop_timezone,
                            wheelchair_boarding,
                            level_id,
                            platform_code,
                            location_type_details: LocationTypeDetails::BoardingArea(
                                BoardingAreaDetails {
                                    stop_name: None,
                                    stop_lat,
                                    stop_lon,
                                    parent_station,
                                },
                            ),
                        },
                    ),
                )
            },
        }
    }

    /// The latitude, where the location has one.
    pub fn stop_lat(&self) -> (lat: Option<Decimal>)
        ensures
            lat == self.spec_stop_lat(),
    {
        match &self.location_type_details {
            LocationTypeDetails::Stop(d) => Some(d.stop_lat),
            LocationTypeDetails::Station(d) => Some(d.stop_lat),
            LocationTypeDetails::EntranceExit(d) => Some(d.stop_lat),
            LocationTypeDetails::GenericNode(d) => d.stop_lat,
            LocationTypeDetails::BoardingArea(d) => d.stop_lat,
        }
    }

    /// The longitude, where the location has one.
    pub fn stop_lon(&self) -> (lon: Option<Decimal>)
        ensures
            lon == self.spec_stop_lon(),
    {
        match &self.location_type_details {
            LocationTypeDetails::Stop(d) => Some(d.stop_lon),
            LocationTypeDetails::Station(d) => Some(d.stop_lon),
            LocationTypeDetails::EntranceExit(d) => Some(d.stop_lon),
            LocationTypeDetails::GenericNode(d) => d.stop_lon,
            LocationTypeDetails::BoardingArea(d) => d.stop_lon,
        }
    }

    /// The identifier of the location that this one lies in, where it names
    /// one.
    pub fn parent_station(&self) -> (parent: Option<&str>)
        ensures
            match parent {
                Some(text) => self.spec_parent_station() == Some(text@),
                None => self.spec_parent_station() is None,
            },
    {
        match &self.location_type_details {
            LocationTypeDetails::Stop(d) => match &d.parent_station {
                Some(parent) => Some(parent.as_str()),
                None => None,
            },
            LocationTypeDetails::Station(_) => None,
            LocationTypeDetails::EntranceExit(d) => Some(d.parent_station.as_str()),
            LocationTypeDetails::GenericNode(d) => Some(d.parent_station.as_str()),
            LocationTypeDetails::BoardingArea(d) => Some(d.parent_station.as_str()),
        }
    }
}

impl Clone for Stop {
    fn clone(&self) -> (copy: Self)
        ensures
            copy == *self,
    {
        Stop {
            stop_id: self.stop_id.clone(),
            stop_code: copy_optional_text(&self.stop_code),
            tts_stop_name: copy_optional_text(&self.tts_stop_name),
            stop_desc: copy_optional_text(&self.stop_desc),
            zone_id: copy_optional_text(&self.zone_id),
            stop_url: copy_optional_text(&self.stop_url),
            stop_timezone: self.stop_timezone,
            wheelchair_boarding: self.wheelchair_boarding,
            level_id: copy_optional_text(&self.level_id),
            platform_code: copy_optional_text(&self.platform_code),
            location_type_details: self.location_type_details.clone(),
        }
    }
}

impl Record for Stop {
    fn replica(&self) -> (copy: Self)
        ensures
            copy == *self,
    {
        self.clone()
    }
}

impl Identified for Stop {
    open spec fn key(&self) -> Seq<char> {
        self.stop_id@
    }

    fn key_text(&self) -> (text: &str)
        ensures
            text@ == self.key(),
    {
        self.stop_id.as_str()
    }
}

/// The stops of a schedule, keyed by stop identifier: the stops stand in the
/// order in which their identifiers were first inserted. A collection that
/// `insert` built holds no identifier twice (`keyed`).
#[derive(Debug)]
pub struct Stops {
    pub stops: Vec<Stop>,
}

impl View for Stops {
    type V = Seq<Stop>;

    open spec fn view(&self) -> Seq<Stop> {
        self.stops@
    }
}

impl Stops {
    /// Whether no identifier occurs twice.
    pub open spec fn keyed(&self) -> bool {
        distinct_keys(self@)
    }

    /// The empty collection.
    pub fn new() -> (stops: Stops)
        ensures
            stops@ == Seq::<Stop>::empty(),
            stops.keyed(),
    {
        Stops { stops: Vec::new() }
    }

    /// The number of stops.
    pub fn len(&self) -> (n: usize)
        ensures
            n == self@.len(),
    {
        self.stops.len()
    }

    /// The first stop with identifier `id`, if there is one.
    pub fn get(&self, id: &str) -> (found: Option<&Stop>)
        ensures
            match found {
                Some(stop) => lookup(self@, id@) == Some(*stop),
                None => lookup(self@, id@) is None,
            },
    {
        match position(&self.stops, id) {
            Some(i) => {
                proof {
                    lemma_first_is_lookup(self@, id@, i as int);
                }
                Some(&self.stops[i])
            },
            None => None,
        }
    }

    /// Puts `stop` into the collection: in the place of the first stop with the
    /// same identifier, which is handed back, or at the end where there is
    /// none.
    pub fn insert(&mut self, stop: Stop) -> (replaced: Option<Stop>)
        ensures
            final(self)@ == placed(old(self)@, stop),
            replaced == lookup(old(self)@, stop.key()),
            old(self).keyed() ==> final(self).keyed(),
    {
        put(&mut self.stops, stop)
    }
}

/// What is wrong with the fields as those of a stop or platform, if
/// anything: the first of name, latitude and longitude that is missing or
/// cannot be read.
pub open spec fn stop_details_fault(fields: Map<Seq<char>, Cell>) -> Option<Seq<char>> {
    if required_text(fields, "stop_name"@) is Err {
        Some(required_text(fields, "stop_name"@)->Err_0)
    } else if required_decimal(fields, "stop_lat"@) is Err {
        Some(required_decimal(fields, "stop_lat"@)->Err_0)
    } else if required_decimal(fields, "stop_lon"@) is Err {
        Some(required_decimal(fields, "stop_lon"@)->Err_0)
    } else {
        None
    }
}

/// Whether `details` holds what the fields say of a stop or platform.
pub open spec fn stop_details_hold(fields: Map<Seq<char>, Cell>, details: StopDetails) -> bool {
    &&& Some(details.stop_name@) == text_of(fields, "stop_name"@)
    &&& Ok::<Decimal, Seq<char>>(details.stop_lat) == required_decimal(fields, "stop_lat"@)
    &&& Ok::<Decimal, Seq<char>>(details.stop_lon) == required_decimal(fields, "stop_lon"@)
    &&& optional_text(details.parent_station) == text_of(fields, "parent_station"@)
}

impl StopDetails {
    /// Reads what a row says of a stop or platform: name, latitude and
    /// longitude are required.
    pub fn try_from(fields: &Fields) -> (outcome: Result<StopDetails, String>)
        ensures
            match outcome {
                Ok(details) => stop_details_fault(fields@) is None && stop_details_hold(
                    fields@,
                    details,
                ),
                Err(message) => stop_details_fault(fields@) == Some(message@),
            },
    {
        let stop_name = fields.require_text("stop_name")?;
        let stop_lat = fields.require_decimal("stop_lat")?;
        let stop_lon = fields.require_decimal("stop_lon")?;
        Ok(
            StopDetails {
                stop_name,
                stop_lat,
                stop_lon,
                parent_station: fields.owned_text("parent_station"),
            },
        )
    }
}

/// Whether `details` holds what the fields say of a station.
pub open spec fn station_details_hold(fields: Map<Seq<char>, Cell>, details: StationDetails) -> bool {
    &&& Some(details.stop_name@) == text_of(fields, "stop_name"@)
    &&& Ok::<Decimal, Seq<char>>(details.stop_lat) == required_decimal(fields, "stop_lat"@)
    &&& Ok::<Decimal, Seq<char>>(details.stop_lon) == required_decimal(fields, "stop_lon"@)
}

impl StationDetails {
    /// Reads what a row says of a station: name, latitude and longitude are
    /// required.
    pub fn try_from(fields: &Fields) -> (outcome: Result<StationDetails, String>)
        ensures
            match outcome {
                Ok(details) => stop_details_fault(fields@) is None && station_details_hold(
                    fields@,
                    details,
                ),
                Err(message) => stop_details_fault(fields@) == Some(message@),
            },
    {
        let stop_name = fields.require_text("stop_name")?;
        let stop_lat = fields.require_decimal("stop_lat")?;
        let stop_lon = fields.require_decimal("stop_lon")?;
        Ok(StationDetails { stop_name, stop_lat, stop_lon })
    }
}

/// What is wrong with the fields as those of an entrance or exit, if
/// anything: the first of name, latitude, longitude and parent that is
/// missing or cannot be read.
pub open spec fn entrance_details_fault(fields: Map<Seq<char>, Cell>) -> Option<Seq<char>> {
    if stop_details_fault(fields) is Some {
        stop_details_fault(fields)
    } else if required_text(fields, "parent_station"@) is Err {
        Some(required_text(fields, "parent_station"@)->Err_0)
    } else {
        None
    }
}

/// Whether `details` holds what the fields say of an entrance or exit.
pub open spec fn entrance_details_hold(
    fields: Map<Seq<char>, Cell>,
    details: EntranceExitDetails,
) -> bool {
    &&& Some(details.stop_name@) == text_of(fields, "stop_name"@)
    &&& Ok::<Decimal, Seq<char>>(details.stop_lat) == required_decimal(fields, "stop_lat"@)
    &&& Ok::<Decimal, Seq<char>>(details.stop_lon) == required_decimal(fields, "stop_lon"@)
    &&& Some(details.parent_station@) == text_of(fields, "parent_station"@)
}

impl EntranceExitDetails {
    /// Reads what a row says of an entrance or exit: name, latitude,
    /// longitude and parent are required.
    pub fn try_from(fields: &Fields) -> (outcome: Result<EntranceExitDetails, String>)
        ensures
            match outcome {
                Ok(details) => entrance_details_fault(fields@) is None && entrance_details_hold(
                    fields@,
                    details,
                ),
                Err(message) => entrance_details_fault(fields@) == Some(message@),
            },
    {
        let stop_name = fields.require_text("stop_name")?;
        let stop_lat = fields.require_decimal("stop_lat")?;
        let stop_lon = fields.require_decimal("stop_lon")?;
        let parent_station = fields.require_text("parent_station")?;
        Ok(EntranceExitDetails { stop_name, stop_lat, stop_lon, parent_station })
    }
}

/// What is wrong with the fields as those of a generic node or of a
/// boarding area, if anything: a latitude or longitude that is given and
/// cannot be read, or a missing parent.
pub open spec fn inner_details_fault(fields: Map<Seq<char>, Cell>) -> Option<Seq<char>> {
    if decimal_if_given(fields, "stop_lat"@) is Err {
        Some(decimal_if_given(fields, "stop_lat"@)->Err_0)
    } else if decimal_if_given(fields, "stop_lon"@) is Err {
        Some(decimal_if_given(fields, "stop_lon"@)->Err_0)
    } else if required_text(fields, "parent_station"@) is Err {
        Some(required_text(fields, "parent_station"@)->Err_0)
    } else {
        None
    }
}

/// Whether `details` holds what the fields say of a generic node.
pub open spec fn node_details_hold(fields: Map<Seq<char>, Cell>, details: GenericNodeDetails) -> bool {
    &&& optional_text(details.stop_name) == text_of(fields, "stop_name"@)
    &&& Ok::<Option<Decimal>, Seq<char>>(details.stop_lat) == decimal_if_given(fields, "stop_lat"@)
    &&& Ok::<Option<Decimal>, Seq<char>>(details.stop_lon) == decimal_if_given(fields, "stop_lon"@)
    &&& Some(details.parent_station@) == text_of(fields, "parent_station"@)
}

impl GenericNodeDetails {
    /// Reads what a row says of a generic node: the parent is required.
    pub fn try_from(fields: &Fields) -> (outcome: Result<GenericNodeDetails, String>)
        ensures
            match outcome {
                Ok(details) => inner_details_fault(fields@) is None && node_details_hold(
                    fields@,
                    details,
                ),
                Err(message) => inner_details_fault(fields@) == Some(message@),
            },
    {
        let stop_lat = fields.read_decimal("stop_lat")?;
        let stop_lon = fields.read_decimal("stop_lon")?;
        let parent_station = fields.require_text("parent_station")?;
        Ok(
            GenericNodeDetails {
                stop_name: fields.owned_text("stop_name"),
                stop_lat,
                stop_lon,
                parent_station,
            },
        )
    }
}

/// Whether `details` holds what the fields say of a boarding area.
pub open spec fn area_details_hold(fields: Map<Seq<char>, Cell>, details: BoardingAreaDetails) -> bool {
    &&& optional_text(details.stop_name) == text_of(fields, "stop_name"@)
    &&& Ok::<Option<Decimal>, Seq<char>>(details.stop_lat) == decimal_if_given(fields, "stop_lat"@)
    &&& Ok::<Option<Decimal>, Seq<char>>(details.stop_lon) == decimal_if_given(fields, "stop_lon"@)
    &&& Some(details.parent_station@) == text_of(fields, "parent_station"@)
}

impl BoardingAreaDetails {
    /// Reads what a row says of a boarding area: the parent is required.
    pub fn try_from(fields: &Fields) -> (outcome: Result<BoardingAreaDetails, String>)
        ensures
            match outcome {
                Ok(details) => inner_details_fault(fields@) is None && area_details_hold(
                    fields@,
                    details,
                ),
                Err(message) => inner_details_fault(fields@) == Some(message@),
            },
    {
        let stop_lat = fields.read_decimal("stop_lat")?;
        let stop_lon = fields.read_decimal("stop_lon")?;
        let parent_station = fields.require_text("parent_station")?;
        Ok(
            BoardingAreaDetails {
                stop_name: fields.owned_text("stop_name"),
                stop_lat,
                stop_lon,
                parent_station,
            },
        )
    }
}

/// The text that says the type of a location: what stands under
/// `location_type`, or `0` where the row has no such column.
pub open spec fn location_type_text(fields: Map<Seq<char>, Cell>) -> Seq<char> {
    if fields.contains_key("location_type"@) {
        fields["location_type"@].text@
    } else {
        "0"@
    }
}

/// What is wrong with the fields as those of a location of the type with
/// the number `location_type`, if anything.
pub open spec fn location_type_fault(fields: Map<Seq<char>, Cell>, location_type: u8) -> Option<
    Seq<char>,
> {
    if location_type == 0 || location_type == 1 {
        stop_details_fault(fields)
    } else if location_type == 2 {
        entrance_details_fault(fields)
    } else if location_type == 3 || location_type == 4 {
        inner_details_fault(fields)
    } else {
        Some("invalid location_type '"@ + location_type_text(fields) + "'"@)
    }
}

/// What is wrong with the fields as those of a location, if anything: the
/// type is no number at all, or it is the number of no type, or the fields
/// do not hold what the type requires.
pub open spec fn location_fault(fields: Map<Seq<char>, Cell>) -> Option<Seq<char>> {
    let given = location_type_text(fields);
    match u8_parsed(given) {
        Err(e) => Some("invalid location_type '"@ + given + "': "@ + int_error_text(e)),
        Ok(location_type) => match location_type_fault(fields, location_type) {
            Some(inner) => Some("failed to load location as type '"@ + given + "': "@ + inner),
            None => None,
        },
    }
}

/// Whether `details` is of the type that the fields name and holds what
/// they say of it.
pub open spec fn location_holds(fields: Map<Seq<char>, Cell>, details: LocationTypeDetails) -> bool {
    match (u8_parsed(location_type_text(fields)), details) {
        (Ok(number), LocationTypeDetails::Stop(d)) => number == 0 && stop_details_hold(fields, d),
        (Ok(number), LocationTypeDetails::Station(d)) => number == 1 && station_details_hold(
            fields,
            d,
        ),
        (Ok(number), LocationTypeDetails::EntranceExit(d)) => number == 2
            && entrance_details_hold(fields, d),
        (Ok(number), LocationTypeDetails::GenericNode(d)) => number == 3 && node_details_hold(
            fields,
            d,
        ),
        (Ok(number), LocationTypeDetails::BoardingArea(d)) => number == 4 && area_details_hold(
            fields,
            d,
        ),
        (Err(_), _) => false,
    }
}

impl LocationTypeDetails {
    /// Reads the type of a location and what that type requires from the
    /// fields of a row: the number under `location_type`, from 0 to 4, or 0
    /// where the row has no such column.
    pub fn try_from(fields: &Fields) -> (outcome: Result<LocationTypeDetails, String>)
        ensures
            match outcome {
                Ok(details) => location_fault(fields@) is None && location_holds(fields@, details),
                Err(message) => location_fault(fields@) == Some(message@),
            },
            reads_u8(location_type_text(fields@)),
    {
        let given = match fields.get("location_type") {
            Some(cell) => cell.text.as_str(),
            None => "0",
        };
        let location_type = match parse_u8(given) {
            Ok(location_type) => location_type,
            Err(e) => {
                let mut message = join3("invalid location_type '", given, "': ");
                message.append(describe_int_error(&e).as_str());
                return Err(message);
            },
        };
        let read = if location_type == 0 {
            match StopDetails::try_from(fields) {
                Ok(d) => Ok(LocationTypeDetails::Stop(d)),
                Err(e) => Err(e),
            }
        } else if location_type == 1 {
            match StationDetails::try_from(fields) {
                Ok(d) => Ok(LocationTypeDetails::Station(d)),
                Err(e) => Err(e),
            }
        } else if location_type == 2 {
            match EntranceExitDetails::try_from(fields) {
                Ok(d) => Ok(LocationTypeDetails::EntranceExit(d)),
                Err(e) => Err(e),
            }
        } else if location_type == 3 {
            match GenericNodeDetails::try_from(fields) {
                Ok(d) => Ok(LocationTypeDetails::GenericNode(d)),
                Err(e) => Err(e),
            }
        } else if location_type == 4 {
            match BoardingAreaDetails::try_from(fields) {
                Ok(d) => Ok(LocationTypeDetails::BoardingArea(d)),
                Err(e) => Err(e),
            }
        } else {
            Err(join3("invalid location_type '", given, "'"))
        };
        match read {
            Ok(details) => Ok(details),
            Err(inner) => {
                let mut message = join3("failed to load location as type '", given, "': ");
                message.append(inner.as_str());
                Err(message)
            },
        }
    }
}

/// The time zone that the optional `name` names, where one is given and
/// known.
pub open spec fn optional_timezone(name: Option<Seq<char>>) -> Option<chrono_tz::Tz> {
    match name {
        Some(n) => timezone_named(n),
        None => None,
    }
}

/// Whether `name` is given and names no time zone that is known.
pub open spec fn timezone_refused(name: Option<Seq<char>>) -> bool {
    match name {
        Some(n) => timezone_named(n) is None,
        None => false,
    }
}

/// What is wrong with the fields as those of a stop, if anything: the first
/// of identifier, location, time zone and wheelchair boarding that is
/// missing or cannot be read.
pub open spec fn stop_fault(fields: Map<Seq<char>, Cell>) -> Option<Seq<char>> {
    if required_text(fields, "stop_id"@) is Err {
        Some(required_text(fields, "stop_id"@)->Err_0)
    } else if location_fault(fields) is Some {
        location_fault(fields)
    } else if timezone_refused(text_of(fields, "stop_timezone"@)) {
        Some("Invalid timezone: "@ + "failed to parse timezone"@)
    } else if tri_state(text_of(fields, "wheelchair_boarding"@)) is None {
        Some("Invalid wheelchair_boarding: "@ + text_of(fields, "wheelchair_boarding"@)->0)
    } else {
        None
    }
}

/// Whether `stop` holds what the fields say of a stop.
pub open spec fn stop_holds(fields: Map<Seq<char>, Cell>, stop: Stop) -> bool {
    &&& Some(stop.stop_id@) == text_of(fields, "stop_id"@)
    &&& location_holds(fields, stop.location_type_details)
    &&& optional_text(stop.stop_code) == text_of(fields, "stop_code"@)
    &&& optional_text(stop.tts_stop_name) == text_of(fields, "tts_stop_name"@)
    &&& optional_text(stop.stop_desc) == text_of(fields, "stop_desc"@)
    &&& optional_text(stop.zone_id) == text_of(fields, "zone_id"@)
    &&& optional_text(stop.stop_url) == text_of(fields, "stop_url"@)
    &&& stop.stop_timezone == optional_timezone(text_of(fields, "stop_timezone"@))
    &&& Some(stop.wheelchair_boarding) == tri_state(text_of(fields, "wheelchair_boarding"@))
    &&& optional_text(stop.level_id) == text_of(fields, "level_id"@)
    &&& optional_text(stop.platform_code) == text_of(fields, "platform_code"@)
}

/// Whether `outcome` is what the fields come to as a stop: the stop that
/// they make, or the message of the first thing that is wrong with them.
pub open spec fn stop_loads(fields: Map<Seq<char>, Cell>, outcome: Result<Stop, String>) -> bool {
    match outcome {
        Ok(stop) => stop_fault(fields) is None && stop_holds(fields, stop),
        Err(message) => stop_fault(fields) == Some(message@),
    }
}

impl Stop {
    /// Reads a stop from the fields of a row.
    pub fn try_from(fields: &Fields) -> (outcome: Result<Stop, String>)
        ensures
            stop_loads(fields@, outcome),
            outcome is Ok <==> stop_fault(fields@) is None,
            reads_u8(location_type_text(fields@)),
    {
        let location_read = LocationTypeDetails::try_from(fields);
        let stop_id = fields.require_text("stop_id")?;
        let location_type_details = location_read?;
        let stop_timezone = match fields.text("stop_timezone") {
            Some(name) => match timezone_from_name(name) {
                Ok(zone) => Some(zone),
                Err(why) => {
                    return Err(join2("Invalid timezone: ", why.as_str()));
                },
            },
            None => None,
        };
        let wheelchair_boarding = match read_tri_state(fields.text("wheelchair_boarding")) {
            Some(state) => state,
            None => {
                return Err(
                    join2(
                        "Invalid wheelchair_boarding: ",
                        fields.text("wheelchair_boarding").unwrap(),
                    ),
                );
            },
        };
        Ok(
            Stop {
                stop_id,
                stop_code: fields.owned_text("stop_code"),
                tts_stop_name: fields.owned_text("tts_stop_name"),
                stop_desc: fields.owned_text("stop_desc"),
                zone_id: fields.owned_text("zone_id"),
                stop_url: fields.owned_text("stop_url"),
                stop_timezone,
                wheelchair_boarding,
                level_id: fields.owned_text("level_id"),
                platform_code: fields.owned_text("platform_code"),
                location_type_details,
            },
        )
    }
}

impl FromFields for Stop {
    type Fault = String;

    open spec fn accepts(fields: Map<Seq<char>, Cell>) -> bool {
        stop_fault(fields) is None
    }

    open spec fn loads(fields: Map<Seq<char>, Cell>, outcome: Result<Stop, String>) -> bool {
        stop_loads(fields, outcome)
    }

    open spec fn reads(fields: Map<Seq<char>, Cell>) -> bool {
        reads_u8(location_type_text(fields))
    }

    fn from_fields(fields: &Fields) -> (outcome: Result<Stop, String>)
        ensures
            Self::loads(fields@, outcome),
            outcome is Ok <==> Self::accepts(fields@),
            Self::reads(fields@),
    {
        Stop::try_from(fields)
    }
}

/// Why the table of stops could not be read.
#[derive(Debug)]
pub enum StopsCsvLoadError {
    NoHeader,
    StopLoadError(String),
    CSVReadError(String),
}

impl StopsCsvLoadError {
    /// The message of the error.
    pub open spec fn text(&self) -> Seq<char> {
        match self {
            StopsCsvLoadError::NoHeader => "No header found"@,
            StopsCsvLoadError::StopLoadError(e) => "Error loading stop: "@ + e@,
            StopsCsvLoadError::CSVReadError(e) => "Error reading CSV: "@ + e@,
        }
    }

    /// The message of the error.
    pub fn to_string(&self) -> (message: String)
        ensures
            message@ == self.text(),
    {
        match self {
            StopsCsvLoadError::NoHeader => String::from_str("No header found"),
            StopsCsvLoadError::StopLoadError(e) => join2("Error loading stop: ", e.as_str()),
            StopsCsvLoadError::CSVReadError(e) => join2("Error reading CSV: ", e.as_str()),
        }
    }

    /// The error as a fault of the table.
    pub open spec fn fault(self) -> TableFault<String> {
        match self {
            StopsCsvLoadError::NoHeader => TableFault::NoHeader,
            StopsCsvLoadError::StopLoadError(e) => TableFault::Record(e),
            StopsCsvLoadError::CSVReadError(e) => TableFault::Read(e),
        }
    }
}

/// The message that refuses a table of stops in which the stop `id` lies in
/// itself.
pub open spec fn cycle_fault(id: Seq<char>) -> Seq<char> {
    "stop '"@ + id + "' is its own ancestor"@
}

/// Whether `error` refuses `stops` because one of them lies in itself, and
/// names the first that does.
pub open spec fn refused_for_cycle(stops: Seq<Stop>, error: StopsCsvLoadError) -> bool {
    match error {
        StopsCsvLoadError::StopLoadError(message) => !acyclic(stops) && message@ == cycle_fault(
            stops[cycle_place(stops)].stop_id@,
        ),
        _ => false,
    }
}

/// Whether every row of the table is accepted and the stops of the rows,
/// put into a collection one after the other, make `stops`.
pub open spec fn rows_make_stops(
    header: Option<Vec<String>>,
    rows: Seq<Result<Vec<Cell>, String>>,
    stops: Seq<Stop>,
) -> bool {
    exists|loaded: Vec<Stop>| #[trigger]
        rows_load::<Stop>(header, rows, Ok(loaded)) && stops == placed_all(loaded@)
}

/// Whether every row of the table is accepted, and `error` refuses the
/// stops that they make because one of them lies in itself.
pub open spec fn rows_make_cycle(
    header: Option<Vec<String>>,
    rows: Seq<Result<Vec<Cell>, String>>,
    error: StopsCsvLoadError,
) -> bool {
    exists|loaded: Vec<Stop>| #[trigger]
        rows_load::<Stop>(header, rows, Ok(loaded)) && refused_for_cycle(
            placed_all(loaded@),
            error,
        )
}

/// Whether `outcome` is what the table comes to: its stops, none of which
/// lies in itself, or the fault of the first row that could not be read or
/// is refused, or, where every row is accepted, the refusal of the stops
/// because one of them lies in itself.
pub open spec fn stops_come_to(
    header: Option<Vec<String>>,
    rows: Seq<Result<Vec<Cell>, String>>,
    outcome: Result<Stops, StopsCsvLoadError>,
) -> bool {
    match outcome {
        Ok(stops) => stops.keyed() && acyclic(stops@) && rows_make_stops(header, rows, stops@),
        Err(error) => rows_load::<Stop>(header, rows, Err(error.fault())) || rows_make_cycle(
            header,
            rows,
            error,
        ),
    }
}

impl Stops {
    /// Reads the stops of a table from its header and rows: the stop of each
    /// row is put into the collection in the order of the rows, so that of
    /// stops with one identifier the last counts. The first row that could
    /// not be read or is refused ends the reading. Stops of which one lies
    /// in itself, by a parent that is the stop or lies in it, are refused
    /// under the identifier of the first that does.
    pub fn try_from(header: &Option<Vec<String>>, rows: &Vec<Result<Vec<Cell>, String>>) -> (outcome:
        Result<Stops, StopsCsvLoadError>)
        ensures
            stops_come_to(*header, rows@, outcome),
    {
        match load_rows::<Stop>(header, rows) {
            Ok(loaded) => {
                let stops = place_all(&loaded);
                match stop_on_cycle(&stops) {
                    Some(at) => {
                        proof {
                            lemma_first_on_cycle_is_unique(stops@, at as int);
                        }
                        let error = StopsCsvLoadError::StopLoadError(
                            join3("stop '", stops[at].stop_id.as_str(), "' is its own ancestor"),
                        );
                        assert(rows_make_cycle(*header, rows@, error));
                        Err(error)
                    },
                    None => {
                        assert(rows_make_stops(*header, rows@, stops@));
                        Ok(Stops { stops })
                    },
                }
            },
            Err(TableFault::NoHeader) => Err(StopsCsvLoadError::NoHeader),
            Err(TableFault::Record(e)) => Err(StopsCsvLoadError::StopLoadError(e)),
            Err(TableFault::Read(e)) => Err(StopsCsvLoadError::CSVReadError(e)),
        }
    }
}

} // verus!
