//! Stop times: the calls that a trip makes, in the order of the feed.

use vstd::prelude::*;
use crate::gtfs::fields::{
    decimal_of, decimal_refused, optional_decimal, optional_text, text_of, Cell, Fields,
};
use crate::gtfs::keyed::Record;
use crate::gtfs::routes::{
    continuity_refused, optional_continuity, read_continuity, RouteContinuityPolicy,
    RouteContinuityPolicyLoadError,
};
use crate::gtfs::table::{load_rows, rows_load, FromFields, TableFault};
use crate::gtfs::util::{
    describe_int_error, int_error_text, optional_reads_usize, parse_optional_field, parse_u32,
    parse_usize, reads_u32, u32_parsed, usize_parsed, Decimal,
};
use crate::text::{
    copy_optional_text, decimal, decimal_text, join2, join3, same_text, split_in_three, three_parts,
};

verus! {

/// A time of day of `chrono`, carried through as it was made.
#[verifier::external_type_specification]
#[verifier::external_body]
pub struct ExNaiveTime(chrono::NaiveTime);

/// What `NaiveTime::from_hms_opt` returns for an hour, a minute and a
/// second.
pub uninterp spec fn time_of_day(hour: u32, minute: u32, second: u32) -> Option<chrono::NaiveTime>;

/// Whether an hour, a minute and a second are such as a clock shows.
pub open spec fn on_the_clock(hour: u32, minute: u32, second: u32) -> bool {
    hour < 24 && minute < 60 && second < 60
}

/// `NaiveTime::from_hms_opt`: `chrono` makes a time of day from an hour, a
/// minute and a second. It gives one exactly where the hour is below 24 and
/// the minute and the second are below 60; of the time itself nothing is
/// stated but that the same three numbers give the same one.
#[verifier::external_body]
pub(crate) fn time_from_hms(hour: u32, minute: u32, second: u32) -> (time: Option<
    chrono::NaiveTime,
>)
    ensures
        time == time_of_day(hour, minute, second),
        time is Some <==> on_the_clock(hour, minute, second),
{
    chrono::NaiveTime::from_hms_opt(hour, minute, second)
}

/// How riders are picked up or dropped off at a call.
#[derive(Debug, Clone, Copy, PartialEq, Eq)]
pub enum StopPolicy {
    RegularlyScheduled,
    Unavailable,
    Prearrange,
    CoordinateWithDriver,
}

/// Whether the times of a call are exact.
#[derive(Debug, Clone, Copy, PartialEq, Eq)]
pub enum Timepoint {
    Approximate,
    Exact,
}

/// One call of a trip. `stop_id` is absent where riders are picked up by
/// location group or area.
#[derive(Debug, PartialEq)]
pub struct StopTime {
    pub trip_id: String,
    pub stop_id: Option<String>,
    pub arrival_time: Option<chrono::NaiveTime>,
    pub departure_time: Option<chrono::NaiveTime>,
    pub location_group_id: Option<String>,
    pub location_id: Option<String>,
    pub stop_sequence: usize,
    pub stop_headsign: Option<String>,
    pub start_pickup_drop_off_window: Option<chrono::NaiveTime>,
    pub end_pickup_drop_off_window: Option<chrono::NaiveTime>,
    pub pickup_type: Option<StopPolicy>,
    pub drop_off_type: Option<StopPolicy>,
    pub continuous_pickup: Option<RouteContinuityPolicy>,
    pub continuous_drop_off: Option<RouteContinuityPolicy>,
    pub shape_dist_traveled: Option<Decimal>,
    pub timepoint: Option<Timepoint>,
    pub pickup_booking_rule_id: Option<String>,
    pub drop_off_booking_rule_id: Option<String>,
}

impl StopTime {
    /// The stop that the call is made at, where it names one.
    pub open spec fn stop(&self) -> Option<Seq<char>> {
        match self.stop_id {
            Some(id) => Some(id@),
            None => None,
        }
    }
}

impl Clone for StopTime {
    fn clone(&self) -> (copy: Self)
        ensures
            copy == *self,
    {
        StopTime {
            trip_id: self.trip_id.clone(),
            stop_id: copy_optional_text(&self.stop_id),
            arrival_time: self.arrival_time,
            departure_time: self.departure_time,
            location_group_id: copy_optional_text(&self.location_group_id),
            location_id: copy_optional_text(&self.location_id),
            stop_sequence: self.stop_sequence,
            stop_headsign: copy_optional_text(&self.stop_headsign),
            start_pickup_drop_off_window: self.start_pickup_drop_off_window,
            end_pickup_drop_off_window: self.end_pickup_drop_off_window,
            pickup_type: self.pickup_type,
            drop_off_type: self.drop_off_type,
            continuous_pickup: self.continuous_pickup,
            continuous_drop_off: self.continuous_drop_off,
            shape_dist_traveled: self.shape_dist_traveled,
            timepoint: self.timepoint,
            pickup_booking_rule_id: copy_optional_text(&self.pickup_booking_rule_id),
            drop_off_booking_rule_id: copy_optional_text(&self.drop_off_booking_rule_id),
        }
    }
}

impl Record for StopTime {
    fn replica(&self) -> (copy: Self)
        ensures
            copy == *self,
    {
        self.clone()
    }
}

/// The calls of `calls` that belong to the trip `trip_id`, in their order.
pub open spec fn calls_of_trip(calls: Seq<StopTime>, trip_id: Seq<char>) -> Seq<StopTime> {
    calls.filter(|call: StopTime| call.trip_id@ == trip_id)
}

/// The stop times of a schedule, in the order of the feed. The calls of one
/// trip are those that name it, in that order; nothing sorts them by
/// `stop_sequence`.
#[derive(Debug)]
pub struct StopTimes {
    pub stop_times: Vec<StopTime>,
}

impl View for StopTimes {
    type V = Seq<StopTime>;

    open spec fn view(&self) -> Seq<StopTime> {
        self.stop_times@
    }
}

impl StopTimes {
    /// The empty collection.
    pub fn new() -> (stop_times: StopTimes)
        ensures
            stop_times@ == Seq::<StopTime>::empty(),
    {
        StopTimes { stop_times: Vec::new() }
    }

    /// All the calls, in the order of the feed.
    pub fn iter(&self) -> (calls: &Vec<StopTime>)
        ensures
            calls@ == self@,
    {
        &self.stop_times
    }

    /// Adds `call` after the calls that are there.
    pub fn push(&mut self, call: StopTime)
        ensures
            final(self)@ == old(self)@.push(call),
    {
        self.stop_times.push(call);
    }

    /// The calls of the trip `trip_id`, in the order of the feed.
    pub fn for_trip(&self, trip_id: &str) -> (calls: Vec<StopTime>)
        ensures
            calls@ == calls_of_trip(self@, trip_id@),
    {
        let ghost wanted = |call: StopTime| call.trip_id@ == trip_id@;
        let mut calls: Vec<StopTime> = Vec::new();
        let n = self.stop_times.len();
        let mut i: usize = 0;
        while i < n
            invariant
                i <= n,
                n == self@.len(),
                wanted == (|call: StopTime| call.trip_id@ == trip_id@),
                calls@ == self@.take(i as int).filter(wanted),
            decreases n - i,
        {
            proof {
                reveal(Seq::filter);
                assert(self@.take(i + 1).drop_last() =~= self@.take(i as int));
            }
            if crate::text::same_text(self.stop_times[i].trip_id.as_str(), trip_id) {
                calls.push(self.stop_times[i].clone());
            }
            i += 1;
        }
        assert(self@.take(n as int) =~= self@);
        calls
    }
}

/// Why a text stands for no pickup or drop-off policy.
#[derive(Debug, PartialEq, Eq)]
pub enum StopPolicyLoadError {
    InvalidStopPolicy(String),
}

impl StopPolicyLoadError {
    /// The message of the error.
    pub open spec fn text(&self) -> Seq<char> {
        match self {
            StopPolicyLoadError::InvalidStopPolicy(given) => "Invalid stop policy: "@ + given@,
        }
    }

    /// The message of the error.
    pub fn to_string(&self) -> (message: String)
        ensures
            message@ == self.text(),
    {
        match self {
            StopPolicyLoadError::InvalidStopPolicy(given) => join2(
                "Invalid stop policy: ",
                given.as_str(),
            ),
        }
    }

    /// The text that was refused.
    pub open spec fn given(&self) -> Seq<char> {
        match self {
            StopPolicyLoadError::InvalidStopPolicy(given) => given@,
        }
    }
}

/// The pickup or drop-off policy that `text` stands for, where it stands
/// for one.
pub open spec fn stop_policy_of(text: Seq<char>) -> Option<StopPolicy> {
    if text == "0"@ {
        Some(StopPolicy::RegularlyScheduled)
    } else if text == "1"@ {
        Some(StopPolicy::Unavailable)
    } else if text == "2"@ {
        Some(StopPolicy::Prearrange)
    } else if text == "3"@ {
        Some(StopPolicy::CoordinateWithDriver)
    } else {
        None
    }
}

/// The policy that the optional `text` stands for, where it is given and
/// stands for one.
pub open spec fn optional_stop_policy(text: Option<Seq<char>>) -> Option<StopPolicy> {
    match text {
        Some(t) => stop_policy_of(t),
        None => None,
    }
}

/// Whether `text` is given and stands for no policy.
pub open spec fn stop_policy_refused(text: Option<Seq<char>>) -> bool {
    match text {
        Some(t) => stop_policy_of(t) is None,
        None => false,
    }
}

impl StopPolicy {
    /// The pickup or drop-off policy that `s` stands for: `0` to `3`.
    pub fn from_str(s: &str) -> (policy: Result<StopPolicy, StopPolicyLoadError>)
        ensures
            match policy {
                Ok(p) => stop_policy_of(s@) == Some(p),
                Err(e) => stop_policy_of(s@) is None && e.given() == s@,
            },
    {
        if same_text(s, "0") {
            Ok(StopPolicy::RegularlyScheduled)
        } else if same_text(s, "1") {
            Ok(StopPolicy::Unavailable)
        } else if same_text(s, "2") {
            Ok(StopPolicy::Prearrange)
        } else if same_text(s, "3") {
            Ok(StopPolicy::CoordinateWithDriver)
        } else {
            Err(StopPolicyLoadError::InvalidStopPolicy(String::from_str(s)))
        }
    }
}

/// Why a text stands for no precision of times.
#[derive(Debug, PartialEq, Eq)]
pub enum TimepointLoadError {
    InvalidTimepoint(String),
}

impl TimepointLoadError {
    /// The message of the error.
    pub open spec fn text(&self) -> Seq<char> {
        match self {
            TimepointLoadError::InvalidTimepoint(given) => "Invalid timepoint: "@ + given@,
        }
    }

    /// The message of the error.
    pub fn to_string(&self) -> (message: String)
        ensures
            message@ == self.text(),
    {
        match self {
            TimepointLoadError::InvalidTimepoint(given) => join2(
                "Invalid timepoint: ",
                given.as_str(),
            ),
        }
    }

    /// The text that was refused.
    pub open spec fn given(&self) -> Seq<char> {
        match self {
            TimepointLoadError::InvalidTimepoint(given) => given@,
        }
    }
}

/// The precision of times that `text` stands for, where it stands for one.
pub open spec fn timepoint_of(text: Seq<char>) -> Option<Timepoint> {
    if text == "0"@ {
        Some(Timepoint::Approximate)
    } else if text == "1"@ {
        Some(Timepoint::Exact)
    } else {
        None
    }
}

/// The precision that the optional `text` stands for, where it is given and
/// stands for one.
pub open spec fn optional_timepoint(text: Option<Seq<char>>) -> Option<Timepoint> {
    match text {
        Some(t) => timepoint_of(t),
        None => None,
    }
}

/// Whether `text` is given and stands for no precision.
pub open spec fn timepoint_refused(text: Option<Seq<char>>) -> bool {
    match text {
        Some(t) => timepoint_of(t) is None,
        None => false,
    }
}

impl Timepoint {
    /// The precision of times that `s` stands for: `0` or `1`.
    pub fn from_str(s: &str) -> (precision: Result<Timepoint, TimepointLoadError>)
        ensures
            match precision {
                Ok(p) => timepoint_of(s@) == Some(p),
                Err(e) => timepoint_of(s@) is None && e.given() == s@,
            },
    {
        if same_text(s, "0") {
            Ok(Timepoint::Approximate)
        } else if same_text(s, "1") {
            Ok(Timepoint::Exact)
        } else {
            Err(TimepointLoadError::InvalidTimepoint(String::from_str(s)))
        }
    }
}

/// Why a text writes no time of day.
#[derive(Debug, PartialEq, Eq)]
pub enum ParseTimeError {
    ImproperNumberOfSegments,
    InvalidHourSegment(core::num::ParseIntError),
    InvalidMinuteSegment(core::num::ParseIntError),
    InvalidSecondSegment(core::num::ParseIntError),
    InvalidTime(u32, u32, u32),
}

impl ParseTimeError {
    /// The message of the error.
    pub open spec fn text(&self) -> Seq<char> {
        match self {
            ParseTimeError::ImproperNumberOfSegments => "Improper number of segments"@,
            ParseTimeError::InvalidHourSegment(e) => "Invalid hour segment: "@ + int_error_text(*e),
            ParseTimeError::InvalidMinuteSegment(e) => "Invalid minute segment: "@
                + int_error_text(*e),
            ParseTimeError::InvalidSecondSegment(e) => "Invalid second segment: "@
                + int_error_text(*e),
            ParseTimeError::InvalidTime(h, m, s) => "Invalid time '"@ + decimal_text(*h as nat)
                + ":"@ + decimal_text(*m as nat) + ":"@ + decimal_text(*s as nat) + "'"@,
        }
    }

    /// The message of the error.
    pub fn to_string(&self) -> (message: String)
        ensures
            message@ == self.text(),
    {
        match self {
            ParseTimeError::ImproperNumberOfSegments => String::from_str(
                "Improper number of segments",
            ),
            ParseTimeError::InvalidHourSegment(e) => join2(
                "Invalid hour segment: ",
                describe_int_error(e).as_str(),
            ),
            ParseTimeError::InvalidMinuteSegment(e) => join2(
                "Invalid minute segment: ",
                describe_int_error(e).as_str(),
            ),
            ParseTimeError::InvalidSecondSegment(e) => join2(
                "Invalid second segment: ",
                describe_int_error(e).as_str(),
            ),
            ParseTimeError::InvalidTime(h, m, s) => {
                let mut message = join3("Invalid time '", decimal(*h).as_str(), ":");
                message.append(decimal(*m).as_str());
                message.append(":");
                message.append(decimal(*s).as_str());
                message.append("'");
                message
            },
        }
    }
}

/// The time of day that `text` writes as hours, minutes and seconds with a
/// colon between them, or why it writes none. The hour is taken modulo 24,
/// so that a time after midnight of a service day is a time of day.
pub open spec fn time_read(text: Seq<char>) -> Result<chrono::NaiveTime, ParseTimeError> {
    match three_parts(text, ':') {
        None => Err(ParseTimeError::ImproperNumberOfSegments),
        Some((hours, minutes, seconds)) => match u32_parsed(hours) {
            Err(e) => Err(ParseTimeError::InvalidHourSegment(e)),
            Ok(h) => match u32_parsed(minutes) {
                Err(e) => Err(ParseTimeError::InvalidMinuteSegment(e)),
                Ok(m) => match u32_parsed(seconds) {
                    Err(e) => Err(ParseTimeError::InvalidSecondSegment(e)),
                    Ok(s) => match time_of_day(h % 24, m, s) {
                        Some(time) => Ok(time),
                        None => Err(ParseTimeError::InvalidTime(h % 24, m, s)),
                    },
                },
            },
        },
    }
}

/// The time of day that the optional `text` writes, or why it writes none;
/// no time where no text is given.
pub open spec fn optional_time(text: Option<Seq<char>>) -> Result<
    Option<chrono::NaiveTime>,
    ParseTimeError,
> {
    match text {
        None => Ok(None),
        Some(t) => match time_read(t) {
            Ok(time) => Ok(Some(time)),
            Err(e) => Err(e),
        },
    }
}

/// Whether the three parts of a time are read as they are written: each as
/// the number that it writes in decimal, and the three numbers as a time of
/// day exactly where they are such as a clock shows.
pub open spec fn parts_read(hours: Seq<char>, minutes: Seq<char>, seconds: Seq<char>) -> bool {
    &&& reads_u32(hours)
    &&& reads_u32(minutes)
    &&& reads_u32(seconds)
    &&& match (u32_parsed(hours), u32_parsed(minutes), u32_parsed(seconds)) {
        (Ok(h), Ok(m), Ok(s)) => time_of_day(h % 24, m, s) is Some <==> on_the_clock(h % 24, m, s),
        _ => true,
    }
}

/// Whether `text` is read as a time as it is written, where it has the
/// three parts of one.
pub open spec fn time_reads(text: Seq<char>) -> bool {
    match three_parts(text, ':') {
        Some((hours, minutes, seconds)) => parts_read(hours, minutes, seconds),
        None => true,
    }
}

/// Whether the optional `text` is read as a time as it is written, where
/// it is given.
pub open spec fn optional_time_reads(text: Option<Seq<char>>) -> bool {
    match text {
        Some(t) => time_reads(t),
        None => true,
    }
}

/// The time of day that `s` writes as hours, minutes and seconds with a
/// colon between them. The hour is taken modulo 24.
pub fn parse_time(s: &str) -> (time: Result<chrono::NaiveTime, ParseTimeError>)
    ensures
        time == time_read(s@),
        time_reads(s@),
{
    let (hours, minutes, seconds) = match split_in_three(s, ':') {
        Some(parts) => parts,
        None => {
            return Err(ParseTimeError::ImproperNumberOfSegments);
        },
    };
    let hours_read = parse_u32(hours);
    let minutes_read = parse_u32(minutes);
    let seconds_read = parse_u32(seconds);
    let hours = match hours_read {
        Ok(h) => h % 24,
        Err(e) => {
            return Err(ParseTimeError::InvalidHourSegment(e));
        },
    };
    let minutes = match minutes_read {
        Ok(m) => m,
        Err(e) => {
            return Err(ParseTimeError::InvalidMinuteSegment(e));
        },
    };
    let seconds = match seconds_read {
        Ok(s) => s,
        Err(e) => {
            return Err(ParseTimeError::InvalidSecondSegment(e));
        },
    };
    match time_from_hms(hours, minutes, seconds) {
        Some(time) => Ok(time),
        None => Err(ParseTimeError::InvalidTime(hours, minutes, seconds)),
    }
}

/// Reads the time of day under `name`, where one is given.
fn read_time(fields: &Fields, name: &str) -> (outcome: Result<
    Option<chrono::NaiveTime>,
    ParseTimeError,
>)
    ensures
        outcome == optional_time(text_of(fields@, name@)),
        optional_time_reads(text_of(fields@, name@)),
{
    parse_optional_field(fields.text(name), parse_time)
}

/// Reads the pickup or drop-off policy under `name`, where one is given.
fn read_stop_policy(fields: &Fields, name: &str) -> (outcome: Result<
    Option<StopPolicy>,
    StopPolicyLoadError,
>)
    ensures
        match outcome {
            Ok(policy) => !stop_policy_refused(text_of(fields@, name@)) && policy
                == optional_stop_policy(text_of(fields@, name@)),
            Err(e) => stop_policy_refused(text_of(fields@, name@)) && Some(e.given()) == text_of(
                fields@,
                name@,
            ),
        },
{
    parse_optional_field(fields.text(name), StopPolicy::from_str)
}

/// Why a stop time could not be read from its fields.
#[derive(Debug, PartialEq, Eq)]
pub enum StopTimeLoadError {
    TripIdRequired,
    ArrivalTimeError(ParseTimeError),
    DepartureTimeError(ParseTimeError),
    StopSequenceRequired,
    StopSequenceError(core::num::ParseIntError),
    StartPickupDropOffWindowError(ParseTimeError),
    EndPickupDropOffWindowError(ParseTimeError),
    PickupTypeError(StopPolicyLoadError),
    DropOffTypeError(StopPolicyLoadError),
    ContinuousPickupError(RouteContinuityPolicyLoadError),
    ContinuousDropOffError(RouteContinuityPolicyLoadError),
    /// The distance could not be read as a decimal number; the message says
    /// why.
    ShapeDistTraveledError(String),
    TimepointError(TimepointLoadError),
}

impl StopTimeLoadError {
    /// The message of the error.
    pub open spec fn text(&self) -> Seq<char> {
        match self {
            StopTimeLoadError::TripIdRequired => "trip_id is required"@,
            StopTimeLoadError::ArrivalTimeError(e) => "Error parsing arrival time: "@ + e.text(),
            StopTimeLoadError::DepartureTimeError(e) => "Error parsing departure time: "@
                + e.text(),
            StopTimeLoadError::StopSequenceRequired => "stop_sequence is required"@,
            StopTimeLoadError::StopSequenceError(e) => "Error parsing stop sequence: "@
                + int_error_text(*e),
            StopTimeLoadError::StartPickupDropOffWindowError(e) =>
                "Error parsing start pickup drop off window: "@ + e.text(),
            StopTimeLoadError::EndPickupDropOffWindowError(e) =>
                "Error parsing end pickup drop off window: "@ + e.text(),
            StopTimeLoadError::PickupTypeError(e) => "Error parsing pickup type: "@ + e.text(),
            StopTimeLoadError::DropOffTypeError(e) => "Error parsing drop off type: "@ + e.text(),
            StopTimeLoadError::ContinuousPickupError(e) => "Error parsing continuous pickup: "@
                + e.text(),
            StopTimeLoadError::ContinuousDropOffError(e) => "Error parsing continuous drop off: "@
                + e.text(),
            StopTimeLoadError::ShapeDistTraveledError(e) => "Error parsing shape dist traveled: "@
                + e@,
            StopTimeLoadError::TimepointError(e) => "Error parsing timepoint: "@ + e.text(),
        }
    }

    /// The message of the error.
    pub fn to_string(&self) -> (message: String)
        ensures
            message@ == self.text(),
    {
        match self {
            StopTimeLoadError::TripIdRequired => String::from_str("trip_id is required"),
            StopTimeLoadError::ArrivalTimeError(e) => join2(
                "Error parsing arrival time: ",
                e.to_string().as_str(),
            ),
            StopTimeLoadError::DepartureTimeError(e) => join2(
                "Error parsing departure time: ",
                e.to_string().as_str(),
            ),
            StopTimeLoadError::StopSequenceRequired => String::from_str("stop_sequence is required"),
            StopTimeLoadError::StopSequenceError(e) => join2(
                "Error parsing stop sequence: ",
                describe_int_error(e).as_str(),
            ),
            StopTimeLoadError::StartPickupDropOffWindowError(e) => join2(
                "Error parsing start pickup drop off window: ",
                e.to_string().as_str(),
            ),
            StopTimeLoadError::EndPickupDropOffWindowError(e) => join2(
                "Error parsing end pickup drop off window: ",
                e.to_string().as_str(),
            ),
            StopTimeLoadError::PickupTypeError(e) => join2(
                "Error parsing pickup type: ",
                e.to_string().as_str(),
            ),
            StopTimeLoadError::DropOffTypeError(e) => join2(
                "Error parsing drop off type: ",
                e.to_string().as_str(),
            ),
            StopTimeLoadError::ContinuousPickupError(e) => join2(
                "Error parsing continuous pickup: ",
                e.to_string().as_str(),
            ),
            StopTimeLoadError::ContinuousDropOffError(e) => join2(
                "Error parsing continuous drop off: ",
                e.to_string().as_str(),
            ),
            StopTimeLoadError::ShapeDistTraveledError(e) => join2(
                "Error parsing shape dist traveled: ",
                e.as_str(),
            ),
            StopTimeLoadError::TimepointError(e) => join2(
                "Error parsing timepoint: ",
                e.to_string().as_str(),
            ),
        }
    }
}

/// The place in its trip that the optional `text` writes, or why it writes
/// none.
pub open spec fn sequence_of(text: Option<Seq<char>>) -> Result<usize, StopTimeLoadError> {
    match text {
        None => Err(StopTimeLoadError::StopSequenceRequired),
        Some(t) => match usize_parsed(t) {
            Ok(place) => Ok(place),
            Err(e) => Err(StopTimeLoadError::StopSequenceError(e)),
        },
    }
}

/// Whether the numbers and times of the fields of a stop time are read as
/// they are written: the four times where they are given, and the place in
/// the trip where it is given.
pub open spec fn stop_time_reads(fields: Map<Seq<char>, Cell>) -> bool {
    &&& optional_time_reads(text_of(fields, "arrival_time"@))
    &&& optional_time_reads(text_of(fields, "departure_time"@))
    &&& optional_reads_usize(text_of(fields, "stop_sequence"@))
    &&& optional_time_reads(text_of(fields, "start_pickup_drop_off_window"@))
    &&& optional_time_reads(text_of(fields, "end_pickup_drop_off_window"@))
}

/// Whether `call` holds what the fields say of a stop time.
pub open spec fn stop_time_holds(fields: Map<Seq<char>, Cell>, call: StopTime) -> bool {
    &&& Some(call.trip_id@) == text_of(fields, "trip_id"@)
    &&& optional_text(call.stop_id) == text_of(fields, "stop_id"@)
    &&& Ok::<Option<chrono::NaiveTime>, ParseTimeError>(call.arrival_time) == optional_time(
        text_of(fields, "arrival_time"@),
    )
    &&& Ok::<Option<chrono::NaiveTime>, ParseTimeError>(call.departure_time) == optional_time(
        text_of(fields, "departure_time"@),
    )
    &&& optional_text(call.location_group_id) == text_of(fields, "location_group_id"@)
    &&& optional_text(call.location_id) == text_of(fields, "location_id"@)
    &&& Ok::<usize, StopTimeLoadError>(call.stop_sequence) == sequence_of(
        text_of(fields, "stop_sequence"@),
    )
    &&& optional_text(call.stop_headsign) == text_of(fields, "stop_headsign"@)
    &&& Ok::<Option<chrono::NaiveTime>, ParseTimeError>(call.start_pickup_drop_off_window)
        == optional_time(text_of(fields, "start_pickup_drop_off_window"@))
    &&& Ok::<Option<chrono::NaiveTime>, ParseTimeError>(call.end_pickup_drop_off_window)
        == optional_time(text_of(fields, "end_pickup_drop_off_window"@))
    &&& call.pickup_type == optional_stop_policy(text_of(fields, "pickup_type"@))
    &&& call.drop_off_type == optional_stop_policy(text_of(fields, "drop_off_type"@))
    &&& call.continuous_pickup == optional_continuity(text_of(fields, "continuous_pickup"@))
    &&& call.continuous_drop_off == optional_continuity(text_of(fields, "continuous_drop_off"@))
    &&& call.shape_dist_traveled == optional_decimal(fields, "shape_dist_traveled"@)
    &&& call.timepoint == optional_timepoint(text_of(fields, "timepoint"@))
    &&& optional_text(call.pickup_booking_rule_id) == text_of(fields, "pickup_booking_rule_id"@)
    &&& optional_text(call.drop_off_booking_rule_id) == text_of(
        fields,
        "drop_off_booking_rule_id"@,
    )
}

/// Whether the fields make a stop time: the trip and the place in it are
/// given, and whatever else is given can be read.
pub open spec fn stop_time_accepted(fields: Map<Seq<char>, Cell>) -> bool {
    &&& text_of(fields, "trip_id"@) is Some
    &&& optional_time(text_of(fields, "arrival_time"@)) is Ok
    &&& optional_time(text_of(fields, "departure_time"@)) is Ok
    &&& sequence_of(text_of(fields, "stop_sequence"@)) is Ok
    &&& optional_time(text_of(fields, "start_pickup_drop_off_window"@)) is Ok
    &&& optional_time(text_of(fields, "end_pickup_drop_off_window"@)) is Ok
    &&& !stop_policy_refused(text_of(fields, "pickup_type"@))
    &&& !stop_policy_refused(text_of(fields, "drop_off_type"@))
    &&& !continuity_refused(text_of(fields, "continuous_pickup"@))
    &&& !continuity_refused(text_of(fields, "continuous_drop_off"@))
    &&& !decimal_refused(fields, "shape_dist_traveled"@)
    &&& !timepoint_refused(text_of(fields, "timepoint"@))
}

/// Whether `outcome` is what the fields come to as a stop time: the stop
/// time that they make, or the first thing that is wrong with them, in the
/// order trip, arrival, departure, place in the trip, start and end of the
/// window, pickup, drop-off, continuous pickup, continuous drop-off,
/// distance, precision.
pub open spec fn stop_time_loads(
    fields: Map<Seq<char>, Cell>,
    outcome: Result<StopTime, StopTimeLoadError>,
) -> bool {
    if text_of(fields, "trip_id"@) is None {
        outcome == Err::<StopTime, StopTimeLoadError>(StopTimeLoadError::TripIdRequired)
    } else if optional_time(text_of(fields, "arrival_time"@)) is Err {
        outcome == Err::<StopTime, StopTimeLoadError>(
            StopTimeLoadError::ArrivalTimeError(
                optional_time(text_of(fields, "arrival_time"@))->Err_0,
            ),
        )
    } else if optional_time(text_of(fields, "departure_time"@)) is Err {
        outcome == Err::<StopTime, StopTimeLoadError>(
            StopTimeLoadError::DepartureTimeError(
                optional_time(text_of(fields, "departure_time"@))->Err_0,
            ),
        )
    } else if sequence_of(text_of(fields, "stop_sequence"@)) is Err {
        outcome == Err::<StopTime, StopTimeLoadError>(
            sequence_of(text_of(fields, "stop_sequence"@))->Err_0,
        )
    } else if optional_time(text_of(fields, "start_pickup_drop_off_window"@)) is Err {
        outcome == Err::<StopTime, StopTimeLoadError>(
            StopTimeLoadError::StartPickupDropOffWindowError(
                optional_time(text_of(fields, "start_pickup_drop_off_window"@))->Err_0,
            ),
        )
    } else if optional_time(text_of(fields, "end_pickup_drop_off_window"@)) is Err {
        outcome == Err::<StopTime, StopTimeLoadError>(
            StopTimeLoadError::EndPickupDropOffWindowError(
                optional_time(text_of(fields, "end_pickup_drop_off_window"@))->Err_0,
            ),
        )
    } else if stop_policy_refused(text_of(fields, "pickup_type"@)) {
        outcome matches Err(StopTimeLoadError::PickupTypeError(e)) && Some(e.given()) == text_of(
            fields,
            "pickup_type"@,
        )
    } else if stop_policy_refused(text_of(fields, "drop_off_type"@)) {
        outcome matches Err(StopTimeLoadError::DropOffTypeError(e)) && Some(e.given()) == text_of(
            fields,
            "drop_off_type"@,
        )
    } else if continuity_refused(text_of(fields, "continuous_pickup"@)) {
        outcome matches Err(StopTimeLoadError::ContinuousPickupError(e)) && Some(e.0@) == text_of(
            fields,
            "continuous_pickup"@,
        )
    } else if continuity_refused(text_of(fields, "continuous_drop_off"@)) {
        outcome matches Err(StopTimeLoadError::ContinuousDropOffError(e)) && Some(e.0@)
            == text_of(fields, "continuous_drop_off"@)
    } else if decimal_refused(fields, "shape_dist_traveled"@) {
        outcome matches Err(StopTimeLoadError::ShapeDistTraveledError(why)) && decimal_of(
            fields,
            "shape_dist_traveled"@,
        ) matches Some(Err(reason)) && why@ == reason@
    } else if timepoint_refused(text_of(fields, "timepoint"@)) {
        outcome matches Err(StopTimeLoadError::TimepointError(e)) && Some(e.given()) == text_of(
            fields,
            "timepoint"@,
        )
    } else {
        outcome matches Ok(call) && stop_time_holds(fields, call)
    }
}

impl StopTime {
    /// Reads a stop time from the fields of a row.
    pub fn try_from(fields: &Fields) -> (outcome: Result<StopTime, StopTimeLoadError>)
        ensures
            stop_time_loads(fields@, outcome),
            outcome is Ok <==> stop_time_accepted(fields@),
            stop_time_reads(fields@),
    {
        let arrival_read = read_time(fields, "arrival_time");
        let departure_read = read_time(fields, "departure_time");
        let sequence_read = parse_optional_field(fields.text("stop_sequence"), parse_usize);
        let start_read = read_time(fields, "start_pickup_drop_off_window");
        let end_read = read_time(fields, "end_pickup_drop_off_window");
        let trip_id = match fields.owned_text("trip_id") {
            Some(id) => id,
            None => {
                return Err(StopTimeLoadError::TripIdRequired);
            },
        };
        let arrival_time = match arrival_read {
            Ok(time) => time,
            Err(e) => {
                return Err(StopTimeLoadError::ArrivalTimeError(e));
            },
        };
        let departure_time = match departure_read {
            Ok(time) => time,
            Err(e) => {
                return Err(StopTimeLoadError::DepartureTimeError(e));
            },
        };
        let stop_sequence = match sequence_read {
            Ok(None) => {
                return Err(StopTimeLoadError::StopSequenceRequired);
            },
            Ok(Some(place)) => place,
            Err(e) => {
                return Err(StopTimeLoadError::StopSequenceError(e));
            },
        };
        let start_pickup_drop_off_window = match start_read {
            Ok(time) => time,
            Err(e) => {
                return Err(StopTimeLoadError::StartPickupDropOffWindowError(e));
            },
        };
        let end_pickup_drop_off_window = match end_read {
            Ok(time) => time,
            Err(e) => {
                return Err(StopTimeLoadError::EndPickupDropOffWindowError(e));
            },
        };
        let pickup_type = match read_stop_policy(fields, "pickup_type") {
            Ok(policy) => policy,
            Err(e) => {
                return Err(StopTimeLoadError::PickupTypeError(e));
            },
        };
        let drop_off_type = match read_stop_policy(fields, "drop_off_type") {
            Ok(policy) => policy,
            Err(e) => {
                return Err(StopTimeLoadError::DropOffTypeError(e));
            },
        };
        let continuous_pickup = match read_continuity(fields, "continuous_pickup") {
            Ok(policy) => policy,
            Err(e) => {
                return Err(StopTimeLoadError::ContinuousPickupError(e));
            },
        };
        let continuous_drop_off = match read_continuity(fields, "continuous_drop_off") {
            Ok(policy) => policy,
            Err(e) => {
                return Err(StopTimeLoadError::ContinuousDropOffError(e));
            },
        };
        let shape_dist_traveled = match fields.decimal("shape_dist_traveled") {
            Some(Ok(distance)) => Some(*distance),
            Some(Err(why)) => {
                return Err(StopTimeLoadError::ShapeDistTraveledError(why.clone()));
            },
            None => None,
        };
        let timepoint = match parse_optional_field(fields.text("timepoint"), Timepoint::from_str) {
            Ok(precision) => precision,
            Err(e) => {
                return Err(StopTimeLoadError::TimepointError(e));
            },
        };
        Ok(
            StopTime {
                trip_id,
                stop_id: fields.owned_text("stop_id"),
                arrival_time,
                departure_time,
                location_group_id: fields.owned_text("location_group_id"),
                location_id: fields.owned_text("location_id"),
                stop_sequence,
                stop_headsign: fields.owned_text("stop_headsign"),
                start_pickup_drop_off_window,
                end_pickup_drop_off_window,
                pickup_type,
                drop_off_type,
                continuous_pickup,
                continuous_drop_off,
                shape_dist_traveled,
                timepoint,
                pickup_booking_rule_id: fields.owned_text("pickup_booking_rule_id"),
                drop_off_booking_rule_id: fields.owned_text("drop_off_booking_rule_id"),
            },
        )
    }
}

impl FromFields for StopTime {
    type Fault = StopTimeLoadError;

    open spec fn accepts(fields: Map<Seq<char>, Cell>) -> bool {
        stop_time_accepted(fields)
    }

    open spec fn loads(
        fields: Map<Seq<char>, Cell>,
        outcome: Result<StopTime, StopTimeLoadError>,
    ) -> bool {
        stop_time_loads(fields, outcome)
    }

    open spec fn reads(fields: Map<Seq<char>, Cell>) -> bool {
        stop_time_reads(fields)
    }

    fn from_fields(fields: &Fields) -> (outcome: Result<StopTime, StopTimeLoadError>)
        ensures
            Self::loads(fields@, outcome),
            outcome is Ok <==> Self::accepts(fields@),
            Self::reads(fields@),
    {
        StopTime::try_from(fields)
    }
}

/// Why the table of stop times could not be read.
#[derive(Debug)]
pub enum StopTimesCsvLoadError {
    NoHeader,
    StopTimeLoadError(StopTimeLoadError),
    CSVReadError(String),
}

impl StopTimesCsvLoadError {
    /// The message of the error.
    pub open spec fn text(&self) -> Seq<char> {
        match self {
            StopTimesCsvLoadError::NoHeader => "No header found"@,
            StopTimesCsvLoadError::StopTimeLoadError(e) => "Error loading stop time: "@ + e.text(),
            StopTimesCsvLoadError::CSVReadError(e) => "Error reading CSV: "@ + e@,
        }
    }

    /// The message of the error.
    pub fn to_string(&self) -> (message: String)
        ensures
            message@ == self.text(),
    {
        match self {
            StopTimesCsvLoadError::NoHeader => String::from_str("No header found"),
            StopTimesCsvLoadError::StopTimeLoadError(e) => join2(
                "Error loading stop time: ",
                e.to_string().as_str(),
            ),
            StopTimesCsvLoadError::CSVReadError(e) => join2("Error reading CSV: ", e.as_str()),
        }
    }

    /// The error as a fault of the table.
    pub open spec fn fault(self) -> TableFault<StopTimeLoadError> {
        match self {
            StopTimesCsvLoadError::NoHeader => TableFault::NoHeader,
            StopTimesCsvLoadError::StopTimeLoadError(e) => TableFault::Record(e),
            StopTimesCsvLoadError::CSVReadError(e) => TableFault::Read(e),
        }
    }
}

impl StopTimes {
    /// Reads the stop times of a table from its header and rows: the stop
    /// time of each row, in the order of the rows. The first row that could
    /// not be read or is refused ends the reading.
    pub fn try_from(header: &Option<Vec<String>>, rows: &Vec<Result<Vec<Cell>, String>>) -> (outcome:
        Result<StopTimes, StopTimesCsvLoadError>)
        ensures
            match outcome {
                Ok(calls) => rows_load::<StopTime>(*header, rows@, Ok(calls.stop_times)),
                Err(e) => rows_load::<StopTime>(*header, rows@, Err(e.fault())),
            },
    {
        match load_rows::<StopTime>(header, rows) {
            Ok(stop_times) => Ok(StopTimes { stop_times }),
            Err(TableFault::NoHeader) => Err(StopTimesCsvLoadError::NoHeader),
            Err(TableFault::Record(e)) => Err(StopTimesCsvLoadError::StopTimeLoadError(e)),
            Err(TableFault::Read(e)) => Err(StopTimesCsvLoadError::CSVReadError(e)),
        }
    }
}

} // verus!
