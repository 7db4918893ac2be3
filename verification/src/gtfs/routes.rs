//! Routes: a named line that trips run along.

use vstd::prelude::*;
use crate::gtfs::keyed::{
    distinct_keys, lemma_first_is_lookup, lookup, placed, position, put, Identified, Record,
};
use crate::gtfs::fields::{optional_text, text_of, Cell, Fields};
use crate::gtfs::keyed::{place_all, placed_all};
use crate::gtfs::table::{load_rows, rows_load, FromFields, TableFault};
use crate::gtfs::util::{
    describe_int_error, int_error_text, optional_reads_usize, parse_optional_field, parse_u8,
    parse_usize, reads_u8, u8_parsed, usize_parsed,
};
use crate::text::{copy_optional_text, join2, join3, same_text};

verus! {

/// A colour of `hex_color`, carried through as it was parsed.
#[verifier::external_type_specification]
#[verifier::external_body]
pub struct ExHexColor(hex_color::HexColor);

/// The error of `hex_color`'s parsing, carried through as it was given.
#[verifier::external_type_specification]
#[verifier::external_body]
pub struct ExParseHexColorError(hex_color::ParseHexColorError);

/// What `HexColor::from_str` returns for `text`.
pub uninterp spec fn color_parsed(text: Seq<char>) -> Result<
    hex_color::HexColor,
    hex_color::ParseHexColorError,
>;

/// What a `ParseHexColorError` displays as.
pub uninterp spec fn color_error_text(error: hex_color::ParseHexColorError) -> Seq<char>;

/// `HexColor::from_str`: `hex_color` reads `text` as a colour in one of the
/// forms `#RGB`, `#RGBA`, `#RRGGBB` and `#RRGGBBAA`. Nothing is stated of
/// the colour or the error but that the same text gives the same one.
#[verifier::external_body]
pub(crate) fn parse_color(text: &str) -> (parsed: Result<
    hex_color::HexColor,
    hex_color::ParseHexColorError,
>)
    ensures
        parsed == color_parsed(text@),
{
    text.parse::<hex_color::HexColor>()
}

/// `ToString::to_string` on a `ParseHexColorError`: the message that the
/// error displays as. Nothing is stated of the message but that the same
/// error gives the same one.
#[verifier::external_body]
pub(crate) fn describe_color_error(error: &hex_color::ParseHexColorError) -> (message: String)
    ensures
        message@ == color_error_text(*error),
{
    error.to_string()
}

/// The name of a route: a short name, a long name, or both. A route
/// without any name cannot be written down.
#[derive(Debug, PartialEq, Eq)]
pub enum RouteName {
    Short(String),
    Long(String),
    LongAndShort(String, String),
}

impl RouteName {
    /// The long name, where the route has one.
    pub open spec fn spec_long(&self) -> Option<Seq<char>> {
        match self {
            RouteName::Long(name) => Some(name@),
            RouteName::LongAndShort(name, _) => Some(name@),
            RouteName::Short(_) => None,
        }
    }

    /// The short name, where the route has one.
    pub open spec fn spec_short(&self) -> Option<Seq<char>> {
        match self {
            RouteName::Short(name) => Some(name@),
            RouteName::LongAndShort(_, name) => Some(name@),
            RouteName::Long(_) => None,
        }
    }

    /// The long name if there is one, else the short name.
    pub open spec fn spec_long_or_short(&self) -> Seq<char> {
        match self {
            RouteName::Long(name) => name@,
            RouteName::Short(name) => name@,
            RouteName::LongAndShort(long, _) => long@,
        }
    }

    /// The short name if there is one, else the long name.
    pub open spec fn spec_short_or_long(&self) -> Seq<char> {
        match self {
            RouteName::Long(name) => name@,
            RouteName::Short(name) => name@,
            RouteName::LongAndShort(_, short) => short@,
        }
    }

    /// The long name, where the route has one.
    pub fn long(&self) -> (name: Option<&str>)
        ensures
            match name {
                Some(text) => self.spec_long() == Some(text@),
                None => self.spec_long() is None,
            },
    {
        match self {
            RouteName::Long(name) => Some(name.as_str()),
            RouteName::LongAndShort(name, _) => Some(name.as_str()),
            RouteName::Short(_) => None,
        }
    }

    /// The short name, where the route has one.
    pub fn short(&self) -> (name: Option<&str>)
        ensures
            match name {
                Some(text) => self.spec_short() == Some(text@),
                None => self.spec_short() is None,
            },
    {
        match self {
            RouteName::Short(name) => Some(name.as_str()),
            RouteName::LongAndShort(_, name) => Some(name.as_str()),
            RouteName::Long(_) => None,
        }
    }
}

impl Clone for RouteName {
    fn clone(&self) -> (copy: Self)
        ensures
            copy == *self,
    {
        match self {
            RouteName::Short(name) => RouteName::Short(name.clone()),
            RouteName::Long(name) => RouteName::Long(name.clone()),
            RouteName::LongAndShort(long, short) => RouteName::LongAndShort(
                long.clone(),
                short.clone(),
            ),
        }
    }
}

/// How riders may board or alight between the stops of a route.
#[derive(Debug, Clone, Copy, PartialEq, Eq)]
pub enum RouteContinuityPolicy {
    Continuous,
    NotContinuous,
    Prearrange,
    CoordinateWithDriver,
}

/// The sort of vehicle that serves a route.
#[derive(Debug, Clone, Copy, PartialEq, Eq)]
pub enum RouteType {
    TramStreetcarLightRail,
    SubwayMetro,
    Rail,
    Bus,
    Ferry,
    CableTram,
    AerialLift,
    Funicular,
    Trolleybus,
    Monorail,
}

/// A route of the feed.
#[derive(Debug, PartialEq)]
pub struct Route {
    pub route_id: String,
    pub agency_id: Option<String>,
    pub name: RouteName,
    pub route_desc: Option<String>,
    pub route_type: RouteType,
    pub route_url: Option<String>,
    pub route_color: Option<hex_color::HexColor>,
    pub route_text_color: Option<hex_color::HexColor>,
    pub route_sort_order: Option<usize>,
    pub continuous_pickup: Option<RouteContinuityPolicy>,
    pub continuous_drop_off: Option<RouteContinuityPolicy>,
    pub network_id: Option<String>,
}

impl Route {
    /// The long name, where the route has one.
    pub fn route_long_name(&self) -> (name: Option<&str>)
        ensures
            match name {
                Some(text) => self.name.spec_long() == Some(text@),
                None => self.name.spec_long() is None,
            },
    {
        self.name.long()
    }

    /// The short name, where the route has one.
    pub fn route_short_name(&self) -> (name: Option<&str>)
        ensures
            match name {
                Some(text) => self.name.spec_short() == Some(text@),
                None => self.name.spec_short() is None,
            },
    {
        self.name.short()
    }

    /// The long name if there is one, else the short name.
    pub fn long_or_short_name(&self) -> (name: &str)
        ensures
            name@ == self.name.spec_long_or_short(),
    {
        match &self.name {
            RouteName::Long(name) => name.as_str(),
            RouteName::Short(name) => name.as_str(),
            RouteName::LongAndShort(long, _) => long.as_str(),
        }
    }

    /// The short name if there is one, else the long name.
    pub fn short_or_long_name(&self) -> (name: &str)
        ensures
            name@ == self.name.spec_short_or_long(),
    {
        match &self.name {
            RouteName::Long(name) => name.as_str(),
            RouteName::Short(name) => name.as_str(),
            RouteName::LongAndShort(_, short) => short.as_str(),
        }
    }

    /// The name to call the route by: the long name if there is one, else
    /// the short name.
    pub fn name(&self) -> (name: &str)
        ensures
            name@ == self.name.spec_long_or_short(),
    {
        self.long_or_short_name()
    }
}

impl Clone for Route {
    fn clone(&self) -> (copy: Self)
        ensures
            copy == *self,
    {
        Route {
            route_id: self.route_id.clone(),
            agency_id: copy_optional_text(&self.agency_id),
            name: self.name.clone(),
            route_desc: copy_optional_text(&self.route_desc),
            route_type: self.route_type,
            route_url: copy_optional_text(&self.route_url),
            route_color: self.route_color,
            route_text_color: self.route_text_color,
            route_sort_order: self.route_sort_order,
            continuous_pickup: self.continuous_pickup,
            continuous_drop_off: self.continuous_drop_off,
            network_id: copy_optional_text(&self.network_id),
        }
    }
}

impl Record for Route {
    fn replica(&self) -> (copy: Self)
        ensures
            copy == *self,
    {
        self.clone()
    }
}

impl Identified for Route {
    open spec fn key(&self) -> Seq<char> {
        self.route_id@
    }

    fn key_text(&self) -> (text: &str)
        ensures
            text@ == self.key(),
    {
        self.route_id.as_str()
    }
}

/// The routes of a schedule, keyed by route identifier: the routes stand in
/// the order in which their identifiers were first inserted. A collection
/// that `insert` built holds no identifier twice (`keyed`).
#[derive(Debug)]
pub struct Routes {
    pub routes: Vec<Route>,
}

impl View for Routes {
    type V = Seq<Route>;

    open spec fn view(&self) -> Seq<Route> {
        self.routes@
    }
}

impl Routes {
    /// Whether no identifier occurs twice.
    pub open spec fn keyed(&self) -> bool {
        distinct_keys(self@)
    }

    /// The empty collection.
    pub fn new() -> (routes: Routes)
        ensures
            routes@ == Seq::<Route>::empty(),
            routes.keyed(),
    {
        Routes { routes: Vec::new() }
    }

    /// The number of routes.
    pub fn len(&self) -> (n: usize)
        ensures
            n == self@.len(),
    {
        self.routes.len()
    }

    /// The first route with identifier `id`, if there is one.
    pub fn get(&self, id: &str) -> (found: Option<&Route>)
        ensures
            match found {
                Some(route) => lookup(self@, id@) == Some(*route),
                None => lookup(self@, id@) is None,
            },
    {
        match position(&self.routes, id) {
            Some(i) => {
                proof {
                    lemma_first_is_lookup(self@, id@, i as int);
                }
                Some(&self.routes[i])
            },
            None => None,
        }
    }

    /// Puts `route` into the collection: in the place of the first route with the
    /// same identifier, which is handed back, or at the end where there is
    /// none.
    pub fn insert(&mut self, route: Route) -> (replaced: Option<Route>)
        ensures
            final(self)@ == placed(old(self)@, route),
            replaced == lookup(old(self)@, route.key()),
            old(self).keyed() ==> final(self).keyed(),
    {
        put(&mut self.routes, route)
    }
}

impl RouteName {
    /// Reads the name of a route from the fields of a row: it takes the
    /// short name and the long name that are given, and one of them must be.
    pub fn try_from(fields: &Fields) -> (outcome: Result<RouteName, String>)
        ensures
            match outcome {
                Ok(name) => name_given(fields@) && name.spec_short() == text_of(
                    fields@,
                    "route_short_name"@,
                ) && name.spec_long() == text_of(fields@, "route_long_name"@),
                Err(message) => !name_given(fields@) && message@
                    == "route_short_name or route_long_name is required"@,
            },
    {
        let short_name = fields.owned_text("route_short_name");
        let long_name = fields.owned_text("route_long_name");
        match (short_name, long_name) {
            (Some(short), Some(long)) => Ok(RouteName::LongAndShort(long, short)),
            (Some(short), None) => Ok(RouteName::Short(short)),
            (None, Some(long)) => Ok(RouteName::Long(long)),
            (None, None) => Err(String::from_str("route_short_name or route_long_name is required")),
        }
    }
}

/// Whether the fields give a route a name.
pub open spec fn name_given(fields: Map<Seq<char>, Cell>) -> bool {
    text_of(fields, "route_short_name"@) is Some || text_of(fields, "route_long_name"@) is Some
}

/// Why a text stands for no continuity policy: the text itself.
#[derive(Debug, PartialEq, Eq)]
pub struct RouteContinuityPolicyLoadError(pub String);

impl RouteContinuityPolicyLoadError {
    /// The message of the error.
    pub open spec fn text(&self) -> Seq<char> {
        "invalid route_continuity_policy '"@ + self.0@ + "'"@
    }

    /// The message of the error.
    pub fn to_string(&self) -> (message: String)
        ensures
            message@ == self.text(),
    {
        join3("invalid route_continuity_policy '", self.0.as_str(), "'")
    }
}

/// The continuity policy that `text` stands for, where it stands for one.
pub open spec fn continuity_of(text: Seq<char>) -> Option<RouteContinuityPolicy> {
    if text == "0"@ {
        Some(RouteContinuityPolicy::Continuous)
    } else if text == "1"@ {
        Some(RouteContinuityPolicy::NotContinuous)
    } else if text == "2"@ {
        Some(RouteContinuityPolicy::Prearrange)
    } else if text == "3"@ {
        Some(RouteContinuityPolicy::CoordinateWithDriver)
    } else {
        None
    }
}

/// The continuity policy that the optional `text` stands for, where it is
/// given and stands for one.
pub open spec fn optional_continuity(text: Option<Seq<char>>) -> Option<RouteContinuityPolicy> {
    match text {
        Some(t) => continuity_of(t),
        None => None,
    }
}

/// Whether `text` is given and stands for no continuity policy.
pub open spec fn continuity_refused(text: Option<Seq<char>>) -> bool {
    match text {
        Some(t) => continuity_of(t) is None,
        None => false,
    }
}

impl RouteContinuityPolicy {
    /// The continuity policy that `s` stands for: `0` to `3`.
    pub fn from_str(s: &str) -> (policy: Result<
        RouteContinuityPolicy,
        RouteContinuityPolicyLoadError,
    >)
        ensures
            match policy {
                Ok(p) => continuity_of(s@) == Some(p),
                Err(e) => continuity_of(s@) is None && e.0@ == s@,
            },
    {
        if same_text(s, "0") {
            Ok(RouteContinuityPolicy::Continuous)
        } else if same_text(s, "1") {
            Ok(RouteContinuityPolicy::NotContinuous)
        } else if same_text(s, "2") {
            Ok(RouteContinuityPolicy::Prearrange)
        } else if same_text(s, "3") {
            Ok(RouteContinuityPolicy::CoordinateWithDriver)
        } else {
            Err(RouteContinuityPolicyLoadError(String::from_str(s)))
        }
    }
}

/// The text that says the type of a route: what stands under `route_type`,
/// or `0` where the row has no such column.
pub open spec fn route_type_text(fields: Map<Seq<char>, Cell>) -> Seq<char> {
    if fields.contains_key("route_type"@) {
        fields["route_type"@].text@
    } else {
        "0"@
    }
}

/// The type of route with the number `n`, where there is one.
pub open spec fn route_type_numbered(n: u8) -> Option<RouteType> {
    if n == 0 {
        Some(RouteType::TramStreetcarLightRail)
    } else if n == 1 {
        Some(RouteType::SubwayMetro)
    } else if n == 2 {
        Some(RouteType::Rail)
    } else if n == 3 {
        Some(RouteType::Bus)
    } else if n == 4 {
        Some(RouteType::Ferry)
    } else if n == 5 {
        Some(RouteType::CableTram)
    } else if n == 6 {
        Some(RouteType::AerialLift)
    } else if n == 7 {
        Some(RouteType::Funicular)
    } else if n == 8 {
        Some(RouteType::Trolleybus)
    } else if n == 9 {
        Some(RouteType::Monorail)
    } else {
        None
    }
}

/// The type of route that the fields give, where they give one.
pub open spec fn route_type_of(fields: Map<Seq<char>, Cell>) -> Option<RouteType> {
    match u8_parsed(route_type_text(fields)) {
        Ok(n) => route_type_numbered(n),
        Err(_) => None,
    }
}

/// What is wrong with the type of route that the fields give, where they
/// give none: the text is no number at all, or it is the number of no type.
pub open spec fn route_type_fault(fields: Map<Seq<char>, Cell>) -> Seq<char> {
    let given = route_type_text(fields);
    match u8_parsed(given) {
        Ok(_) => "failed to load route type '"@ + given + "': "@ + ("invalid route_type '"@ + given
            + "'"@),
        Err(e) => "invalid route_type '"@ + given + "': "@ + int_error_text(e),
    }
}

impl RouteType {
    /// Reads the type of a route from the fields of a row: the number under
    /// `route_type`, from 0 to 9, or 0 where the row has no such column.
    pub fn try_from(fields: &Fields) -> (outcome: Result<RouteType, String>)
        ensures
            match outcome {
                Ok(route_type) => route_type_of(fields@) == Some(route_type),
                Err(message) => route_type_of(fields@) is None && message@ == route_type_fault(
                    fields@,
                ),
            },
            reads_u8(route_type_text(fields@)),
    {
        let given = match fields.get("route_type") {
            Some(cell) => cell.text.as_str(),
            None => "0",
        };
        let refused = match parse_u8(given) {
            Ok(0) => {
                return Ok(RouteType::TramStreetcarLightRail);
            },
            Ok(1) => {
                return Ok(RouteType::SubwayMetro);
            },
            Ok(2) => {
                return Ok(RouteType::Rail);
            },
            Ok(3) => {
                return Ok(RouteType::Bus);
            },
            Ok(4) => {
                return Ok(RouteType::Ferry);
            },
            Ok(5) => {
                return Ok(RouteType::CableTram);
            },
            Ok(6) => {
                return Ok(RouteType::AerialLift);
            },
            Ok(7) => {
                return Ok(RouteType::Funicular);
            },
            Ok(8) => {
                return Ok(RouteType::Trolleybus);
            },
            Ok(9) => {
                return Ok(RouteType::Monorail);
            },
            Ok(_) => join3("invalid route_type '", given, "'"),
            Err(e) => {
                let mut message = join3("invalid route_type '", given, "': ");
                message.append(describe_int_error(&e).as_str());
                return Err(message);
            },
        };
        let mut message = join3("failed to load route type '", given, "': ");
        message.append(refused.as_str());
        Err(message)
    }
}

/// Why a route could not be read from its fields.
#[derive(Debug, PartialEq, Eq)]
pub enum RouteLoadError {
    RouteIdRequired,
    RouteNameError(String),
    ParseRouteColorError(hex_color::ParseHexColorError),
    ParseRouteTextColorError(hex_color::ParseHexColorError),
    ParseRouteSortOrderError(core::num::ParseIntError),
    RouteTypeError(String),
    InvalidContinuousPickup(RouteContinuityPolicyLoadError),
    InvalidContinuousDropOff(RouteContinuityPolicyLoadError),
}

impl RouteLoadError {
    /// The message of the error.
    pub open spec fn text(&self) -> Seq<char> {
        match self {
            RouteLoadError::RouteIdRequired => "route_id is required"@,
            RouteLoadError::RouteNameError(e) => "Error parsing route name: "@ + e@,
            RouteLoadError::ParseRouteColorError(e) => "Error parsing route color: "@
                + color_error_text(*e),
            RouteLoadError::ParseRouteTextColorError(e) => "Error parsing route text color: "@
                + color_error_text(*e),
            RouteLoadError::ParseRouteSortOrderError(e) => "Error parsing route sort order: "@
                + int_error_text(*e),
            RouteLoadError::RouteTypeError(e) => "Error parsing route type: "@ + e@,
            RouteLoadError::InvalidContinuousPickup(e) => "Error parsing continuous pickup: "@
                + e.text(),
            RouteLoadError::InvalidContinuousDropOff(e) => "Error parsing continuous drop off: "@
                + e.text(),
        }
    }

    /// The message of the error.
    pub fn to_string(&self) -> (message: String)
        ensures
            message@ == self.text(),
    {
        match self {
            RouteLoadError::RouteIdRequired => String::from_str("route_id is required"),
            RouteLoadError::RouteNameError(e) => join2("Error parsing route name: ", e.as_str()),
            RouteLoadError::ParseRouteColorError(e) => join2(
                "Error parsing route color: ",
                describe_color_error(e).as_str(),
            ),
            RouteLoadError::ParseRouteTextColorError(e) => join2(
                "Error parsing route text color: ",
                describe_color_error(e).as_str(),
            ),
            RouteLoadError::ParseRouteSortOrderError(e) => join2(
                "Error parsing route sort order: ",
                describe_int_error(e).as_str(),
            ),
            RouteLoadError::RouteTypeError(e) => join2("Error parsing route type: ", e.as_str()),
            RouteLoadError::InvalidContinuousPickup(e) => join2(
                "Error parsing continuous pickup: ",
                e.to_string().as_str(),
            ),
            RouteLoadError::InvalidContinuousDropOff(e) => join2(
                "Error parsing continuous drop off: ",
                e.to_string().as_str(),
            ),
        }
    }
}

/// The colour that the optional `text` writes after a `#`, or why it writes
/// none; no colour where no text is given.
pub open spec fn color_of(text: Option<Seq<char>>) -> Result<
    Option<hex_color::HexColor>,
    hex_color::ParseHexColorError,
> {
    match text {
        None => Ok(None),
        Some(t) => match color_parsed("#"@ + t) {
            Ok(color) => Ok(Some(color)),
            Err(e) => Err(e),
        },
    }
}

/// The place in the order of routes that the optional `text` writes, or why
/// it writes none; no place where no text is given.
pub open spec fn sort_order_of(text: Option<Seq<char>>) -> Result<
    Option<usize>,
    core::num::ParseIntError,
> {
    match text {
        None => Ok(None),
        Some(t) => match usize_parsed(t) {
            Ok(order) => Ok(Some(order)),
            Err(e) => Err(e),
        },
    }
}

/// Whether the numbers of the fields of a route are read as they are
/// written: the type of route, and the place in the order of routes where
/// one is given.
pub open spec fn route_reads(fields: Map<Seq<char>, Cell>) -> bool {
    &&& reads_u8(route_type_text(fields))
    &&& optional_reads_usize(text_of(fields, "route_sort_order"@))
}

/// Whether `route` holds what the fields say of a route.
pub open spec fn route_holds(fields: Map<Seq<char>, Cell>, route: Route) -> bool {
    &&& Some(route.route_id@) == text_of(fields, "route_id"@)
    &&& optional_text(route.agency_id) == text_of(fields, "agency_id"@)
    &&& route.name.spec_short() == text_of(fields, "route_short_name"@)
    &&& route.name.spec_long() == text_of(fields, "route_long_name"@)
    &&& optional_text(route.route_desc) == text_of(fields, "route_desc"@)
    &&& Some(route.route_type) == route_type_of(fields)
    &&& optional_text(route.route_url) == text_of(fields, "route_url"@)
    &&& Ok::<Option<hex_color::HexColor>, hex_color::ParseHexColorError>(route.route_color)
        == color_of(text_of(fields, "route_color"@))
    &&& Ok::<Option<hex_color::HexColor>, hex_color::ParseHexColorError>(route.route_text_color)
        == color_of(text_of(fields, "route_text_color"@))
    &&& Ok::<Option<usize>, core::num::ParseIntError>(route.route_sort_order) == sort_order_of(
        text_of(fields, "route_sort_order"@),
    )
    &&& route.continuous_pickup == optional_continuity(text_of(fields, "continuous_pickup"@))
    &&& route.continuous_drop_off == optional_continuity(text_of(fields, "continuous_drop_off"@))
    &&& optional_text(route.network_id) == text_of(fields, "network_id"@)
}

/// Whether the fields make a route: the identifier and a name are given,
/// the type is one of the ten, and what is given of colours, sort order and
/// continuity can be read.
pub open spec fn route_accepted(fields: Map<Seq<char>, Cell>) -> bool {
    &&& text_of(fields, "route_id"@) is Some
    &&& name_given(fields)
    &&& route_type_of(fields) is Some
    &&& color_of(text_of(fields, "route_color"@)) is Ok
    &&& color_of(text_of(fields, "route_text_color"@)) is Ok
    &&& sort_order_of(text_of(fields, "route_sort_order"@)) is Ok
    &&& !continuity_refused(text_of(fields, "continuous_pickup"@))
    &&& !continuity_refused(text_of(fields, "continuous_drop_off"@))
}

/// Whether `outcome` is what the fields come to as a route: the route that
/// they make, or the first thing that is wrong with them, in the order
/// identifier, name, type, colour, text colour, sort order, continuous
/// pickup, continuous drop-off.
pub open spec fn route_loads(
    fields: Map<Seq<char>, Cell>,
    outcome: Result<Route, RouteLoadError>,
) -> bool {
    if text_of(fields, "route_id"@) is None {
        outcome == Err::<Route, RouteLoadError>(RouteLoadError::RouteIdRequired)
    } else if !name_given(fields) {
        outcome matches Err(RouteLoadError::RouteNameError(message)) && message@
            == "route_short_name or route_long_name is required"@
    } else if route_type_of(fields) is None {
        outcome matches Err(RouteLoadError::RouteTypeError(message)) && message@
            == route_type_fault(fields)
    } else if color_of(text_of(fields, "route_color"@)) is Err {
        outcome == Err::<Route, RouteLoadError>(
            RouteLoadError::ParseRouteColorError(
                color_of(text_of(fields, "route_color"@))->Err_0,
            ),
        )
    } else if color_of(text_of(fields, "route_text_color"@)) is Err {
        outcome == Err::<Route, RouteLoadError>(
            RouteLoadError::ParseRouteTextColorError(
                color_of(text_of(fields, "route_text_color"@))->Err_0,
            ),
        )
    } else if sort_order_of(text_of(fields, "route_sort_order"@)) is Err {
        outcome == Err::<Route, RouteLoadError>(
            RouteLoadError::ParseRouteSortOrderError(
                sort_order_of(text_of(fields, "route_sort_order"@))->Err_0,
            ),
        )
    } else if continuity_refused(text_of(fields, "continuous_pickup"@)) {
        outcome matches Err(RouteLoadError::InvalidContinuousPickup(e)) && Some(e.0@) == text_of(
            fields,
            "continuous_pickup"@,
        )
    } else if continuity_refused(text_of(fields, "continuous_drop_off"@)) {
        outcome matches Err(RouteLoadError::InvalidContinuousDropOff(e)) && Some(e.0@) == text_of(
            fields,
            "continuous_drop_off"@,
        )
    } else {
        outcome matches Ok(route) && route_holds(fields, route)
    }
}

/// Reads the continuity policy under `name`, where one is given.
pub fn read_continuity(fields: &Fields, name: &str) -> (outcome: Result<
    Option<RouteContinuityPolicy>,
    RouteContinuityPolicyLoadError,
>)
    ensures
        match outcome {
            Ok(policy) => !continuity_refused(text_of(fields@, name@)) && policy
                == optional_continuity(text_of(fields@, name@)),
            Err(e) => continuity_refused(text_of(fields@, name@)) && Some(e.0@) == text_of(
                fields@,
                name@,
            ),
        },
{
    parse_optional_field(fields.text(name), RouteContinuityPolicy::from_str)
}

/// Reads the colour under `name`, where one is given.
fn read_color(fields: &Fields, name: &str) -> (outcome: Result<
    Option<hex_color::HexColor>,
    hex_color::ParseHexColorError,
>)
    ensures
        outcome == color_of(text_of(fields@, name@)),
{
    match fields.text(name) {
        Some(text) => match parse_color(join2("#", text).as_str()) {
            Ok(color) => Ok(Some(color)),
            Err(e) => Err(e),
        },
        None => Ok(None),
    }
}

impl Route {
    /// Reads a route from the fields of a row.
    pub fn try_from(fields: &Fields) -> (outcome: Result<Route, RouteLoadError>)
        ensures
            route_loads(fields@, outcome),
            outcome is Ok <==> route_accepted(fields@),
            route_reads(fields@),
    {
        let route_type_read = RouteType::try_from(fields);
        let sort_order_read = parse_optional_field(fields.text("route_sort_order"), parse_usize);
        let route_id = match fields.owned_text("route_id") {
            Some(id) => id,
            None => {
                return Err(RouteLoadError::RouteIdRequired);
            },
        };
        let name = match RouteName::try_from(fields) {
            Ok(name) => name,
            Err(e) => {
                return Err(RouteLoadError::RouteNameError(e));
            },
        };
        let route_type = match route_type_read {
            Ok(route_type) => route_type,
            Err(e) => {
                return Err(RouteLoadError::RouteTypeError(e));
            },
        };
        let route_color = match read_color(fields, "route_color") {
            Ok(color) => color,
            Err(e) => {
                return Err(RouteLoadError::ParseRouteColorError(e));
            },
        };
        let route_text_color = match read_color(fields, "route_text_color") {
            Ok(color) => color,
            Err(e) => {
                return Err(RouteLoadError::ParseRouteTextColorError(e));
            },
        };
        let route_sort_order = match sort_order_read {
            Ok(order) => order,
            Err(e) => {
                return Err(RouteLoadError::ParseRouteSortOrderError(e));
            },
        };
        let continuous_pickup = match read_continuity(fields, "continuous_pickup") {
            Ok(policy) => policy,
            Err(e) => {
                return Err(RouteLoadError::InvalidContinuousPickup(e));
            },
        };
        let continuous_drop_off = match read_continuity(fields, "continuous_drop_off") {
            Ok(policy) => policy,
            Err(e) => {
                return Err(RouteLoadError::InvalidContinuousDropOff(e));
            },
        };
        Ok(
            Route {
                route_id,
                agency_id: fields.owned_text("agency_id"),
                name,
                route_desc: fields.owned_text("route_desc"),
                route_type,
                route_url: fields.owned_text("route_url"),
                route_color,
                route_text_color,
                route_sort_order,
                continuous_pickup,
                continuous_drop_off,
                network_id: fields.owned_text("network_id"),
            },
        )
    }
}

impl FromFields for Route {
    type Fault = RouteLoadError;

    open spec fn accepts(fields: Map<Seq<char>, Cell>) -> bool {
        route_accepted(fields)
    }

    open spec fn loads(fields: Map<Seq<char>, Cell>, outcome: Result<Route, RouteLoadError>) -> bool {
        route_loads(fields, outcome)
    }

    open spec fn reads(fields: Map<Seq<char>, Cell>) -> bool {
        route_reads(fields)
    }

    fn from_fields(fields: &Fields) -> (outcome: Result<Route, RouteLoadError>)
        ensures
            Self::loads(fields@, outcome),
            outcome is Ok <==> Self::accepts(fields@),
            Self::reads(fields@),
    {
        Route::try_from(fields)
    }
}

/// Why the table of routes could not be read.
#[derive(Debug)]
pub enum RoutesCsvLoadError {
    NoHeader,
    RouteLoadError(RouteLoadError),
    CSVReadError(String),
}

impl RoutesCsvLoadError {
    /// The message of the error.
    pub open spec fn text(&self) -> Seq<char> {
        match self {
            RoutesCsvLoadError::NoHeader => "No header found"@,
            RoutesCsvLoadError::RouteLoadError(e) => "Error loading route: "@ + e.text(),
            RoutesCsvLoadError::CSVReadError(e) => "Error reading CSV: "@ + e@,
        }
    }

    /// The message of the error.
    pub fn to_string(&self) -> (message: String)
        ensures
            message@ == self.text(),
    {
        match self {
            RoutesCsvLoadError::NoHeader => String::from_str("No header found"),
            RoutesCsvLoadError::RouteLoadError(e) => join2(
                "Error loading route: ",
                e.to_string().as_str(),
            ),
            RoutesCsvLoadError::CSVReadError(e) => join2("Error reading CSV: ", e.as_str()),
        }
    }

    /// The error as a fault of the table.
    pub open spec fn fault(self) -> TableFault<RouteLoadError> {
        match self {
            RoutesCsvLoadError::NoHeader => TableFault::NoHeader,
            RoutesCsvLoadError::RouteLoadError(e) => TableFault::Record(e),
            RoutesCsvLoadError::CSVReadError(e) => TableFault::Read(e),
        }
    }
}

impl Routes {
    /// Reads the routes of a table from its header and rows: the route of
    /// each row is put into the collection in the order of the rows, so that
    /// of routes with one identifier the last counts. The first row that
    /// could not be read or is refused ends the reading.
    pub fn try_from(header: &Option<Vec<String>>, rows: &Vec<Result<Vec<Cell>, String>>) -> (outcome:
        Result<Routes, RoutesCsvLoadError>)
        ensures
            match outcome {
                Ok(routes) => routes.keyed() && exists|loaded: Vec<Route>| #[trigger]
                    rows_load::<Route>(*header, rows@, Ok(loaded)) && routes@ == placed_all(
                        loaded@,
                    ),
                Err(e) => rows_load::<Route>(*header, rows@, Err(e.fault())),
            },
    {
        match load_rows::<Route>(header, rows) {
            Ok(loaded) => {
                let routes = place_all(&loaded);
                Ok(Routes { routes })
            },
            Err(TableFault::NoHeader) => Err(RoutesCsvLoadError::NoHeader),
            Err(TableFault::Record(e)) => Err(RoutesCsvLoadError::RouteLoadError(e)),
            Err(TableFault::Read(e)) => Err(RoutesCsvLoadError::CSVReadError(e)),
        }
    }
}

} // verus!
