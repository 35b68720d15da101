//! Routes, their transportation mode and continuous pickup/drop-off policy.

use vstd::prelude::*;

use crate::codecs::Rgb;
use crate::error::{Error, ErrorV};
use crate::table::{
    color_field, field_of, opt_string, opt_u32, raw_field, req_string, spec_color_field,
    spec_opt_str, spec_opt_uint, spec_req_str, spec_req_uint, TableRow,
};
use crate::text::str_eq;
use crate::Id;

verus! {

/// The type of transportation used on a route. Codes 0 to 7 are the legacy
/// set; extended codes select a mode by their hundreds digit, and codes in no
/// band stay as the carried number.
#[derive(Debug, Copy, Clone, PartialEq, Eq, Structural, Hash)]
pub enum RouteType {
    Bus,
    Tramway,
    Subway,
    Rail,
    Ferry,
    CableCar,
    Gondola,
    Funicular,
    Coach,
    Air,
    Taxi,
    Other(u16),
}

impl Default for RouteType {
    fn default() -> (r: Self)
        ensures
            r == RouteType::Bus,
    {
        RouteType::Bus
    }
}

/// The mode a numeric route-type code names. The bands are matched in this
/// fixed order; a code matching several bands takes the first.
pub open spec fn spec_route_type_of(i: int) -> RouteType {
    let hundreds = i / 100;
    if i == 0 || hundreds == 9 {
        RouteType::Tramway
    } else if i == 1 || hundreds == 4 {
        RouteType::Subway
    } else if i == 2 || hundreds == 1 {
        RouteType::Rail
    } else if i == 3 || hundreds == 7 || hundreds == 8 {
        RouteType::Bus
    } else if i == 4 || hundreds == 10 || hundreds == 12 {
        RouteType::Ferry
    } else if i == 5 {
        RouteType::CableCar
    } else if i == 6 || hundreds == 13 {
        RouteType::Gondola
    } else if i == 7 || hundreds == 14 {
        RouteType::Funicular
    } else if hundreds == 2 {
        RouteType::Coach
    } else if hundreds == 11 {
        RouteType::Air
    } else if hundreds == 15 {
        RouteType::Taxi
    } else {
        RouteType::Other(i as u16)
    }
}

/// The canonical numeric code of a route type: a banded mode re-encodes as
/// its legacy code — one-way for extended codes — and a carried number
/// replays itself.
pub open spec fn spec_encode_route_type(rt: RouteType) -> int {
    match rt {
        RouteType::Tramway => 0,
        RouteType::Subway => 1,
        RouteType::Rail => 2,
        RouteType::Bus => 3,
        RouteType::Ferry => 4,
        RouteType::CableCar => 5,
        RouteType::Gondola => 6,
        RouteType::Funicular => 7,
        RouteType::Coach => 200,
        RouteType::Air => 1100,
        RouteType::Taxi => 1500,
        RouteType::Other(i) => i as int,
    }
}

pub fn route_type_of(i: u16) -> (r: RouteType)
    ensures
        r == spec_route_type_of(i as int),
{
    let hundreds = i / 100;
    if i == 0 || hundreds == 9 {
        RouteType::Tramway
    } else if i == 1 || hundreds == 4 {
        RouteType::Subway
    } else if i == 2 || hundreds == 1 {
        RouteType::Rail
    } else if i == 3 || hundreds == 7 || hundreds == 8 {
        RouteType::Bus
    } else if i == 4 || hundreds == 10 || hundreds == 12 {
        RouteType::Ferry
    } else if i == 5 {
        RouteType::CableCar
    } else if i == 6 || hundreds == 13 {
        RouteType::Gondola
    } else if i == 7 || hundreds == 14 {
        RouteType::Funicular
    } else if hundreds == 2 {
        RouteType::Coach
    } else if hundreds == 11 {
        RouteType::Air
    } else if hundreds == 15 {
        RouteType::Taxi
    } else {
        RouteType::Other(i)
    }
}

pub fn encode_route_type(rt: &RouteType) -> (r: u16)
    ensures
        r as int == spec_encode_route_type(*rt),
{
    match rt {
        RouteType::Tramway => 0,
        RouteType::Subway => 1,
        RouteType::Rail => 2,
        RouteType::Bus => 3,
        RouteType::Ferry => 4,
        RouteType::CableCar => 5,
        RouteType::Gondola => 6,
        RouteType::Funicular => 7,
        RouteType::Coach => 200,
        RouteType::Air => 1100,
        RouteType::Taxi => 1500,
        RouteType::Other(i) => *i,
    }
}

/// A code outside every band is preserved as the carried number, and
/// re-encodes to the same numeric value.
pub proof fn lemma_route_type_unknown_preserved(i: u16)
    ensures
        spec_route_type_of(i as int) matches RouteType::Other(j) ==> j == i,
        spec_route_type_of(i as int) matches RouteType::Other(j) ==> spec_encode_route_type(
            spec_route_type_of(i as int),
        ) == i as int,
{
}

/// Every named mode's canonical code decodes back to that mode.
pub proof fn lemma_route_type_named_round_trip(rt: RouteType)
    requires
        !(rt matches RouteType::Other(_)),
    ensures
        spec_route_type_of(spec_encode_route_type(rt)) == rt,
{
}

/// The route-type field: a required numeric code, banded into a mode.
pub open spec fn spec_route_type_field(
    h: Seq<Seq<char>>,
    r: Seq<Seq<char>>,
    name: Seq<char>,
) -> Result<RouteType, ErrorV> {
    match spec_req_uint(h, r, name, u16::MAX as int) {
        Ok(i) => Ok(spec_route_type_of(i)),
        Err(e) => Err(e),
    }
}

pub fn route_type_field(header: &Vec<String>, row: &Vec<String>, name: &str) -> (res: Result<
    RouteType,
    Error,
>)
    ensures
        match res {
            Ok(v) => spec_route_type_field(header.deep_view(), row.deep_view(), name@) == Ok::<
                _,
                ErrorV,
            >(v),
            Err(e) => spec_route_type_field(header.deep_view(), row.deep_view(), name@) == Err::<
                RouteType,
                _,
            >(e.deep_view()),
        },
{
    match crate::table::req_u16(header, row, name) {
        Ok(i) => Ok(route_type_of(i)),
        Err(e) => Err(e),
    }
}

/// Whether a rider can board or alight anywhere along the vehicle's path.
#[derive(Debug, Copy, Clone, PartialEq, Eq, Structural)]
pub enum ContinuousPickupDropOff {
    /// Continuous stopping pickup.
    Continuous,
    /// No continuous stopping pickup.
    NotAvailable,
    /// Must phone an agency to arrange.
    ArrangeByPhone,
    /// Must coordinate with a driver to arrange.
    CoordinateWithDriver,
}

impl Default for ContinuousPickupDropOff {
    fn default() -> (r: Self)
        ensures
            r == ContinuousPickupDropOff::NotAvailable,
    {
        ContinuousPickupDropOff::NotAvailable
    }
}

/// What continuous pickup/drop-off text decodes to; unrecognized codes fall
/// back to "not available" without error.
pub open spec fn spec_decode_continuous(s: Seq<char>) -> ContinuousPickupDropOff {
    if s == "0"@ {
        ContinuousPickupDropOff::Continuous
    } else if s == "1"@ {
        ContinuousPickupDropOff::NotAvailable
    } else if s == "2"@ {
        ContinuousPickupDropOff::ArrangeByPhone
    } else if s == "3"@ {
        ContinuousPickupDropOff::CoordinateWithDriver
    } else {
        ContinuousPickupDropOff::NotAvailable
    }
}

pub fn decode_continuous(s: &str) -> (r: ContinuousPickupDropOff)
    ensures
        r == spec_decode_continuous(s@),
{
    if str_eq(s, "0") {
        ContinuousPickupDropOff::Continuous
    } else if str_eq(s, "1") {
        ContinuousPickupDropOff::NotAvailable
    } else if str_eq(s, "2") {
        ContinuousPickupDropOff::ArrangeByPhone
    } else if str_eq(s, "3") {
        ContinuousPickupDropOff::CoordinateWithDriver
    } else {
        ContinuousPickupDropOff::NotAvailable
    }
}

/// The continuous pickup/drop-off field: an absent column is "not available".
pub open spec fn spec_continuous_field(
    h: Seq<Seq<char>>,
    r: Seq<Seq<char>>,
    name: Seq<char>,
) -> ContinuousPickupDropOff {
    match field_of(h, r, name) {
        Some(t) => spec_decode_continuous(t),
        None => ContinuousPickupDropOff::NotAvailable,
    }
}

pub(crate) fn continuous_field(header: &Vec<String>, row: &Vec<String>, name: &str) -> (r:
    ContinuousPickupDropOff)
    ensures
        r == spec_continuous_field(header.deep_view(), row.deep_view(), name@),
{
    match raw_field(header, row, name) {
        Some(t) => decode_continuous(t.as_str()),
        None => ContinuousPickupDropOff::NotAvailable,
    }
}

/// One route. The route color defaults to white and the text color to black
/// when their columns are omitted.
#[derive(Debug, Default)]
pub struct Route {
    /// Identifies the route.
    pub id: String,
    /// Agency for the route.
    pub agency_id: Option<String>,
    /// Short name of the route.
    pub short_name: String,
    /// Full name of the route.
    pub long_name: String,
    /// Description of the route.
    pub desc: Option<String>,
    /// The type of transportation used.
    pub route_type: RouteType,
    /// URL of a web page about the route.
    pub url: Option<String>,
    /// Route color designation; white when the column is omitted.
    pub route_color: Option<Rgb>,
    /// Color for text drawn against the route color; black when omitted.
    pub route_text_color: Option<Rgb>,
    /// Orders routes for presentation; smaller values first.
    pub sort_order: Option<u32>,
    /// Continuous boarding policy along the route.
    pub continuous_pickup: ContinuousPickupDropOff,
    /// Continuous alighting policy along the route.
    pub continuous_drop_off: ContinuousPickupDropOff,
}

impl Id for Route {
    open spec fn id_spec(&self) -> Seq<char> {
        self.id@
    }

    fn id(&self) -> (r: &str) {
        self.id.as_str()
    }
}

/// The default route color: white.
pub open spec fn spec_white() -> Option<Rgb> {
    Some(Rgb { r: 255, g: 255, b: 255 })
}

/// The default route text color: black.
pub open spec fn spec_black() -> Option<Rgb> {
    Some(Rgb { r: 0, g: 0, b: 0 })
}

impl TableRow for Route {
    open spec fn row_ok(h: Seq<Seq<char>>, r: Seq<Seq<char>>) -> bool {
        &&& spec_req_str(h, r, "route_id"@) is Ok
        &&& spec_req_str(h, r, "route_short_name"@) is Ok
        &&& spec_req_str(h, r, "route_long_name"@) is Ok
        &&& spec_route_type_field(h, r, "route_type"@) is Ok
        &&& spec_color_field(h, r, "route_color"@, spec_white()) is Ok
        &&& spec_color_field(h, r, "route_text_color"@, spec_black()) is Ok
        &&& spec_opt_uint(h, r, "route_sort_order"@, u32::MAX as int) is Ok
    }

    open spec fn row_err(h: Seq<Seq<char>>, r: Seq<Seq<char>>) -> ErrorV {
        if spec_req_str(h, r, "route_id"@) is Err {
            spec_req_str(h, r, "route_id"@)->Err_0
        } else if spec_req_str(h, r, "route_short_name"@) is Err {
            spec_req_str(h, r, "route_short_name"@)->Err_0
        } else if spec_req_str(h, r, "route_long_name"@) is Err {
            spec_req_str(h, r, "route_long_name"@)->Err_0
        } else if spec_route_type_field(h, r, "route_type"@) is Err {
            spec_route_type_field(h, r, "route_type"@)->Err_0
        } else if spec_color_field(h, r, "route_color"@, spec_white()) is Err {
            spec_color_field(h, r, "route_color"@, spec_white())->Err_0
        } else if spec_color_field(h, r, "route_text_color"@, spec_black()) is Err {
            spec_color_field(h, r, "route_text_color"@, spec_black())->Err_0
        } else {
            spec_opt_uint(h, r, "route_sort_order"@, u32::MAX as int)->Err_0
        }
    }

    open spec fn row_matches(h: Seq<Seq<char>>, r: Seq<Seq<char>>, v: Route) -> bool {
        &&& Ok::<_, ErrorV>(v.id@) == spec_req_str(h, r, "route_id"@)
        &&& v.agency_id.deep_view() == spec_opt_str(h, r, "agency_id"@)
        &&& Ok::<_, ErrorV>(v.short_name@) == spec_req_str(h, r, "route_short_name"@)
        &&& Ok::<_, ErrorV>(v.long_name@) == spec_req_str(h, r, "route_long_name"@)
        &&& v.desc.deep_view() == spec_opt_str(h, r, "route_desc"@)
        &&& Ok::<_, ErrorV>(v.route_type) == spec_route_type_field(h, r, "route_type"@)
        &&& v.url.deep_view() == spec_opt_str(h, r, "route_url"@)
        &&& Ok::<_, ErrorV>(v.route_color) == spec_color_field(h, r, "route_color"@, spec_white())
        &&& Ok::<_, ErrorV>(v.route_text_color) == spec_color_field(
            h,
            r,
            "route_text_color"@,
            spec_black(),
        )
        &&& Ok::<_, ErrorV>(
            match v.sort_order {
                Some(x) => Some(x as int),
                None => None,
            },
        ) == spec_opt_uint(h, r, "route_sort_order"@, u32::MAX as int)
        &&& v.continuous_pickup == spec_continuous_field(h, r, "continuous_pickup"@)
        &&& v.continuous_drop_off == spec_continuous_field(h, r, "continuous_drop_off"@)
    }

    fn decode_row(header: &Vec<String>, row: &Vec<String>) -> (res: Result<Route, Error>) {
        let id = match req_string(header, row, "route_id") {
            Ok(v) => v,
            Err(e) => return Err(e),
        };
        let short_name = match req_string(header, row, "route_short_name") {
            Ok(v) => v,
            Err(e) => return Err(e),
        };
        let long_name = match req_string(header, row, "route_long_name") {
            Ok(v) => v,
            Err(e) => return Err(e),
        };
        let route_type = match route_type_field(header, row, "route_type") {
            Ok(v) => v,
            Err(e) => return Err(e),
        };
        let route_color = match color_field(
            header,
            row,
            "route_color",
            Some(Rgb { r: 255, g: 255, b: 255 }),
        ) {
            Ok(v) => v,
            Err(e) => return Err(e),
        };
        let route_text_color = match color_field(
            header,
            row,
            "route_text_color",
            Some(Rgb { r: 0, g: 0, b: 0 }),
        ) {
            Ok(v) => v,
            Err(e) => return Err(e),
        };
        let sort_order = match opt_u32(header, row, "route_sort_order") {
            Ok(v) => v,
            Err(e) => return Err(e),
        };
        Ok(
            Route {
                id,
                agency_id: opt_string(header, row, "agency_id"),
                short_name,
                long_name,
                desc: opt_string(header, row, "route_desc"),
                route_type,
                url: opt_string(header, row, "route_url"),
                route_color,
                route_text_color,
                sort_order,
                continuous_pickup: continuous_field(header, row, "continuous_pickup"),
                continuous_drop_off: continuous_field(header, row, "continuous_drop_off"),
            },
        )
    }
}

} // verus!
