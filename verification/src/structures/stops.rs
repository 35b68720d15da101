//! Stops, stations and station entrances; shared by many stop-time records.

use vstd::prelude::*;

use crate::error::{Error, ErrorV};
use crate::table::{
    field_of, opt_string, raw_field, req_string, spec_opt_str, spec_req_str, TableRow,
};
use crate::text::str_eq;
use crate::Id;

verus! {

/// Type of a location.
#[derive(Debug, Copy, Clone, PartialEq, Eq, Structural)]
pub enum StopLocationType {
    StopPoint,
    StopArea,
    StationEntrance,
    GenericNode,
    BoardingArea,
}

impl Default for StopLocationType {
    fn default() -> (r: Self)
        ensures
            r == StopLocationType::StopPoint,
    {
        StopLocationType::StopPoint
    }
}

/// What location-type text decodes to; unrecognized codes fall back to the
/// plain stop point without error.
pub open spec fn spec_decode_stop_location(s: Seq<char>) -> StopLocationType {
    if s == "1"@ {
        StopLocationType::StopArea
    } else if s == "2"@ {
        StopLocationType::StationEntrance
    } else if s == "3"@ {
        StopLocationType::GenericNode
    } else if s == "4"@ {
        StopLocationType::BoardingArea
    } else {
        StopLocationType::StopPoint
    }
}

pub fn decode_stop_location(s: &str) -> (r: StopLocationType)
    ensures
        r == spec_decode_stop_location(s@),
{
    if str_eq(s, "1") {
        StopLocationType::StopArea
    } else if str_eq(s, "2") {
        StopLocationType::StationEntrance
    } else if str_eq(s, "3") {
        StopLocationType::GenericNode
    } else if str_eq(s, "4") {
        StopLocationType::BoardingArea
    } else {
        StopLocationType::StopPoint
    }
}

/// The location-type field: an absent column is the plain stop point.
pub open spec fn spec_stop_location_field(
    h: Seq<Seq<char>>,
    r: Seq<Seq<char>>,
    name: Seq<char>,
) -> StopLocationType {
    match field_of(h, r, name) {
        Some(t) => spec_decode_stop_location(t),
        None => StopLocationType::StopPoint,
    }
}

/// Whether wheelchair boardings are possible.
#[derive(Debug, Copy, Clone, PartialEq, Eq, Structural)]
pub enum WheelchairBoardingAvailable {
    /// No accessibility information for the trip.
    InformationNotAvailable,
    /// The vehicle can accommodate at least one rider in a wheelchair.
    Available,
    /// No riders in wheelchairs can be accommodated.
    NotAvailable,
}

impl Default for WheelchairBoardingAvailable {
    fn default() -> (r: Self)
        ensures
            r == WheelchairBoardingAvailable::InformationNotAvailable,
    {
        WheelchairBoardingAvailable::InformationNotAvailable
    }
}

/// What wheelchair-boarding text decodes to; unrecognized codes fall back to
/// "information not available" without error.
pub open spec fn spec_decode_wheelchair(s: Seq<char>) -> WheelchairBoardingAvailable {
    if s == "1"@ {
        WheelchairBoardingAvailable::Available
    } else if s == "2"@ {
        WheelchairBoardingAvailable::NotAvailable
    } else {
        WheelchairBoardingAvailable::InformationNotAvailable
    }
}

pub fn decode_wheelchair(s: &str) -> (r: WheelchairBoardingAvailable)
    ensures
        r == spec_decode_wheelchair(s@),
{
    if str_eq(s, "1") {
        WheelchairBoardingAvailable::Available
    } else if str_eq(s, "2") {
        WheelchairBoardingAvailable::NotAvailable
    } else {
        WheelchairBoardingAvailable::InformationNotAvailable
    }
}

/// The wheelchair-boarding field: an absent column is "no information".
pub open spec fn spec_wheelchair_field(
    h: Seq<Seq<char>>,
    r: Seq<Seq<char>>,
    name: Seq<char>,
) -> WheelchairBoardingAvailable {
    match field_of(h, r, name) {
        Some(t) => spec_decode_wheelchair(t),
        None => WheelchairBoardingAvailable::InformationNotAvailable,
    }
}

/// A stop, station, or station entrance. Coordinates pass through as the raw
/// field text; this reader takes no view of their numeric value.
#[derive(Debug, Clone, Default)]
pub struct Stop {
    /// Identifies the stop.
    pub id: String,
    /// Short text or number identifying the location for riders.
    pub code: Option<String>,
    /// Name of the location.
    pub name: Option<String>,
    /// Description of the location.
    pub description: Option<String>,
    /// Latitude of the location, as the raw field text.
    pub latitude: Option<String>,
    /// Longitude of the location, as the raw field text.
    pub longitude: Option<String>,
    /// Fare zone of the stop.
    pub zone_id: Option<String>,
    /// URL of a web page about the location.
    pub url: Option<String>,
    /// Type of the location.
    pub location_type: StopLocationType,
    /// The parent location's identifier, where a hierarchy exists.
    pub parent_station: Option<String>,
    /// Timezone of the location.
    pub timezone: Option<String>,
    /// Whether wheelchair boardings are possible here.
    pub wheelchair_boarding: WheelchairBoardingAvailable,
    /// Level of the location.
    pub level_id: Option<String>,
    /// Platform identifier for a platform stop.
    pub platform_code: Option<String>,
}

impl Id for Stop {
    open spec fn id_spec(&self) -> Seq<char> {
        self.id@
    }

    fn id(&self) -> (r: &str) {
        self.id.as_str()
    }
}

impl TableRow for Stop {
    open spec fn row_ok(h: Seq<Seq<char>>, r: Seq<Seq<char>>) -> bool {
        spec_req_str(h, r, "stop_id"@) is Ok
    }

    open spec fn row_err(h: Seq<Seq<char>>, r: Seq<Seq<char>>) -> ErrorV {
        spec_req_str(h, r, "stop_id"@)->Err_0
    }

    open spec fn row_matches(h: Seq<Seq<char>>, r: Seq<Seq<char>>, v: Stop) -> bool {
        &&& Ok::<_, ErrorV>(v.id@) == spec_req_str(h, r, "stop_id"@)
        &&& v.code.deep_view() == spec_opt_str(h, r, "stop_code"@)
        &&& v.name.deep_view() == spec_opt_str(h, r, "stop_name"@)
        &&& v.description.deep_view() == spec_opt_str(h, r, "stop_desc"@)
        &&& v.latitude.deep_view() == spec_opt_str(h, r, "stop_lat"@)
        &&& v.longitude.deep_view() == spec_opt_str(h, r, "stop_lon"@)
        &&& v.zone_id.deep_view() == spec_opt_str(h, r, "zone_id"@)
        &&& v.url.deep_view() == spec_opt_str(h, r, "stop_url"@)
        &&& v.location_type == spec_stop_location_field(h, r, "location_type"@)
        &&& v.parent_station.deep_view() == spec_opt_str(h, r, "parent_station"@)
        &&& v.timezone.deep_view() == spec_opt_str(h, r, "stop_timezone"@)
        &&& v.wheelchair_boarding == spec_wheelchair_field(h, r, "wheelchair_boarding"@)
        &&& v.level_id.deep_view() == spec_opt_str(h, r, "level_id"@)
        &&& v.platform_code.deep_view() == spec_opt_str(h, r, "platform_code"@)
    }

    fn decode_row(header: &Vec<String>, row: &Vec<String>) -> (res: Result<Stop, Error>) {
        let id = match req_string(header, row, "stop_id") {
            Ok(v) => v,
            Err(e) => return Err(e),
        };
        let location_type = match raw_field(header, row, "location_type") {
            Some(t) => decode_stop_location(t.as_str()),
            None => StopLocationType::StopPoint,
        };
        let wheelchair_boarding = match raw_field(header, row, "wheelchair_boarding") {
            Some(t) => decode_wheelchair(t.as_str()),
            None => WheelchairBoardingAvailable::InformationNotAvailable,
        };
        Ok(
            Stop {
                id,
                code: opt_string(header, row, "stop_code"),
                name: opt_string(header, row, "stop_name"),
                description: opt_string(header, row, "stop_desc"),
                latitude: opt_string(header, row, "stop_lat"),
                longitude: opt_string(header, row, "stop_lon"),
                zone_id: opt_string(header, row, "zone_id"),
                url: opt_string(header, row, "stop_url"),
                location_type,
                parent_station: opt_string(header, row, "parent_station"),
                timezone: opt_string(header, row, "stop_timezone"),
                wheelchair_boarding,
                level_id: opt_string(header, row, "level_id"),
                platform_code: opt_string(header, row, "platform_code"),
            },
        )
    }
}

/// Relies on `Arc::clone`: hands out another handle to the same shared stop.
#[verifier::external_body]
pub(crate) fn arc_clone<T>(a: &std::sync::Arc<T>) -> (r: std::sync::Arc<T>)
    ensures
        r == *a,
{
    std::sync::Arc::clone(a)
}

} // verus!
