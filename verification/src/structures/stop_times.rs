//! Scheduled visits of trips to stops: the raw rows and the linked form that
//! shares its stop with every other visit of the same stop.

use std::sync::Arc;

use vstd::prelude::*;

use crate::error::{Error, ErrorV};
use crate::structures::routes::{
    continuous_field, spec_continuous_field, ContinuousPickupDropOff,
};
use crate::structures::stops::Stop;
use crate::table::{
    bool_field, field_of, opt_string, opt_time, raw_field, req_string, req_u16, spec_bool_field,
    spec_opt_str, spec_opt_time, spec_req_str, spec_req_uint, TableRow,
};
use crate::text::str_eq;

verus! {

/// Indicates a pickup or drop-off method.
#[derive(Debug, Copy, Clone, PartialEq, Eq, Structural)]
pub enum PickupDropOffType {
    /// Regularly scheduled pickup or drop-off.
    Regular,
    /// No pickup or drop-off available.
    NotAvailable,
    /// Must phone the agency to arrange.
    ArrangeByPhone,
    /// Must coordinate with the driver to arrange.
    CoordinateWithDriver,
}

impl Default for PickupDropOffType {
    fn default() -> (r: Self)
        ensures
            r == PickupDropOffType::Regular,
    {
        PickupDropOffType::Regular
    }
}

/// What pickup/drop-off text decodes to; unrecognized codes fall back to the
/// regular method without error.
pub open spec fn spec_decode_pickup(s: Seq<char>) -> PickupDropOffType {
    if s == "0"@ {
        PickupDropOffType::Regular
    } else if s == "1"@ {
        PickupDropOffType::NotAvailable
    } else if s == "2"@ {
        PickupDropOffType::ArrangeByPhone
    } else if s == "3"@ {
        PickupDropOffType::CoordinateWithDriver
    } else {
        PickupDropOffType::Regular
    }
}

pub fn decode_pickup(s: &str) -> (r: PickupDropOffType)
    ensures
        r == spec_decode_pickup(s@),
{
    if str_eq(s, "0") {
        PickupDropOffType::Regular
    } else if str_eq(s, "1") {
        PickupDropOffType::NotAvailable
    } else if str_eq(s, "2") {
        PickupDropOffType::ArrangeByPhone
    } else if str_eq(s, "3") {
        PickupDropOffType::CoordinateWithDriver
    } else {
        PickupDropOffType::Regular
    }
}

/// The pickup/drop-off field: an absent column is the regular method.
pub open spec fn spec_pickup_field(
    h: Seq<Seq<char>>,
    r: Seq<Seq<char>>,
    name: Seq<char>,
) -> PickupDropOffType {
    match field_of(h, r, name) {
        Some(t) => spec_decode_pickup(t),
        None => PickupDropOffType::Regular,
    }
}

fn pickup_field(header: &Vec<String>, row: &Vec<String>, name: &str) -> (r: PickupDropOffType)
    ensures
        r == spec_pickup_field(header.deep_view(), row.deep_view(), name@),
{
    match raw_field(header, row, name) {
        Some(t) => decode_pickup(t.as_str()),
        None => PickupDropOffType::Regular,
    }
}

/// The schedule adherence a stop time claims when its table omits the
/// timepoint column: times are taken as exact.
pub fn default_timepoint() -> (r: bool)
    ensures
        r == true,
{
    true
}

/// One row of the stop-times table, before linking. The shape distance passes
/// through as the raw field text.
#[derive(Debug, Default)]
pub struct RawStopTime {
    /// Identifies the owning trip.
    pub trip_id: String,
    /// Arrival time in seconds since midnight; absent on intermediate stops
    /// whose times are interpolated.
    pub arrival_time: Option<u64>,
    /// Departure time in seconds since midnight; absent where interpolated.
    pub departure_time: Option<u64>,
    /// Identifies the serviced stop.
    pub stop_id: String,
    /// Order of this stop within its trip; values increase along the trip but
    /// need not be consecutive.
    pub stop_sequence: u16,
    /// Signage text overriding the trip's headsign between stops.
    pub stop_headsign: Option<String>,
    /// Pickup method at this stop.
    pub pickup_type: PickupDropOffType,
    /// Drop-off method at this stop.
    pub drop_off_type: PickupDropOffType,
    /// Continuous boarding policy from here to the next stop time.
    pub continuous_pickup: ContinuousPickupDropOff,
    /// Continuous alighting policy from here to the next stop time.
    pub continuous_drop_off: ContinuousPickupDropOff,
    /// Distance traveled along the shape, as the raw field text.
    pub shape_dist_traveled: Option<String>,
    /// Whether times are strictly adhered to, or approximate.
    pub timepoint: bool,
}

impl TableRow for RawStopTime {
    open spec fn row_ok(h: Seq<Seq<char>>, r: Seq<Seq<char>>) -> bool {
        &&& spec_req_str(h, r, "trip_id"@) is Ok
        &&& spec_opt_time(h, r, "arrival_time"@) is Ok
        &&& spec_opt_time(h, r, "departure_time"@) is Ok
        &&& spec_req_str(h, r, "stop_id"@) is Ok
        &&& spec_req_uint(h, r, "stop_sequence"@, u16::MAX as int) is Ok
        &&& spec_bool_field(h, r, "timepoint"@, Some(true)) is Ok
    }

    open spec fn row_err(h: Seq<Seq<char>>, r: Seq<Seq<char>>) -> ErrorV {
        if spec_req_str(h, r, "trip_id"@) is Err {
            spec_req_str(h, r, "trip_id"@)->Err_0
        } else if spec_opt_time(h, r, "arrival_time"@) is Err {
            spec_opt_time(h, r, "arrival_time"@)->Err_0
        } else if spec_opt_time(h, r, "departure_time"@) is Err {
            spec_opt_time(h, r, "departure_time"@)->Err_0
        } else if spec_req_str(h, r, "stop_id"@) is Err {
            spec_req_str(h, r, "stop_id"@)->Err_0
        } else if spec_req_uint(h, r, "stop_sequence"@, u16::MAX as int) is Err {
            spec_req_uint(h, r, "stop_sequence"@, u16::MAX as int)->Err_0
        } else {
            spec_bool_field(h, r, "timepoint"@, Some(true))->Err_0
        }
    }

    open spec fn row_matches(h: Seq<Seq<char>>, r: Seq<Seq<char>>, v: RawStopTime) -> bool {
        &&& Ok::<_, ErrorV>(v.trip_id@) == spec_req_str(h, r, "trip_id"@)
        &&& Ok::<_, ErrorV>(
            match v.arrival_time {
                Some(x) => Some(x as int),
                None => None,
            },
        ) == spec_opt_time(h, r, "arrival_time"@)
        &&& Ok::<_, ErrorV>(
            match v.departure_time {
                Some(x) => Some(x as int),
                None => None,
            },
        ) == spec_opt_time(h, r, "departure_time"@)
        &&& Ok::<_, ErrorV>(v.stop_id@) == spec_req_str(h, r, "stop_id"@)
        &&& Ok::<_, ErrorV>(v.stop_sequence as int) == spec_req_uint(
            h,
            r,
            "stop_sequence"@,
            u16::MAX as int,
        )
        &&& v.stop_headsign.deep_view() == spec_opt_str(h, r, "stop_headsign"@)
        &&& v.pickup_type == spec_pickup_field(h, r, "pickup_type"@)
        &&& v.drop_off_type == spec_pickup_field(h, r, "drop_off_type"@)
        &&& v.continuous_pickup == spec_continuous_field(h, r, "continuous_pickup"@)
        &&& v.continuous_drop_off == spec_continuous_field(h, r, "continuous_drop_off"@)
        &&& v.shape_dist_traveled.deep_view() == spec_opt_str(h, r, "shape_dist_traveled"@)
        &&& Ok::<_, ErrorV>(v.timepoint) == spec_bool_field(h, r, "timepoint"@, Some(true))
    }

    fn decode_row(header: &Vec<String>, row: &Vec<String>) -> (res: Result<RawStopTime, Error>) {
        let trip_id = match req_string(header, row, "trip_id") {
            Ok(v) => v,
            Err(e) => return Err(e),
        };
        let arrival_time = match opt_time(header, row, "arrival_time") {
            Ok(v) => v,
            Err(e) => return Err(e),
        };
        let departure_time = match opt_time(header, row, "departure_time") {
            Ok(v) => v,
            Err(e) => return Err(e),
        };
        let stop_id = match req_string(header, row, "stop_id") {
            Ok(v) => v,
            Err(e) => return Err(e),
        };
        let stop_sequence = match req_u16(header, row, "stop_sequence") {
            Ok(v) => v,
            Err(e) => return Err(e),
        };
        let timepoint = match bool_field(header, row, "timepoint", Some(default_timepoint())) {
            Ok(v) => v,
            Err(e) => return Err(e),
        };
        Ok(
            RawStopTime {
                trip_id,
                arrival_time,
                departure_time,
                stop_id,
                stop_sequence,
                stop_headsign: opt_string(header, row, "stop_headsign"),
                pickup_type: pickup_field(header, row, "pickup_type"),
                drop_off_type: pickup_field(header, row, "drop_off_type"),
                continuous_pickup: continuous_field(header, row, "continuous_pickup"),
                continuous_drop_off: continuous_field(header, row, "continuous_drop_off"),
                shape_dist_traveled: opt_string(header, row, "shape_dist_traveled"),
                timepoint,
            },
        )
    }
}

/// A linked stop time: the schedule fields of its raw row, and a shared
/// handle to its stop.
#[derive(Debug)]
pub struct StopTime {
    /// Arrival time in seconds since midnight, where given.
    pub arrival_time: Option<u64>,
    /// The serviced stop, shared with every other visit of the same stop.
    pub stop: Arc<Stop>,
    /// Departure time in seconds since midnight, where given.
    pub departure_time: Option<u64>,
    /// Pickup method at this stop.
    pub pickup_type: PickupDropOffType,
    /// Drop-off method at this stop.
    pub drop_off_type: PickupDropOffType,
    /// Order of this stop within its trip.
    pub stop_sequence: u16,
    /// Signage text overriding the trip's headsign between stops.
    pub stop_headsign: Option<String>,
    /// Continuous boarding policy from here to the next stop time.
    pub continuous_pickup: ContinuousPickupDropOff,
    /// Continuous alighting policy from here to the next stop time.
    pub continuous_drop_off: ContinuousPickupDropOff,
    /// Distance traveled along the shape, as the raw field text.
    pub shape_dist_traveled: Option<String>,
    /// Whether times are strictly adhered to, or approximate.
    pub timepoint: bool,
}

/// Whether a linked stop time carries exactly its raw row's schedule fields.
pub open spec fn st_fields_match(st: StopTime, rst: RawStopTime) -> bool {
    &&& st.arrival_time == rst.arrival_time
    &&& st.departure_time == rst.departure_time
    &&& st.pickup_type == rst.pickup_type
    &&& st.drop_off_type == rst.drop_off_type
    &&& st.stop_sequence == rst.stop_sequence
    &&& st.stop_headsign.deep_view() == rst.stop_headsign.deep_view()
    &&& st.continuous_pickup == rst.continuous_pickup
    &&& st.continuous_drop_off == rst.continuous_drop_off
    &&& st.shape_dist_traveled.deep_view() == rst.shape_dist_traveled.deep_view()
    &&& st.timepoint == rst.timepoint
}

impl StopTime {
    /// Pairs a raw row's schedule fields with its shared stop.
    pub fn from(stop_time_gtfs: &RawStopTime, stop: Arc<Stop>) -> (r: Self)
        ensures
            st_fields_match(r, *stop_time_gtfs),
            r.stop == stop,
    {
        Self {
            arrival_time: stop_time_gtfs.arrival_time,
            departure_time: stop_time_gtfs.departure_time,
            stop,
            pickup_type: stop_time_gtfs.pickup_type,
            drop_off_type: stop_time_gtfs.drop_off_type,
            stop_sequence: stop_time_gtfs.stop_sequence,
            stop_headsign: match &stop_time_gtfs.stop_headsign {
                Some(s) => Some(s.clone()),
                None => None,
            },
            continuous_pickup: stop_time_gtfs.continuous_pickup,
            continuous_drop_off: stop_time_gtfs.continuous_drop_off,
            shape_dist_traveled: match &stop_time_gtfs.shape_dist_traveled {
                Some(s) => Some(s.clone()),
                None => None,
            },
            timepoint: stop_time_gtfs.timepoint,
        }
    }
}

} // verus!
