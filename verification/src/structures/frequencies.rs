//! Headway-based service: trips that repeat on an interval.

use vstd::prelude::*;

use crate::error::{Error, ErrorV};
use crate::table::{
    field_of, raw_field, req_string, req_time, req_u64, spec_req_str, spec_req_time,
    spec_req_uint, TableRow,
};
use crate::text::str_eq;

verus! {

/// The kind of headway-based service.
#[derive(Debug, Copy, Clone, PartialEq, Eq, Structural)]
pub enum ServiceType {
    /// Frequency-based trips.
    FrequencyBased,
    /// Schedule-based trips with the exact same headway all day.
    ScheduleBased,
}

impl Default for ServiceType {
    fn default() -> (r: Self)
        ensures
            r == ServiceType::FrequencyBased,
    {
        ServiceType::FrequencyBased
    }
}

/// The exact-times field: an absent column is frequency-based service, and
/// the two codes are strict.
pub open spec fn spec_service_type_field(
    h: Seq<Seq<char>>,
    r: Seq<Seq<char>>,
    name: Seq<char>,
) -> Result<ServiceType, ErrorV> {
    match field_of(h, r, name) {
        Some(t) => if t == "0"@ {
            Ok(ServiceType::FrequencyBased)
        } else if t == "1"@ {
            Ok(ServiceType::ScheduleBased)
        } else {
            Err(ErrorV::InvalidValue(t))
        },
        None => Ok(ServiceType::FrequencyBased),
    }
}

#[derive(Debug)]
pub struct Frequency {
    /// The trip the headway applies to.
    pub trip_id: String,
    /// When the first vehicle departs with this headway, in seconds.
    pub start_time: u64,
    /// When service changes to another headway or ceases, in seconds.
    pub end_time: u64,
    /// Seconds between departures from the same stop.
    pub headway_secs: u64,
    /// The kind of service.
    pub exact_times: ServiceType,
}

impl TableRow for Frequency {
    open spec fn row_ok(h: Seq<Seq<char>>, r: Seq<Seq<char>>) -> bool {
        &&& spec_req_str(h, r, "trip_id"@) is Ok
        &&& spec_req_time(h, r, "start_time"@) is Ok
        &&& spec_req_time(h, r, "end_time"@) is Ok
        &&& spec_req_uint(h, r, "headway_secs"@, u64::MAX as int) is Ok
        &&& spec_service_type_field(h, r, "exact_times"@) is Ok
    }

    open spec fn row_err(h: Seq<Seq<char>>, r: Seq<Seq<char>>) -> ErrorV {
        if spec_req_str(h, r, "trip_id"@) is Err {
            spec_req_str(h, r, "trip_id"@)->Err_0
        } else if spec_req_time(h, r, "start_time"@) is Err {
            spec_req_time(h, r, "start_time"@)->Err_0
        } else if spec_req_time(h, r, "end_time"@) is Err {
            spec_req_time(h, r, "end_time"@)->Err_0
        } else if spec_req_uint(h, r, "headway_secs"@, u64::MAX as int) is Err {
            spec_req_uint(h, r, "headway_secs"@, u64::MAX as int)->Err_0
        } else {
            spec_service_type_field(h, r, "exact_times"@)->Err_0
        }
    }

    open spec fn row_matches(h: Seq<Seq<char>>, r: Seq<Seq<char>>, v: Frequency) -> bool {
        &&& Ok::<_, ErrorV>(v.trip_id@) == spec_req_str(h, r, "trip_id"@)
        &&& Ok::<_, ErrorV>(v.start_time as int) == spec_req_time(h, r, "start_time"@)
        &&& Ok::<_, ErrorV>(v.end_time as int) == spec_req_time(h, r, "end_time"@)
        &&& Ok::<_, ErrorV>(v.headway_secs as int) == spec_req_uint(
            h,
            r,
            "headway_secs"@,
            u64::MAX as int,
        )
        &&& Ok::<_, ErrorV>(v.exact_times) == spec_service_type_field(h, r, "exact_times"@)
    }

    fn decode_row(header: &Vec<String>, row: &Vec<String>) -> (res: Result<Frequency, Error>) {
        let trip_id = match req_string(header, row, "trip_id") {
            Ok(v) => v,
            Err(e) => return Err(e),
        };
        let start_time = match req_time(header, row, "start_time") {
            Ok(v) => v,
            Err(e) => return Err(e),
        };
        let end_time = match req_time(header, row, "end_time") {
            Ok(v) => v,
            Err(e) => return Err(e),
        };
        let headway_secs = match req_u64(header, row, "headway_secs") {
            Ok(v) => v,
            Err(e) => return Err(e),
        };
        let exact_times = match raw_field(header, row, "exact_times") {
            Some(t) => {
                if str_eq(t.as_str(), "0") {
                    ServiceType::FrequencyBased
                } else if str_eq(t.as_str(), "1") {
                    ServiceType::ScheduleBased
                } else {
                    return Err(Error::InvalidValue(t.clone()));
                }
            },
            None => ServiceType::FrequencyBased,
        };
        Ok(Frequency { trip_id, start_time, end_time, headway_secs, exact_times })
    }
}

} // verus!
