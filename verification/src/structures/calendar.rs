//! Weekly service calendars: which days a service runs, over a date range.

use vstd::prelude::*;

use crate::codecs::Date;
use crate::error::{Error, ErrorV};
use crate::table::{
    bool_field, req_date, req_string, spec_bool_field, spec_req_date, spec_req_str, TableRow,
};
use crate::Id;

verus! {

#[derive(Debug)]
pub struct Calendar {
    /// Identifies the set of dates when service is available.
    pub id: String,
    /// Whether the service runs on Mondays in the range.
    pub monday: bool,
    pub tuesday: bool,
    pub wednesday: bool,
    pub thursday: bool,
    pub friday: bool,
    pub saturday: bool,
    pub sunday: bool,
    /// First service day of the interval.
    pub start_date: Date,
    /// Last service day of the interval, included.
    pub end_date: Date,
}

impl Id for Calendar {
    open spec fn id_spec(&self) -> Seq<char> {
        self.id@
    }

    fn id(&self) -> (r: &str) {
        self.id.as_str()
    }
}

impl TableRow for Calendar {
    open spec fn row_ok(h: Seq<Seq<char>>, r: Seq<Seq<char>>) -> bool {
        &&& spec_req_str(h, r, "service_id"@) is Ok
        &&& spec_bool_field(h, r, "monday"@, None) is Ok
        &&& spec_bool_field(h, r, "tuesday"@, None) is Ok
        &&& spec_bool_field(h, r, "wednesday"@, None) is Ok
        &&& spec_bool_field(h, r, "thursday"@, None) is Ok
        &&& spec_bool_field(h, r, "friday"@, None) is Ok
        &&& spec_bool_field(h, r, "saturday"@, None) is Ok
        &&& spec_bool_field(h, r, "sunday"@, None) is Ok
        &&& spec_req_date(h, r, "start_date"@) is Ok
        &&& spec_req_date(h, r, "end_date"@) is Ok
    }

    open spec fn row_err(h: Seq<Seq<char>>, r: Seq<Seq<char>>) -> ErrorV {
        if spec_req_str(h, r, "service_id"@) is Err {
            spec_req_str(h, r, "service_id"@)->Err_0
        } else if spec_bool_field(h, r, "monday"@, None) is Err {
            spec_bool_field(h, r, "monday"@, None)->Err_0
        } else if spec_bool_field(h, r, "tuesday"@, None) is Err {
            spec_bool_field(h, r, "tuesday"@, None)->Err_0
        } else if spec_bool_field(h, r, "wednesday"@, None) is Err {
            spec_bool_field(h, r, "wednesday"@, None)->Err_0
        } else if spec_bool_field(h, r, "thursday"@, None) is Err {
            spec_bool_field(h, r, "thursday"@, None)->Err_0
        } else if spec_bool_field(h, r, "friday"@, None) is Err {
            spec_bool_field(h, r, "friday"@, None)->Err_0
        } else if spec_bool_field(h, r, "saturday"@, None) is Err {
            spec_bool_field(h, r, "saturday"@, None)->Err_0
        } else if spec_bool_field(h, r, "sunday"@, None) is Err {
            spec_bool_field(h, r, "sunday"@, None)->Err_0
        } else if spec_req_date(h, r, "start_date"@) is Err {
            spec_req_date(h, r, "start_date"@)->Err_0
        } else {
            spec_req_date(h, r, "end_date"@)->Err_0
        }
    }

    open spec fn row_matches(h: Seq<Seq<char>>, r: Seq<Seq<char>>, v: Calendar) -> bool {
        &&& Ok::<_, ErrorV>(v.id@) == spec_req_str(h, r, "service_id"@)
        &&& Ok::<_, ErrorV>(v.monday) == spec_bool_field(h, r, "monday"@, None)
        &&& Ok::<_, ErrorV>(v.tuesday) == spec_bool_field(h, r, "tuesday"@, None)
        &&& Ok::<_, ErrorV>(v.wednesday) == spec_bool_field(h, r, "wednesday"@, None)
        &&& Ok::<_, ErrorV>(v.thursday) == spec_bool_field(h, r, "thursday"@, None)
        &&& Ok::<_, ErrorV>(v.friday) == spec_bool_field(h, r, "friday"@, None)
        &&& Ok::<_, ErrorV>(v.saturday) == spec_bool_field(h, r, "saturday"@, None)
        &&& Ok::<_, ErrorV>(v.sunday) == spec_bool_field(h, r, "sunday"@, None)
        &&& Ok::<_, ErrorV>(v.start_date) == spec_req_date(h, r, "start_date"@)
        &&& Ok::<_, ErrorV>(v.end_date) == spec_req_date(h, r, "end_date"@)
    }

    fn decode_row(header: &Vec<String>, row: &Vec<String>) -> (res: Result<Calendar, Error>) {
        let id = match req_string(header, row, "service_id") {
            Ok(v) => v,
            Err(e) => return Err(e),
        };
        let monday = match bool_field(header, row, "monday", None) {
            Ok(v) => v,
            Err(e) => return Err(e),
        };
        let tuesday = match bool_field(header, row, "tuesday", None) {
            Ok(v) => v,
            Err(e) => return Err(e),
        };
        let wednesday = match bool_field(header, row, "wednesday", None) {
            Ok(v) => v,
            Err(e) => return Err(e),
        };
        let thursday = match bool_field(header, row, "thursday", None) {
            Ok(v) => v,
            Err(e) => return Err(e),
        };
        let friday = match bool_field(header, row, "friday", None) {
            Ok(v) => v,
            Err(e) => return Err(e),
        };
        let saturday = match bool_field(header, row, "saturday", None) {
            Ok(v) => v,
            Err(e) => return Err(e),
        };
        let sunday = match bool_field(header, row, "sunday", None) {
            Ok(v) => v,
            Err(e) => return Err(e),
        };
        let start_date = match req_date(header, row, "start_date") {
            Ok(v) => v,
            Err(e) => return Err(e),
        };
        let end_date = match req_date(header, row, "end_date") {
            Ok(v) => v,
            Err(e) => return Err(e),
        };
        Ok(
            Calendar {
                id,
                monday,
                tuesday,
                wednesday,
                thursday,
                friday,
                saturday,
                sunday,
                start_date,
                end_date,
            },
        )
    }
}

} // verus!
