//! Service exceptions: days added to or removed from a service calendar.

use vstd::prelude::*;

use crate::codecs::Date;
use crate::error::{Error, ErrorV};
use crate::table::{field_of, raw_field, req_date, req_string, spec_req_date, spec_req_str, TableRow};
use crate::text::str_eq;

verus! {

/// Whether service is added or removed on the exception's date.
#[derive(Debug, PartialEq, Eq, Structural, Hash, Clone, Copy)]
pub enum Exception {
    /// Service has been added for the date.
    Added,
    /// Service has been removed for the date.
    Deleted,
}

/// The exception-type field: required, and strict about its two codes.
pub open spec fn spec_exception_field(
    h: Seq<Seq<char>>,
    r: Seq<Seq<char>>,
    name: Seq<char>,
) -> Result<Exception, ErrorV> {
    match field_of(h, r, name) {
        Some(t) => if t == "1"@ {
            Ok(Exception::Added)
        } else if t == "2"@ {
            Ok(Exception::Deleted)
        } else {
            Err(ErrorV::InvalidValue(t))
        },
        None => Err(ErrorV::MissingField(name)),
    }
}

#[derive(Debug)]
pub struct CalendarDate {
    /// Identifies the service the exception belongs to.
    pub service_id: String,
    /// The date of the exception.
    pub date: Date,
    /// Whether service is available on that date.
    pub exception_type: Exception,
}

impl TableRow for CalendarDate {
    open spec fn row_ok(h: Seq<Seq<char>>, r: Seq<Seq<char>>) -> bool {
        &&& spec_req_str(h, r, "service_id"@) is Ok
        &&& spec_req_date(h, r, "date"@) is Ok
        &&& spec_exception_field(h, r, "exception_type"@) is Ok
    }

    open spec fn row_err(h: Seq<Seq<char>>, r: Seq<Seq<char>>) -> ErrorV {
        if spec_req_str(h, r, "service_id"@) is Err {
            spec_req_str(h, r, "service_id"@)->Err_0
        } else if spec_req_date(h, r, "date"@) is Err {
            spec_req_date(h, r, "date"@)->Err_0
        } else {
            spec_exception_field(h, r, "exception_type"@)->Err_0
        }
    }

    open spec fn row_matches(h: Seq<Seq<char>>, r: Seq<Seq<char>>, v: CalendarDate) -> bool {
        &&& Ok::<_, ErrorV>(v.service_id@) == spec_req_str(h, r, "service_id"@)
        &&& Ok::<_, ErrorV>(v.date) == spec_req_date(h, r, "date"@)
        &&& Ok::<_, ErrorV>(v.exception_type) == spec_exception_field(h, r, "exception_type"@)
    }

    fn decode_row(header: &Vec<String>, row: &Vec<String>) -> (res: Result<CalendarDate, Error>) {
        let service_id = match req_string(header, row, "service_id") {
            Ok(v) => v,
            Err(e) => return Err(e),
        };
        let date = match req_date(header, row, "date") {
            Ok(v) => v,
            Err(e) => return Err(e),
        };
        let exception_type = match raw_field(header, row, "exception_type") {
            Some(t) => {
                if str_eq(t.as_str(), "1") {
                    Exception::Added
                } else if str_eq(t.as_str(), "2") {
                    Exception::Deleted
                } else {
                    return Err(Error::InvalidValue(t.clone()));
                }
            },
            None => {
                return Err(Error::MissingField("exception_type".to_owned()));
            },
        };
        Ok(CalendarDate { service_id, date, exception_type })
    }
}

/// The exceptions of one service, in input order.
pub open spec fn with_service_id(s: Seq<CalendarDate>, k: Seq<char>) -> Seq<CalendarDate>
    decreases s.len(),
{
    if s.len() == 0 {
        s
    } else if s[0].service_id@ == k {
        seq![s[0]] + with_service_id(s.drop_first(), k)
    } else {
        with_service_id(s.drop_first(), k)
    }
}

pub proof fn lemma_with_service_id_push(s: Seq<CalendarDate>, x: CalendarDate, k: Seq<char>)
    ensures
        with_service_id(s.push(x), k) == if x.service_id@ == k {
            with_service_id(s, k).push(x)
        } else {
            with_service_id(s, k)
        },
    decreases s.len(),
{
    if s.len() == 0 {
        assert(s.push(x).drop_first() =~= Seq::<CalendarDate>::empty());
        assert(with_service_id(Seq::<CalendarDate>::empty(), k) == Seq::<CalendarDate>::empty());
        if x.service_id@ == k {
            assert(seq![x] + Seq::<CalendarDate>::empty() =~= with_service_id(s, k).push(x));
        }
    } else {
        assert(s.push(x)[0] == s[0]);
        assert(s.push(x).drop_first() =~= s.drop_first().push(x));
        lemma_with_service_id_push(s.drop_first(), x, k);
        if s[0].service_id@ == k && x.service_id@ == k {
            assert(seq![s[0]] + with_service_id(s.drop_first(), k).push(x) =~= (seq![s[0]]
                + with_service_id(s.drop_first(), k)).push(x));
        }
    }
}

} // verus!
