//! Connections between stops and the rules governing them.

use vstd::prelude::*;

use crate::error::{Error, ErrorV};
use crate::table::{
    field_of, opt_u64, raw_field, req_string, spec_opt_uint, spec_req_str, TableRow,
};
use crate::text::str_eq;

verus! {

/// The type of connection between two stops.
#[derive(Debug, Copy, Clone, PartialEq, Eq, Structural, Hash)]
pub enum TransferType {
    /// A recommended transfer point between routes.
    Recommended,
    /// A timed transfer: the departing vehicle waits for the arriving one.
    Timed,
    /// A transfer needing a minimum time between arrival and departure.
    TimedMinimum,
    /// Transfers are not possible here.
    NotPossible,
}

impl Default for TransferType {
    fn default() -> (r: Self)
        ensures
            r == TransferType::Recommended,
    {
        TransferType::Recommended
    }
}

/// What transfer-type text decodes to; unrecognized codes fall back to the
/// recommended transfer point without error.
pub open spec fn spec_decode_transfer_type(s: Seq<char>) -> TransferType {
    if s == "1"@ {
        TransferType::Timed
    } else if s == "2"@ {
        TransferType::TimedMinimum
    } else if s == "3"@ {
        TransferType::NotPossible
    } else {
        TransferType::Recommended
    }
}

pub fn decode_transfer_type(s: &str) -> (r: TransferType)
    ensures
        r == spec_decode_transfer_type(s@),
{
    if str_eq(s, "1") {
        TransferType::Timed
    } else if str_eq(s, "2") {
        TransferType::TimedMinimum
    } else if str_eq(s, "3") {
        TransferType::NotPossible
    } else {
        TransferType::Recommended
    }
}

/// The transfer-type field: the column is required, its codes fall back.
pub open spec fn spec_transfer_type_field(
    h: Seq<Seq<char>>,
    r: Seq<Seq<char>>,
    name: Seq<char>,
) -> Result<TransferType, ErrorV> {
    match field_of(h, r, name) {
        Some(t) => Ok(spec_decode_transfer_type(t)),
        None => Err(ErrorV::MissingField(name)),
    }
}

#[derive(Debug, Default)]
pub struct Transfer {
    /// The stop or station where the connection begins.
    pub from_stop_id: String,
    /// The stop or station where the connection ends.
    pub to_stop_id: String,
    /// The type of connection.
    pub transfer_type: TransferType,
    /// Seconds that must be available to permit the transfer.
    pub min_transfer_time: Option<u64>,
}

impl TableRow for Transfer {
    open spec fn row_ok(h: Seq<Seq<char>>, r: Seq<Seq<char>>) -> bool {
        &&& spec_req_str(h, r, "from_stop_id"@) is Ok
        &&& spec_req_str(h, r, "to_stop_id"@) is Ok
        &&& spec_transfer_type_field(h, r, "transfer_type"@) is Ok
        &&& spec_opt_uint(h, r, "min_transfer_time"@, u64::MAX as int) is Ok
    }

    open spec fn row_err(h: Seq<Seq<char>>, r: Seq<Seq<char>>) -> ErrorV {
        if spec_req_str(h, r, "from_stop_id"@) is Err {
            spec_req_str(h, r, "from_stop_id"@)->Err_0
        } else if spec_req_str(h, r, "to_stop_id"@) is Err {
            spec_req_str(h, r, "to_stop_id"@)->Err_0
        } else if spec_transfer_type_field(h, r, "transfer_type"@) is Err {
            spec_transfer_type_field(h, r, "transfer_type"@)->Err_0
        } else {
            spec_opt_uint(h, r, "min_transfer_time"@, u64::MAX as int)->Err_0
        }
    }

    open spec fn row_matches(h: Seq<Seq<char>>, r: Seq<Seq<char>>, v: Transfer) -> bool {
        &&& Ok::<_, ErrorV>(v.from_stop_id@) == spec_req_str(h, r, "from_stop_id"@)
        &&& Ok::<_, ErrorV>(v.to_stop_id@) == spec_req_str(h, r, "to_stop_id"@)
        &&& Ok::<_, ErrorV>(v.transfer_type) == spec_transfer_type_field(h, r, "transfer_type"@)
        &&& Ok::<_, ErrorV>(
            match v.min_transfer_time {
                Some(x) => Some(x as int),
                None => None,
            },
        ) == spec_opt_uint(h, r, "min_transfer_time"@, u64::MAX as int)
    }

    fn decode_row(header: &Vec<String>, row: &Vec<String>) -> (res: Result<Transfer, Error>) {
        let from_stop_id = match req_string(header, row, "from_stop_id") {
            Ok(v) => v,
            Err(e) => return Err(e),
        };
        let to_stop_id = match req_string(header, row, "to_stop_id") {
            Ok(v) => v,
            Err(e) => return Err(e),
        };
        let transfer_type = match raw_field(header, row, "transfer_type") {
            Some(t) => decode_transfer_type(t.as_str()),
            None => {
                return Err(Error::MissingField("transfer_type".to_owned()));
            },
        };
        let min_transfer_time = match opt_u64(header, row, "min_transfer_time") {
            Ok(v) => v,
            Err(e) => return Err(e),
        };
        Ok(Transfer { from_stop_id, to_stop_id, transfer_type, min_transfer_time })
    }
}

} // verus!
