//! Rules assigning fare classes to routes and zones.

use vstd::prelude::*;

use crate::error::{Error, ErrorV};
use crate::table::{opt_string, req_string, spec_opt_str, spec_req_str, TableRow};
use crate::Id;

verus! {

#[derive(Debug, Default)]
pub struct FareRule {
    /// Identifies a fare class.
    pub id: String,
    /// The route the fare class applies to.
    pub route_id: Option<String>,
    /// An origin zone of the fare class.
    pub origin_id: Option<String>,
    /// A destination zone of the fare class.
    pub destination_id: Option<String>,
    /// A zone a rider enters while using the fare class.
    pub contains_id: Option<String>,
}

impl Id for FareRule {
    open spec fn id_spec(&self) -> Seq<char> {
        self.id@
    }

    fn id(&self) -> (r: &str) {
        self.id.as_str()
    }
}

impl TableRow for FareRule {
    open spec fn row_ok(h: Seq<Seq<char>>, r: Seq<Seq<char>>) -> bool {
        spec_req_str(h, r, "fare_id"@) is Ok
    }

    open spec fn row_err(h: Seq<Seq<char>>, r: Seq<Seq<char>>) -> ErrorV {
        spec_req_str(h, r, "fare_id"@)->Err_0
    }

    open spec fn row_matches(h: Seq<Seq<char>>, r: Seq<Seq<char>>, v: FareRule) -> bool {
        &&& Ok::<_, ErrorV>(v.id@) == spec_req_str(h, r, "fare_id"@)
        &&& v.route_id.deep_view() == spec_opt_str(h, r, "route_id"@)
        &&& v.origin_id.deep_view() == spec_opt_str(h, r, "origin_id"@)
        &&& v.destination_id.deep_view() == spec_opt_str(h, r, "destination_id"@)
        &&& v.contains_id.deep_view() == spec_opt_str(h, r, "contains_id"@)
    }

    fn decode_row(header: &Vec<String>, row: &Vec<String>) -> (res: Result<FareRule, Error>) {
        let id = match req_string(header, row, "fare_id") {
            Ok(v) => v,
            Err(e) => return Err(e),
        };
        Ok(
            FareRule {
                id,
                route_id: opt_string(header, row, "route_id"),
                origin_id: opt_string(header, row, "origin_id"),
                destination_id: opt_string(header, row, "destination_id"),
                contains_id: opt_string(header, row, "contains_id"),
            },
        )
    }
}

} // verus!
