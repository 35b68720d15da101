//! Levels of stations, referenced from stops.

use vstd::prelude::*;

use crate::error::{Error, ErrorV};
use crate::table::{opt_string, req_i64, req_string, spec_opt_str, spec_req_int, spec_req_str, TableRow};
use crate::Id;

verus! {

#[derive(Debug, Default)]
pub struct Level {
    /// Identifies the level.
    pub id: String,
    /// Relative position of the level: ground is zero, below ground negative.
    pub index: i64,
    /// Name of the level as lettered inside the station.
    pub name: Option<String>,
}

impl Id for Level {
    open spec fn id_spec(&self) -> Seq<char> {
        self.id@
    }

    fn id(&self) -> (r: &str) {
        self.id.as_str()
    }
}

impl TableRow for Level {
    open spec fn row_ok(h: Seq<Seq<char>>, r: Seq<Seq<char>>) -> bool {
        &&& spec_req_str(h, r, "level_id"@) is Ok
        &&& spec_req_int(h, r, "level_index"@) is Ok
    }

    open spec fn row_err(h: Seq<Seq<char>>, r: Seq<Seq<char>>) -> ErrorV {
        if spec_req_str(h, r, "level_id"@) is Err {
            spec_req_str(h, r, "level_id"@)->Err_0
        } else {
            spec_req_int(h, r, "level_index"@)->Err_0
        }
    }

    open spec fn row_matches(h: Seq<Seq<char>>, r: Seq<Seq<char>>, v: Level) -> bool {
        &&& Ok::<_, ErrorV>(v.id@) == spec_req_str(h, r, "level_id"@)
        &&& Ok::<_, ErrorV>(v.index as int) == spec_req_int(h, r, "level_index"@)
        &&& v.name.deep_view() == spec_opt_str(h, r, "level_name"@)
    }

    fn decode_row(header: &Vec<String>, row: &Vec<String>) -> (res: Result<Level, Error>) {
        let id = match req_string(header, row, "level_id") {
            Ok(v) => v,
            Err(e) => return Err(e),
        };
        let index = match req_i64(header, row, "level_index") {
            Ok(v) => v,
            Err(e) => return Err(e),
        };
        Ok(Level { id, index, name: opt_string(header, row, "level_name") })
    }
}

} // verus!
