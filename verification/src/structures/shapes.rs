//! Shape points describing vehicle travel paths. Coordinates and distances
//! pass through as the raw field text; this reader takes no view of their
//! numeric value.

use vstd::prelude::*;

use crate::error::{Error, ErrorV};
use crate::table::{
    opt_string, req_string, req_usize, spec_opt_str, spec_req_str, spec_req_uint, TableRow,
};
use crate::Id;

verus! {

#[derive(Debug, Default)]
pub struct Shape {
    /// Identifies the shape.
    pub id: String,
    /// Latitude of the shape point, as the raw field text.
    pub latitude: Option<String>,
    /// Longitude of the shape point, as the raw field text.
    pub longitude: Option<String>,
    /// Order of the point along the shape.
    pub sequence: usize,
    /// Distance traveled along the shape, as the raw field text.
    pub dist_traveled: Option<String>,
}

impl Id for Shape {
    open spec fn id_spec(&self) -> Seq<char> {
        self.id@
    }

    fn id(&self) -> (r: &str) {
        self.id.as_str()
    }
}

impl TableRow for Shape {
    open spec fn row_ok(h: Seq<Seq<char>>, r: Seq<Seq<char>>) -> bool {
        &&& spec_req_str(h, r, "shape_id"@) is Ok
        &&& spec_req_uint(h, r, "shape_pt_sequence"@, usize::MAX as int) is Ok
    }

    open spec fn row_err(h: Seq<Seq<char>>, r: Seq<Seq<char>>) -> ErrorV {
        if spec_req_str(h, r, "shape_id"@) is Err {
            spec_req_str(h, r, "shape_id"@)->Err_0
        } else {
            spec_req_uint(h, r, "shape_pt_sequence"@, usize::MAX as int)->Err_0
        }
    }

    open spec fn row_matches(h: Seq<Seq<char>>, r: Seq<Seq<char>>, v: Shape) -> bool {
        &&& Ok::<_, ErrorV>(v.id@) == spec_req_str(h, r, "shape_id"@)
        &&& v.latitude.deep_view() == spec_opt_str(h, r, "shape_pt_lat"@)
        &&& v.longitude.deep_view() == spec_opt_str(h, r, "shape_pt_lon"@)
        &&& Ok::<_, ErrorV>(v.sequence as int) == spec_req_uint(
            h,
            r,
            "shape_pt_sequence"@,
            usize::MAX as int,
        )
        &&& v.dist_traveled.deep_view() == spec_opt_str(h, r, "shape_dist_traveled"@)
    }

    fn decode_row(header: &Vec<String>, row: &Vec<String>) -> (res: Result<Shape, Error>) {
        let id = match req_string(header, row, "shape_id") {
            Ok(v) => v,
            Err(e) => return Err(e),
        };
        let sequence = match req_usize(header, row, "shape_pt_sequence") {
            Ok(v) => v,
            Err(e) => return Err(e),
        };
        Ok(
            Shape {
                id,
                latitude: opt_string(header, row, "shape_pt_lat"),
                longitude: opt_string(header, row, "shape_pt_lon"),
                sequence,
                dist_traveled: opt_string(header, row, "shape_dist_traveled"),
            },
        )
    }
}

} // verus!
