//! Pathways between locations inside stations. Lengths, slopes and widths
//! pass through as the raw field text.

use vstd::prelude::*;

use crate::error::{Error, ErrorV};
use crate::table::{
    bool_field, opt_i64, opt_string, opt_u64, req_string, spec_bool_field, spec_opt_int,
    spec_opt_str, spec_opt_uint, spec_req_str, spec_req_uint, TableRow,
};
use crate::Id;

verus! {

/// The kind of pathway between two locations.
#[derive(Debug, Copy, Clone, PartialEq, Eq, Structural)]
pub enum PathwayMode {
    Walkway,
    Stairs,
    Travelator,
    Escalator,
    Elevator,
    /// A pathway into an area where proof of payment is required.
    FareGate,
    /// A pathway out of an area where proof of payment is required.
    ExitGate,
    /// An unrecognized code, carried unchanged.
    Other(u16),
}

/// The pathway mode a numeric code names; unrecognized codes are preserved as
/// the carried number.
pub open spec fn spec_pathway_mode_of(i: int) -> PathwayMode {
    if i == 1 {
        PathwayMode::Walkway
    } else if i == 2 {
        PathwayMode::Stairs
    } else if i == 3 {
        PathwayMode::Travelator
    } else if i == 4 {
        PathwayMode::Escalator
    } else if i == 5 {
        PathwayMode::Elevator
    } else if i == 6 {
        PathwayMode::FareGate
    } else if i == 7 {
        PathwayMode::ExitGate
    } else {
        PathwayMode::Other(i as u16)
    }
}

/// The canonical code of a pathway mode; a carried number replays itself.
pub open spec fn spec_encode_pathway_mode(m: PathwayMode) -> int {
    match m {
        PathwayMode::Walkway => 1,
        PathwayMode::Stairs => 2,
        PathwayMode::Travelator => 3,
        PathwayMode::Escalator => 4,
        PathwayMode::Elevator => 5,
        PathwayMode::FareGate => 6,
        PathwayMode::ExitGate => 7,
        PathwayMode::Other(i) => i as int,
    }
}

pub fn pathway_mode_of(i: u16) -> (r: PathwayMode)
    ensures
        r == spec_pathway_mode_of(i as int),
{
    match i {
        1 => PathwayMode::Walkway,
        2 => PathwayMode::Stairs,
        3 => PathwayMode::Travelator,
        4 => PathwayMode::Escalator,
        5 => PathwayMode::Elevator,
        6 => PathwayMode::FareGate,
        7 => PathwayMode::ExitGate,
        other => PathwayMode::Other(other),
    }
}

pub fn encode_pathway_mode(m: &PathwayMode) -> (r: u16)
    ensures
        r as int == spec_encode_pathway_mode(*m),
{
    match m {
        PathwayMode::Walkway => 1,
        PathwayMode::Stairs => 2,
        PathwayMode::Travelator => 3,
        PathwayMode::Escalator => 4,
        PathwayMode::Elevator => 5,
        PathwayMode::FareGate => 6,
        PathwayMode::ExitGate => 7,
        PathwayMode::Other(i) => *i,
    }
}

/// Every pathway-mode code decodes and re-encodes to itself: the seven named
/// kinds through their names, anything else through the carried number.
pub proof fn lemma_pathway_mode_round_trip(i: u16)
    ensures
        spec_encode_pathway_mode(spec_pathway_mode_of(i as int)) == i as int,
{
}

/// The pathway-mode field: a required numeric code with an open fallback.
pub open spec fn spec_pathway_mode_field(
    h: Seq<Seq<char>>,
    r: Seq<Seq<char>>,
    name: Seq<char>,
) -> Result<PathwayMode, ErrorV> {
    match spec_req_uint(h, r, name, u16::MAX as int) {
        Ok(i) => Ok(spec_pathway_mode_of(i)),
        Err(e) => Err(e),
    }
}

#[derive(Debug)]
pub struct Pathway {
    /// Identifies the pathway.
    pub id: String,
    /// The location the pathway begins at.
    pub from_stop_id: String,
    /// The location the pathway ends at.
    pub to_stop_id: String,
    /// The kind of pathway.
    pub mode: PathwayMode,
    /// Whether the pathway can be used in both directions.
    pub is_bidirectional: bool,
    /// Horizontal length in meters, as the raw field text.
    pub length: Option<String>,
    /// Seconds needed to walk through the pathway.
    pub traversal_time: Option<u64>,
    /// Number of stairs; negative counts descend.
    pub stair_count: Option<i64>,
    /// Maximum slope ratio, as the raw field text.
    pub max_slope: Option<String>,
    /// Minimum width in meters, as the raw field text.
    pub min_width: Option<String>,
    /// Signage text directing riders along the pathway.
    pub signposted_as: Option<String>,
    /// Signage text for the reverse direction.
    pub reversed_signposted_as: Option<String>,
}

impl Id for Pathway {
    open spec fn id_spec(&self) -> Seq<char> {
        self.id@
    }

    fn id(&self) -> (r: &str) {
        self.id.as_str()
    }
}

impl TableRow for Pathway {
    open spec fn row_ok(h: Seq<Seq<char>>, r: Seq<Seq<char>>) -> bool {
        &&& spec_req_str(h, r, "pathway_id"@) is Ok
        &&& spec_req_str(h, r, "from_stop_id"@) is Ok
        &&& spec_req_str(h, r, "to_stop_id"@) is Ok
        &&& spec_pathway_mode_field(h, r, "pathway_mode"@) is Ok
        &&& spec_bool_field(h, r, "is_bidirectional"@, None) is Ok
        &&& spec_opt_uint(h, r, "traversal_time"@, u64::MAX as int) is Ok
        &&& spec_opt_int(h, r, "stair_count"@) is Ok
    }

    open spec fn row_err(h: Seq<Seq<char>>, r: Seq<Seq<char>>) -> ErrorV {
        if spec_req_str(h, r, "pathway_id"@) is Err {
            spec_req_str(h, r, "pathway_id"@)->Err_0
        } else if spec_req_str(h, r, "from_stop_id"@) is Err {
            spec_req_str(h, r, "from_stop_id"@)->Err_0
        } else if spec_req_str(h, r, "to_stop_id"@) is Err {
            spec_req_str(h, r, "to_stop_id"@)->Err_0
        } else if spec_pathway_mode_field(h, r, "pathway_mode"@) is Err {
            spec_pathway_mode_field(h, r, "pathway_mode"@)->Err_0
        } else if spec_bool_field(h, r, "is_bidirectional"@, None) is Err {
            spec_bool_field(h, r, "is_bidirectional"@, None)->Err_0
        } else if spec_opt_uint(h, r, "traversal_time"@, u64::MAX as int) is Err {
            spec_opt_uint(h, r, "traversal_time"@, u64::MAX as int)->Err_0
        } else {
            spec_opt_int(h, r, "stair_count"@)->Err_0
        }
    }

    open spec fn row_matches(h: Seq<Seq<char>>, r: Seq<Seq<char>>, v: Pathway) -> bool {
        &&& Ok::<_, ErrorV>(v.id@) == spec_req_str(h, r, "pathway_id"@)
        &&& Ok::<_, ErrorV>(v.from_stop_id@) == spec_req_str(h, r, "from_stop_id"@)
        &&& Ok::<_, ErrorV>(v.to_stop_id@) == spec_req_str(h, r, "to_stop_id"@)
        &&& Ok::<_, ErrorV>(v.mode) == spec_pathway_mode_field(h, r, "pathway_mode"@)
        &&& Ok::<_, ErrorV>(v.is_bidirectional) == spec_bool_field(h, r, "is_bidirectional"@, None)
        &&& v.length.deep_view() == spec_opt_str(h, r, "length"@)
        &&& Ok::<_, ErrorV>(
            match v.traversal_time {
                Some(x) => Some(x as int),
                None => None,
            },
        ) == spec_opt_uint(h, r, "traversal_time"@, u64::MAX as int)
        &&& Ok::<_, ErrorV>(
            match v.stair_count {
                Some(x) => Some(x as int),
                None => None,
            },
        ) == spec_opt_int(h, r, "stair_count"@)
        &&& v.max_slope.deep_view() == spec_opt_str(h, r, "max_slope"@)
        &&& v.min_width.deep_view() == spec_opt_str(h, r, "min_width"@)
        &&& v.signposted_as.deep_view() == spec_opt_str(h, r, "signposted_as"@)
        &&& v.reversed_signposted_as.deep_view() == spec_opt_str(h, r, "reversed_signposted_as"@)
    }

    fn decode_row(header: &Vec<String>, row: &Vec<String>) -> (res: Result<Pathway, Error>) {
        let id = match req_string(header, row, "pathway_id") {
            Ok(v) => v,
            Err(e) => return Err(e),
        };
        let from_stop_id = match req_string(header, row, "from_stop_id") {
            Ok(v) => v,
            Err(e) => return Err(e),
        };
        let to_stop_id = match req_string(header, row, "to_stop_id") {
            Ok(v) => v,
            Err(e) => return Err(e),
        };
        let mode = match crate::table::req_u16(header, row, "pathway_mode") {
            Ok(i) => pathway_mode_of(i),
            Err(e) => return Err(e),
        };
        let is_bidirectional = match bool_field(header, row, "is_bidirectional", None) {
            Ok(v) => v,
            Err(e) => return Err(e),
        };
        let traversal_time = match opt_u64(header, row, "traversal_time") {
            Ok(v) => v,
            Err(e) => return Err(e),
        };
        let stair_count = match opt_i64(header, row, "stair_count") {
            Ok(v) => v,
            Err(e) => return Err(e),
        };
        Ok(
            Pathway {
                id,
                from_stop_id,
                to_stop_id,
                mode,
                is_bidirectional,
                length: opt_string(header, row, "length"),
                traversal_time,
                stair_count,
                max_slope: opt_string(header, row, "max_slope"),
                min_width: opt_string(header, row, "min_width"),
                signposted_as: opt_string(header, row, "signposted_as"),
                reversed_signposted_as: opt_string(header, row, "reversed_signposted_as"),
            },
        )
    }
}

} // verus!
