//! Trips and the relational linker: raw trip rows become trips owning their
//! ordered, dereferenced stop-time sequences.

use std::sync::Arc;

use vstd::prelude::*;

use crate::error::{Error, ErrorV};
use crate::string_map::StringMap;
use crate::structures::stop_times::{st_fields_match, RawStopTime, StopTime};
use crate::structures::stops::{
    arc_clone, spec_wheelchair_field, Stop, WheelchairBoardingAvailable,
};
use crate::table::{
    field_of, opt_string, raw_field, req_string, spec_opt_str, spec_req_str, TableRow,
};
use crate::text::str_eq;
use crate::{distinct_ids, to_map, to_map_spec, Id};

verus! {

/// The direction of travel of a trip.
#[derive(Debug, Copy, Clone, PartialEq, Eq, Structural)]
pub enum Direction {
    /// Travel in one direction, such as outbound travel.
    Outbound,
    /// Travel in the opposite direction.
    Inbound,
}

/// The direction field: optional, and strict about its two codes.
pub open spec fn spec_direction_field(
    h: Seq<Seq<char>>,
    r: Seq<Seq<char>>,
    name: Seq<char>,
) -> Result<Option<Direction>, ErrorV> {
    match field_of(h, r, name) {
        Some(t) => if t.len() == 0 {
            Ok(None)
        } else if t == "0"@ {
            Ok(Some(Direction::Outbound))
        } else if t == "1"@ {
            Ok(Some(Direction::Inbound))
        } else {
            Err(ErrorV::InvalidValue(t))
        },
        None => Ok(None),
    }
}

fn direction_field(header: &Vec<String>, row: &Vec<String>, name: &str) -> (res: Result<
    Option<Direction>,
    Error,
>)
    ensures
        match res {
            Ok(v) => spec_direction_field(header.deep_view(), row.deep_view(), name@) == Ok::<
                _,
                ErrorV,
            >(v),
            Err(e) => spec_direction_field(header.deep_view(), row.deep_view(), name@) == Err::<
                Option<Direction>,
                _,
            >(e.deep_view()),
        },
{
    match raw_field(header, row, name) {
        Some(t) => {
            if t.as_str().unicode_len() == 0 {
                Ok(None)
            } else if str_eq(t.as_str(), "0") {
                Ok(Some(Direction::Outbound))
            } else if str_eq(t.as_str(), "1") {
                Ok(Some(Direction::Inbound))
            } else {
                Err(Error::InvalidValue(t.clone()))
            }
        },
        None => Ok(None),
    }
}

/// Whether bikes are allowed on a trip.
#[derive(Debug, Copy, Clone, PartialEq, Eq, Structural)]
pub enum BikesAllowed {
    /// No bike information for the trip.
    NoBikeInfo,
    /// The vehicle can accommodate at least one bicycle.
    AtLeastOneBike,
    /// No bicycles are allowed on this trip.
    NoBikesAllowed,
}

impl Default for BikesAllowed {
    fn default() -> (r: Self)
        ensures
            r == BikesAllowed::NoBikeInfo,
    {
        BikesAllowed::NoBikeInfo
    }
}

/// What bikes-allowed text decodes to; unrecognized codes fall back to "no
/// bike information" without error.
pub open spec fn spec_decode_bikes(s: Seq<char>) -> BikesAllowed {
    if s == "1"@ {
        BikesAllowed::AtLeastOneBike
    } else if s == "2"@ {
        BikesAllowed::NoBikesAllowed
    } else {
        BikesAllowed::NoBikeInfo
    }
}

pub fn decode_bikes(s: &str) -> (r: BikesAllowed)
    ensures
        r == spec_decode_bikes(s@),
{
    if str_eq(s, "1") {
        BikesAllowed::AtLeastOneBike
    } else if str_eq(s, "2") {
        BikesAllowed::NoBikesAllowed
    } else {
        BikesAllowed::NoBikeInfo
    }
}

/// The bikes-allowed field: an absent column is "no bike information".
pub open spec fn spec_bikes_field(
    h: Seq<Seq<char>>,
    r: Seq<Seq<char>>,
    name: Seq<char>,
) -> BikesAllowed {
    match field_of(h, r, name) {
        Some(t) => spec_decode_bikes(t),
        None => BikesAllowed::NoBikeInfo,
    }
}

/// One row of the trips table, before linking.
#[derive(Debug, Default)]
pub struct RawTrip {
    /// Identifies the route the trip belongs to.
    pub route_id: String,
    /// Identifies the trip.
    pub id: String,
    /// Identifies the set of dates when service is available.
    pub service_id: String,
    /// Signage text identifying the trip's destination.
    pub headsign: Option<String>,
    /// Public facing text identifying the trip to riders.
    pub short_name: Option<String>,
    /// The direction of travel.
    pub direction_id: Option<Direction>,
    /// The block of sequential trips made with one vehicle.
    pub block_id: Option<String>,
    /// The geospatial shape of the trip's travel path.
    pub shape_id: Option<String>,
    /// Wheelchair accessibility of the trip.
    pub wheelchair_accessible: WheelchairBoardingAvailable,
    /// Whether bikes are allowed.
    pub bikes_allowed: BikesAllowed,
}

impl Id for RawTrip {
    open spec fn id_spec(&self) -> Seq<char> {
        self.id@
    }

    fn id(&self) -> (r: &str) {
        self.id.as_str()
    }
}

impl TableRow for RawTrip {
    open spec fn row_ok(h: Seq<Seq<char>>, r: Seq<Seq<char>>) -> bool {
        &&& spec_req_str(h, r, "route_id"@) is Ok
        &&& spec_req_str(h, r, "trip_id"@) is Ok
        &&& spec_req_str(h, r, "service_id"@) is Ok
        &&& spec_direction_field(h, r, "direction_id"@) is Ok
    }

    open spec fn row_err(h: Seq<Seq<char>>, r: Seq<Seq<char>>) -> ErrorV {
        if spec_req_str(h, r, "route_id"@) is Err {
            spec_req_str(h, r, "route_id"@)->Err_0
        } else if spec_req_str(h, r, "trip_id"@) is Err {
            spec_req_str(h, r, "trip_id"@)->Err_0
        } else if spec_req_str(h, r, "service_id"@) is Err {
            spec_req_str(h, r, "service_id"@)->Err_0
        } else {
            spec_direction_field(h, r, "direction_id"@)->Err_0
        }
    }

    open spec fn row_matches(h: Seq<Seq<char>>, r: Seq<Seq<char>>, v: RawTrip) -> bool {
        &&& Ok::<_, ErrorV>(v.route_id@) == spec_req_str(h, r, "route_id"@)
        &&& Ok::<_, ErrorV>(v.id@) == spec_req_str(h, r, "trip_id"@)
        &&& Ok::<_, ErrorV>(v.service_id@) == spec_req_str(h, r, "service_id"@)
        &&& v.headsign.deep_view() == spec_opt_str(h, r, "trip_headsign"@)
        &&& v.short_name.deep_view() == spec_opt_str(h, r, "trip_short_name"@)
        &&& Ok::<_, ErrorV>(v.direction_id) == spec_direction_field(h, r, "direction_id"@)
        &&& v.block_id.deep_view() == spec_opt_str(h, r, "block_id"@)
        &&& v.shape_id.deep_view() == spec_opt_str(h, r, "shape_id"@)
        &&& v.wheelchair_accessible == spec_wheelchair_field(h, r, "wheelchair_accessible"@)
        &&& v.bikes_allowed == spec_bikes_field(h, r, "bikes_allowed"@)
    }

    fn decode_row(header: &Vec<String>, row: &Vec<String>) -> (res: Result<RawTrip, Error>) {
        let route_id = match req_string(header, row, "route_id") {
            Ok(v) => v,
            Err(e) => return Err(e),
        };
        let id = match req_string(header, row, "trip_id") {
            Ok(v) => v,
            Err(e) => return Err(e),
        };
        let service_id = match req_string(header, row, "service_id") {
            Ok(v) => v,
            Err(e) => return Err(e),
        };
        let direction_id = match direction_field(header, row, "direction_id") {
            Ok(v) => v,
            Err(e) => return Err(e),
        };
        let wheelchair_accessible = match raw_field(header, row, "wheelchair_accessible") {
            Some(t) => crate::structures::stops::decode_wheelchair(t.as_str()),
            None => WheelchairBoardingAvailable::InformationNotAvailable,
        };
        let bikes_allowed = match raw_field(header, row, "bikes_allowed") {
            Some(t) => decode_bikes(t.as_str()),
            None => BikesAllowed::NoBikeInfo,
        };
        Ok(
            RawTrip {
                route_id,
                id,
                service_id,
                headsign: opt_string(header, row, "trip_headsign"),
                short_name: opt_string(header, row, "trip_short_name"),
                direction_id,
                block_id: opt_string(header, row, "block_id"),
                shape_id: opt_string(header, row, "shape_id"),
                wheelchair_accessible,
                bikes_allowed,
            },
        )
    }
}

/// A trip owning its ordered, dereferenced stop-time sequence.
#[derive(Debug, Default)]
pub struct Trip {
    /// Identifies the route the trip belongs to.
    pub route_id: String,
    /// Identifies the trip.
    pub id: String,
    /// Identifies the set of dates when service is available.
    pub service_id: String,
    /// Signage text identifying the trip's destination.
    pub headsign: Option<String>,
    /// Public facing text identifying the trip to riders.
    pub short_name: Option<String>,
    /// The direction of travel.
    pub direction_id: Option<Direction>,
    /// The block of sequential trips made with one vehicle.
    pub block_id: Option<String>,
    /// The geospatial shape of the trip's travel path.
    pub shape_id: Option<String>,
    /// Wheelchair accessibility of the trip.
    pub wheelchair_accessible: WheelchairBoardingAvailable,
    /// Whether bikes are allowed.
    pub bikes_allowed: BikesAllowed,
    /// The trip's stop times, ascending by stop sequence after linking.
    pub stop_times: Vec<StopTime>,
}

impl Id for Trip {
    open spec fn id_spec(&self) -> Seq<char> {
        self.id@
    }

    fn id(&self) -> (r: &str) {
        self.id.as_str()
    }
}

/// Whether a trip carries exactly a raw row's scalar fields.
pub open spec fn trip_base_matches(t: Trip, rt: RawTrip) -> bool {
    &&& t.route_id == rt.route_id
    &&& t.id == rt.id
    &&& t.service_id == rt.service_id
    &&& t.headsign == rt.headsign
    &&& t.short_name == rt.short_name
    &&& t.direction_id == rt.direction_id
    &&& t.block_id == rt.block_id
    &&& t.shape_id == rt.shape_id
    &&& t.wheelchair_accessible == rt.wheelchair_accessible
    &&& t.bikes_allowed == rt.bikes_allowed
}

/// Carries a raw trip's scalar fields over by cloning, the stop-time
/// sequence still empty.
fn trip_from_ref(rt: &RawTrip) -> (r: Trip)
    ensures
        trip_base_matches(r, *rt),
        r.stop_times@ == Seq::<StopTime>::empty(),
{
    Trip {
        route_id: rt.route_id.clone(),
        id: rt.id.clone(),
        service_id: rt.service_id.clone(),
        headsign: match &rt.headsign {
            Some(s) => Some(s.clone()),
            None => None,
        },
        short_name: match &rt.short_name {
            Some(s) => Some(s.clone()),
            None => None,
        },
        direction_id: rt.direction_id,
        block_id: match &rt.block_id {
            Some(s) => Some(s.clone()),
            None => None,
        },
        shape_id: match &rt.shape_id {
            Some(s) => Some(s.clone()),
            None => None,
        },
        wheelchair_accessible: rt.wheelchair_accessible,
        bikes_allowed: rt.bikes_allowed,
        stop_times: Vec::new(),
    }
}

impl Trip {
    /// Carries a raw trip's scalar fields over unchanged, the stop-time
    /// sequence still empty.
    pub fn from(rt: RawTrip) -> (r: Trip)
        ensures
            trip_base_matches(r, rt),
            r.stop_times@ == Seq::<StopTime>::empty(),
    {
        Trip {
            route_id: rt.route_id,
            id: rt.id,
            service_id: rt.service_id,
            headsign: rt.headsign,
            short_name: rt.short_name,
            direction_id: rt.direction_id,
            block_id: rt.block_id,
            shape_id: rt.shape_id,
            wheelchair_accessible: rt.wheelchair_accessible,
            bikes_allowed: rt.bikes_allowed,
            stop_times: Vec::new(),
        }
    }
}

// ---------------------------------------------------------------------------
// Ordering a trip's stop times
// ---------------------------------------------------------------------------
/// Non-decreasing in stop sequence.
pub open spec fn sorted_by_stop_sequence(s: Seq<StopTime>) -> bool {
    forall|i: int, j: int|
        0 <= i <= j < s.len() ==> #[trigger] s[i].stop_sequence <= #[trigger] s[j].stop_sequence
}

/// Places an element after every element whose stop sequence is no greater:
/// the stable insertion position.
pub open spec fn insert_sorted(x: StopTime, s: Seq<StopTime>) -> Seq<StopTime>
    decreases s.len(),
{
    if s.len() == 0 {
        seq![x]
    } else if s[0].stop_sequence <= x.stop_sequence {
        seq![s[0]] + insert_sorted(x, s.drop_first())
    } else {
        seq![x] + s
    }
}

/// The stable sort of a stop-time sequence by stop sequence: each element in
/// turn is inserted after its equals.
pub open spec fn ssort(s: Seq<StopTime>) -> Seq<StopTime>
    decreases s.len(),
{
    if s.len() == 0 {
        s
    } else {
        insert_sorted(s.last(), ssort(s.drop_last()))
    }
}

proof fn lemma_insert_sorted_len(x: StopTime, s: Seq<StopTime>)
    ensures
        insert_sorted(x, s).len() == s.len() + 1,
    decreases s.len(),
{
    if s.len() > 0 && s[0].stop_sequence <= x.stop_sequence {
        lemma_insert_sorted_len(x, s.drop_first());
    }
}

proof fn lemma_insert_sorted_sorted(x: StopTime, s: Seq<StopTime>)
    requires
        sorted_by_stop_sequence(s),
    ensures
        sorted_by_stop_sequence(insert_sorted(x, s)),
    decreases s.len(),
{
    lemma_insert_sorted_len(x, s);
    if s.len() == 0 {
    } else if s[0].stop_sequence <= x.stop_sequence {
        let t = s.drop_first();
        assert(sorted_by_stop_sequence(t)) by {
            assert(forall|i: int, j: int|
                #![trigger t[i], t[j]]
                0 <= i <= j < t.len() ==> t[i] == s[i + 1] && t[j] == s[j + 1]);
        }
        lemma_insert_sorted_sorted(x, t);
        let r = insert_sorted(x, s);
        let ri = insert_sorted(x, t);
        assert(r == seq![s[0]] + ri);
        assert forall|i: int, j: int|
            0 <= i <= j < r.len() implies #[trigger] r[i].stop_sequence
            <= #[trigger] r[j].stop_sequence by {
            if i == 0 && j > 0 {
                assert(r[j] == ri[j - 1]);
                // s[0] is no greater than x and than every element of t.
                if t.len() == 0 {
                    assert(ri == seq![x]);
                } else {
                    assert(ri[0].stop_sequence >= s[0].stop_sequence || ri[0] == x);
                }
                assert(ri[0].stop_sequence >= s[0].stop_sequence || ri[0] == x);
                assert(ri[j - 1].stop_sequence >= ri[0].stop_sequence || (j - 1) == 0);
            } else if i > 0 {
                assert(r[i] == ri[i - 1] && r[j] == ri[j - 1]);
            }
        }
    }
}

/// The stop times with one stop-sequence key, in order.
pub open spec fn sts_with_key(s: Seq<StopTime>, k: int) -> Seq<StopTime>
    decreases s.len(),
{
    if s.len() == 0 {
        s
    } else if s[0].stop_sequence as int == k {
        seq![s[0]] + sts_with_key(s.drop_first(), k)
    } else {
        sts_with_key(s.drop_first(), k)
    }
}

/// The raw stop-time rows with one stop-sequence key, in order.
pub open spec fn rsts_with_key(s: Seq<RawStopTime>, k: int) -> Seq<RawStopTime>
    decreases s.len(),
{
    if s.len() == 0 {
        s
    } else if s[0].stop_sequence as int == k {
        seq![s[0]] + rsts_with_key(s.drop_first(), k)
    } else {
        rsts_with_key(s.drop_first(), k)
    }
}

/// The raw stop-time rows of one trip, in input order.
pub open spec fn trip_sts(s: Seq<RawStopTime>, tid: Seq<char>) -> Seq<RawStopTime>
    decreases s.len(),
{
    if s.len() == 0 {
        s
    } else if s[0].trip_id@ == tid {
        seq![s[0]] + trip_sts(s.drop_first(), tid)
    } else {
        trip_sts(s.drop_first(), tid)
    }
}

proof fn lemma_sts_with_key_push(s: Seq<StopTime>, x: StopTime, k: int)
    ensures
        sts_with_key(s.push(x), k) == if x.stop_sequence as int == k {
            sts_with_key(s, k).push(x)
        } else {
            sts_with_key(s, k)
        },
    decreases s.len(),
{
    if s.len() == 0 {
        assert(s.push(x).drop_first() =~= Seq::<StopTime>::empty());
        assert(sts_with_key(Seq::<StopTime>::empty(), k) == Seq::<StopTime>::empty());
        if x.stop_sequence as int == k {
            assert(seq![x] + Seq::<StopTime>::empty() =~= sts_with_key(s, k).push(x));
        }
    } else {
        assert(s.push(x)[0] == s[0]);
        assert(s.push(x).drop_first() =~= s.drop_first().push(x));
        lemma_sts_with_key_push(s.drop_first(), x, k);
        if s[0].stop_sequence as int == k && x.stop_sequence as int == k {
            assert(seq![s[0]] + sts_with_key(s.drop_first(), k).push(x) =~= (seq![s[0]]
                + sts_with_key(s.drop_first(), k)).push(x));
        }
    }
}

proof fn lemma_trip_sts_push(s: Seq<RawStopTime>, x: RawStopTime, tid: Seq<char>)
    ensures
        trip_sts(s.push(x), tid) == if x.trip_id@ == tid {
            trip_sts(s, tid).push(x)
        } else {
            trip_sts(s, tid)
        },
    decreases s.len(),
{
    if s.len() == 0 {
        assert(s.push(x).drop_first() =~= Seq::<RawStopTime>::empty());
        assert(trip_sts(Seq::<RawStopTime>::empty(), tid) == Seq::<RawStopTime>::empty());
        if x.trip_id@ == tid {
            assert(seq![x] + Seq::<RawStopTime>::empty() =~= trip_sts(s, tid).push(x));
        }
    } else {
        assert(s.push(x)[0] == s[0]);
        assert(s.push(x).drop_first() =~= s.drop_first().push(x));
        lemma_trip_sts_push(s.drop_first(), x, tid);
        if s[0].trip_id@ == tid && x.trip_id@ == tid {
            assert(seq![s[0]] + trip_sts(s.drop_first(), tid).push(x) =~= (seq![s[0]] + trip_sts(
                s.drop_first(),
                tid,
            )).push(x));
        }
    }
}

proof fn lemma_sts_with_key_none(s: Seq<StopTime>, k: int)
    requires
        forall|i: int| 0 <= i < s.len() ==> (#[trigger] s[i]).stop_sequence as int != k,
    ensures
        sts_with_key(s, k) == Seq::<StopTime>::empty(),
    decreases s.len(),
{
    if s.len() > 0 {
        let t = s.drop_first();
        assert(forall|i: int| 0 <= i < t.len() ==> (#[trigger] t[i]).stop_sequence == s[i + 1].stop_sequence);
        lemma_sts_with_key_none(t, k);
        assert(sts_with_key(s, k) =~= Seq::<StopTime>::empty());
    } else {
        assert(sts_with_key(s, k) =~= Seq::<StopTime>::empty());
    }
}

/// Inserting keeps every stop-sequence class: the class of the new element
/// gains it at the end, the others are untouched.
proof fn lemma_insert_sorted_filter(x: StopTime, s: Seq<StopTime>, k: int)
    requires
        sorted_by_stop_sequence(s),
    ensures
        sts_with_key(insert_sorted(x, s), k) == if x.stop_sequence as int == k {
            sts_with_key(s, k).push(x)
        } else {
            sts_with_key(s, k)
        },
    decreases s.len(),
{
    if s.len() == 0 {
        assert(insert_sorted(x, s) == seq![x]);
        assert(seq![x].drop_first() =~= Seq::<StopTime>::empty());
        assert(sts_with_key(Seq::<StopTime>::empty(), k) == Seq::<StopTime>::empty());
        if x.stop_sequence as int == k {
            assert(sts_with_key(insert_sorted(x, s), k) =~= sts_with_key(s, k).push(x));
        }
    } else if s[0].stop_sequence <= x.stop_sequence {
        let t = s.drop_first();
        assert(sorted_by_stop_sequence(t)) by {
            assert(forall|i: int, j: int|
                #![trigger t[i], t[j]]
                0 <= i <= j < t.len() ==> t[i] == s[i + 1] && t[j] == s[j + 1]);
        }
        lemma_insert_sorted_filter(x, t, k);
        let r = insert_sorted(x, s);
        assert(r == seq![s[0]] + insert_sorted(x, t));
        assert(r[0] == s[0]);
        assert(r.drop_first() =~= insert_sorted(x, t));
        if s[0].stop_sequence as int == k && x.stop_sequence as int == k {
            assert(seq![s[0]] + sts_with_key(t, k).push(x) =~= (seq![s[0]] + sts_with_key(
                t,
                k,
            )).push(x));
        }
    } else {
        // x goes in front: every element of s has a greater stop sequence, so
        // none is in x's class.
        let r = insert_sorted(x, s);
        assert(r == seq![x] + s);
        assert(r[0] == x);
        assert(r.drop_first() =~= s);
        if x.stop_sequence as int == k {
            assert(forall|i: int|
                0 <= i < s.len() ==> (#[trigger] s[i]).stop_sequence >= s[0].stop_sequence);
            lemma_sts_with_key_none(s, k);
            assert(sts_with_key(r, k) =~= sts_with_key(s, k).push(x));
        } else {
            assert(sts_with_key(r, k) =~= sts_with_key(s, k));
        }
    }
}

/// The stable sort is sorted.
pub proof fn lemma_ssort_sorted(s: Seq<StopTime>)
    ensures
        sorted_by_stop_sequence(ssort(s)),
    decreases s.len(),
{
    if s.len() > 0 {
        lemma_ssort_sorted(s.drop_last());
        lemma_insert_sorted_sorted(s.last(), ssort(s.drop_last()));
    }
}

/// The stable sort keeps every stop-sequence class in its input order: for
/// every key, the elements with that key come out exactly as they went in.
pub proof fn lemma_ssort_stable(s: Seq<StopTime>, k: int)
    ensures
        sts_with_key(ssort(s), k) == sts_with_key(s, k),
    decreases s.len(),
{
    if s.len() > 0 {
        let t = s.drop_last();
        lemma_ssort_stable(t, k);
        lemma_ssort_sorted(t);
        lemma_insert_sorted_filter(s.last(), ssort(t), k);
        lemma_sts_with_key_push(t, s.last(), k);
        assert(t.push(s.last()) =~= s);
    }
}

proof fn lemma_insert_sorted_at(x: StopTime, u: Seq<StopTime>, p: int)
    requires
        0 <= p <= u.len(),
        forall|j: int| 0 <= j < p ==> (#[trigger] u[j]).stop_sequence <= x.stop_sequence,
        p == u.len() || u[p].stop_sequence > x.stop_sequence,
    ensures
        insert_sorted(x, u) == u.take(p) + seq![x] + u.skip(p),
    decreases p,
{
    if p == 0 {
        if u.len() == 0 {
            assert(insert_sorted(x, u) =~= u.take(0) + seq![x] + u.skip(0));
        } else {
            assert(insert_sorted(x, u) == seq![x] + u);
            assert(seq![x] + u =~= u.take(0) + seq![x] + u.skip(0));
        }
    } else {
        let t = u.drop_first();
        assert(forall|j: int| 0 <= j < p - 1 ==> (#[trigger] t[j]).stop_sequence == u[j + 1].stop_sequence);
        lemma_insert_sorted_at(x, t, p - 1);
        assert(insert_sorted(x, u) == seq![u[0]] + insert_sorted(x, t));
        assert(seq![u[0]] + (t.take(p - 1) + seq![x] + t.skip(p - 1)) =~= u.take(p) + seq![x]
            + u.skip(p));
    }
}

// ---------------------------------------------------------------------------
// Linking
// ---------------------------------------------------------------------------
/// Whether linked stop times carry exactly the raw rows' schedule fields, in
/// the same order, each holding the shared stop its row names.
pub open spec fn sts_match(
    sts: Seq<StopTime>,
    rsts: Seq<RawStopTime>,
    stops: StringMap<Arc<Stop>>,
) -> bool {
    &&& sts.len() == rsts.len()
    &&& forall|i: int|
        #![trigger sts[i]]
        0 <= i < sts.len() ==> st_fields_match(sts[i], rsts[i]) && stops.spec_get(rsts[i].stop_id@)
            == Some(sts[i].stop)
}

/// Whether a raw stop time's foreign keys resolve: its trip among the raw
/// trips, its stop among the stops.
pub open spec fn ref_ok(rst: RawStopTime, rts: Seq<RawTrip>, stops: StringMap<Arc<Stop>>) -> bool {
    &&& to_map_spec(rts, rst.trip_id@) is Some
    &&& stops.contains_key(rst.stop_id@)
}

/// The reference error of a raw stop time: the missing trip identifier, or —
/// when the trip resolves — the missing stop identifier.
pub open spec fn ref_err_view(rst: RawStopTime, rts: Seq<RawTrip>) -> ErrorV {
    if to_map_spec(rts, rst.trip_id@) is None {
        ErrorV::ReferenceError(rst.trip_id@)
    } else {
        ErrorV::ReferenceError(rst.stop_id@)
    }
}

/// Whether one linked trip is right: its scalar fields are the winning raw
/// trip's, its stop times are non-decreasing in stop sequence, and every
/// stop-sequence class holds exactly the trip's raw rows with that key, in
/// their input order, each dereferenced to its shared stop.
pub open spec fn linked_trip_ok(
    t: Trip,
    rts: Seq<RawTrip>,
    rsts: Seq<RawStopTime>,
    stops: StringMap<Arc<Stop>>,
) -> bool {
    &&& to_map_spec(rts, t.id@) matches Some(rt) && trip_base_matches(t, rt)
    &&& sorted_by_stop_sequence(t.stop_times@)
    &&& forall|k: int|
        sts_match(
            #[trigger] sts_with_key(t.stop_times@, k),
            rsts_with_key(trip_sts(rsts, t.id@), k),
            stops,
        )
}

/// Converted trips answer identifier lookups exactly as their raw rows do.
proof fn lemma_to_map_from(ts: Seq<Trip>, rts: Seq<RawTrip>, k: Seq<char>)
    requires
        ts.len() == rts.len(),
        forall|i: int|
            #![trigger ts[i]]
            0 <= i < ts.len() ==> trip_base_matches(ts[i], rts[i]),
    ensures
        match (to_map_spec(ts, k), to_map_spec(rts, k)) {
            (Some(t), Some(rt)) => trip_base_matches(t, rt),
            (None, None) => true,
            _ => false,
        },
    decreases ts.len(),
{
    if ts.len() > 0 {
        let t2 = ts.drop_last();
        let r2 = rts.drop_last();
        assert(forall|i: int| #![trigger t2[i]] 0 <= i < t2.len() ==> t2[i] == ts[i]);
        assert(forall|i: int| 0 <= i < r2.len() ==> r2[i] == #[trigger] rts[i]);
        lemma_to_map_from(t2, r2, k);
        assert(ts.last().id@ == rts.last().id@);
    }
}

/// Converted trips keep the raw rows' distinct identifiers, in order.
proof fn lemma_distinct_ids_from(ts: Seq<Trip>, rts: Seq<RawTrip>)
    requires
        ts.len() == rts.len(),
        forall|i: int|
            #![trigger ts[i]]
            0 <= i < ts.len() ==> trip_base_matches(ts[i], rts[i]),
    ensures
        distinct_ids(ts) == distinct_ids(rts),
    decreases ts.len(),
{
    if ts.len() > 0 {
        let t2 = ts.drop_last();
        let r2 = rts.drop_last();
        assert(forall|i: int| #![trigger t2[i]] 0 <= i < t2.len() ==> t2[i] == ts[i]);
        assert(forall|i: int| 0 <= i < r2.len() ==> r2[i] == #[trigger] rts[i]);
        lemma_distinct_ids_from(t2, r2);
        assert(ts.last().id@ == rts.last().id@);
    }
}

/// Restricting matched sequences to one stop-sequence class keeps them
/// matched: the keys agree pointwise, so the classes select the same rows.
proof fn lemma_sts_match_filter(
    b: Seq<StopTime>,
    rs: Seq<RawStopTime>,
    stops: StringMap<Arc<Stop>>,
    k: int,
)
    requires
        sts_match(b, rs, stops),
    ensures
        sts_match(sts_with_key(b, k), rsts_with_key(rs, k), stops),
    decreases b.len(),
{
    if b.len() == 0 {
    } else {
        let b2 = b.drop_first();
        let r2 = rs.drop_first();
        assert(sts_match(b2, r2, stops)) by {
            assert(forall|i: int|
                #![trigger b2[i]]
                0 <= i < b2.len() ==> b2[i] == b[i + 1] && r2[i] == rs[i + 1]);
        }
        lemma_sts_match_filter(b2, r2, stops, k);
        assert(st_fields_match(b[0], rs[0]));
        if b[0].stop_sequence as int == k {
            let fb = sts_with_key(b, k);
            let fr = rsts_with_key(rs, k);
            assert(fb == seq![b[0]] + sts_with_key(b2, k));
            assert(fr == seq![rs[0]] + rsts_with_key(r2, k));
            assert(sts_match(fb, fr, stops)) by {
                assert(forall|i: int|
                    #![trigger fb[i]]
                    1 <= i < fb.len() ==> fb[i] == sts_with_key(b2, k)[i - 1] && fr[i]
                        == rsts_with_key(r2, k)[i - 1]);
                assert(fb[0] == b[0] && fr[0] == rs[0]);
            }
        }
    }
}

impl Trip {
    /// Links raw trips, raw stop times and stops into trips owning their
    /// ordered stop sequences. A stop time naming an unknown trip or stop
    /// identifier fails the whole pass with a reference error naming the
    /// first unresolved identifier, in row order; nothing partial comes back.
    /// On success the trips come out one per distinct trip identifier, in
    /// order of first appearance, each with its stop times ascending by
    /// `stop_sequence`, rows with equal keys staying in their input order.
    pub fn create_trips(
        raw_trips: Vec<RawTrip>,
        raw_stop_times: Vec<RawStopTime>,
        stops: &StringMap<Arc<Stop>>,
    ) -> (res: Result<Vec<Trip>, Error>)
        requires
            stops.wf(),
        ensures
            match res {
                Ok(v) => {
                    &&& forall|i: int|
                        0 <= i < raw_stop_times@.len() ==> ref_ok(
                            #[trigger] raw_stop_times@[i],
                            raw_trips@,
                            *stops,
                        )
                    &&& v@.map_values(|t: Trip| t.id@) == distinct_ids(raw_trips@)
                    &&& forall|j: int|
                        0 <= j < v@.len() ==> linked_trip_ok(
                            #[trigger] v@[j],
                            raw_trips@,
                            raw_stop_times@,
                            *stops,
                        )
                },
                Err(e) => exists|i: int|
                    {
                        &&& 0 <= i < raw_stop_times@.len()
                        &&& !ref_ok(#[trigger] raw_stop_times@[i], raw_trips@, *stops)
                        &&& forall|j: int|
                            0 <= j < i ==> ref_ok(#[trigger] raw_stop_times@[j], raw_trips@, *stops)
                        &&& e.deep_view() == ref_err_view(raw_stop_times@[i], raw_trips@)
                    },
            },
    {
        let ghost rts = raw_trips@;
        let ghost rsts = raw_stop_times@;
        // Convert the raw trips, carrying their scalar fields over.
        let mut converted: Vec<Trip> = Vec::new();
        let nt = raw_trips.len();
        let mut i: usize = 0;
        while i < nt
            invariant
                rts == raw_trips@,
                rsts == raw_stop_times@,
                nt == rts.len(),
                0 <= i <= nt,
                converted@.len() == i,
                forall|q: int|
                    #![trigger converted@[q]]
                    0 <= q < i ==> trip_base_matches(converted@[q], rts[q]) && converted@[q].stop_times@
                        == Seq::<StopTime>::empty(),
            decreases nt - i,
        {
            converted.push(trip_from_ref(&raw_trips[i]));
            i += 1;
        }
        let ghost ts = converted@;
        let trips = to_map(converted);
        // Check every foreign key before building anything: either all of
        // them resolve, or the first unresolved one fails the whole pass.
        let ns = raw_stop_times.len();
        let mut i2: usize = 0;
        while i2 < ns
            invariant
                rts == raw_trips@,
                ns == rsts.len(),
                raw_stop_times@ == rsts,
                rts.len() == ts.len(),
                forall|q: int|
                    #![trigger ts[q]]
                    0 <= q < ts.len() ==> trip_base_matches(ts[q], rts[q]),
                trips.wf(),
                forall|k: Seq<char>| trips.spec_get(k) == to_map_spec(ts, k),
                stops.wf(),
                0 <= i2 <= ns,
                forall|j: int| 0 <= j < i2 ==> ref_ok(#[trigger] rsts[j], rts, *stops),
            decreases ns - i2,
        {
            let rst = &raw_stop_times[i2];
            proof {
                lemma_to_map_from(ts, rts, rst.trip_id@);
            }
            if !trips.contains(rst.trip_id.as_str()) {
                let e = Error::ReferenceError(rst.trip_id.clone());
                proof {
                    assert(!ref_ok(raw_stop_times@[i2 as int], raw_trips@, *stops));
                    assert(e.deep_view() == ref_err_view(raw_stop_times@[i2 as int], raw_trips@));
                    assert(forall|j: int|
                        0 <= j < i2 ==> ref_ok(#[trigger] raw_stop_times@[j], raw_trips@, *stops));
                }
                return Err(e);
            }
            if !stops.contains(rst.stop_id.as_str()) {
                let e = Error::ReferenceError(rst.stop_id.clone());
                proof {
                    assert(!ref_ok(raw_stop_times@[i2 as int], raw_trips@, *stops));
                    assert(e.deep_view() == ref_err_view(raw_stop_times@[i2 as int], raw_trips@));
                    assert(forall|j: int|
                        0 <= j < i2 ==> ref_ok(#[trigger] raw_stop_times@[j], raw_trips@, *stops));
                }
                return Err(e);
            }
            i2 += 1;
        }
        // Fold each trip's rows in input order, then order them by stop
        // sequence, ties keeping their places.
        let m = trips.len();
        let ghost keys = trips.keys();
        let ghost vals = trips.values();
        proof {
            lemma_distinct_ids_from(ts, rts);
            assert forall|jj: int|
                0 <= jj < m implies (#[trigger] vals[jj]).id@ == keys[jj] && to_map_spec(
                ts,
                keys[jj],
            ) == Some(vals[jj]) && vals[jj].stop_times@ == Seq::<StopTime>::empty() by {
                assert(trips.spec_get(keys[jj]) == Some(vals[jj]));
                assert(to_map_spec(ts, keys[jj]) == Some(vals[jj]));
                crate::lemma_to_map_spec_id(ts, keys[jj]);
                crate::lemma_to_map_spec_mem(ts, keys[jj]);
                let w = choose|w: int| 0 <= w < ts.len() && ts[w] == vals[jj];
                assert(ts[w].stop_times@ == Seq::<StopTime>::empty());
            }
        }
        let mut tv = trips.into_values();
        let mut out: Vec<Trip> = Vec::new();
        let mut j: usize = 0;
        while j < m
            invariant
                rts == raw_trips@,
                m == keys.len(),
                vals.len() == m,
                0 <= j <= m,
                tv@ == vals.skip(j as int),
                out@.len() == j,
                stops.wf(),
                raw_stop_times@ == rsts,
                rts.len() == ts.len(),
                forall|q: int|
                    #![trigger ts[q]]
                    0 <= q < ts.len() ==> trip_base_matches(ts[q], rts[q]),
                keys == distinct_ids(rts),
                forall|q: int| 0 <= q < rsts.len() ==> ref_ok(#[trigger] rsts[q], rts, *stops),
                forall|jj: int|
                    #![trigger vals[jj]]
                    0 <= jj < m ==> vals[jj].id@ == keys[jj] && to_map_spec(ts, keys[jj]) == Some(
                        vals[jj],
                    ) && vals[jj].stop_times@ == Seq::<StopTime>::empty(),
                forall|jj: int|
                    #![trigger out@[jj]]
                    0 <= jj < j ==> linked_trip_ok(out@[jj], rts, rsts, *stops) && out@[jj].id@
                        == keys[jj],
            decreases m - j,
        {
            proof {
                assert(vals.skip(j as int)[0] == vals[j as int]);
                assert(vals.skip(j as int).subrange(1, vals.skip(j as int).len() as int)
                    =~= vals.skip(j as int + 1));
            }
            let mut t = tv.remove(0);
            let ghost tid = t.id@;
            let ns2 = raw_stop_times.len();
            let mut b: Vec<StopTime> = Vec::new();
            let mut i3: usize = 0;
            while i3 < ns2
                invariant
                    ns2 == rsts.len(),
                    raw_stop_times@ == rsts,
                    stops.wf(),
                    tid == t.id@,
                    forall|q: int| 0 <= q < rsts.len() ==> ref_ok(#[trigger] rsts[q], rts, *stops),
                    0 <= i3 <= ns2,
                    sts_match(b@, trip_sts(rsts.take(i3 as int), tid), *stops),
                decreases ns2 - i3,
            {
                let rst = &raw_stop_times[i3];
                proof {
                    assert(rsts.take(i3 + 1) =~= rsts.take(i3 as int).push(rsts[i3 as int]));
                    lemma_trip_sts_push(rsts.take(i3 as int), rsts[i3 as int], tid);
                }
                if str_eq(rst.trip_id.as_str(), t.id.as_str()) {
                    let arc = match stops.get(rst.stop_id.as_str()) {
                        Some(a) => arc_clone(a),
                        None => {
                            proof {
                                assert(ref_ok(rsts[i3 as int], rts, *stops));
                                assert(false);
                            }
                            vstd::pervasive::unreached()
                        },
                    };
                    let st = StopTime::from(rst, arc);
                    b.push(st);
                    proof {
                        let fb = b@;
                        let fr = trip_sts(rsts.take(i3 + 1), tid);
                        assert(sts_match(fb, fr, *stops)) by {
                            assert(forall|q: int|
                                #![trigger fb[q]]
                                0 <= q < fb.len() - 1 ==> fb[q] == b@.drop_last()[q] && fr[q]
                                    == trip_sts(rsts.take(i3 as int), tid)[q]);
                            assert(fb.last() == st && fr.last() == rsts[i3 as int]);
                        }
                    }
                }
                i3 += 1;
            }
            proof {
                assert(rsts.take(ns2 as int) =~= rsts);
            }
            let ghost bview = b@;
            let sorted = sort_stop_times(b);
            t.stop_times = sorted;
            proof {
                lemma_ssort_sorted(bview);
                assert forall|k: int|
                    sts_match(
                        #[trigger] sts_with_key(t.stop_times@, k),
                        rsts_with_key(trip_sts(rsts, tid), k),
                        *stops,
                    ) by {
                    lemma_ssort_stable(bview, k);
                    lemma_sts_match_filter(bview, trip_sts(rsts, tid), *stops, k);
                }
                lemma_to_map_from(ts, rts, tid);
            }
            out.push(t);
            j += 1;
        }
        proof {
            let ids = out@.map_values(|t: Trip| t.id@);
            assert(ids.len() == m);
            assert forall|q: int| 0 <= q < m implies ids[q] == distinct_ids(rts)[q] by {
                assert(ids[q] == out@[q].id@);
                assert(out@[q].id@ == keys[q]);
            }
            assert(ids =~= distinct_ids(rts));
        }
        Ok(out)
    }
}

/// Sorts stop times ascending by stop sequence, stable for equal keys.
fn sort_stop_times(v: Vec<StopTime>) -> (r: Vec<StopTime>)
    ensures
        r@ == ssort(v@),
{
    let ghost whole = v@;
    let mut v = v;
    let mut out: Vec<StopTime> = Vec::new();
    let n = v.len();
    let mut i: usize = 0;
    while i < n
        invariant
            n == whole.len(),
            0 <= i <= n,
            v@ == whole.skip(i as int),
            out@ == ssort(whole.take(i as int)),
        decreases n - i,
    {
        proof {
            assert(whole.skip(i as int)[0] == whole[i as int]);
            assert(whole.skip(i as int).subrange(1, whole.skip(i as int).len() as int) =~= whole.skip(
                i as int + 1,
            ));
        }
        let x = v.remove(0);
        let m = out.len();
        let mut p: usize = 0;
        while p < m
            invariant
                m == out@.len(),
                0 <= p <= m,
                forall|j: int| 0 <= j < p ==> (#[trigger] out@[j]).stop_sequence <= x.stop_sequence,
            ensures
                0 <= p <= m,
                forall|j: int| 0 <= j < p ==> (#[trigger] out@[j]).stop_sequence <= x.stop_sequence,
                p == m || out@[p as int].stop_sequence > x.stop_sequence,
            decreases m - p,
        {
            if out[p].stop_sequence > x.stop_sequence {
                break;
            }
            p += 1;
        }
        proof {
            lemma_insert_sorted_at(x, out@, p as int);
            assert(whole.take(i + 1).drop_last() =~= whole.take(i as int));
            assert(whole.take(i + 1).last() == whole[i as int]);
        }
        out.insert(p, x);
        proof {
            assert(out@ =~= ssort(whole.take(i as int)).take(p as int) + seq![x] + ssort(
                whole.take(i as int),
            ).skip(p as int));
            assert(out@ =~= ssort(whole.take(i + 1)));
        }
        i += 1;
    }
    proof {
        assert(whole.take(n as int) =~= whole);
    }
    out
}

} // verus!
