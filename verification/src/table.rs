//! The table decoder's row layer: name-based field lookup through the header
//! row, and the field-level helpers that apply the scalar codecs.

use vstd::prelude::*;

use crate::codecs::{
    color_text_ok, date_text_ok, spec_color_of, spec_date_of, spec_decode_bool, time_err_view,
    time_parts_ok, time_value, Date, Rgb,
};
use crate::error::{Error, ErrorV, LineError, LineErrorV};
use crate::text::{
    int_text_val, is_int_text, is_uint_text, str_eq, trim_spec, trim_start_spec, uint_text_val,
};

verus! {

// ---------------------------------------------------------------------------
// Field lookup
// ---------------------------------------------------------------------------
/// The first index of `name` in the header, or -1 when absent.
pub open spec fn field_idx(h: Seq<Seq<char>>, name: Seq<char>) -> int
    decreases h.len(),
{
    if h.len() == 0 {
        -1
    } else if h[0] == name {
        0
    } else if field_idx(h.drop_first(), name) < 0 {
        -1
    } else {
        field_idx(h.drop_first(), name) + 1
    }
}

/// A row's field under a named column: present when the name is in the header
/// and the row is long enough, the row's extra fields ignored.
pub open spec fn field_of(h: Seq<Seq<char>>, r: Seq<Seq<char>>, name: Seq<char>) -> Option<
    Seq<char>,
> {
    let i = field_idx(h, name);
    if 0 <= i < r.len() {
        Some(r[i])
    } else {
        None
    }
}

proof fn lemma_field_idx_first(h: Seq<Seq<char>>, name: Seq<char>, i: int)
    requires
        0 <= i < h.len(),
        h[i] == name,
        forall|j: int| 0 <= j < i ==> h[j] != name,
    ensures
        field_idx(h, name) == i,
    decreases i,
{
    if i == 0 {
    } else {
        let t = h.drop_first();
        assert(forall|j: int| 0 <= j < i - 1 ==> #[trigger] t[j] != name);
        lemma_field_idx_first(t, name, i - 1);
    }
}

proof fn lemma_field_idx_none(h: Seq<Seq<char>>, name: Seq<char>)
    requires
        forall|j: int| 0 <= j < h.len() ==> h[j] != name,
    ensures
        field_idx(h, name) == -1,
    decreases h.len(),
{
    if h.len() > 0 {
        let t = h.drop_first();
        assert(forall|j: int| 0 <= j < t.len() ==> #[trigger] t[j] != name);
        lemma_field_idx_none(t, name);
    }
}

/// The position of a named column in the header, scanning from the front.
pub fn find_field(header: &Vec<String>, name: &str) -> (r: Option<usize>)
    ensures
        match r {
            Some(i) => i < header@.len() && field_idx(header.deep_view(), name@) == i as int,
            None => field_idx(header.deep_view(), name@) == -1,
        },
{
    let ghost h = header.deep_view();
    let n = header.len();
    let mut i: usize = 0;
    while i < n
        invariant
            h == header.deep_view(),
            n == header@.len(),
            h.len() == n,
            0 <= i <= n,
            forall|j: int| 0 <= j < i ==> h[j] != name@,
        decreases n - i,
    {
        if str_eq(header[i].as_str(), name) {
            proof {
                assert(h[i as int] == header@[i as int]@);
                lemma_field_idx_first(h, name@, i as int);
            }
            return Some(i);
        }
        proof {
            assert(h[i as int] == header@[i as int]@);
        }
        i += 1;
    }
    proof {
        lemma_field_idx_none(h, name@);
    }
    None
}

/// The raw text of a named field, when the column exists and the row reaches it.
pub fn raw_field<'a>(header: &Vec<String>, row: &'a Vec<String>, name: &str) -> (r: Option<
    &'a String,
>)
    ensures
        match r {
            Some(v) => field_of(header.deep_view(), row.deep_view(), name@) == Some(v@),
            None => field_of(header.deep_view(), row.deep_view(), name@) is None,
        },
{
    match find_field(header, name) {
        Some(i) => {
            if i < row.len() {
                proof {
                    assert(row.deep_view()[i as int] == row@[i as int]@);
                }
                Some(&row[i])
            } else {
                None
            }
        },
        None => None,
    }
}

// ---------------------------------------------------------------------------
// Field helpers: strings
// ---------------------------------------------------------------------------
/// A required text field: its value as given, or a missing-field error.
pub open spec fn spec_req_str(h: Seq<Seq<char>>, r: Seq<Seq<char>>, name: Seq<char>) -> Result<
    Seq<char>,
    ErrorV,
> {
    match field_of(h, r, name) {
        Some(v) => Ok(v),
        None => Err(ErrorV::MissingField(name)),
    }
}

pub fn req_string(header: &Vec<String>, row: &Vec<String>, name: &str) -> (res: Result<
    String,
    Error,
>)
    ensures
        match res {
            Ok(s) => spec_req_str(header.deep_view(), row.deep_view(), name@) == Ok::<_, ErrorV>(
                s@,
            ),
            Err(e) => spec_req_str(header.deep_view(), row.deep_view(), name@) == Err::<
                Seq<char>,
                _,
            >(e.deep_view()),
        },
{
    match raw_field(header, row, name) {
        Some(v) => Ok(v.clone()),
        None => Err(Error::MissingField(name.to_owned())),
    }
}

/// An optional text field: absent columns and empty text are "no value".
pub open spec fn spec_opt_str(h: Seq<Seq<char>>, r: Seq<Seq<char>>, name: Seq<char>) -> Option<
    Seq<char>,
> {
    match field_of(h, r, name) {
        Some(v) => if v.len() > 0 {
            Some(v)
        } else {
            None
        },
        None => None,
    }
}

pub fn opt_string(header: &Vec<String>, row: &Vec<String>, name: &str) -> (res: Option<String>)
    ensures
        res.deep_view() == spec_opt_str(header.deep_view(), row.deep_view(), name@),
{
    match raw_field(header, row, name) {
        Some(v) => {
            if v.as_str().unicode_len() > 0 {
                Some(v.clone())
            } else {
                None
            }
        },
        None => None,
    }
}

// ---------------------------------------------------------------------------
// Field helpers: unsigned and signed numbers
// ---------------------------------------------------------------------------
/// A required unsigned number no greater than `max`.
pub open spec fn spec_req_uint(
    h: Seq<Seq<char>>,
    r: Seq<Seq<char>>,
    name: Seq<char>,
    max: int,
) -> Result<int, ErrorV> {
    match field_of(h, r, name) {
        Some(v) => if is_uint_text(v) && uint_text_val(v) <= max {
            Ok(uint_text_val(v))
        } else {
            Err(ErrorV::InvalidNumber(v))
        },
        None => Err(ErrorV::MissingField(name)),
    }
}

/// An optional unsigned number no greater than `max`; absent columns and
/// empty text are "no value".
pub open spec fn spec_opt_uint(
    h: Seq<Seq<char>>,
    r: Seq<Seq<char>>,
    name: Seq<char>,
    max: int,
) -> Result<Option<int>, ErrorV> {
    match field_of(h, r, name) {
        Some(v) => if v.len() == 0 {
            Ok(None)
        } else if is_uint_text(v) && uint_text_val(v) <= max {
            Ok(Some(uint_text_val(v)))
        } else {
            Err(ErrorV::InvalidNumber(v))
        },
        None => Ok(None),
    }
}

pub fn req_u64(header: &Vec<String>, row: &Vec<String>, name: &str) -> (res: Result<u64, Error>)
    ensures
        match res {
            Ok(v) => spec_req_uint(header.deep_view(), row.deep_view(), name@, u64::MAX as int)
                == Ok::<_, ErrorV>(v as int),
            Err(e) => spec_req_uint(header.deep_view(), row.deep_view(), name@, u64::MAX as int)
                == Err::<int, _>(e.deep_view()),
        },
{
    match raw_field(header, row, name) {
        Some(v) => match crate::text::parse_u64_str(v.as_str()) {
            Some(x) => Ok(x),
            None => Err(Error::InvalidNumber(v.clone())),
        },
        None => Err(Error::MissingField(name.to_owned())),
    }
}

pub fn opt_u64(header: &Vec<String>, row: &Vec<String>, name: &str) -> (res: Result<
    Option<u64>,
    Error,
>)
    ensures
        match res {
            Ok(v) => spec_opt_uint(header.deep_view(), row.deep_view(), name@, u64::MAX as int)
                == Ok::<_, ErrorV>(match v {
                Some(x) => Some(x as int),
                None => None,
            }),
            Err(e) => spec_opt_uint(header.deep_view(), row.deep_view(), name@, u64::MAX as int)
                == Err::<Option<int>, _>(e.deep_view()),
        },
{
    match raw_field(header, row, name) {
        Some(v) => {
            if v.as_str().unicode_len() == 0 {
                Ok(None)
            } else {
                match crate::text::parse_u64_str(v.as_str()) {
                    Some(x) => Ok(Some(x)),
                    None => Err(Error::InvalidNumber(v.clone())),
                }
            }
        },
        None => Ok(None),
    }
}

pub fn req_u16(header: &Vec<String>, row: &Vec<String>, name: &str) -> (res: Result<u16, Error>)
    ensures
        match res {
            Ok(v) => spec_req_uint(header.deep_view(), row.deep_view(), name@, u16::MAX as int)
                == Ok::<_, ErrorV>(v as int),
            Err(e) => spec_req_uint(header.deep_view(), row.deep_view(), name@, u16::MAX as int)
                == Err::<int, _>(e.deep_view()),
        },
{
    match raw_field(header, row, name) {
        Some(v) => match crate::text::parse_u64_str(v.as_str()) {
            Some(x) => {
                if x <= u16::MAX as u64 {
                    Ok(x as u16)
                } else {
                    Err(Error::InvalidNumber(v.clone()))
                }
            },
            None => Err(Error::InvalidNumber(v.clone())),
        },
        None => Err(Error::MissingField(name.to_owned())),
    }
}

pub fn opt_u32(header: &Vec<String>, row: &Vec<String>, name: &str) -> (res: Result<
    Option<u32>,
    Error,
>)
    ensures
        match res {
            Ok(v) => spec_opt_uint(header.deep_view(), row.deep_view(), name@, u32::MAX as int)
                == Ok::<_, ErrorV>(match v {
                Some(x) => Some(x as int),
                None => None,
            }),
            Err(e) => spec_opt_uint(header.deep_view(), row.deep_view(), name@, u32::MAX as int)
                == Err::<Option<int>, _>(e.deep_view()),
        },
{
    match raw_field(header, row, name) {
        Some(v) => {
            if v.as_str().unicode_len() == 0 {
                Ok(None)
            } else {
                match crate::text::parse_u64_str(v.as_str()) {
                    Some(x) => {
                        if x <= u32::MAX as u64 {
                            Ok(Some(x as u32))
                        } else {
                            Err(Error::InvalidNumber(v.clone()))
                        }
                    },
                    None => Err(Error::InvalidNumber(v.clone())),
                }
            }
        },
        None => Ok(None),
    }
}

pub fn req_usize(header: &Vec<String>, row: &Vec<String>, name: &str) -> (res: Result<
    usize,
    Error,
>)
    ensures
        match res {
            Ok(v) => spec_req_uint(header.deep_view(), row.deep_view(), name@, usize::MAX as int)
                == Ok::<_, ErrorV>(v as int),
            Err(e) => spec_req_uint(header.deep_view(), row.deep_view(), name@, usize::MAX as int)
                == Err::<int, _>(e.deep_view()),
        },
{
    match raw_field(header, row, name) {
        Some(v) => match crate::text::parse_u64_str(v.as_str()) {
            Some(x) => {
                if x <= usize::MAX as u64 {
                    Ok(x as usize)
                } else {
                    Err(Error::InvalidNumber(v.clone()))
                }
            },
            None => Err(Error::InvalidNumber(v.clone())),
        },
        None => Err(Error::MissingField(name.to_owned())),
    }
}

pub fn opt_usize(header: &Vec<String>, row: &Vec<String>, name: &str) -> (res: Result<
    Option<usize>,
    Error,
>)
    ensures
        match res {
            Ok(v) => spec_opt_uint(header.deep_view(), row.deep_view(), name@, usize::MAX as int)
                == Ok::<_, ErrorV>(match v {
                Some(x) => Some(x as int),
                None => None,
            }),
            Err(e) => spec_opt_uint(header.deep_view(), row.deep_view(), name@, usize::MAX as int)
                == Err::<Option<int>, _>(e.deep_view()),
        },
{
    match raw_field(header, row, name) {
        Some(v) => {
            if v.as_str().unicode_len() == 0 {
                Ok(None)
            } else {
                match crate::text::parse_u64_str(v.as_str()) {
                    Some(x) => {
                        if x <= usize::MAX as u64 {
                            Ok(Some(x as usize))
                        } else {
                            Err(Error::InvalidNumber(v.clone()))
                        }
                    },
                    None => Err(Error::InvalidNumber(v.clone())),
                }
            }
        },
        None => Ok(None),
    }
}

/// A required signed number within `i64`.
pub open spec fn spec_req_int(h: Seq<Seq<char>>, r: Seq<Seq<char>>, name: Seq<char>) -> Result<
    int,
    ErrorV,
> {
    match field_of(h, r, name) {
        Some(v) => if is_int_text(v) && i64::MIN <= int_text_val(v) <= i64::MAX {
            Ok(int_text_val(v))
        } else {
            Err(ErrorV::InvalidNumber(v))
        },
        None => Err(ErrorV::MissingField(name)),
    }
}

/// An optional signed number within `i64`.
pub open spec fn spec_opt_int(h: Seq<Seq<char>>, r: Seq<Seq<char>>, name: Seq<char>) -> Result<
    Option<int>,
    ErrorV,
> {
    match field_of(h, r, name) {
        Some(v) => if v.len() == 0 {
            Ok(None)
        } else if is_int_text(v) && i64::MIN <= int_text_val(v) <= i64::MAX {
            Ok(Some(int_text_val(v)))
        } else {
            Err(ErrorV::InvalidNumber(v))
        },
        None => Ok(None),
    }
}

pub fn req_i64(header: &Vec<String>, row: &Vec<String>, name: &str) -> (res: Result<i64, Error>)
    ensures
        match res {
            Ok(v) => spec_req_int(header.deep_view(), row.deep_view(), name@) == Ok::<_, ErrorV>(
                v as int,
            ),
            Err(e) => spec_req_int(header.deep_view(), row.deep_view(), name@) == Err::<int, _>(
                e.deep_view(),
            ),
        },
{
    match raw_field(header, row, name) {
        Some(v) => match crate::text::parse_i64_str(v.as_str()) {
            Some(x) => Ok(x),
            None => Err(Error::InvalidNumber(v.clone())),
        },
        None => Err(Error::MissingField(name.to_owned())),
    }
}

pub fn opt_i64(header: &Vec<String>, row: &Vec<String>, name: &str) -> (res: Result<
    Option<i64>,
    Error,
>)
    ensures
        match res {
            Ok(v) => spec_opt_int(header.deep_view(), row.deep_view(), name@) == Ok::<_, ErrorV>(
                match v {
                    Some(x) => Some(x as int),
                    None => None,
                },
            ),
            Err(e) => spec_opt_int(header.deep_view(), row.deep_view(), name@) == Err::<
                Option<int>,
                _,
            >(e.deep_view()),
        },
{
    match raw_field(header, row, name) {
        Some(v) => {
            if v.as_str().unicode_len() == 0 {
                Ok(None)
            } else {
                match crate::text::parse_i64_str(v.as_str()) {
                    Some(x) => Ok(Some(x)),
                    None => Err(Error::InvalidNumber(v.clone())),
                }
            }
        },
        None => Ok(None),
    }
}

// ---------------------------------------------------------------------------
// Field helpers: clock times, booleans, dates, colors
// ---------------------------------------------------------------------------
/// A required clock-time field, in total seconds.
pub open spec fn spec_req_time(h: Seq<Seq<char>>, r: Seq<Seq<char>>, name: Seq<char>) -> Result<
    int,
    ErrorV,
> {
    match field_of(h, r, name) {
        Some(v) => if time_parts_ok(trim_start_spec(v)) {
            Ok(time_value(trim_start_spec(v)))
        } else {
            Err(time_err_view(v))
        },
        None => Err(ErrorV::MissingField(name)),
    }
}

/// An optional clock-time field: absent columns and empty text are "no value".
pub open spec fn spec_opt_time(h: Seq<Seq<char>>, r: Seq<Seq<char>>, name: Seq<char>) -> Result<
    Option<int>,
    ErrorV,
> {
    match field_of(h, r, name) {
        Some(v) => if v.len() == 0 {
            Ok(None)
        } else if time_parts_ok(trim_start_spec(v)) {
            Ok(Some(time_value(trim_start_spec(v))))
        } else {
            Err(time_err_view(v))
        },
        None => Ok(None),
    }
}

pub fn req_time(header: &Vec<String>, row: &Vec<String>, name: &str) -> (res: Result<u64, Error>)
    ensures
        match res {
            Ok(v) => spec_req_time(header.deep_view(), row.deep_view(), name@) == Ok::<_, ErrorV>(
                v as int,
            ),
            Err(e) => spec_req_time(header.deep_view(), row.deep_view(), name@) == Err::<int, _>(
                e.deep_view(),
            ),
        },
{
    match raw_field(header, row, name) {
        Some(v) => crate::codecs::decode_time(v.as_str()),
        None => Err(Error::MissingField(name.to_owned())),
    }
}

pub fn opt_time(header: &Vec<String>, row: &Vec<String>, name: &str) -> (res: Result<
    Option<u64>,
    Error,
>)
    ensures
        match res {
            Ok(v) => spec_opt_time(header.deep_view(), row.deep_view(), name@) == Ok::<_, ErrorV>(
                match v {
                    Some(x) => Some(x as int),
                    None => None,
                },
            ),
            Err(e) => spec_opt_time(header.deep_view(), row.deep_view(), name@) == Err::<
                Option<int>,
                _,
            >(e.deep_view()),
        },
{
    match raw_field(header, row, name) {
        Some(v) => {
            if v.as_str().unicode_len() == 0 {
                Ok(None)
            } else {
                match crate::codecs::decode_time(v.as_str()) {
                    Ok(t) => Ok(Some(t)),
                    Err(e) => Err(e),
                }
            }
        },
        None => Ok(None),
    }
}

/// A boolean field; `if_absent` is the schema's default, `None` when the
/// column is required.
pub open spec fn spec_bool_field(
    h: Seq<Seq<char>>,
    r: Seq<Seq<char>>,
    name: Seq<char>,
    if_absent: Option<bool>,
) -> Result<bool, ErrorV> {
    match field_of(h, r, name) {
        Some(v) => match spec_decode_bool(v) {
            Some(b) => Ok(b),
            None => Err(ErrorV::InvalidValue(v)),
        },
        None => match if_absent {
            Some(d) => Ok(d),
            None => Err(ErrorV::MissingField(name)),
        },
    }
}

pub fn bool_field(header: &Vec<String>, row: &Vec<String>, name: &str, if_absent: Option<bool>) -> (res:
    Result<bool, Error>)
    ensures
        match res {
            Ok(v) => spec_bool_field(header.deep_view(), row.deep_view(), name@, if_absent)
                == Ok::<_, ErrorV>(v),
            Err(e) => spec_bool_field(header.deep_view(), row.deep_view(), name@, if_absent)
                == Err::<bool, _>(e.deep_view()),
        },
{
    match raw_field(header, row, name) {
        Some(v) => crate::codecs::decode_bool(v.as_str()),
        None => match if_absent {
            Some(d) => Ok(d),
            None => Err(Error::MissingField(name.to_owned())),
        },
    }
}

/// A required `YYYYMMDD` date field.
pub open spec fn spec_req_date(h: Seq<Seq<char>>, r: Seq<Seq<char>>, name: Seq<char>) -> Result<
    Date,
    ErrorV,
> {
    match field_of(h, r, name) {
        Some(v) => if date_text_ok(v) {
            Ok(spec_date_of(v))
        } else {
            Err(ErrorV::InvalidValue(v))
        },
        None => Err(ErrorV::MissingField(name)),
    }
}

/// An optional `YYYYMMDD` date field.
pub open spec fn spec_opt_date(h: Seq<Seq<char>>, r: Seq<Seq<char>>, name: Seq<char>) -> Result<
    Option<Date>,
    ErrorV,
> {
    match field_of(h, r, name) {
        Some(v) => if v.len() == 0 {
            Ok(None)
        } else if date_text_ok(v) {
            Ok(Some(spec_date_of(v)))
        } else {
            Err(ErrorV::InvalidValue(v))
        },
        None => Ok(None),
    }
}

pub fn req_date(header: &Vec<String>, row: &Vec<String>, name: &str) -> (res: Result<Date, Error>)
    ensures
        match res {
            Ok(v) => spec_req_date(header.deep_view(), row.deep_view(), name@) == Ok::<_, ErrorV>(
                v,
            ),
            Err(e) => spec_req_date(header.deep_view(), row.deep_view(), name@) == Err::<Date, _>(
                e.deep_view(),
            ),
        },
{
    match raw_field(header, row, name) {
        Some(v) => crate::codecs::decode_date(v.as_str()),
        None => Err(Error::MissingField(name.to_owned())),
    }
}

pub fn opt_date(header: &Vec<String>, row: &Vec<String>, name: &str) -> (res: Result<
    Option<Date>,
    Error,
>)
    ensures
        match res {
            Ok(v) => spec_opt_date(header.deep_view(), row.deep_view(), name@) == Ok::<_, ErrorV>(
                v,
            ),
            Err(e) => spec_opt_date(header.deep_view(), row.deep_view(), name@) == Err::<
                Option<Date>,
                _,
            >(e.deep_view()),
        },
{
    match raw_field(header, row, name) {
        Some(v) => {
            if v.as_str().unicode_len() == 0 {
                Ok(None)
            } else {
                match crate::codecs::decode_date(v.as_str()) {
                    Ok(d) => Ok(Some(d)),
                    Err(e) => Err(e),
                }
            }
        },
        None => Ok(None),
    }
}

/// A color field; `if_absent` is the schema's default for an omitted column.
/// Text that is present but blank is "no value", not the default.
pub open spec fn spec_color_field(
    h: Seq<Seq<char>>,
    r: Seq<Seq<char>>,
    name: Seq<char>,
    if_absent: Option<Rgb>,
) -> Result<Option<Rgb>, ErrorV> {
    match field_of(h, r, name) {
        Some(v) => {
            let t = trim_spec(v);
            if t.len() == 0 {
                Ok(None)
            } else if color_text_ok(t) {
                Ok(Some(spec_color_of(t)))
            } else {
                Err(ErrorV::InvalidColor(t))
            }
        },
        None => Ok(if_absent),
    }
}

pub fn color_field(header: &Vec<String>, row: &Vec<String>, name: &str, if_absent: Option<Rgb>) -> (res:
    Result<Option<Rgb>, Error>)
    ensures
        match res {
            Ok(v) => spec_color_field(header.deep_view(), row.deep_view(), name@, if_absent)
                == Ok::<_, ErrorV>(v),
            Err(e) => spec_color_field(header.deep_view(), row.deep_view(), name@, if_absent)
                == Err::<Option<Rgb>, _>(e.deep_view()),
        },
{
    match raw_field(header, row, name) {
        Some(v) => crate::codecs::decode_option_color(v.as_str()),
        None => Ok(if_absent),
    }
}

// ---------------------------------------------------------------------------
// Records
// ---------------------------------------------------------------------------
/// A record type of the built-in schemas: one row decodes into one record,
/// and the decoding is pinned down by the three spec functions.
pub trait TableRow: Sized {
    /// Whether the row decodes under this schema.
    spec fn row_ok(h: Seq<Seq<char>>, r: Seq<Seq<char>>) -> bool;

    /// The error produced when the row does not decode.
    spec fn row_err(h: Seq<Seq<char>>, r: Seq<Seq<char>>) -> ErrorV;

    /// Whether `v` is the record that the row decodes to.
    spec fn row_matches(h: Seq<Seq<char>>, r: Seq<Seq<char>>, v: Self) -> bool;

    fn decode_row(header: &Vec<String>, row: &Vec<String>) -> (res: Result<Self, Error>)
        ensures
            match res {
                Ok(v) => Self::row_ok(header.deep_view(), row.deep_view()) && Self::row_matches(
                    header.deep_view(),
                    row.deep_view(),
                    v,
                ),
                Err(e) => !Self::row_ok(header.deep_view(), row.deep_view()) && e.deep_view()
                    == Self::row_err(header.deep_view(), row.deep_view()),
            },
    ;
}

/// A caller-defined record shape, decoded through the same table pipeline.
/// Implementations outside this crate carry no verified contract.
pub trait FromRow: Sized {
    fn from_row(header: &Vec<String>, row: &Vec<String>) -> Result<Self, Error>;
}

/// The raw values captured for a diagnostic, normalized to the header's
/// length: missing trailing fields become empty text, extra fields are cut.
pub open spec fn normalize_spec(h: Seq<Seq<char>>, r: Seq<Seq<char>>) -> Seq<Seq<char>> {
    Seq::new(h.len(), |i: int| if i < r.len() { r[i] } else { Seq::<char>::empty() })
}

fn normalize_values(header: &Vec<String>, row: &Vec<String>) -> (out: Vec<String>)
    ensures
        out.deep_view() == normalize_spec(header.deep_view(), row.deep_view()),
{
    let n = header.len();
    let mut out: Vec<String> = Vec::new();
    let mut i: usize = 0;
    while i < n
        invariant
            n == header@.len(),
            0 <= i <= n,
            out@.len() == i,
            forall|j: int|
                0 <= j < i ==> out.deep_view()[j] == normalize_spec(
                    header.deep_view(),
                    row.deep_view(),
                )[j],
        decreases n - i,
    {
        let ghost prev = out@;
        let ghost pdv = out.deep_view();
        if i < row.len() {
            out.push(row[i].clone());
        } else {
            out.push(String::new());
        }
        proof {
            assert forall|j: int|
                0 <= j <= i implies out.deep_view()[j] == normalize_spec(
                header.deep_view(),
                row.deep_view(),
            )[j] by {
                assert(out.deep_view()[j] == out@[j]@);
                if j < i {
                    assert(pdv[j] == prev[j]@);
                    assert(out@[j] == prev[j]);
                } else {
                    assert(row.deep_view().len() == row@.len());
                    if i < row@.len() {
                        assert(row.deep_view()[j] == row@[j]@);
                    }
                }
            }
        }
        i += 1;
    }
    proof {
        assert(out.deep_view() =~= normalize_spec(header.deep_view(), row.deep_view()));
    }
    out
}

/// The error of a table read that failed on one row's decoding.
pub open spec fn row_fail_view<T: TableRow>(
    filename: Seq<char>,
    h: Seq<Seq<char>>,
    row: Seq<Seq<char>>,
) -> ErrorV {
    ErrorV::CSVError {
        filename,
        source: Box::new(T::row_err(h, row)),
        line_in_error: Some(LineErrorV { headers: h, values: normalize_spec(h, row) }),
    }
}

pub open spec fn rows_all_ok<T: TableRow>(h: Seq<Seq<char>>, rs: Seq<Seq<Seq<char>>>) -> bool {
    forall|i: int| 0 <= i < rs.len() ==> T::row_ok(h, #[trigger] rs[i])
}

/// Decodes every data row, or fails on the first bad row with the table name,
/// the header, and that row's normalized raw values.
pub fn decode_rows<T: TableRow>(
    filename: &str,
    header: &Vec<String>,
    rows: &Vec<Vec<String>>,
) -> (res: Result<Vec<T>, Error>)
    ensures
        ({
            let h = header.deep_view();
            let rs = rows.deep_view();
            match res {
                Ok(v) => rows_all_ok::<T>(h, rs) && v@.len() == rs.len() && (forall|i: int|
                    0 <= i < rs.len() ==> T::row_matches(h, rs[i], #[trigger] v@[i])),
                Err(e) => !rows_all_ok::<T>(h, rs) && exists|i: int|
                    {
                        &&& 0 <= i < rs.len()
                        &&& !T::row_ok(h, #[trigger] rs[i])
                        &&& forall|j: int| 0 <= j < i ==> T::row_ok(h, #[trigger] rs[j])
                        &&& e.deep_view() == row_fail_view::<T>(filename@, h, rs[i])
                    },
            }
        }),
{
    let ghost h = header.deep_view();
    let ghost rs = rows.deep_view();
    let n = rows.len();
    let mut out: Vec<T> = Vec::new();
    let mut i: usize = 0;
    while i < n
        invariant
            h == header.deep_view(),
            rs == rows.deep_view(),
            n == rows@.len(),
            rs.len() == n,
            0 <= i <= n,
            out@.len() == i,
            forall|j: int| 0 <= j < i ==> T::row_ok(h, #[trigger] rs[j]),
            forall|j: int| 0 <= j < i ==> T::row_matches(h, rs[j], #[trigger] out@[j]),
        decreases n - i,
    {
        proof {
            assert(rs[i as int] == rows@[i as int].deep_view());
        }
        match T::decode_row(header, &rows[i]) {
            Ok(v) => {
                out.push(v);
            },
            Err(e) => {
                let line = LineError {
                    headers: header.clone(),
                    values: normalize_values(header, &rows[i]),
                };
                proof {
                    assert(line.headers.deep_view() =~= h);
                }
                return Err(
                    Error::CSVError {
                        filename: filename.to_owned(),
                        source: Box::new(e),
                        line_in_error: Some(line),
                    },
                );
            },
        }
        i += 1;
    }
    Ok(out)
}

/// Decodes every data row through a caller-defined shape. The caller's
/// decoder is unverified, so only the shape of the outcome is promised.
pub fn decode_rows_custom<T: FromRow>(
    filename: &str,
    header: &Vec<String>,
    rows: &Vec<Vec<String>>,
) -> (res: Result<Vec<T>, Error>)
    ensures
        ({
            let h = header.deep_view();
            let rs = rows.deep_view();
            match res {
                Ok(v) => v@.len() == rs.len(),
                Err(e) => e.deep_view() matches ErrorV::CSVError {
                    filename: f,
                    source: _,
                    line_in_error: le,
                } && (f == filename@ && (le matches Some(l) && (l.headers == h && exists|i: int|
                    0 <= i < rs.len() && l.values == normalize_spec(h, #[trigger] rs[i])))),
            }
        }),
{
    let ghost h = header.deep_view();
    let ghost rs = rows.deep_view();
    let n = rows.len();
    let mut out: Vec<T> = Vec::new();
    let mut i: usize = 0;
    while i < n
        invariant
            h == header.deep_view(),
            rs == rows.deep_view(),
            n == rows@.len(),
            rs.len() == n,
            0 <= i <= n,
            out@.len() == i,
        decreases n - i,
    {
        match T::from_row(header, &rows[i]) {
            Ok(v) => {
                out.push(v);
            },
            Err(e) => {
                let line = LineError {
                    headers: header.clone(),
                    values: normalize_values(header, &rows[i]),
                };
                proof {
                    assert(line.headers.deep_view() =~= h);
                    assert(rs[i as int] == rows@[i as int].deep_view());
                }
                return Err(
                    Error::CSVError {
                        filename: filename.to_owned(),
                        source: Box::new(e),
                        line_in_error: Some(line),
                    },
                );
            },
        }
        i += 1;
    }
    Ok(out)
}

// ---------------------------------------------------------------------------
// The byte-order mark
// ---------------------------------------------------------------------------
pub open spec fn starts_with_bom(d: Seq<u8>) -> bool {
    d.len() >= 3 && d[0] == 0xef && d[1] == 0xbb && d[2] == 0xbf
}

/// The stream with a leading three-byte order mark removed; without one, the
/// same bytes unchanged — none lost, none duplicated.
pub open spec fn strip_bom_spec(d: Seq<u8>) -> Seq<u8> {
    if starts_with_bom(d) {
        d.skip(3)
    } else {
        d
    }
}

pub fn strip_bom(data: Vec<u8>) -> (r: Vec<u8>)
    ensures
        r@ == strip_bom_spec(data@),
{
    if data.len() >= 3 && data[0] == 0xef && data[1] == 0xbb && data[2] == 0xbf {
        let ghost d0 = data@;
        let mut data = data;
        let rest = data.split_off(3);
        proof {
            assert(rest@ =~= strip_bom_spec(d0));
        }
        rest
    } else {
        data
    }
}

/// A leading byte-order mark is transparent: the stream decodes exactly as
/// the same stream without the mark, and a stream without one is untouched.
pub proof fn lemma_bom_transparent(b: Seq<u8>)
    requires
        !starts_with_bom(b),
    ensures
        strip_bom_spec(seq![0xefu8, 0xbbu8, 0xbfu8] + b) == b,
        strip_bom_spec(b) == b,
{
    let d = seq![0xefu8, 0xbbu8, 0xbfu8] + b;
    assert(starts_with_bom(d));
    assert(d.skip(3) =~= b);
}

// ---------------------------------------------------------------------------
// Trusted: tokenizing comma-separated text
// ---------------------------------------------------------------------------
/// The header row that the tokenizer reads from the bytes, a function of the
/// bytes alone; `None` when tokenizing fails before a header is available.
pub uninterp spec fn csv_header_of(b: Seq<u8>) -> Option<Seq<Seq<char>>>;

/// The data rows that the tokenizer reads after the header, a function of the
/// bytes alone; `None` when tokenizing fails on some row.
pub uninterp spec fn csv_records_of(b: Seq<u8>) -> Option<Seq<Seq<Seq<char>>>>;

/// Relies on `csv::Reader::headers` in flexible mode: the first row of the
/// comma-separated text, deterministic in the bytes.
#[verifier::external_body]
fn csv_header(bytes: &Vec<u8>) -> (r: Result<Vec<String>, String>)
    ensures
        r matches Ok(h) ==> csv_header_of(bytes@) == Some(h.deep_view()),
        r matches Err(_) ==> csv_header_of(bytes@) is None,
{
    let mut rdr = csv::ReaderBuilder::new().flexible(true).from_reader(bytes.as_slice());
    match rdr.headers() {
        Ok(h) => Ok(h.iter().map(|f| f.to_string()).collect()),
        Err(e) => Err(e.to_string()),
    }
}

/// Relies on `csv::Reader::records` in flexible mode: the data rows after the
/// header, rows of any field count accepted, deterministic in the bytes.
#[verifier::external_body]
fn csv_records(bytes: &Vec<u8>) -> (r: Result<Vec<Vec<String>>, String>)
    ensures
        r matches Ok(rows) ==> csv_records_of(bytes@) == Some(rows.deep_view()),
        r matches Err(_) ==> csv_records_of(bytes@) is None,
{
    let mut rdr = csv::ReaderBuilder::new().flexible(true).from_reader(bytes.as_slice());
    let mut out: Vec<Vec<String>> = Vec::new();
    for rec in rdr.records() {
        match rec {
            Ok(row) => out.push(row.iter().map(|f| f.to_string()).collect()),
            Err(e) => return Err(e.to_string()),
        }
    }
    Ok(out)
}

// ---------------------------------------------------------------------------
// Reading one whole table out of its entry's bytes
// ---------------------------------------------------------------------------
/// Whether a table's bytes tokenize and every data row decodes under `T`.
pub open spec fn table_rows_ok<T: TableRow>(d: Seq<u8>) -> bool {
    let b = strip_bom_spec(d);
    &&& csv_header_of(b) is Some
    &&& csv_records_of(b) is Some
    &&& rows_all_ok::<T>(csv_header_of(b).unwrap(), csv_records_of(b).unwrap())
}

/// Whether `v` is the record sequence that the table's bytes decode to.
pub open spec fn table_records_match<T: TableRow>(d: Seq<u8>, v: Seq<T>) -> bool {
    let b = strip_bom_spec(d);
    let h = csv_header_of(b).unwrap();
    let rs = csv_records_of(b).unwrap();
    v.len() == rs.len() && forall|i: int| 0 <= i < rs.len() ==> T::row_matches(h, rs[i], #[trigger] v[i])
}

/// What must hold of the error of a failed table decode: tokenization
/// failures carry no raw values — none before the header, the header alone
/// afterwards — and a row failure carries that row's error and context.
/// A table decode error whose cause is a tokenization failure, with the
/// given row context.
pub open spec fn is_tokenize_err(e: ErrorV, filename: Seq<char>, line: Option<LineErrorV>) -> bool {
    e matches ErrorV::CSVError { filename: f, source, line_in_error } && (f == filename && ((
    *source) matches ErrorV::CSVParseError(_) && line_in_error == line))
}

/// A table decode error raised by a caller-defined row decoder: it names the
/// table and carries the header with one row's normalized raw values.
pub open spec fn caller_decode_err(
    h: Seq<Seq<char>>,
    rs: Seq<Seq<Seq<char>>>,
    filename: Seq<char>,
    ev: ErrorV,
) -> bool {
    ev matches ErrorV::CSVError { filename: f, source: _, line_in_error: le } && (f == filename && (
    le matches Some(l) && (l.headers == h && exists|i: int|
        0 <= i < rs.len() && l.values == normalize_spec(h, #[trigger] rs[i]))))
}

pub open spec fn table_err_ok<T: TableRow>(d: Seq<u8>, filename: Seq<char>, e: ErrorV) -> bool {
    let b = strip_bom_spec(d);
    if csv_header_of(b) is None {
        is_tokenize_err(e, filename, None)
    } else if csv_records_of(b) is None {
        is_tokenize_err(
            e,
            filename,
            Some(
                LineErrorV {
                    headers: csv_header_of(b).unwrap(),
                    values: Seq::<Seq<char>>::empty(),
                },
            ),
        )
    } else {
        let h = csv_header_of(b).unwrap();
        let rs = csv_records_of(b).unwrap();
        exists|i: int|
            {
                &&& 0 <= i < rs.len()
                &&& !T::row_ok(h, #[trigger] rs[i])
                &&& forall|j: int| 0 <= j < i ==> T::row_ok(h, #[trigger] rs[j])
                &&& e == row_fail_view::<T>(filename, h, rs[i])
            }
    }
}

/// Decodes one table's bytes: strips a leading byte-order mark, tokenizes a
/// header row and data rows, and decodes every row under `T`'s schema.
pub fn read_table<T: TableRow>(filename: &str, data: Vec<u8>) -> (res: Result<Vec<T>, Error>)
    ensures
        match res {
            Ok(v) => table_rows_ok::<T>(data@) && table_records_match::<T>(data@, v@),
            Err(e) => !table_rows_ok::<T>(data@) && table_err_ok::<T>(data@, filename@, e.deep_view()),
        },
{
    let bytes = strip_bom(data);
    let header = match csv_header(&bytes) {
        Ok(h) => h,
        Err(m) => {
            proof {
                assert(crate::error::error_view(Error::CSVParseError(m))
                    == ErrorV::CSVParseError(m@));
            }
            return Err(
                Error::CSVError {
                    filename: filename.to_owned(),
                    source: Box::new(Error::CSVParseError(m)),
                    line_in_error: None,
                },
            );
        },
    };
    let rows = match csv_records(&bytes) {
        Ok(rs) => rs,
        Err(m) => {
            let line = LineError { headers: header, values: Vec::new() };
            proof {
                assert(line.values.deep_view() =~= Seq::<Seq<char>>::empty());
                assert(crate::error::error_view(Error::CSVParseError(m))
                    == ErrorV::CSVParseError(m@));
            }
            return Err(
                Error::CSVError {
                    filename: filename.to_owned(),
                    source: Box::new(Error::CSVParseError(m)),
                    line_in_error: Some(line),
                },
            );
        },
    };
    decode_rows::<T>(filename, &header, &rows)
}

/// Decodes one table's bytes into a caller-defined record shape. The
/// tokenization outcomes are pinned by the bytes; only the caller's own
/// decoder is free to accept or decline a row.
pub fn read_table_custom<T: FromRow>(filename: &str, data: Vec<u8>) -> (res: Result<Vec<T>, Error>)
    ensures
        ({
            let b = strip_bom_spec(data@);
            match res {
                Ok(v) => csv_header_of(b) is Some && csv_records_of(b) is Some && v@.len()
                    == csv_records_of(b).unwrap().len(),
                Err(e) => {
                    let ev = e.deep_view();
                    if csv_header_of(b) is None {
                        is_tokenize_err(ev, filename@, None)
                    } else if csv_records_of(b) is None {
                        is_tokenize_err(
                            ev,
                            filename@,
                            Some(
                                LineErrorV {
                                    headers: csv_header_of(b).unwrap(),
                                    values: Seq::<Seq<char>>::empty(),
                                },
                            ),
                        )
                    } else {
                        caller_decode_err(
                            csv_header_of(b).unwrap(),
                            csv_records_of(b).unwrap(),
                            filename@,
                            ev,
                        )
                    }
                },
            }
        }),
{
    let bytes = strip_bom(data);
    let header = match csv_header(&bytes) {
        Ok(h) => h,
        Err(m) => {
            proof {
                assert(crate::error::error_view(Error::CSVParseError(m))
                    == ErrorV::CSVParseError(m@));
            }
            return Err(
                Error::CSVError {
                    filename: filename.to_owned(),
                    source: Box::new(Error::CSVParseError(m)),
                    line_in_error: None,
                },
            );
        },
    };
    let rows = match csv_records(&bytes) {
        Ok(rs) => rs,
        Err(m) => {
            let line = LineError { headers: header, values: Vec::new() };
            proof {
                assert(line.values.deep_view() =~= Seq::<Seq<char>>::empty());
                assert(crate::error::error_view(Error::CSVParseError(m))
                    == ErrorV::CSVParseError(m@));
            }
            return Err(
                Error::CSVError {
                    filename: filename.to_owned(),
                    source: Box::new(Error::CSVParseError(m)),
                    line_in_error: Some(line),
                },
            );
        },
    };
    decode_rows_custom::<T>(filename, &header, &rows)
}

/// Any row context captured on a table decode failure is consistent: the raw
/// values are either absent — the failure came before a row was tokenized —
/// or exactly as long as the captured header list.
pub proof fn lemma_line_error_shape<T: TableRow>(d: Seq<u8>, filename: Seq<char>, e: ErrorV)
    requires
        table_err_ok::<T>(d, filename, e),
    ensures
        e matches ErrorV::CSVError { line_in_error, .. } && match line_in_error {
            Some(l) => l.values.len() == 0 || l.values.len() == l.headers.len(),
            None => true,
        },
{
}

} // verus!
