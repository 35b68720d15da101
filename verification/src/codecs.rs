//! The scalar codec layer: pure decode/encode pairs for the field encodings
//! of the dataset — `"0"`/`"1"` booleans, `YYYYMMDD` dates, `H:MM:SS` clock
//! times whose hours may pass 23, and six-digit hexadecimal colors.

use vstd::prelude::*;

use crate::error::{Error, ErrorV};
use crate::text::{
    all_digits, append_hex2, append_pad, dec_digits, digit_char, digit_val, digits_val, hex2,
    hex_char, hex_digit_val, hex_val_of, is_digit, is_hex_digit, is_space, is_uint_text,
    pad_digits, parse_u64_str, trim_spec, trim_start_spec, trim_start_str, trim_str,
    u64_to_string, uint_body, uint_text_val,
};

verus! {

// ---------------------------------------------------------------------------
// Booleans
// ---------------------------------------------------------------------------
/// What boolean text decodes to: exactly `"0"` and `"1"` are accepted.
pub open spec fn spec_decode_bool(s: Seq<char>) -> Option<bool> {
    if s == "0"@ {
        Some(false)
    } else if s == "1"@ {
        Some(true)
    } else {
        None
    }
}

/// The canonical text of a boolean.
pub open spec fn spec_encode_bool(v: bool) -> Seq<char> {
    if v {
        "1"@
    } else {
        "0"@
    }
}

/// Decodes boolean text; any text other than `"0"` or `"1"` is rejected,
/// naming the offending text.
pub fn decode_bool(s: &str) -> (r: Result<bool, Error>)
    ensures
        match spec_decode_bool(s@) {
            Some(v) => r == Ok::<bool, Error>(v),
            None => r matches Err(e) && e.deep_view() == ErrorV::InvalidValue(s@),
        },
{
    if crate::text::str_eq(s, "0") {
        Ok(false)
    } else if crate::text::str_eq(s, "1") {
        Ok(true)
    } else {
        Err(Error::InvalidValue(s.to_owned()))
    }
}

/// Encodes a boolean as its canonical text.
pub fn encode_bool(v: bool) -> (r: String)
    ensures
        r@ == spec_encode_bool(v),
{
    if v {
        String::from_str("1")
    } else {
        String::from_str("0")
    }
}

/// For all booleans, decoding the encoding gives the value back.
pub proof fn lemma_bool_round_trip(v: bool)
    ensures
        spec_decode_bool(spec_encode_bool(v)) == Some(v),
{
    reveal_strlit("0");
    reveal_strlit("1");
    assert("0"@ != "1"@) by {
        assert("0"@[0] == '0' && "1"@[0] == '1');
    }
}

// ---------------------------------------------------------------------------
// Clock times
// ---------------------------------------------------------------------------
/// Positions `i < j` split the text into exactly three parts on `:`.
pub open spec fn two_colon_split(v: Seq<char>, i: int, j: int) -> bool {
    &&& 0 <= i < j < v.len()
    &&& v[i] == ':'
    &&& v[j] == ':'
    &&& forall|k: int| 0 <= k < v.len() && #[trigger] v[k] == ':' ==> k == i || k == j
}

pub open spec fn has_two_colons(v: Seq<char>) -> bool {
    exists|ij: (int, int)| two_colon_split(v, ij.0, ij.1)
}

/// The three parts of a text holding exactly two colons.
pub open spec fn split3(v: Seq<char>) -> (Seq<char>, Seq<char>, Seq<char>)
    recommends
        has_two_colons(v),
{
    let ij = choose|ij: (int, int)| two_colon_split(v, ij.0, ij.1);
    (v.take(ij.0), v.subrange(ij.0 + 1, ij.1), v.skip(ij.1 + 1))
}

/// A part that parses as an unsigned 64-bit number.
pub open spec fn part_fits(p: Seq<char>) -> bool {
    is_uint_text(p) && uint_text_val(p) <= u64::MAX
}

/// Total seconds since midnight of a well-formed clock time, hours unbounded.
pub open spec fn time_value(v: Seq<char>) -> int
    recommends
        has_two_colons(v),
{
    let (h, m, s) = split3(v);
    uint_text_val(h) * 3600 + uint_text_val(m) * 60 + uint_text_val(s)
}

/// Clock-time text accepted after leading whitespace is removed: three parts
/// split on `:`, each an unsigned number, and a total that fits in `u64`.
pub open spec fn time_parts_ok(v: Seq<char>) -> bool {
    &&& has_two_colons(v)
    &&& part_fits(split3(v).0)
    &&& part_fits(split3(v).1)
    &&& part_fits(split3(v).2)
    &&& time_value(v) <= u64::MAX
}

/// The error produced for clock-time text that is rejected.
pub open spec fn time_err_view(s: Seq<char>) -> ErrorV {
    let v = trim_start_spec(s);
    if !has_two_colons(v) {
        ErrorV::InvalidTime(s)
    } else {
        let (h, m, sec) = split3(v);
        if !part_fits(h) {
            ErrorV::InvalidNumber(h)
        } else if !part_fits(m) {
            ErrorV::InvalidNumber(m)
        } else if !part_fits(sec) {
            ErrorV::InvalidNumber(sec)
        } else {
            ErrorV::InvalidTime(s)
        }
    }
}

proof fn lemma_two_colon_unique(v: Seq<char>, i: int, j: int)
    requires
        two_colon_split(v, i, j),
    ensures
        split3(v) == (v.take(i), v.subrange(i + 1, j), v.skip(j + 1)),
        has_two_colons(v),
        time_value(v) == uint_text_val(v.take(i)) * 3600 + uint_text_val(v.subrange(i + 1, j)) * 60
            + uint_text_val(v.skip(j + 1)),
{
    assert(two_colon_split(v, i, j));
    assert(has_two_colons(v)) by {
        assert(two_colon_split(v, ((i, j)).0, ((i, j)).1));
    }
    let ij = choose|ij: (int, int)| two_colon_split(v, ij.0, ij.1);
    assert(v[ij.0] == ':' && v[ij.1] == ':');
    assert(ij.0 == i || ij.0 == j);
    assert(ij.1 == i || ij.1 == j);
    assert(ij.0 == i && ij.1 == j);
}

/// Decodes `H:MM:SS` clock-time text into total seconds since midnight.
/// Leading whitespace is ignored; a part count other than three is rejected
/// naming the original text; a part that is not a number is rejected naming
/// that part.
pub fn decode_time(s: &str) -> (r: Result<u64, Error>)
    ensures
        match r {
            Ok(t) => time_parts_ok(trim_start_spec(s@)) && t as int == time_value(
                trim_start_spec(s@),
            ),
            Err(e) => !time_parts_ok(trim_start_spec(s@)) && e.deep_view() == time_err_view(s@),
        },
{
    let t = trim_start_str(s);
    let ghost v = t@;
    let n = t.unicode_len();
    let mut p1: usize = 0;
    let mut p2: usize = 0;
    let mut have1 = false;
    let mut have2 = false;
    let mut extra = false;
    let mut i: usize = 0;
    while i < n
        invariant
            v == t@,
            n == v.len(),
            0 <= i <= n,
            have2 ==> have1,
            extra ==> have2,
            have1 ==> p1 < i && v[p1 as int] == ':',
            have2 ==> p1 < p2 < i && v[p2 as int] == ':',
            !have1 ==> !have2 && !extra && forall|k: int| 0 <= k < i ==> v[k] != ':',
            have1 && !have2 ==> forall|k: int| 0 <= k < i && k != p1 ==> v[k] != ':',
            have2 && !extra ==> forall|k: int| 0 <= k < i && k != p1 && k != p2 ==> v[k] != ':',
            extra ==> exists|k: int| 0 <= k < i && k != p1 && k != p2 && #[trigger] v[k] == ':',
        decreases n - i,
    {
        let c = t.get_char(i);
        if c == ':' {
            if !have1 {
                p1 = i;
                have1 = true;
            } else if !have2 {
                p2 = i;
                have2 = true;
            } else {
                extra = true;
            }
        }
        i += 1;
    }
    if !(have1 && have2 && !extra) {
        proof {
            assert(!has_two_colons(v)) by {
                if has_two_colons(v) {
                    let ij = choose|ij: (int, int)| two_colon_split(v, ij.0, ij.1);
                    assert(v[ij.0] == ':' && v[ij.1] == ':');
                    if extra {
                        let k = choose|k: int|
                            0 <= k < n && k != p1 && k != p2 && #[trigger] v[k] == ':';
                        assert(k == ij.0 || k == ij.1);
                        assert(p1 as int == ij.0 || p1 as int == ij.1);
                        assert(p2 as int == ij.0 || p2 as int == ij.1);
                    }
                }
            }
        }
        return Err(Error::InvalidTime(s.to_owned()));
    }
    proof {
        assert(two_colon_split(v, p1 as int, p2 as int));
        lemma_two_colon_unique(v, p1 as int, p2 as int);
    }
    let hp = t.substring_char(0, p1);
    let mp = t.substring_char(p1 + 1, p2);
    let sp = t.substring_char(p2 + 1, n);
    let hv = match parse_u64_str(hp) {
        Some(x) => x,
        None => {
            return Err(Error::InvalidNumber(hp.to_owned()));
        },
    };
    let mv = match parse_u64_str(mp) {
        Some(x) => x,
        None => {
            return Err(Error::InvalidNumber(mp.to_owned()));
        },
    };
    let sv = match parse_u64_str(sp) {
        Some(x) => x,
        None => {
            return Err(Error::InvalidNumber(sp.to_owned()));
        },
    };
    let hs = match hv.checked_mul(3600) {
        Some(x) => x,
        None => {
            return Err(Error::InvalidTime(s.to_owned()));
        },
    };
    let ms = match mv.checked_mul(60) {
        Some(x) => x,
        None => {
            return Err(Error::InvalidTime(s.to_owned()));
        },
    };
    let hm = match hs.checked_add(ms) {
        Some(x) => x,
        None => {
            return Err(Error::InvalidTime(s.to_owned()));
        },
    };
    match hm.checked_add(sv) {
        Some(total) => Ok(total),
        None => Err(Error::InvalidTime(s.to_owned())),
    }
}

/// Combines already split clock-time parts — hours, minutes, seconds — into
/// total seconds since midnight, each part parsed as an unsigned number. A
/// part that is not a number is rejected naming that part; a combination past
/// 64 bits is rejected naming the hours part.
pub fn parse_time(time_parts: Vec<&str>) -> (r: Result<u64, Error>)
    requires
        time_parts@.len() == 3,
    ensures
        ({
            let p0 = time_parts@[0]@;
            let p1 = time_parts@[1]@;
            let p2 = time_parts@[2]@;
            match r {
                Ok(t) => part_fits(p0) && part_fits(p1) && part_fits(p2) && t as int
                    == uint_text_val(p0) * 3600 + uint_text_val(p1) * 60 + uint_text_val(p2),
                Err(e) => {
                    &&& !(part_fits(p0) && part_fits(p1) && part_fits(p2) && uint_text_val(p0)
                        * 3600 + uint_text_val(p1) * 60 + uint_text_val(p2) <= u64::MAX)
                    &&& e.deep_view() == if !part_fits(p0) {
                        ErrorV::InvalidNumber(p0)
                    } else if !part_fits(p1) {
                        ErrorV::InvalidNumber(p1)
                    } else if !part_fits(p2) {
                        ErrorV::InvalidNumber(p2)
                    } else {
                        ErrorV::InvalidTime(p0)
                    }
                },
            }
        }),
{
    let hv = match parse_u64_str(time_parts[0]) {
        Some(x) => x,
        None => {
            return Err(Error::InvalidNumber(time_parts[0].to_owned()));
        },
    };
    let mv = match parse_u64_str(time_parts[1]) {
        Some(x) => x,
        None => {
            return Err(Error::InvalidNumber(time_parts[1].to_owned()));
        },
    };
    let sv = match parse_u64_str(time_parts[2]) {
        Some(x) => x,
        None => {
            return Err(Error::InvalidNumber(time_parts[2].to_owned()));
        },
    };
    let hs = match hv.checked_mul(3600) {
        Some(x) => x,
        None => {
            return Err(Error::InvalidTime(time_parts[0].to_owned()));
        },
    };
    let ms = match mv.checked_mul(60) {
        Some(x) => x,
        None => {
            return Err(Error::InvalidTime(time_parts[0].to_owned()));
        },
    };
    let hm = match hs.checked_add(ms) {
        Some(x) => x,
        None => {
            return Err(Error::InvalidTime(time_parts[0].to_owned()));
        },
    };
    match hm.checked_add(sv) {
        Some(total) => Ok(total),
        None => Err(Error::InvalidTime(time_parts[0].to_owned())),
    }
}

/// Encodes total seconds as plain decimal text. The clock-time codec is
/// deliberately lossy on the textual `H:MM:SS` shape while lossless on the
/// numeric meaning: the encoder does not reconstruct the colon form.
pub fn encode_time(t: u64) -> (r: String)
    ensures
        r@ == dec_digits(t as int),
{
    u64_to_string(t)
}

// ---------------------------------------------------------------------------
// Dates
// ---------------------------------------------------------------------------
/// A calendar date held as plain year, month and day numbers.
#[derive(PartialEq, Eq, Structural, Copy, Clone, Debug)]
pub struct Date {
    pub year: u16,
    pub month: u8,
    pub day: u8,
}

pub open spec fn is_leap_year(y: int) -> bool {
    y % 4 == 0 && (y % 100 != 0 || y % 400 == 0)
}

pub open spec fn days_in_month(y: int, m: int) -> int {
    if m == 2 {
        if is_leap_year(y) {
            29
        } else {
            28
        }
    } else if m == 4 || m == 6 || m == 9 || m == 11 {
        30
    } else {
        31
    }
}

pub open spec fn valid_ymd(y: int, m: int, d: int) -> bool {
    1 <= m <= 12 && 1 <= d <= days_in_month(y, m)
}

/// Date text accepted: exactly eight digits, `YYYYMMDD`, naming a real
/// calendar date.
pub open spec fn date_text_ok(v: Seq<char>) -> bool {
    &&& v.len() == 8
    &&& all_digits(v)
    &&& valid_ymd(digits_val(v.take(4)), digits_val(v.subrange(4, 6)), digits_val(v.subrange(6, 8)))
}

pub open spec fn spec_date_of(v: Seq<char>) -> Date {
    Date {
        year: digits_val(v.take(4)) as u16,
        month: digits_val(v.subrange(4, 6)) as u8,
        day: digits_val(v.subrange(6, 8)) as u8,
    }
}

/// The canonical text of a date: year, month and day, zero-padded.
pub open spec fn spec_encode_date(d: Date) -> Seq<char> {
    pad_digits(d.year as int, 4) + pad_digits(d.month as int, 2) + pad_digits(d.day as int, 2)
}

spec fn pow10(n: nat) -> int
    decreases n,
{
    if n == 0 {
        1
    } else {
        10 * pow10((n - 1) as nat)
    }
}

proof fn lemma_digits_val_bound(s: Seq<char>)
    requires
        all_digits(s),
    ensures
        0 <= digits_val(s) < pow10(s.len()),
    decreases s.len(),
{
    if s.len() > 0 {
        lemma_digits_val_bound(s.drop_last());
    }
}

proof fn lemma_pad_digits_val(n: int, w: nat)
    requires
        0 <= n < pow10(w),
    ensures
        pad_digits(n, w).len() == w,
        all_digits(pad_digits(n, w)),
        digits_val(pad_digits(n, w)) == n,
    decreases w,
{
    if w == 0 {
    } else {
        lemma_pad_digits_val(n / 10, (w - 1) as nat);
        let p = pad_digits(n, w);
        assert(p.drop_last() =~= pad_digits(n / 10, (w - 1) as nat));
        assert(is_digit(digit_char(n % 10)) && digit_val(digit_char(n % 10)) == n % 10);
        assert(forall|i: int| 0 <= i < p.len() ==> is_digit(#[trigger] p[i])) by {
            assert(forall|i: int|
                0 <= i < p.len() - 1 ==> p[i] == #[trigger] pad_digits(n / 10, (w - 1) as nat)[i]);
        }
    }
}

fn exec_days_in_month(y: u16, m: u8) -> (r: u8)
    ensures
        r as int == days_in_month(y as int, m as int),
{
    if m == 2 {
        if y % 4 == 0 && (y % 100 != 0 || y % 400 == 0) {
            29
        } else {
            28
        }
    } else if m == 4 || m == 6 || m == 9 || m == 11 {
        30
    } else {
        31
    }
}

/// Decodes `YYYYMMDD` date text; anything else is rejected naming the text.
pub fn decode_date(s: &str) -> (r: Result<Date, Error>)
    ensures
        match r {
            Ok(d) => date_text_ok(s@) && d == spec_date_of(s@),
            Err(e) => !date_text_ok(s@) && e.deep_view() == ErrorV::InvalidValue(s@),
        },
{
    let n = s.unicode_len();
    if n != 8 {
        return Err(Error::InvalidValue(s.to_owned()));
    }
    let mut i: usize = 0;
    while i < 8
        invariant
            n == s@.len(),
            n == 8,
            0 <= i <= 8,
            forall|k: int| 0 <= k < i ==> is_digit(#[trigger] s@[k]),
        decreases 8 - i,
    {
        let c = s.get_char(i);
        if !('0' <= c && c <= '9') {
            assert(!is_digit(s@[i as int]));
            return Err(Error::InvalidValue(s.to_owned()));
        }
        i += 1;
    }
    assert(all_digits(s@));
    let yp = s.substring_char(0, 4);
    let mp = s.substring_char(4, 6);
    let dp = s.substring_char(6, 8);
    proof {
        assert(yp@ =~= s@.take(4));
        assert(mp@ =~= s@.subrange(4, 6));
        assert(dp@ =~= s@.subrange(6, 8));
        assert(all_digits(yp@)) by {
            assert(forall|k: int| 0 <= k < 4 ==> yp@[k] == #[trigger] s@[k]);
        }
        assert(all_digits(mp@)) by {
            assert(forall|k: int| 0 <= k < 2 ==> mp@[k] == #[trigger] s@[k + 4]);
        }
        assert(all_digits(dp@)) by {
            assert(forall|k: int| 0 <= k < 2 ==> dp@[k] == #[trigger] s@[k + 6]);
        }
        assert(uint_body(yp@) == yp@ && uint_body(mp@) == mp@ && uint_body(dp@) == dp@) by {
            assert(is_digit(s@[0]) && is_digit(s@[4]) && is_digit(s@[6]));
        }
        lemma_digits_val_bound(yp@);
        lemma_digits_val_bound(mp@);
        lemma_digits_val_bound(dp@);
        reveal_with_fuel(pow10, 5);
        assert(pow10(4) == 10000 && pow10(2) == 100);
    }
    let yv = parse_u64_str(yp).unwrap();
    let mv = parse_u64_str(mp).unwrap();
    let dv = parse_u64_str(dp).unwrap();
    assert(yv < 10000 && mv < 100 && dv < 100);
    let y = yv as u16;
    let m = mv as u8;
    let d = dv as u8;
    if !(1 <= m && m <= 12) {
        return Err(Error::InvalidValue(s.to_owned()));
    }
    if d < 1 || d > exec_days_in_month(y, m) {
        return Err(Error::InvalidValue(s.to_owned()));
    }
    Ok(Date { year: y, month: m, day: d })
}

/// Encodes a date as `YYYYMMDD`, the month and day zero-padded to two digits
/// and the year to four. The encoding holds four year digits, so the year
/// must not pass 9999.
pub fn encode_date(d: &Date) -> (r: String)
    requires
        d.year <= 9999,
    ensures
        r@ == spec_encode_date(*d),
{
    let mut out = String::new();
    append_pad(&mut out, d.year as u64, 4);
    append_pad(&mut out, d.month as u64, 2);
    append_pad(&mut out, d.day as u64, 2);
    proof {
        assert(out@ =~= spec_encode_date(*d));
    }
    out
}

/// For all real dates with a four-digit year, decoding the canonical
/// zero-padded encoding gives the date back.
pub proof fn lemma_date_round_trip(d: Date)
    requires
        valid_ymd(d.year as int, d.month as int, d.day as int),
        d.year <= 9999,
    ensures
        date_text_ok(spec_encode_date(d)),
        spec_date_of(spec_encode_date(d)) == d,
{
    reveal_with_fuel(pow10, 5);
    let y = pad_digits(d.year as int, 4);
    let m = pad_digits(d.month as int, 2);
    let dd = pad_digits(d.day as int, 2);
    lemma_pad_digits_val(d.year as int, 4);
    lemma_pad_digits_val(d.month as int, 2);
    lemma_pad_digits_val(d.day as int, 2);
    let enc = spec_encode_date(d);
    assert(enc.take(4) =~= y);
    assert(enc.subrange(4, 6) =~= m);
    assert(enc.subrange(6, 8) =~= dd);
    assert(all_digits(enc)) by {
        assert(forall|i: int| 0 <= i < 4 ==> enc[i] == #[trigger] y[i]);
        assert(forall|i: int| 4 <= i < 6 ==> #[trigger] enc[i] == m[i - 4]);
        assert(forall|i: int| 6 <= i < 8 ==> #[trigger] enc[i] == dd[i - 6]);
    }
}

// ---------------------------------------------------------------------------
// Colors
// ---------------------------------------------------------------------------
/// A color as three byte channels.
#[derive(PartialEq, Eq, Structural, Copy, Clone, Debug, Hash)]
pub struct Rgb {
    pub r: u8,
    pub g: u8,
    pub b: u8,
}

/// Color text accepted: exactly six hexadecimal digits.
pub open spec fn color_text_ok(v: Seq<char>) -> bool {
    v.len() == 6 && forall|i: int| 0 <= i < 6 ==> is_hex_digit(#[trigger] v[i])
}

pub open spec fn spec_color_of(v: Seq<char>) -> Rgb {
    Rgb {
        r: (hex_digit_val(v[0]) * 16 + hex_digit_val(v[1])) as u8,
        g: (hex_digit_val(v[2]) * 16 + hex_digit_val(v[3])) as u8,
        b: (hex_digit_val(v[4]) * 16 + hex_digit_val(v[5])) as u8,
    }
}

/// The canonical text of a color: six upper-case hexadecimal digits.
pub open spec fn spec_encode_color(c: Rgb) -> Seq<char> {
    hex2(c.r as int) + hex2(c.g as int) + hex2(c.b as int)
}

/// Decodes color text. Text that is blank after trimming decodes to "no
/// value"; six hexadecimal digits decode to the three channels; anything else
/// is rejected naming the trimmed text.
pub fn decode_option_color(s: &str) -> (r: Result<Option<Rgb>, Error>)
    ensures
        ({
            let t = trim_spec(s@);
            if t.len() == 0 {
                r == Ok::<Option<Rgb>, Error>(None)
            } else if color_text_ok(t) {
                r == Ok::<Option<Rgb>, Error>(Some(spec_color_of(t)))
            } else {
                r matches Err(e) && e.deep_view() == ErrorV::InvalidColor(t)
            }
        }),
{
    let t = trim_str(s);
    let n = t.unicode_len();
    if n == 0 {
        return Ok(None);
    }
    if n != 6 {
        return Err(Error::InvalidColor(t.to_owned()));
    }
    let mut i: usize = 0;
    while i < 6
        invariant
            t@ == trim_spec(s@),
            t@.len() == 6,
            0 <= i <= 6,
            forall|k: int| 0 <= k < i ==> is_hex_digit(#[trigger] t@[k]),
        decreases 6 - i,
    {
        let c = t.get_char(i);
        if !(('0' <= c && c <= '9') || ('a' <= c && c <= 'f') || ('A' <= c && c <= 'F')) {
            assert(!is_hex_digit(t@[i as int]));
            return Err(Error::InvalidColor(t.to_owned()));
        }
        i += 1;
    }
    let r = hex_val_of(t.get_char(0)) * 16 + hex_val_of(t.get_char(1));
    let g = hex_val_of(t.get_char(2)) * 16 + hex_val_of(t.get_char(3));
    let b = hex_val_of(t.get_char(4)) * 16 + hex_val_of(t.get_char(5));
    Ok(Some(Rgb { r, g, b }))
}

/// Encodes a color as six upper-case hexadecimal digits, zero-padded.
pub fn encode_color(c: &Rgb) -> (r: String)
    ensures
        r@ == spec_encode_color(*c),
{
    let mut out = String::new();
    append_hex2(&mut out, c.r);
    append_hex2(&mut out, c.g);
    append_hex2(&mut out, c.b);
    proof {
        assert(out@ =~= spec_encode_color(*c));
    }
    out
}

/// For all colors, the canonical encoding is accepted color text, needs no
/// trimming, and decodes back to the same three channels.
pub proof fn lemma_color_round_trip(c: Rgb)
    ensures
        trim_spec(spec_encode_color(c)) == spec_encode_color(c),
        color_text_ok(spec_encode_color(c)),
        spec_color_of(spec_encode_color(c)) == c,
{
    let enc = spec_encode_color(c);
    assert forall|d: int| 0 <= d < 16 implies is_hex_digit(#[trigger] hex_char(d))
        && hex_digit_val(hex_char(d)) == d && !is_space(hex_char(d)) by {}
    assert(enc.len() == 6);
    assert(enc[0] == hex_char(c.r as int / 16));
    assert(enc[1] == hex_char(c.r as int % 16));
    assert(enc[2] == hex_char(c.g as int / 16));
    assert(enc[3] == hex_char(c.g as int % 16));
    assert(enc[4] == hex_char(c.b as int / 16));
    assert(enc[5] == hex_char(c.b as int % 16));
    assert(color_text_ok(enc));
    assert(trim_start_spec(enc) == enc);
    assert(trim_spec(enc) == enc);
    assert(spec_color_of(enc).r == c.r);
    assert(spec_color_of(enc).g == c.g);
    assert(spec_color_of(enc).b == c.b);
}

} // verus!
