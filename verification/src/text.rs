//! Verified text utilities: decimal and hexadecimal digits, integer parsing,
//! whitespace trimming, and rendering of numbers as text.

use vstd::prelude::*;

verus! {

// ---------------------------------------------------------------------------
// Characters
// ---------------------------------------------------------------------------
pub open spec fn is_digit(c: char) -> bool {
    '0' <= c && c <= '9'
}

pub open spec fn digit_val(c: char) -> int {
    c as int - '0' as int
}

pub open spec fn all_digits(s: Seq<char>) -> bool {
    forall|i: int| 0 <= i < s.len() ==> is_digit(#[trigger] s[i])
}

/// The value of a sequence of decimal digits, most significant first.
pub open spec fn digits_val(s: Seq<char>) -> int
    decreases s.len(),
{
    if s.len() == 0 {
        0
    } else {
        digits_val(s.drop_last()) * 10 + digit_val(s.last())
    }
}

pub open spec fn is_hex_digit(c: char) -> bool {
    ('0' <= c && c <= '9') || ('a' <= c && c <= 'f') || ('A' <= c && c <= 'F')
}

pub open spec fn hex_digit_val(c: char) -> int {
    if '0' <= c && c <= '9' {
        c as int - '0' as int
    } else if 'a' <= c && c <= 'f' {
        c as int - 'a' as int + 10
    } else {
        c as int - 'A' as int + 10
    }
}

/// ASCII whitespace, the subset of `char::is_whitespace` that matters for
/// comma-separated tables.
pub open spec fn is_space(c: char) -> bool {
    c == ' ' || c == '\t' || c == '\n' || c == '\r' || c == '\u{b}' || c == '\u{c}'
}

// ---------------------------------------------------------------------------
// Unsigned and signed integer text
// ---------------------------------------------------------------------------
/// The digits of an unsigned integer text, one optional leading `+` removed.
pub open spec fn uint_body(s: Seq<char>) -> Seq<char> {
    if s.len() > 0 && s[0] == '+' {
        s.drop_first()
    } else {
        s
    }
}

/// Text accepted as an unsigned integer: an optional `+`, then one digit or more.
pub open spec fn is_uint_text(s: Seq<char>) -> bool {
    uint_body(s).len() > 0 && all_digits(uint_body(s))
}

pub open spec fn uint_text_val(s: Seq<char>) -> int {
    digits_val(uint_body(s))
}

/// Whether a signed integer text is negative, and its digits.
pub open spec fn int_is_neg(s: Seq<char>) -> bool {
    s.len() > 0 && s[0] == '-'
}

pub open spec fn int_body(s: Seq<char>) -> Seq<char> {
    if s.len() > 0 && (s[0] == '-' || s[0] == '+') {
        s.drop_first()
    } else {
        s
    }
}

/// Text accepted as a signed integer: an optional sign, then one digit or more.
pub open spec fn is_int_text(s: Seq<char>) -> bool {
    int_body(s).len() > 0 && all_digits(int_body(s))
}

pub open spec fn int_text_val(s: Seq<char>) -> int {
    if int_is_neg(s) {
        -digits_val(int_body(s))
    } else {
        digits_val(int_body(s))
    }
}

proof fn lemma_digits_val_nonneg(s: Seq<char>)
    requires
        all_digits(s),
    ensures
        digits_val(s) >= 0,
    decreases s.len(),
{
    if s.len() > 0 {
        lemma_digits_val_nonneg(s.drop_last());
    }
}

/// The value of a digit prefix never exceeds the value of the whole text.
proof fn lemma_digits_prefix_le(s: Seq<char>, i: int)
    requires
        all_digits(s),
        0 <= i <= s.len(),
    ensures
        digits_val(s.take(i)) <= digits_val(s),
    decreases s.len() - i,
{
    if i < s.len() {
        lemma_digits_prefix_le(s, i + 1);
        assert(s.take(i + 1).drop_last() =~= s.take(i));
        assert(all_digits(s.take(i))) by {
            assert(forall|k: int| 0 <= k < i ==> s.take(i)[k] == #[trigger] s[k]);
        }
        lemma_digits_val_nonneg(s.take(i));
        assert(digits_val(s.take(i + 1)) == digits_val(s.take(i)) * 10 + digit_val(s.take(i + 1).last()));
    } else {
        assert(s.take(i) =~= s);
    }
}

// ---------------------------------------------------------------------------
// Trusted: appending a character to a String
// ---------------------------------------------------------------------------
/// Relies on `String::push`: appends the given character to the end.
#[verifier::external_body]
pub fn push_char(s: &mut String, c: char)
    ensures
        final(s)@ == old(s)@.push(c),
{
    s.push(c);
}

// ---------------------------------------------------------------------------
// Executable text functions
// ---------------------------------------------------------------------------
/// Whether two pieces of text hold the same characters.
pub fn str_eq(a: &str, b: &str) -> (r: bool)
    ensures
        r == (a@ == b@),
{
    let an = a.unicode_len();
    let bn = b.unicode_len();
    if an != bn {
        assert(a@ != b@);
        return false;
    }
    let mut i: usize = 0;
    while i < an
        invariant
            an == a@.len(),
            an == b@.len(),
            0 <= i <= an,
            forall|k: int| 0 <= k < i ==> a@[k] == b@[k],
        decreases an - i,
    {
        if a.get_char(i) != b.get_char(i) {
            return false;
        }
        i += 1;
    }
    assert(a@ =~= b@);
    true
}

/// Parses unsigned decimal text: an optional `+`, then digits. `None` when the
/// text is malformed or its value does not fit in `u64`.
pub fn parse_u64_str(s: &str) -> (r: Option<u64>)
    ensures
        match r {
            Some(v) => is_uint_text(s@) && v as int == uint_text_val(s@),
            None => !(is_uint_text(s@) && uint_text_val(s@) <= u64::MAX),
        },
{
    let n = s.unicode_len();
    let start: usize = if n > 0 && s.get_char(0) == '+' {
        1
    } else {
        0
    };
    let ghost body = uint_body(s@);
    proof {
        assert(body =~= s@.skip(start as int));
    }
    if n == start {
        return None;
    }
    let mut acc: u64 = 0;
    let mut i: usize = start;
    while i < n
        invariant
            n == s@.len(),
            start <= i <= n,
            start < n,
            body == uint_body(s@),
            body == s@.skip(start as int),
            all_digits(body.take(i - start)),
            acc as int == digits_val(body.take(i - start)),
        decreases n - i,
    {
        let c = s.get_char(i);
        if !('0' <= c && c <= '9') {
            assert(!all_digits(body)) by {
                assert(body[i - start] == c);
            }
            return None;
        }
        let d: u64 = (c as u32 as u64) - ('0' as u32 as u64);
        let ghost prev = body.take(i - start);
        proof {
            assert(body.take(i - start + 1).drop_last() =~= prev);
            assert(body.take(i - start + 1).last() == c);
            assert(all_digits(body.take(i - start + 1)));
        }
        let shifted = match acc.checked_mul(10) {
            Some(x) => x,
            None => {
                proof {
                    lemma_digits_val_nonneg(prev);
                    if all_digits(body) {
                        lemma_digits_prefix_le(body, i - start + 1);
                        assert(digits_val(body.take(i - start + 1)) > u64::MAX);
                    }
                }
                return None;
            },
        };
        acc = match shifted.checked_add(d) {
            Some(x) => x,
            None => {
                proof {
                    lemma_digits_val_nonneg(prev);
                    if all_digits(body) {
                        lemma_digits_prefix_le(body, i - start + 1);
                        assert(digits_val(body.take(i - start + 1)) > u64::MAX);
                    }
                }
                return None;
            },
        };
        i += 1;
    }
    proof {
        assert(body.take(n - start) =~= body);
    }
    Some(acc)
}

/// Parses signed decimal text: an optional `-` or `+`, then digits. `None`
/// when the text is malformed or its value does not fit in `i64`.
pub fn parse_i64_str(s: &str) -> (r: Option<i64>)
    ensures
        match r {
            Some(v) => is_int_text(s@) && v as int == int_text_val(s@),
            None => !(is_int_text(s@) && i64::MIN <= int_text_val(s@) <= i64::MAX),
        },
{
    let n = s.unicode_len();
    if n > 0 && s.get_char(0) == '-' {
        let rest = s.substring_char(1, n);
        proof {
            assert(rest@ =~= int_body(s@));
        }
        if rest.unicode_len() > 0 && rest.get_char(0) == '+' {
            // A sign after the sign: not a digit, so the text is malformed.
            assert(!all_digits(int_body(s@))) by {
                assert(int_body(s@)[0] == '+');
            }
            return None;
        }
        proof {
            assert(uint_body(rest@) == rest@);
        }
        match parse_u64_str(rest) {
            Some(mag) => {
                if mag <= i64::MAX as u64 {
                    Some(-(mag as i64))
                } else if mag == i64::MAX as u64 + 1 {
                    Some(i64::MIN)
                } else {
                    None
                }
            },
            None => None,
        }
    } else {
        proof {
            assert(uint_body(s@) == int_body(s@));
            assert(!int_is_neg(s@));
        }
        match parse_u64_str(s) {
            Some(mag) => {
                if mag <= i64::MAX as u64 {
                    Some(mag as i64)
                } else {
                    None
                }
            },
            None => None,
        }
    }
}

// ---------------------------------------------------------------------------
// Trimming
// ---------------------------------------------------------------------------
pub open spec fn trim_start_spec(s: Seq<char>) -> Seq<char>
    decreases s.len(),
{
    if s.len() > 0 && is_space(s[0]) {
        trim_start_spec(s.drop_first())
    } else {
        s
    }
}

pub open spec fn trim_end_spec(s: Seq<char>) -> Seq<char>
    decreases s.len(),
{
    if s.len() > 0 && is_space(s.last()) {
        trim_end_spec(s.drop_last())
    } else {
        s
    }
}

/// Both ends trimmed of ASCII whitespace.
pub open spec fn trim_spec(s: Seq<char>) -> Seq<char> {
    trim_end_spec(trim_start_spec(s))
}

proof fn lemma_trim_start_at(s: Seq<char>, a: int)
    requires
        0 <= a <= s.len(),
        forall|k: int| 0 <= k < a ==> is_space(#[trigger] s[k]),
        a == s.len() || !is_space(s[a]),
    ensures
        trim_start_spec(s) == s.skip(a),
    decreases a,
{
    if a == 0 {
        assert(s.skip(0) =~= s);
    } else {
        let t = s.drop_first();
        assert(forall|k: int| 0 <= k < a - 1 ==> is_space(#[trigger] t[k]));
        lemma_trim_start_at(t, a - 1);
        assert(t.skip(a - 1) =~= s.skip(a));
    }
}

proof fn lemma_trim_end_at(s: Seq<char>, b: int)
    requires
        0 <= b <= s.len(),
        forall|k: int| b <= k < s.len() ==> is_space(#[trigger] s[k]),
        b == 0 || !is_space(s[b - 1]),
    ensures
        trim_end_spec(s) == s.take(b),
    decreases s.len() - b,
{
    if b == s.len() {
        if s.len() > 0 {
            assert(!is_space(s.last()));
        }
        assert(s.take(b) =~= s);
    } else {
        let t = s.drop_last();
        lemma_trim_end_at(t, b);
        assert(t.take(b) =~= s.take(b));
    }
}

fn is_space_char(c: char) -> (r: bool)
    ensures
        r == is_space(c),
{
    c == ' ' || c == '\t' || c == '\n' || c == '\r' || c == '\u{b}' || c == '\u{c}'
}

/// The start of the text trimmed of ASCII whitespace.
pub fn trim_start_str<'a>(s: &'a str) -> (r: &'a str)
    ensures
        r@ == trim_start_spec(s@),
{
    let n = s.unicode_len();
    let mut a: usize = 0;
    while a < n
        invariant
            n == s@.len(),
            0 <= a <= n,
            forall|k: int| 0 <= k < a ==> is_space(#[trigger] s@[k]),
        ensures
            0 <= a <= n,
            forall|k: int| 0 <= k < a ==> is_space(#[trigger] s@[k]),
            a == n || !is_space(s@[a as int]),
        decreases n - a,
    {
        if !is_space_char(s.get_char(a)) {
            break;
        }
        a += 1;
    }
    proof {
        lemma_trim_start_at(s@, a as int);
    }
    s.substring_char(a, n)
}

/// Both ends of the text trimmed of ASCII whitespace.
pub fn trim_str<'a>(s: &'a str) -> (r: &'a str)
    ensures
        r@ == trim_spec(s@),
{
    let start = trim_start_str(s);
    let n = start.unicode_len();
    let mut b: usize = n;
    while b > 0
        invariant
            n == start@.len(),
            0 <= b <= n,
            forall|k: int| b <= k < n ==> is_space(#[trigger] start@[k]),
        ensures
            0 <= b <= n,
            forall|k: int| b <= k < n ==> is_space(#[trigger] start@[k]),
            b == 0 || !is_space(start@[b - 1]),
        decreases b,
    {
        if !is_space_char(start.get_char(b - 1)) {
            break;
        }
        b -= 1;
    }
    proof {
        lemma_trim_end_at(start@, b as int);
    }
    start.substring_char(0, b)
}

// ---------------------------------------------------------------------------
// Rendering numbers as text
// ---------------------------------------------------------------------------
pub open spec fn digit_char(d: int) -> char {
    if d == 0 {
        '0'
    } else if d == 1 {
        '1'
    } else if d == 2 {
        '2'
    } else if d == 3 {
        '3'
    } else if d == 4 {
        '4'
    } else if d == 5 {
        '5'
    } else if d == 6 {
        '6'
    } else if d == 7 {
        '7'
    } else if d == 8 {
        '8'
    } else {
        '9'
    }
}

pub open spec fn hex_char(d: int) -> char {
    if d < 10 {
        digit_char(d)
    } else if d == 10 {
        'A'
    } else if d == 11 {
        'B'
    } else if d == 12 {
        'C'
    } else if d == 13 {
        'D'
    } else if d == 14 {
        'E'
    } else {
        'F'
    }
}

/// The plain decimal rendering of a non-negative number, no leading zeros.
pub open spec fn dec_digits(n: int) -> Seq<char>
    decreases n,
{
    if n < 10 {
        seq![digit_char(n)]
    } else {
        dec_digits(n / 10).push(digit_char(n % 10))
    }
}

/// The decimal rendering of a non-negative number, zero-padded to `w` digits.
pub open spec fn pad_digits(n: int, w: nat) -> Seq<char>
    decreases w,
{
    if w == 0 {
        Seq::<char>::empty()
    } else {
        pad_digits(n / 10, (w - 1) as nat).push(digit_char(n % 10))
    }
}

/// The two upper-case hexadecimal digits of a byte.
pub open spec fn hex2(n: int) -> Seq<char> {
    seq![hex_char(n / 16), hex_char(n % 16)]
}

fn digit_to_char(d: u64) -> (c: char)
    requires
        d < 10,
    ensures
        c == digit_char(d as int),
{
    match d {
        0 => '0',
        1 => '1',
        2 => '2',
        3 => '3',
        4 => '4',
        5 => '5',
        6 => '6',
        7 => '7',
        8 => '8',
        _ => '9',
    }
}

fn hex_to_char(d: u8) -> (c: char)
    requires
        d < 16,
    ensures
        c == hex_char(d as int),
{
    match d {
        0 => '0',
        1 => '1',
        2 => '2',
        3 => '3',
        4 => '4',
        5 => '5',
        6 => '6',
        7 => '7',
        8 => '8',
        9 => '9',
        10 => 'A',
        11 => 'B',
        12 => 'C',
        13 => 'D',
        14 => 'E',
        _ => 'F',
    }
}

/// Renders a number as plain decimal text.
pub fn u64_to_string(n: u64) -> (r: String)
    ensures
        r@ == dec_digits(n as int),
    decreases n,
{
    if n < 10 {
        let mut r = String::new();
        push_char(&mut r, digit_to_char(n));
        assert(r@ =~= dec_digits(n as int));
        r
    } else {
        let mut r = u64_to_string(n / 10);
        push_char(&mut r, digit_to_char(n % 10));
        r
    }
}

/// Appends a number as decimal text zero-padded to `w` digits.
pub fn append_pad(s: &mut String, n: u64, w: usize)
    ensures
        final(s)@ == old(s)@ + pad_digits(n as int, w as nat),
    decreases w,
{
    if w == 0 {
        assert(final(s)@ =~= old(s)@ + pad_digits(n as int, 0));
    } else {
        append_pad(s, n / 10, w - 1);
        push_char(s, digit_to_char(n % 10));
        assert(final(s)@ =~= old(s)@ + pad_digits(n as int, w as nat));
    }
}

/// Appends a byte as two upper-case hexadecimal digits.
pub fn append_hex2(s: &mut String, b: u8)
    ensures
        final(s)@ == old(s)@ + hex2(b as int),
{
    push_char(s, hex_to_char(b / 16));
    push_char(s, hex_to_char(b % 16));
    assert(final(s)@ =~= old(s)@ + hex2(b as int));
}

// ---------------------------------------------------------------------------
// Path basenames
// ---------------------------------------------------------------------------
/// The name with its trailing `/` separators removed: a directory entry
/// names the same terminal component as the file entry would.
pub open spec fn trim_slashes_spec(s: Seq<char>) -> Seq<char>
    decreases s.len(),
{
    if s.len() > 0 && s.last() == '/' {
        trim_slashes_spec(s.drop_last())
    } else {
        s
    }
}

/// The characters after the last `/` of a slash-trimmed name.
pub open spec fn after_last_slash(s: Seq<char>) -> Seq<char>
    decreases s.len(),
{
    if s.len() == 0 {
        s
    } else if s.last() == '/' {
        Seq::<char>::empty()
    } else {
        after_last_slash(s.drop_last()).push(s.last())
    }
}

/// The terminal path component of an archive entry's name: the text after
/// the last `/`, trailing separators ignored.
pub open spec fn base_name_spec(s: Seq<char>) -> Seq<char> {
    after_last_slash(trim_slashes_spec(s))
}

proof fn lemma_trim_slashes_at(s: Seq<char>, e: int)
    requires
        0 <= e <= s.len(),
        forall|k: int| e <= k < s.len() ==> s[k] == '/',
        e == 0 || s[e - 1] != '/',
    ensures
        trim_slashes_spec(s) == s.take(e),
    decreases s.len() - e,
{
    if e == s.len() {
        if s.len() > 0 {
            assert(s.last() != '/');
        }
        assert(s.take(e) =~= s);
    } else {
        let t = s.drop_last();
        lemma_trim_slashes_at(t, e);
        assert(t.take(e) =~= s.take(e));
    }
}

proof fn lemma_after_last_slash_at(s: Seq<char>, p: int)
    requires
        0 <= p < s.len(),
        s[p] == '/',
        forall|k: int| p < k < s.len() ==> s[k] != '/',
    ensures
        after_last_slash(s) == s.skip(p + 1),
    decreases s.len(),
{
    if p == s.len() - 1 {
        assert(s.skip(p + 1) =~= Seq::<char>::empty());
    } else {
        let t = s.drop_last();
        lemma_after_last_slash_at(t, p);
        assert(t.skip(p + 1).push(s.last()) =~= s.skip(p + 1));
    }
}

proof fn lemma_after_last_slash_none(s: Seq<char>)
    requires
        forall|k: int| 0 <= k < s.len() ==> s[k] != '/',
    ensures
        after_last_slash(s) == s,
    decreases s.len(),
{
    if s.len() > 0 {
        let t = s.drop_last();
        lemma_after_last_slash_none(t);
        assert(t.push(s.last()) =~= s);
    }
}

/// The terminal path component of an entry name: the text after its last
/// `/`, with trailing separators ignored.
pub fn base_name<'a>(s: &'a str) -> (r: &'a str)
    ensures
        r@ == base_name_spec(s@),
{
    let n = s.unicode_len();
    let mut e: usize = n;
    while e > 0
        invariant
            n == s@.len(),
            0 <= e <= n,
            forall|k: int| e <= k < n ==> s@[k] == '/',
        ensures
            0 <= e <= n,
            forall|k: int| e <= k < n ==> s@[k] == '/',
            e == 0 || s@[e - 1] != '/',
        decreases e,
    {
        if s.get_char(e - 1) != '/' {
            break;
        }
        e -= 1;
    }
    let ghost trimmed = s@.take(e as int);
    proof {
        lemma_trim_slashes_at(s@, e as int);
    }
    let mut b: usize = e;
    while b > 0
        invariant
            n == s@.len(),
            0 <= b <= e <= n,
            trimmed == s@.take(e as int),
            forall|k: int| b <= k < e ==> s@[k] != '/',
        ensures
            0 <= b <= e,
            forall|k: int| b <= k < e ==> s@[k] != '/',
            b == 0 || s@[b - 1] == '/',
        decreases b,
    {
        if s.get_char(b - 1) == '/' {
            break;
        }
        b -= 1;
    }
    proof {
        assert(forall|k: int| 0 <= k < e ==> trimmed[k] == s@[k]);
        if b == 0 {
            lemma_after_last_slash_none(trimmed);
            assert(trimmed.skip(0) =~= trimmed);
        } else {
            assert(trimmed[b - 1] == '/');
            lemma_after_last_slash_at(trimmed, b - 1);
        }
        assert(trimmed.skip(b as int) =~= s@.subrange(b as int, e as int));
    }
    s.substring_char(b, e)
}

/// The numeric value of a hexadecimal digit.
pub fn hex_val_of(c: char) -> (r: u8)
    requires
        is_hex_digit(c),
    ensures
        r as int == hex_digit_val(c),
{
    let v = c as u32;
    if '0' <= c && c <= '9' {
        (v - '0' as u32) as u8
    } else if 'a' <= c && c <= 'f' {
        (v - 'a' as u32 + 10) as u8
    } else {
        (v - 'A' as u32 + 10) as u8
    }
}

} // verus!

