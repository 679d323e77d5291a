//! Civil timestamps: the library's own timezone-aware instant.
//!
//! The backing log stores timestamps as text, so the store needs to render an
//! instant to a string and to read that exact shape back.  Both directions are
//! verified here, together with the ordering that "newest first" queries use.

use vstd::prelude::*;
use chrono::Datelike;
use chrono::Timelike;

verus! {

/// One timezone-aware instant, split into its civil fields.
///
/// `offset_seconds` is the local offset from UTC, east positive, as the clock
/// source reports it.
#[derive(Clone, Copy, PartialEq, Eq, Structural, Debug)]
pub struct Timestamp {
    pub year: i32,
    pub month: u8,
    pub day: u8,
    pub hour: u8,
    pub minute: u8,
    pub second: u8,
    pub offset_seconds: i32,
}

impl Timestamp {
    /// The calendar fields are in the ranges a real clock reading has.
    pub open spec fn calendar_ok(self) -> bool {
        &&& 1 <= self.month <= 12
        &&& 1 <= self.day <= 31
        &&& self.hour < 24
        &&& self.minute < 60
        &&& self.second < 60
        &&& -86399 <= self.offset_seconds <= 86399
    }

    /// Well-formed: a clock reading whose year fits the four-digit text form.
    pub open spec fn wf(self) -> bool {
        self.calendar_ok() && 0 <= self.year <= 9999
    }

    /// Total order key over the civil fields, most significant first.
    /// Matches the lexicographic order of the fixed-width text renderings.
    pub open spec fn spec_key(self) -> int {
        self.second + 60 * (self.minute + 60 * (self.hour + 24 * (self.day + 32 * (self.month
            + 13 * self.year))))
    }

    /// Executable order key.
    pub fn key(&self) -> (k: i64)
        requires
            self.wf(),
        ensures
            k == self.spec_key(),
    {
        self.second as i64 + 60 * (self.minute as i64 + 60 * (self.hour as i64 + 24 * (self.day
            as i64 + 32 * (self.month as i64 + 13 * self.year as i64))))
    }

    /// `self` is no newer than `other`.
    pub open spec fn spec_le(self, other: Timestamp) -> bool {
        self.spec_key() <= other.spec_key()
    }

    /// Executable comparison: `self` is no newer than `other`.
    pub fn le(&self, other: &Timestamp) -> (r: bool)
        requires
            self.wf(),
            other.wf(),
        ensures
            r == self.spec_le(*other),
    {
        self.key() <= other.key()
    }

    /// Both instants fall on the same local calendar day.
    pub open spec fn spec_same_day(self, other: Timestamp) -> bool {
        self.year == other.year && self.month == other.month && self.day == other.day
    }

    /// Executable same-local-day test.
    pub fn same_day(&self, other: &Timestamp) -> (r: bool)
        ensures
            r == self.spec_same_day(*other),
    {
        self.year == other.year && self.month == other.month && self.day == other.day
    }
}

/// The decimal digit character for `d` in `0..10`.
pub open spec fn digit_char(d: int) -> char {
    if d == 0 { '0' }
    else if d == 1 { '1' }
    else if d == 2 { '2' }
    else if d == 3 { '3' }
    else if d == 4 { '4' }
    else if d == 5 { '5' }
    else if d == 6 { '6' }
    else if d == 7 { '7' }
    else if d == 8 { '8' }
    else { '9' }
}

/// The numeric value of a decimal digit character, or -1 for any other char.
pub open spec fn digit_val(c: char) -> int {
    if '0' as int <= c as int <= '9' as int {
        c as int - '0' as int
    } else {
        -1
    }
}

/// Reading a digit character back gives the digit.
pub broadcast proof fn lemma_digit_roundtrip(d: int)
    requires
        0 <= d < 10,
    ensures
        digit_val(#[trigger] digit_char(d)) == d,
{
}

/// A one-character string slice for the digit `d`.
pub fn digit_str(d: u8) -> (s: &'static str)
    requires
        d < 10,
    ensures
        s@ =~= seq![digit_char(d as int)],
{
    proof {
        reveal_strlit("0");
        reveal_strlit("1");
        reveal_strlit("2");
        reveal_strlit("3");
        reveal_strlit("4");
        reveal_strlit("5");
        reveal_strlit("6");
        reveal_strlit("7");
        reveal_strlit("8");
        reveal_strlit("9");
    }
    match d {
        0 => "0",
        1 => "1",
        2 => "2",
        3 => "3",
        4 => "4",
        5 => "5",
        6 => "6",
        7 => "7",
        8 => "8",
        _ => "9",
    }
}

/// Two decimal digits of `n`, zero padded, for `n` in `0..100`.
pub open spec fn two_digits(n: int) -> Seq<char> {
    seq![digit_char(n / 10 % 10), digit_char(n % 10)]
}

/// Four decimal digits of `n`, zero padded, for `n` in `0..10000`.
pub open spec fn four_digits(n: int) -> Seq<char> {
    seq![
        digit_char(n / 1000 % 10),
        digit_char(n / 100 % 10),
        digit_char(n / 10 % 10),
        digit_char(n % 10),
    ]
}

/// Appends the two-digit rendering of `n` to `out`.
pub fn push_two_digits(out: &mut String, n: u8)
    requires
        n < 100,
    ensures
        final(out)@ == old(out)@ + two_digits(n as int),
{
    out.append(digit_str(n / 10 % 10));
    out.append(digit_str(n % 10));
    proof {
        assert(final(out)@ =~= old(out)@ + two_digits(n as int));
    }
}

/// Appends the four-digit rendering of `n` to `out`.
pub fn push_four_digits(out: &mut String, n: u16)
    requires
        n < 10000,
    ensures
        final(out)@ == old(out)@ + four_digits(n as int),
{
    out.append(digit_str((n / 1000 % 10) as u8));
    out.append(digit_str((n / 100 % 10) as u8));
    out.append(digit_str((n / 10 % 10) as u8));
    out.append(digit_str((n % 10) as u8));
    proof {
        assert(final(out)@ =~= old(out)@ + four_digits(n as int));
    }
}

/// The absolute value of the offset, in seconds.
pub open spec fn spec_abs_offset(ts: Timestamp) -> int {
    if ts.offset_seconds < 0 {
        -ts.offset_seconds
    } else {
        ts.offset_seconds as int
    }
}

/// The sign character the text form uses for the offset.
pub open spec fn spec_offset_sign(ts: Timestamp) -> char {
    if ts.offset_seconds < 0 {
        '-'
    } else {
        '+'
    }
}

/// The 25-character text form `YYYY-MM-DDTHH:MM:SS+HH:MM` of an instant.
/// This is the shape the store writes into the log.
pub open spec fn spec_rfc3339(ts: Timestamp) -> Seq<char> {
    let y = ts.year as int;
    let mo = ts.month as int;
    let d = ts.day as int;
    let h = ts.hour as int;
    let mi = ts.minute as int;
    let s = ts.second as int;
    let minutes = spec_abs_offset(ts) / 60;
    let oh = minutes / 60;
    let om = minutes % 60;
    seq![
        digit_char(y / 1000 % 10), digit_char(y / 100 % 10), digit_char(y / 10 % 10),
        digit_char(y % 10), '-',
        digit_char(mo / 10 % 10), digit_char(mo % 10), '-',
        digit_char(d / 10 % 10), digit_char(d % 10), 'T',
        digit_char(h / 10 % 10), digit_char(h % 10), ':',
        digit_char(mi / 10 % 10), digit_char(mi % 10), ':',
        digit_char(s / 10 % 10), digit_char(s % 10),
        spec_offset_sign(ts),
        digit_char(oh / 10 % 10), digit_char(oh % 10), ':',
        digit_char(om / 10 % 10), digit_char(om % 10),
    ]
}

/// The 15-character compact form `YYYYMMDD_HHMMSS` used in mirror file names.
pub open spec fn spec_compact(ts: Timestamp) -> Seq<char> {
    let y = ts.year as int;
    let mo = ts.month as int;
    let d = ts.day as int;
    let h = ts.hour as int;
    let mi = ts.minute as int;
    let s = ts.second as int;
    seq![
        digit_char(y / 1000 % 10), digit_char(y / 100 % 10), digit_char(y / 10 % 10),
        digit_char(y % 10),
        digit_char(mo / 10 % 10), digit_char(mo % 10),
        digit_char(d / 10 % 10), digit_char(d % 10), '_',
        digit_char(h / 10 % 10), digit_char(h % 10),
        digit_char(mi / 10 % 10), digit_char(mi % 10),
        digit_char(s / 10 % 10), digit_char(s % 10),
    ]
}

/// The 19-character display form `YYYY-MM-DD HH:MM:SS` used in mirror files
/// and transcript exports.
pub open spec fn spec_display(ts: Timestamp) -> Seq<char> {
    let y = ts.year as int;
    let mo = ts.month as int;
    let d = ts.day as int;
    let h = ts.hour as int;
    let mi = ts.minute as int;
    let s = ts.second as int;
    seq![
        digit_char(y / 1000 % 10), digit_char(y / 100 % 10), digit_char(y / 10 % 10),
        digit_char(y % 10), '-',
        digit_char(mo / 10 % 10), digit_char(mo % 10), '-',
        digit_char(d / 10 % 10), digit_char(d % 10), ' ',
        digit_char(h / 10 % 10), digit_char(h % 10), ':',
        digit_char(mi / 10 % 10), digit_char(mi % 10), ':',
        digit_char(s / 10 % 10), digit_char(s % 10),
    ]
}

impl Timestamp {
    /// Renders the instant in the exact shape the log stores.
    #[verifier::rlimit(60)]
    pub fn format_rfc3339(&self) -> (r: String)
        requires
            self.wf(),
        ensures
            r@ == spec_rfc3339(*self),
    {
        proof {
            reveal_strlit("-");
            reveal_strlit("+");
            reveal_strlit("T");
            reveal_strlit(":");
        }
        let mut out = String::new();
        push_four_digits(&mut out, self.year as u16);
        out.append("-");
        push_two_digits(&mut out, self.month);
        out.append("-");
        push_two_digits(&mut out, self.day);
        out.append("T");
        push_two_digits(&mut out, self.hour);
        out.append(":");
        push_two_digits(&mut out, self.minute);
        out.append(":");
        push_two_digits(&mut out, self.second);
        let abs: i32 = if self.offset_seconds < 0 {
            out.append("-");
            -self.offset_seconds
        } else {
            out.append("+");
            self.offset_seconds
        };
        let minutes: i32 = abs / 60;
        push_two_digits(&mut out, (minutes / 60) as u8);
        out.append(":");
        push_two_digits(&mut out, (minutes % 60) as u8);
        proof {
            assert(out@ =~= spec_rfc3339(*self));
        }
        out
    }

    /// Renders the instant in the compact shape mirror file names use.
    pub fn format_compact(&self) -> (r: String)
        requires
            self.wf(),
        ensures
            r@ == spec_compact(*self),
    {
        proof {
            reveal_strlit("_");
        }
        let mut out = String::new();
        push_four_digits(&mut out, self.year as u16);
        push_two_digits(&mut out, self.month);
        push_two_digits(&mut out, self.day);
        out.append("_");
        push_two_digits(&mut out, self.hour);
        push_two_digits(&mut out, self.minute);
        push_two_digits(&mut out, self.second);
        proof {
            assert(out@ =~= spec_compact(*self));
        }
        out
    }

    /// Renders the instant in the human-readable display shape.
    pub fn format_display(&self) -> (r: String)
        requires
            self.wf(),
        ensures
            r@ == spec_display(*self),
    {
        proof {
            reveal_strlit("-");
            reveal_strlit(" ");
            reveal_strlit(":");
        }
        let mut out = String::new();
        push_four_digits(&mut out, self.year as u16);
        out.append("-");
        push_two_digits(&mut out, self.month);
        out.append("-");
        push_two_digits(&mut out, self.day);
        out.append(" ");
        push_two_digits(&mut out, self.hour);
        out.append(":");
        push_two_digits(&mut out, self.minute);
        out.append(":");
        push_two_digits(&mut out, self.second);
        proof {
            assert(out@ =~= spec_display(*self));
        }
        out
    }
}

/// What `parse_rfc3339` accepts and yields: exactly the 25-character shape
/// `spec_rfc3339` writes, with every field inside its calendar range.
pub open spec fn spec_parse_rfc3339(q: Seq<char>) -> Option<Timestamp> {
    if q.len() == 25
        && digit_val(q[0]) >= 0 && digit_val(q[1]) >= 0 && digit_val(q[2]) >= 0
        && digit_val(q[3]) >= 0 && q[4] == '-'
        && digit_val(q[5]) >= 0 && digit_val(q[6]) >= 0 && q[7] == '-'
        && digit_val(q[8]) >= 0 && digit_val(q[9]) >= 0 && q[10] == 'T'
        && digit_val(q[11]) >= 0 && digit_val(q[12]) >= 0 && q[13] == ':'
        && digit_val(q[14]) >= 0 && digit_val(q[15]) >= 0 && q[16] == ':'
        && digit_val(q[17]) >= 0 && digit_val(q[18]) >= 0
        && (q[19] == '+' || q[19] == '-')
        && digit_val(q[20]) >= 0 && digit_val(q[21]) >= 0 && q[22] == ':'
        && digit_val(q[23]) >= 0 && digit_val(q[24]) >= 0 {
        let year = 1000 * digit_val(q[0]) + 100 * digit_val(q[1]) + 10 * digit_val(q[2])
            + digit_val(q[3]);
        let month = 10 * digit_val(q[5]) + digit_val(q[6]);
        let day = 10 * digit_val(q[8]) + digit_val(q[9]);
        let hour = 10 * digit_val(q[11]) + digit_val(q[12]);
        let minute = 10 * digit_val(q[14]) + digit_val(q[15]);
        let second = 10 * digit_val(q[17]) + digit_val(q[18]);
        let oh = 10 * digit_val(q[20]) + digit_val(q[21]);
        let om = 10 * digit_val(q[23]) + digit_val(q[24]);
        if 1 <= month <= 12 && 1 <= day <= 31 && hour <= 23 && minute <= 59 && second <= 59
            && oh <= 23 && om <= 59 {
            let abs = 3600 * oh + 60 * om;
            Some(Timestamp {
                year: year as i32,
                month: month as u8,
                day: day as u8,
                hour: hour as u8,
                minute: minute as u8,
                second: second as u8,
                offset_seconds: (if q[19] == '-' { -abs } else { abs }) as i32,
            })
        } else {
            None
        }
    } else {
        None
    }
}

/// Reads the decimal digit at position `i`, if there is one.
fn digit_at(s: &str, i: usize) -> (r: Option<u8>)
    requires
        i < s@.len(),
    ensures
        r == (if digit_val(s@[i as int]) >= 0 {
            Some(digit_val(s@[i as int]) as u8)
        } else {
            None::<u8>
        }),
{
    let c = s.get_char(i);
    let v = c as u32;
    if 48 <= v && v <= 57 {
        Some((v - 48) as u8)
    } else {
        None
    }
}

/// Parses the exact text shape `spec_rfc3339` writes back into an instant.
/// Anything else is rejected.
pub fn parse_rfc3339(s: &str) -> (r: Option<Timestamp>)
    ensures
        r == spec_parse_rfc3339(s@),
        r matches Some(ts) ==> ts.wf(),
{
    if s.unicode_len() != 25 {
        return None;
    }
    let d0 = digit_at(s, 0);
    let d1 = digit_at(s, 1);
    let d2 = digit_at(s, 2);
    let d3 = digit_at(s, 3);
    let d5 = digit_at(s, 5);
    let d6 = digit_at(s, 6);
    let d8 = digit_at(s, 8);
    let d9 = digit_at(s, 9);
    let d11 = digit_at(s, 11);
    let d12 = digit_at(s, 12);
    let d14 = digit_at(s, 14);
    let d15 = digit_at(s, 15);
    let d17 = digit_at(s, 17);
    let d18 = digit_at(s, 18);
    let d20 = digit_at(s, 20);
    let d21 = digit_at(s, 21);
    let d23 = digit_at(s, 23);
    let d24 = digit_at(s, 24);
    if d0.is_none() || d1.is_none() || d2.is_none() || d3.is_none() || d5.is_none()
        || d6.is_none() || d8.is_none() || d9.is_none() || d11.is_none() || d12.is_none()
        || d14.is_none() || d15.is_none() || d17.is_none() || d18.is_none() || d20.is_none()
        || d21.is_none() || d23.is_none() || d24.is_none() {
        return None;
    }
    if s.get_char(4) != '-' || s.get_char(7) != '-' || s.get_char(10) != 'T'
        || s.get_char(13) != ':' || s.get_char(16) != ':' || s.get_char(22) != ':' {
        return None;
    }
    let sign = s.get_char(19);
    if sign != '+' && sign != '-' {
        return None;
    }
    let year: u16 = 1000 * d0.unwrap() as u16 + 100 * d1.unwrap() as u16 + 10 * d2.unwrap()
        as u16 + d3.unwrap() as u16;
    let month: u8 = 10 * d5.unwrap() + d6.unwrap();
    let day: u8 = 10 * d8.unwrap() + d9.unwrap();
    let hour: u8 = 10 * d11.unwrap() + d12.unwrap();
    let minute: u8 = 10 * d14.unwrap() + d15.unwrap();
    let second: u8 = 10 * d17.unwrap() + d18.unwrap();
    let oh: u8 = 10 * d20.unwrap() + d21.unwrap();
    let om: u8 = 10 * d23.unwrap() + d24.unwrap();
    if !(1 <= month && month <= 12 && 1 <= day && day <= 31 && hour <= 23 && minute <= 59
        && second <= 59 && oh <= 23 && om <= 59) {
        return None;
    }
    let abs: i32 = 3600 * oh as i32 + 60 * om as i32;
    let offset_seconds: i32 = if sign == '-' { -abs } else { abs };
    Some(Timestamp {
        year: year as i32,
        month,
        day,
        hour,
        minute,
        second,
        offset_seconds,
    })
}

/// Splitting a number under 100 into its two decimal digits loses nothing.
proof fn lemma_two_digit_recompose(n: int)
    requires
        0 <= n < 100,
    ensures
        10 * (n / 10 % 10) + n % 10 == n,
{
    assert(10 * (n / 10 % 10) + n % 10 == n) by (nonlinear_arith)
        requires
            0 <= n < 100,
    ;
}

/// Splitting a number under 10000 into its four decimal digits loses nothing.
proof fn lemma_four_digit_recompose(n: int)
    requires
        0 <= n < 10000,
    ensures
        1000 * (n / 1000 % 10) + 100 * (n / 100 % 10) + 10 * (n / 10 % 10) + n % 10 == n,
{
    assert(1000 * (n / 1000 % 10) + 100 * (n / 100 % 10) + 10 * (n / 10 % 10) + n % 10 == n)
        by (nonlinear_arith)
        requires
            0 <= n < 10000,
    ;
}

/// An offset that is a whole number of minutes survives the split into the
/// hour and minute digits of the text form.
proof fn lemma_offset_recompose(a: int)
    requires
        0 <= a <= 86399,
        a % 60 == 0,
    ensures
        3600 * (a / 60 / 60) + 60 * (a / 60 % 60) == a,
        a / 60 / 60 <= 23,
        a / 60 % 60 <= 59,
{
    assert(3600 * (a / 60 / 60) + 60 * (a / 60 % 60) == a && a / 60 / 60 <= 23 && a / 60 % 60
        <= 59) by (nonlinear_arith)
        requires
            0 <= a <= 86399,
            a % 60 == 0,
    ;
}

/// Round trip: what `spec_rfc3339` writes, `spec_parse_rfc3339` reads back
/// unchanged.  Sub-minute offsets are the one thing the text form cannot
/// carry, so they are excluded.
pub proof fn lemma_rfc3339_roundtrip(ts: Timestamp)
    requires
        ts.wf(),
        ts.offset_seconds % 60 == 0,
    ensures
        spec_parse_rfc3339(spec_rfc3339(ts)) == Some(ts),
{
    broadcast use lemma_digit_roundtrip;

    let q = spec_rfc3339(ts);
    let y = ts.year as int;
    let mo = ts.month as int;
    let d = ts.day as int;
    let h = ts.hour as int;
    let mi = ts.minute as int;
    let s = ts.second as int;
    let a = spec_abs_offset(ts);
    lemma_four_digit_recompose(y);
    lemma_two_digit_recompose(mo);
    lemma_two_digit_recompose(d);
    lemma_two_digit_recompose(h);
    lemma_two_digit_recompose(mi);
    lemma_two_digit_recompose(s);
    assert(a % 60 == 0) by (nonlinear_arith)
        requires
            ts.offset_seconds % 60 == 0,
            a == spec_abs_offset(ts),
    ;
    lemma_offset_recompose(a);
    let oh = a / 60 / 60;
    let om = a / 60 % 60;
    lemma_two_digit_recompose(oh);
    lemma_two_digit_recompose(om);
    assert(1000 * digit_val(q[0]) + 100 * digit_val(q[1]) + 10 * digit_val(q[2])
        + digit_val(q[3]) == y);
    assert(10 * digit_val(q[5]) + digit_val(q[6]) == mo);
    assert(10 * digit_val(q[8]) + digit_val(q[9]) == d);
    assert(10 * digit_val(q[11]) + digit_val(q[12]) == h);
    assert(10 * digit_val(q[14]) + digit_val(q[15]) == mi);
    assert(10 * digit_val(q[17]) + digit_val(q[18]) == s);
    assert(10 * digit_val(q[20]) + digit_val(q[21]) == oh);
    assert(10 * digit_val(q[23]) + digit_val(q[24]) == om);
    assert(3600 * (10 * digit_val(q[20]) + digit_val(q[21])) + 60 * (10 * digit_val(q[23])
        + digit_val(q[24])) == a);
    if ts.offset_seconds < 0 {
        assert(q[19] == '-');
        assert(spec_parse_rfc3339(q) == Some(ts));
    } else {
        assert(q[19] == '+');
        assert(q[19] != '-');
        assert(spec_parse_rfc3339(q) == Some(ts));
    }
}

/// `a` is no later than `b` in character-by-character order.
pub open spec fn lex_le(a: Seq<char>, b: Seq<char>) -> bool {
    a == b || exists|i: int|
        #![trigger a[i], b[i]]
        0 <= i < a.len() && i < b.len() && (forall|j: int| 0 <= j < i ==> a[j] == b[j]) && (
        a[i] as int) < (b[i] as int)
}

/// Digit characters carry consecutive character codes.
proof fn lemma_digit_char_code(d: int)
    requires
        0 <= d < 10,
    ensures
        digit_char(d) as int == 48 + d,
{
}

/// The order key orders the civil fields most significant first.
proof fn lemma_key_orders_fields(a: Timestamp, b: Timestamp)
    requires
        a.wf(),
        b.wf(),
        a.spec_key() <= b.spec_key(),
    ensures
        a.year < b.year || (a.year == b.year && (a.month < b.month || (a.month == b.month && (
        a.day < b.day || (a.day == b.day && (a.hour < b.hour || (a.hour == b.hour && (a.minute
            < b.minute || (a.minute == b.minute && a.second <= b.second))))))))),
{
}

/// For two numbers under 100, the first differing decimal digit decides.
proof fn lemma_two_digit_first_diff(m: int, n: int)
    requires
        0 <= m < n < 100,
    ensures
        m / 10 % 10 < n / 10 % 10 || (m / 10 % 10 == n / 10 % 10 && m % 10 < n % 10),
{
    assert(m / 10 % 10 < n / 10 % 10 || (m / 10 % 10 == n / 10 % 10 && m % 10 < n % 10))
        by (nonlinear_arith)
        requires
            0 <= m < n < 100,
    ;
}

/// For two numbers under 10000, the first differing decimal digit decides.
proof fn lemma_four_digit_first_diff(m: int, n: int)
    requires
        0 <= m < n < 10000,
    ensures
        m / 1000 % 10 < n / 1000 % 10 || (m / 1000 % 10 == n / 1000 % 10 && (m / 100 % 10 < n
            / 100 % 10 || (m / 100 % 10 == n / 100 % 10 && (m / 10 % 10 < n / 10 % 10 || (m / 10
            % 10 == n / 10 % 10 && m % 10 < n % 10))))),
{
    assert(m / 1000 % 10 < n / 1000 % 10 || (m / 1000 % 10 == n / 1000 % 10 && (m / 100 % 10 < n
        / 100 % 10 || (m / 100 % 10 == n / 100 % 10 && (m / 10 % 10 < n / 10 % 10 || (m / 10 % 10
        == n / 10 % 10 && m % 10 < n % 10)))))) by (nonlinear_arith)
        requires
            0 <= m < n < 10000,
    ;
}

/// A first smaller character after an equal prefix decides the text order.
proof fn lemma_lex_at(x: Seq<char>, y: Seq<char>, i: int)
    requires
        0 <= i < x.len(),
        i < y.len(),
        forall|j: int| 0 <= j < i ==> x[j] == y[j],
        (x[i] as int) < (y[i] as int),
    ensures
        lex_le(x, y),
{
}

/// Mirror artifacts sort chronologically: an instant that is no newer than
/// another renders to a compact name that is no later in character order.
/// The full file names share one fixed prefix and suffix, so they sort the
/// same way.
pub proof fn lemma_mirror_names_sort(a: Timestamp, b: Timestamp)
    requires
        a.wf(),
        b.wf(),
        a.spec_le(b),
    ensures
        lex_le(spec_compact(a), spec_compact(b)),
{
    let x = spec_compact(a);
    let y = spec_compact(b);
    lemma_key_orders_fields(a, b);
    if a.year != b.year {
        let m = a.year as int;
        let n = b.year as int;
        lemma_four_digit_first_diff(m, n);
        if m / 1000 % 10 != n / 1000 % 10 {
            lemma_digit_char_code(m / 1000 % 10);
            lemma_digit_char_code(n / 1000 % 10);
            lemma_lex_at(x, y, 0);
        } else if m / 100 % 10 != n / 100 % 10 {
            lemma_digit_char_code(m / 100 % 10);
            lemma_digit_char_code(n / 100 % 10);
            lemma_lex_at(x, y, 1);
        } else if m / 10 % 10 != n / 10 % 10 {
            lemma_digit_char_code(m / 10 % 10);
            lemma_digit_char_code(n / 10 % 10);
            lemma_lex_at(x, y, 2);
        } else {
            lemma_digit_char_code(m % 10);
            lemma_digit_char_code(n % 10);
            lemma_lex_at(x, y, 3);
        }
    } else if a.month != b.month {
        let m = a.month as int;
        let n = b.month as int;
        lemma_two_digit_first_diff(m, n);
        if m / 10 % 10 != n / 10 % 10 {
            lemma_digit_char_code(m / 10 % 10);
            lemma_digit_char_code(n / 10 % 10);
            lemma_lex_at(x, y, 4);
        } else {
            lemma_digit_char_code(m % 10);
            lemma_digit_char_code(n % 10);
            lemma_lex_at(x, y, 5);
        }
    } else if a.day != b.day {
        let m = a.day as int;
        let n = b.day as int;
        lemma_two_digit_first_diff(m, n);
        if m / 10 % 10 != n / 10 % 10 {
            lemma_digit_char_code(m / 10 % 10);
            lemma_digit_char_code(n / 10 % 10);
            lemma_lex_at(x, y, 6);
        } else {
            lemma_digit_char_code(m % 10);
            lemma_digit_char_code(n % 10);
            lemma_lex_at(x, y, 7);
        }
    } else if a.hour != b.hour {
        let m = a.hour as int;
        let n = b.hour as int;
        lemma_two_digit_first_diff(m, n);
        if m / 10 % 10 != n / 10 % 10 {
            lemma_digit_char_code(m / 10 % 10);
            lemma_digit_char_code(n / 10 % 10);
            lemma_lex_at(x, y, 9);
        } else {
            lemma_digit_char_code(m % 10);
            lemma_digit_char_code(n % 10);
            lemma_lex_at(x, y, 10);
        }
    } else if a.minute != b.minute {
        let m = a.minute as int;
        let n = b.minute as int;
        lemma_two_digit_first_diff(m, n);
        if m / 10 % 10 != n / 10 % 10 {
            lemma_digit_char_code(m / 10 % 10);
            lemma_digit_char_code(n / 10 % 10);
            lemma_lex_at(x, y, 11);
        } else {
            lemma_digit_char_code(m % 10);
            lemma_digit_char_code(n % 10);
            lemma_lex_at(x, y, 12);
        }
    } else if a.second != b.second {
        let m = a.second as int;
        let n = b.second as int;
        lemma_two_digit_first_diff(m, n);
        if m / 10 % 10 != n / 10 % 10 {
            lemma_digit_char_code(m / 10 % 10);
            lemma_digit_char_code(n / 10 % 10);
            lemma_lex_at(x, y, 13);
        } else {
            lemma_digit_char_code(m % 10);
            lemma_digit_char_code(n % 10);
            lemma_lex_at(x, y, 14);
        }
    } else {
        assert(x =~= y);
    }
}

/// Relies on `chrono::Local::now` for the current instant; chrono's calendar
/// and clock accessors document the field ranges stated here, and a fixed
/// offset is always strictly less than one day.
#[verifier::external_body]
pub(crate) fn now_timestamp() -> (t: Timestamp)
    ensures
        t.calendar_ok(),
{
    let now = chrono::Local::now();
    Timestamp {
        year: now.year(),
        month: now.month() as u8,
        day: now.day() as u8,
        hour: now.hour() as u8,
        minute: now.minute() as u8,
        second: now.second() as u8,
        offset_seconds: now.offset().local_minus_utc(),
    }
}

} // verus!

