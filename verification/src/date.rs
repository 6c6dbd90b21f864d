//! The `Date` header: the current time from chrono, written as
//! `%a, %e %b %Y %T GMT`.
use vstd::prelude::*;
use crate::response::bytes_of;
use crate::text::decimal;

verus! {

/// A moment in UTC as calendar fields.
pub struct DateFields {
    pub year: i32,
    /// 1 to 12.
    pub month: u32,
    /// 1 to 31.
    pub day: u32,
    /// Days since Monday, 0 to 6.
    pub weekday: u32,
    /// 0 to 23.
    pub hour: u32,
    /// 0 to 59.
    pub minute: u32,
    /// 0 to 59.
    pub second: u32,
    /// Nanoseconds since the whole second; 1,000,000,000 and above mark a leap second.
    pub nanosecond: u32,
}

/// The fields lie in the ranges chrono documents.
pub open spec fn fields_in_range(d: DateFields) -> bool {
    &&& 1 <= d.month <= 12
    &&& 1 <= d.day <= 31
    &&& d.weekday <= 6
    &&& d.hour <= 23
    &&& d.minute <= 59
    &&& d.second <= 59
    &&& d.nanosecond < 2_000_000_000
}

/// Two digits, the first a space when it would be 0 (`%e`).
pub open spec fn space_two(v: nat) -> Seq<u8> {
    if v < 10 {
        seq![32u8, (48 + v) as u8]
    } else {
        seq![(48 + v / 10) as u8, (48 + v % 10) as u8]
    }
}

/// Two digits, the first 0 when it would be 0 (`%H`, `%M`, `%S`).
pub open spec fn zero_two(v: nat) -> Seq<u8> {
    seq![(48 + v / 10) as u8, (48 + v % 10) as u8]
}

/// `s` with zeros in front up to `n` bytes.
pub open spec fn zero_pad(s: Seq<u8>, n: nat) -> Seq<u8> {
    if s.len() >= n {
        s
    } else {
        Seq::new((n - s.len()) as nat, |i: int| 48u8) + s
    }
}

/// The year as `%Y` writes it: four digits at least, zero-padded, and a sign before
/// years below 0 or above 9999.
pub open spec fn year_text(y: int) -> Seq<u8> {
    if 0 <= y <= 9999 {
        zero_pad(decimal(y as nat), 4)
    } else if y > 9999 {
        seq![43u8] + decimal(y as nat)
    } else {
        seq![45u8] + zero_pad(decimal((-y) as nat), 4)
    }
}

pub open spec fn weekday_name(w: u32) -> Seq<char> {
    if w == 0 {
        "Mon"@
    } else if w == 1 {
        "Tue"@
    } else if w == 2 {
        "Wed"@
    } else if w == 3 {
        "Thu"@
    } else if w == 4 {
        "Fri"@
    } else if w == 5 {
        "Sat"@
    } else {
        "Sun"@
    }
}

pub open spec fn month_name(m: u32) -> Seq<char> {
    if m == 1 {
        "Jan"@
    } else if m == 2 {
        "Feb"@
    } else if m == 3 {
        "Mar"@
    } else if m == 4 {
        "Apr"@
    } else if m == 5 {
        "May"@
    } else if m == 6 {
        "Jun"@
    } else if m == 7 {
        "Jul"@
    } else if m == 8 {
        "Aug"@
    } else if m == 9 {
        "Sep"@
    } else if m == 10 {
        "Oct"@
    } else if m == 11 {
        "Nov"@
    } else {
        "Dec"@
    }
}

/// `%a, %e %b %Y %T GMT`; a leap second is written as second 60.
pub open spec fn spec_http_date(d: DateFields) -> Seq<u8> {
    let sec = d.second + if d.nanosecond >= 1_000_000_000 {
        1nat
    } else {
        0nat
    };
    bytes_of(weekday_name(d.weekday)) + bytes_of(", "@) + space_two(d.day as nat) + bytes_of(" "@)
        + bytes_of(month_name(d.month)) + bytes_of(" "@) + year_text(d.year as int) + bytes_of(
        " "@,
    ) + zero_two(d.hour as nat) + bytes_of(":"@) + zero_two(d.minute as nat) + bytes_of(":"@)
        + zero_two(sec as nat) + bytes_of(" GMT"@)
}

/// `t` is some moment, in the ranges chrono documents, written as `spec_http_date`.
pub open spec fn is_http_date(t: Seq<u8>) -> bool {
    exists|d: DateFields| fields_in_range(d) && t == spec_http_date(d)
}

/// `chrono::Utc::now().format("%a, %e %b %Y %T GMT")` as bytes. Trusted: the text is the
/// current moment in UTC written as chrono documents these specifiers, which is
/// `spec_http_date` of its calendar fields (in the ranges chrono documents). Which moment
/// it is depends on the clock and is not stated.
#[verifier::external_body]
fn formatted_now() -> (r: Vec<u8>)
    ensures
        is_http_date(r@),
{
    chrono::Utc::now().format("%a, %e %b %Y %T GMT").to_string().into_bytes()
}

/// The current time as the `Date` header writes it.
pub fn get_current_date() -> (r: Vec<u8>)
    ensures
        is_http_date(r@),
{
    formatted_now()
}

} // verus!
