//! The provider's time source: a trusted reading of the wall clock in
//! UTC, and a verified RFC 3339 rendering of it.

use vstd::prelude::*;

use crate::text::{digit_char, digit_string};

verus! {

/// A calendar reading of the wall clock, broken down in UTC.
pub struct UtcTime {
    /// Years since 1900.
    pub tm_year: i32,
    /// Months since January, 0 to 11.
    pub tm_mon: i32,
    /// Day of the month, 1 to 31.
    pub tm_mday: i32,
    /// Hours after midnight, 0 to 23.
    pub tm_hour: i32,
    /// Minutes after the hour, 0 to 59.
    pub tm_min: i32,
    /// Seconds after the minute, 0 to 60 (60 on a leap second).
    pub tm_sec: i32,
}

/// Relies on time::now_utc: the current UTC time, broken down; the field
/// ranges are the ones the crate's `Tm` struct documents. Nothing is
/// assumed of the year: the clock may report any.
#[verifier::external_body]
fn now_utc_fields() -> (t: UtcTime)
    ensures
        0 <= t.tm_mon <= 11,
        1 <= t.tm_mday <= 31,
        0 <= t.tm_hour <= 23,
        0 <= t.tm_min <= 59,
        0 <= t.tm_sec <= 60,
{
    let now = time::now_utc();
    UtcTime {
        tm_year: now.tm_year,
        tm_mon: now.tm_mon,
        tm_mday: now.tm_mday,
        tm_hour: now.tm_hour,
        tm_min: now.tm_min,
        tm_sec: now.tm_sec,
    }
}

/// Two decimal digits, zero-padded.
pub open spec fn two_dig(x: int) -> Seq<char> {
    seq![digit_char(x / 10), digit_char(x % 10)]
}

/// Four decimal digits, zero-padded.
pub open spec fn four_dig(x: int) -> Seq<char> {
    two_dig(x / 100) + two_dig(x % 100)
}

/// The RFC 3339 rendering of a broken-down UTC instant:
/// `YYYY-MM-DDThh:mm:ssZ`.
pub open spec fn rfc3339_seq(y: int, mo: int, d: int, h: int, mi: int, s: int) -> Seq<char> {
    four_dig(y) + seq!['-'] + two_dig(mo) + seq!['-'] + two_dig(d) + seq!['T'] + two_dig(h)
        + seq![':'] + two_dig(mi) + seq![':'] + two_dig(s) + seq!['Z']
}

/// Whether a character sequence is the RFC 3339 rendering of some
/// in-range UTC instant.
pub open spec fn is_rfc3339_timestamp(s: Seq<char>) -> bool {
    exists|y: int, mo: int, d: int, h: int, mi: int, sec: int|
        0 <= y <= 9999 && 1 <= mo <= 12 && 1 <= d <= 31 && 0 <= h <= 23 && 0 <= mi <= 59 && 0
            <= sec <= 60 && s == #[trigger] rfc3339_seq(y, mo, d, h, mi, sec)
}

fn two_digit_string(x: u32) -> (s: String)
    requires
        x < 100,
    ensures
        s@ == two_dig(x as int),
{
    let mut s = digit_string(x / 10);
    let low = digit_string(x % 10);
    s.append(low.as_str());
    proof {
        assert(s@ =~= two_dig(x as int));
    }
    s
}

fn four_digit_string(x: u32) -> (s: String)
    requires
        x < 10000,
    ensures
        s@ == four_dig(x as int),
{
    let mut s = two_digit_string(x / 100);
    let low = two_digit_string(x % 100);
    s.append(low.as_str());
    proof {
        assert(s@ =~= four_dig(x as int));
    }
    s
}

/// Render a broken-down UTC instant in RFC 3339 form.
pub fn format_rfc3339(y: u32, mo: u32, d: u32, h: u32, mi: u32, sec: u32) -> (s: String)
    requires
        y <= 9999,
        1 <= mo <= 12,
        1 <= d <= 31,
        h <= 23,
        mi <= 59,
        sec <= 60,
    ensures
        s@ == rfc3339_seq(y as int, mo as int, d as int, h as int, mi as int, sec as int),
{
    proof {
        reveal_strlit("-");
        reveal_strlit("T");
        reveal_strlit(":");
        reveal_strlit("Z");
    }
    let mut s = four_digit_string(y);
    s.append("-");
    let part_mo = two_digit_string(mo);
    s.append(part_mo.as_str());
    s.append("-");
    let part_d = two_digit_string(d);
    s.append(part_d.as_str());
    s.append("T");
    let part_h = two_digit_string(h);
    s.append(part_h.as_str());
    s.append(":");
    let part_mi = two_digit_string(mi);
    s.append(part_mi.as_str());
    s.append(":");
    let part_sec = two_digit_string(sec);
    s.append(part_sec.as_str());
    s.append("Z");
    proof {
        assert(s@ =~= rfc3339_seq(y as int, mo as int, d as int, h as int, mi as int, sec as int));
    }
    s
}

/// The current time as an RFC 3339 timestamp. A clock year outside
/// 0 to 9999 cannot be rendered in that form and is clamped to the
/// nearer bound; the other fields come from the clock as read.
pub fn current_timestamp() -> (s: String)
    ensures
        is_rfc3339_timestamp(s@),
{
    let t = now_utc_fields();
    let year_full: i64 = 1900 + (t.tm_year as i64);
    let y: u32 = if year_full < 0 {
        0
    } else if year_full > 9999 {
        9999
    } else {
        year_full as u32
    };
    let mo: u32 = (t.tm_mon + 1) as u32;
    let d: u32 = t.tm_mday as u32;
    let h: u32 = t.tm_hour as u32;
    let mi: u32 = t.tm_min as u32;
    let sec: u32 = t.tm_sec as u32;
    let s = format_rfc3339(y, mo, d, h, mi, sec);
    s
}

} // verus!
