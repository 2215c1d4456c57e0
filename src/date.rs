//! Dates of response headers, read as RFC 2822 dates.
use vstd::prelude::*;

verus! {

/// A date with its offset from UTC, field by field.
#[derive(Clone, Copy, Debug, PartialEq, Eq, Structural)]
pub struct HttpDate {
    pub year: i32,
    /// 1 for January to 12 for December.
    pub month: u8,
    pub day: u8,
    pub hour: u8,
    pub minute: u8,
    pub second: u8,
    /// The offset from UTC, in seconds.
    pub offset_seconds: i32,
}

/// The fields (year, month, day, hour, minute, second, offset in seconds)
/// of the date that time's RFC 2822 parser reads from `s`, if it reads one.
pub uninterp spec fn rfc2822_fields(s: Seq<char>) -> Option<(i32, u8, u8, u8, u8, u8, i32)>;

/// The date with the given fields.
pub open spec fn date_from_fields(f: (i32, u8, u8, u8, u8, u8, i32)) -> HttpDate {
    HttpDate {
        year: f.0,
        month: f.1,
        day: f.2,
        hour: f.3,
        minute: f.4,
        second: f.5,
        offset_seconds: f.6,
    }
}

/// The date that `s` denotes as an RFC 2822 date.
pub open spec fn rfc2822_date(s: Seq<char>) -> Option<HttpDate> {
    match rfc2822_fields(s) {
        Some(f) => Some(date_from_fields(f)),
        None => None,
    }
}

/// Relies on time's `OffsetDateTime::parse` with the `Rfc2822` format, and
/// on `year`, `month`, `day`, `hour`, `minute`, `second` and
/// `offset().whole_seconds()` for the fields of what it reads.
#[verifier::external_body]
pub(crate) fn parse_rfc2822(s: &str) -> (r: Option<HttpDate>)
    ensures
        r == match rfc2822_fields(s@) {
            Some(f) => Some(date_from_fields(f)),
            None => None,
        },
{
    match time::OffsetDateTime::parse(s, &time::format_description::well_known::Rfc2822) {
        Ok(t) => Some(HttpDate {
            year: t.year(),
            month: t.month() as u8,
            day: t.day(),
            hour: t.hour(),
            minute: t.minute(),
            second: t.second(),
            offset_seconds: t.offset().whole_seconds(),
        }),
        Err(_) => None,
    }
}

} // verus!
