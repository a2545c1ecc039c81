//! Times shown as UTC dates, written with the `chrono` crate.
//!
//! A time is kept together with the Unix seconds it was made from; its
//! fields are private to this module and `utc_from_secs` is the only place
//! that makes one, so every `UtcTime` holds exactly the time of its seconds.
use vstd::prelude::*;

verus! {

#[verifier::external_type_specification]
#[verifier::external_body]
pub struct ExNaiveDateTime(chrono::NaiveDateTime);

/// Whether `chrono` has a UTC date and time for the Unix seconds.
pub uninterp spec fn utc_in_range(secs: i64) -> bool;

/// What `chrono` writes for the UTC date and time of the Unix seconds with
/// a format string.
pub uninterp spec fn utc_text(secs: i64, format: Seq<char>) -> Seq<char>;

/// The format of the times that the client shows: `2024-01-31 23:59:00`.
pub open spec fn shown_format() -> Seq<char> {
    "%Y-%m-%d %H:%M:%S"@
}

/// A UTC date and time, with the Unix seconds it was made from.
pub struct UtcTime {
    secs: i64,
    time: chrono::NaiveDateTime,
}

impl View for UtcTime {
    type V = i64;

    /// The Unix seconds.
    closed spec fn view(&self) -> i64 {
        self.secs
    }
}

/// `chrono::DateTime::from_timestamp(secs, 0)`: the UTC date and time of
/// the Unix seconds, none where they fall outside chrono's range of dates
/// (some 262,000 years either side of the common era). The date and time
/// are kept as the `DateTime`'s naive UTC field.
#[verifier::external_body]
pub(crate) fn utc_from_secs(secs: i64) -> (r: Option<UtcTime>)
    ensures
        r is Some <==> utc_in_range(secs),
        r matches Some(t) ==> t@ == secs,
{
    match chrono::DateTime::from_timestamp(secs, 0) {
        Some(time) => Some(UtcTime { secs, time: time.naive_utc() }),
        None => None,
    }
}

/// `NaiveDateTime::format(format).to_string()` of the UTC date and time,
/// with the format the client shows (which has no time-zone field, so the
/// text is that of `DateTime<Utc>::format`); other formats are not taken,
/// as an invalid one makes `to_string` panic. The text depends on the
/// seconds and the format alone.
#[verifier::external_body]
pub(crate) fn utc_format(t: &UtcTime, format: &str) -> (r: String)
    requires
        format@ == shown_format(),
    ensures
        r@ == utc_text(t@, format@),
{
    t.time.format(format).to_string()
}

/// The UTC date and time of Unix seconds as the client shows them
/// (`%Y-%m-%d %H:%M:%S`), none outside chrono's range of dates.
pub fn format_unix_secs(secs: i64) -> (r: Option<String>)
    ensures
        r is Some <==> utc_in_range(secs),
        r matches Some(s) ==> s@ == utc_text(secs, shown_format()),
{
    match utc_from_secs(secs) {
        Some(t) => Some(utc_format(&t, "%Y-%m-%d %H:%M:%S")),
        None => None,
    }
}

} // verus!
