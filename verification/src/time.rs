//! Trusted boundary to chrono: parsing RFC 3339 timestamps into milliseconds
//! since the Unix epoch, rendering them back, and reading the clock. All
//! decisions over timestamps are made on the millisecond values in verified
//! code.
use vstd::prelude::*;

verus! {

/// What parsing an RFC 3339 timestamp yields, in milliseconds since the Unix
/// epoch; a function of the text alone.
pub uninterp spec fn ts_millis_of(s: Seq<char>) -> Option<i64>;

/// Relies on chrono's `FromStr` for `DateTime<Utc>` and `timestamp_millis`:
/// parses an RFC 3339 timestamp, depending on the text alone.
#[verifier::external_body]
fn parse_rfc3339_millis(s: &str) -> (r: Option<i64>)
    ensures
        r == ts_millis_of(s@),
{
    match s.parse::<chrono::DateTime<chrono::Utc>>() {
        Ok(d) => Some(d.timestamp_millis()),
        Err(_) => None,
    }
}

/// An absent or empty text is no timestamp; anything else parses as RFC 3339.
pub open spec fn spec_parse_timestamp(s: Seq<char>) -> Option<i64> {
    if s.len() == 0 {
        None
    } else {
        ts_millis_of(s)
    }
}

/// Parse an ISO 8601 / RFC 3339 timestamp into epoch milliseconds.
pub fn parse_timestamp_str(ts: &str) -> (r: Option<i64>)
    ensures
        r == spec_parse_timestamp(ts@),
{
    if ts.is_empty() {
        None
    } else {
        parse_rfc3339_millis(ts)
    }
}

/// As [`parse_timestamp_str`], with absence folded in.
pub fn parse_timestamp(ts: Option<&str>) -> (r: Option<i64>)
    ensures
        r == match ts {
            Some(s) => spec_parse_timestamp(s@),
            None => None::<i64>,
        },
{
    match ts {
        Some(s) => parse_timestamp_str(s),
        None => None,
    }
}

/// What rendering a timestamp as `YYYY-MM-DD hh:mm:ss` (UTC) yields; a
/// function of the milliseconds alone.
pub uninterp spec fn fmt_ymd_hms_of(millis: i64) -> Seq<char>;

/// Relies on chrono's `from_timestamp_millis` and `format`: renders a
/// timestamp as `YYYY-MM-DD hh:mm:ss` in UTC, depending on the value alone.
#[verifier::external_body]
pub fn format_ymd_hms(millis: i64) -> (r: String)
    ensures
        r@ == fmt_ymd_hms_of(millis),
{
    match chrono::DateTime::<chrono::Utc>::from_timestamp_millis(millis) {
        Some(d) => d.format("%Y-%m-%d %H:%M:%S").to_string(),
        None => String::new(),
    }
}

/// What rendering a timestamp as `hh:mm` (UTC) yields.
pub uninterp spec fn fmt_hm_of(millis: i64) -> Seq<char>;

/// Relies on chrono's `from_timestamp_millis` and `format`: renders the time
/// of day as `hh:mm` in UTC, depending on the value alone.
#[verifier::external_body]
pub fn format_hm(millis: i64) -> (r: String)
    ensures
        r@ == fmt_hm_of(millis),
{
    match chrono::DateTime::<chrono::Utc>::from_timestamp_millis(millis) {
        Some(d) => d.format("%H:%M").to_string(),
        None => String::new(),
    }
}

/// What rendering a timestamp as an abbreviated month and day (`Jan 05`)
/// yields.
pub uninterp spec fn fmt_month_day_of(millis: i64) -> Seq<char>;

/// Relies on chrono's `from_timestamp_millis` and `format`: renders the month
/// and day as `%b %d` in UTC, depending on the value alone.
#[verifier::external_body]
pub fn format_month_day(millis: i64) -> (r: String)
    ensures
        r@ == fmt_month_day_of(millis),
{
    match chrono::DateTime::<chrono::Utc>::from_timestamp_millis(millis) {
        Some(d) => d.format("%b %d").to_string(),
        None => String::new(),
    }
}

/// Relies on chrono's `Utc::now`: the wall clock, in epoch milliseconds.
/// Nothing is assumed of the value.
#[verifier::external_body]
pub fn now_millis() -> i64 {
    chrono::Utc::now().timestamp_millis()
}

/// How a timestamp is shown relative to `now`: the time of day within the
/// last twenty-four hours, a day count within the last week, else month and
/// day; unparsable text is shown as it is.
pub open spec fn spec_relative_time(iso: Seq<char>, now: i64) -> Seq<char> {
    match ts_millis_of(iso) {
        None => iso,
        Some(t) => {
            let d = crate::search::spec_sat_sub(now, t);
            if d < 86400000 {
                fmt_hm_of(t)
            } else if d < 604800000 {
                crate::strutil::spec_u64_string((d / 86400000) as u64) + " days ago"@
            } else {
                fmt_month_day_of(t)
            }
        },
    }
}

/// Render a stored timestamp relative to the given clock reading.
pub fn format_relative_time_at(iso: &str, now: i64) -> (r: String)
    ensures
        r@ == spec_relative_time(iso@, now),
{
    match parse_rfc3339_millis(iso) {
        None => iso.to_owned(),
        Some(t) => {
            let d = crate::search::sat_sub_i64(now, t);
            if d < 86400000 {
                format_hm(t)
            } else if d < 604800000 {
                let du = d as u64;
                let days = du / 86400000;
                assert(days as int == crate::search::spec_sat_sub(now, t) / 86400000);
                let mut s = crate::strutil::u64_to_string(days);
                s.append(" days ago");
                s
            } else {
                format_month_day(t)
            }
        },
    }
}

/// Render a stored timestamp relative to the clock now.
pub fn format_relative_time(iso: &str) -> (r: String)
    ensures
        exists|now: i64| r@ == spec_relative_time(iso@, now),
{
    let now = now_millis();
    let r = format_relative_time_at(iso, now);
    assert(r@ == spec_relative_time(iso@, now));
    r
}

} // verus!
