//! Parsing of observation timestamps from the market API.
//!
//! The API reports either Unix seconds or an RFC 3339 text; anything
//! unusable falls back to the moment of parsing.

use vstd::prelude::*;

verus! {

/// What the RFC 3339 parser yields for a text: the Unix seconds of
/// the parsed instant, or nothing when the text is not a valid
/// RFC 3339 timestamp.  The result is a function of the text alone.
pub uninterp spec fn rfc3339_unix_secs(s: Seq<char>) -> Option<i64>;

/// Relies on time::OffsetDateTime::parse with the RFC 3339 well-known
/// format, whose result depends on the input text alone, converted to
/// Unix seconds by time::OffsetDateTime::unix_timestamp.
#[verifier::external_body]
fn parse_rfc3339(s: &str) -> (r: Option<i64>)
    ensures
        r == rfc3339_unix_secs(s@),
{
    match time::OffsetDateTime::parse(s, &time::format_description::well_known::Rfc3339) {
        Ok(dt) => Some(dt.unix_timestamp()),
        Err(_) => None,
    }
}

/// The observation time encoded by an RFC 3339 text: the parsed
/// instant when it is valid and not before the epoch, else the
/// fallback time.
pub open spec fn spec_timestamp_str(s: Seq<char>, fallback: u64) -> u64 {
    match rfc3339_unix_secs(s) {
        Some(secs) => if secs >= 0 {
            secs as u64
        } else {
            fallback
        },
        None => fallback,
    }
}

/// The observation time from an optional epoch and an optional
/// RFC 3339 text: a non-negative epoch wins, then a valid text, then
/// the fallback time.
pub open spec fn spec_timestamp_fields(epoch: Option<i64>, iso: Option<String>, fallback: u64) -> u64 {
    match epoch {
        Some(secs) => if secs >= 0 {
            secs as u64
        } else {
            spec_timestamp_iso(iso, fallback)
        },
        None => spec_timestamp_iso(iso, fallback),
    }
}

/// The text part of the fallback chain.
pub open spec fn spec_timestamp_iso(iso: Option<String>, fallback: u64) -> u64 {
    match iso {
        Some(s) => spec_timestamp_str(s@, fallback),
        None => fallback,
    }
}

/// Resolve an observation time against a given fallback, exactly.
pub fn parse_timestamp_fields_at(epoch: Option<i64>, iso: &Option<String>, fallback: u64) -> (r:
    u64)
    ensures
        r == spec_timestamp_fields(epoch, *iso, fallback),
{
    if let Some(secs) = epoch {
        if secs >= 0 {
            return secs as u64;
        }
    }
    match iso {
        Some(s) => match parse_rfc3339(s.as_str()) {
            Some(secs) => if secs >= 0 {
                secs as u64
            } else {
                fallback
            },
            None => fallback,
        },
        None => fallback,
    }
}

/// Resolve an observation time, falling back to the clock: a
/// non-negative epoch wins, then a valid RFC 3339 text, then now.
pub fn parse_timestamp_fields(epoch: Option<i64>, iso: Option<String>) -> (r: u64)
    ensures
        exists|now: u64| r == spec_timestamp_fields(epoch, iso, now),
        (match epoch {
            Some(secs) => secs >= 0 ==> r == secs as u64,
            None => true,
        }),
{
    let now: u64 = crate::clock::unix_now_secs();
    let r = parse_timestamp_fields_at(epoch, &iso, now);
    proof {
        assert(r == spec_timestamp_fields(epoch, iso, now));
    }
    r
}

} // verus!
