//! UTC instants as plain numbers, and their text through the `chrono` crate.
use vstd::prelude::*;
use chrono::{DateTime, Utc};

verus! {

/// A UTC instant: whole seconds since the Unix epoch and the nanoseconds
/// within that second, as `DateTime::<Utc>::timestamp` and
/// `timestamp_subsec_nanos` give them.
#[derive(Debug, Clone, Copy, PartialEq, Eq, Structural)]
pub struct Timestamp {
    pub secs: i64,
    pub nanos: u32,
}

/// What chrono's `Display` writes for the instant (such as
/// `2015-05-15 00:00:00 UTC`); `None` when chrono cannot represent it.
pub uninterp spec fn utc_display(secs: i64, nanos: u32) -> Option<Seq<char>>;

/// What chrono's `to_rfc3339` writes for the instant (such as
/// `2015-05-15T00:00:00+00:00`); `None` when chrono cannot represent it.
pub uninterp spec fn utc_rfc3339(secs: i64, nanos: u32) -> Option<Seq<char>>;

/// `DateTime::<Utc>::from_timestamp` followed by `to_string`: the text is
/// named by `utc_display` over the two numbers; nothing more is claimed of it.
#[verifier::external_body]
pub(crate) fn display_utc(t: Timestamp) -> (r: Option<String>)
    ensures
        match r {
            Some(s) => utc_display(t.secs, t.nanos) == Some(s@),
            None => utc_display(t.secs, t.nanos) is None,
        },
{
    match DateTime::<Utc>::from_timestamp(t.secs, t.nanos) {
        Some(d) => Some(d.to_string()),
        None => None,
    }
}

/// `DateTime::<Utc>::from_timestamp` followed by `to_rfc3339`: the text is
/// named by `utc_rfc3339` over the two numbers; nothing more is claimed of it.
#[verifier::external_body]
pub(crate) fn rfc3339_utc(t: Timestamp) -> (r: Option<String>)
    ensures
        match r {
            Some(s) => utc_rfc3339(t.secs, t.nanos) == Some(s@),
            None => utc_rfc3339(t.secs, t.nanos) is None,
        },
{
    match DateTime::<Utc>::from_timestamp(t.secs, t.nanos) {
        Some(d) => Some(d.to_rfc3339()),
        None => None,
    }
}

/// The display text of an instant, empty when chrono cannot represent it.
pub open spec fn display_text(t: Timestamp) -> Seq<char> {
    match utc_display(t.secs, t.nanos) {
        Some(s) => s,
        None => Seq::empty(),
    }
}

/// The RFC 3339 text of an instant, empty when chrono cannot represent it.
pub open spec fn rfc3339_text(t: Timestamp) -> Seq<char> {
    match utc_rfc3339(t.secs, t.nanos) {
        Some(s) => s,
        None => Seq::empty(),
    }
}

/// The display text of an instant, empty when chrono cannot represent it.
pub fn display_string(t: Timestamp) -> (r: String)
    ensures
        r@ == display_text(t),
{
    match display_utc(t) {
        Some(s) => s,
        None => String::new(),
    }
}

/// The RFC 3339 text of an instant, empty when chrono cannot represent it.
pub fn rfc3339_string(t: Timestamp) -> (r: String)
    ensures
        r@ == rfc3339_text(t),
{
    match rfc3339_utc(t) {
        Some(s) => s,
        None => String::new(),
    }
}

} // verus!
