//! Points in time: reading the clock, and moving a timestamp.

use vstd::prelude::*;

use crate::messaging::types::{opt_chars, Timestamp};

verus! {

/// The RFC 3339 text of the point in time that lies `secs` seconds and
/// `nanos` nanoseconds after the Unix epoch, in UTC, as chrono writes it;
/// nothing for a point that chrono's calendar does not reach.
pub uninterp spec fn rfc3339_text(secs: i64, nanos: u32) -> Option<Seq<char>>;

/// The point in time that chrono reads from an RFC 3339 text; nothing for a
/// text that is none.
pub uninterp spec fn rfc3339_instant(text: Seq<char>) -> Option<Timestamp>;

/// `DateTime::to_rfc3339` of the UTC date and time that
/// `DateTime::from_timestamp` makes of the timestamp.
#[verifier::external_body]
pub(crate) fn format_rfc3339(at: Timestamp) -> (text: Option<String>)
    ensures
        opt_chars(text) == rfc3339_text(at.secs, at.nanos),
{
    chrono::DateTime::from_timestamp(at.secs, at.nanos).map(|d| d.to_rfc3339())
}

/// `DateTime::parse_from_rfc3339`, with the date and time that it read
/// handed out as the seconds and nanoseconds since the epoch.
#[verifier::external_body]
pub(crate) fn parse_rfc3339(text: &str) -> (at: Option<Timestamp>)
    ensures
        at == rfc3339_instant(text@),
{
    let parsed = chrono::DateTime::parse_from_rfc3339(text).ok();
    parsed.map(|d| Timestamp { secs: d.timestamp(), nanos: d.timestamp_subsec_nanos() })
}

/// `chrono::Utc::now`, as the seconds and nanoseconds that chrono's
/// `timestamp` and `timestamp_subsec_nanos` give for it. It is the time of
/// the call, so nothing is promised of it.
#[verifier::external_body]
pub(crate) fn utc_now() -> (now: Timestamp) {
    let now = chrono::Utc::now();
    Timestamp { secs: now.timestamp(), nanos: now.timestamp_subsec_nanos() }
}

impl Timestamp {
    /// The time as the clock of the machine gives it at this moment.
    pub fn now() -> (now: Timestamp) {
        utc_now()
    }

    /// The timestamp as RFC 3339 text.
    pub fn to_rfc3339(&self) -> (text: Option<String>)
        ensures
            opt_chars(text) == rfc3339_text(self.secs, self.nanos),
    {
        format_rfc3339(*self)
    }

    /// The timestamp that an RFC 3339 text stands for.
    pub fn from_rfc3339(text: &str) -> (at: Option<Timestamp>)
        ensures
            at == rfc3339_instant(text@),
    {
        parse_rfc3339(text)
    }

    /// The timestamp moved by whole seconds, forward or back. It stops at
    /// the ends of the range of seconds.
    pub open spec fn shifted_spec(self, seconds: i64) -> Timestamp {
        Timestamp {
            secs: if self.secs + seconds > i64::MAX {
                i64::MAX
            } else if self.secs + seconds < i64::MIN {
                i64::MIN
            } else {
                (self.secs + seconds) as i64
            },
            nanos: self.nanos,
        }
    }

    pub fn shifted(&self, seconds: i64) -> (moved: Timestamp)
        ensures
            moved == self.shifted_spec(seconds),
    {
        let secs: i64 = if seconds > 0 && self.secs > i64::MAX - seconds {
            i64::MAX
        } else if seconds < 0 && self.secs < i64::MIN - seconds {
            i64::MIN
        } else {
            self.secs + seconds
        };
        Timestamp { secs, nanos: self.nanos }
    }
}

} // verus!
