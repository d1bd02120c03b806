//! Points in time.
use vstd::prelude::*;
use chrono::{DateTime, Utc};

verus! {

/// A point in time: seconds since the epoch, and nanoseconds into the second.
#[derive(Clone, Copy, Debug, PartialEq, Eq, Structural)]
pub struct Timestamp {
    pub secs: i64,
    pub nanos: u32,
}

/// The first second that a calendar date can be given to.
pub const MIN_SECONDS: i64 = -8334601228800;

/// The last second that a calendar date can be given to.
pub const MAX_SECONDS: i64 = 8210266876799;

/// An access token lives for two hours.
pub const ACCESS_SECONDS: i64 = 7200;

/// A refresh token, and a remembered device's cookie, lives for thirty days.
pub const REFRESH_SECONDS: i64 = 2592000;

impl Timestamp {
    /// Whether the calendar has a date for this point in time.
    pub open spec fn dated(self) -> bool {
        MIN_SECONDS <= self.secs <= MAX_SECONDS && self.nanos < 1000000000
    }
}

/// The point in time as RFC 3339 text, in UTC.
pub uninterp spec fn rfc3339_text(secs: i64, nanos: u32) -> Seq<char>;

/// `DateTime::from_timestamp` and `to_rfc3339`: the text of a point in time, which depends on that
/// point alone. There is no date outside of the range that the precondition gives.
#[verifier::external_body]
fn format_rfc3339(secs: i64, nanos: u32) -> (text: String)
    requires
        MIN_SECONDS <= secs <= MAX_SECONDS,
        nanos < 1000000000,
    ensures
        text@ == rfc3339_text(secs, nanos),
{
    DateTime::<Utc>::from_timestamp(secs, nanos).unwrap().to_rfc3339()
}

/// `Utc::now`: the current time. Which time it is is left open; it has a date.
#[verifier::external_body]
fn utc_now() -> (now: Timestamp)
    ensures
        now.dated(),
{
    let now = Utc::now();
    Timestamp { secs: now.timestamp(), nanos: now.timestamp_subsec_nanos() }
}

/// The current time.
pub fn current_time() -> (now: Timestamp)
    ensures
        now.dated(),
{
    utc_now()
}

impl Timestamp {
    /// The point in time as RFC 3339 text, in UTC.
    pub open spec fn text(self) -> Seq<char> {
        rfc3339_text(self.secs, self.nanos)
    }

    /// The point in time as RFC 3339 text, in UTC.
    pub fn to_rfc3339(&self) -> (text: String)
        requires
            self.dated(),
        ensures
            text@ == self.text(),
    {
        format_rfc3339(self.secs, self.nanos)
    }
}

/// A point in time is written with all of its seconds and nanoseconds.
pub proof fn law_time_is_written_whole(time: Timestamp)
    ensures
        time.text() == rfc3339_text(time.secs, time.nanos),
{
}

} // verus!
