//! The Status Tracker: lifecycle flags and the last-update timestamp,
//! owned and locked independently of the Dataset Store.
//!
//! Timestamps are plain milliseconds since the Unix epoch; rendering to an
//! RFC 3339 string is a pure function of that number.

use vstd::prelude::*;

verus! {

/// The newest timestamp the RFC 3339 renderer accepts: the last millisecond
/// of year 9999, comfortably inside chrono's representable range.
pub const TS_MAX_MILLIS: u64 = 253402300799999;

/// The lifecycle record: `fetched`, `ready` and `in_use` flags, plus the
/// timestamp of the latest update.
#[derive(Clone, Copy, PartialEq, Eq, Structural, Debug)]
pub struct Status {
    pub fetched: bool,
    pub ready: bool,
    pub in_use: bool,
    pub last_updated: u64,
}

/// The status an update call leaves: only the supplied flags are merged in,
/// the others keep their value, and the timestamp is always stamped.
pub open spec fn merged(
    s: Status,
    fetched: Option<bool>,
    ready: Option<bool>,
    in_use: Option<bool>,
    now: u64,
) -> Status {
    Status {
        fetched: match fetched {
            Some(b) => b,
            None => s.fetched,
        },
        ready: match ready {
            Some(b) => b,
            None => s.ready,
        },
        in_use: match in_use {
            Some(b) => b,
            None => s.in_use,
        },
        last_updated: now,
    }
}

/// The exclusive-access slot holding the current status.
pub struct StatusTracker {
    pub status: Status,
}

impl StatusTracker {
    /// The initial status: all flags clear, timestamp set to the start time.
    pub fn new(start: u64) -> (t: Self)
        ensures
            t.status == (Status { fetched: false, ready: false, in_use: false, last_updated: start }),
    {
        StatusTracker {
            status: Status { fetched: false, ready: false, in_use: false, last_updated: start },
        }
    }

    /// Merges exactly the supplied flags and stamps the timestamp with the
    /// given clock reading.
    pub fn update_at(
        &mut self,
        fetched: Option<bool>,
        ready: Option<bool>,
        in_use: Option<bool>,
        now: u64,
    )
        ensures
            final(self).status == merged(old(self).status, fetched, ready, in_use, now),
    {
        let cur = self.status;
        self.status = Status {
            fetched: match fetched {
                Some(b) => b,
                None => cur.fetched,
            },
            ready: match ready {
                Some(b) => b,
                None => cur.ready,
            },
            in_use: match in_use {
                Some(b) => b,
                None => cur.in_use,
            },
            last_updated: now,
        };
    }

    /// Merges exactly the supplied flags and stamps the timestamp with the
    /// wall clock. The clock's reading is outside the core's control, so
    /// nothing is promised of the new timestamp's value.
    pub fn update(&mut self, fetched: Option<bool>, ready: Option<bool>, in_use: Option<bool>)
        ensures
            exists|now: u64|
                final(self).status == merged(old(self).status, fetched, ready, in_use, now),
    {
        let now = now_millis();
        self.update_at(fetched, ready, in_use, now);
    }

    /// A copy of the current status.
    pub fn read(&self) -> (s: Status)
        ensures
            s == self.status,
    {
        self.status
    }
}

/// Law: the timestamp is non-decreasing across successive updates whose
/// clock readings are non-decreasing — as they are whenever the wall clock
/// is not set backwards between the calls.
pub proof fn lemma_last_updated_monotone(
    s: Status,
    f1: Option<bool>,
    r1: Option<bool>,
    u1: Option<bool>,
    t1: u64,
    f2: Option<bool>,
    r2: Option<bool>,
    u2: Option<bool>,
    t2: u64,
)
    requires
        t1 <= t2,
    ensures
        merged(s, f1, r1, u1, t1).last_updated <= merged(
            merged(s, f1, r1, u1, t1),
            f2,
            r2,
            u2,
            t2,
        ).last_updated,
{
}

/// Relies on chrono's `Utc::now` and `timestamp_millis`: the wall clock in
/// milliseconds since the Unix epoch. The value depends on the machine's
/// clock, so nothing is promised of it.
#[verifier::external_body]
pub(crate) fn now_millis() -> u64 {
    chrono::Utc::now().timestamp_millis() as u64
}

/// How a timestamp reads as an RFC 3339 string; the rendering depends on
/// the timestamp alone.
pub uninterp spec fn rfc3339_of(t: u64) -> Seq<char>;

/// Relies on chrono's `DateTime::from_timestamp_millis` (defined for every
/// timestamp up to `TS_MAX_MILLIS`, far inside its documented range) and
/// `to_rfc3339`, a pure rendering of that instant.
#[verifier::external_body]
fn format_rfc3339(t: u64) -> (r: String)
    requires
        t <= TS_MAX_MILLIS,
    ensures
        r@ == rfc3339_of(t),
{
    chrono::DateTime::from_timestamp_millis(t as i64).unwrap().to_rfc3339()
}

/// The RFC 3339 rendering of a timestamp, or `None` for one newer than the
/// renderer's range.
pub fn rfc3339_string(t: u64) -> (r: Option<String>)
    ensures
        match r {
            Some(s) => t <= TS_MAX_MILLIS && s@ == rfc3339_of(t),
            None => t > TS_MAX_MILLIS,
        },
{
    if t <= TS_MAX_MILLIS {
        Some(format_rfc3339(t))
    } else {
        None
    }
}

} // verus!
