//! Instants in time, and their decoding from RFC 3339 time stamps.
use vstd::prelude::*;

use crate::util::WireError;

verus! {

/// Nanoseconds in one second.
pub const NANOS_PER_SEC: u32 = 1_000_000_000;

/// An instant as its distance from the UNIX epoch: whole seconds, which may be
/// negative, and the nanoseconds that follow them.
#[derive(Clone, Copy, Debug, PartialEq, Eq, Structural)]
pub struct Timestamp {
    pub secs: i64,
    pub nanos: u32,
}

impl View for Timestamp {
    type V = Timestamp;

    open spec fn view(&self) -> Timestamp {
        *self
    }
}

impl Timestamp {
    /// The nanoseconds are below one second.
    pub open spec fn wf(&self) -> bool {
        self.nanos < NANOS_PER_SEC
    }

    /// Nanoseconds since the UNIX epoch.
    pub open spec fn instant(&self) -> int {
        self.secs * 1_000_000_000 + self.nanos
    }

    /// The timestamp for `x` nanoseconds since the UNIX epoch.
    pub open spec fn from_instant(x: int) -> Timestamp {
        Timestamp { secs: (x / 1_000_000_000) as i64, nanos: (x % 1_000_000_000) as u32 }
    }

    /// Whether `self` comes strictly before `other`, ordering by the seconds
    /// and then by the nanoseconds.
    pub open spec fn precedes(&self, other: Timestamp) -> bool {
        self.secs < other.secs || (self.secs == other.secs && self.nanos < other.nanos)
    }

    /// Whether `self` lies strictly before `other`.
    pub fn is_before(&self, other: &Timestamp) -> (r: bool)
        ensures
            r == self.precedes(*other),
            self.wf() && other.wf() ==> (r == (self.instant() < other.instant())),
    {
        self.secs < other.secs || (self.secs == other.secs && self.nanos < other.nanos)
    }
}

/// Whether `x` nanoseconds since the UNIX epoch fall in the range of
/// `Timestamp`.
pub open spec fn representable(x: int) -> bool {
    -9223372036854775808 * 1_000_000_000 <= x < 9223372036854775808 * 1_000_000_000
}

/// The nanoseconds since the UNIX epoch of a distance from it: whether it lies
/// before the epoch, whole seconds, nanoseconds.
pub open spec fn offset_nanos(o: (bool, u64, u32)) -> int {
    if o.0 {
        -(o.1 * 1_000_000_000 + o.2)
    } else {
        o.1 * 1_000_000_000 + o.2
    }
}

/// Where the time stamp `s` lies from the UNIX epoch, as read by time_util:
/// whether before it, whole seconds, nanoseconds. `None` where `s` is not in
/// one of the forms it accepts.
pub uninterp spec fn rfc3339_offset(s: Seq<char>) -> Option<(bool, u64, u32)>;

/// The instant that the time stamp `s` denotes, where it has one in range.
pub open spec fn timestamp_of(s: Seq<char>) -> Option<Timestamp> {
    match rfc3339_offset(s) {
        Some(o) if representable(offset_nanos(o)) => Some(Timestamp::from_instant(offset_nanos(o))),
        _ => None,
    }
}

/// Relies on time_util::parse_system_time_from_str, which reads the forms
/// `%Y-%m-%dT%H:%M:%S%.fZ`, `%Y-%m-%dT%H:%M:%SZ` and `%Y-%m-%dT%H:%M:%S%.f%z`
/// (in chrono's notation) into a `SystemTime`, a function of the text alone, and on `SystemTime::duration_since(UNIX_EPOCH)` to give that
/// time as a distance from the epoch, whose sub-second part
/// (`Duration::subsec_nanos`) is below one second.
#[verifier::external_body]
fn parse_offset(s: &str) -> (r: Option<(bool, u64, u32)>)
    ensures
        r == rfc3339_offset(s@),
        r matches Some(o) ==> o.2 < NANOS_PER_SEC,
{
    time_util::parse_system_time_from_str(s).map(|t| match t.duration_since(std::time::UNIX_EPOCH) {
        Ok(d) => (false, d.as_secs(), d.subsec_nanos()),
        Err(e) => (true, e.duration().as_secs(), e.duration().subsec_nanos()),
    })
}

impl Timestamp {
    /// The timestamp for a distance from the UNIX epoch: whether it lies
    /// before the epoch, whole seconds, and nanoseconds below one second.
    /// `None` where the instant is out of range.
    pub fn from_offset(before: bool, secs: u64, nanos: u32) -> (r: Option<Timestamp>)
        requires
            nanos < NANOS_PER_SEC,
        ensures
            r is Some <==> representable(offset_nanos((before, secs, nanos))),
            r matches Some(t) ==> t == Timestamp::from_instant(offset_nanos((before, secs, nanos)))
                && t.wf(),
    {
        if !before {
            if secs > 9223372036854775807 {
                return None;
            }
            Some(Timestamp { secs: secs as i64, nanos })
        } else if nanos == 0 {
            if secs > 9223372036854775808 {
                None
            } else if secs == 9223372036854775808 {
                Some(Timestamp { secs: i64::MIN, nanos: 0 })
            } else {
                Some(Timestamp { secs: -(secs as i64), nanos: 0 })
            }
        } else {
            if secs >= 9223372036854775808 {
                return None;
            }
            Some(Timestamp { secs: -(secs as i64) - 1, nanos: NANOS_PER_SEC - nanos })
        }
    }
}

/// Decodes an RFC 3339 time stamp such as `2018-04-01T12:00:00.000Z`. Text
/// that is not one, or an instant out of range, is a malformed time stamp.
pub fn decode_timestamp(s: &str) -> (r: Result<Timestamp, WireError>)
    ensures
        match timestamp_of(s@) {
            Some(t) => r == Ok::<Timestamp, WireError>(t),
            None => r matches Err(WireError::MalformedTimestamp(text)) && text@ == s@,
        },
        r matches Ok(t) ==> t.wf(),
{
    match parse_offset(s) {
        Some((before, secs, nanos)) => match Timestamp::from_offset(before, secs, nanos) {
            Some(t) => Ok(t),
            None => Err(WireError::MalformedTimestamp(s.to_owned())),
        },
        None => Err(WireError::MalformedTimestamp(s.to_owned())),
    }
}

} // verus!
