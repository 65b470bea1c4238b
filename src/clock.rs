//! The market clock: its payload and the endpoint that retrieves it.
use vstd::prelude::*;

use crate::endpoint::{
    decodes_as, status_outcome, success_from, DecodeError, DecodeFailure, Descriptor, Method,
    Outcome, OutcomeKind, Payload,
};
use crate::json::{bool_member, json_object_members, text_member, JsonObject, Members};
use crate::time::{decode_timestamp, timestamp_of, Timestamp};
use crate::util::WireFailure;

verus! {

/// Market open and close timing.
#[derive(Clone, Copy, Debug, PartialEq, Eq, Structural)]
pub struct Clock {
    /// Whether the market is open now.
    pub open: bool,
    /// The current time.
    pub current: Timestamp,
    /// When the market opens next.
    pub next_open: Timestamp,
    /// When the market closes next.
    pub next_close: Timestamp,
}

impl View for Clock {
    type V = Clock;

    open spec fn view(&self) -> Clock {
        *self
    }
}

/// The time stamp held by the string member `key`.
pub open spec fn timestamp_member(m: Members, key: Seq<char>) -> Result<Timestamp, DecodeFailure> {
    match text_member(m, key) {
        None => Err(DecodeFailure::MissingField(key)),
        Some(t) => match timestamp_of(t) {
            Some(ts) => Ok(ts),
            None => Err(DecodeFailure::Primitive(WireFailure::MalformedTimestamp(t))),
        },
    }
}

/// The clock that the members `m` describe: `is_open` a boolean, and
/// `timestamp`, `next_open` and `next_close` time stamps, checked in that
/// order.
pub open spec fn clock_from_members(m: Members) -> Result<Clock, DecodeFailure> {
    match bool_member(m, "is_open"@) {
        None => Err(DecodeFailure::MissingField("is_open"@)),
        Some(open) => match timestamp_member(m, "timestamp"@) {
            Err(f) => Err(f),
            Ok(current) => match timestamp_member(m, "next_open"@) {
                Err(f) => Err(f),
                Ok(next_open) => match timestamp_member(m, "next_close"@) {
                    Err(f) => Err(f),
                    Ok(next_close) => Ok(Clock { open, current, next_open, next_close }),
                },
            },
        },
    }
}

/// Decodes the time stamp held by the string member `key` of `obj`.
fn read_timestamp(obj: &JsonObject, key: &str) -> (r: Result<Timestamp, DecodeError>)
    ensures
        decodes_as(r, timestamp_member(obj.view_members(), key@)),
{
    match obj.get_text(key) {
        None => Err(DecodeError::MissingField(key.to_owned())),
        Some(t) => match decode_timestamp(t.as_str()) {
            Ok(ts) => Ok(ts),
            Err(e) => Err(DecodeError::Primitive(e)),
        },
    }
}

impl Clock {
    /// Reads a clock from the members of a JSON object.
    pub fn from_object(obj: &JsonObject) -> (r: Result<Clock, DecodeError>)
        ensures
            decodes_as(r, clock_from_members(obj.view_members())),
    {
        let open = match obj.get_bool("is_open") {
            Some(b) => b,
            None => return Err(DecodeError::MissingField("is_open".to_owned())),
        };
        let current = match read_timestamp(obj, "timestamp") {
            Ok(t) => t,
            Err(e) => return Err(e),
        };
        let next_open = match read_timestamp(obj, "next_open") {
            Ok(t) => t,
            Err(e) => return Err(e),
        };
        let next_close = match read_timestamp(obj, "next_close") {
            Ok(t) => t,
            Err(e) => return Err(e),
        };
        Ok(Clock { open, current, next_open, next_close })
    }

    /// Whether the clock is in the order that the market keeps: now before
    /// both the next opening and the next closing, and of those two, the
    /// closing first while the market is open, the opening first while it is
    /// closed.
    pub fn is_consistent(&self) -> (r: bool)
        ensures
            r == (self.current.precedes(self.next_open) && self.current.precedes(self.next_close)
                && if self.open {
                self.next_close.precedes(self.next_open)
            } else {
                self.next_open.precedes(self.next_close)
            }),
    {
        self.current.is_before(&self.next_open) && self.current.is_before(&self.next_close) && (if self.open {
            self.next_close.is_before(&self.next_open)
        } else {
            self.next_open.is_before(&self.next_close)
        })
    }
}

impl Payload for Clock {
    open spec fn decoded(body: Seq<u8>) -> Result<Clock, DecodeFailure> {
        match json_object_members(body) {
            None => Err(DecodeFailure::NotAnObject),
            Some(m) => clock_from_members(m),
        }
    }

    fn decode(body: &[u8]) -> (r: Result<Clock, DecodeError>) {
        match JsonObject::parse(body) {
            None => Err(DecodeError::NotAnObject),
            Some(obj) => Clock::from_object(&obj),
        }
    }
}

/// Whether the members `m` lack one that a clock needs, or hold it with
/// another JSON type.
pub open spec fn lacks_clock_member(m: Members) -> bool {
    ||| bool_member(m, "is_open"@) is None
    ||| text_member(m, "timestamp"@) is None
    ||| text_member(m, "next_open"@) is None
    ||| text_member(m, "next_close"@) is None
}

/// A response whose status stands for success and whose body lacks a member
/// of the clock is a decode error, never a clock.
pub proof fn lemma_missing_member_is_decode_error(
    d: Descriptor,
    status: u16,
    body: Seq<u8>,
    r: Outcome<Clock, ApiError>,
)
    requires
        status_outcome(d.statuses@, status) == Some(OutcomeKind::Success),
        success_from(r, Clock::decoded(body)),
        json_object_members(body) matches Some(m) && lacks_clock_member(m),
    ensures
        r is Decode,
{
}

/// The error payload of the service: a message.
#[derive(Clone, Debug, PartialEq, Eq)]
pub struct ApiError {
    pub message: String,
}

/// The error that the members `m` describe: `message` a string.
pub open spec fn api_error_from_members(m: Members) -> Result<Seq<char>, DecodeFailure> {
    match text_member(m, "message"@) {
        None => Err(DecodeFailure::MissingField("message"@)),
        Some(t) => Ok(t),
    }
}

impl View for ApiError {
    type V = Seq<char>;

    open spec fn view(&self) -> Seq<char> {
        self.message@
    }
}

impl Payload for ApiError {
    open spec fn decoded(body: Seq<u8>) -> Result<Seq<char>, DecodeFailure> {
        match json_object_members(body) {
            None => Err(DecodeFailure::NotAnObject),
            Some(m) => api_error_from_members(m),
        }
    }

    fn decode(body: &[u8]) -> (r: Result<ApiError, DecodeError>) {
        match JsonObject::parse(body) {
            None => Err(DecodeError::NotAnObject),
            Some(obj) => match obj.get_text("message") {
                None => Err(DecodeError::MissingField("message".to_owned())),
                Some(t) => Ok(ApiError { message: t.clone() }),
            },
        }
    }
}

/// The request for the market clock: `GET /v2/clock`.
pub struct Get;

impl Get {
    /// The descriptor: method GET, and status 200 for success; no status is
    /// listed for an error payload.
    pub fn descriptor() -> (r: Descriptor)
        ensures
            r.method == Method::Get,
            r.statuses@ == seq![(200u16, OutcomeKind::Success)],
    {
        let mut statuses: Vec<(u16, OutcomeKind)> = Vec::new();
        statuses.push((200, OutcomeKind::Success));
        Descriptor { method: Method::Get, statuses }
    }

    /// The path of the request, which takes no input.
    pub fn path(_input: &()) -> (r: String)
        ensures
            r@ == "/v2/clock"@,
    {
        "/v2/clock".to_owned()
    }
}

} // verus!
