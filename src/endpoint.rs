//! The endpoint descriptor: an HTTP method, a table from status codes to
//! outcomes, and the interpretation of a response against that table.
use vstd::prelude::*;

use crate::util::{WireError, WireFailure};

verus! {

/// The HTTP method of a request.
#[derive(Clone, Copy, Debug, PartialEq, Eq, Structural)]
pub enum Method {
    Get,
    Post,
    Put,
    Patch,
    Delete,
}

/// What a recognised status code stands for.
#[derive(Clone, Copy, Debug, PartialEq, Eq, Structural)]
pub enum OutcomeKind {
    /// The body holds the success payload.
    Success,
    /// The body holds the service's error payload.
    Failure,
}

/// Why a response body does not decode to the payload expected of it.
#[derive(Clone, Debug, PartialEq, Eq)]
pub enum DecodeError {
    /// The body is not a JSON object.
    NotAnObject,
    /// A required member is absent or of the wrong JSON type.
    MissingField(String),
    /// A member's text does not decode to its primitive.
    Primitive(WireError),
}

/// The mathematical value of a `DecodeError`.
pub enum DecodeFailure {
    NotAnObject,
    MissingField(Seq<char>),
    Primitive(WireFailure),
}

impl View for DecodeError {
    type V = DecodeFailure;

    open spec fn view(&self) -> DecodeFailure {
        match self {
            DecodeError::NotAnObject => DecodeFailure::NotAnObject,
            DecodeError::MissingField(k) => DecodeFailure::MissingField(k@),
            DecodeError::Primitive(e) => DecodeFailure::Primitive(e@),
        }
    }
}

/// Whether the decoder's result `r` is the value `d` that the payload's
/// decoding rule gives.
pub open spec fn decodes_as<T: View>(r: Result<T, DecodeError>, d: Result<T::V, DecodeFailure>) -> bool {
    match r {
        Ok(v) => d == Ok::<T::V, DecodeFailure>(v@),
        Err(e) => d == Err::<T::V, DecodeFailure>(e@),
    }
}

/// A payload that a response body decodes to.
pub trait Payload: Sized + View {
    /// The value of what `body` decodes to.
    spec fn decoded(body: Seq<u8>) -> Result<Self::V, DecodeFailure>;

    /// Decodes `body`.
    fn decode(body: &[u8]) -> (r: Result<Self, DecodeError>)
        ensures
            decodes_as(r, Self::decoded(body@)),
    ;
}

/// The interpretation of one response.
#[derive(Clone, Debug, PartialEq, Eq)]
pub enum Outcome<O, E> {
    /// A status that stands for success, with its decoded payload.
    Success(O),
    /// A status that stands for failure, with the service's decoded error.
    Failure(E),
    /// A status that the descriptor does not list, with the raw body.
    UnexpectedStatus(u16, Vec<u8>),
    /// A listed status whose body does not decode.
    Decode(DecodeError),
}

/// The outcome that the first entry for `status` in `table` names, if any.
pub open spec fn status_outcome(table: Seq<(u16, OutcomeKind)>, status: u16) -> Option<OutcomeKind>
    decreases table.len(),
{
    if table.len() == 0 {
        None
    } else if table[0].0 == status {
        Some(table[0].1)
    } else {
        status_outcome(table.drop_first(), status)
    }
}

/// Whether `r` is what a success status makes of a body that decodes as `d`.
pub open spec fn success_from<O: View, E>(r: Outcome<O, E>, d: Result<O::V, DecodeFailure>) -> bool {
    match d {
        Ok(v) => r matches Outcome::Success(o) && o@ == v,
        Err(f) => r matches Outcome::Decode(e) && e@ == f,
    }
}

/// Whether `r` is what a failure status makes of a body that decodes as `d`.
pub open spec fn failure_from<O, E: View>(r: Outcome<O, E>, d: Result<E::V, DecodeFailure>) -> bool {
    match d {
        Ok(v) => r matches Outcome::Failure(x) && x@ == v,
        Err(f) => r matches Outcome::Decode(e) && e@ == f,
    }
}

/// The fixed description of one API operation.
#[derive(Clone, Debug, PartialEq, Eq)]
pub struct Descriptor {
    /// The HTTP method of its requests.
    pub method: Method,
    /// The status codes that it recognises, each with its outcome; the first
    /// entry for a code decides.
    pub statuses: Vec<(u16, OutcomeKind)>,
}

impl Descriptor {
    /// The outcome that the table gives `status`, if it lists it.
    pub fn outcome_of(&self, status: u16) -> (r: Option<OutcomeKind>)
        ensures
            r == status_outcome(self.statuses@, status),
    {
        let ghost t = self.statuses@;
        let mut i: usize = 0;
        assert(t.subrange(0, t.len() as int) =~= t);
        while i < self.statuses.len()
            invariant
                i <= t.len(),
                t == self.statuses@,
                status_outcome(t, status) == status_outcome(t.subrange(i as int, t.len() as int), status),
            decreases t.len() - i,
        {
            proof {
                assert(t.subrange(i as int, t.len() as int).drop_first() =~= t.subrange(
                    i + 1,
                    t.len() as int,
                ));
                assert(t.subrange(i as int, t.len() as int)[0] == t[i as int]);
            }
            let (code, kind) = self.statuses[i];
            if code == status {
                return Some(kind);
            }
            i = i + 1;
        }
        None
    }

    /// Interprets a response: a listed status decodes the body as the success
    /// payload `O` or the error payload `E`, as the table says; a body that
    /// does not decode is a decode error; an unlisted status is reported with
    /// the status and the body as they came.
    pub fn interpret<O: Payload, E: Payload>(&self, status: u16, body: Vec<u8>) -> (r: Outcome<O, E>)
        ensures
            match status_outcome(self.statuses@, status) {
                None => r matches Outcome::UnexpectedStatus(s, b) && s == status && b@ == body@,
                Some(OutcomeKind::Success) => success_from(r, O::decoded(body@)),
                Some(OutcomeKind::Failure) => failure_from(r, E::decoded(body@)),
            },
    {
        match self.outcome_of(status) {
            None => Outcome::UnexpectedStatus(status, body),
            Some(OutcomeKind::Success) => match O::decode(body.as_slice()) {
                Ok(o) => Outcome::Success(o),
                Err(e) => Outcome::Decode(e),
            },
            Some(OutcomeKind::Failure) => match E::decode(body.as_slice()) {
                Ok(e) => Outcome::Failure(e),
                Err(e) => Outcome::Decode(e),
            },
        }
    }
}

} // verus!
