//! A typed client binding for a brokerage REST API: string-encoded wire
//! primitives and the endpoint descriptor that interprets responses.
pub mod clock;
pub mod endpoint;
pub mod json;
pub mod time;
pub mod util;
