//! A scriptable HTTP request builder with a verified request model.
//!
//! A request is built incrementally (method, URL, headers, and a body that is
//! either absent, URL-form-encoded, or multipart), then dispatched in a single
//! blocking round trip.  The builder operations and the dispatch logic are
//! verified; the network itself is reached through a small set of trusted
//! bindings.

pub mod dispatch;
pub mod outbound;
pub mod request;
pub mod strmap;
