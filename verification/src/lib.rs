//! Merging the chunks of a streamed body into one readable buffer, with the
//! small request and response helpers that sit beside it.

pub mod chunk;
pub mod model;
pub mod aggregate;
pub mod collect;
pub mod request;
pub mod json;
pub mod response;

pub use aggregate::Aggregate;
pub use collect::AggregateError;
pub use collect::Collector;
pub use request::Authorization;
pub use request::RequestExt;
