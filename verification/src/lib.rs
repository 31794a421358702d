//! Client-side protocol logic for a remote endpoint-management service:
//! multiplexed query execution, flow scheduling and monitoring, and chunked
//! file download.
//!
//! The library never performs I/O.  Every operation is expressed as a value
//! describing what to send, and a step function that takes what the service
//! answered and says what happens next.

pub mod address;
pub mod error;
pub mod json;
pub mod text;
pub mod query;
pub mod fetch;
pub mod cli;
pub mod client;
pub mod clock;
pub mod flow;
