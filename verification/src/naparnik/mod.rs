//! The client side of the 1C assistant service.

pub mod client;
pub mod compat;
pub mod event_fields;
pub mod exchange;
pub mod merge;
pub mod response;
pub mod sse;
pub mod tool_roundtrip;
pub mod types;
