//! The tools that are offered over MCP, and the frames that carry them.

pub mod arguments;
pub mod catalog;
pub mod codec;
pub mod instruction;
pub mod markdown;
pub mod request_id;
pub mod schema;
pub mod service;
pub mod text;
