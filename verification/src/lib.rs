//! Verified core of a local MCP server for 1C:Enterprise development assistance.

pub mod ascii;
pub mod config;
pub mod encoding;
pub mod error;
pub mod json;
pub mod json_text;
pub mod limits;
pub mod log_filter;
pub mod mcp;
pub mod naparnik;
pub mod strings;
