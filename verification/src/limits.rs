//! Fixed limits. Sizes are in bytes, times in seconds.

use vstd::prelude::*;

verus! {

pub const TOKEN_MAX_BYTES: usize = 8 * 1024;

pub const MCP_FRAME_MAX_BYTES: usize = 2 * 1024 * 1024;

pub const TOOL_INPUT_MIN_DEFAULT: usize = 4;

pub const TOOL_INPUT_MAX_DEFAULT: usize = 100_000;

pub const TOOL_INPUT_MAX_HARD: usize = 100_000;

pub const UPSTREAM_REQUEST_MAX_BYTES: usize = 1024 * 1024;

pub const CONVERSATION_RESPONSE_MAX_BYTES: usize = 1024 * 1024;

pub const SSE_EVENT_MAX_BYTES: usize = 1024 * 1024;

pub const SSE_STREAM_MAX_BYTES: usize = 8 * 1024 * 1024;

pub const ERROR_BODY_MAX_BYTES: usize = 16 * 1024;

pub const TOOL_CALLS_PER_MESSAGE_MAX: usize = 16;

pub const INTERNAL_TOOL_STEPS_MAX: usize = 10;

pub const WAITING_CALLS_MAX: usize = 8;

pub const CONNECT_TIMEOUT: u64 = 10;

pub const HTTP_OPERATION_TIMEOUT: u64 = 120;

pub const SSE_EVENT_TIMEOUT: u64 = 60;

pub const RETRY_AFTER_MAX: u64 = 30;

pub const SAFE_RETRY_DELAYS: [u64; 3] = [1, 2, 4];

pub const QUEUE_WAIT_TIMEOUT: u64 = 30;

pub const TOOL_CALL_TIMEOUT: u64 = 300;

pub const SHUTDOWN_GRACE_PERIOD: u64 = 5;

} // verus!
