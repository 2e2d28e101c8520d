//! ASCII characters as bytes.

use vstd::prelude::*;

verus! {

/// The tabulator.
pub const TAB: u8 = 9;

/// The line feed.
pub const LF: u8 = 10;

/// The carriage return.
pub const CR: u8 = 13;

/// The space.
pub const SPACE: u8 = 32;

/// The double quote.
pub const QUOTE: u8 = 34;

/// The comma.
pub const COMMA: u8 = 44;

/// The colon.
pub const COLON: u8 = 58;

/// The opening square bracket.
pub const OPEN_BRACKET: u8 = 91;

/// The backslash.
pub const BACKSLASH: u8 = 92;

/// The closing square bracket.
pub const CLOSE_BRACKET: u8 = 93;

/// The opening brace.
pub const OPEN_BRACE: u8 = 123;

/// The closing brace.
pub const CLOSE_BRACE: u8 = 125;

} // verus!
