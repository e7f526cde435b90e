//! Protocol constants.

use vstd::prelude::*;

verus! {

/// Bytes taken by the size field that opens every frame.
pub const PACKET_SIZE_FIELD_LEN: usize = 4;

/// Bytes taken by the three integers (size, id, type) that precede the body.
pub const PACKET_HEADER_LEN: usize = 12;

/// Smallest size a frame may declare: id, type and the two closing NUL bytes.
pub const PACKET_SIZE_MIN: i32 = 10;

/// Largest size a frame may declare.
pub const PACKET_SIZE_MAX: i32 = 4096;

/// Longest body of a command that a session sends, and the number of body
/// bytes taken from a frame whose declared size is beyond `PACKET_SIZE_MAX`.
pub const PACKET_BODY_MAX_LEN: usize = 4084;

/// Longest body that is ever read from a frame: the one of a frame that
/// declares `PACKET_SIZE_MAX`.
pub const PACKET_BODY_LIMIT: usize = 4086;

/// Length of the buffer that a driver should offer to a single read.
pub const PACKET_MAX_BUFFER_LEN: usize = 4100;

/// Identifier with which a server answers a rejected login.
pub const BAD_AUTH: i32 = -1;

/// Identifier that every login packet carries.
pub const LOGIN_ID: i32 = 1;

/// Wire code of a login request.
pub const TYPE_LOGIN: i32 = 3;

/// Wire code of a command request and of a login acknowledgement.
pub const TYPE_COMMAND: i32 = 2;

/// Wire code of a command response.
pub const TYPE_RESPONSE: i32 = 0;

/// Character that introduces a two-character colour code in server text.
pub const COLOR_CODE_MARKER: char = '\u{a7}';

/// Seconds after which a driver should give up on a single read or write.
pub const IO_TIMEOUT_SECS: u64 = 1;

} // verus!
