//! The bits of the process-wide log mask, one per kind of message.
use vstd::prelude::*;

verus! {

pub const INIT_ERROR: u64 = 1;
pub const EXIT: u64 = 4;
pub const CLIENT_DUMP: u64 = 8;
pub const REQUEST: u64 = 16;
pub const RESPONSE: u64 = 32;
pub const RESPONSE_TIME: u64 = 64;
pub const HANDLER_ERROR: u64 = 128;
pub const TLS_UPGRADE_ERROR: u64 = 256;
pub const CONTENT_HANDLER_ERROR: u64 = 512;
pub const HTTP2_ERROR: u64 = 1024;
pub const HTTP2_FRAME_DUMP: u64 = 2048;

} // verus!
