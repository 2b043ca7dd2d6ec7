//! Console output and minimal I/O boundary of a bare-metal kernel.
//!
//! Log records and raw byte writes are routed to one shared transmit channel.
//! Records are coloured by severity with terminal escape sequences, and two
//! fixed pseudo-descriptors, `stdin:` and `stdout:`, are offered to callers
//! that issue syscall-style requests.

pub mod channel;
pub mod color;
pub mod cstr;
pub mod io;
pub mod logger;
pub mod render;
