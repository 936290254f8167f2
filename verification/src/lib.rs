//! Verified core of a FUSE session served over `/dev/fuse` or over io_uring.

pub mod bytes;
pub mod commands;
pub mod errno;
pub mod error;
pub mod ll;
pub mod session;
pub mod text;
pub mod uring;
