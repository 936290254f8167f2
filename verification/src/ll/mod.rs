//! The wire format shared with the kernel.

pub mod fuse_abi;
