//! What the end-to-end tests and the benchmark of the transports decide and compute.

pub mod transport_bench;
pub mod uring_check;

