//! Verified core of a WebAssembly benchmarking framework: the workloads that the
//! guest modules run, the byte encodings of their results, and the decisions that
//! the HTTP host makes while it drives a guest.

pub mod config;
pub mod cpu_hash;
pub mod encoding;
pub mod invoke;
pub mod mem_random;
pub mod mem_stream;
pub mod net_checksum;
pub mod net_scan;
pub mod text;
pub mod timing;
