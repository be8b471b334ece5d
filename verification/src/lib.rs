//! Host-level network telemetry: decoding of captured link-layer frames and of
//! the kernel's connection-tracking table into flow records.

pub mod text;
pub mod decimal;
pub mod address;
pub mod pattern;
pub mod conntrack;
pub mod pid;
pub mod network;
pub mod export;
