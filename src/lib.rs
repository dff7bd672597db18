//! A byte-stream passthrough that meters what it forwards: the running total,
//! the throughput in human-scaled units, and an adaptive transfer-buffer size.

pub mod text;
pub mod units;
pub mod scale;
pub mod session;
pub mod history;
pub mod cli;
