//! Writes formatted `tracing` output to the Android log.
//!
//! A writer accumulates the bytes of one event in a pooled buffer. When it is
//! flushed, the message is split into pieces that the log daemon accepts and
//! each piece becomes one record for the platform sink.

pub mod batch;
pub mod chunk;
pub mod logging;
pub mod pool;
pub mod tag;
pub mod writer;
