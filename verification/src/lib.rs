//! Bridges telemetry published on an MQTT bus to a Loki log aggregator.
//!
//! The crate holds the decisions of the bridge: how a publish event becomes a
//! stamped message, how messages pile up into per-device batches, when a batch
//! is flushed, how a flush retries, and when the process may start and stop.
//! Sockets, timers and queues belong to the program around it, which performs
//! each action that the library decides on and reports back what happened.

pub mod batch;
pub mod batcher;
pub mod config;
pub mod flush;
pub mod ingest;
pub mod loki;
pub mod mqtt;
pub mod pipeline;
pub mod router;
pub mod shutdown;
mod trusted;

