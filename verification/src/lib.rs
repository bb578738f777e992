//! A load-testing engine for GraphQL-style HTTP APIs.
//!
//! For a configured query and a target request rate, the engine issues
//! requests at that rate for a fixed duration, measures per-request latency
//! and outcome, and summarizes the run as latency percentiles and counts.
//! The rate-controlled dispatch plan, the metrics sink with its destructive
//! drain, the query materializer and the validation rules all live here with
//! machine-checked contracts; the surrounding process (HTTP, file loading,
//! progress bars, persistence) drives this library from the outside.

pub mod config;
pub mod connector;
pub mod console_observer;
pub mod error;
pub mod json_observer;
pub mod kibana;
pub mod requester;
pub mod sink;
pub mod text;
