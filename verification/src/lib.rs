//! Trace-context propagation over HTTP headers and gRPC metadata, and the
//! decisions behind a tracing pipeline: which exporter, which log format,
//! which filter, and in what order the pieces are installed.
//!
//! Every function here has a contract over plain values. What the library
//! computes itself is proved. What it has from the crates it builds on (the
//! header map of `http`, the metadata keys of `tonic`, the header formats of
//! the OpenTelemetry SDK, the filter of `tracing-subscriber`) stands behind
//! small wrappers whose contracts say what is taken on trust. The calls that
//! touch the process (the environment, the global subscriber, the network)
//! are left to the program around the library.

pub mod baggage;
pub mod carrier;
pub mod codec;
pub mod composite;
pub mod config;
pub mod context;
pub mod grpc;
pub mod headers;
pub mod laws;
pub mod metadata;
pub mod pipeline;
pub mod propagation;
pub mod text;
pub mod tower_tracing;
