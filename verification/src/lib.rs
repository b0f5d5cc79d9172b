//! The decisions of an HTTP server in front of a run service: who gets in, what
//! a request is answered, and how keyed mutations converge on one run. Sockets,
//! files and clocks are the embedding crate's; it hands over what it read and
//! carries out what is decided here.
pub mod artifact;
pub mod auth;
pub mod cors;
pub mod digest;
pub mod environment;
pub mod error;
pub mod etag;
pub mod events;
pub mod exporter;
pub mod gate;
pub mod header;
pub mod idempotency;
pub mod journal;
pub mod json;
pub mod listing;
pub mod metrics;
pub mod mutation;
pub mod order;
pub mod otlp;
pub mod payload;
pub mod policy;
pub mod promises;
pub mod rate_history;
pub mod rate_limit;
pub mod serve;
pub mod shutdown;
pub mod spans;
pub mod table;
pub mod text;
