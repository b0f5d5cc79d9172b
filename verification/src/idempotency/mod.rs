//! Idempotency keys for run mutations: the same key with the same request
//! digest returns the same run, the same key with other content conflicts,
//! across restarts and across processes that share one store.
pub mod config;
pub mod durable;
pub mod files;
pub mod flow;
pub mod laws;
pub mod memory;
pub mod orphan;
pub mod owner;
pub mod record;
pub mod replay;
