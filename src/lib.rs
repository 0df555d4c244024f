//! Run execution engine for polling an unreliable upstream server.
//!
//! A run is admitted into a bounded queue, picked up by one of a fixed set of
//! workers, executed as a capped fan-out of upstream calls cut off at a
//! deadline, and finally recorded with its tally. This crate holds the
//! decisions of that engine; the transports, the store and the clock are
//! supplied by the caller.

pub mod dto;
pub mod errors;
pub mod settings;
pub mod worker_pool;
pub mod executor;
pub mod polling_service;
pub mod run_store;
