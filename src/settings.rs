use vstd::prelude::*;

verus! {

/// How to reach the run store.
#[derive(Debug, Clone)]
pub struct DatabaseSettings {
    pub host: String,
    pub port: u16,
    pub database: String,
    pub username: String,
    pub password: String,
    pub connect_timeout_sec: u64,
}

/// How runs are admitted and executed.
#[derive(Debug, Clone)]
pub struct PollingSettings {
    /// Where the upstream server listens.
    pub polling_address: String,
    /// How many runs execute at once (the number of workers).
    pub max_concurrent_runs: usize,
    /// How many admitted runs may wait for a worker.
    pub max_pending_runs: usize,
    /// How many upstream calls one run keeps in flight.
    pub concurrent_requests_per_run: usize,
}

/// A configured limit, raised to one where it was set lower.
pub open spec fn effective_limit(n: usize) -> nat {
    if n == 0 {
        1
    } else {
        n as nat
    }
}

pub fn at_least_one(n: usize) -> (r: usize)
    ensures
        r == effective_limit(n),
{
    if n == 0 {
        1
    } else {
        n
    }
}

} // verus!
