//! Runtime metrics for Modbus clients and servers.
//!
//! The [`Metrics`] struct holds counters for requests, responses, errors, and
//! retries. Counters are updated atomically so a single [`Metrics`] instance
//! can be shared across tasks or threads; what a counter reads is therefore
//! whatever the increments of all sharers have made it.

use vstd::prelude::*;

use core::sync::atomic::{AtomicU64, Ordering};

verus! {

/// Counters that track Modbus client/server activity.
#[derive(Debug, Default)]
pub struct Metrics {
    requests_sent: AtomicU64,
    responses_received: AtomicU64,
    requests_received: AtomicU64,
    responses_sent: AtomicU64,
    errors: AtomicU64,
    retries: AtomicU64,
}

impl Metrics {
    /// Create a new, zero-initialized metrics instance.
    ///
    /// The counters are atomics read and bumped through shared references,
    /// of whose values the proofs know nothing.
    pub fn new() -> Self {
        Self {
            requests_sent: AtomicU64::new(0),
            responses_received: AtomicU64::new(0),
            requests_received: AtomicU64::new(0),
            responses_sent: AtomicU64::new(0),
            errors: AtomicU64::new(0),
            retries: AtomicU64::new(0),
        }
    }

    /// Return the number of request ADUs sent by a client.
    ///
    /// The count is whatever the increments of every holder of this instance
    /// have made it by the time of the read.
    pub fn requests_sent(&self) -> u64 {
        self.requests_sent.load(Ordering::Relaxed)
    }

    /// Return the number of response ADUs received by a client.
    ///
    /// The count is whatever the increments of every holder of this instance
    /// have made it by the time of the read.
    pub fn responses_received(&self) -> u64 {
        self.responses_received.load(Ordering::Relaxed)
    }

    /// Return the number of request PDUs received by a server.
    ///
    /// The count is whatever the increments of every holder of this instance
    /// have made it by the time of the read.
    pub fn requests_received(&self) -> u64 {
        self.requests_received.load(Ordering::Relaxed)
    }

    /// Return the number of response PDUs sent by a server.
    ///
    /// The count is whatever the increments of every holder of this instance
    /// have made it by the time of the read.
    pub fn responses_sent(&self) -> u64 {
        self.responses_sent.load(Ordering::Relaxed)
    }

    /// Return the number of errors encountered by the client or server.
    ///
    /// The count is whatever the increments of every holder of this instance
    /// have made it by the time of the read.
    pub fn errors(&self) -> u64 {
        self.errors.load(Ordering::Relaxed)
    }

    /// Return the number of retry attempts made by a retry adapter.
    ///
    /// The count is whatever the increments of every holder of this instance
    /// have made it by the time of the read.
    pub fn retries(&self) -> u64 {
        self.retries.load(Ordering::Relaxed)
    }

    /// Count one request ADU sent.
    pub fn record_request_sent(&self) {
        self.requests_sent.fetch_add(1, Ordering::Relaxed);
    }

    /// Count one response ADU received.
    pub fn record_response_received(&self) {
        self.responses_received.fetch_add(1, Ordering::Relaxed);
    }

    /// Count one request PDU received.
    pub fn record_request_received(&self) {
        self.requests_received.fetch_add(1, Ordering::Relaxed);
    }

    /// Count one response PDU sent.
    pub fn record_response_sent(&self) {
        self.responses_sent.fetch_add(1, Ordering::Relaxed);
    }

    /// Count one error.
    pub fn record_error(&self) {
        self.errors.fetch_add(1, Ordering::Relaxed);
    }

    /// Count one retry attempt.
    pub fn record_retry(&self) {
        self.retries.fetch_add(1, Ordering::Relaxed);
    }
}

impl Clone for Metrics {
    /// A new set of counters holding the values these read now.
    fn clone(&self) -> Self {
        Self {
            requests_sent: AtomicU64::new(self.requests_sent.load(Ordering::Relaxed)),
            responses_received: AtomicU64::new(self.responses_received.load(Ordering::Relaxed)),
            requests_received: AtomicU64::new(self.requests_received.load(Ordering::Relaxed)),
            responses_sent: AtomicU64::new(self.responses_sent.load(Ordering::Relaxed)),
            errors: AtomicU64::new(self.errors.load(Ordering::Relaxed)),
            retries: AtomicU64::new(self.retries.load(Ordering::Relaxed)),
        }
    }
}

} // verus!
