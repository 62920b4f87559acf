//! Error types for the scheduler.

use vstd::prelude::*;

verus! {

/// Scheduler errors.
///
/// Configuration errors are fatal at startup; queue errors are surfaced to
/// the caller of an admission as a rejection; lifecycle misuse is surfaced
/// as a returned error; transport and serialization conditions are recorded
/// here only for observability, since any remote failure is locally
/// recovered as a default score and never surfaced to admission callers.
#[derive(Debug, Clone)]
pub enum SchedulerError {
    /// Configuration error.
    Config(String),
    /// Reputation service error.
    CynicApi(String),
    /// Network error.
    Network(String),
    /// Serialization error.
    Serialization(String),
    /// Transaction parsing error.
    TransactionParse(String),
    /// Queue error.
    Queue(String),
    /// Shared memory error.
    SharedMemory(String),
    /// Worker communication error.
    WorkerComm(String),
    /// Timeout error.
    Timeout(String),
    /// Internal error.
    Internal(String),
}

impl SchedulerError {
    /// Create a config error.
    pub fn config(msg: String) -> (r: Self)
        ensures
            r == SchedulerError::Config(msg),
    {
        SchedulerError::Config(msg)
    }

    /// Create a reputation service error.
    pub fn cynic_api(msg: String) -> (r: Self)
        ensures
            r == SchedulerError::CynicApi(msg),
    {
        SchedulerError::CynicApi(msg)
    }

    /// Create a transaction parse error.
    pub fn tx_parse(msg: String) -> (r: Self)
        ensures
            r == SchedulerError::TransactionParse(msg),
    {
        SchedulerError::TransactionParse(msg)
    }

    /// Create a queue error.
    pub fn queue(msg: String) -> (r: Self)
        ensures
            r == SchedulerError::Queue(msg),
    {
        SchedulerError::Queue(msg)
    }

    /// Create a shared memory error.
    pub fn shared_memory(msg: String) -> (r: Self)
        ensures
            r == SchedulerError::SharedMemory(msg),
    {
        SchedulerError::SharedMemory(msg)
    }

    /// Create a worker communication error.
    pub fn worker_comm(msg: String) -> (r: Self)
        ensures
            r == SchedulerError::WorkerComm(msg),
    {
        SchedulerError::WorkerComm(msg)
    }

    /// Create a timeout error.
    pub fn timeout(msg: String) -> (r: Self)
        ensures
            r == SchedulerError::Timeout(msg),
    {
        SchedulerError::Timeout(msg)
    }

    /// Create an internal error.
    pub fn internal(msg: String) -> (r: Self)
        ensures
            r == SchedulerError::Internal(msg),
    {
        SchedulerError::Internal(msg)
    }
}

} // verus!
