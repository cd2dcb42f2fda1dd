//! Store error type, history retention policy and store configuration.

use vstd::prelude::*;
use crate::text::{decimal, format_with_i64, join2};

verus! {

/// Maximum payload size in bytes (1 MiB).
pub const MAX_PAYLOAD_BYTES: usize = 1048576;

/// Errors reported by the task store.
#[derive(Debug, Clone, PartialEq, Eq)]
pub enum StoreError {
    PayloadTooLarge,
    Serialization(String),
    Database(String),
    /// The referenced dependency task exists neither in the queue nor in history.
    InvalidDependency(i64),
    /// The referenced dependency task has already failed or been cancelled.
    DependencyFailed(i64),
    /// A circular dependency was detected at submission time.
    CyclicDependency,
    InvalidTag(String),
    NotFound(String),
    InvalidState(String),
}

/// The human-readable message of an error.
pub open spec fn store_error_message(e: StoreError) -> Seq<char> {
    match e {
        StoreError::PayloadTooLarge => "payload exceeds maximum size of "@ + decimal(
            MAX_PAYLOAD_BYTES as int,
        ) + " bytes"@,
        StoreError::Serialization(s) => "serialization error: "@ + s@,
        StoreError::Database(s) => "database error: "@ + s@,
        StoreError::InvalidDependency(id) => "dependency task "@ + decimal(id as int)
            + " does not exist"@,
        StoreError::DependencyFailed(id) => "dependency task "@ + decimal(id as int)
            + " has already failed"@,
        StoreError::CyclicDependency => "circular dependency detected"@,
        StoreError::InvalidTag(s) => "invalid tag: "@ + s@,
        StoreError::NotFound(s) => "not found: "@ + s@,
        StoreError::InvalidState(s) => "invalid state: "@ + s@,
    }
}

impl StoreError {
    /// The human-readable message of this error.
    pub fn message(&self) -> (m: String)
        ensures
            m@ == store_error_message(*self),
    {
        match self {
            StoreError::PayloadTooLarge => format_with_i64(
                "payload exceeds maximum size of ",
                MAX_PAYLOAD_BYTES as i64,
                " bytes",
            ),
            StoreError::Serialization(s) => join2("serialization error: ", s.as_str()),
            StoreError::Database(s) => join2("database error: ", s.as_str()),
            StoreError::InvalidDependency(id) => format_with_i64(
                "dependency task ",
                *id,
                " does not exist",
            ),
            StoreError::DependencyFailed(id) => format_with_i64(
                "dependency task ",
                *id,
                " has already failed",
            ),
            StoreError::CyclicDependency => "circular dependency detected".to_owned(),
            StoreError::InvalidTag(s) => join2("invalid tag: ", s.as_str()),
            StoreError::NotFound(s) => join2("not found: ", s.as_str()),
            StoreError::InvalidState(s) => join2("invalid state: ", s.as_str()),
        }
    }
}

/// History retention policy for automatic pruning of old records.
#[derive(Debug, Clone, Copy, PartialEq, Eq, Structural)]
pub enum RetentionPolicy {
    /// Keep at most this many history records (oldest pruned first).
    MaxCount(i64),
    /// Keep records from the last N days.
    MaxAgeDays(i64),
}

/// Configuration of the store's connection pool and history pruning.
#[derive(Debug, Clone, Copy, PartialEq, Eq, Structural)]
pub struct StoreConfig {
    /// Maximum number of connections in the pool.
    pub max_connections: u32,
    /// Optional retention policy for automatic history pruning.
    pub retention_policy: Option<RetentionPolicy>,
    /// How many completions between automatic prune runs.
    pub prune_interval: u64,
}

impl StoreConfig {
    /// Defaults: 16 connections, keep at most 10,000 history records,
    /// prune every 100 completions.
    pub fn default_config() -> (c: StoreConfig)
        ensures
            c.max_connections == 16,
            c.retention_policy == Some(RetentionPolicy::MaxCount(10000)),
            c.prune_interval == 100,
    {
        StoreConfig {
            max_connections: 16,
            retention_policy: Some(RetentionPolicy::MaxCount(10000)),
            prune_interval: 100,
        }
    }
}

impl Default for StoreConfig {
    fn default() -> (c: StoreConfig)
        ensures
            c == StoreConfig::default_config_spec(),
    {
        StoreConfig::default_config()
    }
}

impl StoreConfig {
    pub open spec fn default_config_spec() -> StoreConfig {
        StoreConfig {
            max_connections: 16,
            retention_policy: Some(RetentionPolicy::MaxCount(10000)),
            prune_interval: 100,
        }
    }
}

/// Whether the completion numbered `count` (counted from 0) triggers a prune:
/// only when a retention policy is set, once every `prune_interval` completions.
pub open spec fn prune_due(has_policy: bool, count: u64, prune_interval: u64) -> bool {
    has_policy && count % prune_interval == 0
}

/// Decide whether to prune history after a completion or failure.
pub fn should_prune(policy: Option<RetentionPolicy>, count: u64, prune_interval: u64) -> (b: bool)
    requires
        policy is Some ==> prune_interval > 0,
    ensures
        b == prune_due(policy is Some, count, prune_interval),
{
    match policy {
        None => false,
        Some(_) => count % prune_interval == 0,
    }
}

} // verus!
