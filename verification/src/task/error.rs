//! Errors reported by task executors.

use vstd::prelude::*;

verus! {

/// Reported by an executor on failure.
///
/// A non-retryable error moves the task to history as failed; a retryable
/// one requeues it until its retry limit is reached. `retry_after_ms`
/// overrides the backoff delay for a single retry.
#[derive(Debug, Clone)]
pub struct TaskError {
    pub message: String,
    pub retryable: bool,
    /// Whether this error represents a cancellation rather than a failure.
    pub cancelled: bool,
    /// Executor-requested retry delay in milliseconds.
    pub retry_after_ms: Option<u64>,
}

impl TaskError {
    /// A non-retryable error: the task fails permanently.
    pub fn new(message: &str) -> (e: TaskError)
        ensures
            e.message@ == message@,
            !e.retryable,
            !e.cancelled,
            e.retry_after_ms is None,
    {
        TaskError { message: message.to_owned(), retryable: false, cancelled: false, retry_after_ms: None }
    }

    /// Alias of [`TaskError::new`]: a permanent, non-retryable error.
    pub fn permanent(message: &str) -> (e: TaskError)
        ensures
            e.message@ == message@,
            !e.retryable,
            !e.cancelled,
            e.retry_after_ms is None,
    {
        TaskError::new(message)
    }

    /// A retryable error: the task is requeued until its retry limit.
    pub fn retryable(message: &str) -> (e: TaskError)
        ensures
            e.message@ == message@,
            e.retryable,
            !e.cancelled,
            e.retry_after_ms is None,
    {
        TaskError { message: message.to_owned(), retryable: true, cancelled: false, retry_after_ms: None }
    }

    /// A cancellation: no retry, recorded as cancelled.
    pub fn cancelled() -> (e: TaskError)
        ensures
            e.message@ == "task cancelled"@,
            !e.retryable,
            e.cancelled,
            e.retry_after_ms is None,
    {
        TaskError {
            message: "task cancelled".to_owned(),
            retryable: false,
            cancelled: true,
            retry_after_ms: None,
        }
    }

    /// A non-retryable error carrying an owned message.
    pub fn from_message(message: String) -> (e: TaskError)
        ensures
            e.message@ == message@,
            !e.retryable,
            !e.cancelled,
            e.retry_after_ms is None,
    {
        TaskError { message, retryable: false, cancelled: false, retry_after_ms: None }
    }

    /// Whether this error represents a cancellation.
    pub fn is_cancelled(&self) -> (b: bool)
        ensures
            b == self.cancelled,
    {
        self.cancelled
    }

    /// Ask the scheduler to wait at least `delay_ms` milliseconds before
    /// retrying, overriding the backoff strategy for this retry.
    pub fn retry_after(self, delay_ms: u64) -> (e: TaskError)
        ensures
            e.message == self.message,
            e.retryable == self.retryable,
            e.cancelled == self.cancelled,
            e.retry_after_ms == Some(delay_ms),
    {
        let mut e = self;
        e.retry_after_ms = Some(delay_ms);
        e
    }

    /// The executor-requested retry delay in milliseconds, if any.
    pub fn retry_delay(&self) -> (d: Option<u64>)
        ensures
            d == self.retry_after_ms,
    {
        self.retry_after_ms
    }

    /// The text the error displays: its message.
    pub fn to_message(&self) -> (m: String)
        ensures
            m@ == self.message@,
    {
        self.message.clone()
    }
}

impl From<String> for TaskError {
    /// A non-retryable error carrying `message`.
    fn from(message: String) -> (e: TaskError) {
        TaskError { message, retryable: false, cancelled: false, retry_after_ms: None }
    }
}

impl vstd::std_specs::convert::FromSpecImpl<String> for TaskError {
    open spec fn obeys_from_spec() -> bool {
        true
    }

    open spec fn from_spec(message: String) -> TaskError {
        TaskError { message, retryable: false, cancelled: false, retry_after_ms: None }
    }
}

} // verus!
