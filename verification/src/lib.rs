//! Task queue core: task types, submission rules, dedup keys, dependency
//! resolution and the lifecycle decisions behind the persistent task store.

pub mod priority;
pub mod clock;
pub mod text;
pub mod task;
pub mod store;
