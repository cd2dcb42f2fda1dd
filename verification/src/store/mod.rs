//! The task store's rules: errors, configuration, submission checks,
//! dedup decisions, dependency resolution and lifecycle transitions.

pub mod error;
pub mod deps;
pub mod like;
pub mod submit;
pub mod lifecycle;
pub mod dispatch;
pub mod tag_rows;
