//! Task types: lifecycle states, pause reasons, IO budgets, errors,
//! submissions, outcomes and dedup keys.

pub mod status;
pub mod pause;
pub mod io;
pub mod error;
pub mod outcome;
pub mod tags;
pub mod dedup;
pub mod submission;
pub mod retry;
pub mod record;
pub mod builder;
pub mod typed;
