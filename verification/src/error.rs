//! The error type that Orbflow's components share.

use vstd::prelude::*;

verus! {

/// What can go wrong, by kind; a text says more where the kind does not say all.
#[derive(Debug)]
pub enum OrbflowError {
    NotFound,
    AlreadyExists,
    Conflict,
    Cancelled,
    Timeout,
    NodeNotFound,
    CycleDetected,
    InvalidStatus,
    Forbidden(String),
    Internal(String),
    Bus(String),
    InvalidNodeConfig(String),
    Database(String),
    BudgetExceeded(String),
}

} // verus!
