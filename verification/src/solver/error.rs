//! Errors of the solver's components.
use vstd::prelude::*;

verus! {

/// An error raised by a store or a component of the solver.
#[derive(Debug)]
pub enum SolverError {
    Store(String),
    Component(String),
    OrderNotFound(String),
}

/// The text of an error: its kind, a colon and its detail.
pub open spec fn error_text(e: SolverError) -> Seq<char> {
    match e {
        SolverError::Store(m) => "Store error: "@ + m@,
        SolverError::Component(m) => "Component error: "@ + m@,
        SolverError::OrderNotFound(m) => "Order not found: "@ + m@,
    }
}

impl SolverError {
    /// The text of the error (see `error_text`).
    pub fn message(&self) -> (text: String)
        ensures
            text@ == error_text(*self),
    {
        match self {
            SolverError::Store(m) => String::from_str("Store error: ").concat(m.as_str()),
            SolverError::Component(m) => String::from_str("Component error: ").concat(m.as_str()),
            SolverError::OrderNotFound(m) => String::from_str("Order not found: ").concat(m.as_str()),
        }
    }
}

} // verus!
