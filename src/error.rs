use vstd::prelude::*;

verus! {

/// The failures that the engine distinguishes.
#[derive(Debug, PartialEq, Eq)]
pub enum EngineError {
    /// Transport or timeout trouble with the reasoning backend.
    Backend(String),
    /// A response without a valid structured payload, or with fields missing or mistyped.
    Parse(String),
    /// Missing prompt material.
    Template(String),
    /// A mutation that would break a world-state invariant, e.g. a reference to a
    /// contract that does not exist.
    Consistency(String),
    /// A contract action other than `create`, `update` or `end`.
    UnknownAction(String),
    /// A character that the world state does not hold.
    NotFound(String),
}

} // verus!
