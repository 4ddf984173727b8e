//! Error taxonomy of the orchestration layer. Degradation under cost limits
//! is deliberately not here: it is a flag on the result, never an error.

use vstd::prelude::*;

verus! {

/// Why a diff invocation failed. A failure is surfaced immediately; a
/// half-materialized diff is meaningless.
#[derive(Clone, Copy, PartialEq, Eq, Structural, Debug)]
pub enum DiffError {
    /// The object could not be canonicalized into the interchange text.
    Serialization,
    /// An ephemeral artifact could not be created or written.
    Storage,
    /// A backend was handed a missing or unreadable input.
    BackendInput,
}

} // verus!
