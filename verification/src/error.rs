use vstd::prelude::*;

verus! {

/// The typed failures an invocation can surface.
#[derive(Clone, Copy, Debug, PartialEq, Eq, Structural)]
pub enum ContractError {
    /// The caller of a set-score attempt is not the stored owner; the
    /// attempt changes nothing.
    Unauthorized,
    /// The contract state was read before any initialization stored it; a
    /// deployment fault, fatal for the invocation.
    Uninitialized,
}

} // verus!
