//! Why a declaration was refused.

use vstd::prelude::*;

verus! {

/// The ways in which declaring external functions can fail.
#[derive(Clone, Copy, Debug, PartialEq, Eq, Structural)]
pub enum DeclError {
    /// The text is no batch of signatures.
    Grammar,
    /// A type name is no primitive and was not bound before.
    UnknownType,
    /// A type has more pointers around it than the machine word can count.
    PointerDepth,
    /// The unit already holds a function of that name.
    Conflict,
}

} // verus!
