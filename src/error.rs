//! Errors of lowering and emission. Every one of them is fatal to the whole program.
use vstd::prelude::*;

verus! {

/// Why a program could not be compiled.
#[derive(Debug, Clone, PartialEq, Eq)]
pub enum LowerError {
    /// A type with no machine representation.
    UnsupportedType,
    /// An operator that is not lowered.
    UnsupportedOperator,
    /// One destination declared with two different types.
    TypeConflict,
    /// Two functions of the program share a name.
    DuplicateFunction,
    /// A reference to an undeclared variable, label or function, a wrong
    /// number of operands, a repeated label, or a missing return.
    Malformed,
    /// The backend rejected a finished function; its diagnostic.
    VerificationFailure(String),
    /// The object module refused a declaration; the reason.
    ModuleError(String),
    /// No code generator could be set up for the host; the reason.
    BackendUnavailable(String),
}

} // verus!
