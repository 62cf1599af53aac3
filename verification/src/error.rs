//! The error taxonomy of the engine. Every failure is surfaced to the caller
//! as one of these typed values; none is silently swallowed or downgraded,
//! and the engine never retries an invocation on its own.

use vstd::prelude::*;

verus! {

/// Everything that can go wrong while loading a plugin module or invoking
/// one of its exported transformations.
#[derive(Clone, Copy, Debug, PartialEq, Eq, Structural)]
pub enum PluginError {
    /// The module source is malformed or cannot be compiled.
    LoadError,
    /// The module declares unsatisfied imports or lacks one of the mandatory
    /// exports `memory`, `alloc` and `free` (with their required shapes).
    InstantiationError,
    /// The requested export name is absent from the instance's export table.
    ExportNotFound,
    /// The resolved export does not take the flattened pointer/length pairs
    /// as 32-bit integer arguments and return one 32-bit integer.
    ExportTypeMismatch,
    /// The guest faulted at run time: an out-of-bounds access, an explicit
    /// abort, stack exhaustion, or any other contained runtime violation.
    GuestTrapped,
    /// The bytes returned by the guest fail validation: a result pointer or
    /// length header that leaves the instance's memory, or a payload that is
    /// not a well-formed artifact.
    DecodeError,
    /// The guest allocator could not satisfy an allocation request.
    AllocationExhausted,
}

impl PluginError {
    /// A short, stable description of the failure, for reporting.
    pub fn describe(&self) -> &'static str {
        match self {
            PluginError::LoadError => "module source is malformed or cannot be compiled",
            PluginError::InstantiationError => "module cannot be instantiated: unsatisfied imports or missing mandatory exports",
            PluginError::ExportNotFound => "no export with the requested name",
            PluginError::ExportTypeMismatch => "export signature does not match the pointer/length calling shape",
            PluginError::GuestTrapped => "guest faulted during execution",
            PluginError::DecodeError => "guest result failed validation",
            PluginError::AllocationExhausted => "guest allocator could not satisfy a request",
        }
    }
}

} // verus!
