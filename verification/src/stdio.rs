//! Standard I/O settings of a sandboxed command.

use vstd::prelude::*;

verus! {

/// Standard I/O configuration for a sandboxed command.
#[derive(Debug, Clone, Copy, PartialEq, Eq, Structural)]
pub enum StdioConfig {
    /// Inherit from the parent process.
    Inherit,
    /// Create a new pipe.
    Piped,
    /// Redirect to the null device.
    Null,
}

} // verus!
