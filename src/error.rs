use vstd::prelude::*;

verus! {

/// Why the argument vector, or a region of strings, could not be located.
#[derive(Debug, Clone, Copy, PartialEq, Eq, Structural)]
pub enum EnvError {
    /// The pointer array exists but its first slot is null, or a computed
    /// array failed validation.
    InvalidArgvPointer,
    /// No strategy produced a pointer array (no environment pointer to start from).
    FailedToGetArgvPointer,
    /// A scan of the array at `ptr` visited no element.
    FailedToGetString { ptr: usize },
    /// The first slot of the array at `ptr` is null.
    PointsToNull { ptr: usize },
    /// The pointer array address itself is null.
    NullPointer,
}

} // verus!
