//! The ways in which an inference call or its preparation can fail.

use vstd::prelude::*;

verus! {

/// A failure, by class.
#[derive(Clone, Copy, Debug, PartialEq, Eq, Structural)]
pub enum EngineError {
    /// A tensor does not have the shape that its consumer declares.
    ShapeMismatch,
    /// A tensor would hold more elements than an array can address.
    TooLarge,
    /// The number of window outputs differs from the number of windows.
    WindowCount,
    /// The matrix-multiply kernel of a size configuration could not be created.
    KernelCreation,
}

} // verus!
