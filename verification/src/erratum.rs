use vstd::prelude::*;

verus! {

/// Why an operation refused its arguments.
#[derive(Debug, Clone, Copy, PartialEq, Eq, Structural)]
pub enum Erratum {
    /// The sizes of the tensors or vectors do not fit the operation.
    ShapeError,
    /// Inputs and targets of a batch hold different numbers of examples.
    BatchSizeError,
}

} // verus!
