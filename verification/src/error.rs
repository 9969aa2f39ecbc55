use vstd::prelude::*;

verus! {

/// Why a validity query or constructor refused its input.
#[derive(Clone, Copy, Debug, PartialEq, Eq, Structural)]
pub enum ValidityError {
    /// A row or column index lies outside the bounds of what it indexes.
    OutOfRange,
    /// Declared row or column counts disagree with the buffers supplied.
    MalformedInput,
}

} // verus!
