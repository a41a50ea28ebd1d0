//! References to recorded operations.

use vstd::prelude::*;

verus! {

/// Names one recorded operation by its position in the list of operations.
#[derive(Clone, Copy, Debug, PartialEq, Eq, Structural)]
pub struct OperationRef(pub usize);

} // verus!
