//! The steps that the walk of a trace produces.

use crate::call::StepAuxiliaryData;
use vstd::prelude::*;

verus! {

/// One step of the execution of a transaction, as far as call bookkeeping
/// reads it.
#[derive(Clone, Copy, Debug, PartialEq, Eq)]
pub struct ExecStep {
    /// What a copy that takes several steps carries along.
    pub aux_data: Option<StepAuxiliaryData>,
}

impl Default for ExecStep {
    fn default() -> (r: ExecStep)
        ensures
            r.aux_data is None,
    {
        ExecStep { aux_data: None }
    }
}

} // verus!
