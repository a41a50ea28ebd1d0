//! The failures this crate reports.

use crate::primitives::Address;
use vstd::prelude::*;

verus! {

/// What is said when a call is asked for while no call is running.
pub const CALL_STACK_EMPTY: &'static str = "Call stack is empty but call is used";

/// A failure, as the caller is told of it.
#[derive(Clone, Copy, Debug, PartialEq, Eq)]
pub enum Error {
    /// The opcode is none of the call and create opcodes.
    OpcodeNotCallType,
    /// The transaction does not say where in its block it stands.
    IncompleteBlock,
    /// The top of a stack was read and the stack was empty.
    InvalidStackPointer,
    /// No account is stored under this address.
    AccountNotFound(Address),
    /// The trace and the calls made on it do not fit together.
    InvalidTrace(&'static str),
}

} // verus!
