//! Opcodes, as far as call bookkeeping reads them.

use vstd::prelude::*;

verus! {

/// The byte of `CREATE`.
pub const CREATE: u8 = 0xf0;

/// The byte of `CALL`.
pub const CALL: u8 = 0xf1;

/// The byte of `CALLCODE`.
pub const CALLCODE: u8 = 0xf2;

/// The byte of `DELEGATECALL`.
pub const DELEGATECALL: u8 = 0xf4;

/// The byte of `CREATE2`.
pub const CREATE2: u8 = 0xf5;

/// The byte of `STATICCALL`.
pub const STATICCALL: u8 = 0xfa;

/// An opcode, named by its byte.
#[derive(Clone, Copy, Debug, PartialEq, Eq, Structural)]
pub struct OpcodeId(pub u8);

impl OpcodeId {
    /// The byte that names the opcode.
    pub fn as_u8(&self) -> (r: u8)
        ensures
            r == self.0,
    {
        self.0
    }
}

} // verus!
