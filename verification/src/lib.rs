//! Call and transaction bookkeeping over an execution trace.
//!
//! A trace is a flat list of steps. From it this crate works out which calls
//! end in success, keeps the stack of running calls while an interpreter
//! walks the trace, and groups the calls whose writes are undone together.
//! Every function is verified against a contract over the plain
//! mathematical model of the data it works on.

pub mod assoc;
pub mod call;
pub mod error;
pub mod execution;
pub mod laws;
pub mod opcode;
pub mod operation;
pub mod primitives;
pub mod state_db;
pub mod trace;
pub mod transaction;
pub mod tx_context;

pub use call::{
    Call, CallContext, CallKind, CodeSource, CopyCodeToMemoryAuxData, CopyToMemoryAuxData,
    ReversionGroup, StepAuxiliaryData,
};
pub use error::Error;
pub use execution::ExecStep;
pub use opcode::OpcodeId;
pub use operation::OperationRef;
pub use primitives::{Address, Word, H256};
pub use state_db::{Account, CodeDB, StateDB};
pub use trace::{EthTransaction, ExecTrace, TraceStep};
pub use transaction::{ContractCreation, Transaction};
pub use tx_context::TransactionContext;
