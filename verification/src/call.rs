//! Calls: their kinds, their static attributes, their frames on the call
//! stack, and the groups in which their writes are undone.

use crate::error::Error;
use crate::opcode::{OpcodeId, CALL, CALLCODE, CREATE, CREATE2, DELEGATECALL, STATICCALL};
use crate::operation::OperationRef;
use crate::primitives::{Address, H256, Word};
use vstd::prelude::*;

verus! {

/// The kind of a call, one for each opcode that starts a call.
#[derive(Clone, Copy, Debug, PartialEq, Eq, Structural)]
pub enum CallKind {
    /// CALL
    Call,
    /// CALLCODE
    CallCode,
    /// DELEGATECALL
    DelegateCall,
    /// STATICCALL
    StaticCall,
    /// CREATE
    Create,
    /// CREATE2
    Create2,
}

impl CallKind {
    /// Whether the call creates a contract.
    pub fn is_create(&self) -> (r: bool)
        ensures
            r == (*self is Create || *self is Create2),
    {
        matches!(self, CallKind::Create | CallKind::Create2)
    }

    /// The kind of call that `op` starts, where it starts one.
    pub open spec fn of_opcode(op: OpcodeId) -> Option<CallKind> {
        if op.0 == CALL {
            Some(CallKind::Call)
        } else if op.0 == CALLCODE {
            Some(CallKind::CallCode)
        } else if op.0 == DELEGATECALL {
            Some(CallKind::DelegateCall)
        } else if op.0 == STATICCALL {
            Some(CallKind::StaticCall)
        } else if op.0 == CREATE {
            Some(CallKind::Create)
        } else if op.0 == CREATE2 {
            Some(CallKind::Create2)
        } else {
            None
        }
    }
}

impl Default for CallKind {
    fn default() -> (r: CallKind)
        ensures
            r == CallKind::Call,
    {
        CallKind::Call
    }
}

impl TryFrom<OpcodeId> for CallKind {
    type Error = Error;

    /// The kind of call that `op` starts; `OpcodeNotCallType` for every
    /// opcode that starts none.
    fn try_from(op: OpcodeId) -> (r: Result<CallKind, Error>) {
        let b: u8 = op.0;
        if b == CALL {
            Ok(CallKind::Call)
        } else if b == CALLCODE {
            Ok(CallKind::CallCode)
        } else if b == DELEGATECALL {
            Ok(CallKind::DelegateCall)
        } else if b == STATICCALL {
            Ok(CallKind::StaticCall)
        } else if b == CREATE {
            Ok(CallKind::Create)
        } else if b == CREATE2 {
            Ok(CallKind::Create2)
        } else {
            Err(Error::OpcodeNotCallType)
        }
    }
}

impl vstd::std_specs::convert::TryFromSpecImpl<OpcodeId> for CallKind {
    open spec fn obeys_try_from_spec() -> bool {
        true
    }

    open spec fn try_from_spec(op: OpcodeId) -> Result<CallKind, Error> {
        match CallKind::of_opcode(op) {
            Some(kind) => Ok(kind),
            None => Err(Error::OpcodeNotCallType),
        }
    }
}

/// Where the code that a call runs comes from.
#[derive(Clone, Copy, Debug, PartialEq, Eq, Structural)]
pub enum CodeSource {
    /// The code deployed at an address.
    Address(Address),
    /// The input of the transaction, for a transaction that creates a contract.
    Tx,
}

impl Default for CodeSource {
    fn default() -> (r: CodeSource)
        ensures
            r == CodeSource::Tx,
    {
        CodeSource::Tx
    }
}

/// The static attributes of one call.
#[derive(Clone, Copy, Debug, PartialEq, Eq, Structural)]
pub struct Call {
    /// Identifier of the call, unique within the block.
    pub call_id: usize,
    /// Identifier of the caller.
    pub caller_id: usize,
    /// Kind of the call.
    pub kind: CallKind,
    /// Whether the call runs without write access.
    pub is_static: bool,
    /// Whether a transaction made the call, and not another call.
    pub is_root: bool,
    /// Whether neither the call nor any call above it is ever undone.
    pub is_persistent: bool,
    /// Whether the call ends in success.
    pub is_success: bool,
    /// Counter of reads and writes at which the undoing of the call ends.
    pub rw_counter_end_of_reversion: usize,
    /// Address of the caller.
    pub caller_address: Address,
    /// Address at which the call runs.
    pub address: Address,
    /// Where the code comes from.
    pub code_source: CodeSource,
    /// Hash of the code.
    pub code_hash: H256,
    /// Depth of the call, 1 for a root call.
    pub depth: usize,
    /// Value handed to the call.
    pub value: Word,
    /// Where the call data starts.
    pub call_data_offset: u64,
    /// How long the call data is.
    pub call_data_length: u64,
    /// Where the return data starts.
    pub return_data_offset: u64,
    /// How long the return data is.
    pub return_data_length: u64,
}

impl Call {
    /// The call with every number zero, every flag off, kind `Call` and the
    /// transaction as the source of its code.
    pub open spec fn spec_default() -> Call {
        Call {
            call_id: 0,
            caller_id: 0,
            kind: CallKind::Call,
            is_static: false,
            is_root: false,
            is_persistent: false,
            is_success: false,
            rw_counter_end_of_reversion: 0,
            caller_address: Address::spec_zero(),
            address: Address::spec_zero(),
            code_source: CodeSource::Tx,
            code_hash: H256::spec_zero(),
            depth: 0,
            value: Word { hi: 0, lo: 0 },
            call_data_offset: 0,
            call_data_length: 0,
            return_data_offset: 0,
            return_data_length: 0,
        }
    }

    /// A root call stands at depth 1.
    pub open spec fn wf(&self) -> bool {
        self.is_root ==> self.depth == 1
    }

    /// Whether the call creates a contract: a root call of a transaction
    /// without a receiver, or one started by `CREATE` or `CREATE2`.
    pub fn is_create(&self) -> (r: bool)
        ensures
            r == (self.kind is Create || self.kind is Create2),
    {
        self.kind.is_create()
    }
}

impl Default for Call {
    fn default() -> (r: Call)
        ensures
            r == Call::spec_default(),
    {
        Call {
            call_id: 0,
            caller_id: 0,
            kind: CallKind::Call,
            is_static: false,
            is_root: false,
            is_persistent: false,
            is_success: false,
            rw_counter_end_of_reversion: 0,
            caller_address: Address::zero(),
            address: Address::zero(),
            code_source: CodeSource::Tx,
            code_hash: H256::zero(),
            depth: 0,
            value: Word::zero(),
            call_data_offset: 0,
            call_data_length: 0,
            return_data_offset: 0,
            return_data_length: 0,
        }
    }
}

/// One frame of the call stack: what changes while the call runs.
#[derive(Debug)]
pub struct CallContext {
    /// Position of the call among the calls of its transaction.
    pub index: usize,
    /// Number of writes, made by the call and by the calls that returned to
    /// it in success, that can still be undone.
    pub reversible_write_counter: usize,
    /// The bytes handed to the call: the input of the transaction, or a
    /// piece of the caller's memory.
    pub call_data: Vec<u8>,
}

/// A frame of the call stack, as contracts see it.
pub struct CallContextView {
    pub index: usize,
    pub reversible_write_counter: usize,
    pub call_data: Seq<u8>,
}

impl View for CallContext {
    type V = CallContextView;

    open spec fn view(&self) -> CallContextView {
        CallContextView {
            index: self.index,
            reversible_write_counter: self.reversible_write_counter,
            call_data: self.call_data@,
        }
    }
}

impl Default for CallContext {
    fn default() -> (r: CallContext)
        ensures
            r@ == (CallContextView { index: 0, reversible_write_counter: 0, call_data: Seq::empty() }),
    {
        CallContext { index: 0, reversible_write_counter: 0, call_data: Vec::new() }
    }
}

/// The offset that `calls` holds for the call `call_idx`: that of the first
/// entry with this index, if there is one.
pub open spec fn offset_in(calls: Seq<(usize, usize)>, call_idx: usize) -> Option<usize>
    decreases calls.len(),
{
    if calls.len() == 0 {
        None
    } else if calls[0].0 == call_idx {
        Some(calls[0].1)
    } else {
        offset_in(calls.drop_first(), call_idx)
    }
}

/// `offset_in` finds the earliest entry of the call: no entry before it has
/// the index, and none at all where it finds nothing.
pub proof fn lemma_offset_in_is_first(calls: Seq<(usize, usize)>, call_idx: usize)
    ensures
        match offset_in(calls, call_idx) {
            Some(offset) => exists|i: int|
                0 <= i < calls.len() && #[trigger] calls[i] == (call_idx, offset) && forall|j: int|
                    0 <= j < i ==> (#[trigger] calls[j]).0 != call_idx,
            None => forall|j: int| 0 <= j < calls.len() ==> (#[trigger] calls[j]).0 != call_idx,
        },
    decreases calls.len(),
{
    if calls.len() == 0 {
    } else if calls[0].0 == call_idx {
        assert(calls[0] == (call_idx, calls[0].1));
    } else {
        let rest = calls.drop_first();
        lemma_offset_in_is_first(rest, call_idx);
        match offset_in(rest, call_idx) {
            Some(offset) => {
                let i = choose|i: int|
                    0 <= i < rest.len() && #[trigger] rest[i] == (call_idx, offset) && forall|j: int|
                        0 <= j < i ==> (#[trigger] rest[j]).0 != call_idx;
                assert(calls[i + 1] == rest[i]);
                assert forall|j: int| 0 <= j < i + 1 implies (#[trigger] calls[j]).0
                    != call_idx by {
                    if j > 0 {
                        assert(calls[j] == rest[j - 1]);
                    }
                }
            },
            None => {
                assert forall|j: int| 0 <= j < calls.len() implies (#[trigger] calls[j]).0
                    != call_idx by {
                    if j > 0 {
                        assert(calls[j] == rest[j - 1]);
                    }
                }
            },
        }
    }
}

/// An entry added at the end is found only where no earlier entry has the
/// index.
pub proof fn lemma_offset_in_push(calls: Seq<(usize, usize)>, entry: (usize, usize), call_idx: usize)
    ensures
        offset_in(calls.push(entry), call_idx) == match offset_in(calls, call_idx) {
            Some(offset) => Some(offset),
            None => if entry.0 == call_idx {
                Some(entry.1)
            } else {
                None
            },
        },
    decreases calls.len(),
{
    let longer = calls.push(entry);
    if calls.len() == 0 {
        assert(longer.drop_first() =~= calls);
    } else {
        assert(longer[0] == calls[0]);
        assert(longer.drop_first() =~= calls.drop_first().push(entry));
        if calls[0].0 != call_idx {
            lemma_offset_in_push(calls.drop_first(), entry, call_idx);
        }
    }
}

/// The calls whose writes are undone together, and those writes.
///
/// A group is opened by a call that ends in failure. The calls made below
/// it that end in success join the group, for their writes are undone with
/// it.
#[derive(Debug)]
pub struct ReversionGroup {
    /// For each call of the group its index and its offset: the number of
    /// writes of the group that came before the call.
    calls: Vec<(usize, usize)>,
    /// For each write of the group the index of its step and the reference
    /// to the operation.
    op_refs: Vec<(usize, OperationRef)>,
}

/// A reversion group, as contracts see it.
pub struct ReversionGroupView {
    pub calls: Seq<(usize, usize)>,
    pub op_refs: Seq<(usize, OperationRef)>,
}

impl View for ReversionGroup {
    type V = ReversionGroupView;

    closed spec fn view(&self) -> ReversionGroupView {
        ReversionGroupView { calls: self.calls@, op_refs: self.op_refs@ }
    }
}

impl ReversionGroupView {
    /// The group that the call `call_idx` opens: the call at offset 0, and
    /// no write yet.
    pub open spec fn opened_by(call_idx: usize) -> ReversionGroupView {
        ReversionGroupView { calls: seq![(call_idx, 0usize)], op_refs: Seq::empty() }
    }

    /// The group after the call `call_idx` has joined it at `offset`.
    pub open spec fn with_call(self, call_idx: usize, offset: usize) -> ReversionGroupView {
        ReversionGroupView { calls: self.calls.push((call_idx, offset)), op_refs: self.op_refs }
    }

    /// The group after a write has been recorded in it.
    pub open spec fn with_op_ref(self, step_index: usize, op_ref: OperationRef) -> ReversionGroupView {
        ReversionGroupView { calls: self.calls, op_refs: self.op_refs.push((step_index, op_ref)) }
    }
}

impl ReversionGroup {
    /// A group with the given calls and writes.
    pub fn new(calls: Vec<(usize, usize)>, op_refs: Vec<(usize, OperationRef)>) -> (r:
        ReversionGroup)
        ensures
            r@.calls == calls@,
            r@.op_refs == op_refs@,
    {
        ReversionGroup { calls, op_refs }
    }

    /// The group that the call `call_idx` opens.
    pub(crate) fn opened_by(call_idx: usize) -> (r: ReversionGroup)
        ensures
            r@ == ReversionGroupView::opened_by(call_idx),
    {
        let mut calls: Vec<(usize, usize)> = Vec::new();
        calls.push((call_idx, 0));
        assert(calls@ =~= seq![(call_idx, 0usize)]);
        ReversionGroup { calls, op_refs: Vec::new() }
    }

    /// The index and offset of each call of the group, in the order in
    /// which the calls joined.
    pub fn calls(&self) -> (r: &Vec<(usize, usize)>)
        ensures
            r@ == self@.calls,
    {
        &self.calls
    }

    /// The step index and operation reference of each write of the group,
    /// in the order in which they were recorded.
    pub fn op_refs(&self) -> (r: &Vec<(usize, OperationRef)>)
        ensures
            r@ == self@.op_refs,
    {
        &self.op_refs
    }

    /// The offset at which the call `call_idx` joined the group.
    pub fn offset_of(&self, call_idx: usize) -> (r: Option<usize>)
        ensures
            r == offset_in(self@.calls, call_idx),
    {
        let n: usize = self.calls.len();
        let mut i: usize = 0;
        assert(self.calls@.subrange(0, n as int) =~= self.calls@);
        while i < n
            invariant
                n == self.calls@.len(),
                i <= n,
                offset_in(self.calls@, call_idx) == offset_in(
                    self.calls@.subrange(i as int, n as int),
                    call_idx,
                ),
            decreases n - i,
        {
            let entry: (usize, usize) = self.calls[i];
            if entry.0 == call_idx {
                return Some(entry.1);
            }
            assert(self.calls@.subrange(i as int, n as int).drop_first() =~= self.calls@.subrange(
                i + 1,
                n as int,
            ));
            i = i + 1;
        }
        None
    }

    /// Adds the call `call_idx` to the group, at `offset`.
    pub(crate) fn push_call(&mut self, call_idx: usize, offset: usize)
        ensures
            final(self)@ == old(self)@.with_call(call_idx, offset),
    {
        self.calls.push((call_idx, offset));
    }

    /// Records a write in the group.
    pub(crate) fn push_op_ref(&mut self, step_index: usize, op_ref: OperationRef)
        ensures
            final(self)@ == old(self)@.with_op_ref(step_index, op_ref),
    {
        self.op_refs.push((step_index, op_ref));
    }
}

impl Default for ReversionGroup {
    fn default() -> (r: ReversionGroup)
        ensures
            r@.calls == Seq::<(usize, usize)>::empty(),
            r@.op_refs == Seq::<(usize, OperationRef)>::empty(),
    {
        ReversionGroup { calls: Vec::new(), op_refs: Vec::new() }
    }
}

/// How far a copy to memory has come, so that a later step can go on with it.
#[derive(Clone, Copy, Debug, PartialEq, Eq, Structural)]
pub struct CopyToMemoryAuxData {
    /// Where the next byte is read.
    pub src_addr: u64,
    /// Where the next byte is written.
    pub dst_addr: u64,
    /// How many bytes are still to be copied.
    pub bytes_left: u64,
    /// Where the source ends.
    pub src_addr_end: u64,
    /// Whether the bytes come from the call data of the transaction.
    pub from_tx: bool,
}

/// How far a copy of code to memory has come, so that a later step can go
/// on with it.
#[derive(Clone, Copy, Debug, PartialEq, Eq, Structural)]
pub struct CopyCodeToMemoryAuxData {
    /// Where the next byte is read.
    pub src_addr: u64,
    /// Where the next byte is written.
    pub dst_addr: u64,
    /// How many bytes are still to be copied.
    pub bytes_left: u64,
    /// Where the source ends.
    pub src_addr_end: u64,
    /// Hash of the code that is copied.
    pub code_source: Word,
}

/// What a step of a copy that takes several steps carries along.
#[derive(Clone, Copy, Debug, PartialEq, Eq, Structural)]
pub enum StepAuxiliaryData {
    /// A copy to memory.
    CopyToMemory(CopyToMemoryAuxData),
    /// A copy of code to memory.
    CopyCodeToMemory(CopyCodeToMemoryAuxData),
}

} // verus!
