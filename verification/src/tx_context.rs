//! The context of a transaction while its trace is walked: the stack of
//! running calls, the success of every call, and the reversion groups that
//! are open.

use crate::call::{offset_in, CallContext, CallContextView, ReversionGroup, ReversionGroupView};
use crate::error::{Error, CALL_STACK_EMPTY};
use crate::operation::OperationRef;
use crate::trace::{stops_before, success_table, well_nested, EthTransaction, ExecTrace};
use vstd::prelude::*;

verus! {

/// The context of a transaction, as contracts see it.
pub struct TransactionContextView {
    /// Position of the transaction in its block, counted from 1.
    pub id: usize,
    /// Whether the transaction is the last of its block.
    pub is_last_tx: bool,
    /// The frames of the running calls, the innermost last.
    pub calls: Seq<CallContextView>,
    /// Success of each call, by the index of the call.
    pub call_is_success: Seq<bool>,
    /// The reversion groups, the innermost last. Only that one is active:
    /// writes are recorded in it and in no other.
    pub reversion_groups: Seq<ReversionGroupView>,
}

impl TransactionContextView {
    /// A group is opened by a call that fails, which stands in it at offset
    /// 0, and joined only by calls that succeed.
    pub open spec fn group_wf(self, group: ReversionGroupView) -> bool {
        &&& group.calls.len() > 0
        &&& group.calls[0].1 == 0
        &&& forall|k: int|
            0 <= k < group.calls.len() ==> (#[trigger] group.calls[k]).0
                < self.call_is_success.len()
        &&& !self.call_is_success[group.calls[0].0 as int]
        &&& forall|k: int|
            1 <= k < group.calls.len() ==> self.call_is_success[(#[trigger] group.calls[k]).0 as int]
    }

    /// Transactions are counted from 1, the success of the transaction
    /// itself is known, every frame belongs to a call whose success is
    /// known, and every group is as `group_wf` says.
    pub open spec fn wf(self) -> bool {
        &&& self.id >= 1
        &&& self.call_is_success.len() > 0
        &&& forall|i: int|
            0 <= i < self.calls.len() ==> (#[trigger] self.calls[i]).index
                < self.call_is_success.len()
        &&& forall|i: int|
            0 <= i < self.reversion_groups.len() ==> self.group_wf(
                #[trigger] self.reversion_groups[i],
            )
    }

    /// The context before any call has been entered.
    pub open spec fn empty(id: usize, is_last_tx: bool, call_is_success: Seq<bool>) -> Self {
        TransactionContextView {
            id,
            is_last_tx,
            calls: Seq::empty(),
            call_is_success,
            reversion_groups: Seq::empty(),
        }
    }

    /// The context with which the walk of a trace starts: the root call,
    /// whose index is 0, has been entered with the input of the transaction.
    pub open spec fn initial(
        id: usize,
        is_last_tx: bool,
        call_is_success: Seq<bool>,
        input: Seq<u8>,
    ) -> Self {
        Self::empty(id, is_last_tx, call_is_success).push_call_ctx(0, input)
    }

    /// Whether the call `call_idx` joins the active group when it is
    /// entered: it succeeds, and a group is open.
    pub open spec fn joins_group(self, call_idx: usize) -> bool {
        self.call_is_success[call_idx as int] && self.reversion_groups.len() > 0
    }

    /// The offset at which a call joins the active group: the writes of its
    /// caller that can still be undone, added to the offset of the caller.
    pub open spec fn join_offset(self) -> int {
        self.calls.last().reversible_write_counter + offset_in(
            self.reversion_groups.last().calls,
            self.calls.last().index,
        )->0
    }

    /// Whether the call `call_idx` can be entered. Its success is known.
    /// Where it joins the active group, a caller is running, the group
    /// holds the caller, and the offset of the call fits in a `usize`.
    pub open spec fn can_push(self, call_idx: usize) -> bool {
        &&& call_idx < self.call_is_success.len()
        &&& self.joins_group(call_idx) ==> {
            &&& self.calls.len() > 0
            &&& offset_in(self.reversion_groups.last().calls, self.calls.last().index) is Some
            &&& self.join_offset() <= usize::MAX
        }
    }

    /// The context after the call `call_idx` has been entered with
    /// `call_data`.
    ///
    /// A call that fails opens a group of its own, which is then the active
    /// one. A call that succeeds joins the active group, if one is open.
    /// In every case a frame without writes is put on the call stack.
    pub open spec fn push_call_ctx(self, call_idx: usize, call_data: Seq<u8>) -> Self {
        let frame = CallContextView { index: call_idx, reversible_write_counter: 0, call_data };
        let reversion_groups = if !self.call_is_success[call_idx as int] {
            self.reversion_groups.push(ReversionGroupView::opened_by(call_idx))
        } else if self.reversion_groups.len() > 0 {
            self.reversion_groups.update(
                self.reversion_groups.len() - 1,
                self.reversion_groups.last().with_call(call_idx, self.join_offset() as usize),
            )
        } else {
            self.reversion_groups
        };
        TransactionContextView { calls: self.calls.push(frame), reversion_groups, ..self }
    }

    /// Whether the innermost call hands its writes to its caller when it
    /// returns: it succeeds, and it has a caller.
    pub open spec fn hands_up(self) -> bool {
        self.call_is_success[self.calls.last().index as int] && self.calls.len() >= 2
    }

    /// Whether the innermost call can return. A call is running. Where it
    /// hands its writes to its caller, their sum fits in a `usize`.
    pub open spec fn can_pop(self) -> bool {
        &&& self.calls.len() > 0
        &&& self.hands_up() ==> self.calls[self.calls.len() - 2].reversible_write_counter
            + self.calls.last().reversible_write_counter <= usize::MAX
    }

    /// The context after the innermost call has returned.
    ///
    /// Its frame leaves the call stack. The writes of a call that succeeds
    /// are added to those of its caller. The writes of a call that fails are
    /// dropped: they are undone with its own group.
    pub open spec fn pop_call_ctx(self) -> Self {
        let rest = self.calls.drop_last();
        let calls = if self.hands_up() {
            rest.update(
                rest.len() - 1,
                CallContextView {
                    reversible_write_counter: (rest.last().reversible_write_counter
                        + self.calls.last().reversible_write_counter) as usize,
                    ..rest.last()
                },
            )
        } else {
            rest
        };
        TransactionContextView { calls, ..self }
    }

    /// The index of the innermost call; a failure where no call is running.
    pub open spec fn call_index(self) -> Result<usize, Error> {
        if self.calls.len() > 0 {
            Ok(self.calls.last().index)
        } else {
            Err(Error::InvalidTrace(CALL_STACK_EMPTY))
        }
    }

    /// The frame of the innermost call; a failure where no call is running.
    pub open spec fn call_ctx(self) -> Result<CallContextView, Error> {
        if self.calls.len() > 0 {
            Ok(self.calls.last())
        } else {
            Err(Error::InvalidTrace(CALL_STACK_EMPTY))
        }
    }

    /// The context with `frame` in place of the innermost frame.
    pub open spec fn with_top(self, frame: CallContextView) -> Self {
        TransactionContextView { calls: self.calls.update(self.calls.len() - 1, frame), ..self }
    }

    /// The context after a write has been recorded: it stands in the active
    /// group and in no other. Without an open group nothing is recorded.
    pub open spec fn record_op_ref(self, step_index: usize, op_ref: OperationRef) -> Self {
        if self.reversion_groups.len() > 0 {
            TransactionContextView {
                reversion_groups: self.reversion_groups.update(
                    self.reversion_groups.len() - 1,
                    self.reversion_groups.last().with_op_ref(step_index, op_ref),
                ),
                ..self
            }
        } else {
            self
        }
    }
}

/// The frames of a call stack, as contracts see them.
pub open spec fn frames(calls: Seq<CallContext>) -> Seq<CallContextView> {
    Seq::new(calls.len(), |i: int| calls[i]@)
}

/// Reversion groups, as contracts see them.
pub open spec fn groups(reversion_groups: Seq<ReversionGroup>) -> Seq<ReversionGroupView> {
    Seq::new(reversion_groups.len(), |i: int| reversion_groups[i]@)
}

/// Entering a call that can be entered keeps the context well formed.
pub proof fn lemma_push_keeps_wf(ctx: TransactionContextView, call_idx: usize, call_data: Seq<u8>)
    requires
        ctx.wf(),
        ctx.can_push(call_idx),
    ensures
        ctx.push_call_ctx(call_idx, call_data).wf(),
{
    let after = ctx.push_call_ctx(call_idx, call_data);
    assert forall|i: int| 0 <= i < after.calls.len() implies (#[trigger] after.calls[i]).index
        < after.call_is_success.len() by {
        if i < ctx.calls.len() {
            assert(after.calls[i] == ctx.calls[i]);
        }
    }
    assert forall|i: int| 0 <= i < after.reversion_groups.len() implies after.group_wf(
        #[trigger] after.reversion_groups[i],
    ) by {
        let group = after.reversion_groups[i];
        if !ctx.call_is_success[call_idx as int] {
            if i < ctx.reversion_groups.len() {
                assert(group == ctx.reversion_groups[i]);
                assert(ctx.group_wf(ctx.reversion_groups[i]));
            } else {
                assert(group == ReversionGroupView::opened_by(call_idx));
            }
        } else if i == ctx.reversion_groups.len() - 1 {
            let before = ctx.reversion_groups[i];
            assert(ctx.group_wf(before));
            assert forall|k: int| 0 <= k < group.calls.len() implies (#[trigger] group.calls[k]).0
                < after.call_is_success.len() by {
                if k < before.calls.len() {
                    assert(group.calls[k] == before.calls[k]);
                }
            }
            assert forall|k: int| 1 <= k < group.calls.len() implies after.call_is_success[(
            #[trigger] group.calls[k]).0 as int] by {
                if k < before.calls.len() {
                    assert(group.calls[k] == before.calls[k]);
                }
            }
            assert(group.calls[0] == before.calls[0]);
        } else {
            assert(group == ctx.reversion_groups[i]);
            assert(ctx.group_wf(ctx.reversion_groups[i]));
        }
    }
}

/// The return of the innermost call keeps the context well formed.
pub proof fn lemma_pop_keeps_wf(ctx: TransactionContextView)
    requires
        ctx.wf(),
        ctx.can_pop(),
    ensures
        ctx.pop_call_ctx().wf(),
{
    let after = ctx.pop_call_ctx();
    assert forall|i: int| 0 <= i < after.calls.len() implies (#[trigger] after.calls[i]).index
        < after.call_is_success.len() by {
        assert(after.calls[i].index == ctx.calls[i].index);
    }
    assert forall|i: int| 0 <= i < after.reversion_groups.len() implies after.group_wf(
        #[trigger] after.reversion_groups[i],
    ) by {
        assert(ctx.group_wf(ctx.reversion_groups[i]));
    }
}

/// Recording a write keeps the context well formed.
pub proof fn lemma_record_keeps_wf(
    ctx: TransactionContextView,
    step_index: usize,
    op_ref: OperationRef,
)
    requires
        ctx.wf(),
    ensures
        ctx.record_op_ref(step_index, op_ref).wf(),
{
    let after = ctx.record_op_ref(step_index, op_ref);
    assert forall|i: int| 0 <= i < after.reversion_groups.len() implies after.group_wf(
        #[trigger] after.reversion_groups[i],
    ) by {
        assert(ctx.group_wf(ctx.reversion_groups[i]));
        assert(after.reversion_groups[i].calls == ctx.reversion_groups[i].calls);
    }
}

/// The context of a transaction while its trace is walked.
#[derive(Debug)]
pub struct TransactionContext {
    /// Position of the transaction in its block, counted from 1.
    id: usize,
    /// Whether the transaction is the last of its block.
    is_last_tx: bool,
    /// The call stack.
    calls: Vec<CallContext>,
    /// Success of each call, by the index of the call.
    call_is_success: Vec<bool>,
    /// The reversion groups, one for each failed call that was entered. They
    /// are kept as a stack because a call that fails may run inside another
    /// that fails: a write is then undone once, with the innermost group,
    /// which is the last of the stack.
    reversion_groups: Vec<ReversionGroup>,
}

impl View for TransactionContext {
    type V = TransactionContextView;

    closed spec fn view(&self) -> TransactionContextView {
        TransactionContextView {
            id: self.id,
            is_last_tx: self.is_last_tx,
            calls: frames(self.calls@),
            call_is_success: self.call_is_success@,
            reversion_groups: groups(self.reversion_groups@),
        }
    }
}

impl TransactionContext {
    /// The context with which the walk of `trace` starts.
    ///
    /// The success of every call is worked out from the trace, and the root
    /// call is entered with the input of the transaction. Fails with
    /// `InvalidStackPointer` where the trace reads an empty stack, and
    /// otherwise with `IncompleteBlock` where the transaction does not say
    /// where in its block it stands.
    pub fn new(eth_tx: &EthTransaction, trace: &ExecTrace, is_last_tx: bool) -> (r: Result<
        TransactionContext,
        Error,
    >)
        requires
            well_nested(trace.steps@),
            !stops_before(trace.steps@, trace.steps@.len() as int) ==> (
            eth_tx.transaction_index matches Some(index) ==> index < usize::MAX),
        ensures
            match r {
                Ok(ctx) => {
                    &&& !stops_before(trace.steps@, trace.steps@.len() as int)
                    &&& eth_tx.transaction_index matches Some(index)
                    &&& ctx@ == TransactionContextView::initial(
                        (index + 1) as usize,
                        is_last_tx,
                        success_table(trace.failed, trace.steps@),
                        eth_tx.input@,
                    )
                    &&& ctx@.wf()
                },
                Err(e) => if stops_before(trace.steps@, trace.steps@.len() as int) {
                    e == Error::InvalidStackPointer
                } else {
                    eth_tx.transaction_index is None && e == Error::IncompleteBlock
                },
            },
    {
        let call_is_success = match trace.call_is_success() {
            Ok(table) => table,
            Err(e) => {
                return Err(e);
            },
        };
        let id: usize = match eth_tx.transaction_index {
            Some(index) => index as usize + 1,
            None => {
                return Err(Error::IncompleteBlock);
            },
        };
        let mut ctx = TransactionContext {
            id,
            is_last_tx,
            calls: Vec::new(),
            call_is_success,
            reversion_groups: Vec::new(),
        };
        assert(ctx@ =~= TransactionContextView::empty(id, is_last_tx, call_is_success@)) by {
            assert(ctx@.calls =~= Seq::empty());
            assert(ctx@.reversion_groups =~= Seq::empty());
        }
        let input = eth_tx.input.clone();
        assert(input@ == eth_tx.input@);
        ctx.push_call_ctx(0, input);
        Ok(ctx)
    }

    /// Position of the transaction in its block, counted from 1.
    pub fn id(&self) -> (r: usize)
        ensures
            r == self@.id,
    {
        self.id
    }

    /// Whether the transaction is the last of its block.
    pub fn is_last_tx(&self) -> (r: bool)
        ensures
            r == self@.is_last_tx,
    {
        self.is_last_tx
    }

    /// The frames of the running calls, the innermost last.
    pub fn calls(&self) -> (r: &[CallContext])
        ensures
            frames(r@) == self@.calls,
    {
        self.calls.as_slice()
    }

    /// Success of each call, by the index of the call. The first entry is
    /// the success of the transaction itself.
    pub fn call_is_success(&self) -> (r: &[bool])
        ensures
            r@ == self@.call_is_success,
    {
        self.call_is_success.as_slice()
    }

    /// The reversion groups, the innermost last.
    pub fn reversion_groups(&self) -> (r: &Vec<ReversionGroup>)
        ensures
            groups(r@) == self@.reversion_groups,
    {
        &self.reversion_groups
    }

    /// The index of the innermost call.
    pub fn call_index(&self) -> (r: Result<usize, Error>)
        ensures
            r == self@.call_index(),
    {
        let n: usize = self.calls.len();
        if n == 0 {
            Err(Error::InvalidTrace(CALL_STACK_EMPTY))
        } else {
            Ok(self.calls[n - 1].index)
        }
    }

    /// The frame of the innermost call.
    pub fn call_ctx(&self) -> (r: Result<&CallContext, Error>)
        ensures
            match r {
                Ok(frame) => self@.call_ctx() == Ok::<CallContextView, Error>(frame@),
                Err(e) => self@.call_ctx() == Err::<CallContextView, Error>(e),
            },
    {
        let n: usize = self.calls.len();
        if n == 0 {
            Err(Error::InvalidTrace(CALL_STACK_EMPTY))
        } else {
            Ok(&self.calls[n - 1])
        }
    }

    /// The frame of the innermost call, to be changed in place. What the
    /// caller leaves in the frame is what the context then holds.
    pub fn call_ctx_mut(&mut self) -> (r: Result<&mut CallContext, Error>)
        ensures
            match r {
                Ok(frame) => {
                    &&& old(self)@.call_ctx() == Ok::<CallContextView, Error>(frame@)
                    &&& final(self)@ == old(self)@.with_top(final(frame)@)
                },
                Err(e) => {
                    &&& old(self)@.call_ctx() == Err::<CallContextView, Error>(e)
                    &&& final(self)@ == old(self)@
                },
            },
    {
        let n: usize = self.calls.len();
        if n == 0 {
            Err(Error::InvalidTrace(CALL_STACK_EMPTY))
        } else {
            let frame = &mut self.calls[n - 1];
            proof {
                assert(frames(old(self).calls@.update(n - 1, *final(frame))) =~= frames(
                    old(self).calls@,
                ).update(n - 1, final(frame)@));
            }
            Ok(frame)
        }
    }

    /// Whether the call `call_idx` can be entered: what `push_call_ctx`
    /// asks for.
    pub fn can_push_call_ctx(&self, call_idx: usize) -> (r: bool)
        requires
            self@.wf(),
        ensures
            r == self@.can_push(call_idx),
    {
        if call_idx >= self.call_is_success.len() {
            return false;
        }
        let n: usize = self.reversion_groups.len();
        if !self.call_is_success[call_idx] || n == 0 {
            return true;
        }
        let m: usize = self.calls.len();
        if m == 0 {
            return false;
        }
        assert(frames(self.calls@).last() == self.calls@[m - 1]@);
        assert(groups(self.reversion_groups@).last() == self.reversion_groups@[n - 1]@);
        match self.reversion_groups[n - 1].offset_of(self.calls[m - 1].index) {
            Some(offset) => offset <= usize::MAX - self.calls[m - 1].reversible_write_counter,
            None => false,
        }
    }

    /// Whether the innermost call can return: what `pop_call_ctx` asks for.
    pub fn can_pop_call_ctx(&self) -> (r: bool)
        requires
            self@.wf(),
        ensures
            r == self@.can_pop(),
    {
        let m: usize = self.calls.len();
        if m == 0 {
            return false;
        }
        assert(frames(self.calls@).last() == self.calls@[m - 1]@);
        assert(self@.calls[m - 1].index < self.call_is_success@.len());
        if m == 1 || !self.call_is_success[self.calls[m - 1].index] {
            return true;
        }
        assert(frames(self.calls@)[m - 2] == self.calls@[m - 2]@);
        self.calls[m - 1].reversible_write_counter <= usize::MAX
            - self.calls[m - 2].reversible_write_counter
    }

    /// Enters the call `call_idx` with `call_data`: see
    /// `TransactionContextView::push_call_ctx`.
    pub fn push_call_ctx(&mut self, call_idx: usize, call_data: Vec<u8>)
        requires
            old(self)@.wf(),
            old(self)@.can_push(call_idx),
        ensures
            final(self)@ == old(self)@.push_call_ctx(call_idx, call_data@),
            final(self)@.wf(),
    {
        proof {
            lemma_push_keeps_wf(self@, call_idx, call_data@);
        }
        if !self.call_is_success[call_idx] {
            let group = ReversionGroup::opened_by(call_idx);
            self.reversion_groups.push(group);
            assert(groups(self.reversion_groups@) =~= groups(old(self).reversion_groups@).push(
                ReversionGroupView::opened_by(call_idx),
            ));
        } else {
            let n: usize = self.reversion_groups.len();
            if n > 0 {
                let m: usize = self.calls.len();
                let caller_index: usize = self.calls[m - 1].index;
                let caller_writes: usize = self.calls[m - 1].reversible_write_counter;
                assert(frames(self.calls@).last() == self.calls@[m - 1]@);
                assert(groups(self.reversion_groups@).last() == self.reversion_groups@[n - 1]@);
                let caller_offset: usize = self.reversion_groups[n - 1].offset_of(
                    caller_index,
                ).unwrap();
                self.reversion_groups[n - 1].push_call(call_idx, caller_writes + caller_offset);
                assert(groups(self.reversion_groups@) =~= groups(old(self).reversion_groups@).update(
                    n - 1,
                    old(self)@.reversion_groups.last().with_call(
                        call_idx,
                        old(self)@.join_offset() as usize,
                    ),
                ));
            }
        }
        let frame = CallContext { index: call_idx, reversible_write_counter: 0, call_data };
        self.calls.push(frame);
        assert(frames(self.calls@) =~= frames(old(self).calls@).push(frame@));
    }

    /// Leaves the innermost call: see `TransactionContextView::pop_call_ctx`.
    pub fn pop_call_ctx(&mut self)
        requires
            old(self)@.wf(),
            old(self)@.can_pop(),
        ensures
            final(self)@ == old(self)@.pop_call_ctx(),
            final(self)@.reversion_groups == old(self)@.reversion_groups,
            final(self)@.wf(),
    {
        proof {
            lemma_pop_keeps_wf(self@);
        }
        let ghost before = frames(self.calls@);
        assert(before.last() == self.calls@.last()@);
        let call = self.calls.pop().unwrap();
        assert(frames(self.calls@) =~= before.drop_last());
        if self.call_is_success[call.index] {
            let m: usize = self.calls.len();
            if m > 0 {
                assert(before[m - 1] == self.calls@[m - 1]@);
                let writes: usize = self.calls[m - 1].reversible_write_counter
                    + call.reversible_write_counter;
                self.calls[m - 1].reversible_write_counter = writes;
                assert(frames(self.calls@) =~= before.drop_last().update(
                    m - 1,
                    CallContextView { reversible_write_counter: writes, ..before[m - 1] },
                ));
            }
        }
    }

    /// Records a write in the active reversion group. Says whether a group
    /// was open; without one nothing is recorded.
    pub fn record_op_ref(&mut self, step_index: usize, op_ref: OperationRef) -> (r: bool)
        ensures
            r == (old(self)@.reversion_groups.len() > 0),
            final(self)@ == old(self)@.record_op_ref(step_index, op_ref),
            old(self)@.wf() ==> final(self)@.wf(),
    {
        proof {
            if self@.wf() {
                lemma_record_keeps_wf(self@, step_index, op_ref);
            }
        }
        let n: usize = self.reversion_groups.len();
        if n == 0 {
            return false;
        }
        assert(groups(self.reversion_groups@).last() == self.reversion_groups@[n - 1]@);
        self.reversion_groups[n - 1].push_op_ref(step_index, op_ref);
        assert(groups(self.reversion_groups@) =~= groups(old(self).reversion_groups@).update(
            n - 1,
            old(self)@.reversion_groups.last().with_op_ref(step_index, op_ref),
        ));
        true
    }
}

} // verus!
