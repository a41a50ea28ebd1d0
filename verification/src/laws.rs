//! What holds of the call stack and the reversion groups over every walk.

use crate::call::{offset_in, CallContextView, CallKind, CodeSource, ReversionGroupView};
use crate::error::{Error, CALL_STACK_EMPTY};
use crate::operation::OperationRef;
use crate::primitives::{Address, H256};
use crate::state_db::Account;
use crate::trace::{
    lemma_scan_bounds, move_at, outcomes_after, pending_after, return_unmatched, success_table,
    top_is_nonzero, well_nested, Move, TraceStep,
};
use crate::trace::EthTransaction;
use crate::transaction::{
    built_transaction, codes_after, missing_account, root_call, ContractCreation,
};
use crate::tx_context::TransactionContextView;
use vstd::prelude::*;

verus! {

/// The walk starts with the root call alone on the call stack, without
/// writes. A transaction that fails has opened a group for the root call; a
/// transaction that succeeds has opened none.
pub proof fn lemma_initial_context(
    id: usize,
    is_last_tx: bool,
    call_is_success: Seq<bool>,
    input: Seq<u8>,
)
    requires
        id >= 1,
        call_is_success.len() > 0,
    ensures
        ({
            let ctx = TransactionContextView::initial(id, is_last_tx, call_is_success, input);
            &&& ctx.id == id
            &&& ctx.is_last_tx == is_last_tx
            &&& ctx.call_is_success == call_is_success
            &&& ctx.calls == seq![
                CallContextView { index: 0, reversible_write_counter: 0, call_data: input },
            ]
            &&& ctx.reversion_groups == if call_is_success[0] {
                Seq::<ReversionGroupView>::empty()
            } else {
                seq![ReversionGroupView::opened_by(0)]
            }
            &&& ctx.wf()
        }),
{
    let ctx = TransactionContextView::initial(id, is_last_tx, call_is_success, input);
    assert(ctx.calls =~= seq![
        CallContextView { index: 0, reversible_write_counter: 0, call_data: input },
    ]);
    if !call_is_success[0] {
        assert(ctx.reversion_groups =~= seq![ReversionGroupView::opened_by(0)]);
    }
    crate::tx_context::lemma_push_keeps_wf(
        TransactionContextView::empty(id, is_last_tx, call_is_success),
        0,
        input,
    );
}

/// While no call fails, no reversion group is opened: a call that succeeds
/// and finds no group open leaves none open, and no return opens one.
pub proof fn lemma_success_opens_no_group(
    ctx: TransactionContextView,
    call_idx: usize,
    call_data: Seq<u8>,
)
    requires
        call_idx < ctx.call_is_success.len(),
        ctx.call_is_success[call_idx as int],
        ctx.reversion_groups.len() == 0,
    ensures
        ctx.push_call_ctx(call_idx, call_data).reversion_groups.len() == 0,
        ctx.pop_call_ctx().reversion_groups.len() == 0,
{
}

/// A return changes no reversion group, whatever the call stack and the
/// groups hold: there are as many groups after it as before, and each holds
/// the calls and the writes that it held. The writes of an inner group are
/// neither moved nor copied to the group around it.
pub proof fn lemma_return_changes_no_group(ctx: TransactionContextView)
    ensures
        ctx.pop_call_ctx().reversion_groups == ctx.reversion_groups,
        ctx.pop_call_ctx().reversion_groups.len() == ctx.reversion_groups.len(),
        forall|i: int|
            0 <= i < ctx.reversion_groups.len() ==> (#[trigger] ctx.pop_call_ctx().reversion_groups[i]).calls
                == ctx.reversion_groups[i].calls && ctx.pop_call_ctx().reversion_groups[i].op_refs
                == ctx.reversion_groups[i].op_refs,
{
}

/// Neither entering a call nor a return nor a recorded write changes what
/// is known of the success of the calls, and a recorded write leaves the
/// call stack as it is.
pub proof fn lemma_table_stays(
    ctx: TransactionContextView,
    call_idx: usize,
    call_data: Seq<u8>,
    step_index: usize,
    op_ref: OperationRef,
)
    ensures
        ctx.pop_call_ctx().call_is_success == ctx.call_is_success,
        ctx.push_call_ctx(call_idx, call_data).call_is_success == ctx.call_is_success,
        ctx.record_op_ref(step_index, op_ref).call_is_success == ctx.call_is_success,
        ctx.record_op_ref(step_index, op_ref).calls == ctx.calls,
{
}

/// A call that fails opens a group of its own when it is entered. The group
/// holds the call at offset 0 and no write, it is the active one, and the
/// groups that were open stay as they were.
pub proof fn lemma_failed_call_opens_group(
    ctx: TransactionContextView,
    call_idx: usize,
    call_data: Seq<u8>,
)
    requires
        call_idx < ctx.call_is_success.len(),
        !ctx.call_is_success[call_idx as int],
    ensures
        ({
            let after = ctx.push_call_ctx(call_idx, call_data);
            &&& after.reversion_groups.len() == ctx.reversion_groups.len() + 1
            &&& after.reversion_groups.last().calls == seq![(call_idx, 0usize)]
            &&& after.reversion_groups.last().op_refs == Seq::<(usize, OperationRef)>::empty()
            &&& after.reversion_groups.drop_last() == ctx.reversion_groups
        }),
{
    let after = ctx.push_call_ctx(call_idx, call_data);
    assert(after.reversion_groups.drop_last() =~= ctx.reversion_groups);
}

/// A call that succeeds while a group is open joins that group, and no
/// other, when it is entered. Its offset counts the writes of the group
/// that came before it: the offset of its caller and the writes of its
/// caller that can still be undone.
pub proof fn lemma_successful_call_joins_active_group(
    ctx: TransactionContextView,
    call_idx: usize,
    call_data: Seq<u8>,
)
    requires
        ctx.can_push(call_idx),
        ctx.joins_group(call_idx),
    ensures
        ({
            let after = ctx.push_call_ctx(call_idx, call_data);
            let caller = ctx.calls.last();
            let group = ctx.reversion_groups.last();
            &&& after.reversion_groups.len() == ctx.reversion_groups.len()
            &&& after.reversion_groups.drop_last() == ctx.reversion_groups.drop_last()
            &&& after.reversion_groups.last().op_refs == group.op_refs
            &&& after.reversion_groups.last().calls == group.calls.push(
                (
                    call_idx,
                    (caller.reversible_write_counter + offset_in(group.calls, caller.index)->0) as usize,
                ),
            )
            &&& offset_in(after.reversion_groups.last().calls, caller.index) == offset_in(
                group.calls,
                caller.index,
            )
        }),
{
    let after = ctx.push_call_ctx(call_idx, call_data);
    assert(after.reversion_groups.drop_last() =~= ctx.reversion_groups.drop_last());
    crate::call::lemma_offset_in_push(
        ctx.reversion_groups.last().calls,
        (call_idx, ctx.join_offset() as usize),
        ctx.calls.last().index,
    );
}

/// A write is recorded in the active group, the innermost one that is
/// open, after the writes that are there. Every other group stays as it
/// was: a write made inside two failing calls is not recorded twice.
pub proof fn lemma_record_lands_in_active_group_only(
    ctx: TransactionContextView,
    step_index: usize,
    op_ref: OperationRef,
)
    requires
        ctx.reversion_groups.len() > 0,
    ensures
        ({
            let after = ctx.record_op_ref(step_index, op_ref);
            &&& after.reversion_groups.len() == ctx.reversion_groups.len()
            &&& after.reversion_groups.last().op_refs == ctx.reversion_groups.last().op_refs.push(
                (step_index, op_ref),
            )
            &&& after.reversion_groups.last().calls == ctx.reversion_groups.last().calls
            &&& forall|i: int|
                0 <= i < ctx.reversion_groups.len() - 1 ==> #[trigger] after.reversion_groups[i]
                    == ctx.reversion_groups[i]
        }),
{
}

/// A call that fails inside a call that fails: both groups are open, the
/// inner one after the outer one. A write recorded then stands in the
/// inner group alone; the outer group still holds no write, also after
/// the inner call has returned.
pub proof fn lemma_nested_failures(
    ctx: TransactionContextView,
    outer: usize,
    outer_data: Seq<u8>,
    inner: usize,
    inner_data: Seq<u8>,
    step_index: usize,
    op_ref: OperationRef,
)
    requires
        outer < ctx.call_is_success.len(),
        inner < ctx.call_is_success.len(),
        !ctx.call_is_success[outer as int],
        !ctx.call_is_success[inner as int],
    ensures
        ({
            let n = ctx.reversion_groups.len() as int;
            let entered = ctx.push_call_ctx(outer, outer_data).push_call_ctx(inner, inner_data);
            let after = entered.record_op_ref(step_index, op_ref);
            &&& entered.reversion_groups.len() == n + 2
            &&& after.reversion_groups.len() == n + 2
            &&& after.reversion_groups[n] == ReversionGroupView::opened_by(outer)
            &&& after.reversion_groups[n + 1].calls == seq![(inner, 0usize)]
            &&& after.reversion_groups[n + 1].op_refs == seq![(step_index, op_ref)]
            &&& forall|i: int|
                0 <= i < n ==> #[trigger] after.reversion_groups[i] == ctx.reversion_groups[i]
            &&& after.pop_call_ctx().reversion_groups == after.reversion_groups
            &&& after.pop_call_ctx().reversion_groups[n].op_refs == Seq::<
                (usize, OperationRef),
            >::empty()
        }),
{
    let n = ctx.reversion_groups.len() as int;
    let entered = ctx.push_call_ctx(outer, outer_data).push_call_ctx(inner, inner_data);
    let after = entered.record_op_ref(step_index, op_ref);
    assert(after.reversion_groups[n + 1].op_refs =~= seq![(step_index, op_ref)]);
}

/// The writes of a call that fails are not handed to its caller: when it
/// returns, its frame leaves the call stack and every other frame stays as
/// it was.
pub proof fn lemma_failed_call_keeps_its_writes(ctx: TransactionContextView)
    requires
        ctx.calls.len() > 0,
        !ctx.call_is_success[ctx.calls.last().index as int],
    ensures
        ctx.pop_call_ctx().calls == ctx.calls.drop_last(),
{
}

/// The writes of a call that succeeds are handed to its caller: when it
/// returns, they are added to those of the caller, and every frame below
/// the caller stays as it was.
pub proof fn lemma_successful_call_hands_writes_up(ctx: TransactionContextView)
    requires
        ctx.calls.len() >= 2,
        ctx.can_pop(),
        ctx.call_is_success[ctx.calls.last().index as int],
    ensures
        ({
            let after = ctx.pop_call_ctx();
            let caller = ctx.calls[ctx.calls.len() - 2];
            &&& after.calls.len() == ctx.calls.len() - 1
            &&& after.calls.last().index == caller.index
            &&& after.calls.last().call_data == caller.call_data
            &&& after.calls.last().reversible_write_counter == caller.reversible_write_counter
                + ctx.calls.last().reversible_write_counter
            &&& forall|i: int|
                0 <= i < ctx.calls.len() - 2 ==> #[trigger] after.calls[i] == ctx.calls[i]
        }),
{
}

/// A call that returns at once, before any write, leaves the call stack as
/// it found it.
pub proof fn lemma_push_then_pop(ctx: TransactionContextView, call_idx: usize, call_data: Seq<u8>)
    requires
        call_idx < ctx.call_is_success.len(),
    ensures
        ctx.push_call_ctx(call_idx, call_data).can_pop(),
        ctx.push_call_ctx(call_idx, call_data).pop_call_ctx().calls == ctx.calls,
{
    let entered = ctx.push_call_ctx(call_idx, call_data);
    assert(entered.calls.drop_last() =~= ctx.calls);
    assert(entered.pop_call_ctx().calls =~= ctx.calls);
}

/// When the root call returns, the call stack is empty. Whoever then asks
/// for the innermost call or its frame is told that the call stack is
/// empty.
pub proof fn lemma_pop_root_empties_stack(ctx: TransactionContextView)
    requires
        ctx.calls.len() == 1,
    ensures
        ctx.can_pop(),
        ctx.pop_call_ctx().calls.len() == 0,
        ctx.pop_call_ctx().call_index() == Err::<usize, Error>(
            Error::InvalidTrace(CALL_STACK_EMPTY),
        ),
        ctx.pop_call_ctx().call_ctx() == Err::<CallContextView, Error>(
            Error::InvalidTrace(CALL_STACK_EMPTY),
        ),
{
}

/// The first entry of the table is the success of the transaction itself.
pub proof fn lemma_table_starts_with_transaction(failed: bool, steps: Seq<TraceStep>)
    ensures
        success_table(failed, steps).len() >= 1,
        success_table(failed, steps)[0] == !failed,
{
}

/// Only a step that makes a call has an entry: one that enters a call, or a
/// call opcode that returns at once. Every step that is still pending has
/// entered a call.
pub proof fn lemma_outcomes_belong_to_calls(steps: Seq<TraceStep>, j: int)
    requires
        j < steps.len(),
    ensures
        outcomes_after(steps, j).len() == steps.len(),
        forall|k: int|
            0 <= k < pending_after(steps, j).len() ==> {
                let i = #[trigger] pending_after(steps, j)[k];
                0 <= i < j && move_at(steps, i + 1) is Enter
            },
        forall|i: int|
            0 <= i < steps.len() && (#[trigger] outcomes_after(steps, j)[i]) is Some ==> i < j && (
            move_at(steps, i + 1) is Enter || move_at(steps, i + 1) is EmptyCall),
    decreases j,
{
    if j > 0 {
        lemma_outcomes_belong_to_calls(steps, j - 1);
        let before = outcomes_after(steps, j - 1);
        let pending = pending_after(steps, j - 1);
        match move_at(steps, j) {
            Move::Enter => {
                assert forall|k: int| 0 <= k < pending_after(steps, j).len() implies {
                    let i = #[trigger] pending_after(steps, j)[k];
                    0 <= i < j && move_at(steps, i + 1) is Enter
                } by {
                    if k < pending.len() {
                        assert(pending_after(steps, j)[k] == pending[k]);
                    }
                }
            },
            Move::Return => {
                if pending.len() > 0 {
                    assert forall|k: int| 0 <= k < pending_after(steps, j).len() implies {
                        let i = #[trigger] pending_after(steps, j)[k];
                        0 <= i < j && move_at(steps, i + 1) is Enter
                    } by {
                        assert(pending_after(steps, j)[k] == pending[k]);
                    }
                    let call = pending.last();
                    assert(call == pending[pending.len() - 1]);
                }
            },
            Move::EmptyCall => {},
            Move::Stay => {},
        }
    }
}

/// The depth changes by at most one from a step to the next and never falls
/// below the depth of the first step.
pub open spec fn depth_steady(steps: Seq<TraceStep>) -> bool {
    forall|j: int|
        1 <= j < steps.len() ==> (#[trigger] steps[j]).depth >= steps[0].depth && -1
            <= steps[j].depth - steps[j - 1].depth <= 1
}

/// A trace of steady depth is well nested: no call returns that was not
/// entered.
pub proof fn lemma_steady_trace_is_well_nested(steps: Seq<TraceStep>)
    requires
        depth_steady(steps),
    ensures
        well_nested(steps),
{
    assert forall|i: int| 1 <= i < steps.len() && #[trigger] return_unmatched(steps, i) implies false by {
        lemma_steady_depth_counts_pending(steps, i - 1);
        assert(steps[i].depth >= steps[0].depth);
    }
}

/// In a trace of steady depth, as many calls are pending at a step as the
/// step is deeper than the first.
pub proof fn lemma_steady_depth_counts_pending(steps: Seq<TraceStep>, j: int)
    requires
        depth_steady(steps),
        0 <= j < steps.len(),
    ensures
        pending_after(steps, j).len() == steps[j].depth - steps[0].depth,
    decreases j,
{
    if j > 0 {
        lemma_steady_depth_counts_pending(steps, j - 1);
        assert(steps[j].depth >= steps[0].depth);
    }
}

/// The pending steps stand in the order in which they entered their calls,
/// and none of them has an entry yet.
pub proof fn lemma_pending_is_fresh(steps: Seq<TraceStep>, j: int)
    requires
        j < steps.len(),
    ensures
        forall|a: int, b: int|
            0 <= a < b < pending_after(steps, j).len() ==> pending_after(steps, j)[a]
                < pending_after(steps, j)[b],
        forall|k: int|
            0 <= k < pending_after(steps, j).len() ==> outcomes_after(steps, j)[#[trigger] pending_after(
                steps,
                j,
            )[k]] is None,
    decreases j,
{
    if j > 0 {
        lemma_pending_is_fresh(steps, j - 1);
        lemma_scan_bounds(steps, j - 1);
        lemma_outcomes_belong_to_calls(steps, j - 1);
        let before = pending_after(steps, j - 1);
        let after = pending_after(steps, j);
        match move_at(steps, j) {
            Move::Enter => {
                assert forall|k: int| 0 <= k < after.len() implies outcomes_after(
                    steps,
                    j,
                )[#[trigger] after[k]] is None by {
                    if k < before.len() {
                        assert(after[k] == before[k]);
                    }
                }
            },
            Move::Return => {
                if before.len() > 0 {
                    assert forall|k: int| 0 <= k < after.len() implies outcomes_after(
                        steps,
                        j,
                    )[#[trigger] after[k]] is None by {
                        assert(after[k] == before[k]);
                        assert(before[k] < before[before.len() - 1]);
                    }
                }
            },
            Move::EmptyCall => {
                assert forall|k: int| 0 <= k < after.len() implies outcomes_after(
                    steps,
                    j,
                )[#[trigger] after[k]] is None by {
                    assert(after[k] == before[k]);
                }
            },
            Move::Stay => {},
        }
    }
}

/// The success of a call is written once: an entry that is there stays as
/// it is, whatever steps follow.
pub proof fn lemma_outcome_is_final(steps: Seq<TraceStep>, i: int, j: int, k: int)
    requires
        0 <= i < steps.len(),
        j <= k < steps.len(),
        outcomes_after(steps, j)[i] is Some,
    ensures
        outcomes_after(steps, k)[i] == outcomes_after(steps, j)[i],
    decreases k - j,
{
    if j < k {
        lemma_outcome_is_final(steps, i, j, k - 1);
        lemma_outcomes_belong_to_calls(steps, j);
        lemma_outcomes_belong_to_calls(steps, k - 1);
        lemma_pending_is_fresh(steps, k - 1);
        lemma_scan_bounds(steps, k - 1);
        if k > 0 {
            let pending = pending_after(steps, k - 1);
            if pending.len() > 0 {
                assert(outcomes_after(steps, k - 1)[pending[pending.len() - 1]] is None);
            }
        }
    }
}

/// A call to empty code succeeds exactly if the top of the stack of the
/// next step is not zero.
pub proof fn lemma_empty_call_outcome(steps: Seq<TraceStep>, i: int, k: int)
    requires
        0 <= i < k < steps.len(),
        move_at(steps, i + 1) is EmptyCall,
    ensures
        outcomes_after(steps, k)[i] == Some(top_is_nonzero(steps[i + 1])),
{
    lemma_scan_bounds(steps, i);
    lemma_outcome_is_final(steps, i, i + 1, k);
}

/// A call that returns succeeds exactly if the top of the stack of the step
/// after its return is not zero. The call that returns is the one entered
/// last among those that are pending.
pub proof fn lemma_returned_call_outcome(steps: Seq<TraceStep>, r: int, k: int)
    requires
        1 <= r <= k < steps.len(),
        move_at(steps, r) is Return,
        pending_after(steps, r - 1).len() > 0,
    ensures
        outcomes_after(steps, k)[pending_after(steps, r - 1).last()] == Some(
            top_is_nonzero(steps[r]),
        ),
{
    lemma_scan_bounds(steps, r - 1);
    let call = pending_after(steps, r - 1).last();
    assert(call == pending_after(steps, r - 1)[pending_after(steps, r - 1).len() - 1]);
    lemma_outcome_is_final(steps, call, r, k);
}

/// A transaction that creates a contract: where the sender has an account,
/// the root call is a `Create` that runs the input of the transaction at
/// the address of the new contract, and the input is stored as code under
/// its hash. Nothing else is stored.
pub proof fn lemma_creation(
    call_id: usize,
    accounts: Map<Address, Account>,
    codes: Map<H256, Seq<u8>>,
    eth_tx: EthTransaction,
    is_success: bool,
    creation: ContractCreation,
)
    requires
        eth_tx.to is None,
        accounts.contains_key(eth_tx.from),
    ensures
        missing_account(accounts, eth_tx) is None,
        ({
            let call = root_call(call_id, accounts, eth_tx, is_success, creation);
            &&& call.kind == CallKind::Create
            &&& call.code_source == CodeSource::Tx
            &&& call.code_hash == creation.code_hash
            &&& call.address == creation.address
            &&& call.is_root
            &&& call.depth == 1
            &&& call.is_success == is_success
            &&& call.is_persistent == is_success
            &&& call.rw_counter_end_of_reversion == 0
        }),
        built_transaction(call_id, accounts, eth_tx, is_success, creation).calls.len() == 1,
        built_transaction(call_id, accounts, eth_tx, is_success, creation).wf(),
        codes_after(codes, accounts, eth_tx, creation) == codes.insert(
            creation.code_hash,
            eth_tx.input@,
        ),
        forall|hash: H256|
            hash != creation.code_hash ==> (#[trigger] codes_after(
                codes,
                accounts,
                eth_tx,
                creation,
            ).contains_key(hash) <==> codes.contains_key(hash)),
{
}

/// A transaction with a receiver: where both accounts are stored, the root
/// call is a `Call` of the code of the receiver, and nothing is stored as
/// code.
pub proof fn lemma_message_call(
    call_id: usize,
    accounts: Map<Address, Account>,
    codes: Map<H256, Seq<u8>>,
    eth_tx: EthTransaction,
    is_success: bool,
    creation: ContractCreation,
)
    requires
        eth_tx.to is Some,
        accounts.contains_key(eth_tx.from),
        accounts.contains_key(eth_tx.to->0),
    ensures
        missing_account(accounts, eth_tx) is None,
        ({
            let call = root_call(call_id, accounts, eth_tx, is_success, creation);
            &&& call.kind == CallKind::Call
            &&& call.code_source == CodeSource::Address(eth_tx.to->0)
            &&& call.code_hash == accounts[eth_tx.to->0].code_hash
            &&& call.address == eth_tx.to->0
            &&& call.is_root
            &&& call.depth == 1
            &&& call.is_success == is_success
            &&& call.is_persistent == is_success
            &&& call.rw_counter_end_of_reversion == 0
        }),
        codes_after(codes, accounts, eth_tx, creation) == codes,
{
}

/// A transaction whose sender has no account is refused for the sender,
/// whatever else it holds, and nothing is stored as code.
pub proof fn lemma_missing_sender(
    accounts: Map<Address, Account>,
    codes: Map<H256, Seq<u8>>,
    eth_tx: EthTransaction,
    creation: ContractCreation,
)
    requires
        !accounts.contains_key(eth_tx.from),
    ensures
        missing_account(accounts, eth_tx) == Some(eth_tx.from),
        codes_after(codes, accounts, eth_tx, creation) == codes,
{
}

} // verus!
