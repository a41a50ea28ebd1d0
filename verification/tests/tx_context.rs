use bus_mapping::opcode::CALL;
use bus_mapping::{
    Address, Error, EthTransaction, ExecTrace, OpcodeId, OperationRef, TraceStep,
    TransactionContext, Word,
};

const STOP: u8 = 0x00;

fn step(depth: u16, op: u8, stack: &[u64]) -> TraceStep {
    TraceStep { depth, op: OpcodeId(op), stack: stack.iter().map(|v| Word::from_u64(*v)).collect() }
}

fn eth_tx(index: Option<u64>, input: Vec<u8>) -> EthTransaction {
    EthTransaction {
        nonce: Word::from_u64(0),
        gas: Word::from_u64(21000),
        gas_price: None,
        from: Address::from_low_u64(1),
        to: Some(Address::from_low_u64(2)),
        value: Word::zero(),
        input,
        transaction_index: index,
    }
}

/// A trace whose calls have the given success, each made and returned at
/// depth 1 by a call to empty code.
fn flat_trace(failed: bool, calls: &[bool]) -> ExecTrace {
    let mut steps = Vec::new();
    for ok in calls {
        steps.push(step(1, CALL, &[]));
        steps.push(step(1, STOP, &[if *ok { 1 } else { 0 }]));
    }
    ExecTrace { failed, steps }
}

fn context(failed: bool, calls: &[bool]) -> TransactionContext {
    let trace = flat_trace(failed, calls);
    assert!(trace.is_well_nested());
    TransactionContext::new(&eth_tx(Some(0), vec![0xaa, 0xbb]), &trace, false).unwrap()
}

fn frames(ctx: &TransactionContext) -> Vec<(usize, usize)> {
    ctx.calls().iter().map(|c| (c.index, c.reversible_write_counter)).collect()
}

fn group_calls(ctx: &TransactionContext) -> Vec<Vec<(usize, usize)>> {
    ctx.reversion_groups().iter().map(|g| g.calls().clone()).collect()
}

fn group_ops(ctx: &TransactionContext) -> Vec<Vec<(usize, OperationRef)>> {
    ctx.reversion_groups().iter().map(|g| g.op_refs().clone()).collect()
}

fn write(ctx: &mut TransactionContext, n: usize) {
    ctx.call_ctx_mut().unwrap().reversible_write_counter += n;
}

#[test]
fn new_enters_the_root_call() {
    let ctx = TransactionContext::new(&eth_tx(Some(4), vec![1, 2, 3]), &flat_trace(false, &[]), true)
        .unwrap();
    assert_eq!(ctx.id(), 5);
    assert!(ctx.is_last_tx());
    assert_eq!(ctx.call_is_success(), &[true]);
    assert_eq!(ctx.calls().len(), 1);
    assert_eq!(ctx.calls()[0].index, 0);
    assert_eq!(ctx.calls()[0].reversible_write_counter, 0);
    assert_eq!(ctx.calls()[0].call_data, vec![1, 2, 3]);
    assert!(ctx.reversion_groups().is_empty());
    assert_eq!(ctx.call_index(), Ok(0));
    assert_eq!(ctx.call_ctx().unwrap().call_data, vec![1, 2, 3]);
}

#[test]
fn new_of_a_failed_transaction_opens_the_root_group() {
    let ctx = context(true, &[]);
    assert_eq!(ctx.id(), 1);
    assert!(!ctx.is_last_tx());
    assert_eq!(ctx.call_is_success(), &[false]);
    assert_eq!(frames(&ctx), vec![(0, 0)]);
    assert_eq!(group_calls(&ctx), vec![vec![(0, 0)]]);
    assert_eq!(group_ops(&ctx), vec![vec![]]);
}

#[test]
fn new_without_transaction_index_is_incomplete_block() {
    let r = TransactionContext::new(&eth_tx(None, vec![]), &flat_trace(false, &[true]), false);
    assert_eq!(r.err(), Some(Error::IncompleteBlock));
}

#[test]
fn new_reports_the_empty_stack_first() {
    let trace = ExecTrace { failed: false, steps: vec![step(1, CALL, &[]), step(1, STOP, &[])] };
    assert!(trace.is_well_nested());
    let r = TransactionContext::new(&eth_tx(None, vec![]), &trace, false);
    assert_eq!(r.err(), Some(Error::InvalidStackPointer));
    let r = TransactionContext::new(&eth_tx(Some(0), vec![]), &trace, false);
    assert_eq!(r.err(), Some(Error::InvalidStackPointer));
}

#[test]
fn successful_calls_open_no_group() {
    let trace = ExecTrace {
        failed: false,
        steps: vec![
            step(1, CALL, &[]),
            step(2, CALL, &[]),
            step(3, STOP, &[]),
            step(2, STOP, &[1]),
            step(1, STOP, &[1]),
        ],
    };
    assert!(trace.is_well_nested());
    let mut ctx = TransactionContext::new(&eth_tx(Some(0), vec![]), &trace, false).unwrap();
    assert_eq!(ctx.call_is_success(), &[true, true, true]);
    assert!(ctx.reversion_groups().is_empty());
    ctx.push_call_ctx(1, vec![1]);
    assert!(ctx.reversion_groups().is_empty());
    write(&mut ctx, 2);
    assert!(!ctx.record_op_ref(1, OperationRef(0)));
    ctx.push_call_ctx(2, vec![2]);
    assert!(ctx.reversion_groups().is_empty());
    assert_eq!(ctx.call_index(), Ok(2));
    write(&mut ctx, 3);
    ctx.pop_call_ctx();
    assert!(ctx.reversion_groups().is_empty());
    assert_eq!(frames(&ctx), vec![(0, 0), (1, 5)]);
    ctx.pop_call_ctx();
    assert!(ctx.reversion_groups().is_empty());
    assert_eq!(frames(&ctx), vec![(0, 5)]);
}

#[test]
fn failed_call_opens_a_group_and_keeps_its_writes() {
    let mut ctx = context(false, &[false]);
    write(&mut ctx, 4);
    ctx.push_call_ctx(1, vec![9]);
    assert_eq!(group_calls(&ctx), vec![vec![(1, 0)]]);
    assert_eq!(group_ops(&ctx), vec![vec![]]);
    assert_eq!(frames(&ctx), vec![(0, 4), (1, 0)]);
    write(&mut ctx, 1);
    assert!(ctx.record_op_ref(7, OperationRef(30)));
    write(&mut ctx, 1);
    assert!(ctx.record_op_ref(8, OperationRef(31)));
    assert_eq!(group_ops(&ctx), vec![vec![(7, OperationRef(30)), (8, OperationRef(31))]]);
    assert_eq!(frames(&ctx), vec![(0, 4), (1, 2)]);
    ctx.pop_call_ctx();
    assert_eq!(frames(&ctx), vec![(0, 4)]);
    assert_eq!(group_calls(&ctx), vec![vec![(1, 0)]]);
    assert_eq!(group_ops(&ctx), vec![vec![(7, OperationRef(30)), (8, OperationRef(31))]]);
}

#[test]
fn revert_inside_a_revert_records_in_the_inner_group_only() {
    let mut ctx = context(false, &[false, false]);
    ctx.push_call_ctx(1, vec![]);
    assert!(ctx.record_op_ref(1, OperationRef(10)));
    ctx.push_call_ctx(2, vec![]);
    assert_eq!(ctx.reversion_groups().len(), 2);
    assert_eq!(group_calls(&ctx), vec![vec![(1, 0)], vec![(2, 0)]]);
    assert!(ctx.record_op_ref(2, OperationRef(11)));
    assert!(ctx.record_op_ref(3, OperationRef(12)));
    assert_eq!(
        group_ops(&ctx),
        vec![vec![(1, OperationRef(10))], vec![(2, OperationRef(11)), (3, OperationRef(12))]],
    );
    write(&mut ctx, 2);
    ctx.pop_call_ctx();
    assert_eq!(frames(&ctx), vec![(0, 0), (1, 0)]);
    // The return changes no group: nothing moves to the outer one.
    assert_eq!(group_calls(&ctx), vec![vec![(1, 0)], vec![(2, 0)]]);
    assert_eq!(
        group_ops(&ctx),
        vec![vec![(1, OperationRef(10))], vec![(2, OperationRef(11)), (3, OperationRef(12))]],
    );
    ctx.pop_call_ctx();
    assert_eq!(frames(&ctx), vec![(0, 0)]);
    assert_eq!(
        group_ops(&ctx),
        vec![vec![(1, OperationRef(10))], vec![(2, OperationRef(11)), (3, OperationRef(12))]],
    );
}

#[test]
fn new_records_no_call_where_the_depth_jumps() {
    let trace = ExecTrace { failed: false, steps: vec![step(1, CALL, &[]), step(3, STOP, &[1])] };
    assert!(trace.is_well_nested());
    let ctx = TransactionContext::new(&eth_tx(Some(0), vec![]), &trace, false).unwrap();
    assert_eq!(ctx.call_is_success(), &[true]);
}

#[test]
fn successful_call_under_a_failing_one_joins_its_group() {
    // Call 1 fails; calls 2, 3 and 4 succeed and run below it.
    let mut ctx = context(false, &[false, true, true, true]);
    ctx.push_call_ctx(1, vec![]);
    write(&mut ctx, 3);
    ctx.push_call_ctx(2, vec![]);
    assert_eq!(group_calls(&ctx), vec![vec![(1, 0), (2, 3)]]);
    write(&mut ctx, 2);
    ctx.push_call_ctx(3, vec![]);
    // Two writes of call 2, after the three that came before call 2.
    assert_eq!(group_calls(&ctx), vec![vec![(1, 0), (2, 3), (3, 5)]]);
    write(&mut ctx, 4);
    ctx.pop_call_ctx();
    assert_eq!(frames(&ctx), vec![(0, 0), (1, 3), (2, 6)]);
    ctx.push_call_ctx(4, vec![]);
    assert_eq!(group_calls(&ctx), vec![vec![(1, 0), (2, 3), (3, 5), (4, 9)]]);
    ctx.pop_call_ctx();
    ctx.pop_call_ctx();
    assert_eq!(frames(&ctx), vec![(0, 0), (1, 9)]);
    ctx.pop_call_ctx();
    assert_eq!(frames(&ctx), vec![(0, 0)]);
    assert_eq!(ctx.reversion_groups().len(), 1);
}

#[test]
fn calls_under_a_failed_transaction_join_the_root_group() {
    let mut ctx = context(true, &[true]);
    write(&mut ctx, 6);
    ctx.push_call_ctx(1, vec![]);
    assert_eq!(group_calls(&ctx), vec![vec![(0, 0), (1, 6)]]);
    write(&mut ctx, 1);
    ctx.pop_call_ctx();
    assert_eq!(frames(&ctx), vec![(0, 7)]);
}

#[test]
fn empty_call_stack_after_the_root_returns() {
    let mut ctx = context(false, &[]);
    write(&mut ctx, 3);
    ctx.pop_call_ctx();
    assert!(ctx.calls().is_empty());
    assert_eq!(ctx.call_index(), Err(Error::InvalidTrace("Call stack is empty but call is used")));
    assert_eq!(
        ctx.call_ctx().err(),
        Some(Error::InvalidTrace("Call stack is empty but call is used")),
    );
    assert_eq!(
        ctx.call_ctx_mut().err(),
        Some(Error::InvalidTrace("Call stack is empty but call is used")),
    );
    assert_eq!(bus_mapping::error::CALL_STACK_EMPTY, "Call stack is empty but call is used");
}

#[test]
fn root_can_be_entered_again_after_it_returned() {
    let mut ctx = context(false, &[true]);
    ctx.pop_call_ctx();
    ctx.push_call_ctx(1, vec![5]);
    assert_eq!(ctx.call_index(), Ok(1));
    assert_eq!(ctx.call_ctx().unwrap().call_data, vec![5]);
}

#[test]
fn call_ctx_mut_changes_the_innermost_frame() {
    let mut ctx = context(false, &[true]);
    ctx.push_call_ctx(1, vec![]);
    {
        let frame = ctx.call_ctx_mut().unwrap();
        frame.reversible_write_counter = 11;
        frame.call_data.push(1);
    }
    assert_eq!(frames(&ctx), vec![(0, 0), (1, 11)]);
    assert_eq!(ctx.call_ctx().unwrap().call_data, vec![1]);
    assert_eq!(ctx.calls()[0].call_data, vec![0xaa, 0xbb]);
}

#[test]
fn push_directly_followed_by_pop_restores_the_stack() {
    let mut ctx = context(false, &[true, false]);
    write(&mut ctx, 2);
    ctx.push_call_ctx(1, vec![]);
    ctx.pop_call_ctx();
    assert_eq!(frames(&ctx), vec![(0, 2)]);
    ctx.push_call_ctx(2, vec![]);
    ctx.pop_call_ctx();
    assert_eq!(frames(&ctx), vec![(0, 2)]);
}

#[test]
fn can_push_tells_when_a_call_can_be_entered() {
    let mut ctx = context(false, &[false, true]);
    assert!(ctx.can_push_call_ctx(1));
    assert!(ctx.can_push_call_ctx(2));
    assert!(!ctx.can_push_call_ctx(3));
    ctx.push_call_ctx(1, vec![]);
    assert!(ctx.can_push_call_ctx(2));
    ctx.pop_call_ctx();
    // The group of call 1 is still open and does not hold the root call.
    assert!(!ctx.can_push_call_ctx(2));
    assert!(ctx.can_push_call_ctx(1));
    ctx.pop_call_ctx();
    // No caller is left to join the group with.
    assert!(!ctx.can_push_call_ctx(2));
    assert!(!ctx.can_push_call_ctx(0));
    // A call that fails opens its own group and needs none.
    assert!(ctx.can_push_call_ctx(1));
}

#[test]
fn can_push_sees_an_offset_that_does_not_fit() {
    let mut ctx = context(true, &[true, true]);
    write(&mut ctx, 5);
    ctx.push_call_ctx(1, vec![]);
    write(&mut ctx, usize::MAX - 5);
    assert!(ctx.can_push_call_ctx(2));
    write(&mut ctx, 1);
    assert!(!ctx.can_push_call_ctx(2));
}

#[test]
fn can_pop_tells_when_a_call_can_return() {
    let mut ctx = context(false, &[true, false]);
    assert!(ctx.can_pop_call_ctx());
    write(&mut ctx, usize::MAX);
    ctx.push_call_ctx(1, vec![]);
    assert!(ctx.can_pop_call_ctx());
    write(&mut ctx, 1);
    assert!(!ctx.can_pop_call_ctx());
    ctx.call_ctx_mut().unwrap().reversible_write_counter = 0;
    ctx.pop_call_ctx();
    ctx.push_call_ctx(2, vec![]);
    write(&mut ctx, 1);
    // A call that fails hands nothing up, so nothing can overflow.
    assert!(ctx.can_pop_call_ctx());
    ctx.pop_call_ctx();
    assert_eq!(frames(&ctx), vec![(0, usize::MAX)]);
    assert!(ctx.can_pop_call_ctx());
    ctx.pop_call_ctx();
    assert!(!ctx.can_pop_call_ctx());
}
