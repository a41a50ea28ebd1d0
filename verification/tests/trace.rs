use bus_mapping::opcode::{CALL, CREATE, STATICCALL};
use bus_mapping::trace::Move;
use bus_mapping::{Error, ExecTrace, OpcodeId, TraceStep, Word};

const PUSH1: u8 = 0x60;
const STOP: u8 = 0x00;
const REVERT: u8 = 0xfd;

fn step(depth: u16, op: u8, stack: &[u64]) -> TraceStep {
    TraceStep { depth, op: OpcodeId(op), stack: stack.iter().map(|v| Word::from_u64(*v)).collect() }
}

fn trace(failed: bool, steps: Vec<TraceStep>) -> ExecTrace {
    ExecTrace { failed, steps }
}

#[test]
fn stack_top_is_the_last_word() {
    assert_eq!(step(1, PUSH1, &[4, 5, 6]).stack_top(), Ok(Word::from_u64(6)));
    assert_eq!(step(1, PUSH1, &[]).stack_top(), Err(Error::InvalidStackPointer));
}

#[test]
fn moves_between_steps() {
    assert_eq!(step(1, CALL, &[]).move_to(&step(2, PUSH1, &[])), Move::Enter);
    assert_eq!(step(1, PUSH1, &[]).move_to(&step(2, PUSH1, &[])), Move::Enter);
    assert_eq!(step(2, STOP, &[]).move_to(&step(1, PUSH1, &[1])), Move::Return);
    assert_eq!(step(1, CALL, &[]).move_to(&step(1, PUSH1, &[1])), Move::EmptyCall);
    assert_eq!(step(1, PUSH1, &[]).move_to(&step(1, PUSH1, &[1])), Move::Stay);
    assert_eq!(step(1, PUSH1, &[]).move_to(&step(3, PUSH1, &[1])), Move::Stay);
    assert_eq!(step(3, CREATE, &[]).move_to(&step(3, PUSH1, &[1])), Move::EmptyCall);
    assert_eq!(step(3, CREATE, &[]).move_to(&step(1, PUSH1, &[1])), Move::Stay);
    assert_eq!(step(1, CALL, &[]).move_to(&step(3, PUSH1, &[1])), Move::Stay);
}

#[test]
fn moves_at_the_ends_of_the_depth_range() {
    assert_eq!(step(0, PUSH1, &[]).move_to(&step(u16::MAX, PUSH1, &[])), Move::Stay);
    assert_eq!(step(u16::MAX, PUSH1, &[]).move_to(&step(0, PUSH1, &[])), Move::Stay);
    assert_eq!(step(u16::MAX - 1, PUSH1, &[]).move_to(&step(u16::MAX, PUSH1, &[])), Move::Enter);
    assert_eq!(step(1, PUSH1, &[]).move_to(&step(0, PUSH1, &[])), Move::Return);
}

#[test]
fn empty_trace_gives_only_the_transaction() {
    assert_eq!(trace(false, vec![]).call_is_success(), Ok(vec![true]));
    assert_eq!(trace(true, vec![]).call_is_success(), Ok(vec![false]));
    assert_eq!(trace(false, vec![step(1, STOP, &[])]).call_is_success(), Ok(vec![true]));
    assert!(trace(false, vec![]).is_well_nested());
}

#[test]
fn two_nested_successful_calls() {
    let t = trace(
        false,
        vec![
            step(1, CALL, &[7]),
            step(2, CALL, &[7]),
            step(3, STOP, &[]),
            step(2, STOP, &[1]),
            step(1, STOP, &[1]),
        ],
    );
    assert!(t.is_well_nested());
    assert_eq!(t.call_is_success(), Ok(vec![true, true, true]));
}

#[test]
fn results_come_in_the_order_of_the_calling_steps() {
    // The call made at step 0 returns last and fails; the call made at step 1
    // returns first and succeeds.
    let t = trace(
        false,
        vec![
            step(1, CALL, &[]),
            step(2, CALL, &[]),
            step(3, STOP, &[]),
            step(2, REVERT, &[9]),
            step(1, STOP, &[0]),
        ],
    );
    assert_eq!(t.call_is_success(), Ok(vec![true, false, true]));
}

#[test]
fn nested_call_that_reverts() {
    let t = trace(
        false,
        vec![step(1, CALL, &[]), step(2, REVERT, &[]), step(1, STOP, &[3, 0])],
    );
    assert_eq!(t.call_is_success(), Ok(vec![true, false]));
}

#[test]
fn failed_transaction_with_calls() {
    let t = trace(
        true,
        vec![
            step(1, CALL, &[]),
            step(2, STOP, &[]),
            step(1, STATICCALL, &[1]),
            step(1, REVERT, &[0]),
        ],
    );
    assert_eq!(t.call_is_success(), Ok(vec![false, true, false]));
}

#[test]
fn call_to_empty_code_is_read_from_the_next_step() {
    let t = trace(
        false,
        vec![step(1, CALL, &[]), step(1, PUSH1, &[1]), step(1, CREATE, &[]), step(1, STOP, &[0])],
    );
    assert_eq!(t.call_is_success(), Ok(vec![true, true, false]));
}

#[test]
fn call_opcode_as_last_step_has_no_entry() {
    let t = trace(false, vec![step(1, PUSH1, &[]), step(1, CALL, &[])]);
    assert_eq!(t.call_is_success(), Ok(vec![true]));
}

#[test]
fn call_that_never_returns_has_no_entry() {
    let t = trace(false, vec![step(1, CALL, &[]), step(2, PUSH1, &[]), step(2, STOP, &[])]);
    assert!(t.is_well_nested());
    assert_eq!(t.call_is_success(), Ok(vec![true]));
}

#[test]
fn depth_jump_with_a_call_opcode_records_no_call() {
    let t = trace(false, vec![step(1, CALL, &[]), step(3, STOP, &[1])]);
    assert_eq!(t.call_is_success(), Ok(vec![true]));
    let t = trace(false, vec![step(3, CALL, &[]), step(1, STOP, &[1])]);
    assert_eq!(t.call_is_success(), Ok(vec![true]));
    // Not even an empty stack is read then.
    let t = trace(false, vec![step(1, CALL, &[]), step(3, STOP, &[])]);
    assert_eq!(t.call_is_success(), Ok(vec![true]));
}

#[test]
fn empty_stack_after_return_is_an_error() {
    let t = trace(false, vec![step(1, CALL, &[]), step(2, STOP, &[]), step(1, STOP, &[])]);
    assert!(t.is_well_nested());
    assert_eq!(t.call_is_success(), Err(Error::InvalidStackPointer));
}

#[test]
fn empty_stack_after_empty_call_is_an_error() {
    let t = trace(false, vec![step(1, CALL, &[]), step(1, STOP, &[])]);
    assert!(t.is_well_nested());
    assert_eq!(t.call_is_success(), Err(Error::InvalidStackPointer));
}

#[test]
fn return_without_a_call_is_not_well_nested() {
    let t = trace(false, vec![step(2, STOP, &[]), step(1, STOP, &[1])]);
    assert!(!t.is_well_nested());
    let t = trace(
        false,
        vec![step(1, CALL, &[]), step(2, STOP, &[]), step(1, STOP, &[1]), step(0, STOP, &[1])],
    );
    assert!(!t.is_well_nested());
}

#[test]
fn return_without_a_call_after_an_empty_stack_does_not_count() {
    let t = trace(
        false,
        vec![step(1, CALL, &[]), step(1, STOP, &[]), step(0, STOP, &[1])],
    );
    assert!(t.is_well_nested());
    assert_eq!(t.call_is_success(), Err(Error::InvalidStackPointer));
    // The return itself reads the empty stack.
    let t = trace(false, vec![step(2, STOP, &[]), step(1, STOP, &[])]);
    assert!(t.is_well_nested());
    assert_eq!(t.call_is_success(), Err(Error::InvalidStackPointer));
}

#[test]
fn success_is_any_nonzero_word() {
    let big = TraceStep { depth: 1, op: OpcodeId(STOP), stack: vec![Word { hi: 1, lo: 0 }] };
    let t = trace(false, vec![step(1, CALL, &[]), step(2, STOP, &[]), big]);
    assert_eq!(t.call_is_success(), Ok(vec![true, true]));
}
