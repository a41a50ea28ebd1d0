use bus_mapping::opcode::{CALL, CALLCODE, CREATE, CREATE2, DELEGATECALL, STATICCALL};
use bus_mapping::{Call, CallContext, CallKind, CodeSource, Error, OpcodeId, ReversionGroup};
use bus_mapping::{Address, OperationRef, Word, H256};

#[test]
fn call_opcodes_give_their_kind() {
    assert_eq!(CallKind::try_from(OpcodeId(CALL)), Ok(CallKind::Call));
    assert_eq!(CallKind::try_from(OpcodeId(CALLCODE)), Ok(CallKind::CallCode));
    assert_eq!(CallKind::try_from(OpcodeId(DELEGATECALL)), Ok(CallKind::DelegateCall));
    assert_eq!(CallKind::try_from(OpcodeId(STATICCALL)), Ok(CallKind::StaticCall));
    assert_eq!(CallKind::try_from(OpcodeId(CREATE)), Ok(CallKind::Create));
    assert_eq!(CallKind::try_from(OpcodeId(CREATE2)), Ok(CallKind::Create2));
}

#[test]
fn call_opcode_bytes() {
    assert_eq!(CREATE, 0xf0);
    assert_eq!(CALL, 0xf1);
    assert_eq!(CALLCODE, 0xf2);
    assert_eq!(DELEGATECALL, 0xf4);
    assert_eq!(CREATE2, 0xf5);
    assert_eq!(STATICCALL, 0xfa);
    assert_eq!(OpcodeId(CALL).as_u8(), 0xf1);
}

#[test]
fn every_other_opcode_is_refused() {
    let calls = [CALL, CALLCODE, DELEGATECALL, STATICCALL, CREATE, CREATE2];
    let mut refused = 0;
    for byte in 0..=255u8 {
        let r = CallKind::try_from(OpcodeId(byte));
        if calls.contains(&byte) {
            assert!(r.is_ok());
        } else {
            assert_eq!(r, Err(Error::OpcodeNotCallType));
            refused += 1;
        }
    }
    assert_eq!(refused, 250);
}

#[test]
fn is_create_only_for_the_create_kinds() {
    assert!(!CallKind::Call.is_create());
    assert!(!CallKind::CallCode.is_create());
    assert!(!CallKind::DelegateCall.is_create());
    assert!(!CallKind::StaticCall.is_create());
    assert!(CallKind::Create.is_create());
    assert!(CallKind::Create2.is_create());
}

#[test]
fn call_is_create_follows_its_kind() {
    let kinds = [
        (CallKind::Call, false),
        (CallKind::CallCode, false),
        (CallKind::DelegateCall, false),
        (CallKind::StaticCall, false),
        (CallKind::Create, true),
        (CallKind::Create2, true),
    ];
    for (kind, expected) in kinds {
        let mut call = Call::default();
        call.kind = kind;
        assert_eq!(call.is_create(), expected);
    }
}

#[test]
fn defaults() {
    assert_eq!(CallKind::default(), CallKind::Call);
    assert_eq!(CodeSource::default(), CodeSource::Tx);
    let call = Call::default();
    assert_eq!(call.call_id, 0);
    assert_eq!(call.caller_id, 0);
    assert_eq!(call.kind, CallKind::Call);
    assert!(!call.is_static && !call.is_root && !call.is_persistent && !call.is_success);
    assert_eq!(call.rw_counter_end_of_reversion, 0);
    assert_eq!(call.caller_address, Address::zero());
    assert_eq!(call.address, Address::zero());
    assert_eq!(call.code_source, CodeSource::Tx);
    assert_eq!(call.code_hash, H256::zero());
    assert_eq!(call.depth, 0);
    assert_eq!(call.value, Word::zero());
    assert_eq!(call.call_data_offset, 0);
    assert_eq!(call.call_data_length, 0);
    assert_eq!(call.return_data_offset, 0);
    assert_eq!(call.return_data_length, 0);
    let frame = CallContext::default();
    assert_eq!(frame.index, 0);
    assert_eq!(frame.reversible_write_counter, 0);
    assert!(frame.call_data.is_empty());
    let group = ReversionGroup::default();
    assert!(group.calls().is_empty());
    assert!(group.op_refs().is_empty());
}

#[test]
fn offset_of_finds_the_first_entry() {
    let group = ReversionGroup::new(
        vec![(4, 0), (7, 3), (9, 5), (7, 8)],
        vec![(11, OperationRef(2))],
    );
    assert_eq!(group.calls(), &vec![(4, 0), (7, 3), (9, 5), (7, 8)]);
    assert_eq!(group.op_refs(), &vec![(11, OperationRef(2))]);
    assert_eq!(group.offset_of(4), Some(0));
    assert_eq!(group.offset_of(7), Some(3));
    assert_eq!(group.offset_of(9), Some(5));
    assert_eq!(group.offset_of(5), None);
    assert_eq!(ReversionGroup::default().offset_of(0), None);
}
