use compute::data::{
    Access, Archive, ArchiveEntry, Concern, DecodeError, Instance, MachineId, Operation, Proof,
    RawField, Reaction, SampleStepRequest, Samples, Strategy, TimeLog, Token, TransactionRequest,
};
use compute::mm::{decode, MMCtx, MM};
use compute::words::{Address, Hash256, Uint256};

fn addr(b: u8) -> Address {
    Address { bytes: vec![b; 20] }
}

fn hash(b: u8) -> Hash256 {
    Hash256 { bytes: vec![b; 32] }
}

fn uint(v: u64) -> Uint256 {
    let mut bytes = vec![0u8; 24];
    bytes.extend_from_slice(&v.to_be_bytes());
    Uint256 { bytes }
}

fn word8(v: u64) -> Vec<u8> {
    v.to_be_bytes().to_vec()
}

fn padded_word(v: u64) -> Uint256 {
    uint(v)
}

fn payload(state: &str, hist: Uint256) -> Vec<RawField> {
    vec![
        RawField::AddressField(addr(1)),
        RawField::AddressField(addr(2)),
        RawField::Bytes32Field(hash(3)),
        RawField::Bytes32Field(hash(4)),
        RawField::U256Field(hist),
        RawField::String32Field(state.to_string()),
    ]
}

fn instance(state: &str, hist: Uint256, index: u64) -> Instance {
    Instance {
        concern: Concern {
            contract_address: addr(9),
            user_address: addr(8),
        },
        index: uint(index),
        payload: payload(state, hist),
    }
}

fn access(op: Operation, address: u64, before: u64, after: u64, sibs: Vec<Hash256>) -> Access {
    Access {
        operation: op,
        address: word8(address),
        value_before: word8(before),
        value_after: word8(after),
        proof: Proof { siblings: sibs },
    }
}

fn archive_for(inst: &Instance, time: u64, log: Vec<Access>) -> Archive {
    Archive {
        entries: vec![ArchiveEntry {
            id: MachineId {
                index: inst.index.clone(),
                contract_address: inst.concern.contract_address.clone(),
            },
            samples: Samples {
                run: vec![],
                step: vec![TimeLog {
                    time: uint(time),
                    accesses: log,
                }],
            },
        }],
    }
}

fn sibling_word(h: &Hash256) -> Uint256 {
    Uint256 {
        bytes: h.bytes.clone(),
    }
}

fn expect_transaction(r: Result<Reaction, DecodeError>) -> TransactionRequest {
    match r {
        Ok(Reaction::Transaction(tx)) => tx,
        other => panic!("expected a transaction, got {:?}", other),
    }
}

fn expect_step(r: Result<Reaction, DecodeError>) -> SampleStepRequest {
    match r {
        Ok(Reaction::Step(req)) => req,
        other => panic!("expected a step request, got {:?}", other),
    }
}

#[test]
fn finished_replay_is_idle() {
    let inst = instance("FinishedReplay", uint(0), 5);
    let archive = archive_for(&inst, 7, vec![access(Operation::Read, 1, 2, 3, vec![])]);
    let r = MM::react(&inst, &archive, &uint(7));
    assert!(matches!(r, Ok(Reaction::Idle)));
}

#[test]
fn unknown_state_is_idle() {
    let inst = instance("SomethingElse", uint(0), 5);
    let archive = archive_for(&inst, 7, vec![access(Operation::Read, 1, 2, 3, vec![])]);
    let r = MM::react(&inst, &archive, &uint(7));
    assert!(matches!(r, Ok(Reaction::Idle)));
}

#[test]
fn waiting_proofs_without_machine_requests_step() {
    let inst = instance("WaitingProofs", uint(0), 5);
    let archive = Archive { entries: vec![] };
    let req = expect_step(MM::react(&inst, &archive, &uint(7)));
    assert_eq!(req.id.index, uint(5));
    assert_eq!(req.id.contract_address, addr(9));
    assert_eq!(req.time, uint(7));
}

#[test]
fn waiting_proofs_without_time_requests_step() {
    let inst = instance("WaitingProofs", uint(0), 5);
    let archive = archive_for(&inst, 3, vec![access(Operation::Read, 1, 2, 3, vec![])]);
    let req = expect_step(MM::react(&inst, &archive, &uint(7)));
    assert_eq!(req.id.index, uint(5));
    assert_eq!(req.time, uint(7));
}

#[test]
fn completed_log_finishes_phase() {
    // History length 2 against a step log of length 2: the proof phase is
    // over and the engine closes it.
    let inst = instance("WaitingProofs", uint(2), 5);
    let log = vec![
        access(Operation::Read, 1, 2, 3, vec![]),
        access(Operation::Write, 4, 5, 6, vec![]),
    ];
    let archive = archive_for(&inst, 7, log);
    let tx = expect_transaction(MM::react(&inst, &archive, &uint(7)));
    assert_eq!(tx.function, "finishProofPhase");
    assert_eq!(tx.data, vec![Token::Uint(uint(5))]);
    assert_eq!(tx.value, uint(0));
    assert_eq!(tx.concern, inst.concern);
    assert_eq!(tx.strategy, Strategy::Simplest);
}

#[test]
fn write_access_proves_read() {
    // History length 0 against a one-entry step log holding a write access:
    // the engine submits proveRead(index, address, value_before, siblings).
    let s0 = hash(0x11);
    let s1 = hash(0x22);
    let inst = instance("WaitingProofs", uint(0), 5);
    let log = vec![access(
        Operation::Write,
        0x01,
        0xAA,
        0xBB,
        vec![s0.clone(), s1.clone()],
    )];
    let archive = archive_for(&inst, 7, log);
    let tx = expect_transaction(MM::react(&inst, &archive, &uint(7)));
    assert_eq!(tx.function, "proveRead");
    assert_eq!(
        tx.data,
        vec![
            Token::Uint(uint(5)),
            Token::Uint(padded_word(0x01)),
            Token::Uint(padded_word(0xAA)),
            Token::Array(vec![sibling_word(&s0), sibling_word(&s1)]),
        ]
    );
}

#[test]
fn read_access_proves_write() {
    // A read access routes to proveWrite and carries the value after as the
    // fourth argument.
    let s0 = hash(0x33);
    let inst = instance("WaitingProofs", uint(0), 5);
    let log = vec![access(Operation::Read, 0x02, 0xCC, 0xDD, vec![s0.clone()])];
    let archive = archive_for(&inst, 7, log);
    let tx = expect_transaction(MM::react(&inst, &archive, &uint(7)));
    assert_eq!(tx.function, "proveWrite");
    assert_eq!(
        tx.data,
        vec![
            Token::Uint(uint(5)),
            Token::Uint(padded_word(0x02)),
            Token::Uint(padded_word(0xCC)),
            Token::Uint(padded_word(0xDD)),
            Token::Array(vec![sibling_word(&s0)]),
        ]
    );
}

#[test]
fn boundary_addresses_last_access() {
    // History length L - 1 addresses exactly the last access of the log.
    let inst = instance("WaitingProofs", uint(1), 5);
    let log = vec![
        access(Operation::Read, 0x10, 1, 2, vec![]),
        access(Operation::Write, 0x20, 3, 4, vec![]),
    ];
    let archive = archive_for(&inst, 7, log);
    let tx = expect_transaction(MM::react(&inst, &archive, &uint(7)));
    assert_eq!(tx.function, "proveRead");
    assert_eq!(tx.data[1], Token::Uint(padded_word(0x20)));
}

#[test]
fn huge_history_finishes_phase() {
    // A history length far beyond any in-memory log still closes the phase
    // instead of indexing out of bounds.
    let mut bytes = vec![0u8; 32];
    bytes[0] = 1;
    let inst = instance("WaitingProofs", Uint256 { bytes }, 5);
    let archive = archive_for(&inst, 7, vec![access(Operation::Read, 1, 2, 3, vec![])]);
    let tx = expect_transaction(MM::react(&inst, &archive, &uint(7)));
    assert_eq!(tx.function, "finishProofPhase");
}

#[test]
fn empty_log_finishes_phase() {
    let inst = instance("WaitingProofs", uint(0), 5);
    let archive = archive_for(&inst, 7, vec![]);
    let tx = expect_transaction(MM::react(&inst, &archive, &uint(7)));
    assert_eq!(tx.function, "finishProofPhase");
}

#[test]
fn short_tuple_fails_decode() {
    // A malformed raw tuple fails the decode with the payload attached; the
    // decision logic is never reached.
    let mut inst = instance("WaitingProofs", uint(0), 5);
    inst.payload.pop();
    let archive = archive_for(&inst, 7, vec![access(Operation::Read, 1, 2, 3, vec![])]);
    let r = MM::react(&inst, &archive, &uint(7));
    match r {
        Err(e) => assert_eq!(e.payload, inst.payload),
        other => panic!("expected a decode error, got {:?}", other),
    }
}

#[test]
fn long_tuple_fails_decode() {
    let mut inst = instance("WaitingProofs", uint(0), 5);
    inst.payload.push(RawField::String32Field("extra".to_string()));
    let archive = Archive { entries: vec![] };
    let r = MM::react(&inst, &archive, &uint(7));
    match r {
        Err(e) => assert_eq!(e.payload, inst.payload),
        other => panic!("expected a decode error, got {:?}", other),
    }
}

#[test]
fn wrong_field_kind_fails_decode() {
    let mut inst = instance("WaitingProofs", uint(0), 5);
    inst.payload[4] = RawField::String32Field("2".to_string());
    let archive = Archive { entries: vec![] };
    let r = MM::react(&inst, &archive, &uint(7));
    match r {
        Err(e) => assert_eq!(e.payload, inst.payload),
        other => panic!("expected a decode error, got {:?}", other),
    }
}

#[test]
fn decode_reads_fields_in_order() {
    let fields = payload("WaitingProofs", uint(2));
    let parsed = decode(&fields).unwrap();
    let ctx = MMCtx::from(parsed);
    assert_eq!(ctx.provider, addr(1));
    assert_eq!(ctx.client, addr(2));
    assert_eq!(ctx.initial_hash, hash(3));
    assert_eq!(ctx.final_hash, hash(4));
    assert_eq!(ctx.history_length, uint(2));
    assert_eq!(ctx.current_state, "WaitingProofs");
}

#[test]
fn react_is_idempotent() {
    let s0 = hash(0x11);
    let inst = instance("WaitingProofs", uint(0), 5);
    let log = vec![access(Operation::Write, 0x01, 0xAA, 0xBB, vec![s0])];
    let archive = archive_for(&inst, 7, log);
    let first = MM::react(&inst, &archive, &uint(7));
    let second = MM::react(&inst, &archive, &uint(7));
    assert_eq!(first, second);
}

#[test]
fn lookup_takes_first_matching_entry() {
    let inst = instance("WaitingProofs", uint(0), 5);
    let id = MachineId {
        index: inst.index.clone(),
        contract_address: inst.concern.contract_address.clone(),
    };
    let first = ArchiveEntry {
        id: MachineId {
            index: id.index.clone(),
            contract_address: id.contract_address.clone(),
        },
        samples: Samples {
            run: vec![],
            step: vec![TimeLog {
                time: uint(7),
                accesses: vec![],
            }],
        },
    };
    let second = ArchiveEntry {
        id,
        samples: Samples {
            run: vec![],
            step: vec![],
        },
    };
    let archive = Archive {
        entries: vec![first, second],
    };
    // The first entry's empty step log wins: the phase is closed rather
    // than a step requested.
    let tx = expect_transaction(MM::react(&inst, &archive, &uint(7)));
    assert_eq!(tx.function, "finishProofPhase");
}
