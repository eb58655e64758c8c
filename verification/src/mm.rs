//! The memory-match reconciliation engine.
//!
//! `MM::react` is a pure decision function: from one freshly observed
//! dispute instance, the read-only trace archive and the agreed divergence
//! time it derives the single next action. It never mutates the archive and
//! never talks to the ledger; every invocation is independent, and the
//! contract below pins the action down to the byte, so that re-deriving it
//! on the next poll gives the same answer for the same inputs.

use vstd::prelude::*;
use crate::data::{
    archive_lookup, payload_eq, time_lookup, Access, Archive, Concern, DecodeError, Instance,
    MachineId, Operation, Proof, RawField, Reaction, SampleStepRequest, Strategy, Token,
    TransactionRequest,
};
use crate::words::{be_value, padded, uint256_from_word8, uint256_zero, Address, Hash256, Uint256};

verus! {

/// The memory-match dispute game, as one reactor.
pub struct MM();

/// The raw on-chain tuple in its expected order: provider address, client
/// address, initial hash, final hash, history length, current state tag.
#[derive(Debug)]
pub struct MMCtxParsed(
    pub Address,
    pub Address,
    pub Hash256,
    pub Hash256,
    pub Uint256,
    pub String,
);

/// The decoded context of one dispute instance.
#[derive(Debug)]
pub struct MMCtx {
    pub provider: Address,
    pub client: Address,
    pub initial_hash: Hash256,
    pub final_hash: Hash256,
    pub history_length: Uint256,
    pub current_state: String,
}

/// Whether a raw tuple has the shape the decoder expects: six fields, each
/// of the right kind, in the fixed order.
pub open spec fn decode_ok(fields: Seq<RawField>) -> bool {
    &&& fields.len() == 6
    &&& fields[0] is AddressField
    &&& fields[1] is AddressField
    &&& fields[2] is Bytes32Field
    &&& fields[3] is Bytes32Field
    &&& fields[4] is U256Field
    &&& fields[5] is String32Field
}

/// The bytes of an address field; empty for any other field.
pub open spec fn addr_bytes(f: RawField) -> Seq<u8> {
    match f {
        RawField::AddressField(a) => a.bytes@,
        _ => Seq::<u8>::empty(),
    }
}

/// The bytes of a hash field; empty for any other field.
pub open spec fn hash_bytes(f: RawField) -> Seq<u8> {
    match f {
        RawField::Bytes32Field(h) => h.bytes@,
        _ => Seq::<u8>::empty(),
    }
}

/// The bytes of an unsigned-integer field; empty for any other field.
pub open spec fn uint_bytes(f: RawField) -> Seq<u8> {
    match f {
        RawField::U256Field(u) => u.bytes@,
        _ => Seq::<u8>::empty(),
    }
}

/// The characters of a string field; empty for any other field.
pub open spec fn string_chars(f: RawField) -> Seq<char> {
    match f {
        RawField::String32Field(s) => s@,
        _ => Seq::<char>::empty(),
    }
}

/// The state tag a raw tuple carries.
pub open spec fn state_of(fields: Seq<RawField>) -> Seq<char> {
    string_chars(fields[5])
}

/// The history length a raw tuple carries, as bytes.
pub open spec fn history_of(fields: Seq<RawField>) -> Seq<u8> {
    uint_bytes(fields[4])
}

/// Whether a parsed tuple carries exactly the content of a raw tuple.
pub open spec fn parsed_matches(p: MMCtxParsed, fields: Seq<RawField>) -> bool {
    &&& decode_ok(fields)
    &&& p.0.bytes@ == addr_bytes(fields[0])
    &&& p.1.bytes@ == addr_bytes(fields[1])
    &&& p.2.bytes@ == hash_bytes(fields[2])
    &&& p.3.bytes@ == hash_bytes(fields[3])
    &&& p.4.bytes@ == uint_bytes(fields[4])
    &&& p.5@ == string_chars(fields[5])
}

/// Copies a raw tuple, field for field.
fn clone_payload(fields: &Vec<RawField>) -> (r: Vec<RawField>)
    ensures
        payload_eq(r@, fields@),
{
    let mut r: Vec<RawField> = Vec::new();
    let mut i: usize = 0;
    while i < fields.len()
        invariant
            i <= fields@.len(),
            r@.len() == i,
            forall|j: int| 0 <= j < i ==> crate::data::raw_field_eq(#[trigger] fields@[j], r@[j]),
        decreases fields@.len() - i,
    {
        r.push(fields[i].clone());
        i += 1;
    }
    r
}

/// Decodes the raw on-chain tuple into its typed form. The decode is of
/// fixed arity and fixed order; on any shape mismatch it fails with the
/// offending payload attached, and with nothing else ever reported.
pub fn decode(fields: &Vec<RawField>) -> (r: Result<MMCtxParsed, DecodeError>)
    ensures
        decode_ok(fields@) ==> (r matches Ok(p) && parsed_matches(p, fields@)),
        !decode_ok(fields@) ==> (r matches Err(e) && payload_eq(e.payload@, fields@)),
{
    if fields.len() != 6 {
        return Err(DecodeError { payload: clone_payload(fields) });
    }
    let provider = match &fields[0] {
        RawField::AddressField(a) => a.clone(),
        _ => {
            return Err(DecodeError { payload: clone_payload(fields) });
        },
    };
    let client = match &fields[1] {
        RawField::AddressField(a) => a.clone(),
        _ => {
            return Err(DecodeError { payload: clone_payload(fields) });
        },
    };
    let initial_hash = match &fields[2] {
        RawField::Bytes32Field(h) => h.clone(),
        _ => {
            return Err(DecodeError { payload: clone_payload(fields) });
        },
    };
    let final_hash = match &fields[3] {
        RawField::Bytes32Field(h) => h.clone(),
        _ => {
            return Err(DecodeError { payload: clone_payload(fields) });
        },
    };
    let history_length = match &fields[4] {
        RawField::U256Field(u) => u.clone(),
        _ => {
            return Err(DecodeError { payload: clone_payload(fields) });
        },
    };
    let current_state = match &fields[5] {
        RawField::String32Field(s) => s.clone(),
        _ => {
            return Err(DecodeError { payload: clone_payload(fields) });
        },
    };
    Ok(MMCtxParsed(provider, client, initial_hash, final_hash, history_length, current_state))
}

impl From<MMCtxParsed> for MMCtx {
    /// Names the positional fields of the parsed tuple.
    fn from(parsed: MMCtxParsed) -> (r: MMCtx) {
        MMCtx {
            provider: parsed.0,
            client: parsed.1,
            initial_hash: parsed.2,
            final_hash: parsed.3,
            history_length: parsed.4,
            current_state: parsed.5,
        }
    }
}

impl vstd::std_specs::convert::FromSpecImpl<MMCtxParsed> for MMCtx {
    open spec fn obeys_from_spec() -> bool {
        true
    }

    open spec fn from_spec(parsed: MMCtxParsed) -> MMCtx {
        MMCtx {
            provider: parsed.0,
            client: parsed.1,
            initial_hash: parsed.2,
            final_hash: parsed.3,
            history_length: parsed.4,
            current_state: parsed.5,
        }
    }
}

/// Whether two concerns name the same parties.
pub open spec fn concern_matches(a: Concern, b: Concern) -> bool {
    &&& a.contract_address.bytes@ == b.contract_address.bytes@
    &&& a.user_address.bytes@ == b.user_address.bytes@
}

/// Whether a reaction is the step request for this instance's machine at
/// the given time.
pub open spec fn step_request_matches(r: Reaction, instance: Instance, time: Uint256) -> bool {
    &&& r matches Reaction::Step(req)
    &&& req.id.index.bytes@ == instance.index.bytes@
    &&& req.id.contract_address.bytes@ == instance.concern.contract_address.bytes@
    &&& req.time.bytes@ == time.bytes@
}

/// What every transaction of this engine has: the instance's concern, no
/// attached value, and the simplest submission strategy.
pub open spec fn tx_common(tx: TransactionRequest, instance: Instance) -> bool {
    &&& concern_matches(tx.concern, instance.concern)
    &&& tx.value.bytes@ == Seq::new(32, |i: int| 0u8)
    &&& tx.strategy is Simplest
}

/// Whether a call argument is the 256-bit word with the given bytes.
pub open spec fn token_uint(t: Token, bytes: Seq<u8>) -> bool {
    &&& t matches Token::Uint(u)
    &&& u.bytes@ == bytes
}

/// Whether a call argument is the sibling array of the given proof path,
/// word for word and in the recorded order.
pub open spec fn token_siblings(t: Token, sibs: Seq<Hash256>) -> bool {
    &&& t matches Token::Array(ws)
    &&& ws@.len() == sibs.len()
    &&& forall|j: int| 0 <= j < sibs.len() ==> (#[trigger] ws@[j]).bytes@ == sibs[j].bytes@
}

/// Whether a reaction is the `finishProofPhase(index)` transaction of this
/// instance.
pub open spec fn finish_matches(r: Reaction, instance: Instance) -> bool {
    &&& r matches Reaction::Transaction(tx)
    &&& tx_common(tx, instance)
    &&& tx.function@ == "finishProofPhase"@
    &&& tx.data@.len() == 1
    &&& token_uint(tx.data@[0], instance.index.bytes@)
}

/// Whether a reaction submits the proof of one access. A read access goes
/// to `proveWrite` with the value after, a write access to `proveRead`
/// without it; the pairing is the on-chain contract's and is preserved
/// exactly.
pub open spec fn prove_matches(r: Reaction, instance: Instance, access: Access) -> bool {
    &&& r matches Reaction::Transaction(tx)
    &&& tx_common(tx, instance)
    &&& match access.operation {
        Operation::Read => {
            &&& tx.function@ == "proveWrite"@
            &&& tx.data@.len() == 5
            &&& token_uint(tx.data@[0], instance.index.bytes@)
            &&& token_uint(tx.data@[1], padded(access.address@))
            &&& token_uint(tx.data@[2], padded(access.value_before@))
            &&& token_uint(tx.data@[3], padded(access.value_after@))
            &&& token_siblings(tx.data@[4], access.proof.siblings@)
        },
        Operation::Write => {
            &&& tx.function@ == "proveRead"@
            &&& tx.data@.len() == 4
            &&& token_uint(tx.data@[0], instance.index.bytes@)
            &&& token_uint(tx.data@[1], padded(access.address@))
            &&& token_uint(tx.data@[2], padded(access.value_before@))
            &&& token_siblings(tx.data@[3], access.proof.siblings@)
        },
    }
}

/// The proof-submission sub-protocol, entered while the instance waits for
/// proofs: request missing trace data, or submit the next proof, or finish
/// the phase once the on-chain count covers the whole step log.
pub open spec fn waiting_matches(
    instance: Instance,
    archive: Archive,
    time: Uint256,
    r: Reaction,
) -> bool {
    match archive_lookup(
        archive.entries@,
        instance.index.bytes@,
        instance.concern.contract_address.bytes@,
    ) {
        None => step_request_matches(r, instance, time),
        Some(samples) => match time_lookup(samples.step@, time.bytes@) {
            None => step_request_matches(r, instance, time),
            Some(log) => if be_value(history_of(instance.payload@)) >= log.len() {
                finish_matches(r, instance)
            } else {
                prove_matches(r, instance, log[be_value(history_of(instance.payload@)) as int])
            },
        },
    }
}

/// The whole decision: a finished instance and an unrecognized state tag
/// both rest idle; an instance waiting for proofs enters the
/// proof-submission sub-protocol.
pub open spec fn reaction_matches(
    instance: Instance,
    archive: Archive,
    time: Uint256,
    r: Reaction,
) -> bool {
    let st = state_of(instance.payload@);
    if st == "FinishedReplay"@ {
        r is Idle
    } else if st == "WaitingProofs"@ {
        waiting_matches(instance, archive, time, r)
    } else {
        r is Idle
    }
}

/// Copies a sibling path into the 256-bit words an on-chain call takes.
fn sibling_words(path: &Proof) -> (r: Vec<Uint256>)
    ensures
        r@.len() == path.siblings@.len(),
        forall|j: int| 0 <= j < r@.len() ==> (#[trigger] r@[j]).bytes@ == path.siblings@[j].bytes@,
{
    let mut r: Vec<Uint256> = Vec::new();
    let mut i: usize = 0;
    while i < path.siblings.len()
        invariant
            i <= path.siblings@.len(),
            r@.len() == i,
            forall|j: int| 0 <= j < i ==> (#[trigger] r@[j]).bytes@ == path.siblings@[j].bytes@,
        decreases path.siblings@.len() - i,
    {
        let h = path.siblings[i].clone();
        r.push(Uint256 { bytes: h.bytes });
        i += 1;
    }
    r
}

impl MM {
    /// Decides the single next action for one dispute instance.
    ///
    /// The decode of the raw tuple is the only source of a hard error;
    /// every decoded instance maps to exactly one reaction, pinned by
    /// `reaction_matches`.
    pub fn react(instance: &Instance, archive: &Archive, divergence_time: &Uint256) -> (r: Result<
        Reaction,
        DecodeError,
    >)
        requires
            instance.wf(),
            archive.wf(),
        ensures
            decode_ok(instance.payload@) ==> (r matches Ok(reaction) && reaction_matches(
                *instance,
                *archive,
                *divergence_time,
                reaction,
            )),
            !decode_ok(instance.payload@) ==> (r matches Err(e) && payload_eq(
                e.payload@,
                instance.payload@,
            )),
    {
        let parsed = match decode(&instance.payload) {
            Ok(p) => p,
            Err(e) => {
                return Err(e);
            },
        };
        let ctx = MMCtx::from(parsed);

        // An inactive instance can still be observed here when the ledger
        // state advanced between the read and the decode.
        let finished: String = "FinishedReplay".to_owned();
        if ctx.current_state == finished {
            return Ok(Reaction::Idle);
        }

        let waiting: String = "WaitingProofs".to_owned();
        if ctx.current_state == waiting {
            let id = MachineId {
                index: instance.index.clone(),
                contract_address: instance.concern.contract_address.clone(),
            };
            if let Some(samples) = archive.get(&id) {
                proof {
                    crate::data::lemma_archive_lookup_wf(
                        archive.entries@,
                        instance.index.bytes@,
                        instance.concern.contract_address.bytes@,
                        *samples,
                    );
                }
                if let Some(step_log) = crate::data::time_get(&samples.step, divergence_time) {
                    proof {
                        crate::data::lemma_time_lookup_wf(
                            samples.step@,
                            divergence_time.bytes@,
                            step_log@,
                        );
                    }
                    match crate::words::history_index(&ctx.history_length, step_log.len()) {
                        None => {
                            // Every proof below the log length is already
                            // on-chain: close the proof phase.
                            let mut data: Vec<Token> = Vec::new();
                            data.push(Token::Uint(instance.index.clone()));
                            let request = TransactionRequest {
                                concern: instance.concern.clone(),
                                value: uint256_zero(),
                                function: "finishProofPhase".to_owned(),
                                data,
                                strategy: Strategy::Simplest,
                            };
                            return Ok(Reaction::Transaction(request));
                        },
                        Some(position) => {
                            // Submit the next unsubmitted access, in the
                            // order recorded at trace-computation time.
                            let access = &step_log[position];
                            proof {
                                assert(step_log@[position as int].wf());
                            }
                            let siblings = sibling_words(&access.proof);
                            let mut data: Vec<Token> = Vec::new();
                            data.push(Token::Uint(instance.index.clone()));
                            data.push(Token::Uint(uint256_from_word8(&access.address)));
                            data.push(Token::Uint(uint256_from_word8(&access.value_before)));
                            let function: String = match access.operation {
                                Operation::Read => {
                                    data.push(Token::Uint(uint256_from_word8(&access.value_after)));
                                    "proveWrite".to_owned()
                                },
                                Operation::Write => "proveRead".to_owned(),
                            };
                            data.push(Token::Array(siblings));
                            let request = TransactionRequest {
                                concern: instance.concern.clone(),
                                value: uint256_zero(),
                                function,
                                data,
                                strategy: Strategy::Simplest,
                            };
                            return Ok(Reaction::Transaction(request));
                        },
                    }
                }
            }
            // The divergence proof was not computed yet: request it.
            return Ok(Reaction::Step(SampleStepRequest {
                id,
                time: divergence_time.clone(),
            }));
        }

        Ok(Reaction::Idle)
    }
}

} // verus!
