//! Cross-cutting laws of the reconciliation engine, stated over the same
//! spec functions that `MM::react` is proved against.

use vstd::prelude::*;
use crate::data::{
    archive_lookup, time_lookup, Access, Archive, Instance, Reaction, Token, TransactionRequest,
};
use crate::mm::{
    concern_matches, finish_matches, history_of, prove_matches, reaction_matches, state_of,
    step_request_matches, token_siblings, token_uint, waiting_matches,
};
use crate::words::{be_value, padded, Uint256};

verus! {

/// Whether two call arguments carry the same word or the same word array.
pub open spec fn token_eq(a: Token, b: Token) -> bool {
    match (a, b) {
        (Token::Uint(x), Token::Uint(y)) => x.bytes@ == y.bytes@,
        (Token::Array(x), Token::Array(y)) => {
            &&& x@.len() == y@.len()
            &&& forall|j: int| 0 <= j < x@.len() ==> (#[trigger] x@[j]).bytes@ == y@[j].bytes@
        },
        _ => false,
    }
}

/// Whether two transaction requests describe the same on-chain call.
pub open spec fn tx_eq(a: TransactionRequest, b: TransactionRequest) -> bool {
    &&& concern_matches(a.concern, b.concern)
    &&& a.value.bytes@ == b.value.bytes@
    &&& a.function@ == b.function@
    &&& a.data@.len() == b.data@.len()
    &&& forall|j: int| 0 <= j < a.data@.len() ==> token_eq(#[trigger] a.data@[j], b.data@[j])
    &&& a.strategy == b.strategy
}

/// Whether two reactions are the same action with the same content.
pub open spec fn reaction_eq(a: Reaction, b: Reaction) -> bool {
    match (a, b) {
        (Reaction::Idle, Reaction::Idle) => true,
        (Reaction::Step(x), Reaction::Step(y)) => {
            &&& x.id.index.bytes@ == y.id.index.bytes@
            &&& x.id.contract_address.bytes@ == y.id.contract_address.bytes@
            &&& x.time.bytes@ == y.time.bytes@
        },
        (Reaction::Transaction(x), Reaction::Transaction(y)) => tx_eq(x, y),
        _ => false,
    }
}

/// The two recognized state tags are distinct words.
proof fn lemma_state_tags_differ()
    ensures
        "FinishedReplay"@ != "WaitingProofs"@,
{
    reveal_strlit("FinishedReplay");
    reveal_strlit("WaitingProofs");
    assert("FinishedReplay"@.len() == 14);
    assert("WaitingProofs"@.len() == 13);
}

proof fn lemma_step_request_eq(instance: Instance, time: Uint256, r1: Reaction, r2: Reaction)
    requires
        step_request_matches(r1, instance, time),
        step_request_matches(r2, instance, time),
    ensures
        reaction_eq(r1, r2),
{
}

proof fn lemma_finish_eq(instance: Instance, r1: Reaction, r2: Reaction)
    requires
        finish_matches(r1, instance),
        finish_matches(r2, instance),
    ensures
        reaction_eq(r1, r2),
{
}

proof fn lemma_prove_eq(instance: Instance, access: Access, r1: Reaction, r2: Reaction)
    requires
        prove_matches(r1, instance, access),
        prove_matches(r2, instance, access),
    ensures
        reaction_eq(r1, r2),
{
}

/// Law: the decision is a function of its inputs. Any two reactions the
/// engine's contract admits for the same instance, archive and divergence
/// time are the same action, so re-deriving the action on the next poll
/// with unchanged inputs yields the same action again.
pub proof fn lemma_reaction_deterministic(
    instance: Instance,
    archive: Archive,
    time: Uint256,
    r1: Reaction,
    r2: Reaction,
)
    requires
        reaction_matches(instance, archive, time, r1),
        reaction_matches(instance, archive, time, r2),
    ensures
        reaction_eq(r1, r2),
{
    let st = state_of(instance.payload@);
    if st == "FinishedReplay"@ || st != "WaitingProofs"@ {
    } else {
        match archive_lookup(
            archive.entries@,
            instance.index.bytes@,
            instance.concern.contract_address.bytes@,
        ) {
            None => lemma_step_request_eq(instance, time, r1, r2),
            Some(samples) => match time_lookup(samples.step@, time.bytes@) {
                None => lemma_step_request_eq(instance, time, r1, r2),
                Some(log) => {
                    if be_value(history_of(instance.payload@)) >= log.len() {
                        lemma_finish_eq(instance, r1, r2);
                    } else {
                        lemma_prove_eq(
                            instance,
                            log[be_value(history_of(instance.payload@)) as int],
                            r1,
                            r2,
                        );
                    }
                },
            },
        }
    }
}

/// Law: an instance observed in the terminal `FinishedReplay` state rests
/// idle, whatever the archive holds and whatever the divergence time is.
pub proof fn lemma_finished_replay_idle(
    instance: Instance,
    archive: Archive,
    time: Uint256,
    r: Reaction,
)
    requires
        reaction_matches(instance, archive, time, r),
        state_of(instance.payload@) == "FinishedReplay"@,
    ensures
        r is Idle,
{
}

/// Law: any state tag outside the recognized set rests idle; unrecognized
/// on-chain states never make the engine act.
pub proof fn lemma_unknown_state_idle(
    instance: Instance,
    archive: Archive,
    time: Uint256,
    r: Reaction,
)
    requires
        reaction_matches(instance, archive, time, r),
        state_of(instance.payload@) != "FinishedReplay"@,
        state_of(instance.payload@) != "WaitingProofs"@,
    ensures
        r is Idle,
{
}

/// Law: while the instance waits for proofs, a machine the archive does not
/// know, or one whose step log lacks the divergence time, yields exactly
/// the step request for that machine and time.
pub proof fn lemma_missing_trace_step(
    instance: Instance,
    archive: Archive,
    time: Uint256,
    r: Reaction,
)
    requires
        reaction_matches(instance, archive, time, r),
        state_of(instance.payload@) == "WaitingProofs"@,
        match archive_lookup(
            archive.entries@,
            instance.index.bytes@,
            instance.concern.contract_address.bytes@,
        ) {
            None => true,
            Some(samples) => time_lookup(samples.step@, time.bytes@) is None,
        },
    ensures
        step_request_matches(r, instance, time),
{
    lemma_state_tags_differ();
    assert(waiting_matches(instance, archive, time, r));
}

/// Law: once the on-chain proof count reaches the step log's length, the
/// engine closes the proof phase with `finishProofPhase`.
pub proof fn lemma_completion_finishes(
    instance: Instance,
    archive: Archive,
    time: Uint256,
    log: Seq<Access>,
    r: Reaction,
)
    requires
        reaction_matches(instance, archive, time, r),
        state_of(instance.payload@) == "WaitingProofs"@,
        archive_lookup(
            archive.entries@,
            instance.index.bytes@,
            instance.concern.contract_address.bytes@,
        ) matches Some(samples) && time_lookup(samples.step@, time.bytes@) == Some(log),
        be_value(history_of(instance.payload@)) >= log.len(),
    ensures
        finish_matches(r, instance),
{
    lemma_state_tags_differ();
    assert(waiting_matches(instance, archive, time, r));
}

/// Law: while the proof count is below the step log's length, the emitted
/// transaction addresses exactly the access at the proof count's position;
/// no position past the log's end is ever read.
pub proof fn lemma_submission_addresses_next(
    instance: Instance,
    archive: Archive,
    time: Uint256,
    log: Seq<Access>,
    r: Reaction,
)
    requires
        reaction_matches(instance, archive, time, r),
        state_of(instance.payload@) == "WaitingProofs"@,
        archive_lookup(
            archive.entries@,
            instance.index.bytes@,
            instance.concern.contract_address.bytes@,
        ) matches Some(samples) && time_lookup(samples.step@, time.bytes@) == Some(log),
        be_value(history_of(instance.payload@)) < log.len(),
    ensures
        prove_matches(r, instance, log[be_value(history_of(instance.payload@)) as int]),
{
    lemma_state_tags_differ();
    assert(waiting_matches(instance, archive, time, r));
    match archive_lookup(
        archive.entries@,
        instance.index.bytes@,
        instance.concern.contract_address.bytes@,
    ) {
        Some(samples) => {
            assert(time_lookup(samples.step@, time.bytes@) == Some(log));
        },
        None => {
            assert(false);
        },
    }
}

/// Law: a read access routes to `proveWrite`, with its five arguments in
/// the fixed order: index, address, value before, value after, siblings.
/// The seemingly swapped pairing is the on-chain contract's and is kept.
pub proof fn lemma_read_routes_to_prove_write(instance: Instance, access: Access, r: Reaction)
    requires
        prove_matches(r, instance, access),
        access.operation is Read,
    ensures
        r matches Reaction::Transaction(tx) && {
            &&& tx.function@ == "proveWrite"@
            &&& tx.data@.len() == 5
            &&& token_uint(tx.data@[0], instance.index.bytes@)
            &&& token_uint(tx.data@[1], padded(access.address@))
            &&& token_uint(tx.data@[2], padded(access.value_before@))
            &&& token_uint(tx.data@[3], padded(access.value_after@))
            &&& token_siblings(tx.data@[4], access.proof.siblings@)
        },
{
}

/// Law: a write access routes to `proveRead`, with its four arguments in
/// the fixed order: index, address, value before, siblings.
pub proof fn lemma_write_routes_to_prove_read(instance: Instance, access: Access, r: Reaction)
    requires
        prove_matches(r, instance, access),
        access.operation is Write,
    ensures
        r matches Reaction::Transaction(tx) && {
            &&& tx.function@ == "proveRead"@
            &&& tx.data@.len() == 4
            &&& token_uint(tx.data@[0], instance.index.bytes@)
            &&& token_uint(tx.data@[1], padded(access.address@))
            &&& token_uint(tx.data@[2], padded(access.value_before@))
            &&& token_siblings(tx.data@[3], access.proof.siblings@)
        },
{
}

} // verus!
