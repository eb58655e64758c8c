//! Data model of one dispute instance and of the trace archive.
//!
//! Everything the reconciliation engine reads or emits is a plain value: the
//! raw on-chain tuple of an instance, the cached execution samples of a
//! machine, and the action descriptors handed to the external submission
//! layer.

use vstd::prelude::*;
use crate::words::{Address, Hash256, Uint256};

verus! {

/// One memory operation of the disputed execution.
#[derive(Debug, Clone, Copy, PartialEq, Eq)]
pub enum Operation {
    Read,
    Write,
}

/// The Merkle sibling path that proves one access against the committed
/// state root.
#[derive(Debug, PartialEq, Eq)]
pub struct Proof {
    pub siblings: Vec<Hash256>,
}

impl Proof {
    pub open spec fn wf(&self) -> bool {
        forall|i: int| 0 <= i < self.siblings@.len() ==> (#[trigger] self.siblings@[i]).wf()
    }
}

/// One recorded memory access: an 8-byte address, the 8-byte values before
/// and after, and the sibling path proving it.
#[derive(Debug, PartialEq, Eq)]
pub struct Access {
    pub operation: Operation,
    pub address: Vec<u8>,
    pub value_before: Vec<u8>,
    pub value_after: Vec<u8>,
    pub proof: Proof,
}

impl Access {
    pub open spec fn wf(&self) -> bool {
        &&& self.address@.len() == 8
        &&& self.value_before@.len() == 8
        &&& self.value_after@.len() == 8
        &&& self.proof.wf()
    }
}

/// The access log recorded for one logical time value.
#[derive(Debug, PartialEq, Eq)]
pub struct TimeLog {
    pub time: Uint256,
    pub accesses: Vec<Access>,
}

impl TimeLog {
    pub open spec fn wf(&self) -> bool {
        &&& self.time.wf()
        &&& forall|i: int| 0 <= i < self.accesses@.len() ==> (#[trigger] self.accesses@[i]).wf()
    }
}

/// The cached samples of one machine: a run log and a step log, each keyed
/// by a logical time value.
#[derive(Debug, PartialEq, Eq)]
pub struct Samples {
    pub run: Vec<TimeLog>,
    pub step: Vec<TimeLog>,
}

impl Samples {
    pub open spec fn wf(&self) -> bool {
        &&& forall|i: int| 0 <= i < self.run@.len() ==> (#[trigger] self.run@[i]).wf()
        &&& forall|i: int| 0 <= i < self.step@.len() ==> (#[trigger] self.step@[i]).wf()
    }
}

/// The identity of the machine a dispute instance argues about, derived
/// deterministically from the instance index and the owning contract.
#[derive(Debug, PartialEq, Eq)]
pub struct MachineId {
    pub index: Uint256,
    pub contract_address: Address,
}

impl MachineId {
    pub open spec fn wf(&self) -> bool {
        &&& self.index.wf()
        &&& self.contract_address.wf()
    }
}

/// One archive entry: the samples cached for one machine.
#[derive(Debug, PartialEq, Eq)]
pub struct ArchiveEntry {
    pub id: MachineId,
    pub samples: Samples,
}

impl ArchiveEntry {
    pub open spec fn wf(&self) -> bool {
        &&& self.id.wf()
        &&& self.samples.wf()
    }
}

/// Read-only view of the trace archive: machine identities mapped to their
/// cached samples. Lookups return the first entry with a matching identity.
#[derive(Debug, PartialEq, Eq)]
pub struct Archive {
    pub entries: Vec<ArchiveEntry>,
}

/// Whether two machine identities name the same machine.
pub open spec fn id_matches(a: MachineId, index: Seq<u8>, contract: Seq<u8>) -> bool {
    &&& a.index.bytes@ == index
    &&& a.contract_address.bytes@ == contract
}

/// The samples the archive holds for a machine identity: those of the first
/// entry whose identity matches.
pub open spec fn archive_lookup(entries: Seq<ArchiveEntry>, index: Seq<u8>, contract: Seq<u8>) -> Option<Samples>
    decreases entries.len(),
{
    if entries.len() == 0 {
        None
    } else if id_matches(entries[0].id, index, contract) {
        Some(entries[0].samples)
    } else {
        archive_lookup(entries.drop_first(), index, contract)
    }
}

/// The access log a sample list holds for a time value: the accesses of the
/// first log whose time matches.
pub open spec fn time_lookup(logs: Seq<TimeLog>, time: Seq<u8>) -> Option<Seq<Access>>
    decreases logs.len(),
{
    if logs.len() == 0 {
        None
    } else if logs[0].time.bytes@ == time {
        Some(logs[0].accesses@)
    } else {
        time_lookup(logs.drop_first(), time)
    }
}

impl Archive {
    pub open spec fn wf(&self) -> bool {
        forall|i: int| 0 <= i < self.entries@.len() ==> (#[trigger] self.entries@[i]).wf()
    }

    /// Looks up the samples cached for one machine.
    pub fn get(&self, id: &MachineId) -> (r: Option<&Samples>)
        ensures
            match r {
                Some(s) => archive_lookup(
                    self.entries@,
                    id.index.bytes@,
                    id.contract_address.bytes@,
                ) == Some(*s),
                None => archive_lookup(
                    self.entries@,
                    id.index.bytes@,
                    id.contract_address.bytes@,
                ) is None,
            },
    {
        let ghost index = id.index.bytes@;
        let ghost contract = id.contract_address.bytes@;
        let mut i: usize = 0;
        proof {
            assert(self.entries@.skip(0) =~= self.entries@);
        }
        while i < self.entries.len()
            invariant
                i <= self.entries@.len(),
                archive_lookup(self.entries@, index, contract) == archive_lookup(
                    self.entries@.skip(i as int),
                    index,
                    contract,
                ),
                index == id.index.bytes@,
                contract == id.contract_address.bytes@,
            decreases self.entries@.len() - i,
        {
            let entry = &self.entries[i];
            proof {
                assert(self.entries@.skip(i as int)[0] == self.entries@[i as int]);
            }
            if crate::words::bytes_eq(&entry.id.index.bytes, &id.index.bytes)
                && crate::words::bytes_eq(&entry.id.contract_address.bytes, &id.contract_address.bytes) {
                return Some(&entry.samples);
            }
            proof {
                assert(self.entries@.skip(i as int).drop_first() =~= self.entries@.skip(
                    i as int + 1,
                ));
            }
            i += 1;
        }
        proof {
            assert(self.entries@.skip(i as int).len() == 0);
        }
        None
    }
}

/// Looks up the access log recorded for one time value.
pub fn time_get<'a>(logs: &'a Vec<TimeLog>, time: &Uint256) -> (r: Option<&'a Vec<Access>>)
    ensures
        match r {
            Some(log) => time_lookup(logs@, time.bytes@) == Some(log@),
            None => time_lookup(logs@, time.bytes@) is None,
        },
{
    let mut i: usize = 0;
    proof {
        assert(logs@.skip(0) =~= logs@);
    }
    while i < logs.len()
        invariant
            i <= logs@.len(),
            time_lookup(logs@, time.bytes@) == time_lookup(logs@.skip(i as int), time.bytes@),
        decreases logs@.len() - i,
    {
        proof {
            assert(logs@.skip(i as int)[0] == logs@[i as int]);
        }
        if crate::words::bytes_eq(&logs[i].time.bytes, &time.bytes) {
            return Some(&logs[i].accesses);
        }
        proof {
            assert(logs@.skip(i as int).drop_first() =~= logs@.skip(i as int + 1));
        }
        i += 1;
    }
    proof {
        assert(logs@.skip(i as int).len() == 0);
    }
    None
}

/// Samples found in a well-formed archive are themselves well formed.
pub proof fn lemma_archive_lookup_wf(
    entries: Seq<ArchiveEntry>,
    index: Seq<u8>,
    contract: Seq<u8>,
    samples: Samples,
)
    requires
        forall|i: int| 0 <= i < entries.len() ==> (#[trigger] entries[i]).wf(),
        archive_lookup(entries, index, contract) == Some(samples),
    ensures
        samples.wf(),
    decreases entries.len(),
{
    if entries.len() > 0 && !id_matches(entries[0].id, index, contract) {
        assert forall|i: int| 0 <= i < entries.drop_first().len() implies (#[trigger] entries.drop_first()[i]).wf() by {
            assert(entries.drop_first()[i] == entries[i + 1]);
        }
        lemma_archive_lookup_wf(entries.drop_first(), index, contract, samples);
    }
}

/// An access log found among well-formed sample logs holds only well-formed
/// accesses.
pub proof fn lemma_time_lookup_wf(logs: Seq<TimeLog>, time: Seq<u8>, log: Seq<Access>)
    requires
        forall|i: int| 0 <= i < logs.len() ==> (#[trigger] logs[i]).wf(),
        time_lookup(logs, time) == Some(log),
    ensures
        forall|i: int| 0 <= i < log.len() ==> (#[trigger] log[i]).wf(),
    decreases logs.len(),
{
    if logs.len() > 0 && logs[0].time.bytes@ != time {
        assert forall|i: int| 0 <= i < logs.drop_first().len() implies (#[trigger] logs.drop_first()[i]).wf() by {
            assert(logs.drop_first()[i] == logs[i + 1]);
        }
        lemma_time_lookup_wf(logs.drop_first(), time, log);
    }
}

/// The parties concerned by a dispute instance: the contract that holds it
/// and the user this agent acts for.
#[derive(Debug, PartialEq, Eq)]
pub struct Concern {
    pub contract_address: Address,
    pub user_address: Address,
}

impl Concern {
    pub open spec fn wf(&self) -> bool {
        &&& self.contract_address.wf()
        &&& self.user_address.wf()
    }
}

impl Clone for Concern {
    fn clone(&self) -> (r: Self)
        ensures
            r.contract_address.bytes@ == self.contract_address.bytes@,
            r.user_address.bytes@ == self.user_address.bytes@,
    {
        Concern {
            contract_address: self.contract_address.clone(),
            user_address: self.user_address.clone(),
        }
    }
}

/// One raw field of the on-chain dispute tuple, as the ledger reader hands
/// it over.
#[derive(Debug, PartialEq, Eq)]
pub enum RawField {
    AddressField(Address),
    Bytes32Field(Hash256),
    U256Field(Uint256),
    String32Field(String),
}

impl RawField {
    pub open spec fn wf(&self) -> bool {
        match self {
            RawField::AddressField(a) => a.wf(),
            RawField::Bytes32Field(h) => h.wf(),
            RawField::U256Field(u) => u.wf(),
            RawField::String32Field(_) => true,
        }
    }
}

/// Whether two raw fields are the same field with the same content.
pub open spec fn raw_field_eq(a: RawField, b: RawField) -> bool {
    match (a, b) {
        (RawField::AddressField(x), RawField::AddressField(y)) => x.bytes@ == y.bytes@,
        (RawField::Bytes32Field(x), RawField::Bytes32Field(y)) => x.bytes@ == y.bytes@,
        (RawField::U256Field(x), RawField::U256Field(y)) => x.bytes@ == y.bytes@,
        (RawField::String32Field(x), RawField::String32Field(y)) => x@ == y@,
        _ => false,
    }
}

impl Clone for RawField {
    fn clone(&self) -> (r: Self)
        ensures
            raw_field_eq(*self, r),
    {
        match self {
            RawField::AddressField(a) => RawField::AddressField(a.clone()),
            RawField::Bytes32Field(h) => RawField::Bytes32Field(h.clone()),
            RawField::U256Field(u) => RawField::U256Field(u.clone()),
            RawField::String32Field(s) => RawField::String32Field(s.clone()),
        }
    }
}

/// Whether two raw tuples hold the same fields.
pub open spec fn payload_eq(a: Seq<RawField>, b: Seq<RawField>) -> bool {
    &&& a.len() == b.len()
    &&& forall|i: int| 0 <= i < a.len() ==> raw_field_eq(#[trigger] a[i], b[i])
}

/// One on-chain dispute instance as the poller observed it: who is
/// concerned, which index it has, and the raw tuple of its state.
#[derive(Debug, PartialEq, Eq)]
pub struct Instance {
    pub concern: Concern,
    pub index: Uint256,
    pub payload: Vec<RawField>,
}

impl Instance {
    pub open spec fn wf(&self) -> bool {
        &&& self.concern.wf()
        &&& self.index.wf()
        &&& forall|i: int| 0 <= i < self.payload@.len() ==> (#[trigger] self.payload@[i]).wf()
    }
}

/// One argument of an on-chain call: a 256-bit word or an array of words.
#[derive(Debug, PartialEq, Eq)]
pub enum Token {
    Uint(Uint256),
    Array(Vec<Uint256>),
}

/// How the external submission layer should drive a transaction.
#[derive(Debug, Clone, Copy, PartialEq, Eq)]
pub enum Strategy {
    Simplest,
}

/// One on-chain call for the external submission layer: target concern,
/// attached value, function name and its arguments, and the submission
/// strategy.
#[derive(Debug, PartialEq, Eq)]
pub struct TransactionRequest {
    pub concern: Concern,
    pub value: Uint256,
    pub function: String,
    pub data: Vec<Token>,
    pub strategy: Strategy,
}

/// A request that the archive compute the step log of one machine at one
/// time value.
#[derive(Debug, PartialEq, Eq)]
pub struct SampleStepRequest {
    pub id: MachineId,
    pub time: Uint256,
}

/// The single action the engine asks for on one invocation.
#[derive(Debug, PartialEq, Eq)]
pub enum Reaction {
    Idle,
    Step(SampleStepRequest),
    Transaction(TransactionRequest),
}

/// The raw tuple did not have the expected shape; it is carried along so
/// the operator can log the offending payload.
#[derive(Debug, PartialEq, Eq)]
pub struct DecodeError {
    pub payload: Vec<RawField>,
}

} // verus!
