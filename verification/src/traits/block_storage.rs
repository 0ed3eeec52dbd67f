//! Abstract storage for DA proposals and VID shares.
//!
//! A store is an append-only log of records, each keyed by its kind, its view
//! and the participant it belongs to. Appending a record that is already
//! there changes nothing, so a retry after a crash is harmless.

use vstd::prelude::*;

verus! {

/// Why a store refused or failed an operation.
#[derive(Clone, Copy, Debug, PartialEq, Eq, Structural)]
pub enum BlockStorageError {
    /// Failed to store the proposal due to an internal error
    StoreError,
    /// Failed to retrieve the proposal due to an internal error
    RetrieveError,
}

/// A data-availability proposal: the payload that a view's leader makes
/// available.
#[derive(Clone, Copy, Debug, PartialEq, Eq, Structural)]
pub struct DAProposal {
    pub view_number: u64,
    /// The participant that authored the proposal.
    pub participant: u64,
    /// Commitment to the payload.
    pub payload: u64,
}

/// One participant's share of a dispersed payload.
#[derive(Clone, Copy, Debug, PartialEq, Eq, Structural)]
pub struct VidDisperse {
    pub view_number: u64,
    /// The participant that the share is meant for.
    pub participant: u64,
    /// Commitment to the payload.
    pub payload: u64,
    /// Commitment to the share.
    pub share: u64,
}

/// What a store holds.
#[derive(Clone, Copy, Debug, PartialEq, Eq, Structural)]
pub enum ProposalType {
    DAProposal(DAProposal),
    VidDisperse(VidDisperse),
}

impl ProposalType {
    /// The view that the record belongs to.
    pub open spec fn spec_view_number(self) -> u64 {
        match self {
            ProposalType::DAProposal(p) => p.view_number,
            ProposalType::VidDisperse(p) => p.view_number,
        }
    }

    /// The participant that the record belongs to.
    pub open spec fn spec_participant(self) -> u64 {
        match self {
            ProposalType::DAProposal(p) => p.participant,
            ProposalType::VidDisperse(p) => p.participant,
        }
    }

    /// Two records share a key when they are of the same kind and belong to
    /// the same view and participant.
    pub open spec fn same_key(self, other: ProposalType) -> bool {
        &&& self is DAProposal <==> other is DAProposal
        &&& self.spec_view_number() == other.spec_view_number()
        &&& self.spec_participant() == other.spec_participant()
    }

    #[verifier::when_used_as_spec(spec_view_number)]
    pub fn view_number(self) -> (v: u64)
        ensures
            v == self.spec_view_number(),
    {
        match self {
            ProposalType::DAProposal(p) => p.view_number,
            ProposalType::VidDisperse(p) => p.view_number,
        }
    }

    #[verifier::when_used_as_spec(spec_participant)]
    pub fn participant(self) -> (p: u64)
        ensures
            p == self.spec_participant(),
    {
        match self {
            ProposalType::DAProposal(p) => p.participant,
            ProposalType::VidDisperse(p) => p.participant,
        }
    }

    /// Whether the two records share a key.
    pub fn has_same_key(self, other: ProposalType) -> (b: bool)
        ensures
            b == self.same_key(other),
    {
        let same_kind = match (self, other) {
            (ProposalType::DAProposal(_), ProposalType::DAProposal(_)) => true,
            (ProposalType::VidDisperse(_), ProposalType::VidDisperse(_)) => true,
            _ => false,
        };
        same_kind && self.view_number() == other.view_number() && self.participant()
            == other.participant()
    }
}

/// No two records of the log share a key.
pub open spec fn distinct_keys(log: Seq<ProposalType>) -> bool {
    forall|i: int, j: int| 0 <= i < j < log.len() ==> !(#[trigger] log[i]).same_key(#[trigger] log[j])
}

/// Some record of the log has the key of `record` and differs from it.
pub open spec fn conflicts(log: Seq<ProposalType>, record: ProposalType) -> bool {
    exists|i: int| 0 <= i < log.len() && (#[trigger] log[i]).same_key(record) && log[i] != record
}

/// The log after `record` has been appended: unchanged when the record is
/// already there.
pub open spec fn appended(log: Seq<ProposalType>, record: ProposalType) -> Seq<ProposalType> {
    if log.contains(record) {
        log
    } else {
        log.push(record)
    }
}

/// Storage for the contents of DA proposals and VID shares.
///
/// A store may fail for reasons of its own (a full disk): then it reports an
/// error and keeps its records as they were. It never loses or alters a
/// record.
pub trait BlockStorage: Sized {
    /// The records held, oldest first.
    spec fn records(&self) -> Seq<ProposalType>;

    /// The invariant of the store.
    spec fn wf(&self) -> bool;

    /// Appends a record. On success the log is [`appended`]; on failure it is
    /// unchanged.
    fn append(&mut self, proposal: &ProposalType) -> (r: Result<(), BlockStorageError>)
        requires
            old(self).wf(),
        ensures
            final(self).wf(),
            r is Ok ==> final(self).records() == appended(old(self).records(), *proposal),
            r is Err ==> final(self).records() == old(self).records(),
    ;

    /// A store without records.
    fn empty() -> (store: Self)
        ensures
            store.wf(),
            store.records() == Seq::<ProposalType>::empty(),
    ;
}

/// A store that keeps its records in memory.
pub struct MemoryStorage {
    log: Vec<ProposalType>,
}

impl MemoryStorage {
    /// Number of records held.
    pub fn len(&self) -> (n: usize)
        ensures
            n == self.records().len(),
    {
        self.log.len()
    }

    /// The record with the key of `probe`, if the store holds one.
    pub fn find(&self, probe: &ProposalType) -> (found: Option<ProposalType>)
        requires
            self.wf(),
        ensures
            match found {
                Some(record) => self.records().contains(record) && record.same_key(*probe),
                None => forall|i: int|
                    0 <= i < self.records().len() ==> !(#[trigger] self.records()[i]).same_key(
                        *probe,
                    ),
            },
    {
        let n = self.log.len();
        let mut i: usize = 0;
        while i < n
            invariant
                n == self.log.len(),
                i <= n,
                forall|a: int| 0 <= a < i ==> !(#[trigger] self.log@[a]).same_key(*probe),
            decreases n - i,
        {
            if self.log[i].has_same_key(*probe) {
                assert(self.log@[i as int] == self.log[i as int]);
                return Some(self.log[i]);
            }
            i += 1;
        }
        None
    }
}

impl BlockStorage for MemoryStorage {
    closed spec fn records(&self) -> Seq<ProposalType> {
        self.log@
    }

    closed spec fn wf(&self) -> bool {
        distinct_keys(self.log@)
    }

    /// Fails, with [`BlockStorageError::StoreError`], exactly when the store
    /// holds a different record under the same key.
    fn append(&mut self, proposal: &ProposalType) -> (r: Result<(), BlockStorageError>)
        ensures
            r is Err <==> conflicts(old(self).records(), *proposal),
            r is Err ==> r == Err::<(), BlockStorageError>(BlockStorageError::StoreError),
    {
        match self.find(proposal) {
            Some(record) => {
                if record == *proposal {
                    proof {
                        assert(!conflicts(self.log@, *proposal)) by {
                            assert forall|i: int| 0 <= i < self.log@.len() && (
                            #[trigger] self.log@[i]).same_key(*proposal) implies self.log@[i]
                                == *proposal by {
                                let j = self.log@.index_of(record);
                                if i != j {
                                    assert(self.log@[i].same_key(self.log@[j]));
                                }
                            }
                        }
                    }
                    Ok(())
                } else {
                    proof {
                        let j = self.log@.index_of(record);
                        assert(self.log@[j].same_key(*proposal) && self.log@[j] != *proposal);
                    }
                    Err(BlockStorageError::StoreError)
                }
            },
            None => {
                proof {
                    assert(!self.log@.contains(*proposal)) by {
                        if self.log@.contains(*proposal) {
                            let j = self.log@.index_of(*proposal);
                            assert(self.log@[j].same_key(*proposal));
                        }
                    }
                }
                self.log.push(*proposal);
                Ok(())
            },
        }
    }

    fn empty() -> (store: Self) {
        MemoryStorage { log: Vec::new() }
    }
}

} // verus!
