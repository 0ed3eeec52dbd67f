//! The values that the protocol exchanges: votes, certificates, leaves and
//! proposals.
//!
//! Leaves and payloads are named by 64-bit commitments. Computing a
//! commitment and checking a signature are the caller's business; the core
//! only compares commitments and is told whether a signature was valid.

use crate::traits::block_storage::{DAProposal, ProposalType};
use vstd::prelude::*;

verus! {

/// The sub-steps of a view.
#[derive(Clone, Copy, Debug, PartialEq, Eq, Structural)]
pub enum Phase {
    Prepare,
    PreCommit,
    Commit,
    Decide,
}

/// A participant's endorsement of one leaf in one phase of one view.
#[derive(Clone, Copy, Debug, PartialEq, Eq, Structural)]
pub struct Vote {
    pub view: u64,
    pub phase: Phase,
    /// Commitment of the leaf voted for.
    pub leaf: u64,
    pub signer: u64,
}

/// Proof that a quorum endorsed a leaf in a phase of a view.
#[derive(Clone, Debug, PartialEq, Eq)]
pub struct QuorumCertificate {
    pub view: u64,
    pub phase: Phase,
    /// Commitment of the certified leaf.
    pub leaf: u64,
    /// The identities whose votes were aggregated.
    pub signers: Vec<u64>,
    /// The weight that the aggregator counted. A receiver recomputes it.
    pub weight: u64,
}

/// The mathematical value of a [`QuorumCertificate`].
pub struct CertificateView {
    pub view: u64,
    pub phase: Phase,
    pub leaf: u64,
    pub signers: Seq<u64>,
    pub weight: u64,
}

impl View for QuorumCertificate {
    type V = CertificateView;

    open spec fn view(&self) -> CertificateView {
        CertificateView {
            view: self.view,
            phase: self.phase,
            leaf: self.leaf,
            signers: self.signers@,
            weight: self.weight,
        }
    }
}

/// The certificate that stands for the root of the chain: view zero, no
/// signers.
pub open spec fn genesis_certificate(leaf: u64) -> CertificateView {
    CertificateView { view: 0, phase: Phase::Prepare, leaf, signers: Seq::empty(), weight: 0 }
}

/// A copy of a list of identities.
pub fn copy_identities(list: &Vec<u64>) -> (copy: Vec<u64>)
    ensures
        copy@ == list@,
{
    let n = list.len();
    let mut copy: Vec<u64> = Vec::new();
    let mut i: usize = 0;
    while i < n
        invariant
            n == list.len(),
            i <= n,
            copy@ == list@.take(i as int),
        decreases n - i,
    {
        copy.push(list[i]);
        proof {
            assert(list@.take(i as int).push(list@[i as int]) =~= list@.take(i as int + 1));
        }
        i += 1;
    }
    proof {
        assert(list@.take(n as int) =~= list@);
    }
    copy
}

/// Whether `identity` occurs in the list.
pub fn holds_identity(list: &Vec<u64>, identity: u64) -> (found: bool)
    ensures
        found == list@.contains(identity),
{
    let n = list.len();
    let mut i: usize = 0;
    while i < n
        invariant
            n == list.len(),
            i <= n,
            forall|a: int| 0 <= a < i ==> list@[a] != identity,
        decreases n - i,
    {
        if list[i] == identity {
            return true;
        }
        i += 1;
    }
    false
}

impl QuorumCertificate {
    /// The certificate of the root of the chain.
    pub fn genesis(leaf: u64) -> (certificate: QuorumCertificate)
        ensures
            certificate@ == genesis_certificate(leaf),
    {
        QuorumCertificate { view: 0, phase: Phase::Prepare, leaf, signers: Vec::new(), weight: 0 }
    }

    /// An independent copy, equal in value.
    pub fn duplicate(&self) -> (copy: QuorumCertificate)
        ensures
            copy@ == self@,
    {
        QuorumCertificate {
            view: self.view,
            phase: self.phase,
            leaf: self.leaf,
            signers: copy_identities(&self.signers),
            weight: self.weight,
        }
    }
}

/// A block record: committed, or a candidate for it.
#[derive(Clone, Debug, PartialEq, Eq)]
pub struct Leaf {
    /// Commitment of this leaf.
    pub commitment: u64,
    /// Commitment of the parent leaf.
    pub parent: u64,
    /// The view in which the leaf was proposed.
    pub view: u64,
    /// Commitment of the payload.
    pub payload: u64,
    /// The certificate that justified the parent.
    pub justify: QuorumCertificate,
}

/// The mathematical value of a [`Leaf`].
pub struct LeafView {
    pub commitment: u64,
    pub parent: u64,
    pub view: u64,
    pub payload: u64,
    pub justify: CertificateView,
}

impl View for Leaf {
    type V = LeafView;

    open spec fn view(&self) -> LeafView {
        LeafView {
            commitment: self.commitment,
            parent: self.parent,
            view: self.view,
            payload: self.payload,
            justify: self.justify@,
        }
    }
}

impl Leaf {
    /// An independent copy, equal in value.
    pub fn duplicate(&self) -> (copy: Leaf)
        ensures
            copy@ == self@,
    {
        Leaf {
            commitment: self.commitment,
            parent: self.parent,
            view: self.view,
            payload: self.payload,
            justify: self.justify.duplicate(),
        }
    }
}

/// A leader's message for a view: the new leaf, which carries the
/// certificate that justifies it.
#[derive(Clone, Debug, PartialEq, Eq)]
pub struct Proposal {
    pub leaf: Leaf,
    /// The identity that authored the proposal.
    pub proposer: u64,
}

/// The mathematical value of a [`Proposal`].
pub struct ProposalView {
    pub leaf: LeafView,
    pub proposer: u64,
}

impl View for Proposal {
    type V = ProposalView;

    open spec fn view(&self) -> ProposalView {
        ProposalView { leaf: self.leaf@, proposer: self.proposer }
    }
}

impl ProposalView {
    /// The record under which the proposal is stored: the payload that the
    /// proposer makes available in the view of the leaf.
    pub open spec fn da_record(self) -> ProposalType {
        ProposalType::DAProposal(
            DAProposal {
                view_number: self.leaf.view,
                participant: self.proposer,
                payload: self.leaf.payload,
            },
        )
    }
}

impl Proposal {
    /// The record under which the proposal is stored.
    pub fn da_record(&self) -> (record: ProposalType)
        ensures
            record == self@.da_record(),
    {
        ProposalType::DAProposal(
            DAProposal {
                view_number: self.leaf.view,
                participant: self.proposer,
                payload: self.leaf.payload,
            },
        )
    }
}

} // verus!
