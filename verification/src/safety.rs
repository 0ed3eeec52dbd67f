//! Safety: committed leaves never lie on diverging branches.
//!
//! The argument has two layers. The upper one speaks of a [`History`]: the
//! votes that honest nodes have cast, and the leaf that each commitment
//! stands for. If the honest votes obey four rules and the faulty nodes hold
//! less than a third of the weight, any two leaves with a Commit certificate
//! lie on one branch. The lower layer shows that a node which runs the round
//! state machine of this crate obeys the rules, whatever it is driven with,
//! as long as signatures cannot be forged and commitments bind.

use crate::data::{Phase, Vote};
use crate::stake_table::{
    lemma_positive_weight_has_member, lemma_quorum_intersection, lemma_weight_subset,
    lemma_weight_union, quorum_threshold, total_weight, weight_in, StakeTableEntry,
};
use vstd::prelude::*;

verus! {

/// What the chain needs to know of a leaf.
pub struct LeafHeader {
    /// Commitment of the parent leaf.
    pub parent: u64,
    /// The view in which the leaf was proposed.
    pub view: u64,
    /// The view of the certificate that justifies the leaf.
    pub justify_view: u64,
}

/// All that has happened, as far as safety depends on it.
pub struct History {
    /// The stake table, the same at every node.
    pub electorate: Seq<StakeTableEntry>,
    /// Commitment of the root of the chain.
    pub genesis: u64,
    /// The nodes that follow the protocol.
    pub honest: Set<u64>,
    /// The votes cast. Only those of honest signers matter.
    pub votes: Set<Vote>,
    /// The leaf that each commitment stands for.
    pub leaves: Map<u64, LeafHeader>,
}

impl History {
    /// The identities that are not honest.
    pub open spec fn faulty(self) -> Set<u64> {
        Set::new(|id: u64| !self.honest.contains(id))
    }

    /// The faulty nodes hold less than a third of the weight.
    pub open spec fn tolerable(self) -> bool {
        3 * weight_in(self.electorate, self.faulty()) < total_weight(self.electorate)
    }

    pub open spec fn threshold(self) -> nat {
        quorum_threshold(total_weight(self.electorate))
    }

    /// Every honest node among `signers` has cast the vote.
    pub open spec fn endorsed_by(self, signers: Set<u64>, view: u64, phase: Phase, leaf: u64) -> bool {
        forall|id: u64|
            signers.contains(id) && self.honest.contains(id) ==> self.votes.contains(
                Vote { view, phase, leaf, signer: id },
            )
    }

    /// A certificate can exist: signers of threshold weight, the honest ones
    /// of which have cast the vote.
    pub open spec fn certified(self, view: u64, phase: Phase, leaf: u64) -> bool {
        exists|signers: Set<u64>|
            weight_in(self.electorate, signers) >= self.threshold() && #[trigger] self.endorsed_by(
                signers,
                view,
                phase,
                leaf,
            )
    }

    /// Each commitment of the path but the last stands for a leaf whose
    /// parent is the next.
    pub open spec fn is_chain(self, path: Seq<u64>) -> bool {
        &&& path.len() >= 1
        &&& forall|i: int|
            0 <= i < path.len() - 1 ==> self.leaves.dom().contains(#[trigger] path[i])
                && self.leaves[path[i]].parent == path[i + 1]
    }

    /// `leaf` is `ancestor` or descends from it.
    pub open spec fn extends(self, leaf: u64, ancestor: u64) -> bool {
        exists|path: Seq<u64>| #[trigger]
            self.is_chain(path) && path.first() == leaf && path.last() == ancestor
    }

    /// The two leaves lie on diverging branches.
    pub open spec fn conflict(self, a: u64, b: u64) -> bool {
        !self.extends(a, b) && !self.extends(b, a)
    }

    /// Rule: an honest node votes for one leaf in a view.
    pub open spec fn one_leaf_per_view(self) -> bool {
        forall|a: Vote, b: Vote|
            #![trigger self.votes.contains(a), self.votes.contains(b)]
            self.votes.contains(a) && self.votes.contains(b) && self.honest.contains(a.signer)
                && a.signer == b.signer && a.view == b.view ==> a.leaf == b.leaf
    }

    /// Rule: after its Commit vote in a view, an honest node votes Prepare
    /// only for a leaf that is justified in that view or later.
    pub open spec fn lock_respected(self) -> bool {
        forall|c: Vote, p: Vote|
            #![trigger self.votes.contains(c), self.votes.contains(p)]
            self.votes.contains(c) && self.votes.contains(p) && self.honest.contains(c.signer)
                && c.signer == p.signer && c.phase == Phase::Commit && p.phase == Phase::Prepare
                && c.view < p.view ==> self.leaves.dom().contains(p.leaf)
                && self.leaves[p.leaf].justify_view >= c.view
    }

    /// What an honest Prepare vote presupposes: the leaf is known, is of the
    /// view of the vote, and is justified by a Prepare certificate of an
    /// earlier view for its parent, or by the root.
    pub open spec fn justified(self, p: Vote) -> bool {
        &&& self.leaves.dom().contains(p.leaf)
        &&& self.leaves[p.leaf].view == p.view
        &&& self.leaves[p.leaf].justify_view < p.view
        &&& self.leaves[p.leaf].justify_view > 0 ==> self.certified(
            self.leaves[p.leaf].justify_view,
            Phase::Prepare,
            self.leaves[p.leaf].parent,
        )
    }

    /// Rule: an honest node votes in views from one on, votes Prepare only
    /// for a justified leaf, PreCommit only on a Prepare certificate, and
    /// Commit only on a PreCommit certificate.
    pub open spec fn votes_founded(self) -> bool {
        forall|v: Vote| #[trigger]
            self.votes.contains(v) && self.honest.contains(v.signer) ==> {
                &&& v.view >= 1
                &&& v.phase == Phase::Prepare ==> self.justified(v)
                &&& v.phase == Phase::PreCommit ==> self.certified(v.view, Phase::Prepare, v.leaf)
                &&& v.phase == Phase::Commit ==> self.certified(v.view, Phase::PreCommit, v.leaf)
            }
    }

    /// The honest nodes follow the rules and outweigh the faulty ones two to
    /// one.
    pub open spec fn sound(self) -> bool {
        &&& self.tolerable()
        &&& self.one_leaf_per_view()
        &&& self.lock_respected()
        &&& self.votes_founded()
    }
}

/// A set that weighs more than a third of the total holds an honest node.
pub proof fn lemma_honest_member(h: History, signers: Set<u64>) -> (id: u64)
    requires
        h.tolerable(),
        3 * weight_in(h.electorate, signers) > total_weight(h.electorate),
    ensures
        signers.contains(id),
        h.honest.contains(id),
{
    let good = signers.intersect(h.honest);
    let bad = h.faulty();
    assert(signers.subset_of(good.union(bad)));
    lemma_weight_subset(h.electorate, signers, good.union(bad));
    lemma_weight_union(h.electorate, good, bad);
    let i = lemma_positive_weight_has_member(h.electorate, good);
    h.electorate[i].identity
}

/// Two certificates share an honest signer, who has cast both votes.
pub proof fn lemma_common_honest_voter(
    h: History,
    view_a: u64,
    phase_a: Phase,
    leaf_a: u64,
    view_b: u64,
    phase_b: Phase,
    leaf_b: u64,
) -> (id: u64)
    requires
        h.tolerable(),
        h.certified(view_a, phase_a, leaf_a),
        h.certified(view_b, phase_b, leaf_b),
    ensures
        h.honest.contains(id),
        h.votes.contains(Vote { view: view_a, phase: phase_a, leaf: leaf_a, signer: id }),
        h.votes.contains(Vote { view: view_b, phase: phase_b, leaf: leaf_b, signer: id }),
{
    let qa = choose|signers: Set<u64>|
        weight_in(h.electorate, signers) >= h.threshold() && #[trigger] h.endorsed_by(
            signers,
            view_a,
            phase_a,
            leaf_a,
        );
    let qb = choose|signers: Set<u64>|
        weight_in(h.electorate, signers) >= h.threshold() && #[trigger] h.endorsed_by(
            signers,
            view_b,
            phase_b,
            leaf_b,
        );
    lemma_quorum_intersection(h.electorate, qa, qb);
    lemma_honest_member(h, qa.intersect(qb))
}

/// A leaf extends itself.
pub proof fn lemma_extends_itself(h: History, leaf: u64)
    ensures
        h.extends(leaf, leaf),
{
    let path = seq![leaf];
    assert(h.is_chain(path));
    assert(path.first() == leaf && path.last() == leaf);
}

/// A leaf extends whatever its parent extends.
pub proof fn lemma_extends_through_parent(h: History, leaf: u64, ancestor: u64)
    requires
        h.leaves.dom().contains(leaf),
        h.extends(h.leaves[leaf].parent, ancestor),
    ensures
        h.extends(leaf, ancestor),
{
    let rest = choose|path: Seq<u64>| #[trigger]
        h.is_chain(path) && path.first() == h.leaves[leaf].parent && path.last() == ancestor;
    let path = seq![leaf] + rest;
    assert(h.is_chain(path)) by {
        assert forall|i: int| 0 <= i < path.len() - 1 implies h.leaves.dom().contains(
            #[trigger] path[i],
        ) && h.leaves[path[i]].parent == path[i + 1] by {
            if i > 0 {
                assert(path[i] == rest[i - 1]);
                assert(path[i + 1] == rest[i]);
            } else {
                assert(path[1] == rest[0]);
            }
        }
    }
    assert(path.first() == leaf && path.last() == ancestor);
}

/// Once a leaf has a Commit certificate in a view, every leaf with a Prepare
/// certificate in that view or a later one extends it.
pub proof fn lemma_prepared_extends_committed(
    h: History,
    committed: u64,
    commit_view: u64,
    prepared: u64,
    prepare_view: u64,
)
    requires
        h.sound(),
        h.certified(commit_view, Phase::Commit, committed),
        h.certified(prepare_view, Phase::Prepare, prepared),
        prepare_view >= commit_view,
    ensures
        h.extends(prepared, committed),
    decreases prepare_view,
{
    let id = lemma_common_honest_voter(
        h,
        commit_view,
        Phase::Commit,
        committed,
        prepare_view,
        Phase::Prepare,
        prepared,
    );
    let c = Vote { view: commit_view, phase: Phase::Commit, leaf: committed, signer: id };
    let p = Vote { view: prepare_view, phase: Phase::Prepare, leaf: prepared, signer: id };
    assert(h.votes.contains(c) && h.votes.contains(p));
    if prepare_view == commit_view {
        assert(c.leaf == p.leaf);
        lemma_extends_itself(h, committed);
    } else {
        assert(h.justified(p));
        let header = h.leaves[prepared];
        assert(header.justify_view >= commit_view);
        assert(c.view >= 1);
        lemma_prepared_extends_committed(
            h,
            committed,
            commit_view,
            header.parent,
            header.justify_view,
        );
        lemma_extends_through_parent(h, prepared, committed);
    }
}

/// A leaf with a Commit certificate has a Prepare certificate in the same
/// view.
pub proof fn lemma_committed_was_prepared(h: History, leaf: u64, view: u64)
    requires
        h.sound(),
        h.certified(view, Phase::Commit, leaf),
    ensures
        h.certified(view, Phase::Prepare, leaf),
{
    let id = lemma_common_honest_voter(
        h,
        view,
        Phase::Commit,
        leaf,
        view,
        Phase::Commit,
        leaf,
    );
    let c = Vote { view, phase: Phase::Commit, leaf, signer: id };
    assert(h.votes.contains(c));
    assert(h.certified(view, Phase::PreCommit, leaf));
    let id2 = lemma_common_honest_voter(
        h,
        view,
        Phase::PreCommit,
        leaf,
        view,
        Phase::PreCommit,
        leaf,
    );
    let pc = Vote { view, phase: Phase::PreCommit, leaf, signer: id2 };
    assert(h.votes.contains(pc));
}

/// Safety of commits: two leaves that each have a Commit certificate do not
/// conflict. One of them extends the other: they lie on one branch of the
/// chain.
pub proof fn theorem_committed_leaves_agree(h: History, a: u64, view_a: u64, b: u64, view_b: u64)
    requires
        h.sound(),
        h.certified(view_a, Phase::Commit, a),
        h.certified(view_b, Phase::Commit, b),
    ensures
        !h.conflict(a, b),
{
    if view_a <= view_b {
        lemma_committed_was_prepared(h, b, view_b);
        lemma_prepared_extends_committed(h, a, view_a, b, view_b);
    } else {
        lemma_committed_was_prepared(h, a, view_a);
        lemma_prepared_extends_committed(h, b, view_b, a, view_a);
    }
}

} // verus!
