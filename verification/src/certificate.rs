//! Aggregation of votes into quorum certificates, and their verification.
//!
//! A [`VoteAccumulator`] collects the votes for one `(view, phase, leaf)`
//! target. Its value is a [`TallyView`]: the electorate and the signers
//! counted so far, in the order in which they were counted. The tallied
//! weight is the weight of the set of signers, so no signer counts twice.

use crate::data::{copy_identities, holds_identity, CertificateView, Phase, QuorumCertificate, Vote};
use crate::error::{FaultView, HotShotError};
use crate::stake_table::{
    is_member, lemma_stake_of_entry, lemma_stranger_has_no_stake, lemma_weight_empty,
    lemma_weight_insert, lemma_weight_le_total, lemma_weight_subset, members_in,
    quorum_threshold, total_weight, weight_in, StakeTable, StakeTableEntry,
};
use vstd::prelude::*;

verus! {

/// The mathematical value of a [`VoteAccumulator`].
pub struct TallyView {
    pub electorate: Seq<StakeTableEntry>,
    pub view: u64,
    pub phase: Phase,
    pub leaf: u64,
    pub signers: Seq<u64>,
}

impl TallyView {
    /// The weight tallied: that of the set of signers.
    pub open spec fn weight(self) -> nat {
        weight_in(self.electorate, self.signers.to_set())
    }

    /// The weight that a certificate needs.
    pub open spec fn threshold(self) -> nat {
        quorum_threshold(total_weight(self.electorate))
    }

    pub open spec fn has_quorum(self) -> bool {
        self.weight() >= self.threshold()
    }

    /// Every signer is a member and was counted once.
    pub open spec fn sound(self) -> bool {
        &&& self.signers.no_duplicates()
        &&& forall|i: int|
            0 <= i < self.signers.len() ==> is_member(self.electorate, #[trigger] self.signers[i])
    }

    /// Whether the vote adds a signer: it carries a valid signature, is for
    /// the target of the tally, comes from a member, and that member has not
    /// been counted.
    pub open spec fn counts(self, vote: Vote, signature_valid: bool) -> bool {
        &&& signature_valid
        &&& vote.view == self.view
        &&& vote.phase == self.phase
        &&& vote.leaf == self.leaf
        &&& is_member(self.electorate, vote.signer)
        &&& !self.signers.contains(vote.signer)
    }

    /// The tally after the vote has been handed in.
    pub open spec fn accept(self, vote: Vote, signature_valid: bool) -> TallyView {
        if self.counts(vote, signature_valid) {
            TallyView { signers: self.signers.push(vote.signer), ..self }
        } else {
            self
        }
    }

    /// Whether the vote carries the tally across the threshold.
    pub open spec fn forms_certificate(self, vote: Vote, signature_valid: bool) -> bool {
        &&& self.counts(vote, signature_valid)
        &&& !self.has_quorum()
        &&& self.accept(vote, signature_valid).has_quorum()
    }

    /// The certificate over the signers counted so far.
    pub open spec fn certificate(self) -> CertificateView {
        CertificateView {
            view: self.view,
            phase: self.phase,
            leaf: self.leaf,
            signers: self.signers,
            weight: self.weight() as u64,
        }
    }

    /// The tally without signers, for another target.
    pub open spec fn restarted(self, view: u64, phase: Phase, leaf: u64) -> TallyView {
        TallyView { electorate: self.electorate, view, phase, leaf, signers: Seq::empty() }
    }
}

/// The tally after a sequence of votes, each with the outcome of its
/// signature check.
pub open spec fn tally_after(tally: TallyView, votes: Seq<(Vote, bool)>) -> TallyView
    decreases votes.len(),
{
    if votes.len() == 0 {
        tally
    } else {
        tally_after(tally, votes.drop_last()).accept(votes.last().0, votes.last().1)
    }
}

/// Whether the vote at position `k` of the sequence forms the certificate.
pub open spec fn formed_at(tally: TallyView, votes: Seq<(Vote, bool)>, k: int) -> bool {
    &&& 0 <= k < votes.len()
    &&& tally_after(tally, votes.take(k)).forms_certificate(votes[k].0, votes[k].1)
}

/// The weight of the certificate's distinct signers.
pub open spec fn certificate_weight(
    electorate: Seq<StakeTableEntry>,
    certificate: CertificateView,
) -> nat {
    weight_in(electorate, certificate.signers.to_set())
}

/// The number of members among the certificate's distinct signers.
pub open spec fn certificate_members(
    electorate: Seq<StakeTableEntry>,
    certificate: CertificateView,
) -> nat {
    members_in(electorate, certificate.signers.to_set())
}

/// Whether the certificate's distinct signers reach the threshold.
pub open spec fn has_quorum_weight(
    electorate: Seq<StakeTableEntry>,
    certificate: CertificateView,
) -> bool {
    certificate_weight(electorate, certificate) >= quorum_threshold(total_weight(electorate))
}

/// The fault that a certificate without a quorum is refused with. When the
/// aggregate signature is invalid no signature counts as valid.
pub open spec fn verification_fault(
    electorate: Seq<StakeTableEntry>,
    certificate: CertificateView,
    signature_valid: bool,
) -> FaultView {
    FaultView::InsufficientValidSignatures {
        num_valid_signatures: if signature_valid {
            certificate_members(electorate, certificate) as usize
        } else {
            0
        },
        threshold: quorum_threshold(total_weight(electorate)) as u64,
    }
}

/// Handing a vote in never lowers the tallied weight, and keeps the tally
/// sound.
pub proof fn lemma_accept_monotone(tally: TallyView, vote: Vote, signature_valid: bool)
    ensures
        tally.weight() <= tally.accept(vote, signature_valid).weight(),
        tally.sound() ==> tally.accept(vote, signature_valid).sound(),
        tally.accept(vote, signature_valid).electorate == tally.electorate,
{
    let after = tally.accept(vote, signature_valid);
    assert(tally.signers.to_set().subset_of(after.signers.to_set())) by {
        assert forall|id: u64| tally.signers.contains(id) implies after.signers.contains(id) by {
            let i = tally.signers.index_of(id);
            assert(after.signers[i] == id);
        }
    }
    lemma_weight_subset(tally.electorate, tally.signers.to_set(), after.signers.to_set());
}

/// Vote idempotence: handing the same vote in a second time changes
/// nothing. The tally, and so its weight, stays as the first time left it,
/// and the replay forms no certificate.
pub proof fn law_vote_idempotent(tally: TallyView, vote: Vote, signature_valid: bool)
    ensures
        tally.accept(vote, signature_valid).accept(vote, signature_valid) == tally.accept(
            vote,
            signature_valid,
        ),
        tally.accept(vote, signature_valid).accept(vote, signature_valid).weight() == tally.accept(
            vote,
            signature_valid,
        ).weight(),
        !tally.accept(vote, signature_valid).forms_certificate(vote, signature_valid),
{
    if tally.counts(vote, signature_valid) {
        let after = tally.signers.push(vote.signer);
        assert(after[tally.signers.len() as int] == vote.signer);
        assert(after.contains(vote.signer));
    }
}

/// Threshold exactness over the life of a tally that starts below the
/// threshold: some vote of the sequence forms the certificate if and only if
/// the weight tallied in the end reaches the threshold; at most one vote does
/// so; and the certificate formed weighs at least the threshold.
pub proof fn law_certificate_iff_threshold(tally: TallyView, votes: Seq<(Vote, bool)>)
    requires
        !tally.has_quorum(),
    ensures
        tally_after(tally, votes).has_quorum() <==> exists|k: int| formed_at(tally, votes, k),
        forall|j: int, k: int|
            formed_at(tally, votes, j) && formed_at(tally, votes, k) ==> j == k,
        forall|k: int| #[trigger]
            formed_at(tally, votes, k) ==> has_quorum_weight(
                tally.electorate,
                tally_after(tally, votes.take(k + 1)).certificate(),
            ),
        tally_after(tally, votes).electorate == tally.electorate,
    decreases votes.len(),
{
    if votes.len() == 0 {
    } else {
        let earlier = votes.drop_last();
        let last = votes.len() - 1;
        law_certificate_iff_threshold(tally, earlier);
        let before = tally_after(tally, earlier);
        lemma_accept_monotone(before, votes.last().0, votes.last().1);
        assert(votes.take(last) =~= earlier);
        assert(votes.take(last + 1) =~= votes);
        assert forall|k: int| 0 <= k < last implies (formed_at(tally, votes, k) <==> formed_at(
            tally,
            earlier,
            k,
        )) && votes.take(k + 1) == earlier.take(k + 1) by {
            assert(votes.take(k) =~= earlier.take(k));
            assert(votes.take(k + 1) =~= earlier.take(k + 1));
        }
        if tally_after(tally, votes).has_quorum() {
            if before.has_quorum() {
                let k = choose|k: int| formed_at(tally, earlier, k);
                assert(formed_at(tally, votes, k));
            } else {
                assert(formed_at(tally, votes, last));
            }
        }
        assert forall|k: int| #[trigger] formed_at(tally, votes, k) implies has_quorum_weight(
            tally.electorate,
            tally_after(tally, votes.take(k + 1)).certificate(),
        ) by {
            if k < last {
                assert(formed_at(tally, earlier, k));
            }
        }
    }
}

/// Collects the votes for one target and forms its certificate.
pub struct VoteAccumulator {
    table: StakeTable,
    view: u64,
    phase: Phase,
    leaf: u64,
    signers: Vec<u64>,
    weight: u64,
}

impl View for VoteAccumulator {
    type V = TallyView;

    closed spec fn view(&self) -> TallyView {
        TallyView {
            electorate: self.table@,
            view: self.view,
            phase: self.phase,
            leaf: self.leaf,
            signers: self.signers@,
        }
    }
}

impl VoteAccumulator {
    /// The invariant of the type: the table is valid, the running weight is
    /// the weight of the signers, and the tally is sound.
    pub closed spec fn wf(&self) -> bool {
        &&& self.table.wf()
        &&& self.weight == self@.weight()
        &&& self@.sound()
    }

    /// What every well-formed accumulator satisfies.
    pub proof fn lemma_wf(&self)
        requires
            self.wf(),
        ensures
            self@.sound(),
            self@.weight() <= u64::MAX,
            self.table().wf(),
            self.table()@ == self@.electorate,
    {
    }

    /// The table that the accumulator counts by.
    pub closed spec fn table(&self) -> StakeTable {
        self.table
    }

    /// An accumulator without signers.
    pub fn new(table: StakeTable, view: u64, phase: Phase, leaf: u64) -> (tally: VoteAccumulator)
        requires
            table.wf(),
        ensures
            tally.wf(),
            tally@ == (TallyView {
                electorate: table@,
                view,
                phase,
                leaf,
                signers: Seq::empty(),
            }),
            tally@.weight() == 0,
    {
        proof {
            assert(Seq::<u64>::empty().to_set() =~= Set::<u64>::empty());
            lemma_weight_empty(table@);
        }
        VoteAccumulator { table, view, phase, leaf, signers: Vec::new(), weight: 0 }
    }

    /// Drops the signers and aims the accumulator at another target.
    pub fn restart(&mut self, view: u64, phase: Phase, leaf: u64)
        requires
            old(self).wf(),
        ensures
            final(self).wf(),
            final(self)@ == old(self)@.restarted(view, phase, leaf),
            final(self)@.weight() == 0,
    {
        proof {
            assert(Seq::<u64>::empty().to_set() =~= Set::<u64>::empty());
            lemma_weight_empty(self.table@);
        }
        self.view = view;
        self.phase = phase;
        self.leaf = leaf;
        self.signers = Vec::new();
        self.weight = 0;
    }

    /// The electorate.
    pub fn stake_table(&self) -> (table: &StakeTable)
        requires
            self.wf(),
        ensures
            table@ == self@.electorate,
            table.wf(),
    {
        &self.table
    }

    /// The weight tallied so far.
    pub fn weight(&self) -> (w: u64)
        requires
            self.wf(),
        ensures
            w == self@.weight(),
    {
        self.weight
    }

    /// Whether the weight tallied reaches the threshold.
    pub fn has_quorum(&self) -> (b: bool)
        requires
            self.wf(),
        ensures
            b == self@.has_quorum(),
    {
        self.weight >= self.table.threshold()
    }

    /// The certificate over the signers counted so far, once they reach the
    /// threshold.
    pub fn certificate(&self) -> (certificate: Option<QuorumCertificate>)
        requires
            self.wf(),
        ensures
            certificate is Some <==> self@.has_quorum(),
            certificate matches Some(c) ==> c@ == self@.certificate(),
    {
        if self.has_quorum() {
            Some(
                QuorumCertificate {
                    view: self.view,
                    phase: self.phase,
                    leaf: self.leaf,
                    signers: copy_identities(&self.signers),
                    weight: self.weight,
                },
            )
        } else {
            None
        }
    }

    /// Hands a vote in, with the outcome of its signature check.
    ///
    /// A vote that does not count (invalid signature, another target, a
    /// stranger, a signer already counted) leaves the tally as it was. The
    /// certificate is returned by the one vote that carries the weight from
    /// below the threshold to it or beyond. Afterwards the same vote no
    /// longer counts: handing it in again changes nothing.
    pub fn accept_vote(&mut self, vote: &Vote, signature_valid: bool) -> (formed: Option<
        QuorumCertificate,
    >)
        requires
            old(self).wf(),
        ensures
            final(self).wf(),
            final(self)@ == old(self)@.accept(*vote, signature_valid),
            formed is Some <==> old(self)@.forms_certificate(*vote, signature_valid),
            formed matches Some(c) ==> c@ == final(self)@.certificate(),
            !final(self)@.counts(*vote, signature_valid),
    {
        if !signature_valid || vote.view != self.view || vote.phase != self.phase || vote.leaf
            != self.leaf {
            return None;
        }
        if !self.table.contains(vote.signer) {
            return None;
        }
        if holds_identity(&self.signers, vote.signer) {
            return None;
        }
        let stake = self.table.stake(vote.signer);
        let threshold = self.table.threshold();
        let before = self.weight;
        proof {
            let grown = self.signers@.push(vote.signer);
            lemma_weight_insert(self.table@, self.signers@.to_set(), vote.signer);
            self.signers@.lemma_push_to_set_commute(vote.signer);
            lemma_weight_le_total(self.table@, grown.to_set());
            self.table.lemma_wf();
            assert(grown[self.signers@.len() as int] == vote.signer);
            assert(grown.no_duplicates());
            assert forall|i: int| 0 <= i < grown.len() implies is_member(
                self.table@,
                #[trigger] grown[i],
            ) by {
                if i < self.signers@.len() {
                    assert(grown[i] == self.signers@[i]);
                }
            }
        }
        self.signers.push(vote.signer);
        self.weight = before + stake;
        if before < threshold && self.weight >= threshold {
            Some(
                QuorumCertificate {
                    view: self.view,
                    phase: self.phase,
                    leaf: self.leaf,
                    signers: copy_identities(&self.signers),
                    weight: self.weight,
                },
            )
        } else {
            None
        }
    }
}

/// The vote that a signer of the certificate has cast.
pub open spec fn endorsement(certificate: CertificateView, signer: u64) -> Vote {
    Vote { view: certificate.view, phase: certificate.phase, leaf: certificate.leaf, signer }
}

/// `found` is the position of the first vote of the list that equals
/// `vote`, or none if no vote of the list does.
pub open spec fn first_at(votes: Seq<Vote>, vote: Vote, found: Option<usize>) -> bool {
    match found {
        Some(i) => i < votes.len() && votes[i as int] == vote && forall|j: int|
            0 <= j < i ==> votes[j] != vote,
        None => forall|j: int| 0 <= j < votes.len() ==> votes[j] != vote,
    }
}

/// The position of the first vote of the list that equals `vote`.
pub fn find_vote(votes: &Vec<Vote>, vote: &Vote) -> (found: Option<usize>)
    ensures
        first_at(votes@, *vote, found),
{
    let n = votes.len();
    let mut i: usize = 0;
    while i < n
        invariant
            n == votes.len(),
            i <= n,
            forall|j: int| 0 <= j < i ==> votes@[j] != *vote,
        decreases n - i,
    {
        if votes[i] == *vote {
            return Some(i);
        }
        i += 1;
    }
    None
}

/// Picks, for each signer of a certificate and in their order, the vote
/// among those received that the signer cast for what the certificate
/// certifies: the position of the first such vote, or none. The signatures
/// that go into the aggregate are those of the votes picked.
pub fn endorsements(votes: &Vec<Vote>, certificate: &QuorumCertificate) -> (picked: Vec<
    Option<usize>,
>)
    ensures
        picked@.len() == certificate@.signers.len(),
        forall|k: int|
            0 <= k < picked@.len() ==> first_at(
                votes@,
                endorsement(certificate@, certificate@.signers[k]),
                #[trigger] picked@[k],
            ),
{
    let n = certificate.signers.len();
    let mut picked: Vec<Option<usize>> = Vec::new();
    let mut k: usize = 0;
    while k < n
        invariant
            n == certificate.signers.len(),
            k <= n,
            picked@.len() == k,
            forall|j: int|
                0 <= j < k ==> first_at(
                    votes@,
                    endorsement(certificate@, certificate@.signers[j]),
                    #[trigger] picked@[j],
                ),
        decreases n - k,
    {
        let vote = Vote {
            view: certificate.view,
            phase: certificate.phase,
            leaf: certificate.leaf,
            signer: certificate.signers[k],
        };
        let found = find_vote(votes, &vote);
        picked.push(found);
        k += 1;
    }
    picked
}

/// Recomputes the weight and the number of members among the distinct
/// identities of a list.
pub fn tally_signers(signers: &Vec<u64>, table: &StakeTable) -> (sums: (u64, usize))
    requires
        table.wf(),
    ensures
        sums.0 == weight_in(table@, signers@.to_set()),
        sums.1 == members_in(table@, signers@.to_set()),
{
    let n = signers.len();
    let mut weight: u64 = 0;
    let mut members: usize = 0;
    let mut i: usize = 0;
    proof {
        assert(signers@.take(0).to_set() =~= Set::<u64>::empty());
        lemma_weight_empty(table@);
    }
    while i < n
        invariant
            n == signers.len(),
            i <= n,
            table.wf(),
            weight == weight_in(table@, signers@.take(i as int).to_set()),
            members == members_in(table@, signers@.take(i as int).to_set()),
        decreases n - i,
    {
        let identity = signers[i];
        let mut seen = false;
        let mut j: usize = 0;
        while j < i
            invariant
                j <= i,
                i < n,
                n == signers.len(),
                identity == signers@[i as int],
                seen <==> exists|a: int| 0 <= a < j && signers@[a] == identity,
            decreases i - j,
        {
            if signers[j] == identity {
                seen = true;
            }
            j += 1;
        }
        proof {
            let prefix = signers@.take(i as int);
            assert(prefix.push(identity) =~= signers@.take(i as int + 1));
            prefix.lemma_push_to_set_commute(identity);
            assert(seen <==> prefix.contains(identity)) by {
                if seen {
                    let a = choose|a: int| 0 <= a < i && signers@[a] == identity;
                    assert(prefix[a] == identity);
                }
                if prefix.contains(identity) {
                    let a = prefix.index_of(identity);
                    assert(signers@[a] == identity);
                }
            }
            if seen {
                assert(prefix.to_set().insert(identity) =~= prefix.to_set());
            } else {
                lemma_weight_insert(table@, prefix.to_set(), identity);
                lemma_weight_le_total(table@, prefix.to_set().insert(identity));
                table.lemma_wf();
                if is_member(table@, identity) {
                    let e = choose|e: int| 0 <= e < table@.len() && #[trigger] table@[e].identity == identity;
                    lemma_stake_of_entry(table@, e);
                } else {
                    lemma_stranger_has_no_stake(table@, identity);
                }
            }
        }
        if !seen {
            if table.contains(identity) {
                weight = weight + table.stake(identity);
                members = members + 1;
            }
        }
        i += 1;
    }
    proof {
        assert(signers@.take(n as int) =~= signers@);
    }
    (weight, members)
}

/// Verifies a certificate received from another node.
///
/// The weight that the certificate claims is ignored: the weights of its
/// distinct signers are summed anew against the table. The certificate
/// passes exactly when its aggregate signature was valid and that sum reaches
/// the threshold.
pub fn verify_certificate(
    certificate: &QuorumCertificate,
    table: &StakeTable,
    signature_valid: bool,
) -> (verdict: Result<(), HotShotError>)
    requires
        table.wf(),
    ensures
        verdict is Ok <==> signature_valid && has_quorum_weight(table@, certificate@),
        verdict matches Err(fault) ==> fault@ == verification_fault(
            table@,
            certificate@,
            signature_valid,
        ),
{
    let threshold = table.threshold();
    if !signature_valid {
        return Err(HotShotError::InsufficientValidSignatures { num_valid_signatures: 0, threshold });
    }
    let (weight, members) = tally_signers(&certificate.signers, table);
    if weight >= threshold {
        Ok(())
    } else {
        Err(HotShotError::InsufficientValidSignatures { num_valid_signatures: members, threshold })
    }
}

} // verus!
