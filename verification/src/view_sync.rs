//! The view synchronizer: timers, NewView votes and the advance to the next
//! view.
//!
//! While a view is active its deadline is armed. When the deadline expires
//! the node gives the view up and casts a NewView vote that carries the
//! highest certificate it has seen. NewView votes for the current view or a
//! later one are tallied by distinct signer; once their weight reaches the
//! threshold the synchronizer advances to the next view and hands the highest
//! certificate collected to the leader of that view.

use crate::certificate::{has_quorum_weight, verify_certificate, TallyView, VoteAccumulator};
use crate::data::{genesis_certificate, CertificateView, Phase, QuorumCertificate, Vote};
use crate::election::{elected, leader_for};
use crate::error::{FaultView, HotShotError};
use crate::round::{
    law_timeout_abandons, InputView, OutcomeView, Progress, Rejection, RoundState, RoundView,
};
use crate::stake_table::{
    is_member, lemma_weight_empty, lemma_weight_le_total, lemma_weight_subset, quorum_threshold,
    total_weight, weight_in, StakeTable, StakeTableEntry,
};
use vstd::prelude::*;

verus! {

/// A node's statement that it has given up a view.
#[derive(Clone, Debug, PartialEq, Eq)]
pub struct NewViewVote {
    /// The view given up.
    pub view: u64,
    pub signer: u64,
    /// The highest certificate that the signer has seen.
    pub high_qc: QuorumCertificate,
}

/// The mathematical value of a [`NewViewVote`].
pub struct NewViewVoteView {
    pub view: u64,
    pub signer: u64,
    pub high_qc: CertificateView,
}

impl View for NewViewVote {
    type V = NewViewVoteView;

    open spec fn view(&self) -> NewViewVoteView {
        NewViewVoteView { view: self.view, signer: self.signer, high_qc: self.high_qc@ }
    }
}

/// A NewView vote with the outcome of the two signature checks made on it:
/// that of the vote, and that of the certificate it carries.
#[derive(Clone, Debug, PartialEq, Eq)]
pub struct CheckedNewView {
    pub vote: NewViewVote,
    pub signature_valid: bool,
    pub certificate_valid: bool,
}

/// The mathematical value of a [`CheckedNewView`].
pub struct CheckedNewViewView {
    pub vote: NewViewVoteView,
    pub signature_valid: bool,
    pub certificate_valid: bool,
}

impl View for CheckedNewView {
    type V = CheckedNewViewView;

    open spec fn view(&self) -> CheckedNewViewView {
        CheckedNewViewView {
            vote: self.vote@,
            signature_valid: self.signature_valid,
            certificate_valid: self.certificate_valid,
        }
    }
}

/// The values of a list of checked votes.
pub open spec fn checked_views(votes: Seq<CheckedNewView>) -> Seq<CheckedNewViewView> {
    Seq::new(votes.len(), |k: int| votes[k]@)
}

/// The order to move to a view.
#[derive(Clone, Debug, PartialEq, Eq)]
pub struct AdvanceTo {
    /// The view to enter.
    pub view: u64,
    /// The highest certificate collected, for the leader of that view.
    pub high_qc: QuorumCertificate,
    /// The leader of that view.
    pub leader: Option<u64>,
}

/// The mathematical value of an [`AdvanceTo`].
pub struct AdvanceToView {
    pub view: u64,
    pub high_qc: CertificateView,
    pub leader: Option<u64>,
}

impl View for AdvanceTo {
    type V = AdvanceToView;

    open spec fn view(&self) -> AdvanceToView {
        AdvanceToView { view: self.view, high_qc: self.high_qc@, leader: self.leader }
    }
}

/// Where the synchronizer stands.
#[derive(Clone, Copy, Debug, PartialEq, Eq, Structural)]
pub enum SyncState {
    /// The view runs and its deadline is armed.
    Active { view: u64, deadline: u64 },
    /// The view was given up; NewView votes are awaited.
    CollectingNewView { view: u64 },
    /// The node is to enter `view`; no deadline is armed.
    Advanced { view: u64 },
}

impl SyncState {
    pub open spec fn spec_view(self) -> u64 {
        match self {
            SyncState::Active { view, .. } => view,
            SyncState::CollectingNewView { view } => view,
            SyncState::Advanced { view } => view,
        }
    }

    /// The view that the state speaks of.
    #[verifier::when_used_as_spec(spec_view)]
    pub fn view(self) -> (view: u64)
        ensures
            view == self.spec_view(),
    {
        match self {
            SyncState::Active { view, .. } => view,
            SyncState::CollectingNewView { view } => view,
            SyncState::Advanced { view } => view,
        }
    }
}

/// The mathematical value of a [`ViewSynchronizer`].
pub struct SyncView {
    pub identity: u64,
    /// Commitment of the root of the chain.
    pub genesis: u64,
    pub state: SyncState,
    /// How long a view may last, in the caller's unit of time.
    pub timeout: u64,
    /// How long a view must have lasted before its leader proposes.
    pub min_round_time: u64,
    /// When the view that runs was started.
    pub started: u64,
    /// The highest certificate seen or collected.
    pub high_qc: CertificateView,
    pub electorate: Seq<StakeTableEntry>,
    /// The signers of the NewView votes counted for the current view.
    pub signers: Seq<u64>,
    /// The number of views given up since the last decision.
    pub timeouts: u32,
}

impl SyncView {
    /// A synchronizer that is to enter view one.
    pub open spec fn initial(
        identity: u64,
        electorate: Seq<StakeTableEntry>,
        genesis: u64,
        timeout: u64,
        min_round_time: u64,
    ) -> SyncView {
        SyncView {
            identity,
            genesis,
            state: SyncState::Advanced { view: 1 },
            timeout,
            min_round_time,
            started: 0,
            high_qc: genesis_certificate(genesis),
            electorate,
            signers: Seq::empty(),
            timeouts: 0,
        }
    }

    /// The weight of the NewView votes counted.
    pub open spec fn weight(self) -> nat {
        weight_in(self.electorate, self.signers.to_set())
    }

    pub open spec fn threshold(self) -> nat {
        quorum_threshold(total_weight(self.electorate))
    }

    /// Compare and replace on the highest certificate.
    pub open spec fn higher(self, certificate: CertificateView) -> CertificateView {
        if certificate.view > self.high_qc.view {
            certificate
        } else {
            self.high_qc
        }
    }

    /// The least view that may be started: the one advanced to, or the one
    /// after the view that runs or was given up.
    pub open spec fn startable(self, view: u64) -> bool {
        match self.state {
            SyncState::Advanced { view: target } => view >= target,
            _ => view > self.state.spec_view(),
        }
    }

    /// The deadline of a view started at `now`.
    pub open spec fn deadline_from(self, now: u64) -> u64 {
        if now + self.timeout > u64::MAX {
            u64::MAX
        } else {
            (now + self.timeout) as u64
        }
    }

    /// Starting `view` at time `now`: the deadline is armed and the tally of
    /// NewView votes is emptied. Refused for a view that is not startable.
    pub open spec fn start(self, view: u64, now: u64) -> (SyncView, Result<(), FaultView>) {
        if self.startable(view) {
            (
                SyncView {
                    state: SyncState::Active { view, deadline: self.deadline_from(now) },
                    started: now,
                    signers: Seq::empty(),
                    ..self
                },
                Ok(()),
            )
        } else {
            (self, Err(Rejection::NotAdvancing.fault_view()))
        }
    }

    /// Whether the armed deadline has passed at time `now`.
    pub open spec fn expired(self, now: u64) -> bool {
        self.state matches SyncState::Active { deadline, .. } && now >= deadline
    }

    /// Whether the view that runs has lasted the minimum round time at time
    /// `now`, so that its leader may propose.
    pub open spec fn proposal_due(self, now: u64) -> bool {
        self.state is Active && now >= self.started && now - self.started >= self.min_round_time
    }

    /// The count of views given up, one more and saturating.
    pub open spec fn next_timeouts(self) -> u32 {
        if self.timeouts == u32::MAX {
            u32::MAX
        } else {
            (self.timeouts + 1) as u32
        }
    }

    /// The active view `view` times out: NewView votes are awaited from now
    /// on, and the node's own vote carries the higher of the certificate it
    /// brings and the one the synchronizer holds. A timeout for any other
    /// view is stale and refused.
    pub open spec fn time_out(self, view: u64, seen: CertificateView) -> (
        SyncView,
        Result<NewViewVoteView, FaultView>,
    ) {
        if self.state is Active && self.state.spec_view() == view {
            (
                SyncView {
                    state: SyncState::CollectingNewView { view },
                    high_qc: self.higher(seen),
                    timeouts: self.next_timeouts(),
                    ..self
                },
                Ok(NewViewVoteView { view, signer: self.identity, high_qc: self.higher(seen) }),
            )
        } else {
            (self, Err(Rejection::StaleTimeout.fault_view()))
        }
    }

    /// Whether a certificate carried by a NewView vote is to be believed: a
    /// Prepare certificate that names the root if it is of view zero, and
    /// that passes verification otherwise.
    pub open spec fn believes(self, certificate: CertificateView, certificate_valid: bool) -> bool {
        &&& certificate.phase == Phase::Prepare
        &&& if certificate.view == 0 {
            certificate.leaf == self.genesis
        } else {
            certificate_valid && has_quorum_weight(self.electorate, certificate)
        }
    }

    /// Whether a NewView vote is taken in: the synchronizer has not
    /// advanced, both signatures were valid, and the vote is for the
    /// current view or a later one.
    pub open spec fn acceptable(self, checked: CheckedNewViewView) -> bool {
        &&& !(self.state is Advanced)
        &&& checked.signature_valid
        &&& checked.vote.view >= self.state.spec_view()
        &&& self.believes(checked.vote.high_qc, checked.certificate_valid)
    }

    /// Whether a NewView vote adds a signer to the tally.
    pub open spec fn counts(self, checked: CheckedNewViewView) -> bool {
        &&& self.acceptable(checked)
        &&& is_member(self.electorate, checked.vote.signer)
        &&& !self.signers.contains(checked.vote.signer)
    }

    /// The signers after the vote.
    pub open spec fn signers_after(self, checked: CheckedNewViewView) -> Seq<u64> {
        if self.counts(checked) {
            self.signers.push(checked.vote.signer)
        } else {
            self.signers
        }
    }

    /// Whether the vote makes the synchronizer advance: it is taken in, the
    /// weight counted with it reaches the threshold, and a next view exists.
    pub open spec fn advances(self, checked: CheckedNewViewView) -> bool {
        &&& self.acceptable(checked)
        &&& weight_in(self.electorate, self.signers_after(checked).to_set()) >= self.threshold()
        &&& self.state.spec_view() < u64::MAX
    }

    /// The synchronizer after a NewView vote. A vote that is not taken in
    /// changes nothing.
    pub open spec fn collect(self, checked: CheckedNewViewView) -> SyncView {
        if !self.acceptable(checked) {
            self
        } else {
            SyncView {
                state: if self.advances(checked) {
                    SyncState::Advanced { view: (self.state.spec_view() + 1) as u64 }
                } else {
                    self.state
                },
                high_qc: self.higher(checked.vote.high_qc),
                signers: self.signers_after(checked),
                ..self
            }
        }
    }

    /// The synchronizer after a sequence of NewView votes.
    pub open spec fn collect_all(self, votes: Seq<CheckedNewViewView>) -> SyncView
        decreases votes.len(),
    {
        if votes.len() == 0 {
            self
        } else {
            self.collect_all(votes.drop_last()).collect(votes.last())
        }
    }

    /// The order that an advanced synchronizer gives.
    pub open spec fn advance(self) -> AdvanceToView {
        AdvanceToView {
            view: self.state.spec_view(),
            high_qc: self.high_qc,
            leader: elected(self.electorate, self.state.spec_view()),
        }
    }

    /// The members whose acceptable NewView votes occur in the sequence.
    pub open spec fn observed(self, votes: Seq<CheckedNewViewView>) -> Set<u64> {
        Set::new(
            |id: u64|
                exists|k: int|
                    0 <= k < votes.len() && self.acceptable(#[trigger] votes[k]) && votes[k].vote.signer
                        == id && is_member(self.electorate, id),
        )
    }
}

/// Until the synchronizer advances, the signers counted are those it began
/// with and the members observed in the votes, and either their weight is
/// below the threshold or no vote was acceptable; the rest of the state
/// stays.
proof fn lemma_collect_all(s: SyncView, votes: Seq<CheckedNewViewView>)
    requires
        !(s.state is Advanced),
        s.state.spec_view() < u64::MAX,
    ensures
        ({
            let r = s.collect_all(votes);
            ||| r.state == (SyncState::Advanced { view: (s.state.spec_view() + 1) as u64 })
            ||| {
                &&& r.state == s.state
                &&& r.signers.to_set() =~= s.signers.to_set().union(s.observed(votes))
                &&& (r.weight() < s.threshold() || s.observed(votes) =~= Set::<u64>::empty())
            }
        }),
        s.collect_all(votes).electorate == s.electorate,
        s.collect_all(votes).genesis == s.genesis,
    decreases votes.len(),
{
    if votes.len() == 0 {
        assert(s.observed(votes) =~= Set::<u64>::empty());
        assert(s.signers.to_set().union(s.observed(votes)) =~= s.signers.to_set());
    } else {
        let earlier = votes.drop_last();
        let last = votes.last();
        lemma_collect_all(s, earlier);
        let before = s.collect_all(earlier);
        let after = before.collect(last);
        if before.state is Advanced {
        } else {
            assert(before.acceptable(last) == s.acceptable(last));
            assert forall|id: u64| s.observed(votes).contains(id) <==> (s.observed(
                earlier,
            ).contains(id) || (s.acceptable(last) && last.vote.signer == id && is_member(
                s.electorate,
                id,
            ))) by {
                if s.observed(votes).contains(id) {
                    let k = choose|k: int|
                        0 <= k < votes.len() && s.acceptable(#[trigger] votes[k])
                            && votes[k].vote.signer == id && is_member(s.electorate, id);
                    if k < votes.len() - 1 {
                        assert(earlier[k] == votes[k]);
                    }
                }
                if s.observed(earlier).contains(id) {
                    let k = choose|k: int|
                        0 <= k < earlier.len() && s.acceptable(#[trigger] earlier[k])
                            && earlier[k].vote.signer == id && is_member(s.electorate, id);
                    assert(votes[k] == earlier[k]);
                }
                if s.acceptable(last) && last.vote.signer == id && is_member(s.electorate, id) {
                    assert(votes[votes.len() - 1] == last);
                }
            }
            if before.counts(last) {
                before.signers.lemma_push_to_set_commute(last.vote.signer);
            }
            assert(after.signers.to_set() =~= s.signers.to_set().union(s.observed(votes)));
            if !s.acceptable(last) {
                assert(s.observed(votes) =~= s.observed(earlier));
            }
        }
    }
}

/// Keeps the deadline of the current view, collects NewView votes, and
/// advances the node to the next view.
pub struct ViewSynchronizer {
    identity: u64,
    genesis: u64,
    state: SyncState,
    timeout: u64,
    min_round_time: u64,
    started: u64,
    high_qc: QuorumCertificate,
    tally: VoteAccumulator,
    timeouts: u32,
}

impl View for ViewSynchronizer {
    type V = SyncView;

    closed spec fn view(&self) -> SyncView {
        SyncView {
            identity: self.identity,
            genesis: self.genesis,
            state: self.state,
            timeout: self.timeout,
            min_round_time: self.min_round_time,
            started: self.started,
            high_qc: self.high_qc@,
            electorate: self.tally@.electorate,
            signers: self.tally@.signers,
            timeouts: self.timeouts,
        }
    }
}

impl ViewSynchronizer {
    /// The invariant of the type.
    pub closed spec fn wf(&self) -> bool {
        &&& self.tally.wf()
        &&& self.tally@.view == 0
        &&& self.tally@.phase == Phase::Decide
        &&& self.tally@.leaf == 0
    }

    /// A synchronizer for the node `identity` that is to enter view one.
    /// A view may last `timeout` and must last `min_round_time` before its
    /// leader proposes.
    pub fn new(
        identity: u64,
        table: StakeTable,
        genesis: u64,
        timeout: u64,
        min_round_time: u64,
    ) -> (sync: ViewSynchronizer)
        requires
            table.wf(),
        ensures
            sync.wf(),
            sync@ == SyncView::initial(identity, table@, genesis, timeout, min_round_time),
    {
        ViewSynchronizer {
            identity,
            genesis,
            state: SyncState::Advanced { view: 1 },
            timeout,
            min_round_time,
            started: 0,
            high_qc: QuorumCertificate::genesis(genesis),
            tally: VoteAccumulator::new(table, 0, Phase::Decide, 0),
            timeouts: 0,
        }
    }

    /// Where the synchronizer stands.
    pub fn state(&self) -> (state: SyncState)
        ensures
            state == self@.state,
    {
        self.state
    }

    /// The highest certificate seen or collected.
    pub fn high_qc(&self) -> (certificate: &QuorumCertificate)
        ensures
            certificate@ == self@.high_qc,
    {
        &self.high_qc
    }

    /// The weight of the NewView votes counted for the current view.
    pub fn weight(&self) -> (weight: u64)
        requires
            self.wf(),
        ensures
            weight == self@.weight(),
    {
        self.tally.weight()
    }

    /// Whether at least `limit` views in a row were given up since the last
    /// decision: the chain is not progressing.
    pub fn stalled(&self, limit: u32) -> (stalled: bool)
        ensures
            stalled == (self@.timeouts >= limit),
    {
        self.timeouts >= limit
    }

    /// Records that a view was decided: the count of views given up in a row
    /// starts anew.
    pub fn on_decided(&mut self)
        requires
            old(self).wf(),
        ensures
            final(self).wf(),
            final(self)@ == (SyncView { timeouts: 0, ..old(self)@ }),
    {
        self.timeouts = 0;
    }

    /// Starts `view` at time `now` and arms its deadline.
    pub fn start_view(&mut self, view: u64, now: u64) -> (started: Result<(), HotShotError>)
        requires
            old(self).wf(),
        ensures
            final(self).wf(),
            final(self)@ == old(self)@.start(view, now).0,
            match started {
                Ok(_) => old(self)@.start(view, now).1 is Ok,
                Err(fault) => old(self)@.start(view, now).1 == Err::<(), FaultView>(fault@),
            },
    {
        let startable = match self.state {
            SyncState::Advanced { view: target } => view >= target,
            SyncState::Active { view: current, .. } => view > current,
            SyncState::CollectingNewView { view: current } => view > current,
        };
        if !startable {
            return Err(Rejection::NotAdvancing.fault());
        }
        let deadline = match now.checked_add(self.timeout) {
            Some(deadline) => deadline,
            None => u64::MAX,
        };
        self.state = SyncState::Active { view, deadline };
        self.started = now;
        self.tally.restart(0, Phase::Decide, 0);
        Ok(())
    }

    /// Whether the view that runs has lasted the minimum round time at time
    /// `now`.
    pub fn proposal_due(&self, now: u64) -> (due: bool)
        ensures
            due == self@.proposal_due(now),
    {
        match self.state {
            SyncState::Active { .. } => now >= self.started && now - self.started
                >= self.min_round_time,
            _ => false,
        }
    }

    /// Whether the armed deadline has passed at time `now`.
    pub fn expired(&self, now: u64) -> (expired: bool)
        ensures
            expired == self@.expired(now),
    {
        match self.state {
            SyncState::Active { deadline, .. } => now >= deadline,
            _ => false,
        }
    }

    /// Replaces the highest certificate if `certificate` is of a higher view.
    fn raise_high_qc(&mut self, certificate: &QuorumCertificate)
        requires
            old(self).wf(),
        ensures
            final(self).wf(),
            final(self)@ == (SyncView { high_qc: old(self)@.higher(certificate@), ..old(self)@ }),
    {
        if certificate.view > self.high_qc.view {
            self.high_qc = certificate.duplicate();
        }
    }

    /// The deadline of the active view `view` has expired: returns the
    /// NewView vote to broadcast, which carries the higher of `seen` and the
    /// certificate held. A timeout for any other view is refused.
    pub fn on_timeout(&mut self, view: u64, seen: &QuorumCertificate) -> (vote: Result<
        NewViewVote,
        HotShotError,
    >)
        requires
            old(self).wf(),
        ensures
            final(self).wf(),
            final(self)@ == old(self)@.time_out(view, seen@).0,
            match vote {
                Ok(v) => old(self)@.time_out(view, seen@).1 == Ok::<NewViewVoteView, FaultView>(v@),
                Err(fault) => old(self)@.time_out(view, seen@).1 == Err::<
                    NewViewVoteView,
                    FaultView,
                >(fault@),
            },
    {
        match self.state {
            SyncState::Active { view: current, .. } => {
                if current != view {
                    return Err(Rejection::StaleTimeout.fault());
                }
            },
            _ => {
                return Err(Rejection::StaleTimeout.fault());
            },
        }
        self.raise_high_qc(seen);
        self.state = SyncState::CollectingNewView { view };
        if self.timeouts < u32::MAX {
            self.timeouts = self.timeouts + 1;
        }
        Ok(NewViewVote { view, signer: self.identity, high_qc: self.high_qc.duplicate() })
    }

    /// Whether the certificate carried by a NewView vote is to be believed.
    fn check_carried(&self, certificate: &QuorumCertificate, certificate_valid: bool) -> (believed:
        bool)
        requires
            self.wf(),
        ensures
            believed == self@.believes(certificate@, certificate_valid),
    {
        if certificate.phase != Phase::Prepare {
            false
        } else if certificate.view == 0 {
            certificate.leaf == self.genesis
        } else {
            verify_certificate(certificate, self.tally.stake_table(), certificate_valid).is_ok()
        }
    }

    /// Takes a NewView vote in. Returns the order to advance when this vote
    /// carries the weight counted to the threshold.
    pub fn on_new_view_vote(&mut self, checked: &CheckedNewView) -> (advance: Option<AdvanceTo>)
        requires
            old(self).wf(),
        ensures
            final(self).wf(),
            final(self)@ == old(self)@.collect(checked@),
            advance is Some <==> old(self)@.advances(checked@),
            advance matches Some(order) ==> order@ == final(self)@.advance(),
    {
        let view = match self.state {
            SyncState::Advanced { .. } => {
                return None;
            },
            SyncState::Active { view, .. } => view,
            SyncState::CollectingNewView { view } => view,
        };
        if !checked.signature_valid || checked.vote.view < view {
            return None;
        }
        if !self.check_carried(&checked.vote.high_qc, checked.certificate_valid) {
            return None;
        }
        self.raise_high_qc(&checked.vote.high_qc);
        let counted = Vote { view: 0, phase: Phase::Decide, leaf: 0, signer: checked.vote.signer };
        let _ = self.tally.accept_vote(&counted, true);
        if self.tally.has_quorum() && view < u64::MAX {
            let next = view + 1;
            self.state = SyncState::Advanced { view: next };
            Some(
                AdvanceTo {
                    view: next,
                    high_qc: self.high_qc.duplicate(),
                    leader: leader_for(next, self.tally.stake_table()),
                },
            )
        } else {
            None
        }
    }

    /// Takes a batch of NewView votes in, in order. Returns the order to
    /// advance when the batch makes the synchronizer advance.
    pub fn on_quorum_new_view(&mut self, votes: &Vec<CheckedNewView>) -> (advance: Option<
        AdvanceTo,
    >)
        requires
            old(self).wf(),
        ensures
            final(self).wf(),
            final(self)@ == old(self)@.collect_all(checked_views(votes@)),
            advance is Some <==> !(old(self)@.state is Advanced) && final(self)@.state is Advanced,
            advance matches Some(order) ==> order@ == final(self)@.advance(),
    {
        let n = votes.len();
        let ghost start = self@;
        let ghost all = checked_views(votes@);
        let mut advance: Option<AdvanceTo> = None;
        let mut i: usize = 0;
        proof {
            assert(all.take(0) =~= Seq::<CheckedNewViewView>::empty());
        }
        while i < n
            invariant
                n == votes.len(),
                i <= n,
                all == checked_views(votes@),
                self.wf(),
                self@ == start.collect_all(all.take(i as int)),
                start.state is Advanced ==> self@.state is Advanced,
                advance is Some <==> !(start.state is Advanced) && self@.state is Advanced,
                advance matches Some(order) ==> order@ == self@.advance(),
            decreases n - i,
        {
            proof {
                assert(all.take(i as int + 1).drop_last() =~= all.take(i as int));
                assert(all.take(i as int + 1).last() == votes@[i as int]@);
            }
            let step = self.on_new_view_vote(&votes[i]);
            match step {
                Some(order) => {
                    advance = Some(order);
                },
                None => {},
            }
            i += 1;
        }
        proof {
            assert(all.take(n as int) =~= all);
        }
        advance
    }
}

/// Once NewView votes of threshold weight are observed, the node advances:
/// a synchronizer that has not advanced from view `v`, fed a sequence of
/// votes whose observed members weigh at least the threshold, ends up
/// advanced to `v + 1`, and the order it gives names the leader that the
/// election draws for `v + 1`.
pub proof fn law_quorum_of_new_views_advances(s: SyncView, votes: Seq<CheckedNewViewView>)
    requires
        !(s.state is Advanced),
        s.state.spec_view() < u64::MAX,
        weight_in(s.electorate, s.observed(votes)) >= s.threshold(),
    ensures
        s.collect_all(votes).state == (SyncState::Advanced {
            view: (s.state.spec_view() + 1) as u64,
        }),
        s.collect_all(votes).advance().view == s.state.spec_view() + 1,
        s.collect_all(votes).advance().leader == elected(
            s.electorate,
            (s.state.spec_view() + 1) as u64,
        ),
{
    lemma_collect_all(s, votes);
    let r = s.collect_all(votes);
    if r.state == s.state {
        lemma_weight_subset(s.electorate, s.observed(votes), r.signers.to_set());
        lemma_weight_empty(s.electorate);
    }
}

/// Liveness under leader failure. A node waits in view `v` and its
/// synchronizer has that view active. When the deadline expires without the
/// awaited message, the round is abandoned with a timeout fault that names
/// the view and the state, and the synchronizer issues the node's NewView
/// vote for `v`, which carries the highest certificate seen. Once the
/// NewView votes observed weigh at least the threshold, the synchronizer is
/// advanced to `v + 1`; the election draws a leader for that view, and the
/// round enters it under that leader.
pub proof fn law_leader_failure_recovers(
    round: RoundView,
    state: RoundState,
    sync: SyncView,
    votes: Seq<CheckedNewViewView>,
)
    requires
        round.progress == Progress::Waiting(state),
        sync.state is Active,
        sync.state.spec_view() == round.view,
        sync.identity == round.identity,
        sync.electorate == round.electorate(),
        round.view < u64::MAX,
        weight_in(
            sync.electorate,
            sync.time_out(round.view, round.high_qc).0.observed(votes),
        ) >= sync.threshold(),
    ensures
        round.step(InputView::Timeout).0.progress == Progress::Abandoned,
        round.step(InputView::Timeout).1.outcome == OutcomeView::Faulted(
            FaultView::ViewTimeoutError {
                view_number: round.view,
                state: state.spec_timed_out(),
            },
        ),
        sync.time_out(round.view, round.high_qc).1 == Ok::<NewViewVoteView, FaultView>(
            NewViewVoteView {
                view: round.view,
                signer: round.identity,
                high_qc: sync.higher(round.high_qc),
            },
        ),
        ({
            let collecting = sync.time_out(round.view, round.high_qc).0;
            let advanced = collecting.collect_all(votes);
            let next = (round.view + 1) as u64;
            let abandoned = round.step(InputView::Timeout).0;
            &&& collecting.state == (SyncState::CollectingNewView { view: round.view })
            &&& advanced.state == (SyncState::Advanced { view: next })
            &&& advanced.advance().view == next
            &&& advanced.advance().leader == elected(round.electorate(), next)
            &&& advanced.advance().leader is Some
            &&& abandoned.enter(next).1 is Ok
            &&& abandoned.enter(next).0.view == next
            &&& abandoned.enter(next).0.leader == advanced.advance().leader
            &&& abandoned.enter(next).0.progress is Waiting
        }),
{
    law_timeout_abandons(round, state);
    let collecting = sync.time_out(round.view, round.high_qc).0;
    law_quorum_of_new_views_advances(collecting, votes);
    lemma_weight_le_total(sync.electorate, collecting.observed(votes));
}

} // verus!
