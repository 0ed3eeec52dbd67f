//! The round state machine obeys the rules that safety rests on.
//!
//! A node is modelled by the events that befall its [`RoundView`]: views
//! entered and inputs delivered. Its votes are those that the steps cast:
//! the votes that a replica sends, and the votes that a leader casts for its
//! own proposal. The environment is assumed faithful: a signature that
//! checked as valid was made by its signer, and a commitment that checked as
//! that of a leaf stands for that leaf. Nothing is assumed of the node's own
//! events, nor of the certificate that a leader is handed to build on. The
//! vote that a leader has cast may be handed back to it: that delivery is
//! faithful by itself.
//! Under that assumption the votes of a node that starts from the initial
//! state satisfy the rules of a sound [`History`], and every leaf that it
//! decides has a Commit certificate.

use crate::data::{CertificateView, LeafView, Phase, ProposalView, Vote};
use crate::error::FaultView;
use crate::round::{
    law_lock_never_falls, law_lock_outlives_views, law_refuses_below_lock, ActionView, InputView,
    OutcomeView, Progress, RoundState, RoundView,
};
use crate::safety::{theorem_committed_leaves_agree, History, LeafHeader};
use vstd::prelude::*;

verus! {

/// What can befall a round.
pub enum Event {
    /// The node enters a view.
    Enter(u64),
    /// The node is driven with an input.
    Deliver(InputView),
}

/// The round after the event.
pub open spec fn after(r: RoundView, event: Event) -> RoundView {
    match event {
        Event::Enter(view) => r.enter(view).0,
        Event::Deliver(input) => r.step(input).0,
    }
}

/// The vote that the event makes the node cast, if any: the vote that a
/// replica sends, or the leader's own.
pub open spec fn cast(r: RoundView, event: Event) -> Option<Vote> {
    match event {
        Event::Enter(_) => None,
        Event::Deliver(input) => r.vote_of(r.step(input).1),
    }
}

/// The leaf that the event makes the node decide, if any.
pub open spec fn decided(r: RoundView, event: Event) -> Option<LeafView> {
    match event {
        Event::Enter(_) => None,
        Event::Deliver(input) => match r.step(input).1.outcome {
            OutcomeView::Decided(leaf) => Some(leaf),
            _ => None,
        },
    }
}

/// The round after a sequence of events.
pub open spec fn run(start: RoundView, events: Seq<Event>) -> RoundView
    decreases events.len(),
{
    if events.len() == 0 {
        start
    } else {
        after(run(start, events.drop_last()), events.last())
    }
}

/// Running through two sequences in a row is running through their
/// concatenation.
pub proof fn lemma_run_append(start: RoundView, first: Seq<Event>, second: Seq<Event>)
    ensures
        run(start, first + second) == run(run(start, first), second),
    decreases second.len(),
{
    if second.len() == 0 {
        assert(first + second =~= first);
    } else {
        assert((first + second).drop_last() =~= first + second.drop_last());
        lemma_run_append(start, first, second.drop_last());
    }
}

/// The vote cast at position `k` of the sequence.
pub open spec fn cast_at(start: RoundView, events: Seq<Event>, k: int) -> Option<Vote> {
    cast(run(start, events.take(k)), events[k])
}

/// The leaf decided at position `k` of the sequence.
pub open spec fn decided_at(start: RoundView, events: Seq<Event>, k: int) -> Option<LeafView> {
    decided(run(start, events.take(k)), events[k])
}

/// All votes cast in the course of the sequence.
pub open spec fn casts(start: RoundView, events: Seq<Event>) -> Set<Vote> {
    Set::new(
        |vote: Vote|
            exists|k: int| 0 <= k < events.len() && #[trigger] cast_at(start, events, k) == Some(vote),
    )
}

/// The lock never passes the current view, and the tally stays aimed.
pub proof fn lemma_lock_bounded(start: RoundView, events: Seq<Event>)
    requires
        start.locked_view <= start.view,
        start.aimed(),
    ensures
        run(start, events).locked_view <= run(start, events).view,
        run(start, events).aimed(),
        events.len() > 0 ==> run(start, events).locked_view >= run(
            start,
            events.drop_last(),
        ).locked_view,
    decreases events.len(),
{
    if events.len() > 0 {
        let earlier = events.drop_last();
        lemma_lock_bounded(start, earlier);
        let before = run(start, earlier);
        match events.last() {
            Event::Deliver(input) => law_lock_never_falls(before, input),
            Event::Enter(view) => law_lock_outlives_views(before, view),
        }
    }
}

/// The lock covers every Commit vote: after any sequence of events, the
/// lock of a node is at least the view of each Commit vote it has cast.
pub proof fn lemma_lock_covers_commit_votes(start: RoundView, events: Seq<Event>, k: int)
    requires
        start.locked_view <= start.view,
        start.aimed(),
        0 <= k < events.len(),
        cast_at(start, events, k) is Some,
        cast_at(start, events, k)->0.phase == Phase::Commit,
    ensures
        cast_at(start, events, k)->0.view <= run(start, events).locked_view,
    decreases events.len(),
{
    let earlier = events.drop_last();
    let last = events.len() - 1;
    lemma_lock_bounded(start, events);
    lemma_lock_bounded(start, earlier);
    assert(events.take(last) =~= earlier);
    if k < last {
        assert(events.take(k) =~= earlier.take(k));
        assert(cast_at(start, earlier, k) == cast_at(start, events, k));
        lemma_lock_covers_commit_votes(start, earlier, k);
    } else {
        let before = run(start, earlier);
        if let Event::Deliver(input) = events[k] {
            law_lock_never_falls(before, input);
        }
    }
}

/// Lock rule: a node that has cast a Commit vote in view `k`, at any point
/// of its run, refuses every later proposal whose certificate is of a view
/// below `k`. The proposal is answered with an invalid-state fault, no vote
/// is cast, and the round stays as it was.
pub proof fn law_lock_rule(
    start: RoundView,
    events: Seq<Event>,
    k: int,
    proposal: ProposalView,
    justify_valid: bool,
    commitment_valid: bool,
)
    requires
        start.locked_view <= start.view,
        start.aimed(),
        0 <= k < events.len(),
        cast_at(start, events, k) is Some,
        cast_at(start, events, k)->0.phase == Phase::Commit,
        proposal.leaf.justify.view < cast_at(start, events, k)->0.view,
    ensures
        run(start, events).step(
            InputView::Proposal { proposal, justify_valid, commitment_valid },
        ).0 == run(start, events),
        cast(
            run(start, events),
            Event::Deliver(InputView::Proposal { proposal, justify_valid, commitment_valid }),
        ) is None,
        run(start, events).step(
            InputView::Proposal { proposal, justify_valid, commitment_valid },
        ).1.outcome matches OutcomeView::Faulted(FaultView::InvalidState { .. }),
{
    lemma_lock_covers_commit_votes(start, events, k);
    law_refuses_below_lock(run(start, events), proposal, justify_valid, commitment_valid);
}

/// What the chain keeps of a leaf.
pub open spec fn header_of(leaf: LeafView) -> LeafHeader {
    LeafHeader { parent: leaf.parent, view: leaf.view, justify_view: leaf.justify.view }
}

/// Every honest signer of the certificate has cast the vote it certifies.
pub open spec fn genuine(h: History, certificate: CertificateView) -> bool {
    h.endorsed_by(
        certificate.signers.to_set(),
        certificate.view,
        certificate.phase,
        certificate.leaf,
    )
}

/// The commitment stands for the leaf.
pub open spec fn binds(h: History, commitment: u64, leaf: LeafView) -> bool {
    h.leaves.dom().contains(commitment) && h.leaves[commitment] == header_of(leaf)
}

/// The event is not forged: valid signatures are genuine, and a commitment
/// that checked as that of a leaf stands for that leaf. For the leader's own
/// block, the commitment that it is handed is that of the leaf that it
/// proposes.
pub open spec fn faithful(h: History, r: RoundView, event: Event) -> bool {
    match event {
        Event::Enter(_) => true,
        Event::Deliver(input) => match input {
            InputView::Proposal { proposal, justify_valid, commitment_valid } => {
                &&& commitment_valid ==> binds(h, proposal.leaf.commitment, proposal.leaf)
                &&& justify_valid ==> genuine(h, proposal.leaf.justify)
            },
            InputView::Propose { commitment, payload, justify_valid } => {
                &&& binds(h, commitment, r.proposed_leaf(commitment, payload))
                &&& justify_valid ==> genuine(h, r.high_qc)
            },
            InputView::Certificate { certificate, signature_valid } => signature_valid ==> genuine(
                h,
                certificate,
            ),
            InputView::Vote { vote, signature_valid } => signature_valid && h.honest.contains(
                vote.signer,
            ) ==> h.votes.contains(vote),
            _ => true,
        },
    }
}

/// The event needs no trust in the environment: the node enters a view, a
/// timer of its own fires, or a leader that waits for a certificate to build
/// on is handed one. What a leader is handed binds nobody: the certificate
/// is checked again when the leader proposes, and by every replica.
pub open spec fn own_event(r: RoundView, event: Event) -> bool {
    match event {
        Event::Enter(_) => true,
        Event::Deliver(input) => match input {
            InputView::Timeout => true,
            InputView::Certificate { .. } => r.progress == Progress::Waiting(
                RoundState::LeaderWaitingForHighQC,
            ),
            _ => false,
        },
    }
}

/// The event is the node's own or is not forged.
pub open spec fn faithful_to(h: History, r: RoundView, event: Event) -> bool {
    own_event(r, event) || faithful(h, r, event)
}

/// No event of the sequence is forged, each taken in the state that it
/// befalls.
pub open spec fn all_faithful(h: History, start: RoundView, events: Seq<Event>) -> bool {
    forall|k: int|
        0 <= k < events.len() ==> faithful_to(
            h,
            run(start, events.take(k)),
            #[trigger] events[k],
        )
}

/// A vote of the current view has been cast, so the round is past the
/// proposal.
pub open spec fn voting_begun(progress: Progress) -> bool {
    ||| progress == Progress::Waiting(RoundState::LeaderWaitingForPrepareVotes)
    ||| progress == Progress::Waiting(RoundState::LeaderWaitingForPreCommitVotes)
    ||| progress == Progress::Waiting(RoundState::LeaderWaitingForCommitVotes)
    ||| progress == Progress::Waiting(RoundState::ReplicaWaitingForPreCommit)
    ||| progress == Progress::Waiting(RoundState::ReplicaWaitingForCommit)
    ||| progress == Progress::Waiting(RoundState::ReplicaWaitingForDecide)
    ||| progress == Progress::Decided
    ||| progress == Progress::Abandoned
}

/// What an honest vote presupposes.
pub open spec fn founded(h: History, v: Vote) -> bool {
    &&& v.view >= 1
    &&& v.phase == Phase::Prepare ==> h.justified(v)
    &&& v.phase == Phase::PreCommit ==> h.certified(v.view, Phase::Prepare, v.leaf)
    &&& v.phase == Phase::Commit ==> h.certified(v.view, Phase::PreCommit, v.leaf)
}

/// The rules of a sound history, for the votes of one node.
pub open spec fn rules_hold(h: History, cs: Set<Vote>) -> bool {
    &&& forall|a: Vote, b: Vote|
        #![trigger cs.contains(a), cs.contains(b)]
        cs.contains(a) && cs.contains(b) && a.view == b.view ==> a.leaf == b.leaf
    &&& forall|c: Vote, p: Vote|
        #![trigger cs.contains(c), cs.contains(p)]
        cs.contains(c) && cs.contains(p) && c.phase == Phase::Commit && p.phase == Phase::Prepare
            && c.view < p.view ==> h.leaves.dom().contains(p.leaf) && h.leaves[p.leaf].justify_view
            >= c.view
    &&& forall|v: Vote| #[trigger] cs.contains(v) ==> founded(h, v)
}

/// How the votes cast so far bound the state of the round.
pub open spec fn votes_bound(r: RoundView, cs: Set<Vote>) -> bool {
    forall|v: Vote| #[trigger]
        cs.contains(v) ==> {
            &&& v.signer == r.identity
            &&& v.view <= r.view
            &&& v.phase == Phase::Commit ==> v.view <= r.locked_view
            &&& v.view == r.view ==> voting_begun(r.progress) && r.candidate is Some
                && r.candidate->0.commitment == v.leaf
        }
}

/// The honest signers that the leader has counted did cast their votes.
pub open spec fn tally_genuine(h: History, r: RoundView) -> bool {
    h.endorsed_by(r.tally.signers.to_set(), r.tally.view, r.tally.phase, r.tally.leaf)
}

/// The invariant of a node in a history: `cs` are the votes it has cast.
pub open spec fn consistent(h: History, r: RoundView, cs: Set<Vote>) -> bool {
    &&& r.electorate() == h.electorate
    &&& r.progress is Waiting ==> r.view >= 1
    &&& r.locked_view <= r.view
    &&& votes_bound(r, cs)
    &&& tally_genuine(h, r)
    &&& r.aimed()
    &&& rules_hold(h, cs)
}

/// The votes after the event.
pub open spec fn with_cast(r: RoundView, cs: Set<Vote>, event: Event) -> Set<Vote> {
    match cast(r, event) {
        Some(vote) => cs.insert(vote),
        None => cs,
    }
}

/// A certificate that passed verification in a faithful delivery shows that
/// its target is certified in the history.
proof fn lemma_verified_is_certified(
    h: History,
    r: RoundView,
    certificate: CertificateView,
    signature_valid: bool,
)
    requires
        r.electorate() == h.electorate,
        r.certified(certificate, signature_valid),
        signature_valid ==> genuine(h, certificate),
    ensures
        h.certified(certificate.view, certificate.phase, certificate.leaf),
{
    let signers = certificate.signers.to_set();
    assert(h.endorsed_by(signers, certificate.view, certificate.phase, certificate.leaf));
}

proof fn lemma_enter_preserves(h: History, r: RoundView, cs: Set<Vote>, view: u64)
    requires
        consistent(h, r, cs),
    ensures
        consistent(h, r.enter(view).0, cs),
{
}

proof fn lemma_proposal_preserves(h: History, r: RoundView, cs: Set<Vote>, event: Event)
    requires
        consistent(h, r, cs),
        faithful(h, r, event),
        event matches Event::Deliver(InputView::Proposal { .. }),
    ensures
        consistent(h, after(r, event), with_cast(r, cs, event)),
{
    if let Event::Deliver(InputView::Proposal { proposal, justify_valid, commitment_valid }) = event {
        let next = after(r, event);
        match cast(r, event) {
            None => {},
            Some(vote) => {
                let justify = proposal.leaf.justify;
                assert(r.progress == Progress::Waiting(RoundState::ReplicaWaitingForPrepare));
                assert(vote == r.own_vote(Phase::Prepare, proposal.leaf.commitment));
                assert(forall|v: Vote| #[trigger] cs.contains(v) ==> v.view < r.view);
                if justify.view > 0 {
                    lemma_verified_is_certified(h, r, justify, justify_valid);
                }
                assert(h.justified(vote));
                assert(founded(h, vote));
                let grown = cs.insert(vote);
                assert(votes_bound(next, grown));
                assert(rules_hold(h, grown));
            },
        }
    }
}

proof fn lemma_propose_preserves(h: History, r: RoundView, cs: Set<Vote>, event: Event)
    requires
        consistent(h, r, cs),
        faithful(h, r, event),
        event matches Event::Deliver(InputView::Propose { .. }),
    ensures
        consistent(h, after(r, event), with_cast(r, cs, event)),
{
    if let Event::Deliver(InputView::Propose { commitment, payload, justify_valid }) = event {
        let next = after(r, event);
        assert(Seq::<u64>::empty().to_set() =~= Set::<u64>::empty());
        match cast(r, event) {
            None => {
                assert(next == r);
            },
            Some(vote) => {
                let leaf = r.proposed_leaf(commitment, payload);
                assert(r.progress == Progress::Waiting(RoundState::LeaderMinRoundTimeNotReached));
                assert(vote == r.own_vote(Phase::Prepare, commitment));
                assert(forall|v: Vote| #[trigger] cs.contains(v) ==> v.view < r.view);
                if r.high_qc.view > 0 {
                    lemma_verified_is_certified(h, r, r.high_qc, justify_valid);
                }
                assert(h.justified(vote));
                assert(founded(h, vote));
                let grown = cs.insert(vote);
                assert(tally_genuine(h, next));
                assert(votes_bound(next, grown));
                assert(rules_hold(h, grown));
            },
        }
    }
}

proof fn lemma_certificate_preserves(h: History, r: RoundView, cs: Set<Vote>, event: Event)
    requires
        consistent(h, r, cs),
        faithful_to(h, r, event),
        event matches Event::Deliver(InputView::Certificate { .. }),
    ensures
        consistent(h, after(r, event), with_cast(r, cs, event)),
{
    if let Event::Deliver(InputView::Certificate { certificate, signature_valid }) = event {
        let next = after(r, event);
        match cast(r, event) {
            None => {
                assert(votes_bound(next, cs));
            },
            Some(vote) => {
                assert(r.progress is Waiting);
                let state = r.progress->Waiting_0;
                assert(state.awaited_certificate() is Some);
                assert(r.candidate is Some);
                assert(r.certified(certificate, signature_valid));
                lemma_verified_is_certified(h, r, certificate, signature_valid);
                assert(vote.view == r.view && vote.leaf == r.candidate->0.commitment);
                assert(vote.phase == Phase::PreCommit || vote.phase == Phase::Commit);
                assert(founded(h, vote));
                let grown = cs.insert(vote);
                assert(votes_bound(next, grown));
                assert(rules_hold(h, grown));
            },
        }
    }
}

proof fn lemma_vote_preserves(h: History, r: RoundView, cs: Set<Vote>, event: Event)
    requires
        consistent(h, r, cs),
        faithful(h, r, event),
        event matches Event::Deliver(InputView::Vote { .. }),
    ensures
        consistent(h, after(r, event), with_cast(r, cs, event)),
{
    if let Event::Deliver(InputView::Vote { vote, signature_valid }) = event {
        let next = after(r, event);
        let grown = r.tally.accept(vote, signature_valid);
        assert(h.endorsed_by(grown.signers.to_set(), grown.view, grown.phase, grown.leaf)) by {
            if r.tally.counts(vote, signature_valid) {
                r.tally.signers.lemma_push_to_set_commute(vote.signer);
                assert(vote == Vote {
                    view: r.tally.view,
                    phase: r.tally.phase,
                    leaf: r.tally.leaf,
                    signer: vote.signer,
                });
            }
        }
        assert(Seq::<u64>::empty().to_set() =~= Set::<u64>::empty());
        assert(tally_genuine(h, next));
        match cast(r, event) {
            None => {
                assert(votes_bound(next, cs));
            },
            Some(own) => {
                assert(r.progress is Waiting);
                let state = r.progress->Waiting_0;
                assert(state.collected_votes() is Some);
                assert(r.candidate is Some);
                assert(r.tally.forms_certificate(vote, signature_valid));
                assert(h.certified(r.view, r.tally.phase, r.candidate->0.commitment));
                assert(own.view == r.view && own.leaf == r.candidate->0.commitment);
                assert(own.phase == Phase::PreCommit || own.phase == Phase::Commit);
                assert(founded(h, own));
                let more = cs.insert(own);
                assert(votes_bound(next, more));
                assert(rules_hold(h, more));
            },
        }
    }
}

proof fn lemma_timeout_preserves(h: History, r: RoundView, cs: Set<Vote>)
    requires
        consistent(h, r, cs),
    ensures
        consistent(
            h,
            after(r, Event::Deliver(InputView::Timeout)),
            with_cast(r, cs, Event::Deliver(InputView::Timeout)),
        ),
{
    let next = after(r, Event::Deliver(InputView::Timeout));
    assert(cast(r, Event::Deliver(InputView::Timeout)) is None);
    assert(votes_bound(next, cs));
}

/// One faithful event keeps a node consistent with the history.
pub proof fn lemma_event_preserves(h: History, r: RoundView, cs: Set<Vote>, event: Event)
    requires
        consistent(h, r, cs),
        faithful_to(h, r, event),
    ensures
        consistent(h, after(r, event), with_cast(r, cs, event)),
{
    match event {
        Event::Enter(view) => lemma_enter_preserves(h, r, cs, view),
        Event::Deliver(input) => match input {
            InputView::Proposal { .. } => lemma_proposal_preserves(h, r, cs, event),
            InputView::Certificate { .. } => lemma_certificate_preserves(h, r, cs, event),
            InputView::Vote { .. } => lemma_vote_preserves(h, r, cs, event),
            InputView::Propose { .. } => lemma_propose_preserves(h, r, cs, event),
            InputView::Timeout => lemma_timeout_preserves(h, r, cs),
        },
    }
}

/// A leaf that a consistent node decides on a faithful event has a Commit
/// certificate in the view of the node.
pub proof fn lemma_decision_certified(h: History, r: RoundView, cs: Set<Vote>, event: Event)
    requires
        consistent(h, r, cs),
        faithful_to(h, r, event),
        decided(r, event) is Some,
    ensures
        h.certified(r.view, Phase::Commit, decided(r, event)->0.commitment),
{
    if let Event::Deliver(input) = event {
        match input {
            InputView::Certificate { certificate, signature_valid } => {
                assert(r.progress == Progress::Waiting(RoundState::ReplicaWaitingForDecide));
                assert(r.certified(certificate, signature_valid));
                lemma_verified_is_certified(h, r, certificate, signature_valid);
            },
            InputView::Vote { vote, signature_valid } => {
                assert(r.progress == Progress::Waiting(RoundState::LeaderWaitingForCommitVotes));
                let grown = r.tally.accept(vote, signature_valid);
                assert(r.tally.counts(vote, signature_valid));
                r.tally.signers.lemma_push_to_set_commute(vote.signer);
                assert(vote == Vote {
                    view: r.tally.view,
                    phase: r.tally.phase,
                    leaf: r.tally.leaf,
                    signer: vote.signer,
                });
                assert(h.endorsed_by(
                    grown.signers.to_set(),
                    r.view,
                    Phase::Commit,
                    r.candidate->0.commitment,
                ));
            },
            _ => {},
        }
    }
}

/// The votes cast in a sequence are those cast before its last event and
/// the one that the last event casts.
proof fn lemma_casts_step(start: RoundView, events: Seq<Event>)
    requires
        events.len() > 0,
    ensures
        casts(start, events) =~= with_cast(
            run(start, events.drop_last()),
            casts(start, events.drop_last()),
            events.last(),
        ),
{
    let earlier = events.drop_last();
    let last = events.len() - 1;
    assert(events.take(last) =~= earlier);
    assert forall|k: int| 0 <= k < last implies cast_at(start, events, k) == cast_at(
        start,
        earlier,
        k,
    ) by {
        assert(events.take(k) =~= earlier.take(k));
    }
    let combined = with_cast(run(start, earlier), casts(start, earlier), events.last());
    assert forall|vote: Vote| casts(start, events).contains(vote) implies combined.contains(
        vote,
    ) by {
        let k = choose|k: int|
            0 <= k < events.len() && #[trigger] cast_at(start, events, k) == Some(vote);
        if k < last {
            assert(cast_at(start, earlier, k) == Some(vote));
        }
    }
    assert forall|vote: Vote| combined.contains(vote) implies casts(start, events).contains(
        vote,
    ) by {
        if casts(start, earlier).contains(vote) {
            let k = choose|k: int|
                0 <= k < earlier.len() && #[trigger] cast_at(start, earlier, k) == Some(vote);
            assert(cast_at(start, events, k) == Some(vote));
        } else {
            assert(cast_at(start, events, last) == Some(vote));
        }
    }
}

/// A prefix of a faithful sequence is faithful.
pub proof fn lemma_prefix_faithful(h: History, start: RoundView, events: Seq<Event>, n: int)
    requires
        all_faithful(h, start, events),
        0 <= n <= events.len(),
    ensures
        all_faithful(h, start, events.take(n)),
{
    let prefix = events.take(n);
    assert forall|k: int| 0 <= k < prefix.len() implies faithful_to(
        h,
        run(start, prefix.take(k)),
        #[trigger] prefix[k],
    ) by {
        assert(prefix.take(k) =~= events.take(k));
        assert(prefix[k] == events[k]);
    }
}

/// A node that starts consistent and meets only faithful events stays
/// consistent, with the votes it has cast.
pub proof fn lemma_run_consistent(h: History, start: RoundView, events: Seq<Event>)
    requires
        consistent(h, start, Set::empty()),
        all_faithful(h, start, events),
    ensures
        consistent(h, run(start, events), casts(start, events)),
    decreases events.len(),
{
    if events.len() == 0 {
        assert(casts(start, events) =~= Set::<Vote>::empty());
    } else {
        let earlier = events.drop_last();
        lemma_prefix_faithful(h, start, events, events.len() - 1);
        assert(events.take(events.len() - 1) =~= earlier);
        lemma_run_consistent(h, start, earlier);
        assert(faithful_to(h, run(start, earlier), events[events.len() - 1]));
        lemma_event_preserves(h, run(start, earlier), casts(start, earlier), events.last());
        lemma_casts_step(start, events);
    }
}

/// A run keeps the identity of the node.
pub proof fn lemma_run_keeps_identity(start: RoundView, events: Seq<Event>)
    ensures
        run(start, events).identity == start.identity,
    decreases events.len(),
{
    if events.len() > 0 {
        lemma_run_keeps_identity(start, events.drop_last());
    }
}

/// The node `id` follows the protocol: it runs the round state machine from
/// the initial state through `events`, none of which is forged, and the
/// history holds exactly the votes it casts.
pub open spec fn follows_protocol(h: History, id: u64, events: Seq<Event>) -> bool {
    &&& all_faithful(h, RoundView::initial(id, h.electorate, h.genesis), events)
    &&& forall|vote: Vote|
        vote.signer == id ==> (#[trigger] h.votes.contains(vote) <==> casts(
            RoundView::initial(id, h.electorate, h.genesis),
            events,
        ).contains(vote))
}

/// A system within the fault bound: the faulty nodes hold less than a third
/// of the weight, and every honest node follows the protocol through the
/// events that `traces` gives for it.
pub open spec fn system(h: History, traces: Map<u64, Seq<Event>>) -> bool {
    &&& h.tolerable()
    &&& forall|id: u64| #[trigger]
        h.honest.contains(id) ==> traces.dom().contains(id) && follows_protocol(h, id, traces[id])
}

/// A vote that a node has cast may be handed back to it, and to any round,
/// as a vote with a valid signature: the history holds it.
pub proof fn lemma_own_vote_is_faithful(
    h: History,
    id: u64,
    events: Seq<Event>,
    k: int,
    r: RoundView,
)
    requires
        follows_protocol(h, id, events),
        0 <= k < events.len(),
        cast_at(RoundView::initial(id, h.electorate, h.genesis), events, k) is Some,
    ensures
        faithful(
            h,
            r,
            Event::Deliver(
                InputView::Vote {
                    vote: cast_at(RoundView::initial(id, h.electorate, h.genesis), events, k)->0,
                    signature_valid: true,
                },
            ),
        ),
{
    let start = RoundView::initial(id, h.electorate, h.genesis);
    let vote = cast_at(start, events, k)->0;
    lemma_initial_consistent(h, id);
    lemma_run_consistent(h, start, events);
    lemma_run_keeps_identity(start, events);
    assert(casts(start, events).contains(vote));
    assert(vote.signer == id);
    assert(h.votes.contains(vote));
}

/// The initial state is consistent with every history over its table.
pub proof fn lemma_initial_consistent(h: History, id: u64)
    ensures
        consistent(h, RoundView::initial(id, h.electorate, h.genesis), Set::empty()),
{
    assert(Seq::<u64>::empty().to_set() =~= Set::<u64>::empty());
}

/// The history of a system within the fault bound is sound.
pub proof fn lemma_system_sound(h: History, traces: Map<u64, Seq<Event>>)
    requires
        system(h, traces),
    ensures
        h.sound(),
{
    assert forall|id: u64| h.honest.contains(id) implies consistent(
        h,
        run(RoundView::initial(id, h.electorate, h.genesis), traces[id]),
        casts(RoundView::initial(id, h.electorate, h.genesis), traces[id]),
    ) by {
        lemma_initial_consistent(h, id);
        lemma_run_consistent(h, RoundView::initial(id, h.electorate, h.genesis), traces[id]);
    }
    assert forall|a: Vote, b: Vote|
        #![trigger h.votes.contains(a), h.votes.contains(b)]
        h.votes.contains(a) && h.votes.contains(b) && h.honest.contains(a.signer) && a.signer
            == b.signer && a.view == b.view implies a.leaf == b.leaf by {
        let cs = casts(RoundView::initial(a.signer, h.electorate, h.genesis), traces[a.signer]);
        assert(cs.contains(a) && cs.contains(b));
    }
    assert forall|c: Vote, p: Vote|
        #![trigger h.votes.contains(c), h.votes.contains(p)]
        h.votes.contains(c) && h.votes.contains(p) && h.honest.contains(c.signer) && c.signer
            == p.signer && c.phase == Phase::Commit && p.phase == Phase::Prepare && c.view
            < p.view implies h.leaves.dom().contains(p.leaf) && h.leaves[p.leaf].justify_view
        >= c.view by {
        let cs = casts(RoundView::initial(c.signer, h.electorate, h.genesis), traces[c.signer]);
        assert(cs.contains(c) && cs.contains(p));
    }
    assert forall|v: Vote| #[trigger]
        h.votes.contains(v) && h.honest.contains(v.signer) implies founded(h, v) by {
        let cs = casts(RoundView::initial(v.signer, h.electorate, h.genesis), traces[v.signer]);
        assert(cs.contains(v));
    }
}

/// Safety: in a system within the fault bound, the leaves that two honest
/// nodes decide, at any points of their runs, do not conflict. One extends
/// the other: no two honest nodes commit leaves on diverging branches.
pub proof fn theorem_safety(
    h: History,
    traces: Map<u64, Seq<Event>>,
    a: u64,
    step_a: int,
    b: u64,
    step_b: int,
)
    requires
        system(h, traces),
        h.honest.contains(a),
        h.honest.contains(b),
        0 <= step_a < traces[a].len(),
        0 <= step_b < traces[b].len(),
        decided_at(RoundView::initial(a, h.electorate, h.genesis), traces[a], step_a) is Some,
        decided_at(RoundView::initial(b, h.electorate, h.genesis), traces[b], step_b) is Some,
    ensures
        !h.conflict(
            decided_at(
                RoundView::initial(a, h.electorate, h.genesis),
                traces[a],
                step_a,
            )->0.commitment,
            decided_at(
                RoundView::initial(b, h.electorate, h.genesis),
                traces[b],
                step_b,
            )->0.commitment,
        ),
{
    lemma_system_sound(h, traces);
    let start_a = RoundView::initial(a, h.electorate, h.genesis);
    let start_b = RoundView::initial(b, h.electorate, h.genesis);
    let before_a = traces[a].take(step_a);
    let before_b = traces[b].take(step_b);
    lemma_prefix_faithful(h, start_a, traces[a], step_a);
    lemma_prefix_faithful(h, start_b, traces[b], step_b);
    lemma_initial_consistent(h, a);
    lemma_initial_consistent(h, b);
    lemma_run_consistent(h, start_a, before_a);
    lemma_run_consistent(h, start_b, before_b);
    assert(faithful_to(h, run(start_a, before_a), traces[a][step_a]));
    assert(faithful_to(h, run(start_b, before_b), traces[b][step_b]));
    lemma_decision_certified(h, run(start_a, before_a), casts(start_a, before_a), traces[a][step_a]);
    lemma_decision_certified(h, run(start_b, before_b), casts(start_b, before_b), traces[b][step_b]);
    theorem_committed_leaves_agree(
        h,
        decided_at(start_a, traces[a], step_a)->0.commitment,
        run(start_a, before_a).view,
        decided_at(start_b, traces[b], step_b)->0.commitment,
        run(start_b, before_b).view,
    );
}

} // verus!
