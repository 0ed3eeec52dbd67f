//! One node: the round of its current view and its view synchronizer, kept
//! in step.
//!
//! The node sorts what it is given by view, drives the round, and moves on
//! to the next view when the round decides or when NewView votes of
//! threshold weight have come in. On entering a view as its leader it hands
//! the synchronizer's highest certificate to the round. It proposes only
//! when the minimum round time has passed.
//!
//! Two kinds of input wait at the node until they are due: the vote that the
//! node has cast for itself as leader, and inputs that were made in a view
//! that the node has not entered yet. The second kind is kept up to a fixed
//! number.

use crate::conformance::{lemma_run_append, own_event, run, Event};
use crate::data::Vote;
use crate::election::elected;
use crate::error::FaultView;
use crate::round::{
    Action, Input, InputView, Outcome, Progress, Rejection, Relevance, Round, RoundState,
    RoundView, Step, StepView,
};
use crate::stake_table::{lemma_weight_le_total, total_weight, StakeTable, StakeTableEntry};
use crate::traits::block_storage::{appended, BlockStorage, BlockStorageError, ProposalType};
use crate::view_sync::{
    AdvanceTo, AdvanceToView, CheckedNewView, CheckedNewViewView, NewViewVote, NewViewVoteView,
    SyncState, SyncView, ViewSynchronizer,
};
use vstd::prelude::*;

verus! {

/// The number of inputs made in later views that a node keeps at most.
pub const KEPT_LIMIT: usize = 256;

/// What became of an input.
#[derive(Clone, Debug, PartialEq, Eq)]
pub enum Delivery {
    /// It was made in a view that is over, and was dropped.
    Stale,
    /// It was made in a view that the node has not entered, and is kept
    /// until it is due.
    Kept,
    /// It was made in a view that the node has not entered, and the node
    /// keeps as many inputs as it may. It is handed back.
    Ahead(Input),
    /// The round was driven with it.
    Taken(Step),
}

/// The mathematical value of a [`Delivery`].
pub enum DeliveryView {
    Stale,
    Kept,
    Ahead(InputView),
    Taken(StepView),
}

impl View for Delivery {
    type V = DeliveryView;

    open spec fn view(&self) -> DeliveryView {
        match *self {
            Delivery::Stale => DeliveryView::Stale,
            Delivery::Kept => DeliveryView::Kept,
            Delivery::Ahead(input) => DeliveryView::Ahead(input@),
            Delivery::Taken(step) => DeliveryView::Taken(step@),
        }
    }
}

/// What the expiry of a deadline brings: the step that gave the view up,
/// and the NewView vote to broadcast.
#[derive(Clone, Debug, PartialEq, Eq)]
pub struct Expiry {
    pub step: Step,
    pub vote: NewViewVote,
}

/// The mathematical value of an [`Expiry`].
pub struct ExpiryView {
    pub step: StepView,
    pub vote: NewViewVoteView,
}

impl View for Expiry {
    type V = ExpiryView;

    open spec fn view(&self) -> ExpiryView {
        ExpiryView { step: self.step@, vote: self.vote@ }
    }
}

/// The mathematical value of a [`Node`].
pub struct NodeView {
    pub round: RoundView,
    pub sync: SyncView,
    /// The vote that the node has cast for itself and not yet handed to its
    /// round.
    pub own: Option<Vote>,
    /// The inputs kept for later views, oldest first.
    pub kept: Seq<InputView>,
}

/// The values of a list of inputs.
pub open spec fn input_views(inputs: Seq<Input>) -> Seq<InputView> {
    Seq::new(inputs.len(), |k: int| inputs[k]@)
}

/// Sifts the inputs kept: the stale ones before the first that is due are
/// dropped, the first that is due is taken out, and the others stay in
/// order.
pub open spec fn sift(r: RoundView, kept: Seq<InputView>) -> (Seq<InputView>, Option<InputView>)
    decreases kept.len(),
{
    if kept.len() == 0 {
        (Seq::empty(), None)
    } else {
        match r.relevance(kept.first()) {
            Relevance::Stale => sift(r, kept.drop_first()),
            Relevance::Current => (kept.drop_first(), Some(kept.first())),
            Relevance::Ahead => (
                seq![kept.first()] + sift(r, kept.drop_first()).0,
                sift(r, kept.drop_first()).1,
            ),
        }
    }
}

impl NodeView {
    /// A node that has entered no view.
    pub open spec fn initial(
        identity: u64,
        electorate: Seq<StakeTableEntry>,
        genesis: u64,
        timeout: u64,
        min_round_time: u64,
    ) -> NodeView {
        NodeView {
            round: RoundView::initial(identity, electorate, genesis),
            sync: SyncView::initial(identity, electorate, genesis, timeout, min_round_time),
            own: None,
            kept: Seq::empty(),
        }
    }

    /// The input by which a leader is handed the highest certificate of the
    /// synchronizer. Every certificate that the synchronizer holds was
    /// verified when it was taken in.
    pub open spec fn handover(self) -> InputView {
        InputView::Certificate { certificate: self.sync.high_qc, signature_valid: true }
    }

    /// Entering `view` at time `now`. If the round refuses the view nothing
    /// changes. Otherwise the deadline is armed, and a node that leads the
    /// view is handed the highest certificate.
    pub open spec fn enter(self, view: u64, now: u64) -> NodeView {
        match self.round.enter(view).1 {
            Err(_) => self,
            Ok(state) => {
                let entered = NodeView {
                    round: self.round.enter(view).0,
                    sync: self.sync.start(view, now).0,
                    ..self
                };
                if state == RoundState::LeaderWaitingForHighQC {
                    NodeView { round: entered.round.step(entered.handover()).0, ..entered }
                } else {
                    entered
                }
            },
        }
    }

    /// Starting: the node enters the view that the synchronizer has
    /// advanced to.
    pub open spec fn start(self, now: u64) -> NodeView {
        match self.sync.state {
            SyncState::Advanced { view } => self.enter(view, now),
            _ => self,
        }
    }

    /// After a step of the round: a decision ends the run of views given up
    /// and makes the node enter the next view.
    pub open spec fn conclude(self, step: StepView, now: u64) -> NodeView {
        if step.outcome is Decided {
            let rested = NodeView { sync: SyncView { timeouts: 0, ..self.sync }, ..self };
            if self.round.view < u64::MAX {
                rested.enter((self.round.view + 1) as u64, now)
            } else {
                rested
            }
        } else {
            self
        }
    }

    /// The vote that waits to be handed to the round after a step: the
    /// leader's own vote that the step cast, or else the one that waited.
    /// It is among the votes that the round has cast, so handing it back
    /// needs no trust in the environment.
    pub open spec fn own_after(self, step: StepView) -> Option<Vote> {
        match self.round.own_vote_of(step.action) {
            Some(vote) => Some(vote),
            None => self.own,
        }
    }

    /// The node after a step of its round.
    pub open spec fn stepped(self, stepped: (RoundView, StepView), now: u64) -> NodeView {
        NodeView { round: stepped.0, own: self.own_after(stepped.1), ..self }.conclude(
            stepped.1,
            now,
        )
    }

    /// The node after an input of a later view was delivered: the input is
    /// kept if there is room, and handed back if not.
    pub open spec fn keep(self, input: InputView) -> (NodeView, DeliveryView) {
        if self.kept.len() < KEPT_LIMIT {
            (NodeView { kept: self.kept.push(input), ..self }, DeliveryView::Kept)
        } else {
            (self, DeliveryView::Ahead(input))
        }
    }

    /// The next input that is due: the node's own vote if it is of the
    /// current view, else the first of the inputs kept that is. An own vote
    /// of another view, and stale inputs before the one that is due, are
    /// dropped.
    pub open spec fn next_due(self) -> (NodeView, Option<InputView>) {
        if self.own is Some && self.own->0.view == self.round.view {
            (
                NodeView { own: None, ..self },
                Some(InputView::Vote { vote: self.own->0, signature_valid: true }),
            )
        } else {
            (
                NodeView { own: None, kept: sift(self.round, self.kept).0, ..self },
                sift(self.round, self.kept).1,
            )
        }
    }

    /// An input is delivered: dropped if stale, handed back if ahead, and
    /// otherwise taken by the round.
    pub open spec fn deliver(self, input: InputView, now: u64) -> (NodeView, DeliveryView) {
        match self.round.relevance(input) {
            Relevance::Stale => (self, DeliveryView::Stale),
            Relevance::Ahead => self.keep(input),
            Relevance::Current => (
                self.stepped(self.round.step(input), now),
                DeliveryView::Taken(self.round.step(input).1),
            ),
        }
    }

    /// An input is delivered after an attempt to store its record. The store
    /// is asked only for an input of the current view.
    pub open spec fn deliver_after_store(
        self,
        stored: Result<(), BlockStorageError>,
        input: InputView,
        now: u64,
    ) -> (NodeView, DeliveryView) {
        match self.round.relevance(input) {
            Relevance::Stale => (self, DeliveryView::Stale),
            Relevance::Ahead => self.keep(input),
            Relevance::Current => (
                self.stepped(self.round.step_after_store(stored, input), now),
                DeliveryView::Taken(self.round.step_after_store(stored, input).1),
            ),
        }
    }

    /// The block is ready: the round proposes it if the minimum round time
    /// has passed, and is not driven otherwise.
    pub open spec fn propose(
        self,
        commitment: u64,
        payload: u64,
        justify_valid: bool,
        now: u64,
    ) -> (NodeView, StepView) {
        let input = InputView::Propose { commitment, payload, justify_valid };
        if self.sync.proposal_due(now) {
            (
                NodeView {
                    round: self.round.step(input).0,
                    own: self.own_after(self.round.step(input).1),
                    ..self
                },
                self.round.step(input).1,
            )
        } else {
            (self, self.round.rejected(Rejection::TooEarly).1)
        }
    }

    /// Time has come to `now`. If the deadline has expired, the round is
    /// driven with the timeout and the synchronizer issues the NewView vote
    /// for its view, which carries the highest certificate that the round
    /// has seen.
    pub open spec fn tick(self, now: u64) -> (NodeView, Option<ExpiryView>) {
        if self.sync.expired(now) {
            let view = self.sync.state.spec_view();
            let (round, step) = self.round.step(InputView::Timeout);
            (
                NodeView { round, sync: self.sync.time_out(view, round.high_qc).0, ..self },
                Some(
                    ExpiryView {
                        step,
                        vote: NewViewVoteView {
                            view,
                            signer: self.sync.identity,
                            high_qc: self.sync.higher(round.high_qc),
                        },
                    },
                ),
            )
        } else {
            (self, None)
        }
    }

    /// A NewView vote is delivered. The vote that makes the synchronizer
    /// advance makes the node enter the next view.
    pub open spec fn deliver_new_view(self, checked: CheckedNewViewView, now: u64) -> (
        NodeView,
        Option<AdvanceToView>,
    ) {
        let collected = NodeView { sync: self.sync.collect(checked), ..self };
        if self.sync.advances(checked) {
            (collected.enter(collected.sync.state.spec_view(), now), Some(collected.sync.advance()))
        } else {
            (collected, None)
        }
    }

    /// The events that befall the round when the node enters a view.
    pub open spec fn entering(self, view: u64, now: u64) -> Seq<Event> {
        if self.round.enter(view).1 == Ok::<RoundState, FaultView>(
            RoundState::LeaderWaitingForHighQC,
        ) {
            seq![
                Event::Enter(view),
                Event::Deliver(
                    NodeView {
                        round: self.round.enter(view).0,
                        sync: self.sync.start(view, now).0,
                        ..self
                    }.handover(),
                ),
            ]
        } else {
            seq![Event::Enter(view)]
        }
    }
}

/// Entering a view befalls the round as one or two events of the node's own.
pub proof fn lemma_enter_is_run(n: NodeView, view: u64, now: u64)
    ensures
        n.enter(view, now).round == run(n.round, n.entering(view, now)),
        forall|k: int|
            0 <= k < n.entering(view, now).len() ==> own_event(
                run(n.round, n.entering(view, now).take(k)),
                #[trigger] n.entering(view, now)[k],
            ),
{
    let events = n.entering(view, now);
    reveal_with_fuel(run, 3);
    assert(events.take(0) =~= Seq::<Event>::empty());
    if events.len() == 2 {
        assert(events.drop_last() =~= seq![Event::Enter(view)]);
        assert(events.take(1) =~= seq![Event::Enter(view)]);
        assert(seq![Event::Enter(view)].drop_last() =~= Seq::<Event>::empty());
    } else {
        assert(events.drop_last() =~= Seq::<Event>::empty());
    }
}

impl NodeView {
    /// The events that befall the round when an input is delivered: none
    /// for an input that is not of the current view; else the input, and
    /// after a decision the entry into the next view.
    pub open spec fn delivering(self, input: InputView, now: u64) -> Seq<Event> {
        if self.round.relevance(input) != Relevance::Current {
            Seq::empty()
        } else if self.round.step(input).1.outcome is Decided && self.round.view < u64::MAX {
            seq![Event::Deliver(input)] + NodeView {
                round: self.round.step(input).0,
                sync: SyncView { timeouts: 0, ..self.sync },
                ..self
            }.entering((self.round.view + 1) as u64, now)
        } else {
            seq![Event::Deliver(input)]
        }
    }
}

/// A delivery befalls the round as the input itself, followed by events of
/// the node's own. So a node whose inputs are not forged meets only
/// faithful events, and what is proved of the rounds of honest nodes holds
/// of honest nodes.
pub proof fn lemma_deliver_is_run(n: NodeView, input: InputView, now: u64)
    ensures
        n.deliver(input, now).0.round == run(n.round, n.delivering(input, now)),
        n.delivering(input, now).len() > 0 ==> n.delivering(input, now)[0] == Event::Deliver(
            input,
        ),
        forall|k: int|
            1 <= k < n.delivering(input, now).len() ==> own_event(
                run(n.round, n.delivering(input, now).take(k)),
                #[trigger] n.delivering(input, now)[k],
            ),
{
    let events = n.delivering(input, now);
    let first = seq![Event::Deliver(input)];
    reveal_with_fuel(run, 2);
    assert(first.drop_last() =~= Seq::<Event>::empty());
    if n.round.relevance(input) != Relevance::Current {
    } else if n.round.step(input).1.outcome is Decided && n.round.view < u64::MAX {
        let rested = NodeView {
            round: n.round.step(input).0,
            sync: SyncView { timeouts: 0, ..n.sync },
            ..n
        };
        let next = (n.round.view + 1) as u64;
        let rest = rested.entering(next, now);
        lemma_enter_is_run(rested, next, now);
        lemma_run_append(n.round, first, rest);
        assert forall|k: int| 1 <= k < events.len() implies own_event(
            run(n.round, events.take(k)),
            #[trigger] events[k],
        ) by {
            assert(events.take(k) =~= first + rest.take(k - 1));
            lemma_run_append(n.round, first, rest.take(k - 1));
            assert(events[k] == rest[k - 1]);
        }
    } else {
    }
}

/// The operations that no input causes befall the round as events of the
/// node's own: the start and the advance as the entry into a view, the
/// expiry of the deadline as a timeout. A proposal befalls it as the
/// readiness of the block, a delivery that the store fails leaves it
/// untouched, and so does taking out the input that is due next.
pub proof fn lemma_own_operations_are_runs(n: NodeView, now: u64)
    ensures
        n.sync.state matches SyncState::Advanced { view } ==> n.start(now).round == run(
            n.round,
            n.entering(view, now),
        ),
        !(n.sync.state is Advanced) ==> n.start(now).round == n.round,
        n.tick(now).0.round == if n.sync.expired(now) {
            run(n.round, seq![Event::Deliver(InputView::Timeout)])
        } else {
            n.round
        },
        own_event(n.round, Event::Deliver(InputView::Timeout)),
        n.next_due().0.round == n.round,
        forall|commitment: u64, payload: u64, justify_valid: bool|
            (#[trigger] n.propose(commitment, payload, justify_valid, now)).0.round
                == if n.sync.proposal_due(now) {
                run(
                    n.round,
                    seq![Event::Deliver(InputView::Propose { commitment, payload, justify_valid })],
                )
            } else {
                n.round
            },
        forall|checked: CheckedNewViewView|
            (#[trigger] n.deliver_new_view(checked, now)).0.round == if n.sync.advances(checked) {
                run(
                    n.round,
                    NodeView { sync: n.sync.collect(checked), ..n }.entering(
                        n.sync.collect(checked).state.spec_view(),
                        now,
                    ),
                )
            } else {
                n.round
            },
        forall|source: BlockStorageError, input: InputView|
            (#[trigger] n.deliver_after_store(Err(source), input, now)).0.round == n.round,
        forall|input: InputView|
            (#[trigger] n.deliver_after_store(Ok(()), input, now)) == n.deliver(input, now),
{
    reveal_with_fuel(run, 2);
    if let SyncState::Advanced { view } = n.sync.state {
        lemma_enter_is_run(n, view, now);
    }
    assert(seq![Event::Deliver(InputView::Timeout)].drop_last() =~= Seq::<Event>::empty());
    assert forall|commitment: u64, payload: u64, justify_valid: bool|
        (#[trigger] n.propose(commitment, payload, justify_valid, now)).0.round
            == if n.sync.proposal_due(now) {
            run(
                n.round,
                seq![Event::Deliver(InputView::Propose { commitment, payload, justify_valid })],
            )
        } else {
            n.round
        } by {
        assert(seq![
            Event::Deliver(InputView::Propose { commitment, payload, justify_valid }),
        ].drop_last() =~= Seq::<Event>::empty());
    }
    assert forall|checked: CheckedNewViewView|
        (#[trigger] n.deliver_new_view(checked, now)).0.round == if n.sync.advances(checked) {
            run(
                n.round,
                NodeView { sync: n.sync.collect(checked), ..n }.entering(
                    n.sync.collect(checked).state.spec_view(),
                    now,
                ),
            )
        } else {
            n.round
        } by {
        let collected = NodeView { sync: n.sync.collect(checked), ..n };
        lemma_enter_is_run(collected, collected.sync.state.spec_view(), now);
    }
}

impl NodeView {
    /// The round and the synchronizer are in step: they belong to one node
    /// and one electorate, and while a view runs or is given up it is the
    /// view of both. Before the first view is entered the synchronizer
    /// points at view one.
    pub open spec fn in_step(self) -> bool {
        &&& self.sync.identity == self.round.identity
        &&& self.sync.electorate == self.round.electorate()
        &&& self.sync.genesis == self.round.genesis
        &&& match self.sync.state {
            SyncState::Advanced { view } => view == 1 && self.round.view == 0 && !(
            self.round.progress is Waiting),
            _ => self.sync.state.spec_view() == self.round.view && self.round.view >= 1
                && total_weight(self.sync.electorate) > 0,
        }
    }

    /// The round and the synchronizer belong to one node and one
    /// electorate.
    pub open spec fn paired(self) -> bool {
        &&& self.sync.identity == self.round.identity
        &&& self.sync.electorate == self.round.electorate()
        &&& self.sync.genesis == self.round.genesis
    }

    /// The node may enter `view`: the view lies ahead of the round and the
    /// synchronizer can start it.
    pub open spec fn may_enter(self, view: u64) -> bool {
        &&& self.paired()
        &&& view > self.round.view
        &&& self.sync.startable(view)
        &&& self.in_step() || total_weight(self.sync.electorate) > 0
    }
}

/// A step of the round does not touch what the node keeps in step, and only
/// a round that waits decides.
proof fn lemma_step_keeps_frame(r: RoundView, input: InputView)
    ensures
        r.step(input).0.view == r.view,
        r.step(input).0.identity == r.identity,
        r.step(input).0.genesis == r.genesis,
        r.step(input).0.electorate() == r.electorate(),
        r.step(input).0.progress is Waiting ==> r.progress is Waiting,
        r.step(input).1.outcome is Decided ==> r.progress is Waiting,
{
}

/// Entering a view that the node may enter leaves it in step.
proof fn lemma_enter_in_step(n: NodeView, view: u64, now: u64)
    requires
        n.may_enter(view),
    ensures
        n.enter(view, now).in_step(),
{
    if let Ok(state) = n.round.enter(view).1 {
        let entered = NodeView {
            round: n.round.enter(view).0,
            sync: n.sync.start(view, now).0,
            ..n
        };
        lemma_step_keeps_frame(entered.round, entered.handover());
    }
}

/// A step of the round, concluded, keeps the node in step.
proof fn lemma_stepped_in_step(n: NodeView, stepped: (RoundView, StepView), now: u64)
    requires
        n.in_step(),
        stepped.0.view == n.round.view,
        stepped.0.identity == n.round.identity,
        stepped.0.genesis == n.round.genesis,
        stepped.0.electorate() == n.round.electorate(),
        stepped.0.progress is Waiting ==> n.round.progress is Waiting,
        stepped.1.outcome is Decided ==> n.round.progress is Waiting,
    ensures
        n.stepped(stepped, now).in_step(),
{
    let after = NodeView { round: stepped.0, own: n.own_after(stepped.1), ..n };
    if stepped.1.outcome is Decided && n.round.view < u64::MAX {
        let rested = NodeView { sync: SyncView { timeouts: 0, ..after.sync }, ..after };
        lemma_enter_in_step(rested, (n.round.view + 1) as u64, now);
    }
}

/// Every operation keeps the node in step.
pub proof fn lemma_operations_keep_in_step(n: NodeView, now: u64)
    requires
        n.in_step(),
    ensures
        n.start(now).in_step(),
        n.tick(now).0.in_step(),
        n.next_due().0.in_step(),
        forall|input: InputView| (#[trigger] n.deliver(input, now)).0.in_step(),
        forall|stored: Result<(), BlockStorageError>, input: InputView|
            (#[trigger] n.deliver_after_store(stored, input, now)).0.in_step(),
        forall|commitment: u64, payload: u64, justify_valid: bool|
            (#[trigger] n.propose(commitment, payload, justify_valid, now)).0.in_step(),
        forall|checked: CheckedNewViewView| (#[trigger] n.deliver_new_view(checked, now)).0.in_step(),
{
    if let SyncState::Advanced { view } = n.sync.state {
        lemma_enter_in_step(n, view, now);
    }
    lemma_step_keeps_frame(n.round, InputView::Timeout);
    assert forall|stored: Result<(), BlockStorageError>, input: InputView|
        (#[trigger] n.deliver_after_store(stored, input, now)).0.in_step() by {
        lemma_step_keeps_frame(n.round, input);
        lemma_stepped_in_step(n, n.round.step_after_store(stored, input), now);
    }
    assert forall|input: InputView| (#[trigger] n.deliver(input, now)).0.in_step() by {
        lemma_step_keeps_frame(n.round, input);
        lemma_stepped_in_step(n, n.round.step(input), now);
    }
    assert forall|commitment: u64, payload: u64, justify_valid: bool|
        (#[trigger] n.propose(commitment, payload, justify_valid, now)).0.in_step() by {
        lemma_step_keeps_frame(n.round, InputView::Propose { commitment, payload, justify_valid });
    }
    assert forall|checked: CheckedNewViewView|
        (#[trigger] n.deliver_new_view(checked, now)).0.in_step() by {
        let collected = NodeView { sync: n.sync.collect(checked), ..n };
        if n.sync.advances(checked) {
            lemma_enter_in_step(collected, collected.sync.state.spec_view(), now);
        }
    }
}

/// Liveness, second half: the NewView vote that carries the weight to the
/// threshold makes the node enter the next view under the leader that the
/// election draws for it, with a fresh deadline.
pub proof fn law_advance_enters_next_view(n: NodeView, checked: CheckedNewViewView, now: u64)
    requires
        n.in_step(),
        n.sync.advances(checked),
    ensures
        ({
            let next = (n.round.view + 1) as u64;
            let after = n.deliver_new_view(checked, now).0;
            &&& n.deliver_new_view(checked, now).1 == Some(
                AdvanceToView {
                    view: next,
                    high_qc: n.sync.higher(checked.vote.high_qc),
                    leader: elected(n.round.electorate(), next),
                },
            )
            &&& elected(n.round.electorate(), next) is Some
            &&& after.round.view == next
            &&& after.round.leader == elected(n.round.electorate(), next)
            &&& after.round.progress is Waiting
            &&& after.sync.state == (SyncState::Active {
                view: next,
                deadline: n.sync.deadline_from(now),
            })
        }),
{
    lemma_weight_le_total(n.sync.electorate, n.sync.signers_after(checked).to_set());
}

/// The round of a node's current view and its view synchronizer, with the
/// inputs that wait until they are due.
pub struct Node {
    round: Round,
    sync: ViewSynchronizer,
    own: Option<Vote>,
    kept: Vec<Input>,
}

impl View for Node {
    type V = NodeView;

    closed spec fn view(&self) -> NodeView {
        NodeView {
            round: self.round@,
            sync: self.sync@,
            own: self.own,
            kept: input_views(self.kept@),
        }
    }
}

impl Node {
    /// The invariant of the type.
    pub closed spec fn wf(&self) -> bool {
        &&& self.round.wf()
        &&& self.sync.wf()
        &&& self@.in_step()
        &&& self.kept@.len() <= KEPT_LIMIT
    }

    /// What every well-formed node satisfies.
    pub proof fn lemma_wf(&self)
        requires
            self.wf(),
        ensures
            self@.in_step(),
            self@.kept.len() <= KEPT_LIMIT,
    {
    }

    /// A node that has entered no view. A view may last `timeout` and must
    /// last `min_round_time` before its leader proposes.
    pub fn new(
        identity: u64,
        table: StakeTable,
        genesis: u64,
        timeout: u64,
        min_round_time: u64,
    ) -> (node: Node)
        requires
            table.wf(),
        ensures
            node.wf(),
            node@ == NodeView::initial(identity, table@, genesis, timeout, min_round_time),
    {
        let copy = table.snapshot();
        let node = Node {
            round: Round::new(identity, table, genesis),
            sync: ViewSynchronizer::new(identity, copy, genesis, timeout, min_round_time),
            own: None,
            kept: Vec::new(),
        };
        proof {
            assert(input_views(node.kept@) =~= Seq::<InputView>::empty());
        }
        node
    }

    /// The round of the current view.
    pub fn round(&self) -> (round: &Round)
        requires
            self.wf(),
        ensures
            round@ == self@.round,
            round.wf(),
    {
        &self.round
    }

    /// The view synchronizer.
    pub fn synchronizer(&self) -> (sync: &ViewSynchronizer)
        requires
            self.wf(),
        ensures
            sync@ == self@.sync,
            sync.wf(),
    {
        &self.sync
    }

    /// The number of inputs kept for later views.
    pub fn kept(&self) -> (n: usize)
        ensures
            n == self@.kept.len(),
    {
        self.kept.len()
    }

    fn enter(&mut self, view: u64, now: u64)
        requires
            old(self).round.wf(),
            old(self).sync.wf(),
            old(self).kept@.len() <= KEPT_LIMIT,
            old(self)@.may_enter(view),
        ensures
            final(self).wf(),
            final(self)@ == old(self)@.enter(view, now),
    {
        proof {
            lemma_enter_in_step(self@, view, now);
        }
        match self.round.enter_view(view) {
            Err(_) => {},
            Ok(state) => {
                let _ = self.sync.start_view(view, now);
                if state == RoundState::LeaderWaitingForHighQC {
                    let certificate = self.sync.high_qc().duplicate();
                    let _ = self.round.drive(
                        Input::Certificate { certificate, signature_valid: true },
                    );
                }
            },
        }
    }

    /// Notes the leader's own vote that the step cast, and follows the
    /// outcome of the step.
    fn conclude(&mut self, before: Ghost<NodeView>, step: &Step, now: u64)
        requires
            old(self).round.wf(),
            old(self).sync.wf(),
            old(self).kept@.len() <= KEPT_LIMIT,
            before@.in_step(),
            old(self)@.sync == before@.sync,
            old(self)@.own == before@.own,
            old(self)@.kept == before@.kept,
            old(self)@.round.view == before@.round.view,
            old(self)@.round.identity == before@.round.identity,
            old(self)@.round.genesis == before@.round.genesis,
            old(self)@.round.electorate() == before@.round.electorate(),
            old(self)@.round.progress is Waiting ==> before@.round.progress is Waiting,
            step@.outcome is Decided ==> before@.round.progress is Waiting,
        ensures
            final(self).wf(),
            final(self)@ == before@.stepped((old(self)@.round, step@), now),
    {
        proof {
            lemma_stepped_in_step(before@, (self@.round, step@), now);
        }
        match self.round.own_vote_of(&step.action) {
            Some(vote) => {
                self.own = Some(vote);
            },
            None => {},
        }
        let decided = match &step.outcome {
            Outcome::Decided(_) => true,
            _ => false,
        };
        if decided {
            self.sync.on_decided();
            let view = self.round.current_view();
            if view < u64::MAX {
                self.enter(view + 1, now);
            }
        }
    }

    /// Starts the node at time `now`: it enters the view that the
    /// synchronizer has advanced to, which is view one for a new node.
    /// Returns where the round stands.
    pub fn start(&mut self, now: u64) -> (progress: Progress)
        requires
            old(self).wf(),
        ensures
            final(self).wf(),
            final(self)@ == old(self)@.start(now),
            progress == final(self)@.round.progress,
    {
        match self.sync.state() {
            SyncState::Advanced { view } => {
                self.enter(view, now);
            },
            _ => {},
        }
        self.round.progress()
    }

    /// Keeps an input of a later view, if there is room.
    fn keep(&mut self, input: Input) -> (delivery: Delivery)
        requires
            old(self).wf(),
        ensures
            final(self).wf(),
            final(self)@ == old(self)@.keep(input@).0,
            delivery@ == old(self)@.keep(input@).1,
    {
        if self.kept.len() < KEPT_LIMIT {
            let ghost given = input@;
            self.kept.push(input);
            proof {
                assert(input_views(self.kept@) =~= input_views(old(self).kept@).push(given));
            }
            Delivery::Kept
        } else {
            Delivery::Ahead(input)
        }
    }

    /// Delivers an input at time `now`.
    pub fn deliver(&mut self, input: Input, now: u64) -> (delivery: Delivery)
        requires
            old(self).wf(),
        ensures
            final(self).wf(),
            final(self)@ == old(self)@.deliver(input@, now).0,
            delivery@ == old(self)@.deliver(input@, now).1,
    {
        match self.round.relevance(&input) {
            Relevance::Stale => Delivery::Stale,
            Relevance::Ahead => self.keep(input),
            Relevance::Current => {
                let ghost before = self@;
                proof {
                    lemma_step_keeps_frame(self@.round, input@);
                }
                let step = self.round.drive(input);
                self.conclude(Ghost(before), &step, now);
                Delivery::Taken(step)
            },
        }
    }

    /// Delivers an input at time `now`; `stored` is what the store answered
    /// when the record of the input was put on it.
    pub fn deliver_after_store(
        &mut self,
        stored: Result<(), BlockStorageError>,
        input: Input,
        now: u64,
    ) -> (delivery: Delivery)
        requires
            old(self).wf(),
        ensures
            final(self).wf(),
            final(self)@ == old(self)@.deliver_after_store(stored, input@, now).0,
            delivery@ == old(self)@.deliver_after_store(stored, input@, now).1,
    {
        match self.round.relevance(&input) {
            Relevance::Stale => Delivery::Stale,
            Relevance::Ahead => self.keep(input),
            Relevance::Current => {
                let ghost before = self@;
                proof {
                    lemma_step_keeps_frame(self@.round, input@);
                }
                let step = self.round.drive_after_store(stored, input);
                self.conclude(Ghost(before), &step, now);
                Delivery::Taken(step)
            },
        }
    }

    /// Delivers an input whose record is to be on the store before the
    /// round acts on it. The record is that of the proposal, for a proposal
    /// of the current view; any other input leaves the store alone. For such
    /// a proposal, either its record is stored and the input is delivered,
    /// or the store has failed and the delivery is that of a failed store.
    pub fn deliver_recorded<S: BlockStorage>(&mut self, storage: &mut S, input: Input, now: u64) -> (delivery:
        Delivery)
        requires
            old(self).wf(),
            old(storage).wf(),
        ensures
            final(self).wf(),
            final(storage).wf(),
            old(self)@.round.relevance(input@) != Relevance::Current || input@.record() is None
                ==> {
                &&& final(storage).records() == old(storage).records()
                &&& final(self)@ == old(self)@.deliver(input@, now).0
                &&& delivery@ == old(self)@.deliver(input@, now).1
            },
            old(self)@.round.relevance(input@) == Relevance::Current && input@.record() is Some
                ==> {
                ||| {
                    &&& final(storage).records() == appended(
                        old(storage).records(),
                        input@.record()->0,
                    )
                    &&& final(self)@ == old(self)@.deliver(input@, now).0
                    &&& delivery@ == old(self)@.deliver(input@, now).1
                }
                ||| {
                    &&& final(storage).records() == old(storage).records()
                    &&& exists|source: BlockStorageError|
                        {
                            &&& final(self)@ == (#[trigger] old(self)@.deliver_after_store(
                                Err(source),
                                input@,
                                now,
                            )).0
                            &&& delivery@ == old(self)@.deliver_after_store(
                                Err(source),
                                input@,
                                now,
                            ).1
                        }
                }
            },
    {
        let record = match self.round.relevance(&input) {
            Relevance::Current => match &input {
                Input::Proposal { proposal, .. } => Some(proposal.da_record()),
                _ => None,
            },
            _ => None,
        };
        match record {
            None => self.deliver(input, now),
            Some(record) => {
                let stored = storage.append(&record);
                let ghost answer = stored;
                let delivery = self.deliver_after_store(stored, input, now);
                proof {
                    if let Err(source) = answer {
                        assert(self@ == old(self)@.deliver_after_store(Err(source), input@, now).0);
                    }
                }
                delivery
            },
        }
    }

    /// Proposes the block at time `now`, if the minimum round time has
    /// passed; `justify_valid` tells whether the aggregate signature of the
    /// round's highest certificate is valid.
    pub fn propose(&mut self, commitment: u64, payload: u64, justify_valid: bool, now: u64) -> (step:
        Step)
        requires
            old(self).wf(),
        ensures
            final(self).wf(),
            final(self)@ == old(self)@.propose(commitment, payload, justify_valid, now).0,
            step@ == old(self)@.propose(commitment, payload, justify_valid, now).1,
    {
        if self.sync.proposal_due(now) {
            proof {
                lemma_step_keeps_frame(
                    self@.round,
                    InputView::Propose { commitment, payload, justify_valid },
                );
            }
            let step = self.round.drive(Input::Propose { commitment, payload, justify_valid });
            match self.round.own_vote_of(&step.action) {
                Some(vote) => {
                    self.own = Some(vote);
                },
                None => {},
            }
            step
        } else {
            Step { outcome: Outcome::Faulted(Rejection::TooEarly.fault()), action: Action::Idle }
        }
    }

    /// Takes out the next input that is due, to be delivered like any
    /// other: the node's own vote, or an input kept for the view that the
    /// node has entered by now.
    pub fn next_due(&mut self) -> (due: Option<Input>)
        requires
            old(self).wf(),
        ensures
            final(self).wf(),
            final(self)@ == old(self)@.next_due().0,
            match due {
                Some(input) => old(self)@.next_due().1 == Some(input@),
                None => old(self)@.next_due().1 is None,
            },
    {
        let own = self.own;
        self.own = None;
        match own {
            Some(vote) => {
                if vote.view == self.round.current_view() {
                    return Some(Input::Vote { vote, signature_valid: true });
                }
            },
            None => {},
        }
        let ghost start = self@;
        let ghost all = input_views(self.kept@);
        let ghost target = old(self)@.next_due();
        let mut i: usize = 0;
        proof {
            assert(all.take(0) =~= Seq::<InputView>::empty());
            assert(all.skip(0) =~= all);
            assert(Seq::<InputView>::empty() + sift(start.round, all).0 =~= sift(
                start.round,
                all,
            ).0);
        }
        while i < self.kept.len()
            invariant
                target == old(self)@.next_due(),
                target.0 == (NodeView { kept: sift(start.round, all).0, ..start }),
                target.1 == sift(start.round, all).1,
                start.own is None,
                self.round.wf(),
                self.sync.wf(),
                self@.round == start.round,
                self@.sync == start.sync,
                self@.in_step(),
                self.own is None,
                self.kept@.len() <= KEPT_LIMIT,
                i <= self.kept@.len(),
                sift(start.round, all).0 == self@.kept.take(i as int) + sift(
                    start.round,
                    self@.kept.skip(i as int),
                ).0,
                sift(start.round, all).1 == sift(start.round, self@.kept.skip(i as int)).1,
            decreases self.kept@.len() - i,
        {
            let ghost views = self@.kept;
            let ghost here = views[i as int];
            proof {
                assert(here == self.kept@[i as int]@);
                assert(views.skip(i as int).len() > 0);
                assert(views.skip(i as int).first() == here);
                assert(views.skip(i as int).drop_first() =~= views.skip(i as int + 1));
            }
            match self.round.relevance(&self.kept[i]) {
                Relevance::Stale => {
                    proof {
                        assert(start.round.relevance(here) == Relevance::Stale);
                        assert(sift(start.round, views.skip(i as int)) == sift(
                            start.round,
                            views.skip(i as int + 1),
                        ));
                    }
                    let _ = self.kept.remove(i);
                    proof {
                        assert(self@.kept =~= views.remove(i as int));
                        assert(self@.kept.take(i as int) =~= views.take(i as int));
                        assert(self@.kept.skip(i as int) =~= views.skip(i as int + 1));
                    }
                },
                Relevance::Ahead => {
                    proof {
                        assert(start.round.relevance(here) == Relevance::Ahead);
                        let rest = sift(start.round, views.skip(i as int + 1)).0;
                        assert(sift(start.round, views.skip(i as int)).0 == seq![here] + rest);
                        assert(views.take(i as int + 1) =~= views.take(i as int) + seq![
                            views[i as int],
                        ]);
                        assert((views.take(i as int) + seq![views[i as int]]) + rest
                            =~= views.take(i as int) + (seq![views[i as int]] + rest));
                    }
                    i += 1;
                },
                Relevance::Current => {
                    proof {
                        assert(start.round.relevance(here) == Relevance::Current);
                        assert(sift(start.round, views.skip(i as int)) == (
                            views.skip(i as int + 1),
                            Some(here),
                        ));
                    }
                    let input = self.kept.remove(i);
                    proof {
                        assert(input@ == here);
                        assert(self@.kept =~= views.remove(i as int));
                        assert(self@.kept =~= views.take(i as int) + views.skip(i as int + 1));
                    }
                    return Some(input);
                },
            }
        }
        proof {
            let views = self@.kept;
            assert(views.skip(i as int) =~= Seq::<InputView>::empty());
            assert(views.take(i as int) =~= views);
            assert(views + Seq::<InputView>::empty() =~= views);
        }
        None
    }

    /// Lets time come to `now`. When the deadline has expired the view is
    /// given up: the result holds the step of the round and the NewView vote
    /// to broadcast.
    pub fn tick(&mut self, now: u64) -> (expiry: Option<Expiry>)
        requires
            old(self).wf(),
        ensures
            final(self).wf(),
            final(self)@ == old(self)@.tick(now).0,
            match expiry {
                Some(e) => old(self)@.tick(now).1 == Some(e@),
                None => old(self)@.tick(now).1 is None,
            },
    {
        if !self.sync.expired(now) {
            return None;
        }
        let view = self.sync.state().view();
        proof {
            lemma_step_keeps_frame(self@.round, InputView::Timeout);
        }
        let step = self.round.drive(Input::Timeout);
        match self.sync.on_timeout(view, self.round.high_qc()) {
            Ok(vote) => Some(Expiry { step, vote }),
            Err(_) => None,
        }
    }

    /// Delivers a NewView vote at time `now`. Returns the order to advance
    /// when this vote makes the synchronizer advance; the node has then
    /// entered the view of the order.
    pub fn deliver_new_view(&mut self, checked: &CheckedNewView, now: u64) -> (advance: Option<
        AdvanceTo,
    >)
        requires
            old(self).wf(),
        ensures
            final(self).wf(),
            final(self)@ == old(self)@.deliver_new_view(checked@, now).0,
            match advance {
                Some(order) => old(self)@.deliver_new_view(checked@, now).1 == Some(order@),
                None => old(self)@.deliver_new_view(checked@, now).1 is None,
            },
    {
        match self.sync.on_new_view_vote(checked) {
            Some(order) => {
                self.enter(order.view, now);
                Some(order)
            },
            None => None,
        }
    }
}

} // verus!
