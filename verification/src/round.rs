//! The state machine that drives one node through the phases of a view.
//!
//! A [`Round`] is either the leader or a replica of its current view, as the
//! election decides when the view is entered. The leader waits for a
//! certificate to build on, proposes, and collects the votes of three phases
//! into three certificates. A replica votes on the proposal and on the first
//! two certificates, and commits the leaf on the third. Every wait ends in
//! [`Progress::Abandoned`] when its deadline expires.
//!
//! The machine performs no I/O. [`Round::drive`] takes one input, changes the
//! state and returns what to send; its value is the function
//! [`RoundView::step`]. Two values outlive a view: the lock, which is the
//! view of the latest certificate that the replica voted to commit, and the
//! highest certificate seen.

use crate::certificate::{
    has_quorum_weight, verification_fault, verify_certificate, TallyView, VoteAccumulator,
};
use crate::data::{
    genesis_certificate, CertificateView, Leaf, LeafView, Phase, Proposal, ProposalView,
    QuorumCertificate, Vote,
};
use crate::election::{elected, leader_for};
use crate::error::{FaultView, HotShotError, RoundTimedoutState};
use crate::stake_table::{StakeTable, StakeTableEntry};
use crate::traits::block_storage::{appended, BlockStorage, BlockStorageError, ProposalType};
use vstd::prelude::*;

verus! {

/// The part that a node plays in a view.
#[derive(Clone, Copy, Debug, PartialEq, Eq, Structural)]
pub enum Role {
    Leader,
    Replica,
}

/// What a round is waiting for.
#[derive(Clone, Copy, Debug, PartialEq, Eq, Structural)]
pub enum RoundState {
    LeaderWaitingForHighQC,
    LeaderMinRoundTimeNotReached,
    LeaderWaitingForPrepareVotes,
    LeaderWaitingForPreCommitVotes,
    LeaderWaitingForCommitVotes,
    ReplicaWaitingForPrepare,
    ReplicaWaitingForPreCommit,
    ReplicaWaitingForCommit,
    ReplicaWaitingForDecide,
}

impl RoundState {
    /// The state as a timeout fault reports it.
    pub open spec fn spec_timed_out(self) -> RoundTimedoutState {
        match self {
            RoundState::LeaderWaitingForHighQC => RoundTimedoutState::LeaderWaitingForHighQC,
            RoundState::LeaderMinRoundTimeNotReached => RoundTimedoutState::LeaderMinRoundTimeNotReached,
            RoundState::LeaderWaitingForPrepareVotes => RoundTimedoutState::LeaderWaitingForPrepareVotes,
            RoundState::LeaderWaitingForPreCommitVotes => RoundTimedoutState::LeaderWaitingForPreCommitVotes,
            RoundState::LeaderWaitingForCommitVotes => RoundTimedoutState::LeaderWaitingForCommitVotes,
            RoundState::ReplicaWaitingForPrepare => RoundTimedoutState::ReplicaWaitingForPrepare,
            RoundState::ReplicaWaitingForPreCommit => RoundTimedoutState::ReplicaWaitingForPreCommit,
            RoundState::ReplicaWaitingForCommit => RoundTimedoutState::ReplicaWaitingForCommit,
            RoundState::ReplicaWaitingForDecide => RoundTimedoutState::ReplicaWaitingForDecide,
        }
    }

    #[verifier::when_used_as_spec(spec_timed_out)]
    pub fn timed_out(self) -> (state: RoundTimedoutState)
        ensures
            state == self.spec_timed_out(),
    {
        match self {
            RoundState::LeaderWaitingForHighQC => RoundTimedoutState::LeaderWaitingForHighQC,
            RoundState::LeaderMinRoundTimeNotReached => RoundTimedoutState::LeaderMinRoundTimeNotReached,
            RoundState::LeaderWaitingForPrepareVotes => RoundTimedoutState::LeaderWaitingForPrepareVotes,
            RoundState::LeaderWaitingForPreCommitVotes => RoundTimedoutState::LeaderWaitingForPreCommitVotes,
            RoundState::LeaderWaitingForCommitVotes => RoundTimedoutState::LeaderWaitingForCommitVotes,
            RoundState::ReplicaWaitingForPrepare => RoundTimedoutState::ReplicaWaitingForPrepare,
            RoundState::ReplicaWaitingForPreCommit => RoundTimedoutState::ReplicaWaitingForPreCommit,
            RoundState::ReplicaWaitingForCommit => RoundTimedoutState::ReplicaWaitingForCommit,
            RoundState::ReplicaWaitingForDecide => RoundTimedoutState::ReplicaWaitingForDecide,
        }
    }

    /// The role that waits in this state.
    pub open spec fn spec_role(self) -> Role {
        match self {
            RoundState::LeaderWaitingForHighQC => Role::Leader,
            RoundState::LeaderMinRoundTimeNotReached => Role::Leader,
            RoundState::LeaderWaitingForPrepareVotes => Role::Leader,
            RoundState::LeaderWaitingForPreCommitVotes => Role::Leader,
            RoundState::LeaderWaitingForCommitVotes => Role::Leader,
            _ => Role::Replica,
        }
    }

    #[verifier::when_used_as_spec(spec_role)]
    pub fn role(self) -> (role: Role)
        ensures
            role == self.spec_role(),
    {
        match self {
            RoundState::LeaderWaitingForHighQC => Role::Leader,
            RoundState::LeaderMinRoundTimeNotReached => Role::Leader,
            RoundState::LeaderWaitingForPrepareVotes => Role::Leader,
            RoundState::LeaderWaitingForPreCommitVotes => Role::Leader,
            RoundState::LeaderWaitingForCommitVotes => Role::Leader,
            _ => Role::Replica,
        }
    }

    /// The phase whose certificate a replica awaits in this state.
    pub open spec fn awaited_certificate(self) -> Option<Phase> {
        match self {
            RoundState::ReplicaWaitingForPreCommit => Some(Phase::Prepare),
            RoundState::ReplicaWaitingForCommit => Some(Phase::PreCommit),
            RoundState::ReplicaWaitingForDecide => Some(Phase::Commit),
            _ => None,
        }
    }

    /// The phase whose votes a leader collects in this state.
    pub open spec fn collected_votes(self) -> Option<Phase> {
        match self {
            RoundState::LeaderWaitingForPrepareVotes => Some(Phase::Prepare),
            RoundState::LeaderWaitingForPreCommitVotes => Some(Phase::PreCommit),
            RoundState::LeaderWaitingForCommitVotes => Some(Phase::Commit),
            _ => None,
        }
    }
}

/// Where a round stands: waiting, or in one of its two terminal states.
#[derive(Clone, Copy, Debug, PartialEq, Eq, Structural)]
pub enum Progress {
    Waiting(RoundState),
    Decided,
    Abandoned,
}

/// How the view that an input was made in relates to the view of the round.
/// A stale input is dropped. An input that is ahead is kept by the caller
/// and delivered once the round has entered its view.
#[derive(Clone, Copy, Debug, PartialEq, Eq, Structural)]
pub enum Relevance {
    Stale,
    Current,
    Ahead,
}

/// Why an input was dropped without a change of state.
#[derive(Clone, Copy, Debug, PartialEq, Eq, Structural)]
pub enum Rejection {
    UnexpectedInput,
    WrongView,
    WrongProposer,
    Unjustified,
    BelowLock,
    UnknownRoot,
    WrongTarget,
    NotAdvancing,
    NoLeader,
    StaleTimeout,
    TooEarly,
    UnboundCommitment,
}

impl Rejection {
    /// The context that the fault carries.
    pub open spec fn text(self) -> Seq<char> {
        match self {
            Rejection::UnexpectedInput => "input does not fit the state of the round"@,
            Rejection::WrongView => "proposal for another view"@,
            Rejection::WrongProposer => "proposal not from the leader of the view"@,
            Rejection::Unjustified => "certificate cannot justify a proposal in this view"@,
            Rejection::BelowLock => "proposal is justified below the lock"@,
            Rejection::UnknownRoot => "certificate of view zero for an unknown root"@,
            Rejection::WrongTarget => "certificate for another view, phase or leaf"@,
            Rejection::NotAdvancing => "view to enter is not beyond the current view"@,
            Rejection::NoLeader => "stake table elects no leader"@,
            Rejection::StaleTimeout => "timeout for a view that is not active"@,
            Rejection::TooEarly => "minimum round time has not passed"@,
            Rejection::UnboundCommitment => "proposal does not carry the commitment of its leaf"@,
        }
    }

    /// The fault that reports the rejection.
    pub open spec fn fault_view(self) -> FaultView {
        FaultView::InvalidState { context: self.text() }
    }

    pub fn fault(self) -> (fault: HotShotError)
        ensures
            fault@ == self.fault_view(),
    {
        match self {
            Rejection::UnexpectedInput => HotShotError::invalid_state(
                "input does not fit the state of the round",
            ),
            Rejection::WrongView => HotShotError::invalid_state("proposal for another view"),
            Rejection::WrongProposer => HotShotError::invalid_state(
                "proposal not from the leader of the view",
            ),
            Rejection::Unjustified => HotShotError::invalid_state(
                "certificate cannot justify a proposal in this view",
            ),
            Rejection::BelowLock => HotShotError::invalid_state(
                "proposal is justified below the lock",
            ),
            Rejection::UnknownRoot => HotShotError::invalid_state(
                "certificate of view zero for an unknown root",
            ),
            Rejection::WrongTarget => HotShotError::invalid_state(
                "certificate for another view, phase or leaf",
            ),
            Rejection::NotAdvancing => HotShotError::invalid_state(
                "view to enter is not beyond the current view",
            ),
            Rejection::NoLeader => HotShotError::invalid_state("stake table elects no leader"),
            Rejection::StaleTimeout => HotShotError::invalid_state(
                "timeout for a view that is not active",
            ),
            Rejection::TooEarly => HotShotError::invalid_state("minimum round time has not passed"),
            Rejection::UnboundCommitment => HotShotError::invalid_state(
                "proposal does not carry the commitment of its leaf",
            ),
        }
    }
}

/// What a round is driven with. Every signed value comes with the outcome of
/// its signature check.
#[derive(Clone, Debug, PartialEq, Eq)]
pub enum Input {
    /// The leader's proposal, whether the aggregate signature of the
    /// certificate in it was valid, and whether the commitment it names is
    /// that of its leaf.
    Proposal { proposal: Proposal, justify_valid: bool, commitment_valid: bool },
    /// A vote sent to the leader.
    Vote { vote: Vote, signature_valid: bool },
    /// A certificate, and whether its aggregate signature was valid.
    Certificate { certificate: QuorumCertificate, signature_valid: bool },
    /// This block is ready to be proposed on the highest certificate;
    /// `justify_valid` tells whether the aggregate signature of that
    /// certificate is valid.
    Propose { commitment: u64, payload: u64, justify_valid: bool },
    /// The deadline of the current wait has expired.
    Timeout,
}

/// The mathematical value of an [`Input`].
pub enum InputView {
    Proposal { proposal: ProposalView, justify_valid: bool, commitment_valid: bool },
    Vote { vote: Vote, signature_valid: bool },
    Certificate { certificate: CertificateView, signature_valid: bool },
    Propose { commitment: u64, payload: u64, justify_valid: bool },
    Timeout,
}

impl InputView {
    /// The record that is to be on the store before the round acts on the
    /// input: that of the proposal, for a proposal.
    pub open spec fn record(self) -> Option<ProposalType> {
        match self {
            InputView::Proposal { proposal, .. } => Some(proposal.da_record()),
            _ => None,
        }
    }

    /// The view that the input was made in; none for an event of the node's
    /// own.
    pub open spec fn made_in(self) -> Option<u64> {
        match self {
            InputView::Proposal { proposal, .. } => Some(proposal.leaf.view),
            InputView::Vote { vote, .. } => Some(vote.view),
            InputView::Certificate { certificate, .. } => Some(certificate.view),
            _ => None,
        }
    }
}

impl View for Input {
    type V = InputView;

    open spec fn view(&self) -> InputView {
        match *self {
            Input::Proposal { proposal, justify_valid, commitment_valid } => InputView::Proposal {
                proposal: proposal@,
                justify_valid,
                commitment_valid,
            },
            Input::Vote { vote, signature_valid } => InputView::Vote { vote, signature_valid },
            Input::Certificate { certificate, signature_valid } => InputView::Certificate {
                certificate: certificate@,
                signature_valid,
            },
            Input::Propose { commitment, payload, justify_valid } => InputView::Propose {
                commitment,
                payload,
                justify_valid,
            },
            Input::Timeout => InputView::Timeout,
        }
    }
}

/// What the caller sends after a step.
#[derive(Clone, Debug, PartialEq, Eq)]
pub enum Action {
    /// Nothing.
    Idle,
    /// Broadcast the proposal.
    BroadcastProposal(Proposal),
    /// Broadcast the certificate.
    BroadcastCertificate(QuorumCertificate),
    /// Sign the vote and send it to the leader of the view.
    SendVote(Vote),
}

/// The mathematical value of an [`Action`].
pub enum ActionView {
    Idle,
    BroadcastProposal(ProposalView),
    BroadcastCertificate(CertificateView),
    SendVote(Vote),
}

impl View for Action {
    type V = ActionView;

    open spec fn view(&self) -> ActionView {
        match *self {
            Action::Idle => ActionView::Idle,
            Action::BroadcastProposal(proposal) => ActionView::BroadcastProposal(proposal@),
            Action::BroadcastCertificate(certificate) => ActionView::BroadcastCertificate(
                certificate@,
            ),
            Action::SendVote(vote) => ActionView::SendVote(vote),
        }
    }
}

/// How a step ended: the leaf is committed, the round waits on, or the input
/// was refused or the wait gave up.
#[derive(Clone, Debug, PartialEq, Eq)]
pub enum Outcome {
    Decided(Leaf),
    Pending(RoundState),
    Faulted(HotShotError),
}

/// The mathematical value of an [`Outcome`].
pub enum OutcomeView {
    Decided(LeafView),
    Pending(RoundState),
    Faulted(FaultView),
}

impl View for Outcome {
    type V = OutcomeView;

    open spec fn view(&self) -> OutcomeView {
        match *self {
            Outcome::Decided(leaf) => OutcomeView::Decided(leaf@),
            Outcome::Pending(state) => OutcomeView::Pending(state),
            Outcome::Faulted(fault) => OutcomeView::Faulted(fault@),
        }
    }
}

/// The result of one step.
#[derive(Clone, Debug, PartialEq, Eq)]
pub struct Step {
    pub outcome: Outcome,
    pub action: Action,
}

/// The mathematical value of a [`Step`].
pub struct StepView {
    pub outcome: OutcomeView,
    pub action: ActionView,
}

impl View for Step {
    type V = StepView;

    open spec fn view(&self) -> StepView {
        StepView { outcome: self.outcome@, action: self.action@ }
    }
}

/// The mathematical value of a [`Round`].
pub struct RoundView {
    /// The node that runs the round.
    pub identity: u64,
    /// Commitment of the root of the chain.
    pub genesis: u64,
    /// The current view; zero before the first view is entered.
    pub view: u64,
    /// The leader of the current view.
    pub leader: Option<u64>,
    pub progress: Progress,
    /// The leaf that the current view is about.
    pub candidate: Option<LeafView>,
    /// The lock: the latest view in which the node voted to commit.
    pub locked_view: u64,
    /// The highest certificate seen.
    pub high_qc: CertificateView,
    /// The votes that the leader has collected; its electorate is the stake
    /// table of the round.
    pub tally: TallyView,
}

impl RoundView {
    /// A round that has entered no view yet: the root counts as decided.
    pub open spec fn initial(
        identity: u64,
        electorate: Seq<StakeTableEntry>,
        genesis: u64,
    ) -> RoundView {
        RoundView {
            identity,
            genesis,
            view: 0,
            leader: None,
            progress: Progress::Decided,
            candidate: None,
            locked_view: 0,
            high_qc: genesis_certificate(genesis),
            tally: TallyView {
                electorate,
                view: 0,
                phase: Phase::Prepare,
                leaf: genesis,
                signers: Seq::empty(),
            },
        }
    }

    pub open spec fn electorate(self) -> Seq<StakeTableEntry> {
        self.tally.electorate
    }

    /// Compare and replace: the certificate takes the place of the highest
    /// one only if its view is higher.
    pub open spec fn higher(self, certificate: CertificateView) -> CertificateView {
        if certificate.view > self.high_qc.view {
            certificate
        } else {
            self.high_qc
        }
    }

    /// Whether a certificate passes verification.
    pub open spec fn certified(self, certificate: CertificateView, signature_valid: bool) -> bool {
        signature_valid && has_quorum_weight(self.electorate(), certificate)
    }

    /// The vote of this node in the current view.
    pub open spec fn own_vote(self, phase: Phase, leaf: u64) -> Vote {
        Vote { view: self.view, phase, leaf, signer: self.identity }
    }

    /// The input is refused with `fault`; nothing changes.
    pub open spec fn faulted(self, fault: FaultView) -> (RoundView, StepView) {
        (self, StepView { outcome: OutcomeView::Faulted(fault), action: ActionView::Idle })
    }

    /// The input is dropped as not fitting; nothing changes.
    pub open spec fn rejected(self, why: Rejection) -> (RoundView, StepView) {
        self.faulted(why.fault_view())
    }

    /// Entering `view`: refused unless the view lies beyond the current one
    /// and the table elects a leader. The lock and the highest certificate
    /// stay; whatever the round waited for is given up.
    pub open spec fn enter(self, view: u64) -> (RoundView, Result<RoundState, FaultView>) {
        if view <= self.view {
            (self, Err(Rejection::NotAdvancing.fault_view()))
        } else {
            match elected(self.electorate(), view) {
                None => (self, Err(Rejection::NoLeader.fault_view())),
                Some(leader) => {
                    let state = if leader == self.identity {
                        RoundState::LeaderWaitingForHighQC
                    } else {
                        RoundState::ReplicaWaitingForPrepare
                    };
                    (
                        RoundView {
                            view,
                            leader: Some(leader),
                            progress: Progress::Waiting(state),
                            candidate: None,
                            ..self
                        },
                        Ok(state),
                    )
                },
            }
        }
    }

    /// A replica casts its Prepare vote for the proposal.
    pub open spec fn vote_prepare(self, proposal: ProposalView) -> (RoundView, StepView) {
        (
            RoundView {
                progress: Progress::Waiting(RoundState::ReplicaWaitingForPreCommit),
                candidate: Some(proposal.leaf),
                high_qc: self.higher(proposal.leaf.justify),
                ..self
            },
            StepView {
                outcome: OutcomeView::Pending(RoundState::ReplicaWaitingForPreCommit),
                action: ActionView::SendVote(
                    self.own_vote(Phase::Prepare, proposal.leaf.commitment),
                ),
            },
        )
    }

    /// A replica that waits for the proposal receives one.
    ///
    /// The proposal must be for the current view, from its leader, and
    /// name the commitment of its leaf, and the leaf must extend the leaf of
    /// the Prepare certificate of an earlier view that it carries. The lock
    /// rule refuses a certificate below the lock. A certificate of view zero
    /// must name the root; any other must pass verification.
    pub open spec fn on_proposal(
        self,
        proposal: ProposalView,
        justify_valid: bool,
        commitment_valid: bool,
    ) -> (RoundView, StepView) {
        let justify = proposal.leaf.justify;
        if proposal.leaf.view != self.view {
            self.rejected(Rejection::WrongView)
        } else if Some(proposal.proposer) != self.leader {
            self.rejected(Rejection::WrongProposer)
        } else if !commitment_valid {
            self.rejected(Rejection::UnboundCommitment)
        } else if justify.phase != Phase::Prepare || justify.view >= self.view || justify.leaf
            != proposal.leaf.parent {
            self.rejected(Rejection::Unjustified)
        } else if justify.view < self.locked_view {
            self.rejected(Rejection::BelowLock)
        } else if justify.view == 0 {
            if justify.leaf != self.genesis {
                self.rejected(Rejection::UnknownRoot)
            } else {
                self.vote_prepare(proposal)
            }
        } else if !self.certified(justify, justify_valid) {
            self.faulted(verification_fault(self.electorate(), justify, justify_valid))
        } else {
            self.vote_prepare(proposal)
        }
    }

    /// A replica that waits for a certificate receives one.
    ///
    /// The certificate must be for the current view, the awaited phase and
    /// the candidate leaf, and must pass verification. On the Prepare
    /// certificate the replica votes PreCommit; on the PreCommit certificate
    /// it locks on the current view and votes Commit; on the Commit
    /// certificate it commits the leaf.
    pub open spec fn on_certificate(
        self,
        state: RoundState,
        certificate: CertificateView,
        signature_valid: bool,
    ) -> (RoundView, StepView) {
        match (state.awaited_certificate(), self.candidate) {
            (Some(phase), Some(leaf)) => {
                if certificate.view != self.view || certificate.phase != phase || certificate.leaf
                    != leaf.commitment {
                    self.rejected(Rejection::WrongTarget)
                } else if !self.certified(certificate, signature_valid) {
                    self.faulted(
                        verification_fault(self.electorate(), certificate, signature_valid),
                    )
                } else {
                    match phase {
                        Phase::Prepare => (
                            RoundView {
                                progress: Progress::Waiting(RoundState::ReplicaWaitingForCommit),
                                high_qc: self.higher(certificate),
                                ..self
                            },
                            StepView {
                                outcome: OutcomeView::Pending(RoundState::ReplicaWaitingForCommit),
                                action: ActionView::SendVote(
                                    self.own_vote(Phase::PreCommit, leaf.commitment),
                                ),
                            },
                        ),
                        Phase::PreCommit => (
                            RoundView {
                                progress: Progress::Waiting(RoundState::ReplicaWaitingForDecide),
                                locked_view: self.view,
                                ..self
                            },
                            StepView {
                                outcome: OutcomeView::Pending(RoundState::ReplicaWaitingForDecide),
                                action: ActionView::SendVote(
                                    self.own_vote(Phase::Commit, leaf.commitment),
                                ),
                            },
                        ),
                        _ => (
                            RoundView { progress: Progress::Decided, ..self },
                            StepView {
                                outcome: OutcomeView::Decided(leaf),
                                action: ActionView::Idle,
                            },
                        ),
                    }
                }
            },
            _ => self.rejected(Rejection::UnexpectedInput),
        }
    }

    /// A leader that waits for a certificate to build on receives one: a
    /// Prepare certificate of an earlier view, which names the root if it is
    /// of view zero and passes verification otherwise.
    pub open spec fn on_high_qc(self, certificate: CertificateView, signature_valid: bool) -> (
        RoundView,
        StepView,
    ) {
        let adopted = (
            RoundView {
                progress: Progress::Waiting(RoundState::LeaderMinRoundTimeNotReached),
                high_qc: self.higher(certificate),
                ..self
            },
            StepView {
                outcome: OutcomeView::Pending(RoundState::LeaderMinRoundTimeNotReached),
                action: ActionView::Idle,
            },
        );
        if certificate.phase != Phase::Prepare || certificate.view >= self.view {
            self.rejected(Rejection::Unjustified)
        } else if certificate.view == 0 {
            if certificate.leaf != self.genesis {
                self.rejected(Rejection::UnknownRoot)
            } else {
                adopted
            }
        } else if !self.certified(certificate, signature_valid) {
            self.faulted(verification_fault(self.electorate(), certificate, signature_valid))
        } else {
            adopted
        }
    }

    /// The leaf that the leader proposes: a child of the leaf of the highest
    /// certificate, which justifies it.
    pub open spec fn proposed_leaf(self, commitment: u64, payload: u64) -> LeafView {
        LeafView {
            commitment,
            parent: self.high_qc.leaf,
            view: self.view,
            payload,
            justify: self.high_qc,
        }
    }

    /// The leader proposes a leaf on its highest certificate, casts its own
    /// Prepare vote for it and starts to collect Prepare votes.
    ///
    /// The leader holds its own proposal to what it asks of any other: the
    /// certificate must be a Prepare certificate of an earlier view, not
    /// below the lock, and must name the root if it is of view zero and pass
    /// verification otherwise.
    pub open spec fn on_propose(self, commitment: u64, payload: u64, justify_valid: bool) -> (
        RoundView,
        StepView,
    ) {
        let leaf = self.proposed_leaf(commitment, payload);
        let proposed = (
            RoundView {
                progress: Progress::Waiting(RoundState::LeaderWaitingForPrepareVotes),
                candidate: Some(leaf),
                tally: self.tally.restarted(self.view, Phase::Prepare, commitment),
                ..self
            },
            StepView {
                outcome: OutcomeView::Pending(RoundState::LeaderWaitingForPrepareVotes),
                action: ActionView::BroadcastProposal(
                    ProposalView { leaf, proposer: self.identity },
                ),
            },
        );
        if self.high_qc.phase != Phase::Prepare || self.high_qc.view >= self.view {
            self.rejected(Rejection::Unjustified)
        } else if self.high_qc.view < self.locked_view {
            self.rejected(Rejection::BelowLock)
        } else if self.high_qc.view == 0 {
            if self.high_qc.leaf != self.genesis {
                self.rejected(Rejection::UnknownRoot)
            } else {
                proposed
            }
        } else if !self.certified(self.high_qc, justify_valid) {
            self.faulted(verification_fault(self.electorate(), self.high_qc, justify_valid))
        } else {
            proposed
        }
    }

    /// The vote that the node casts for itself when it performs `action` as
    /// leader: its Prepare vote with the proposal, its PreCommit vote with
    /// the Prepare certificate, its Commit vote with the PreCommit
    /// certificate. The vote is not counted by the step that casts it; it is
    /// handed to the round like any other vote.
    pub open spec fn own_vote_of(self, action: ActionView) -> Option<Vote> {
        match action {
            ActionView::BroadcastProposal(proposal) => Some(
                self.own_vote(Phase::Prepare, proposal.leaf.commitment),
            ),
            ActionView::BroadcastCertificate(certificate) => match certificate.phase {
                Phase::Prepare => Some(self.own_vote(Phase::PreCommit, certificate.leaf)),
                Phase::PreCommit => Some(self.own_vote(Phase::Commit, certificate.leaf)),
                _ => None,
            },
            _ => None,
        }
    }

    /// The tally of a leader that collects votes is aimed at the phase that
    /// it collects, in the current view and for the candidate.
    pub open spec fn aimed(self) -> bool {
        self.progress matches Progress::Waiting(state) ==> (
        state.collected_votes() matches Some(phase) ==> {
            &&& self.tally.view == self.view
            &&& self.tally.phase == phase
            &&& self.candidate is Some
            &&& self.tally.leaf == self.candidate->0.commitment
        })
    }

    /// The vote that a step casts: the vote sent to the leader, or the
    /// leader's own.
    pub open spec fn vote_of(self, step: StepView) -> Option<Vote> {
        match step.action {
            ActionView::SendVote(vote) => Some(vote),
            _ => self.own_vote_of(step.action),
        }
    }

    /// The leader receives a vote. A vote that does not count leaves the
    /// tally as it was. The vote that forms the certificate ends the phase:
    /// the certificate is broadcast and the next phase begins with an empty
    /// tally, or, after the Commit phase, the leaf is decided. With the
    /// PreCommit certificate the leader locks on the view, as a replica
    /// does when it votes Commit.
    pub open spec fn on_vote(self, state: RoundState, vote: Vote, signature_valid: bool) -> (
        RoundView,
        StepView,
    ) {
        match (state.collected_votes(), self.candidate) {
            (Some(phase), Some(leaf)) => {
                let tally = self.tally.accept(vote, signature_valid);
                if !self.tally.forms_certificate(vote, signature_valid) {
                    (
                        RoundView { tally, ..self },
                        StepView {
                            outcome: OutcomeView::Pending(state),
                            action: ActionView::Idle,
                        },
                    )
                } else {
                    let certificate = tally.certificate();
                    let action = ActionView::BroadcastCertificate(certificate);
                    match phase {
                        Phase::Prepare => (
                            RoundView {
                                progress: Progress::Waiting(
                                    RoundState::LeaderWaitingForPreCommitVotes,
                                ),
                                high_qc: self.higher(certificate),
                                tally: tally.restarted(
                                    self.view,
                                    Phase::PreCommit,
                                    leaf.commitment,
                                ),
                                ..self
                            },
                            StepView {
                                outcome: OutcomeView::Pending(
                                    RoundState::LeaderWaitingForPreCommitVotes,
                                ),
                                action,
                            },
                        ),
                        Phase::PreCommit => (
                            RoundView {
                                progress: Progress::Waiting(RoundState::LeaderWaitingForCommitVotes),
                                locked_view: self.view,
                                tally: tally.restarted(self.view, Phase::Commit, leaf.commitment),
                                ..self
                            },
                            StepView {
                                outcome: OutcomeView::Pending(
                                    RoundState::LeaderWaitingForCommitVotes,
                                ),
                                action,
                            },
                        ),
                        _ => (
                            RoundView { progress: Progress::Decided, tally, ..self },
                            StepView { outcome: OutcomeView::Decided(leaf), action },
                        ),
                    }
                }
            },
            _ => self.rejected(Rejection::UnexpectedInput),
        }
    }

    /// The deadline of a wait expires: the view is abandoned and the fault
    /// names the view and the state.
    pub open spec fn on_timeout(self, state: RoundState) -> (RoundView, StepView) {
        (
            RoundView { progress: Progress::Abandoned, ..self },
            StepView {
                outcome: OutcomeView::Faulted(
                    FaultView::ViewTimeoutError {
                        view_number: self.view,
                        state: state.spec_timed_out(),
                    },
                ),
                action: ActionView::Idle,
            },
        )
    }

    /// The step after an attempt to put a record on the store: the round is
    /// driven only if the record was stored; a failure of the store is
    /// reported as a storage fault and changes nothing.
    pub open spec fn step_after_store(
        self,
        stored: Result<(), BlockStorageError>,
        input: InputView,
    ) -> (RoundView, StepView) {
        match stored {
            Ok(_) => self.step(input),
            Err(source) => self.faulted(FaultView::StorageError { source }),
        }
    }

    /// How an input relates to the current view. The node's own events are
    /// always current, and so is any certificate while the leader waits for
    /// one to build on, which is of an earlier view by its nature.
    pub open spec fn relevance(self, input: InputView) -> Relevance {
        match input.made_in() {
            None => Relevance::Current,
            Some(view) => {
                if input is Certificate && self.progress == Progress::Waiting(
                    RoundState::LeaderWaitingForHighQC,
                ) {
                    Relevance::Current
                } else if view < self.view {
                    Relevance::Stale
                } else if view == self.view {
                    Relevance::Current
                } else {
                    Relevance::Ahead
                }
            },
        }
    }

    /// The transition function of the round: the state after `input`, and
    /// what the step returns. A round that is not waiting, and a waiting
    /// round that gets an input of another kind than it waits for, drops the
    /// input with [`Rejection::UnexpectedInput`].
    pub open spec fn step(self, input: InputView) -> (RoundView, StepView) {
        match self.progress {
            Progress::Waiting(state) => match input {
                InputView::Timeout => self.on_timeout(state),
                InputView::Proposal { proposal, justify_valid, commitment_valid } => {
                    if state == RoundState::ReplicaWaitingForPrepare {
                        self.on_proposal(proposal, justify_valid, commitment_valid)
                    } else {
                        self.rejected(Rejection::UnexpectedInput)
                    }
                },
                InputView::Certificate { certificate, signature_valid } => {
                    if state == RoundState::LeaderWaitingForHighQC {
                        self.on_high_qc(certificate, signature_valid)
                    } else {
                        self.on_certificate(state, certificate, signature_valid)
                    }
                },
                InputView::Propose { commitment, payload, justify_valid } => {
                    if state == RoundState::LeaderMinRoundTimeNotReached {
                        self.on_propose(commitment, payload, justify_valid)
                    } else {
                        self.rejected(Rejection::UnexpectedInput)
                    }
                },
                InputView::Vote { vote, signature_valid } => self.on_vote(
                    state,
                    vote,
                    signature_valid,
                ),
            },
            _ => self.rejected(Rejection::UnexpectedInput),
        }
    }
}

/// Ordering: an input made in another view than the current one never acts.
/// Whether stale or ahead, it leaves the round as it was and nothing is
/// sent. The tally of a leader is aimed at the current view from the
/// proposal on.
pub proof fn law_only_current_inputs_act(r: RoundView, input: InputView)
    requires
        r.relevance(input) != Relevance::Current,
        r.tally.view == r.view,
    ensures
        r.step(input).0 == r,
        r.step(input).1.action == ActionView::Idle,
{
}

/// Liveness, first half: a round that waits gives its view up when the
/// deadline expires, whatever it waited for. The fault names the view and
/// the state; nothing is sent.
pub proof fn law_timeout_abandons(r: RoundView, state: RoundState)
    requires
        r.progress == Progress::Waiting(state),
    ensures
        r.step(InputView::Timeout).0 == (RoundView { progress: Progress::Abandoned, ..r }),
        r.step(InputView::Timeout).1 == (StepView {
            outcome: OutcomeView::Faulted(
                FaultView::ViewTimeoutError {
                    view_number: r.view,
                    state: state.spec_timed_out(),
                },
            ),
            action: ActionView::Idle,
        }),
{
}

/// Lock rule, one step: a proposal whose certificate is of a view below the
/// lock is refused as an invalid state, in whatever state the round is. No
/// vote is cast and the round stays as it was.
pub proof fn law_refuses_below_lock(
    r: RoundView,
    proposal: ProposalView,
    justify_valid: bool,
    commitment_valid: bool,
)
    requires
        proposal.leaf.justify.view < r.locked_view,
    ensures
        r.step(InputView::Proposal { proposal, justify_valid, commitment_valid }).0 == r,
        r.step(InputView::Proposal { proposal, justify_valid, commitment_valid }).1.action
            == ActionView::Idle,
        r.step(
            InputView::Proposal { proposal, justify_valid, commitment_valid },
        ).1.outcome matches OutcomeView::Faulted(FaultView::InvalidState { .. }),
{
}

/// The lock never falls and never passes the current view, and a step that
/// casts a Commit vote, a replica's or the leader's own, sets it to the view
/// of that vote.
pub proof fn law_lock_never_falls(r: RoundView, input: InputView)
    requires
        r.locked_view <= r.view,
        r.aimed(),
    ensures
        r.step(input).0.aimed(),
        r.step(input).0.locked_view >= r.locked_view,
        r.step(input).0.locked_view <= r.step(input).0.view,
        r.vote_of(r.step(input).1) matches Some(vote) ==> vote.view == r.view && (vote.phase
            == Phase::Commit ==> r.step(input).0.locked_view == vote.view),
{
}

/// Entering a view leaves the lock as it is, and below the view entered.
pub proof fn law_lock_outlives_views(r: RoundView, view: u64)
    requires
        r.locked_view <= r.view,
        r.aimed(),
    ensures
        r.enter(view).0.aimed(),
        r.enter(view).0.locked_view == r.locked_view,
        r.enter(view).0.locked_view <= r.enter(view).0.view,
{
}

/// The state of one node's current view, with the lock and the highest
/// certificate that outlive it.
pub struct Round {
    identity: u64,
    genesis: u64,
    view: u64,
    leader: Option<u64>,
    progress: Progress,
    candidate: Option<Leaf>,
    locked_view: u64,
    high_qc: QuorumCertificate,
    tally: VoteAccumulator,
}

impl View for Round {
    type V = RoundView;

    closed spec fn view(&self) -> RoundView {
        RoundView {
            identity: self.identity,
            genesis: self.genesis,
            view: self.view,
            leader: self.leader,
            progress: self.progress,
            candidate: match self.candidate {
                Some(leaf) => Some(leaf@),
                None => None,
            },
            locked_view: self.locked_view,
            high_qc: self.high_qc@,
            tally: self.tally@,
        }
    }
}

/// The step that drops an input.
fn reject(why: Rejection) -> (step: Step)
    ensures
        step@ == (StepView {
            outcome: OutcomeView::Faulted(why.fault_view()),
            action: ActionView::Idle,
        }),
{
    Step { outcome: Outcome::Faulted(why.fault()), action: Action::Idle }
}

/// The step that goes on waiting in `state` and sends `action`.
fn pending(state: RoundState, action: Action) -> (step: Step)
    ensures
        step@ == (StepView { outcome: OutcomeView::Pending(state), action: action@ }),
{
    Step { outcome: Outcome::Pending(state), action }
}

impl Round {
    /// The invariant of the type.
    pub closed spec fn wf(&self) -> bool {
        self.tally.wf()
    }

    /// A round for the node `identity` that has entered no view yet.
    pub fn new(identity: u64, table: StakeTable, genesis: u64) -> (round: Round)
        requires
            table.wf(),
        ensures
            round.wf(),
            round@ == RoundView::initial(identity, table@, genesis),
    {
        Round {
            identity,
            genesis,
            view: 0,
            leader: None,
            progress: Progress::Decided,
            candidate: None,
            locked_view: 0,
            high_qc: QuorumCertificate::genesis(genesis),
            tally: VoteAccumulator::new(table, 0, Phase::Prepare, genesis),
        }
    }

    /// The node that runs the round.
    pub fn identity(&self) -> (identity: u64)
        ensures
            identity == self@.identity,
    {
        self.identity
    }

    /// The current view.
    pub fn current_view(&self) -> (view: u64)
        ensures
            view == self@.view,
    {
        self.view
    }

    /// The leader of the current view.
    pub fn leader(&self) -> (leader: Option<u64>)
        ensures
            leader == self@.leader,
    {
        self.leader
    }

    /// Where the round stands.
    pub fn progress(&self) -> (progress: Progress)
        ensures
            progress == self@.progress,
    {
        self.progress
    }

    /// The lock.
    pub fn locked_view(&self) -> (view: u64)
        ensures
            view == self@.locked_view,
    {
        self.locked_view
    }

    /// The highest certificate seen.
    pub fn high_qc(&self) -> (certificate: &QuorumCertificate)
        ensures
            certificate@ == self@.high_qc,
    {
        &self.high_qc
    }

    /// The leaf that the current view is about.
    pub fn candidate(&self) -> (leaf: Option<&Leaf>)
        ensures
            match leaf {
                Some(l) => self@.candidate == Some(l@),
                None => self@.candidate is None,
            },
    {
        self.candidate.as_ref()
    }

    /// The stake table of the round.
    pub fn stake_table(&self) -> (table: &StakeTable)
        requires
            self.wf(),
        ensures
            table@ == self@.electorate(),
            table.wf(),
    {
        self.tally.stake_table()
    }

    /// The weight that the leader has tallied in the current phase.
    pub fn tallied_weight(&self) -> (weight: u64)
        requires
            self.wf(),
        ensures
            weight == self@.tally.weight(),
    {
        self.tally.weight()
    }

    /// How `input` relates to the current view.
    pub fn relevance(&self, input: &Input) -> (relevance: Relevance)
        ensures
            relevance == self@.relevance(input@),
    {
        let view = match input {
            Input::Proposal { proposal, .. } => proposal.leaf.view,
            Input::Vote { vote, .. } => vote.view,
            Input::Certificate { certificate, .. } => {
                if self.progress == Progress::Waiting(RoundState::LeaderWaitingForHighQC) {
                    return Relevance::Current;
                }
                certificate.view
            },
            _ => {
                return Relevance::Current;
            },
        };
        if view < self.view {
            Relevance::Stale
        } else if view == self.view {
            Relevance::Current
        } else {
            Relevance::Ahead
        }
    }

    /// Enters `view`, as leader or replica. Fails, and changes nothing,
    /// unless the view lies beyond the current one and the table elects a
    /// leader.
    pub fn enter_view(&mut self, view: u64) -> (entered: Result<RoundState, HotShotError>)
        requires
            old(self).wf(),
        ensures
            final(self).wf(),
            final(self)@ == old(self)@.enter(view).0,
            match entered {
                Ok(state) => old(self)@.enter(view).1 == Ok::<RoundState, FaultView>(state),
                Err(fault) => old(self)@.enter(view).1 == Err::<RoundState, FaultView>(fault@),
            },
    {
        if view <= self.view {
            return Err(Rejection::NotAdvancing.fault());
        }
        match leader_for(view, self.tally.stake_table()) {
            None => Err(Rejection::NoLeader.fault()),
            Some(leader) => {
                let state = if leader == self.identity {
                    RoundState::LeaderWaitingForHighQC
                } else {
                    RoundState::ReplicaWaitingForPrepare
                };
                self.view = view;
                self.leader = Some(leader);
                self.progress = Progress::Waiting(state);
                self.candidate = None;
                Ok(state)
            },
        }
    }

    /// Replaces the highest certificate if `certificate` is of a higher view.
    fn raise_high_qc(&mut self, certificate: &QuorumCertificate)
        requires
            old(self).wf(),
        ensures
            final(self).wf(),
            final(self)@ == (RoundView {
                high_qc: old(self)@.higher(certificate@),
                ..old(self)@
            }),
    {
        if certificate.view > self.high_qc.view {
            self.high_qc = certificate.duplicate();
        }
    }

    /// Checks a certificate that is to justify a leaf of the current view:
    /// `Ok` when the leaf may be built on it.
    fn check_justification(&self, certificate: &QuorumCertificate, signature_valid: bool) -> (checked:
        Result<(), HotShotError>)
        requires
            self.wf(),
        ensures
            checked is Ok <==> {
                &&& certificate@.phase == Phase::Prepare
                &&& certificate@.view < self@.view
                &&& if certificate@.view == 0 {
                    certificate@.leaf == self@.genesis
                } else {
                    self@.certified(certificate@, signature_valid)
                }
            },
            checked matches Err(fault) ==> fault@ == if certificate@.phase != Phase::Prepare
                || certificate@.view >= self@.view {
                Rejection::Unjustified.fault_view()
            } else if certificate@.view == 0 {
                Rejection::UnknownRoot.fault_view()
            } else {
                verification_fault(self@.electorate(), certificate@, signature_valid)
            },
    {
        if certificate.phase != Phase::Prepare || certificate.view >= self.view {
            Err(Rejection::Unjustified.fault())
        } else if certificate.view == 0 {
            if certificate.leaf != self.genesis {
                Err(Rejection::UnknownRoot.fault())
            } else {
                Ok(())
            }
        } else {
            verify_certificate(certificate, self.tally.stake_table(), signature_valid)
        }
    }

    fn handle_proposal(
        &mut self,
        proposal: Proposal,
        justify_valid: bool,
        commitment_valid: bool,
    ) -> (step: Step)
        requires
            old(self).wf(),
        ensures
            final(self).wf(),
            final(self)@ == old(self)@.on_proposal(proposal@, justify_valid, commitment_valid).0,
            step@ == old(self)@.on_proposal(proposal@, justify_valid, commitment_valid).1,
    {
        if proposal.leaf.view != self.view {
            return reject(Rejection::WrongView);
        }
        let from_leader = match self.leader {
            Some(leader) => leader == proposal.proposer,
            None => false,
        };
        if !from_leader {
            return reject(Rejection::WrongProposer);
        }
        if !commitment_valid {
            return reject(Rejection::UnboundCommitment);
        }
        if proposal.leaf.justify.phase != Phase::Prepare || proposal.leaf.justify.view >= self.view
            || proposal.leaf.justify.leaf != proposal.leaf.parent {
            return reject(Rejection::Unjustified);
        }
        if proposal.leaf.justify.view < self.locked_view {
            return reject(Rejection::BelowLock);
        }
        match self.check_justification(&proposal.leaf.justify, justify_valid) {
            Err(fault) => Step { outcome: Outcome::Faulted(fault), action: Action::Idle },
            Ok(()) => {
                let vote = Vote {
                    view: self.view,
                    phase: Phase::Prepare,
                    leaf: proposal.leaf.commitment,
                    signer: self.identity,
                };
                self.raise_high_qc(&proposal.leaf.justify);
                self.candidate = Some(proposal.leaf);
                self.progress = Progress::Waiting(RoundState::ReplicaWaitingForPreCommit);
                pending(RoundState::ReplicaWaitingForPreCommit, Action::SendVote(vote))
            },
        }
    }

    fn handle_certificate(
        &mut self,
        state: RoundState,
        certificate: QuorumCertificate,
        signature_valid: bool,
    ) -> (step: Step)
        requires
            old(self).wf(),
        ensures
            final(self).wf(),
            final(self)@ == old(self)@.on_certificate(state, certificate@, signature_valid).0,
            step@ == old(self)@.on_certificate(state, certificate@, signature_valid).1,
    {
        let phase = match state {
            RoundState::ReplicaWaitingForPreCommit => Phase::Prepare,
            RoundState::ReplicaWaitingForCommit => Phase::PreCommit,
            RoundState::ReplicaWaitingForDecide => Phase::Commit,
            _ => {
                return reject(Rejection::UnexpectedInput);
            },
        };
        let leaf = match &self.candidate {
            Some(leaf) => leaf.duplicate(),
            None => {
                return reject(Rejection::UnexpectedInput);
            },
        };
        if certificate.view != self.view || certificate.phase != phase || certificate.leaf
            != leaf.commitment {
            return reject(Rejection::WrongTarget);
        }
        match verify_certificate(&certificate, self.tally.stake_table(), signature_valid) {
            Err(fault) => Step { outcome: Outcome::Faulted(fault), action: Action::Idle },
            Ok(()) => {
                match phase {
                    Phase::Prepare => {
                        let vote = Vote {
                            view: self.view,
                            phase: Phase::PreCommit,
                            leaf: leaf.commitment,
                            signer: self.identity,
                        };
                        self.raise_high_qc(&certificate);
                        self.progress = Progress::Waiting(RoundState::ReplicaWaitingForCommit);
                        pending(RoundState::ReplicaWaitingForCommit, Action::SendVote(vote))
                    },
                    Phase::PreCommit => {
                        let vote = Vote {
                            view: self.view,
                            phase: Phase::Commit,
                            leaf: leaf.commitment,
                            signer: self.identity,
                        };
                        self.locked_view = self.view;
                        self.progress = Progress::Waiting(RoundState::ReplicaWaitingForDecide);
                        pending(RoundState::ReplicaWaitingForDecide, Action::SendVote(vote))
                    },
                    _ => {
                        self.progress = Progress::Decided;
                        Step { outcome: Outcome::Decided(leaf), action: Action::Idle }
                    },
                }
            },
        }
    }

    fn handle_high_qc(&mut self, certificate: QuorumCertificate, signature_valid: bool) -> (step:
        Step)
        requires
            old(self).wf(),
        ensures
            final(self).wf(),
            final(self)@ == old(self)@.on_high_qc(certificate@, signature_valid).0,
            step@ == old(self)@.on_high_qc(certificate@, signature_valid).1,
    {
        match self.check_justification(&certificate, signature_valid) {
            Err(fault) => Step { outcome: Outcome::Faulted(fault), action: Action::Idle },
            Ok(()) => {
                self.raise_high_qc(&certificate);
                self.progress = Progress::Waiting(RoundState::LeaderMinRoundTimeNotReached);
                pending(RoundState::LeaderMinRoundTimeNotReached, Action::Idle)
            },
        }
    }

    fn handle_propose(&mut self, commitment: u64, payload: u64, justify_valid: bool) -> (step:
        Step)
        requires
            old(self).wf(),
        ensures
            final(self).wf(),
            final(self)@ == old(self)@.on_propose(commitment, payload, justify_valid).0,
            step@ == old(self)@.on_propose(commitment, payload, justify_valid).1,
    {
        if self.high_qc.phase != Phase::Prepare || self.high_qc.view >= self.view {
            return reject(Rejection::Unjustified);
        }
        if self.high_qc.view < self.locked_view {
            return reject(Rejection::BelowLock);
        }
        match self.check_justification(&self.high_qc, justify_valid) {
            Err(fault) => Step { outcome: Outcome::Faulted(fault), action: Action::Idle },
            Ok(()) => {
                let leaf = Leaf {
                    commitment,
                    parent: self.high_qc.leaf,
                    view: self.view,
                    payload,
                    justify: self.high_qc.duplicate(),
                };
                let proposal = Proposal { leaf: leaf.duplicate(), proposer: self.identity };
                self.candidate = Some(leaf);
                self.tally.restart(self.view, Phase::Prepare, commitment);
                self.progress = Progress::Waiting(RoundState::LeaderWaitingForPrepareVotes);
                pending(
                    RoundState::LeaderWaitingForPrepareVotes,
                    Action::BroadcastProposal(proposal),
                )
            },
        }
    }

    fn handle_vote(&mut self, state: RoundState, vote: Vote, signature_valid: bool) -> (step: Step)
        requires
            old(self).wf(),
        ensures
            final(self).wf(),
            final(self)@ == old(self)@.on_vote(state, vote, signature_valid).0,
            step@ == old(self)@.on_vote(state, vote, signature_valid).1,
    {
        let phase = match state {
            RoundState::LeaderWaitingForPrepareVotes => Phase::Prepare,
            RoundState::LeaderWaitingForPreCommitVotes => Phase::PreCommit,
            RoundState::LeaderWaitingForCommitVotes => Phase::Commit,
            _ => {
                return reject(Rejection::UnexpectedInput);
            },
        };
        let leaf = match &self.candidate {
            Some(leaf) => leaf.duplicate(),
            None => {
                return reject(Rejection::UnexpectedInput);
            },
        };
        match self.tally.accept_vote(&vote, signature_valid) {
            None => pending(state, Action::Idle),
            Some(certificate) => {
                match phase {
                    Phase::Prepare => {
                        self.raise_high_qc(&certificate);
                        self.tally.restart(self.view, Phase::PreCommit, leaf.commitment);
                        self.progress = Progress::Waiting(
                            RoundState::LeaderWaitingForPreCommitVotes,
                        );
                        pending(
                            RoundState::LeaderWaitingForPreCommitVotes,
                            Action::BroadcastCertificate(certificate),
                        )
                    },
                    Phase::PreCommit => {
                        self.locked_view = self.view;
                        self.tally.restart(self.view, Phase::Commit, leaf.commitment);
                        self.progress = Progress::Waiting(RoundState::LeaderWaitingForCommitVotes);
                        pending(
                            RoundState::LeaderWaitingForCommitVotes,
                            Action::BroadcastCertificate(certificate),
                        )
                    },
                    _ => {
                        self.progress = Progress::Decided;
                        Step {
                            outcome: Outcome::Decided(leaf),
                            action: Action::BroadcastCertificate(certificate),
                        }
                    },
                }
            },
        }
    }

    /// Drives the round with `input` after an attempt to store the record
    /// that belongs to it; `stored` is what the store answered.
    pub fn drive_after_store(&mut self, stored: Result<(), BlockStorageError>, input: Input) -> (step:
        Step)
        requires
            old(self).wf(),
        ensures
            final(self).wf(),
            final(self)@ == old(self)@.step_after_store(stored, input@).0,
            step@ == old(self)@.step_after_store(stored, input@).1,
    {
        match stored {
            Ok(_) => self.drive(input),
            Err(source) => Step {
                outcome: Outcome::Faulted(HotShotError::StorageError { source }),
                action: Action::Idle,
            },
        }
    }

    /// The vote that the node casts for itself with `action`, to be handed
    /// back to the round as a vote with a valid signature.
    pub fn own_vote_of(&self, action: &Action) -> (vote: Option<Vote>)
        ensures
            vote == self@.own_vote_of(action@),
    {
        match action {
            Action::BroadcastProposal(proposal) => Some(
                Vote {
                    view: self.view,
                    phase: Phase::Prepare,
                    leaf: proposal.leaf.commitment,
                    signer: self.identity,
                },
            ),
            Action::BroadcastCertificate(certificate) => match certificate.phase {
                Phase::Prepare => Some(
                    Vote {
                        view: self.view,
                        phase: Phase::PreCommit,
                        leaf: certificate.leaf,
                        signer: self.identity,
                    },
                ),
                Phase::PreCommit => Some(
                    Vote {
                        view: self.view,
                        phase: Phase::Commit,
                        leaf: certificate.leaf,
                        signer: self.identity,
                    },
                ),
                _ => None,
            },
            _ => None,
        }
    }

    /// Drives the round with `input`, after the record that belongs to the
    /// input has been put on the store: no vote is cast on a proposal that is
    /// not on record. The record is that of the proposal; an input of
    /// another kind has none and leaves the store alone. For a proposal,
    /// either its record is stored and the round takes its step, or the
    /// store has failed, nothing has changed, and the step reports a storage
    /// fault.
    pub fn drive_recorded<S: BlockStorage>(&mut self, storage: &mut S, input: Input) -> (step:
        Step)
        requires
            old(self).wf(),
            old(storage).wf(),
        ensures
            final(self).wf(),
            final(storage).wf(),
            match input@.record() {
                None => {
                    &&& final(storage).records() == old(storage).records()
                    &&& final(self)@ == old(self)@.step(input@).0
                    &&& step@ == old(self)@.step(input@).1
                },
                Some(record) => {
                    ||| {
                        &&& final(storage).records() == appended(old(storage).records(), record)
                        &&& final(self)@ == old(self)@.step(input@).0
                        &&& step@ == old(self)@.step(input@).1
                    }
                    ||| {
                        &&& final(storage).records() == old(storage).records()
                        &&& final(self)@ == old(self)@
                        &&& step@.action == ActionView::Idle
                        &&& step@.outcome matches OutcomeView::Faulted(
                            FaultView::StorageError { .. },
                        )
                    }
                },
            },
    {
        let record = match &input {
            Input::Proposal { proposal, .. } => Some(proposal.da_record()),
            _ => None,
        };
        match record {
            Some(record) => {
                let stored = storage.append(&record);
                self.drive_after_store(stored, input)
            },
            None => self.drive(input),
        }
    }

    /// Drives the round with one input: the state becomes, and the step is,
    /// what [`RoundView::step`] says.
    pub fn drive(&mut self, input: Input) -> (step: Step)
        requires
            old(self).wf(),
        ensures
            final(self).wf(),
            final(self)@ == old(self)@.step(input@).0,
            step@ == old(self)@.step(input@).1,
    {
        let state = match self.progress {
            Progress::Waiting(state) => state,
            _ => {
                return reject(Rejection::UnexpectedInput);
            },
        };
        match input {
            Input::Timeout => {
                self.progress = Progress::Abandoned;
                Step {
                    outcome: Outcome::Faulted(
                        HotShotError::ViewTimeoutError {
                            view_number: self.view,
                            state: state.timed_out(),
                        },
                    ),
                    action: Action::Idle,
                }
            },
            Input::Proposal { proposal, justify_valid, commitment_valid } => {
                if state == RoundState::ReplicaWaitingForPrepare {
                    self.handle_proposal(proposal, justify_valid, commitment_valid)
                } else {
                    reject(Rejection::UnexpectedInput)
                }
            },
            Input::Certificate { certificate, signature_valid } => {
                if state == RoundState::LeaderWaitingForHighQC {
                    self.handle_high_qc(certificate, signature_valid)
                } else {
                    self.handle_certificate(state, certificate, signature_valid)
                }
            },
            Input::Propose { commitment, payload, justify_valid } => {
                if state == RoundState::LeaderMinRoundTimeNotReached {
                    self.handle_propose(commitment, payload, justify_valid)
                } else {
                    reject(Rejection::UnexpectedInput)
                }
            },
            Input::Vote { vote, signature_valid } => self.handle_vote(state, vote, signature_valid),
        }
    }
}

} // verus!
