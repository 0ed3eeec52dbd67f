use hotshot_core::data::{Phase, QuorumCertificate};
use hotshot_core::election::leader_for;
use hotshot_core::error::{HotShotError, RoundTimedoutState};
use hotshot_core::round::{Action, Input, Outcome, Progress, Round, RoundState, Step};
use hotshot_core::stake_table::{StakeTable, StakeTableEntry};
use hotshot_core::view_sync::{
    AdvanceTo, CheckedNewView, NewViewVote, SyncState, ViewSynchronizer,
};

const GENESIS: u64 = 0x6E;
const LEAF_A: u64 = 0xA;

fn table() -> StakeTable {
    StakeTable::new(vec![
        StakeTableEntry { identity: 1, weight: 1 },
        StakeTableEntry { identity: 2, weight: 1 },
        StakeTableEntry { identity: 3, weight: 1 },
        StakeTableEntry { identity: 4, weight: 1 },
    ])
    .expect("valid table")
}

fn qc_of_view_one() -> QuorumCertificate {
    QuorumCertificate {
        view: 1,
        phase: Phase::Prepare,
        leaf: LEAF_A,
        signers: vec![1, 3, 4],
        weight: 3,
    }
}

fn sync(identity: u64) -> ViewSynchronizer {
    ViewSynchronizer::new(identity, table(), GENESIS, 100, 10)
}

fn checked(view: u64, signer: u64, high_qc: QuorumCertificate) -> CheckedNewView {
    CheckedNewView {
        vote: NewViewVote { view, signer, high_qc },
        signature_valid: true,
        certificate_valid: true,
    }
}

fn invalid(text: &str) -> HotShotError {
    HotShotError::InvalidState { context: text.to_string() }
}

#[test]
fn new_synchronizer_is_to_enter_view_one() {
    let sync = sync(1);
    assert_eq!(sync.state(), SyncState::Advanced { view: 1 });
    assert_eq!(sync.state().view(), 1);
    assert_eq!(sync.high_qc(), &QuorumCertificate::genesis(GENESIS));
    assert_eq!(sync.weight(), 0);
    assert!(!sync.expired(u64::MAX));
    assert!(!sync.stalled(1));
    assert!(sync.stalled(0));
}

#[test]
fn start_arms_the_deadline() {
    let mut sync = sync(1);
    assert_eq!(sync.start_view(1, 50), Ok(()));
    assert_eq!(sync.state(), SyncState::Active { view: 1, deadline: 150 });
    assert!(!sync.expired(149));
    assert!(sync.expired(150));
    assert!(sync.expired(151));
    assert_eq!(sync.start_view(1, 60), Err(invalid("view to enter is not beyond the current view")));
    assert_eq!(sync.start_view(0, 60), Err(invalid("view to enter is not beyond the current view")));
    assert_eq!(sync.state(), SyncState::Active { view: 1, deadline: 150 });
    assert_eq!(sync.start_view(2, u64::MAX - 5), Ok(()));
    assert_eq!(sync.state(), SyncState::Active { view: 2, deadline: u64::MAX });
}

#[test]
fn timeout_of_another_view_is_stale() {
    let mut sync = sync(1);
    let stale = Err(invalid("timeout for a view that is not active"));
    assert_eq!(sync.on_timeout(1, &QuorumCertificate::genesis(GENESIS)), stale);
    sync.start_view(2, 0).expect("startable");
    assert_eq!(sync.on_timeout(1, &QuorumCertificate::genesis(GENESIS)), stale);
    assert_eq!(sync.on_timeout(3, &QuorumCertificate::genesis(GENESIS)), stale);
    assert_eq!(sync.state(), SyncState::Active { view: 2, deadline: 100 });
    assert!(sync.on_timeout(2, &QuorumCertificate::genesis(GENESIS)).is_ok());
    // the view is given up already
    assert_eq!(sync.on_timeout(2, &QuorumCertificate::genesis(GENESIS)), stale);
}

#[test]
fn silent_leader_of_view_two_is_replaced() {
    let table = table();
    let silent = leader_for(2, &table).expect("a leader");
    assert_eq!(silent, 3);

    // the replicas of view two wait for a proposal that never comes
    let mut votes = Vec::new();
    let mut syncs = Vec::new();
    for identity in [1, 2, 4] {
        let mut round = Round::new(identity, table.snapshot(), GENESIS);
        assert_eq!(round.enter_view(2), Ok(RoundState::ReplicaWaitingForPrepare));
        let mut sync = sync(identity);
        sync.start_view(2, 1000).expect("startable");
        assert!(!sync.expired(1099));
        assert!(sync.expired(1100));

        let step = round.drive(Input::Timeout);
        assert_eq!(
            step,
            Step {
                outcome: Outcome::Faulted(HotShotError::ViewTimeoutError {
                    view_number: 2,
                    state: RoundTimedoutState::ReplicaWaitingForPrepare,
                }),
                action: Action::Idle,
            }
        );
        assert_eq!(round.progress(), Progress::Abandoned);

        let vote = sync.on_timeout(2, &qc_of_view_one()).expect("view two is active");
        assert_eq!(vote, NewViewVote { view: 2, signer: identity, high_qc: qc_of_view_one() });
        assert_eq!(sync.state(), SyncState::CollectingNewView { view: 2 });
        votes.push(vote);
        syncs.push((round, sync));
    }

    // every node sees the three votes
    for (round, sync) in syncs.iter_mut() {
        let first = CheckedNewView {
            vote: votes[0].clone(),
            signature_valid: true,
            certificate_valid: true,
        };
        let second = CheckedNewView {
            vote: votes[1].clone(),
            signature_valid: true,
            certificate_valid: true,
        };
        let third = CheckedNewView {
            vote: votes[2].clone(),
            signature_valid: true,
            certificate_valid: true,
        };
        assert_eq!(sync.on_new_view_vote(&first), None);
        assert_eq!(sync.on_new_view_vote(&second), None);
        assert_eq!(sync.weight(), 2);
        let order = sync.on_new_view_vote(&third).expect("three of four reach the threshold");
        assert_eq!(order, AdvanceTo { view: 3, high_qc: qc_of_view_one(), leader: Some(2) });
        assert_ne!(order.leader, Some(silent));
        assert_eq!(sync.state(), SyncState::Advanced { view: 3 });

        let expected = if round.identity() == 2 {
            RoundState::LeaderWaitingForHighQC
        } else {
            RoundState::ReplicaWaitingForPrepare
        };
        assert_eq!(round.enter_view(order.view), Ok(expected));
        assert_eq!(round.leader(), order.leader);
        assert_eq!(sync.start_view(order.view, 2000), Ok(()));
        assert_eq!(sync.weight(), 0);
    }
}

#[test]
fn node_advances_on_a_quorum_even_before_its_own_timeout() {
    let mut sync = sync(3);
    sync.start_view(2, 0).expect("startable");
    let batch = vec![
        checked(2, 1, qc_of_view_one()),
        checked(2, 2, QuorumCertificate::genesis(GENESIS)),
        checked(2, 4, qc_of_view_one()),
    ];
    let order = sync.on_quorum_new_view(&batch).expect("quorum in the batch");
    assert_eq!(order, AdvanceTo { view: 3, high_qc: qc_of_view_one(), leader: Some(2) });
    // nothing more is taken in once advanced
    assert_eq!(sync.on_quorum_new_view(&batch), None);
    assert_eq!(sync.on_new_view_vote(&checked(2, 3, qc_of_view_one())), None);
    assert_eq!(sync.weight(), 3);
}

#[test]
fn batch_without_quorum_does_not_advance() {
    let mut sync = sync(3);
    sync.start_view(2, 0).expect("startable");
    let batch = vec![
        checked(2, 1, qc_of_view_one()),
        checked(2, 1, qc_of_view_one()),
        checked(2, 4, qc_of_view_one()),
        checked(2, 9, qc_of_view_one()),
    ];
    assert_eq!(sync.on_quorum_new_view(&batch), None);
    assert_eq!(sync.weight(), 2);
    assert_eq!(sync.state(), SyncState::Active { view: 2, deadline: 100 });
    assert_eq!(sync.on_quorum_new_view(&Vec::new()), None);
    let order = sync.on_quorum_new_view(&vec![checked(5, 2, qc_of_view_one())]);
    assert_eq!(order.map(|o| o.view), Some(3));
}

#[test]
fn votes_that_are_not_acceptable_are_dropped() {
    let mut sync = sync(3);
    sync.start_view(4, 0).expect("startable");
    // for an earlier view
    assert_eq!(sync.on_new_view_vote(&checked(3, 1, qc_of_view_one())), None);
    // invalid signature on the vote
    let mut unsigned = checked(4, 1, qc_of_view_one());
    unsigned.signature_valid = false;
    assert_eq!(sync.on_new_view_vote(&unsigned), None);
    // invalid aggregate signature on the certificate
    let mut forged = checked(4, 1, qc_of_view_one());
    forged.certificate_valid = false;
    assert_eq!(sync.on_new_view_vote(&forged), None);
    // certificate without a quorum
    let mut thin = qc_of_view_one();
    thin.signers = vec![1, 3];
    assert_eq!(sync.on_new_view_vote(&checked(4, 1, thin)), None);
    // certificate of another phase
    let mut commit = qc_of_view_one();
    commit.phase = Phase::Commit;
    assert_eq!(sync.on_new_view_vote(&checked(4, 1, commit)), None);
    // certificate of view zero for an unknown root
    assert_eq!(sync.on_new_view_vote(&checked(4, 1, QuorumCertificate::genesis(0x99))), None);
    assert_eq!(sync.weight(), 0);
    assert_eq!(sync.high_qc(), &QuorumCertificate::genesis(GENESIS));
    // an acceptable vote counts, and its certificate is kept if it is higher
    assert_eq!(sync.on_new_view_vote(&checked(4, 1, qc_of_view_one())), None);
    assert_eq!(sync.weight(), 1);
    assert_eq!(sync.high_qc(), &qc_of_view_one());
    assert_eq!(sync.on_new_view_vote(&checked(4, 2, QuorumCertificate::genesis(GENESIS))), None);
    assert_eq!(sync.high_qc(), &qc_of_view_one());
}

#[test]
fn views_given_up_in_a_row_are_counted() {
    let mut sync = sync(1);
    for view in 1..=3 {
        sync.start_view(view, 0).expect("startable");
        sync.on_timeout(view, &QuorumCertificate::genesis(GENESIS)).expect("active");
    }
    assert!(sync.stalled(3));
    assert!(!sync.stalled(4));
    sync.on_decided();
    assert!(!sync.stalled(1));
    sync.start_view(4, 0).expect("startable");
    sync.on_timeout(4, &QuorumCertificate::genesis(GENESIS)).expect("active");
    assert!(sync.stalled(1));
    assert!(!sync.stalled(2));
}

#[test]
fn own_vote_carries_the_higher_certificate() {
    let mut sync = sync(1);
    sync.start_view(2, 0).expect("startable");
    sync.on_new_view_vote(&checked(2, 4, qc_of_view_one()));
    let vote = sync.on_timeout(2, &QuorumCertificate::genesis(GENESIS)).expect("active");
    assert_eq!(vote.high_qc, qc_of_view_one());
    assert_eq!(vote.view, 2);
    assert_eq!(vote.signer, 1);
    assert_eq!(sync.weight(), 1);
}

#[test]
fn leader_may_propose_once_the_minimum_round_time_has_passed() {
    let mut sync = sync(2);
    assert!(!sync.proposal_due(u64::MAX));
    sync.start_view(1, 50).expect("startable");
    assert!(!sync.proposal_due(49));
    assert!(!sync.proposal_due(50));
    assert!(!sync.proposal_due(59));
    assert!(sync.proposal_due(60));
    assert!(sync.proposal_due(1000));
    sync.on_timeout(1, &QuorumCertificate::genesis(GENESIS)).expect("active");
    assert!(!sync.proposal_due(1000));
}
