use hotshot_core::data::{Leaf, Phase, Proposal, QuorumCertificate, Vote};
use hotshot_core::error::{HotShotError, RoundTimedoutState};
use hotshot_core::round::{
    Action, Input, Outcome, Progress, Rejection, Relevance, Role, Round, RoundState, Step,
};
use hotshot_core::stake_table::{StakeTable, StakeTableEntry};
use hotshot_core::traits::block_storage::{
    BlockStorage, BlockStorageError, DAProposal, MemoryStorage, ProposalType,
};

const GENESIS: u64 = 0x6E;
const LEAF_A: u64 = 0xA;
const LEAF_B: u64 = 0xB;

fn table() -> StakeTable {
    StakeTable::new(vec![
        StakeTableEntry { identity: 1, weight: 1 },
        StakeTableEntry { identity: 2, weight: 1 },
        StakeTableEntry { identity: 3, weight: 1 },
        StakeTableEntry { identity: 4, weight: 1 },
    ])
    .expect("valid table")
}

fn node(identity: u64) -> Round {
    Round::new(identity, table(), GENESIS)
}

fn invalid(text: &str) -> Outcome {
    Outcome::Faulted(HotShotError::InvalidState { context: text.to_string() })
}

fn leaf_a() -> Leaf {
    Leaf {
        commitment: LEAF_A,
        parent: GENESIS,
        view: 1,
        payload: 77,
        justify: QuorumCertificate::genesis(GENESIS),
    }
}

fn certificate(view: u64, phase: Phase, leaf: u64, signers: Vec<u64>) -> QuorumCertificate {
    let weight = signers.len() as u64;
    QuorumCertificate { view, phase, leaf, signers, weight }
}

/// Runs the leader of view one up to its proposal of leaf A.
fn leader_with_proposal() -> (Round, Proposal) {
    let mut leader = node(2);
    assert_eq!(leader.enter_view(1), Ok(RoundState::LeaderWaitingForHighQC));
    let step = leader.drive(Input::Certificate {
        certificate: QuorumCertificate::genesis(GENESIS),
        signature_valid: true,
    });
    assert_eq!(
        step,
        Step {
            outcome: Outcome::Pending(RoundState::LeaderMinRoundTimeNotReached),
            action: Action::Idle
        }
    );
    let step = leader.drive(Input::Propose { commitment: LEAF_A, payload: 77, justify_valid: true });
    assert_eq!(step.outcome, Outcome::Pending(RoundState::LeaderWaitingForPrepareVotes));
    let proposal = match step.action {
        Action::BroadcastProposal(proposal) => proposal,
        other => panic!("expected a proposal, got {:?}", other),
    };
    (leader, proposal)
}

/// Drives the leader with the votes of the three replicas and returns the
/// step of the third.
fn collect(leader: &mut Round, phase: Phase, waiting: RoundState) -> Step {
    for signer in [1, 3] {
        let step = leader.drive(Input::Vote {
            vote: Vote { view: 1, phase, leaf: LEAF_A, signer },
            signature_valid: true,
        });
        assert_eq!(step, Step { outcome: Outcome::Pending(waiting), action: Action::Idle });
    }
    assert_eq!(leader.tallied_weight(), 2);
    leader.drive(Input::Vote {
        vote: Vote { view: 1, phase, leaf: LEAF_A, signer: 4 },
        signature_valid: true,
    })
}

/// Runs three replicas and the leader through all of view one.
fn decided_view_one() -> (Round, Vec<Round>) {
    let (mut leader, proposal) = leader_with_proposal();
    let mut replicas: Vec<Round> = vec![node(1), node(3), node(4)];
    for replica in replicas.iter_mut() {
        assert_eq!(replica.enter_view(1), Ok(RoundState::ReplicaWaitingForPrepare));
        replica.drive(Input::Proposal { proposal: proposal.clone(), justify_valid: true, commitment_valid: true });
    }
    for (phase, waiting) in [
        (Phase::Prepare, RoundState::LeaderWaitingForPrepareVotes),
        (Phase::PreCommit, RoundState::LeaderWaitingForPreCommitVotes),
        (Phase::Commit, RoundState::LeaderWaitingForCommitVotes),
    ] {
        let step = collect(&mut leader, phase, waiting);
        let formed = match step.action {
            Action::BroadcastCertificate(formed) => formed,
            other => panic!("expected a certificate, got {:?}", other),
        };
        for replica in replicas.iter_mut() {
            replica.drive(Input::Certificate { certificate: formed.clone(), signature_valid: true });
        }
    }
    (leader, replicas)
}

#[test]
fn new_round_has_entered_no_view() {
    let round = node(1);
    assert_eq!(round.identity(), 1);
    assert_eq!(round.current_view(), 0);
    assert_eq!(round.leader(), None);
    assert_eq!(round.progress(), Progress::Decided);
    assert_eq!(round.locked_view(), 0);
    assert_eq!(round.high_qc(), &QuorumCertificate::genesis(GENESIS));
    assert_eq!(round.candidate(), None);
}

#[test]
fn entering_a_view_assigns_the_role() {
    let mut leader = node(2);
    assert_eq!(leader.enter_view(1), Ok(RoundState::LeaderWaitingForHighQC));
    assert_eq!(leader.leader(), Some(2));
    assert_eq!(leader.current_view(), 1);
    assert_eq!(RoundState::LeaderWaitingForHighQC.role(), Role::Leader);
    let mut replica = node(1);
    assert_eq!(replica.enter_view(1), Ok(RoundState::ReplicaWaitingForPrepare));
    assert_eq!(replica.leader(), Some(2));
    assert_eq!(replica.progress(), Progress::Waiting(RoundState::ReplicaWaitingForPrepare));
    assert_eq!(RoundState::ReplicaWaitingForPrepare.role(), Role::Replica);
}

#[test]
fn entering_a_view_that_is_not_ahead_is_refused() {
    let mut round = node(1);
    assert_eq!(
        round.enter_view(0),
        Err(HotShotError::InvalidState {
            context: "view to enter is not beyond the current view".to_string()
        })
    );
    assert_eq!(round.enter_view(5), Ok(RoundState::ReplicaWaitingForPrepare));
    assert_eq!(round.enter_view(5), Err(Rejection::NotAdvancing.fault()));
    assert_eq!(round.enter_view(4), Err(Rejection::NotAdvancing.fault()));
    assert_eq!(round.current_view(), 5);
}

#[test]
fn entering_a_view_without_electorate_is_refused() {
    let mut round = Round::new(1, StakeTable::new(Vec::new()).expect("valid"), GENESIS);
    assert_eq!(
        round.enter_view(1),
        Err(HotShotError::InvalidState { context: "stake table elects no leader".to_string() })
    );
    assert_eq!(round.current_view(), 0);
}

#[test]
fn four_nodes_commit_leaf_a_in_view_one() {
    let (mut leader, proposal) = leader_with_proposal();
    assert_eq!(proposal, Proposal { leaf: leaf_a(), proposer: 2 });

    let mut replicas: Vec<Round> = vec![node(1), node(3), node(4)];
    for replica in replicas.iter_mut() {
        assert_eq!(replica.enter_view(1), Ok(RoundState::ReplicaWaitingForPrepare));
        let id = replica.identity();
        let step =
            replica.drive(Input::Proposal { proposal: proposal.clone(), justify_valid: true, commitment_valid: true });
        assert_eq!(
            step,
            Step {
                outcome: Outcome::Pending(RoundState::ReplicaWaitingForPreCommit),
                action: Action::SendVote(Vote {
                    view: 1,
                    phase: Phase::Prepare,
                    leaf: LEAF_A,
                    signer: id
                }),
            }
        );
    }

    // Prepare
    let step = collect(&mut leader, Phase::Prepare, RoundState::LeaderWaitingForPrepareVotes);
    let prepare_qc = certificate(1, Phase::Prepare, LEAF_A, vec![1, 3, 4]);
    assert_eq!(
        step,
        Step {
            outcome: Outcome::Pending(RoundState::LeaderWaitingForPreCommitVotes),
            action: Action::BroadcastCertificate(prepare_qc.clone()),
        }
    );
    assert_eq!(leader.high_qc(), &prepare_qc);

    // a replay of the first Prepare vote changes nothing
    let replay = leader.drive(Input::Vote {
        vote: Vote { view: 1, phase: Phase::Prepare, leaf: LEAF_A, signer: 1 },
        signature_valid: true,
    });
    assert_eq!(
        replay,
        Step {
            outcome: Outcome::Pending(RoundState::LeaderWaitingForPreCommitVotes),
            action: Action::Idle
        }
    );
    // the tally of the next phase is empty, and the certificate formed keeps its weight
    assert_eq!(leader.tallied_weight(), 0);
    assert_eq!(leader.high_qc().weight, 3);
    assert_eq!(leader.high_qc().signers, vec![1, 3, 4]);

    for replica in replicas.iter_mut() {
        let id = replica.identity();
        let step = replica
            .drive(Input::Certificate { certificate: prepare_qc.clone(), signature_valid: true });
        assert_eq!(
            step,
            Step {
                outcome: Outcome::Pending(RoundState::ReplicaWaitingForCommit),
                action: Action::SendVote(Vote {
                    view: 1,
                    phase: Phase::PreCommit,
                    leaf: LEAF_A,
                    signer: id
                }),
            }
        );
        assert_eq!(replica.high_qc(), &prepare_qc);
        assert_eq!(replica.locked_view(), 0);
    }

    // PreCommit
    let step = collect(&mut leader, Phase::PreCommit, RoundState::LeaderWaitingForPreCommitVotes);
    let precommit_qc = certificate(1, Phase::PreCommit, LEAF_A, vec![1, 3, 4]);
    assert_eq!(
        step,
        Step {
            outcome: Outcome::Pending(RoundState::LeaderWaitingForCommitVotes),
            action: Action::BroadcastCertificate(precommit_qc.clone()),
        }
    );
    for replica in replicas.iter_mut() {
        let id = replica.identity();
        let step = replica
            .drive(Input::Certificate { certificate: precommit_qc.clone(), signature_valid: true });
        assert_eq!(
            step,
            Step {
                outcome: Outcome::Pending(RoundState::ReplicaWaitingForDecide),
                action: Action::SendVote(Vote {
                    view: 1,
                    phase: Phase::Commit,
                    leaf: LEAF_A,
                    signer: id
                }),
            }
        );
        assert_eq!(replica.locked_view(), 1);
    }

    // Commit
    let step = collect(&mut leader, Phase::Commit, RoundState::LeaderWaitingForCommitVotes);
    let commit_qc = certificate(1, Phase::Commit, LEAF_A, vec![1, 3, 4]);
    assert_eq!(
        step,
        Step {
            outcome: Outcome::Decided(leaf_a()),
            action: Action::BroadcastCertificate(commit_qc.clone()),
        }
    );
    assert_eq!(leader.progress(), Progress::Decided);

    // Decide
    for replica in replicas.iter_mut() {
        let step = replica
            .drive(Input::Certificate { certificate: commit_qc.clone(), signature_valid: true });
        assert_eq!(step, Step { outcome: Outcome::Decided(leaf_a()), action: Action::Idle });
        assert_eq!(replica.progress(), Progress::Decided);
        assert_eq!(replica.candidate(), Some(&leaf_a()));
    }
}

#[test]
fn replica_refuses_proposal_justified_below_its_lock() {
    let (_, mut replicas) = decided_view_one();
    let replica = &mut replicas[0];
    assert_eq!(replica.locked_view(), 1);
    assert_eq!(replica.enter_view(2), Ok(RoundState::ReplicaWaitingForPrepare));
    assert_eq!(replica.leader(), Some(3));
    let below = Proposal {
        leaf: Leaf {
            commitment: LEAF_B,
            parent: GENESIS,
            view: 2,
            payload: 5,
            justify: QuorumCertificate::genesis(GENESIS),
        },
        proposer: 3,
    };
    let step = replica.drive(Input::Proposal { proposal: below, justify_valid: true, commitment_valid: true });
    assert_eq!(
        step,
        Step { outcome: invalid("proposal is justified below the lock"), action: Action::Idle }
    );
    assert_eq!(replica.progress(), Progress::Waiting(RoundState::ReplicaWaitingForPrepare));
    assert_eq!(replica.candidate(), None);

    // a proposal justified in the view of the lock is voted for
    let at_lock = Proposal {
        leaf: Leaf {
            commitment: LEAF_B,
            parent: LEAF_A,
            view: 2,
            payload: 5,
            justify: certificate(1, Phase::Prepare, LEAF_A, vec![1, 3, 4]),
        },
        proposer: 3,
    };
    let step = replica.drive(Input::Proposal { proposal: at_lock, justify_valid: true, commitment_valid: true });
    assert_eq!(
        step,
        Step {
            outcome: Outcome::Pending(RoundState::ReplicaWaitingForPreCommit),
            action: Action::SendVote(Vote {
                view: 2,
                phase: Phase::Prepare,
                leaf: LEAF_B,
                signer: 1
            }),
        }
    );
}

#[test]
fn second_proposal_in_a_view_is_refused() {
    let (_, proposal) = leader_with_proposal();
    let mut replica = node(1);
    replica.enter_view(1).expect("view one");
    replica.drive(Input::Proposal { proposal: proposal.clone(), justify_valid: true, commitment_valid: true });
    let other = Proposal { leaf: Leaf { commitment: LEAF_B, ..leaf_a() }, proposer: 2 };
    let step = replica.drive(Input::Proposal { proposal: other, justify_valid: true, commitment_valid: true });
    assert_eq!(
        step,
        Step {
            outcome: invalid("input does not fit the state of the round"),
            action: Action::Idle
        }
    );
    assert_eq!(replica.candidate(), Some(&leaf_a()));
}

#[test]
fn proposal_checks_come_in_order() {
    let mut replica = node(1);
    replica.enter_view(1).expect("view one");
    let drive = |replica: &mut Round, proposal: Proposal, valid: bool| {
        let step = replica.drive(Input::Proposal { proposal, justify_valid: valid, commitment_valid: true });
        assert_eq!(step.action, Action::Idle);
        assert_eq!(replica.progress(), Progress::Waiting(RoundState::ReplicaWaitingForPrepare));
        step.outcome
    };
    let wrong_view = Proposal { leaf: Leaf { view: 2, ..leaf_a() }, proposer: 2 };
    assert_eq!(drive(&mut replica, wrong_view, true), invalid("proposal for another view"));
    let wrong_proposer = Proposal { leaf: leaf_a(), proposer: 3 };
    assert_eq!(
        drive(&mut replica, wrong_proposer, true),
        invalid("proposal not from the leader of the view")
    );
    let wrong_parent = Proposal { leaf: Leaf { parent: 0x99, ..leaf_a() }, proposer: 2 };
    assert_eq!(
        drive(&mut replica, wrong_parent, true),
        invalid("certificate cannot justify a proposal in this view")
    );
    let wrong_phase = Proposal {
        leaf: Leaf { justify: certificate(0, Phase::Commit, GENESIS, vec![]), ..leaf_a() },
        proposer: 2,
    };
    assert_eq!(
        drive(&mut replica, wrong_phase, true),
        invalid("certificate cannot justify a proposal in this view")
    );
    let from_the_future = Proposal {
        leaf: Leaf {
            justify: certificate(1, Phase::Prepare, GENESIS, vec![1, 2, 3]),
            ..leaf_a()
        },
        proposer: 2,
    };
    assert_eq!(
        drive(&mut replica, from_the_future, true),
        invalid("certificate cannot justify a proposal in this view")
    );
    let unknown_root = Proposal {
        leaf: Leaf {
            parent: 0x99,
            justify: certificate(0, Phase::Prepare, 0x99, vec![]),
            ..leaf_a()
        },
        proposer: 2,
    };
    assert_eq!(
        drive(&mut replica, unknown_root, true),
        invalid("certificate of view zero for an unknown root")
    );
}

#[test]
fn proposal_with_unverifiable_certificate_is_refused() {
    let mut replica = node(1);
    replica.enter_view(3).expect("view three");
    assert_eq!(replica.leader(), Some(2));
    let leaf = |signers: Vec<u64>| Leaf {
        commitment: LEAF_B,
        parent: LEAF_A,
        view: 3,
        payload: 1,
        justify: certificate(1, Phase::Prepare, LEAF_A, signers),
    };
    let step = replica
        .drive(Input::Proposal { proposal: Proposal { leaf: leaf(vec![1, 3]), proposer: 2 }, justify_valid: true, commitment_valid: true });
    assert_eq!(
        step.outcome,
        Outcome::Faulted(HotShotError::InsufficientValidSignatures {
            num_valid_signatures: 2,
            threshold: 3
        })
    );
    let step = replica.drive(Input::Proposal {
        proposal: Proposal { leaf: leaf(vec![1, 3, 4]), proposer: 2 },
        justify_valid: false,
        commitment_valid: true,
    });
    assert_eq!(
        step.outcome,
        Outcome::Faulted(HotShotError::InsufficientValidSignatures {
            num_valid_signatures: 0,
            threshold: 3
        })
    );
    assert_eq!(replica.progress(), Progress::Waiting(RoundState::ReplicaWaitingForPrepare));
    let step = replica.drive(Input::Proposal {
        proposal: Proposal { leaf: leaf(vec![1, 3, 4]), proposer: 2 },
        justify_valid: true,
        commitment_valid: true,
    });
    assert_eq!(step.outcome, Outcome::Pending(RoundState::ReplicaWaitingForPreCommit));
    assert_eq!(replica.high_qc(), &certificate(1, Phase::Prepare, LEAF_A, vec![1, 3, 4]));
}

#[test]
fn replica_refuses_certificate_for_another_target_or_without_quorum() {
    let (_, proposal) = leader_with_proposal();
    let mut replica = node(1);
    replica.enter_view(1).expect("view one");
    replica.drive(Input::Proposal { proposal, justify_valid: true, commitment_valid: true });
    for wrong in [
        certificate(2, Phase::Prepare, LEAF_A, vec![1, 3, 4]),
        certificate(1, Phase::PreCommit, LEAF_A, vec![1, 3, 4]),
        certificate(1, Phase::Prepare, LEAF_B, vec![1, 3, 4]),
    ] {
        let step = replica.drive(Input::Certificate { certificate: wrong, signature_valid: true });
        assert_eq!(
            step,
            Step {
                outcome: invalid("certificate for another view, phase or leaf"),
                action: Action::Idle
            }
        );
    }
    let step = replica.drive(Input::Certificate {
        certificate: certificate(1, Phase::Prepare, LEAF_A, vec![3, 4]),
        signature_valid: true,
    });
    assert_eq!(
        step,
        Step {
            outcome: Outcome::Faulted(HotShotError::InsufficientValidSignatures {
                num_valid_signatures: 2,
                threshold: 3
            }),
            action: Action::Idle,
        }
    );
    assert_eq!(replica.progress(), Progress::Waiting(RoundState::ReplicaWaitingForPreCommit));
}

#[test]
fn every_wait_times_out_into_abandoned() {
    // replica waiting for the proposal
    let mut replica = node(1);
    replica.enter_view(2).expect("view two");
    let step = replica.drive(Input::Timeout);
    assert_eq!(
        step,
        Step {
            outcome: Outcome::Faulted(HotShotError::ViewTimeoutError {
                view_number: 2,
                state: RoundTimedoutState::ReplicaWaitingForPrepare,
            }),
            action: Action::Idle,
        }
    );
    assert_eq!(replica.progress(), Progress::Abandoned);
    // an abandoned round takes no input
    let step = replica.drive(Input::Timeout);
    assert_eq!(step.outcome, invalid("input does not fit the state of the round"));

    // leader waiting for votes
    let (mut leader, _) = leader_with_proposal();
    let step = leader.drive(Input::Timeout);
    assert_eq!(
        step.outcome,
        Outcome::Faulted(HotShotError::ViewTimeoutError {
            view_number: 1,
            state: RoundTimedoutState::LeaderWaitingForPrepareVotes,
        })
    );
    assert_eq!(leader.progress(), Progress::Abandoned);

    // leader waiting for the certificate to build on
    let mut leader = node(2);
    leader.enter_view(1).expect("view one");
    let step = leader.drive(Input::Timeout);
    assert_eq!(
        step.outcome,
        Outcome::Faulted(HotShotError::ViewTimeoutError {
            view_number: 1,
            state: RoundTimedoutState::LeaderWaitingForHighQC,
        })
    );
}

#[test]
fn timed_out_state_names_each_wait() {
    let pairs = [
        (RoundState::LeaderWaitingForHighQC, RoundTimedoutState::LeaderWaitingForHighQC),
        (
            RoundState::LeaderMinRoundTimeNotReached,
            RoundTimedoutState::LeaderMinRoundTimeNotReached,
        ),
        (
            RoundState::LeaderWaitingForPrepareVotes,
            RoundTimedoutState::LeaderWaitingForPrepareVotes,
        ),
        (
            RoundState::LeaderWaitingForPreCommitVotes,
            RoundTimedoutState::LeaderWaitingForPreCommitVotes,
        ),
        (RoundState::LeaderWaitingForCommitVotes, RoundTimedoutState::LeaderWaitingForCommitVotes),
        (RoundState::ReplicaWaitingForPrepare, RoundTimedoutState::ReplicaWaitingForPrepare),
        (RoundState::ReplicaWaitingForPreCommit, RoundTimedoutState::ReplicaWaitingForPreCommit),
        (RoundState::ReplicaWaitingForCommit, RoundTimedoutState::ReplicaWaitingForCommit),
        (RoundState::ReplicaWaitingForDecide, RoundTimedoutState::ReplicaWaitingForDecide),
    ];
    for (state, timed_out) in pairs {
        assert_eq!(state.timed_out(), timed_out);
    }
}

#[test]
fn inputs_of_the_wrong_kind_are_dropped() {
    let mut replica = node(1);
    replica.enter_view(1).expect("view one");
    let unexpected = invalid("input does not fit the state of the round");
    let vote = Input::Vote {
        vote: Vote { view: 1, phase: Phase::Prepare, leaf: LEAF_A, signer: 3 },
        signature_valid: true,
    };
    assert_eq!(replica.drive(vote.clone()).outcome, unexpected);
    assert_eq!(
        replica.drive(Input::Propose { commitment: LEAF_A, payload: 1, justify_valid: true }).outcome,
        unexpected
    );
    assert_eq!(
        replica
            .drive(Input::Certificate {
                certificate: certificate(1, Phase::Prepare, LEAF_A, vec![1, 3, 4]),
                signature_valid: true
            })
            .outcome,
        unexpected
    );
    let mut leader = node(2);
    leader.enter_view(1).expect("view one");
    assert_eq!(leader.drive(vote).outcome, unexpected);
    assert_eq!(
        leader.drive(Input::Proposal {
            proposal: Proposal { leaf: leaf_a(), proposer: 2 },
            justify_valid: true,
            commitment_valid: true,
        })
        .outcome,
        unexpected
    );
    assert_eq!(leader.progress(), Progress::Waiting(RoundState::LeaderWaitingForHighQC));
}

#[test]
fn leader_drops_votes_with_bad_signature_without_stalling() {
    let (mut leader, _) = leader_with_proposal();
    let waiting = Outcome::Pending(RoundState::LeaderWaitingForPrepareVotes);
    let vote = |signer| Vote { view: 1, phase: Phase::Prepare, leaf: LEAF_A, signer };
    assert_eq!(
        leader.drive(Input::Vote { vote: vote(1), signature_valid: false }).outcome,
        waiting
    );
    assert_eq!(leader.tallied_weight(), 0);
    assert_eq!(leader.drive(Input::Vote { vote: vote(1), signature_valid: true }).outcome, waiting);
    assert_eq!(leader.drive(Input::Vote { vote: vote(1), signature_valid: true }).outcome, waiting);
    assert_eq!(leader.drive(Input::Vote { vote: vote(9), signature_valid: true }).outcome, waiting);
    assert_eq!(leader.tallied_weight(), 1);
    assert_eq!(leader.drive(Input::Vote { vote: vote(3), signature_valid: true }).outcome, waiting);
    let step = leader.drive(Input::Vote { vote: vote(4), signature_valid: true });
    assert_eq!(step.outcome, Outcome::Pending(RoundState::LeaderWaitingForPreCommitVotes));
}

#[test]
fn leader_builds_on_the_highest_certificate() {
    let mut leader = node(2);
    leader.enter_view(3).expect("view three");
    assert_eq!(leader.leader(), Some(2));
    let unverifiable = leader.drive(Input::Certificate {
        certificate: certificate(1, Phase::Prepare, LEAF_A, vec![1]),
        signature_valid: true,
    });
    assert_eq!(
        unverifiable.outcome,
        Outcome::Faulted(HotShotError::InsufficientValidSignatures {
            num_valid_signatures: 1,
            threshold: 3
        })
    );
    let not_prepare = leader.drive(Input::Certificate {
        certificate: certificate(1, Phase::Commit, LEAF_A, vec![1, 3, 4]),
        signature_valid: true,
    });
    assert_eq!(
        not_prepare.outcome,
        invalid("certificate cannot justify a proposal in this view")
    );
    let high = certificate(1, Phase::Prepare, LEAF_A, vec![1, 3, 4]);
    let step =
        leader.drive(Input::Certificate { certificate: high.clone(), signature_valid: true });
    assert_eq!(step.outcome, Outcome::Pending(RoundState::LeaderMinRoundTimeNotReached));
    let step = leader.drive(Input::Propose { commitment: LEAF_B, payload: 8, justify_valid: true });
    assert_eq!(
        step.action,
        Action::BroadcastProposal(Proposal {
            leaf: Leaf { commitment: LEAF_B, parent: LEAF_A, view: 3, payload: 8, justify: high },
            proposer: 2,
        })
    );
}

#[test]
fn relevance_sorts_inputs_by_view() {
    let mut replica = node(1);
    replica.enter_view(5).expect("view five");
    let vote = |view| Input::Vote {
        vote: Vote { view, phase: Phase::Prepare, leaf: LEAF_A, signer: 3 },
        signature_valid: true,
    };
    assert_eq!(replica.relevance(&vote(4)), Relevance::Stale);
    assert_eq!(replica.relevance(&vote(5)), Relevance::Current);
    assert_eq!(replica.relevance(&vote(6)), Relevance::Ahead);
    assert_eq!(replica.relevance(&Input::Timeout), Relevance::Current);
    assert_eq!(
        replica.relevance(&Input::Propose { commitment: 1, payload: 1, justify_valid: true }),
        Relevance::Current
    );
    let old = Input::Certificate {
        certificate: certificate(1, Phase::Prepare, LEAF_A, vec![1, 3, 4]),
        signature_valid: true,
    };
    assert_eq!(replica.relevance(&old), Relevance::Stale);
    let proposal = Input::Proposal {
        proposal: Proposal { leaf: Leaf { view: 7, ..leaf_a() }, proposer: 2 },
        justify_valid: true,
        commitment_valid: true,
    };
    assert_eq!(replica.relevance(&proposal), Relevance::Ahead);
    // what is not current changes nothing
    let before = replica.progress();
    assert_eq!(replica.drive(proposal).action, Action::Idle);
    assert_eq!(replica.progress(), before);
    // a leader that waits for a certificate to build on takes one of any earlier view
    let mut leader = node(2);
    leader.enter_view(3).expect("view three");
    assert_eq!(leader.relevance(&old), Relevance::Current);
}

#[test]
fn proposal_is_recorded_before_the_vote() {
    let (_, proposal) = leader_with_proposal();
    let record = proposal.da_record();
    assert_eq!(
        record,
        ProposalType::DAProposal(DAProposal { view_number: 1, participant: 2, payload: 77 })
    );
    let mut storage = MemoryStorage::empty();
    let mut replica = node(1);
    replica.enter_view(1).expect("view one");
    let step = replica.drive_recorded(
        &mut storage,
        Input::Proposal { proposal, justify_valid: true, commitment_valid: true },
    );
    assert_eq!(
        step.action,
        Action::SendVote(Vote { view: 1, phase: Phase::Prepare, leaf: LEAF_A, signer: 1 })
    );
    assert_eq!(storage.len(), 1);
    assert_eq!(storage.find(&record), Some(record));
}

#[test]
fn no_vote_is_cast_when_the_store_fails() {
    let (_, proposal) = leader_with_proposal();
    let mut storage = MemoryStorage::empty();
    // the store holds another payload for this view and proposer
    let other = ProposalType::DAProposal(DAProposal { view_number: 1, participant: 2, payload: 1 });
    storage.append(&other).expect("empty store takes the record");
    let mut replica = node(1);
    replica.enter_view(1).expect("view one");
    let step = replica.drive_recorded(
        &mut storage,
        Input::Proposal { proposal: proposal.clone(), justify_valid: true, commitment_valid: true },
    );
    assert_eq!(
        step,
        Step {
            outcome: Outcome::Faulted(HotShotError::StorageError {
                source: BlockStorageError::StoreError
            }),
            action: Action::Idle,
        }
    );
    assert_eq!(replica.progress(), Progress::Waiting(RoundState::ReplicaWaitingForPrepare));
    assert_eq!(storage.len(), 1);

    let step = replica.drive_after_store(
        Err(BlockStorageError::RetrieveError),
        Input::Proposal { proposal: proposal.clone(), justify_valid: true, commitment_valid: true },
    );
    assert_eq!(
        step.outcome,
        Outcome::Faulted(HotShotError::StorageError { source: BlockStorageError::RetrieveError })
    );
    let step =
        replica.drive_after_store(Ok(()), Input::Proposal { proposal, justify_valid: true, commitment_valid: true });
    assert_eq!(step.outcome, Outcome::Pending(RoundState::ReplicaWaitingForPreCommit));
}

#[test]
fn conflicting_leaf_gathers_no_quorum_after_a_commit() {
    // leaf A is committed in view one; the leader and the three replicas are locked on it
    let (old_leader, replicas) = decided_view_one();
    // the leader of view two proposes leaf B on the root, past leaf A
    let conflicting = Proposal {
        leaf: Leaf {
            commitment: LEAF_B,
            parent: GENESIS,
            view: 2,
            payload: 5,
            justify: QuorumCertificate::genesis(GENESIS),
        },
        proposer: 3,
    };
    let mut tally =
        hotshot_core::certificate::VoteAccumulator::new(table(), 2, Phase::Prepare, LEAF_B);
    let mut nodes = replicas;
    nodes.push(old_leader);
    for node in nodes.iter_mut() {
        assert_eq!(node.locked_view(), 1);
        let entered = node.enter_view(2).expect("view two");
        if entered == RoundState::ReplicaWaitingForPrepare {
            let step = node.drive(Input::Proposal {
                proposal: conflicting.clone(),
                justify_valid: true,
                commitment_valid: true,
            });
            assert_eq!(step.outcome, invalid("proposal is justified below the lock"));
            assert_eq!(step.action, Action::Idle);
        } else {
            // node 3 leads view two; an honest leader cannot propose below its lock either
            let step = node.drive(Input::Certificate {
                certificate: QuorumCertificate::genesis(GENESIS),
                signature_valid: true,
            });
            assert_eq!(step.outcome, Outcome::Pending(RoundState::LeaderMinRoundTimeNotReached));
            let step =
                node.drive(Input::Propose { commitment: LEAF_B, payload: 5, justify_valid: true });
            assert_eq!(
                step.action,
                Action::BroadcastProposal(Proposal {
                    leaf: Leaf {
                        commitment: LEAF_B,
                        parent: LEAF_A,
                        view: 2,
                        payload: 5,
                        justify: certificate(1, Phase::Prepare, LEAF_A, vec![1, 3, 4]),
                    },
                    proposer: 3,
                })
            );
        }
    }
    // a faulty proposer that votes for the conflicting leaf stays alone
    let own = Vote { view: 2, phase: Phase::Prepare, leaf: LEAF_B, signer: 3 };
    assert_eq!(tally.accept_vote(&own, true), None);
    assert_eq!(tally.weight(), 1);
    assert!(!tally.has_quorum());
}

#[test]
fn proposal_with_a_foreign_commitment_is_refused() {
    let (_, proposal) = leader_with_proposal();
    let mut replica = node(1);
    replica.enter_view(1).expect("view one");
    let step = replica.drive(Input::Proposal {
        proposal: proposal.clone(),
        justify_valid: true,
        commitment_valid: false,
    });
    assert_eq!(
        step,
        Step {
            outcome: invalid("proposal does not carry the commitment of its leaf"),
            action: Action::Idle
        }
    );
    assert_eq!(replica.candidate(), None);
    let step = replica.drive(Input::Proposal {
        proposal,
        justify_valid: true,
        commitment_valid: true,
    });
    assert_eq!(step.outcome, Outcome::Pending(RoundState::ReplicaWaitingForPreCommit));
}

#[test]
fn leader_holds_its_own_proposal_to_the_rules() {
    let mut leader = node(2);
    leader.enter_view(3).expect("view three");
    let high = certificate(1, Phase::Prepare, LEAF_A, vec![1, 3, 4]);
    leader.drive(Input::Certificate { certificate: high, signature_valid: true });
    // the signature of the certificate does not check when the leaf is to be built on it
    let step = leader.drive(Input::Propose { commitment: LEAF_B, payload: 8, justify_valid: false });
    assert_eq!(
        step,
        Step {
            outcome: Outcome::Faulted(HotShotError::InsufficientValidSignatures {
                num_valid_signatures: 0,
                threshold: 3
            }),
            action: Action::Idle,
        }
    );
    assert_eq!(leader.progress(), Progress::Waiting(RoundState::LeaderMinRoundTimeNotReached));
    assert_eq!(leader.candidate(), None);
    let step = leader.drive(Input::Propose { commitment: LEAF_B, payload: 8, justify_valid: true });
    assert_eq!(step.outcome, Outcome::Pending(RoundState::LeaderWaitingForPrepareVotes));
}

#[test]
fn leader_casts_its_own_vote_in_each_phase() {
    let (mut leader, proposal) = leader_with_proposal();
    let own = |phase| Vote { view: 1, phase, leaf: LEAF_A, signer: 2 };
    assert_eq!(
        leader.own_vote_of(&Action::BroadcastProposal(proposal)),
        Some(own(Phase::Prepare))
    );
    assert_eq!(leader.own_vote_of(&Action::Idle), None);
    assert_eq!(leader.own_vote_of(&Action::SendVote(own(Phase::Prepare))), None);
    // with its own vote the leader needs two replicas of three
    let phase_votes = |leader: &mut Round, phase: Phase| {
        let mut last = None;
        for signer in [2, 1, 3] {
            let vote = Vote { view: 1, phase, leaf: LEAF_A, signer };
            last = Some(leader.drive(Input::Vote { vote, signature_valid: true }));
        }
        last.expect("three votes")
    };
    let step = phase_votes(&mut leader, Phase::Prepare);
    let formed = certificate(1, Phase::Prepare, LEAF_A, vec![2, 1, 3]);
    assert_eq!(step.action, Action::BroadcastCertificate(formed.clone()));
    assert_eq!(leader.own_vote_of(&step.action), Some(own(Phase::PreCommit)));
    assert_eq!(leader.locked_view(), 0);
    let step = phase_votes(&mut leader, Phase::PreCommit);
    assert_eq!(
        step.action,
        Action::BroadcastCertificate(certificate(1, Phase::PreCommit, LEAF_A, vec![2, 1, 3]))
    );
    assert_eq!(leader.own_vote_of(&step.action), Some(own(Phase::Commit)));
    // the leader locks when it casts its Commit vote
    assert_eq!(leader.locked_view(), 1);
    let step = phase_votes(&mut leader, Phase::Commit);
    assert_eq!(step.outcome, Outcome::Decided(leaf_a()));
    assert_eq!(leader.own_vote_of(&step.action), None);
}
