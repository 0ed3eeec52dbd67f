use hotshot_core::error::{BlockError, HotShotError, NetworkError, RoundTimedoutState};
use hotshot_core::record::{from_record, to_record, FaultRecord};
use hotshot_core::traits::block_storage::BlockStorageError;

fn blank(variant: u8) -> FaultRecord {
    FaultRecord {
        variant,
        source: 0,
        view_number: 0,
        state: 0,
        num_valid_signatures: 0,
        threshold: 0,
        context: String::new(),
    }
}

fn every_fault() -> Vec<(HotShotError, FaultRecord)> {
    let mut all = Vec::new();
    let causes =
        [(NetworkError::Unreachable, 0), (NetworkError::SendFailed, 1), (NetworkError::ShutDown, 2)];
    for (source, code) in causes {
        all.push((
            HotShotError::FailedToMessageLeader { source },
            FaultRecord { source: code, ..blank(0) },
        ));
        all.push((
            HotShotError::FailedToBroadcast { source },
            FaultRecord { source: code, ..blank(1) },
        ));
        all.push((HotShotError::NetworkFault { source }, FaultRecord { source: code, ..blank(3) }));
    }
    for (source, code) in [(BlockError::ConstructionFailed, 0), (BlockError::ValidationFailed, 1)] {
        all.push((HotShotError::BlockError { source }, FaultRecord { source: code, ..blank(2) }));
    }
    all.push((HotShotError::LeafNotFound {}, blank(4)));
    for (source, code) in
        [(BlockStorageError::StoreError, 0), (BlockStorageError::RetrieveError, 1)]
    {
        all.push((HotShotError::StorageError { source }, FaultRecord { source: code, ..blank(5) }));
    }
    all.push((
        HotShotError::InvalidState { context: "unexpected vote".to_string() },
        FaultRecord { context: "unexpected vote".to_string(), ..blank(6) },
    ));
    all.push((HotShotError::TimeoutError {}, blank(7)));
    let states = [
        RoundTimedoutState::LeaderWaitingForHighQC,
        RoundTimedoutState::LeaderMinRoundTimeNotReached,
        RoundTimedoutState::LeaderWaitingForPrepareVotes,
        RoundTimedoutState::LeaderWaitingForPreCommitVotes,
        RoundTimedoutState::LeaderWaitingForCommitVotes,
        RoundTimedoutState::ReplicaWaitingForPrepare,
        RoundTimedoutState::ReplicaWaitingForPreCommit,
        RoundTimedoutState::ReplicaWaitingForCommit,
        RoundTimedoutState::ReplicaWaitingForDecide,
        RoundTimedoutState::TestCollectRoundEventsTimedOut,
    ];
    for (code, state) in states.into_iter().enumerate() {
        all.push((
            HotShotError::ViewTimeoutError { view_number: 40 + code as u64, state },
            FaultRecord { view_number: 40 + code as u64, state: code as u8, ..blank(8) },
        ));
    }
    all.push((
        HotShotError::InsufficientValidSignatures { num_valid_signatures: 2, threshold: 3 },
        FaultRecord { num_valid_signatures: 2, threshold: 3, ..blank(9) },
    ));
    all.push((
        HotShotError::Misc { context: "other".to_string() },
        FaultRecord { context: "other".to_string(), ..blank(10) },
    ));
    all
}

#[test]
fn every_fault_is_written_as_its_record() {
    for (fault, record) in every_fault() {
        assert_eq!(to_record(fault.clone()), record, "{:?}", fault);
    }
}

#[test]
fn every_fault_is_read_back_from_its_record() {
    for (fault, record) in every_fault() {
        assert_eq!(from_record(record), Some(fault.clone()), "{:?}", fault);
        assert_eq!(from_record(to_record(fault.clone())), Some(fault));
    }
}

#[test]
fn faults_that_differ_have_records_that_differ() {
    let all = every_fault();
    for (i, (_, first)) in all.iter().enumerate() {
        for (j, (_, second)) in all.iter().enumerate() {
            assert_eq!(i == j, first == second);
        }
    }
}

#[test]
fn misc_and_invalid_state_are_told_apart() {
    let text = "same text".to_string();
    let invalid = to_record(HotShotError::InvalidState { context: text.clone() });
    let misc = to_record(HotShotError::Misc { context: text.clone() });
    assert_ne!(invalid, misc);
    assert_eq!(from_record(invalid), Some(HotShotError::InvalidState { context: text.clone() }));
    assert_eq!(from_record(misc), Some(HotShotError::Misc { context: text }));
}

#[test]
fn threshold_of_zero_is_refused() {
    let record = FaultRecord { num_valid_signatures: 0, threshold: 0, ..blank(9) };
    assert_eq!(from_record(record), None);
    let record = FaultRecord { num_valid_signatures: 5, threshold: 0, ..blank(9) };
    assert_eq!(from_record(record), None);
    let record = FaultRecord { num_valid_signatures: 0, threshold: 1, ..blank(9) };
    assert_eq!(
        from_record(record),
        Some(HotShotError::InsufficientValidSignatures { num_valid_signatures: 0, threshold: 1 })
    );
}

#[test]
fn unknown_variant_number_is_refused() {
    assert_eq!(from_record(blank(11)), None);
    assert_eq!(from_record(blank(12)), None);
    assert_eq!(from_record(blank(u8::MAX)), None);
}

#[test]
fn unknown_state_number_is_refused() {
    assert_eq!(from_record(FaultRecord { state: 10, ..blank(8) }), None);
    assert_eq!(from_record(FaultRecord { state: u8::MAX, ..blank(8) }), None);
    assert_eq!(
        from_record(FaultRecord { state: 9, view_number: 3, ..blank(8) }),
        Some(HotShotError::ViewTimeoutError {
            view_number: 3,
            state: RoundTimedoutState::TestCollectRoundEventsTimedOut
        })
    );
}

#[test]
fn unknown_cause_number_is_refused() {
    for variant in [0, 1, 3] {
        assert_eq!(from_record(FaultRecord { source: 3, ..blank(variant) }), None);
    }
    assert_eq!(from_record(FaultRecord { source: 2, ..blank(2) }), None);
    assert_eq!(from_record(FaultRecord { source: 2, ..blank(5) }), None);
    assert_eq!(from_record(FaultRecord { source: u8::MAX, ..blank(5) }), None);
}

#[test]
fn fields_that_the_variant_lacks_are_not_looked_at() {
    let record = FaultRecord {
        variant: 4,
        source: 9,
        view_number: 7,
        state: 200,
        num_valid_signatures: 1,
        threshold: 0,
        context: "noise".to_string(),
    };
    assert_eq!(from_record(record), Some(HotShotError::LeafNotFound {}));
}
