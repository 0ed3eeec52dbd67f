use hotshot_core::error::{
    retry_delay, BlockError, FaultHandling, HotShotError, NetworkError, RoundTimedoutState,
};
use hotshot_core::traits::block_storage::BlockStorageError;

fn one_of_each() -> Vec<(HotShotError, FaultHandling)> {
    vec![
        (
            HotShotError::FailedToMessageLeader { source: NetworkError::Unreachable },
            FaultHandling::Retry,
        ),
        (HotShotError::FailedToBroadcast { source: NetworkError::SendFailed }, FaultHandling::Retry),
        (HotShotError::NetworkFault { source: NetworkError::ShutDown }, FaultHandling::Retry),
        (
            HotShotError::BlockError { source: BlockError::ValidationFailed },
            FaultHandling::RejectProposal,
        ),
        (HotShotError::LeafNotFound {}, FaultHandling::Surface),
        (
            HotShotError::StorageError { source: BlockStorageError::RetrieveError },
            FaultHandling::Surface,
        ),
        (HotShotError::InvalidState { context: "x".to_string() }, FaultHandling::DropMessage),
        (HotShotError::TimeoutError {}, FaultHandling::RouteToViewSync),
        (
            HotShotError::ViewTimeoutError {
                view_number: 2,
                state: RoundTimedoutState::ReplicaWaitingForPrepare,
            },
            FaultHandling::RouteToViewSync,
        ),
        (
            HotShotError::InsufficientValidSignatures { num_valid_signatures: 2, threshold: 3 },
            FaultHandling::RejectCertificate,
        ),
        (HotShotError::Misc { context: "y".to_string() }, FaultHandling::Unclassified),
    ]
}

#[test]
fn every_fault_has_its_handling() {
    for (fault, handling) in one_of_each() {
        assert_eq!(fault.handling(), handling, "{:?}", fault);
    }
}

#[test]
fn only_timeouts_are_liveness_events() {
    for (fault, handling) in one_of_each() {
        assert_eq!(fault.is_liveness_event(), handling == FaultHandling::RouteToViewSync);
    }
}

#[test]
fn transport_fault_becomes_timeout_when_retries_run_out() {
    let fault = HotShotError::FailedToBroadcast { source: NetworkError::Unreachable };
    assert_eq!(fault.handling_after_retries(0, 3), FaultHandling::Retry);
    assert_eq!(fault.handling_after_retries(2, 3), FaultHandling::Retry);
    assert_eq!(fault.handling_after_retries(3, 3), FaultHandling::RouteToViewSync);
    assert_eq!(fault.handling_after_retries(9, 3), FaultHandling::RouteToViewSync);
    assert_eq!(fault.handling_after_retries(0, 0), FaultHandling::RouteToViewSync);
}

#[test]
fn other_faults_keep_their_handling_whatever_the_retries() {
    for (fault, handling) in one_of_each() {
        if handling != FaultHandling::Retry {
            assert_eq!(fault.handling_after_retries(100, 3), handling);
        }
    }
}

#[test]
fn invalid_state_carries_its_context() {
    assert_eq!(
        HotShotError::invalid_state("unexpected message"),
        HotShotError::InvalidState { context: "unexpected message".to_string() }
    );
}

#[test]
fn expired_timer_becomes_a_timeout_fault() {
    let runtime = tokio::runtime::Builder::new_current_thread()
        .enable_time()
        .build()
        .expect("a runtime with a timer");
    let elapsed = runtime
        .block_on(async {
            tokio::time::timeout(
                std::time::Duration::from_millis(1),
                std::future::pending::<()>(),
            )
            .await
        })
        .expect_err("the future never completes");
    let fault = HotShotError::from(elapsed);
    assert_eq!(fault, HotShotError::TimeoutError {});
    assert_eq!(fault.handling(), FaultHandling::RouteToViewSync);
}

#[test]
fn retry_delay_doubles_up_to_the_cap() {
    let delays: Vec<u64> = (0..7).map(|attempts| retry_delay(attempts, 10, 250)).collect();
    assert_eq!(delays, vec![10, 20, 40, 80, 160, 250, 250]);
    assert_eq!(retry_delay(u32::MAX, 10, 250), 250);
    assert_eq!(retry_delay(3, 10, 80), 80);
    assert_eq!(retry_delay(0, 500, 250), 250);
    assert_eq!(retry_delay(5, 0, 250), 0);
    assert_eq!(retry_delay(u32::MAX, 0, 250), 0);
    assert_eq!(retry_delay(4, 7, 0), 0);
    assert_eq!(retry_delay(63, 1, u64::MAX), 1 << 63);
    assert_eq!(retry_delay(64, 1, u64::MAX), u64::MAX);
}
