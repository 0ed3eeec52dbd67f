//! The fault taxonomy of the consensus core.
//!
//! Every way in which a view can fail is one variant of [`HotShotError`].
//! [`HotShotError::handling`] tells the surrounding system what to do with a
//! fault: none of them stops the node.

use crate::traits::block_storage::BlockStorageError;
use vstd::prelude::*;

verus! {

/// What the round was waiting for when its deadline expired.
#[derive(Clone, Copy, Debug, PartialEq, Eq, Structural)]
pub enum RoundTimedoutState {
    /// Leader is in a Prepare phase and is waiting for a HighQC
    LeaderWaitingForHighQC,
    /// Leader is in a Prepare phase and timed out before the round min time is reached
    LeaderMinRoundTimeNotReached,
    /// Leader is waiting for prepare votes
    LeaderWaitingForPrepareVotes,
    /// Leader is waiting for precommit votes
    LeaderWaitingForPreCommitVotes,
    /// Leader is waiting for commit votes
    LeaderWaitingForCommitVotes,
    /// Replica is waiting for a prepare message
    ReplicaWaitingForPrepare,
    /// Replica is waiting for a pre-commit message
    ReplicaWaitingForPreCommit,
    /// Replica is waiting for a commit message
    ReplicaWaitingForCommit,
    /// Replica is waiting for a decide message
    ReplicaWaitingForDecide,
    /// A harness tried to collect round events, but it timed out
    TestCollectRoundEventsTimedOut,
}

/// A fault of the transport layer.
#[derive(Clone, Copy, Debug, PartialEq, Eq, Structural)]
pub enum NetworkError {
    /// The peer could not be reached.
    Unreachable,
    /// The message could not be handed to the transport.
    SendFailed,
    /// The transport has shut down.
    ShutDown,
}

/// A fault of a block payload.
#[derive(Clone, Copy, Debug, PartialEq, Eq, Structural)]
pub enum BlockError {
    /// The payload could not be built.
    ConstructionFailed,
    /// The payload did not pass validation.
    ValidationFailed,
}

/// Error type of the consensus core.
#[derive(Clone, Debug, PartialEq, Eq)]
#[allow(inconsistent_fields)]
pub enum HotShotError {
    /// Failed to message the leader in the given stage
    FailedToMessageLeader {
        /// The underlying network fault
        source: NetworkError,
    },
    /// Failed to broadcast a message on the network
    FailedToBroadcast {
        /// The underlying network fault
        source: NetworkError,
    },
    /// Failure in the block.
    BlockError {
        /// The underlying block error.
        source: BlockError,
    },
    /// Failure in networking layer
    NetworkFault {
        /// Underlying network fault
        source: NetworkError,
    },
    /// Item was not present in storage
    LeafNotFound {  },
    /// Error accessing storage
    StorageError {
        /// Underlying error
        source: BlockStorageError,
    },
    /// Invalid state machine state
    InvalidState {
        /// Context
        context: String,
    },
    /// Timed out waiting for messages
    TimeoutError {  },
    /// Timed out during round
    ViewTimeoutError {
        /// view number
        view_number: u64,
        /// The state that the round was in when it timed out
        state: RoundTimedoutState,
    },
    /// Not enough valid signatures for a quorum
    InsufficientValidSignatures {
        /// Number of valid signatures
        num_valid_signatures: usize,
        /// Threshold of signatures needed for a quorum; never zero
        threshold: u64,
    },
    /// Miscellaneous error
    Misc {
        /// source of error
        context: String,
    },
}

/// The mathematical value of a [`HotShotError`]: texts are character
/// sequences.
#[allow(inconsistent_fields)]
pub enum FaultView {
    FailedToMessageLeader { source: NetworkError },
    FailedToBroadcast { source: NetworkError },
    BlockError { source: BlockError },
    NetworkFault { source: NetworkError },
    LeafNotFound,
    StorageError { source: BlockStorageError },
    InvalidState { context: Seq<char> },
    TimeoutError,
    ViewTimeoutError { view_number: u64, state: RoundTimedoutState },
    InsufficientValidSignatures { num_valid_signatures: usize, threshold: u64 },
    Misc { context: Seq<char> },
}

/// What the surrounding system does with a fault.
#[derive(Clone, Copy, Debug, PartialEq, Eq, Structural)]
pub enum FaultHandling {
    /// Transport fault: send again, a bounded number of times.
    Retry,
    /// The proposal at hand is dead; the node goes on.
    RejectProposal,
    /// Hand the fault to the caller, which may ask peers for what is missing.
    Surface,
    /// Log the fault and drop the offending message.
    DropMessage,
    /// An expected liveness event: hand it to the view synchronizer.
    RouteToViewSync,
    /// The certificate is refused; its sender may be flagged.
    RejectCertificate,
    /// Not classified; nothing may depend on it.
    Unclassified,
}

/// The handling that the taxonomy prescribes for each kind of fault.
pub open spec fn handling_of(fault: FaultView) -> FaultHandling {
    match fault {
        FaultView::FailedToMessageLeader { .. } => FaultHandling::Retry,
        FaultView::FailedToBroadcast { .. } => FaultHandling::Retry,
        FaultView::NetworkFault { .. } => FaultHandling::Retry,
        FaultView::BlockError { .. } => FaultHandling::RejectProposal,
        FaultView::LeafNotFound => FaultHandling::Surface,
        FaultView::StorageError { .. } => FaultHandling::Surface,
        FaultView::InvalidState { .. } => FaultHandling::DropMessage,
        FaultView::TimeoutError => FaultHandling::RouteToViewSync,
        FaultView::ViewTimeoutError { .. } => FaultHandling::RouteToViewSync,
        FaultView::InsufficientValidSignatures { .. } => FaultHandling::RejectCertificate,
        FaultView::Misc { .. } => FaultHandling::Unclassified,
    }
}

/// The handling after `attempts` tries out of at most `max_retries`: a
/// transport fault that has used up its retries counts as a timeout of the
/// view; every other handling stays as it is.
pub open spec fn handling_after(fault: FaultView, attempts: u32, max_retries: u32) -> FaultHandling {
    if handling_of(fault) == FaultHandling::Retry && attempts >= max_retries {
        FaultHandling::RouteToViewSync
    } else {
        handling_of(fault)
    }
}

/// How long to wait before the next try after `attempts` failed ones: the
/// base delay, doubled with every failed try and never more than the cap.
pub open spec fn backoff(attempts: nat, base: u64, cap: u64) -> nat
    decreases attempts,
{
    if attempts == 0 {
        if base <= cap {
            base as nat
        } else {
            cap as nat
        }
    } else if 2 * backoff((attempts - 1) as nat, base, cap) <= cap {
        2 * backoff((attempts - 1) as nat, base, cap)
    } else {
        cap as nat
    }
}

/// Once the delay is zero or has reached the cap it stays there.
pub proof fn lemma_backoff_settles(from: nat, to: nat, base: u64, cap: u64)
    requires
        from <= to,
        backoff(from, base, cap) == 0 || backoff(from, base, cap) == cap,
    ensures
        backoff(to, base, cap) == backoff(from, base, cap),
    decreases to - from,
{
    if from < to {
        lemma_backoff_settles(from, (to - 1) as nat, base, cap);
    }
}

/// Computes [`backoff`].
pub fn retry_delay(attempts: u32, base: u64, cap: u64) -> (delay: u64)
    ensures
        delay == backoff(attempts as nat, base, cap),
{
    let mut delay: u64 = if base <= cap {
        base
    } else {
        cap
    };
    let mut k: u32 = 0;
    while k < attempts && delay > 0 && delay < cap
        invariant
            k <= attempts,
            delay == backoff(k as nat, base, cap),
            delay <= cap,
        decreases attempts - k,
    {
        delay = if delay <= cap - delay {
            2 * delay
        } else {
            cap
        };
        k += 1;
    }
    proof {
        if k < attempts {
            lemma_backoff_settles(k as nat, attempts as nat, base, cap);
        }
    }
    delay
}

impl View for HotShotError {
    type V = FaultView;

    open spec fn view(&self) -> FaultView {
        match *self {
            HotShotError::FailedToMessageLeader { source } => FaultView::FailedToMessageLeader {
                source,
            },
            HotShotError::FailedToBroadcast { source } => FaultView::FailedToBroadcast { source },
            HotShotError::BlockError { source } => FaultView::BlockError { source },
            HotShotError::NetworkFault { source } => FaultView::NetworkFault { source },
            HotShotError::LeafNotFound {  } => FaultView::LeafNotFound,
            HotShotError::StorageError { source } => FaultView::StorageError { source },
            HotShotError::InvalidState { context } => FaultView::InvalidState { context: context@ },
            HotShotError::TimeoutError {  } => FaultView::TimeoutError,
            HotShotError::ViewTimeoutError { view_number, state } => FaultView::ViewTimeoutError {
                view_number,
                state,
            },
            HotShotError::InsufficientValidSignatures {
                num_valid_signatures,
                threshold,
            } => FaultView::InsufficientValidSignatures { num_valid_signatures, threshold },
            HotShotError::Misc { context } => FaultView::Misc { context: context@ },
        }
    }
}

/// `tokio::time::error::Elapsed`: the error with which the executor's timer
/// reports that a timeout has expired. The type is declared opaque; nothing
/// is claimed of its values.
#[verifier::external_type_specification]
#[verifier::external_body]
pub struct ExElapsed(tokio::time::error::Elapsed);

/// An expired timer of the executor is a timeout fault.
impl From<tokio::time::error::Elapsed> for HotShotError {
    fn from(elapsed: tokio::time::error::Elapsed) -> (fault: HotShotError) {
        HotShotError::TimeoutError {  }
    }
}

impl vstd::std_specs::convert::FromSpecImpl<tokio::time::error::Elapsed> for HotShotError {
    open spec fn obeys_from_spec() -> bool {
        true
    }

    open spec fn from_spec(elapsed: tokio::time::error::Elapsed) -> HotShotError {
        HotShotError::TimeoutError {  }
    }
}

impl HotShotError {
    /// An [`HotShotError::InvalidState`] with the given context.
    pub fn invalid_state(context: &str) -> (fault: HotShotError)
        ensures
            fault@ == (FaultView::InvalidState { context: context@ }),
    {
        HotShotError::InvalidState { context: context.to_owned() }
    }

    /// The handling that the taxonomy prescribes for this fault.
    pub fn handling(&self) -> (h: FaultHandling)
        ensures
            h == handling_of(self@),
    {
        match self {
            HotShotError::FailedToMessageLeader { .. } => FaultHandling::Retry,
            HotShotError::FailedToBroadcast { .. } => FaultHandling::Retry,
            HotShotError::NetworkFault { .. } => FaultHandling::Retry,
            HotShotError::BlockError { .. } => FaultHandling::RejectProposal,
            HotShotError::LeafNotFound {  } => FaultHandling::Surface,
            HotShotError::StorageError { .. } => FaultHandling::Surface,
            HotShotError::InvalidState { .. } => FaultHandling::DropMessage,
            HotShotError::TimeoutError {  } => FaultHandling::RouteToViewSync,
            HotShotError::ViewTimeoutError { .. } => FaultHandling::RouteToViewSync,
            HotShotError::InsufficientValidSignatures { .. } => FaultHandling::RejectCertificate,
            HotShotError::Misc { .. } => FaultHandling::Unclassified,
        }
    }

    /// The handling once `attempts` tries have been made and at most
    /// `max_retries` are allowed.
    pub fn handling_after_retries(&self, attempts: u32, max_retries: u32) -> (h: FaultHandling)
        ensures
            h == handling_after(self@, attempts, max_retries),
    {
        let h = self.handling();
        if h == FaultHandling::Retry && attempts >= max_retries {
            FaultHandling::RouteToViewSync
        } else {
            h
        }
    }

    /// Whether the fault is an expected event of the liveness path rather
    /// than a defect.
    pub fn is_liveness_event(&self) -> (b: bool)
        ensures
            b == (handling_of(self@) == FaultHandling::RouteToViewSync),
    {
        self.handling() == FaultHandling::RouteToViewSync
    }
}

} // verus!
