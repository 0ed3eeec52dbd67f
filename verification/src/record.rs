//! The flat form in which a fault is written and read.
//!
//! A [`FaultRecord`] has one field for everything that any fault carries:
//! numbers for the variant, the cause and the state, and the plain values
//! beside them. Writing fills the fields that the variant has and leaves the
//! others zero or empty. Reading refuses a record whose variant, cause or
//! state number is unknown, and one that reports a threshold of zero; fields
//! that the variant does not have are not looked at.

use crate::error::{BlockError, FaultView, HotShotError, NetworkError, RoundTimedoutState};
use crate::traits::block_storage::BlockStorageError;
use vstd::prelude::*;

verus! {

/// A fault in flat form.
#[derive(Clone, Debug, PartialEq, Eq)]
pub struct FaultRecord {
    /// The number of the variant.
    pub variant: u8,
    /// The number of the cause, for a variant that has one.
    pub source: u8,
    pub view_number: u64,
    /// The number of the state in which the view timed out.
    pub state: u8,
    pub num_valid_signatures: usize,
    pub threshold: u64,
    pub context: String,
}

/// The mathematical value of a [`FaultRecord`].
pub struct FaultRecordView {
    pub variant: u8,
    pub source: u8,
    pub view_number: u64,
    pub state: u8,
    pub num_valid_signatures: usize,
    pub threshold: u64,
    pub context: Seq<char>,
}

impl View for FaultRecord {
    type V = FaultRecordView;

    open spec fn view(&self) -> FaultRecordView {
        FaultRecordView {
            variant: self.variant,
            source: self.source,
            view_number: self.view_number,
            state: self.state,
            num_valid_signatures: self.num_valid_signatures,
            threshold: self.threshold,
            context: self.context@,
        }
    }
}

/// The number of a transport fault.
pub open spec fn network_code(cause: NetworkError) -> u8 {
    match cause {
        NetworkError::Unreachable => 0,
        NetworkError::SendFailed => 1,
        NetworkError::ShutDown => 2,
    }
}

/// The transport fault of a number.
pub open spec fn network_of(code: u8) -> Option<NetworkError> {
    if code == 0 {
        Some(NetworkError::Unreachable)
    } else if code == 1 {
        Some(NetworkError::SendFailed)
    } else if code == 2 {
        Some(NetworkError::ShutDown)
    } else {
        None
    }
}

/// The number of a payload fault.
pub open spec fn block_code(cause: BlockError) -> u8 {
    match cause {
        BlockError::ConstructionFailed => 0,
        BlockError::ValidationFailed => 1,
    }
}

/// The payload fault of a number.
pub open spec fn block_of(code: u8) -> Option<BlockError> {
    if code == 0 {
        Some(BlockError::ConstructionFailed)
    } else if code == 1 {
        Some(BlockError::ValidationFailed)
    } else {
        None
    }
}

/// The number of a storage fault.
pub open spec fn storage_code(cause: BlockStorageError) -> u8 {
    match cause {
        BlockStorageError::StoreError => 0,
        BlockStorageError::RetrieveError => 1,
    }
}

/// The storage fault of a number.
pub open spec fn storage_of(code: u8) -> Option<BlockStorageError> {
    if code == 0 {
        Some(BlockStorageError::StoreError)
    } else if code == 1 {
        Some(BlockStorageError::RetrieveError)
    } else {
        None
    }
}

/// The number of a state.
pub open spec fn state_code(state: RoundTimedoutState) -> u8 {
    match state {
        RoundTimedoutState::LeaderWaitingForHighQC => 0,
        RoundTimedoutState::LeaderMinRoundTimeNotReached => 1,
        RoundTimedoutState::LeaderWaitingForPrepareVotes => 2,
        RoundTimedoutState::LeaderWaitingForPreCommitVotes => 3,
        RoundTimedoutState::LeaderWaitingForCommitVotes => 4,
        RoundTimedoutState::ReplicaWaitingForPrepare => 5,
        RoundTimedoutState::ReplicaWaitingForPreCommit => 6,
        RoundTimedoutState::ReplicaWaitingForCommit => 7,
        RoundTimedoutState::ReplicaWaitingForDecide => 8,
        RoundTimedoutState::TestCollectRoundEventsTimedOut => 9,
    }
}

/// The state of a number.
pub open spec fn state_of(code: u8) -> Option<RoundTimedoutState> {
    if code == 0 {
        Some(RoundTimedoutState::LeaderWaitingForHighQC)
    } else if code == 1 {
        Some(RoundTimedoutState::LeaderMinRoundTimeNotReached)
    } else if code == 2 {
        Some(RoundTimedoutState::LeaderWaitingForPrepareVotes)
    } else if code == 3 {
        Some(RoundTimedoutState::LeaderWaitingForPreCommitVotes)
    } else if code == 4 {
        Some(RoundTimedoutState::LeaderWaitingForCommitVotes)
    } else if code == 5 {
        Some(RoundTimedoutState::ReplicaWaitingForPrepare)
    } else if code == 6 {
        Some(RoundTimedoutState::ReplicaWaitingForPreCommit)
    } else if code == 7 {
        Some(RoundTimedoutState::ReplicaWaitingForCommit)
    } else if code == 8 {
        Some(RoundTimedoutState::ReplicaWaitingForDecide)
    } else if code == 9 {
        Some(RoundTimedoutState::TestCollectRoundEventsTimedOut)
    } else {
        None
    }
}

/// The record with the given variant number and nothing else.
pub open spec fn bare(variant: u8) -> FaultRecordView {
    FaultRecordView {
        variant,
        source: 0,
        view_number: 0,
        state: 0,
        num_valid_signatures: 0,
        threshold: 0,
        context: Seq::empty(),
    }
}

/// The record that is written for a fault.
pub open spec fn record_of(fault: FaultView) -> FaultRecordView {
    match fault {
        FaultView::FailedToMessageLeader { source } => FaultRecordView {
            source: network_code(source),
            ..bare(0)
        },
        FaultView::FailedToBroadcast { source } => FaultRecordView {
            source: network_code(source),
            ..bare(1)
        },
        FaultView::BlockError { source } => FaultRecordView { source: block_code(source), ..bare(2) },
        FaultView::NetworkFault { source } => FaultRecordView {
            source: network_code(source),
            ..bare(3)
        },
        FaultView::LeafNotFound => bare(4),
        FaultView::StorageError { source } => FaultRecordView {
            source: storage_code(source),
            ..bare(5)
        },
        FaultView::InvalidState { context } => FaultRecordView { context, ..bare(6) },
        FaultView::TimeoutError => bare(7),
        FaultView::ViewTimeoutError { view_number, state } => FaultRecordView {
            view_number,
            state: state_code(state),
            ..bare(8)
        },
        FaultView::InsufficientValidSignatures {
            num_valid_signatures,
            threshold,
        } => FaultRecordView { num_valid_signatures, threshold, ..bare(9) },
        FaultView::Misc { context } => FaultRecordView { context, ..bare(10) },
    }
}

/// The fault that a record stands for; none for a record with an unknown
/// variant, cause or state number, and for one that reports a threshold of
/// zero.
pub open spec fn fault_of(record: FaultRecordView) -> Option<FaultView> {
    if record.variant == 0 {
        match network_of(record.source) {
            Some(source) => Some(FaultView::FailedToMessageLeader { source }),
            None => None,
        }
    } else if record.variant == 1 {
        match network_of(record.source) {
            Some(source) => Some(FaultView::FailedToBroadcast { source }),
            None => None,
        }
    } else if record.variant == 2 {
        match block_of(record.source) {
            Some(source) => Some(FaultView::BlockError { source }),
            None => None,
        }
    } else if record.variant == 3 {
        match network_of(record.source) {
            Some(source) => Some(FaultView::NetworkFault { source }),
            None => None,
        }
    } else if record.variant == 4 {
        Some(FaultView::LeafNotFound)
    } else if record.variant == 5 {
        match storage_of(record.source) {
            Some(source) => Some(FaultView::StorageError { source }),
            None => None,
        }
    } else if record.variant == 6 {
        Some(FaultView::InvalidState { context: record.context })
    } else if record.variant == 7 {
        Some(FaultView::TimeoutError)
    } else if record.variant == 8 {
        match state_of(record.state) {
            Some(state) => Some(
                FaultView::ViewTimeoutError { view_number: record.view_number, state },
            ),
            None => None,
        }
    } else if record.variant == 9 {
        if record.threshold == 0 {
            None
        } else {
            Some(
                FaultView::InsufficientValidSignatures {
                    num_valid_signatures: record.num_valid_signatures,
                    threshold: record.threshold,
                },
            )
        }
    } else if record.variant == 10 {
        Some(FaultView::Misc { context: record.context })
    } else {
        None
    }
}

/// Round trip: what is written for a fault is read back as that fault. A
/// report of insufficient signatures must name a threshold other than zero;
/// the library makes no other.
pub proof fn law_fault_round_trip(fault: FaultView)
    requires
        fault matches FaultView::InsufficientValidSignatures { threshold, .. } ==> threshold != 0,
    ensures
        fault_of(record_of(fault)) == Some(fault),
{
}

/// Two faults with the same record are the same fault.
pub proof fn law_record_injective(a: FaultView, b: FaultView)
    requires
        record_of(a) == record_of(b),
    ensures
        a == b,
{
}

fn network_number(cause: NetworkError) -> (code: u8)
    ensures
        code == network_code(cause),
{
    match cause {
        NetworkError::Unreachable => 0,
        NetworkError::SendFailed => 1,
        NetworkError::ShutDown => 2,
    }
}

fn network_from(code: u8) -> (cause: Option<NetworkError>)
    ensures
        cause == network_of(code),
{
    if code == 0 {
        Some(NetworkError::Unreachable)
    } else if code == 1 {
        Some(NetworkError::SendFailed)
    } else if code == 2 {
        Some(NetworkError::ShutDown)
    } else {
        None
    }
}

fn block_number(cause: BlockError) -> (code: u8)
    ensures
        code == block_code(cause),
{
    match cause {
        BlockError::ConstructionFailed => 0,
        BlockError::ValidationFailed => 1,
    }
}

fn block_from(code: u8) -> (cause: Option<BlockError>)
    ensures
        cause == block_of(code),
{
    if code == 0 {
        Some(BlockError::ConstructionFailed)
    } else if code == 1 {
        Some(BlockError::ValidationFailed)
    } else {
        None
    }
}

fn storage_number(cause: BlockStorageError) -> (code: u8)
    ensures
        code == storage_code(cause),
{
    match cause {
        BlockStorageError::StoreError => 0,
        BlockStorageError::RetrieveError => 1,
    }
}

fn storage_from(code: u8) -> (cause: Option<BlockStorageError>)
    ensures
        cause == storage_of(code),
{
    if code == 0 {
        Some(BlockStorageError::StoreError)
    } else if code == 1 {
        Some(BlockStorageError::RetrieveError)
    } else {
        None
    }
}

fn state_number(state: RoundTimedoutState) -> (code: u8)
    ensures
        code == state_code(state),
{
    match state {
        RoundTimedoutState::LeaderWaitingForHighQC => 0,
        RoundTimedoutState::LeaderMinRoundTimeNotReached => 1,
        RoundTimedoutState::LeaderWaitingForPrepareVotes => 2,
        RoundTimedoutState::LeaderWaitingForPreCommitVotes => 3,
        RoundTimedoutState::LeaderWaitingForCommitVotes => 4,
        RoundTimedoutState::ReplicaWaitingForPrepare => 5,
        RoundTimedoutState::ReplicaWaitingForPreCommit => 6,
        RoundTimedoutState::ReplicaWaitingForCommit => 7,
        RoundTimedoutState::ReplicaWaitingForDecide => 8,
        RoundTimedoutState::TestCollectRoundEventsTimedOut => 9,
    }
}

fn state_from(code: u8) -> (state: Option<RoundTimedoutState>)
    ensures
        state == state_of(code),
{
    if code == 0 {
        Some(RoundTimedoutState::LeaderWaitingForHighQC)
    } else if code == 1 {
        Some(RoundTimedoutState::LeaderMinRoundTimeNotReached)
    } else if code == 2 {
        Some(RoundTimedoutState::LeaderWaitingForPrepareVotes)
    } else if code == 3 {
        Some(RoundTimedoutState::LeaderWaitingForPreCommitVotes)
    } else if code == 4 {
        Some(RoundTimedoutState::LeaderWaitingForCommitVotes)
    } else if code == 5 {
        Some(RoundTimedoutState::ReplicaWaitingForPrepare)
    } else if code == 6 {
        Some(RoundTimedoutState::ReplicaWaitingForPreCommit)
    } else if code == 7 {
        Some(RoundTimedoutState::ReplicaWaitingForCommit)
    } else if code == 8 {
        Some(RoundTimedoutState::ReplicaWaitingForDecide)
    } else if code == 9 {
        Some(RoundTimedoutState::TestCollectRoundEventsTimedOut)
    } else {
        None
    }
}

/// The record with the given variant number and nothing else.
fn blank(variant: u8) -> (record: FaultRecord)
    ensures
        record@ == bare(variant),
{
    FaultRecord {
        variant,
        source: 0,
        view_number: 0,
        state: 0,
        num_valid_signatures: 0,
        threshold: 0,
        context: String::new(),
    }
}

/// Writes a fault: decides the variant number and the fields of its record.
pub fn to_record(fault: HotShotError) -> (record: FaultRecord)
    ensures
        record@ == record_of(fault@),
{
    match fault {
        HotShotError::FailedToMessageLeader { source } => {
            let mut record = blank(0);
            record.source = network_number(source);
            record
        },
        HotShotError::FailedToBroadcast { source } => {
            let mut record = blank(1);
            record.source = network_number(source);
            record
        },
        HotShotError::BlockError { source } => {
            let mut record = blank(2);
            record.source = block_number(source);
            record
        },
        HotShotError::NetworkFault { source } => {
            let mut record = blank(3);
            record.source = network_number(source);
            record
        },
        HotShotError::LeafNotFound {  } => blank(4),
        HotShotError::StorageError { source } => {
            let mut record = blank(5);
            record.source = storage_number(source);
            record
        },
        HotShotError::InvalidState { context } => {
            let mut record = blank(6);
            record.context = context;
            record
        },
        HotShotError::TimeoutError {  } => blank(7),
        HotShotError::ViewTimeoutError { view_number, state } => {
            let mut record = blank(8);
            record.view_number = view_number;
            record.state = state_number(state);
            record
        },
        HotShotError::InsufficientValidSignatures { num_valid_signatures, threshold } => {
            let mut record = blank(9);
            record.num_valid_signatures = num_valid_signatures;
            record.threshold = threshold;
            record
        },
        HotShotError::Misc { context } => {
            let mut record = blank(10);
            record.context = context;
            record
        },
    }
}

/// Reads a fault: `None` exactly for a record that stands for none.
pub fn from_record(record: FaultRecord) -> (fault: Option<HotShotError>)
    ensures
        match fault {
            Some(f) => fault_of(record@) == Some(f@),
            None => fault_of(record@) is None,
        },
{
    if record.variant == 0 {
        match network_from(record.source) {
            Some(source) => Some(HotShotError::FailedToMessageLeader { source }),
            None => None,
        }
    } else if record.variant == 1 {
        match network_from(record.source) {
            Some(source) => Some(HotShotError::FailedToBroadcast { source }),
            None => None,
        }
    } else if record.variant == 2 {
        match block_from(record.source) {
            Some(source) => Some(HotShotError::BlockError { source }),
            None => None,
        }
    } else if record.variant == 3 {
        match network_from(record.source) {
            Some(source) => Some(HotShotError::NetworkFault { source }),
            None => None,
        }
    } else if record.variant == 4 {
        Some(HotShotError::LeafNotFound {  })
    } else if record.variant == 5 {
        match storage_from(record.source) {
            Some(source) => Some(HotShotError::StorageError { source }),
            None => None,
        }
    } else if record.variant == 6 {
        Some(HotShotError::InvalidState { context: record.context })
    } else if record.variant == 7 {
        Some(HotShotError::TimeoutError {  })
    } else if record.variant == 8 {
        match state_from(record.state) {
            Some(state) => Some(
                HotShotError::ViewTimeoutError { view_number: record.view_number, state },
            ),
            None => None,
        }
    } else if record.variant == 9 {
        if record.threshold == 0 {
            None
        } else {
            Some(
                HotShotError::InsufficientValidSignatures {
                    num_valid_signatures: record.num_valid_signatures,
                    threshold: record.threshold,
                },
            )
        }
    } else if record.variant == 10 {
        Some(HotShotError::Misc { context: record.context })
    } else {
        None
    }
}

} // verus!
