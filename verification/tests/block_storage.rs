use hotshot_core::traits::block_storage::{
    BlockStorage, BlockStorageError, DAProposal, MemoryStorage, ProposalType, VidDisperse,
};

fn da(view_number: u64, participant: u64, payload: u64) -> ProposalType {
    ProposalType::DAProposal(DAProposal { view_number, participant, payload })
}

fn vid(view_number: u64, participant: u64, payload: u64, share: u64) -> ProposalType {
    ProposalType::VidDisperse(VidDisperse { view_number, participant, payload, share })
}

#[test]
fn empty_store_holds_nothing() {
    let store = MemoryStorage::empty();
    assert_eq!(store.len(), 0);
    assert_eq!(store.find(&da(1, 1, 1)), None);
}

#[test]
fn append_keeps_records() {
    let mut store = MemoryStorage::empty();
    assert_eq!(store.append(&da(1, 2, 77)), Ok(()));
    assert_eq!(store.append(&vid(1, 2, 77, 5)), Ok(()));
    assert_eq!(store.append(&vid(1, 3, 77, 6)), Ok(()));
    assert_eq!(store.append(&da(2, 2, 78)), Ok(()));
    assert_eq!(store.len(), 4);
    assert_eq!(store.find(&da(1, 2, 0)), Some(da(1, 2, 77)));
    assert_eq!(store.find(&vid(1, 3, 0, 0)), Some(vid(1, 3, 77, 6)));
    assert_eq!(store.find(&vid(2, 2, 0, 0)), None);
}

#[test]
fn append_is_idempotent_on_retry() {
    let mut store = MemoryStorage::empty();
    assert_eq!(store.append(&da(1, 2, 77)), Ok(()));
    assert_eq!(store.append(&da(1, 2, 77)), Ok(()));
    assert_eq!(store.append(&da(1, 2, 77)), Ok(()));
    assert_eq!(store.len(), 1);
}

#[test]
fn append_refuses_another_record_under_the_same_key() {
    let mut store = MemoryStorage::empty();
    assert_eq!(store.append(&da(1, 2, 77)), Ok(()));
    assert_eq!(store.append(&da(1, 2, 78)), Err(BlockStorageError::StoreError));
    assert_eq!(store.len(), 1);
    assert_eq!(store.find(&da(1, 2, 0)), Some(da(1, 2, 77)));
}

#[test]
fn key_is_kind_view_and_participant() {
    let a = da(1, 2, 77);
    assert!(a.has_same_key(da(1, 2, 0)));
    assert!(!a.has_same_key(da(2, 2, 77)));
    assert!(!a.has_same_key(da(1, 3, 77)));
    assert!(!a.has_same_key(vid(1, 2, 77, 0)));
    assert_eq!(a.view_number(), 1);
    assert_eq!(a.participant(), 2);
    assert_eq!(vid(4, 5, 6, 7).view_number(), 4);
    assert_eq!(vid(4, 5, 6, 7).participant(), 5);
}
