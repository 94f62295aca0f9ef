use web3_proxy::block::Digest;
use web3_proxy::pending::{
    is_kept, PendingTxEntry, PendingTxIndex, Transaction, TxObservation, TxState, TxStatus,
};

fn hash(fill: u8) -> Digest {
    Digest::new([fill; 32])
}

#[test]
fn a_first_sighting_makes_a_transaction_pending() {
    let mut index = PendingTxIndex::new(3, 1000, 100);
    assert_eq!(index.get(&hash(1)), None);
    let published = index.observe(&hash(1), TxObservation::SeenPending, Some(10), 5);
    assert_eq!(published, Some(TxStatus::Pending));
    assert_eq!(
        index.get(&hash(1)),
        Some(PendingTxEntry { tx_hash: hash(1), state: TxStatus::Pending, observed_at: 5 })
    );
    // seen again, nothing changes and nothing is published
    assert_eq!(index.observe(&hash(1), TxObservation::SeenPending, Some(10), 6), None);
    assert_eq!(index.get(&hash(1)).unwrap().observed_at, 5);
    assert_eq!(index.get(&hash(2)), None);
}

#[test]
fn inclusion_at_or_before_the_head_confirms() {
    let mut index = PendingTxIndex::new(3, 1000, 100);
    index.observe(&hash(1), TxObservation::SeenPending, Some(10), 5);
    // a block beyond the canonical head does not confirm
    let ahead = TxObservation::Included { block_number: 11 };
    assert_eq!(index.observe(&hash(1), ahead, Some(10), 6), None);
    // nor does any block while there is no canonical head
    assert_eq!(index.observe(&hash(1), TxObservation::Included { block_number: 1 }, None, 6), None);
    let at = TxObservation::Included { block_number: 10 };
    assert_eq!(index.observe(&hash(1), at, Some(10), 7), Some(TxStatus::Confirmed));
    assert_eq!(index.get(&hash(1)).unwrap().state, TxStatus::Confirmed);
    assert_eq!(index.get(&hash(1)).unwrap().observed_at, 7);
    // inclusion of an unknown transaction creates nothing
    assert_eq!(index.observe(&hash(2), at, Some(10), 7), None);
    assert_eq!(index.get(&hash(2)), None);
}

#[test]
fn a_confirmed_transaction_is_not_pending_again_without_a_reorg() {
    let mut index = PendingTxIndex::new(3, 1000, 100);
    index.observe(&hash(1), TxObservation::SeenPending, Some(10), 1);
    index.observe(&hash(1), TxObservation::Included { block_number: 9 }, Some(10), 2);
    assert_eq!(index.observe(&hash(1), TxObservation::SeenPending, Some(10), 3), None);
    assert_eq!(index.get(&hash(1)).unwrap().state, TxStatus::Confirmed);
    // a reorganization deeper than the tracker follows does not orphan
    assert_eq!(index.observe(&hash(1), TxObservation::Reorged { depth: 4 }, Some(10), 4), None);
    let orphaned = index.observe(&hash(1), TxObservation::Reorged { depth: 3 }, Some(10), 5);
    assert_eq!(orphaned, Some(TxStatus::Orphaned));
    let again = index.observe(&hash(1), TxObservation::SeenPending, Some(10), 6);
    assert_eq!(again, Some(TxStatus::Pending));
}

#[test]
fn only_a_confirmed_transaction_is_orphaned() {
    let mut index = PendingTxIndex::new(3, 1000, 100);
    index.observe(&hash(1), TxObservation::SeenPending, Some(10), 1);
    assert_eq!(index.observe(&hash(1), TxObservation::Reorged { depth: 1 }, Some(10), 2), None);
    assert_eq!(index.get(&hash(1)).unwrap().state, TxStatus::Pending);
}

#[test]
fn confirmed_entries_are_removed_after_the_retention() {
    let mut index = PendingTxIndex::new(3, 100, 100);
    index.observe(&hash(1), TxObservation::SeenPending, Some(10), 0);
    index.observe(&hash(1), TxObservation::Included { block_number: 9 }, Some(10), 50);
    index.observe(&hash(2), TxObservation::SeenPending, Some(10), 0);
    index.prune(150);
    assert!(index.get(&hash(1)).is_some());
    assert!(index.get(&hash(2)).is_some());
    index.prune(151);
    assert_eq!(index.get(&hash(1)), None);
    // a pending entry stays however old it is
    assert!(index.get(&hash(2)).is_some());
    let old = PendingTxEntry { tx_hash: hash(3), state: TxStatus::Confirmed, observed_at: 50 };
    assert!(is_kept(&old, 150, 100));
    assert!(!is_kept(&old, 151, 100));
    assert!(is_kept(&old, 10, 100));
}

#[test]
fn an_entry_can_be_removed() {
    let mut index = PendingTxIndex::new(3, 100, 100);
    index.observe(&hash(1), TxObservation::SeenPending, Some(10), 0);
    index.observe(&hash(2), TxObservation::SeenPending, Some(10), 1);
    let removed = index.remove(&hash(1));
    assert_eq!(removed.unwrap().tx_hash, hash(1));
    assert_eq!(index.get(&hash(1)), None);
    assert_eq!(index.get(&hash(2)).unwrap().observed_at, 1);
    assert_eq!(index.remove(&hash(1)), None);
}

#[test]
fn a_state_carries_its_transaction() {
    let tx = Transaction { hash: hash(7), body: "{}".to_string(), raw: "0x01".to_string() };
    let state = TxState::new(TxStatus::Orphaned, tx.clone());
    assert_eq!(state, TxState::Orphaned(tx.clone()));
    assert_eq!(state.status(), TxStatus::Orphaned);
    assert_eq!(state.transaction(), &tx);
    assert_eq!(TxState::new(TxStatus::Pending, tx.clone()).status(), TxStatus::Pending);
    assert_eq!(TxState::new(TxStatus::Confirmed, tx).status(), TxStatus::Confirmed);
}

#[test]
fn a_full_index_gives_up_its_oldest_entry() {
    let mut index = PendingTxIndex::new(3, 1000, 2);
    index.observe(&hash(1), TxObservation::SeenPending, Some(10), 1);
    index.observe(&hash(2), TxObservation::SeenPending, Some(10), 2);
    // a change of state does not make an entry younger
    index.observe(&hash(1), TxObservation::Included { block_number: 9 }, Some(10), 3);
    assert_eq!(index.len(), 2);
    let published = index.observe(&hash(3), TxObservation::SeenPending, Some(10), 4);
    assert_eq!(published, Some(TxStatus::Pending));
    assert_eq!(index.len(), 2);
    assert_eq!(index.get(&hash(1)), None);
    assert!(index.get(&hash(2)).is_some());
    assert!(index.get(&hash(3)).is_some());
    assert_eq!(index.order.iter().copied().collect::<Vec<Digest>>(), vec![hash(2), hash(3)]);
}

#[test]
fn an_index_without_room_publishes_and_keeps_nothing() {
    let mut index = PendingTxIndex::new(3, 1000, 0);
    let published = index.observe(&hash(1), TxObservation::SeenPending, Some(10), 1);
    assert_eq!(published, Some(TxStatus::Pending));
    assert_eq!(index.len(), 0);
    assert_eq!(index.get(&hash(1)), None);
}

#[test]
fn the_order_follows_the_entries() {
    let mut index = PendingTxIndex::new(3, 100, 10);
    for i in 1..=4u8 {
        index.observe(&hash(i), TxObservation::SeenPending, Some(10), 0);
    }
    index.observe(&hash(2), TxObservation::Included { block_number: 1 }, Some(10), 0);
    index.observe(&hash(4), TxObservation::Included { block_number: 1 }, Some(10), 50);
    index.remove(&hash(1));
    assert_eq!(index.order.iter().copied().collect::<Vec<Digest>>(), vec![hash(2), hash(3), hash(4)]);
    index.prune(101);
    assert_eq!(index.order.iter().copied().collect::<Vec<Digest>>(), vec![hash(3), hash(4)]);
    assert_eq!(index.len(), 2);
    index.prune(151);
    assert_eq!(index.order.iter().copied().collect::<Vec<Digest>>(), vec![hash(3)]);
}
