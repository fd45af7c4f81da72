//! Tests of the chain-reorganisation rewind.

use zcash_wallet_store::store::WalletDb;
use zcash_wallet_store::types::{Error, ShieldedOutput};
use zcash_wallet_store::wallet::{
    block_height_extrema, get_balance, get_tx_height, get_witnesses, rewind_to_height,
};

const SAPLING: Option<u32> = Some(1);

/// A store that scanned blocks 1..=10, with one transaction mined in each
/// block and a witnessed note for each transaction.
fn scanned_chain() -> WalletDb {
    let mut db = WalletDb::new();
    db.add_account(b"key0".to_vec(), b"addr0".to_vec());
    for h in 1..=10u32 {
        db.insert_block(h, vec![h as u8; 32], h, vec![h as u8]).unwrap();
        let tx = db.put_tx_meta(&vec![h as u8; 32], 0, h).unwrap();
        let out = ShieldedOutput::Scanned {
            index: 0,
            account: 0,
            to: b"addr0".to_vec(),
            value: 10,
            is_change: false,
        };
        let note = db.put_received_note(&out, &Some(vec![h as u8; 32]), tx).unwrap();
        db.insert_witness(note, vec![0xee, h as u8], h).unwrap();
    }
    db
}

#[test]
fn rewind_undoes_exactly_the_blocks_above_the_target() {
    let mut db = scanned_chain();
    assert_eq!(block_height_extrema(&db), Some((1, 10)));
    assert_eq!(get_balance(&db, 0).unwrap(), 100);

    rewind_to_height(&mut db, SAPLING, 5).unwrap();

    // Blocks above 5 are gone.
    assert_eq!(block_height_extrema(&db), Some((1, 5)));
    // No witness above height 5 survives; those at or below it all do.
    for h in 6..=10u32 {
        assert_eq!(get_witnesses(&db, h), vec![]);
    }
    for h in 1..=5u32 {
        let ws = get_witnesses(&db, h);
        assert_eq!(ws.len(), 1);
        assert_eq!(ws[0].1, vec![0xee, h as u8]);
    }
    // Transactions mined above 5 revert to unmined but are still present,
    // and their note records are intact.
    assert_eq!(get_tx_height(&db, &vec![7u8; 32]), None);
    assert_eq!(get_tx_height(&db, &vec![3u8; 32]), Some(3));
    assert_eq!(db.txs.len(), 10);
    assert_eq!(db.received_notes.len(), 10);
    // Only notes of still-mined transactions count toward the balance.
    assert_eq!(get_balance(&db, 0).unwrap(), 50);
}

#[test]
fn pruning_drops_witnesses_below_the_floor() {
    let mut db = scanned_chain();
    db.prune_witnesses(4);
    for h in 1..=3u32 {
        assert_eq!(get_witnesses(&db, h), vec![]);
    }
    for h in 4..=10u32 {
        assert_eq!(get_witnesses(&db, h).len(), 1);
    }
    // Pruning touches nothing but witnesses.
    assert_eq!(block_height_extrema(&db), Some((1, 10)));
    assert_eq!(get_balance(&db, 0).unwrap(), 100);
}

#[test]
fn rewind_to_current_or_later_height_is_a_no_op() {
    let mut db = scanned_chain();
    let witnesses_before = get_witnesses(&db, 10);

    rewind_to_height(&mut db, SAPLING, 10).unwrap();
    assert_eq!(block_height_extrema(&db), Some((1, 10)));
    assert_eq!(get_witnesses(&db, 10), witnesses_before);
    assert_eq!(get_balance(&db, 0).unwrap(), 100);

    rewind_to_height(&mut db, SAPLING, 50).unwrap();
    assert_eq!(block_height_extrema(&db), Some((1, 10)));
    assert_eq!(db.txs.len(), 10);
    assert_eq!(db.received_notes.len(), 10);
}

#[test]
fn rewind_on_an_empty_store_changes_nothing() {
    let mut db = WalletDb::new();
    rewind_to_height(&mut db, Some(419_200), 100).unwrap();
    assert_eq!(block_height_extrema(&db), None);
}

#[test]
fn rewind_needs_a_sapling_activation_height() {
    let mut db = scanned_chain();
    assert_eq!(rewind_to_height(&mut db, None, 5), Err(Error::SaplingNotActive));
    // The failed call left everything in place.
    assert_eq!(block_height_extrema(&db), Some((1, 10)));
    assert_eq!(get_balance(&db, 0).unwrap(), 100);
}
