//! Tests of the read surface: balances on an empty store, block extrema,
//! hash and tree lookups, transaction heights and account queries.

use zcash_wallet_store::store::WalletDb;
use zcash_wallet_store::types::Error;
use zcash_wallet_store::data_api::{WalletRead, WalletWrite};
use zcash_wallet_store::wallet::{
    block_height_extrema, get_address, get_balance, get_block_hash, get_commitment_tree,
    get_extended_full_viewing_keys, get_tx_height, is_valid_account_extfvk,
};

#[test]
fn empty_database_has_no_balance() {
    let mut db_data = WalletDb::new();
    db_data.add_account(b"extfvk0".to_vec(), b"ztestsapling0".to_vec());

    // The account should be empty.
    assert_eq!(get_balance(&db_data, 0).unwrap(), 0);

    // We can't get an anchor height, as we have not scanned any blocks.
    assert_eq!(db_data.get_target_and_anchor_heights(), None);

    // An invalid account has zero balance.
    assert!(get_address(&db_data, 1).is_err());
    assert_eq!(get_balance(&db_data, 0).unwrap(), 0);
}

#[test]
fn extrema_report_min_and_max_heights() {
    let mut db = WalletDb::new();
    assert_eq!(block_height_extrema(&db), None);

    db.insert_block(7, vec![7u8; 32], 700, vec![0u8]).unwrap();
    assert_eq!(block_height_extrema(&db), Some((7, 7)));

    db.insert_block(3, vec![3u8; 32], 300, vec![0u8]).unwrap();
    db.insert_block(9, vec![9u8; 32], 900, vec![0u8]).unwrap();
    assert_eq!(block_height_extrema(&db), Some((3, 9)));
}

#[test]
fn target_and_anchor_follow_the_offset() {
    let mut db = WalletDb::new();
    for h in 100..=120u32 {
        db.insert_block(h, vec![h as u8; 32], h, vec![]).unwrap();
    }
    // Target is one above the newest block; the anchor sits ten
    // confirmations back.
    assert_eq!(db.get_target_and_anchor_heights(), Some((121, 111)));
}

#[test]
fn anchor_never_precedes_earliest_block() {
    let mut db = WalletDb::new();
    db.insert_block(100, vec![0u8; 32], 1, vec![]).unwrap();
    db.insert_block(101, vec![1u8; 32], 2, vec![]).unwrap();
    // Backing off ten blocks from the target would land before block 100,
    // so the anchor is floored at the earliest stored height.
    assert_eq!(db.get_target_and_anchor_heights(), Some((102, 100)));
}

#[test]
fn block_hash_and_tree_round_trip() {
    let mut db = WalletDb::new();
    db.insert_block(5, vec![0xab; 32], 555, vec![1, 2, 3]).unwrap();

    assert_eq!(get_block_hash(&db, 5), Some(vec![0xab; 32]));
    assert_eq!(get_block_hash(&db, 6), None);
    assert_eq!(get_commitment_tree(&db, 5), Some(vec![1, 2, 3]));
    assert_eq!(get_commitment_tree(&db, 4), None);
    assert_eq!(db.get_max_height_hash(), Some((5, vec![0xab; 32])));
}

#[test]
fn duplicate_blocks_are_refused() {
    let mut db = WalletDb::new();
    db.insert_block(5, vec![0u8; 32], 1, vec![]).unwrap();
    assert_eq!(
        db.insert_block(5, vec![1u8; 32], 2, vec![]),
        Err(Error::DuplicateBlock)
    );
    assert_eq!(
        db.insert_block(u32::MAX, vec![1u8; 32], 2, vec![]),
        Err(Error::HeightOutOfRange)
    );
}

#[test]
fn tx_height_reports_mined_height_only() {
    let mut db = WalletDb::new();
    db.insert_block(10, vec![0u8; 32], 1, vec![]).unwrap();

    let txid_mined = vec![0x11; 32];
    let txid_unmined = vec![0x22; 32];
    db.put_tx_meta(&txid_mined, 0, 10).unwrap();
    db.put_tx_data(&txid_unmined, 40, &vec![0xde, 0xad], None);

    assert_eq!(get_tx_height(&db, &txid_mined), Some(10));
    assert_eq!(get_tx_height(&db, &txid_unmined), None);
    assert_eq!(get_tx_height(&db, &vec![0x33; 32]), None);

    // Recording metadata against an unknown block is refused.
    assert_eq!(db.put_tx_meta(&vec![0x44; 32], 0, 11), Err(Error::InvalidHeight));
}

#[test]
fn trait_interface_matches_free_functions() {
    fn scan_one<T: WalletWrite>(db: &mut T) {
        db.insert_block(10, vec![0u8; 32], 1, vec![]).unwrap();
        let tx = db.put_tx_meta(&vec![0x11; 32], 0, 10).unwrap();
        db.mark_spent(tx, &vec![0xaa; 32]).unwrap();
    }

    fn summarize<T: WalletRead>(db: &T) -> (Option<(u32, u32)>, i64) {
        (db.block_height_extrema(), db.get_balance(0).unwrap())
    }

    let mut db = WalletDb::new();
    scan_one(&mut db);
    assert_eq!(summarize(&db), (Some((10, 10)), 0));
    assert_eq!(WalletRead::get_block_hash(&db, 10), Some(vec![0u8; 32]));
}

#[test]
fn viewing_keys_are_listed_in_account_order() {
    let mut db = WalletDb::new();
    let a0 = db.add_account(b"key0".to_vec(), b"addr0".to_vec());
    let a1 = db.add_account(b"key1".to_vec(), b"addr1".to_vec());
    assert_eq!(a0, 0);
    assert_eq!(a1, 1);

    let keys = get_extended_full_viewing_keys(&db);
    assert_eq!(keys.len(), 2);
    assert_eq!(keys[0], (0, b"key0".to_vec()));
    assert_eq!(keys[1], (1, b"key1".to_vec()));

    assert_eq!(get_address(&db, 1).unwrap(), b"addr1".to_vec());
    assert_eq!(get_address(&db, 2), Err(Error::AccountUnknown));

    assert!(is_valid_account_extfvk(&db, 0, &b"key0".to_vec()));
    assert!(!is_valid_account_extfvk(&db, 0, &b"key1".to_vec()));
    assert!(!is_valid_account_extfvk(&db, 9, &b"key0".to_vec()));
}
