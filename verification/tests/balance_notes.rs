//! Tests of note recording, balances, spend marking and note selection.

use zcash_wallet_store::select::select_spendable_notes;
use zcash_wallet_store::store::WalletDb;
use zcash_wallet_store::types::{Error, ShieldedOutput, MAX_MONEY};
use zcash_wallet_store::wallet::{get_balance, get_nullifiers, get_verified_balance};

fn scanned(index: usize, account: u32, value: i64) -> ShieldedOutput {
    ShieldedOutput::Scanned {
        index,
        account,
        to: b"addr".to_vec(),
        value,
        is_change: false,
    }
}

/// A store with one block at each height of `heights`, one mined
/// transaction in the first block, and a witnessed note of each value in
/// `values` for account 0.
fn store_with_notes(heights: &[u32], values: &[i64]) -> WalletDb {
    let mut db = WalletDb::new();
    db.add_account(b"key0".to_vec(), b"addr0".to_vec());
    for &h in heights {
        db.insert_block(h, vec![h as u8; 32], h, vec![]).unwrap();
    }
    let tx = db.put_tx_meta(&vec![0x11; 32], 0, heights[0]).unwrap();
    for (i, &v) in values.iter().enumerate() {
        let out = scanned(i, 0, v);
        let nf = Some(vec![i as u8; 32]);
        let note = db.put_received_note(&out, &nf, tx).unwrap();
        db.insert_witness(note, vec![0xcc; 8], heights[0]).unwrap();
    }
    db
}

#[test]
fn put_received_note_round_trips() {
    let mut db = WalletDb::new();
    db.add_account(b"key0".to_vec(), b"addr0".to_vec());
    db.insert_block(10, vec![0u8; 32], 1, vec![]).unwrap();
    let tx = db.put_tx_meta(&vec![0x11; 32], 0, 10).unwrap();

    let out = ShieldedOutput::Decrypted {
        index: 2,
        account: 0,
        to: b"zaddr-dest".to_vec(),
        value: 60_000,
        memo: b"thanks".to_vec(),
    };
    let note = db.put_received_note(&out, &None, tx).unwrap();

    // The stored note reports exactly what was put in.
    let row = &db.received_notes[note];
    assert_eq!(row.value, 60_000);
    assert_eq!(row.address, b"zaddr-dest".to_vec());
    assert_eq!(row.memo, Some(b"thanks".to_vec()));
    assert_eq!(row.output_index, 2);
    assert_eq!(row.tx, tx);
    assert!(row.spent.is_none());

    // Recording the same (transaction, output) again updates in place
    // rather than duplicating.
    let out2 = scanned(2, 0, 61_000);
    let note2 = db.put_received_note(&out2, &Some(vec![9u8; 32]), tx).unwrap();
    assert_eq!(note2, note);
    assert_eq!(db.received_notes.len(), 1);
    assert_eq!(db.received_notes[note].value, 61_000);
    // The memo only the decrypted origin knew survives the upsert.
    assert_eq!(db.received_notes[note].memo, Some(b"thanks".to_vec()));

    // An unknown transaction reference is refused.
    assert_eq!(db.put_received_note(&out2, &None, 99), Err(Error::InvalidTxRef));
}

#[test]
fn balances_respect_anchor_and_spent_state() {
    let mut db = WalletDb::new();
    db.add_account(b"key0".to_vec(), b"addr0".to_vec());
    db.insert_block(10, vec![0u8; 32], 1, vec![]).unwrap();
    db.insert_block(11, vec![1u8; 32], 2, vec![]).unwrap();
    let t10 = db.put_tx_meta(&vec![0x11; 32], 0, 10).unwrap();
    let t11 = db.put_tx_meta(&vec![0x22; 32], 0, 11).unwrap();

    db.put_received_note(&scanned(0, 0, 100), &Some(vec![0u8; 32]), t10).unwrap();
    db.put_received_note(&scanned(1, 0, 10), &Some(vec![1u8; 32]), t11).unwrap();
    // A note of another account does not count for account 0.
    db.put_received_note(&scanned(2, 1, 1_000), &Some(vec![2u8; 32]), t10).unwrap();

    assert_eq!(get_balance(&db, 0).unwrap(), 110);
    assert_eq!(get_balance(&db, 1).unwrap(), 1_000);
    // Verified at anchor 10: the note mined at 11 is too recent.
    assert_eq!(get_verified_balance(&db, 0, 10).unwrap(), 100);
    assert_eq!(get_verified_balance(&db, 0, 11).unwrap(), 110);
}

#[test]
fn oversized_sums_are_corrupted_data() {
    let mut db = store_with_notes(&[10], &[MAX_MONEY, MAX_MONEY]);
    assert_eq!(get_balance(&db, 0), Err(Error::CorruptedData));
    // A negative stored value drives the sum below zero: also corrupt.
    db.received_notes[0].value = -1;
    db.received_notes[1].value = -2;
    assert_eq!(get_balance(&db, 0), Err(Error::CorruptedData));
}

#[test]
fn mark_spent_is_idempotent() {
    let mut db = store_with_notes(&[10], &[100, 50]);
    let nf = vec![0u8; 32];
    let t_spend = db.put_tx_meta(&vec![0x77; 32], 1, 10).unwrap();
    let t_other = db.put_tx_meta(&vec![0x88; 32], 2, 10).unwrap();

    db.mark_spent(t_spend, &nf).unwrap();
    assert_eq!(db.received_notes[0].spent, Some(t_spend));
    assert_eq!(get_balance(&db, 0).unwrap(), 50);

    // Marking the same nullifier again — even with another transaction —
    // changes nothing: the note keeps its first spending transaction.
    db.mark_spent(t_other, &nf).unwrap();
    assert_eq!(db.received_notes[0].spent, Some(t_spend));
    assert_eq!(get_balance(&db, 0).unwrap(), 50);

    // An unknown nullifier is a harmless no-op.
    db.mark_spent(t_other, &vec![0xff; 32]).unwrap();
    assert_eq!(get_balance(&db, 0).unwrap(), 50);

    // A dangling transaction reference is refused.
    assert_eq!(db.mark_spent(99, &nf), Err(Error::InvalidTxRef));
}

#[test]
fn nullifiers_list_unspent_notes_only() {
    let mut db = store_with_notes(&[10], &[100, 50]);
    let t = db.put_tx_meta(&vec![0x77; 32], 1, 10).unwrap();

    let nfs = get_nullifiers(&db);
    assert_eq!(nfs.len(), 2);
    assert_eq!(nfs[0], (vec![0u8; 32], 0));
    assert_eq!(nfs[1], (vec![1u8; 32], 0));

    db.mark_spent(t, &vec![0u8; 32]).unwrap();
    let nfs = get_nullifiers(&db);
    assert_eq!(nfs, vec![(vec![1u8; 32], 0)]);
}

#[test]
fn expired_spends_are_reverted() {
    let mut db = store_with_notes(&[10], &[100]);
    // An unmined spending transaction that expires at height 20.
    let t_spend = db.put_tx_data(&vec![0x77; 32], 20, &vec![0xaa], Some(1_700_000_000));
    db.mark_spent(t_spend, &vec![0u8; 32]).unwrap();
    assert_eq!(get_balance(&db, 0).unwrap(), 0);

    // Not yet expired at height 20.
    db.update_expired_notes(20);
    assert_eq!(db.received_notes[0].spent, Some(t_spend));

    // Expired before height 21: the note becomes spendable again.
    db.update_expired_notes(21);
    assert_eq!(db.received_notes[0].spent, None);
    assert_eq!(get_balance(&db, 0).unwrap(), 100);
}

#[test]
fn selection_takes_notes_in_order_until_covered() {
    let db = store_with_notes(&[10], &[40, 30, 20]);
    let sel = select_spendable_notes(&db, 0, 60, 10).unwrap();
    // Notes are taken in note-reference order: 40 + 30 reach 60.
    assert_eq!(sel.len(), 2);
    assert_eq!(sel[0].id, 0);
    assert_eq!(sel[0].value, 40);
    assert_eq!(sel[1].id, 1);
    assert_eq!(sel[1].value, 30);
    assert_eq!(sel[0].witness_height, 10);
    assert_eq!(sel[0].witness, vec![0xcc; 8]);
}

#[test]
fn selection_requires_anchor_compatible_witness() {
    let mut db = store_with_notes(&[10], &[40]);
    // A second note mined in the same block but witnessed only at a later
    // height is not spendable against anchor 10.
    let t = 0usize;
    let note = db
        .put_received_note(&scanned(7, 0, 25), &Some(vec![7u8; 32]), t)
        .unwrap();
    db.insert_block(11, vec![1u8; 32], 2, vec![]).unwrap();
    db.insert_witness(note, vec![0xdd; 8], 11).unwrap();

    assert!(matches!(select_spendable_notes(&db, 0, 50, 10), Err(Error::InsufficientFunds)));
    // Against anchor 11 both notes qualify.
    let sel = select_spendable_notes(&db, 0, 50, 11).unwrap();
    assert_eq!(sel.len(), 2);
    assert_eq!(sel[1].witness_height, 11);

    // A witness for an unknown note is refused.
    assert_eq!(db.insert_witness(99, vec![], 11), Err(Error::InvalidNoteRef));
}

#[test]
fn insufficient_funds_is_reported_not_truncated() {
    let db = store_with_notes(&[10], &[40, 30, 20]);
    assert!(matches!(select_spendable_notes(&db, 0, 91, 10), Err(Error::InsufficientFunds)));
    // The whole set exactly covers the target.
    let sel = select_spendable_notes(&db, 0, 90, 10).unwrap();
    assert_eq!(sel.len(), 3);
    // A spent note no longer counts.
    let mut db = db;
    let t = db.put_tx_meta(&vec![0x99; 32], 3, 10).unwrap();
    db.mark_spent(t, &vec![0u8; 32]).unwrap();
    assert!(matches!(select_spendable_notes(&db, 0, 90, 10), Err(Error::InsufficientFunds)));
}

#[test]
fn sent_notes_record_authored_outputs() {
    let mut db = WalletDb::new();
    db.add_account(b"key0".to_vec(), b"addr0".to_vec());
    db.insert_block(10, vec![0u8; 32], 1, vec![]).unwrap();
    let tx = db.put_tx_meta(&vec![0x11; 32], 0, 10).unwrap();

    db.insert_sent_note(tx, 0, 0, &b"dest1".to_vec(), 500, None).unwrap();
    assert_eq!(db.sent_notes.len(), 1);
    assert_eq!(db.sent_notes[0].value, 500);
    assert_eq!(db.sent_notes[0].memo, None);

    // put_sent_note upserts by (transaction, output index).
    let out = ShieldedOutput::Decrypted {
        index: 0,
        account: 0,
        to: b"dest1".to_vec(),
        value: 600,
        memo: b"rent".to_vec(),
    };
    db.put_sent_note(&out, tx).unwrap();
    assert_eq!(db.sent_notes.len(), 1);
    assert_eq!(db.sent_notes[0].value, 600);
    assert_eq!(db.sent_notes[0].memo, Some(b"rent".to_vec()));

    assert_eq!(db.insert_sent_note(9, 0, 0, &b"d".to_vec(), 1, None), Err(Error::InvalidTxRef));
    assert_eq!(db.put_sent_note(&out, 9), Err(Error::InvalidTxRef));
}
