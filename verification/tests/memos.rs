//! Tests of memo decoding: the "no memo" pattern, invalid UTF-8 and the
//! exact round trip of valid text.

use zcash_wallet_store::memo::{get_received_memo_as_utf8, get_sent_memo_as_utf8, memo_to_utf8};
use zcash_wallet_store::store::WalletDb;
use zcash_wallet_store::types::{Error, ShieldedOutput};

/// A 512-byte memo holding the given text with zero padding after it.
fn padded_memo(text: &[u8]) -> Vec<u8> {
    let mut m = text.to_vec();
    m.resize(512, 0);
    m
}

/// The designated "no memo" pattern: the sentinel byte with zero padding.
fn empty_memo() -> Vec<u8> {
    let mut m = vec![0xf6];
    m.resize(512, 0);
    m
}

fn store_with_memo(memo: Option<Vec<u8>>) -> WalletDb {
    let mut db = WalletDb::new();
    db.add_account(b"key0".to_vec(), b"addr0".to_vec());
    db.insert_block(10, vec![0u8; 32], 1, vec![]).unwrap();
    let tx = db.put_tx_meta(&vec![0x11; 32], 0, 10).unwrap();
    let out = match memo {
        Some(m) => ShieldedOutput::Decrypted {
            index: 0,
            account: 0,
            to: b"addr0".to_vec(),
            value: 10,
            memo: m,
        },
        None => ShieldedOutput::Scanned {
            index: 0,
            account: 0,
            to: b"addr0".to_vec(),
            value: 10,
            is_change: false,
        },
    };
    db.put_received_note(&out, &None, tx).unwrap();
    db
}

#[test]
fn empty_memo_pattern_decodes_to_absence() {
    let db = store_with_memo(Some(empty_memo()));
    assert_eq!(get_received_memo_as_utf8(&db, 0).unwrap(), None);

    // A note with no stored memo at all is also absent.
    let db = store_with_memo(None);
    assert_eq!(get_received_memo_as_utf8(&db, 0).unwrap(), None);

    // An unknown note reference is refused.
    assert_eq!(get_received_memo_as_utf8(&db, 5), Err(Error::InvalidNoteRef));
}

#[test]
fn valid_utf8_memo_round_trips_exactly() {
    let text = "Thanks for the coffee! \u{2615}";
    let db = store_with_memo(Some(padded_memo(text.as_bytes())));
    assert_eq!(
        get_received_memo_as_utf8(&db, 0).unwrap(),
        Some(text.to_string())
    );
}

#[test]
fn invalid_utf8_memo_is_an_error() {
    // 0xC3 starts a two-byte sequence that never completes.
    let db = store_with_memo(Some(padded_memo(&[0x68, 0x69, 0xc3])));
    assert_eq!(get_received_memo_as_utf8(&db, 0), Err(Error::InvalidMemo));
}

#[test]
fn memo_decoding_handles_unpadded_bytes() {
    assert_eq!(memo_to_utf8(&b"hello".to_vec()).unwrap(), Some("hello".to_string()));
    assert_eq!(memo_to_utf8(&Vec::new()).unwrap(), None);
    assert_eq!(memo_to_utf8(&vec![0xf6]).unwrap(), None);
    assert_eq!(memo_to_utf8(&vec![0xff, 0xfe]), Err(Error::InvalidMemo));
}

#[test]
fn sent_memos_decode_like_received_memos() {
    let mut db = WalletDb::new();
    db.insert_block(10, vec![0u8; 32], 1, vec![]).unwrap();
    let tx = db.put_tx_meta(&vec![0x11; 32], 0, 10).unwrap();
    db.insert_sent_note(tx, 0, 0, &b"dest".to_vec(), 5, Some(padded_memo(b"gift")))
        .unwrap();
    db.insert_sent_note(tx, 1, 0, &b"dest".to_vec(), 5, Some(empty_memo()))
        .unwrap();

    assert_eq!(get_sent_memo_as_utf8(&db, 0).unwrap(), Some("gift".to_string()));
    assert_eq!(get_sent_memo_as_utf8(&db, 1).unwrap(), None);
    assert_eq!(get_sent_memo_as_utf8(&db, 7), Err(Error::InvalidNoteRef));
}
