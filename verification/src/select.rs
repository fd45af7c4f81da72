//! Spendable-note selection.
//!
//! Given an account, a target value and an anchor height, the selection
//! walks the note table in note-reference order — a fixed, deterministic
//! order, so the same store always yields the same selection — and
//! accumulates spendable notes until their values reach the target.  A note
//! is spendable when it is unspent, its owning transaction is mined at or
//! before the anchor, and a witness snapshot at or before the anchor exists
//! for it, so an anchor-compatible membership proof can be built.

use vstd::prelude::*;

use crate::store::{NoteRow, TxRow, WalletDb, WitnessRow};
use crate::types::{copy_bytes, Error};
use crate::wallet::note_counts;

verus! {

/// A note selected for spending, together with the witness snapshot its
/// spend proof should be built from.
pub struct SpendableNote {
    /// Reference of the selected note.
    pub id: usize,
    /// Value of the note, in zatoshis.
    pub value: i64,
    /// Destination payment address of the note, in its encoded form.
    pub address: Vec<u8>,
    /// Height of the chosen witness snapshot.
    pub witness_height: u32,
    /// The serialized witness.
    pub witness: Vec<u8>,
}

/// The row index of the best usable witness for `note` among the first `n`
/// witness rows: the snapshot with the greatest height at or before the
/// anchor, later rows winning ties.
pub open spec fn best_witness_idx_upto(
    ws: Seq<WitnessRow>,
    note: int,
    anchor: u32,
    n: int,
) -> Option<int>
    decreases n,
{
    if n <= 0 {
        None
    } else {
        let prev = best_witness_idx_upto(ws, note, anchor, n - 1);
        if ws[n - 1].note == note && ws[n - 1].block <= anchor {
            match prev {
                None => Some(n - 1),
                Some(p) => if ws[n - 1].block >= ws[p].block {
                    Some(n - 1)
                } else {
                    Some(p)
                },
            }
        } else {
            prev
        }
    }
}

/// The row index of the best usable witness for `note`, if any snapshot at
/// or before the anchor exists.
pub open spec fn best_witness_idx(ws: Seq<WitnessRow>, note: int, anchor: u32) -> Option<int> {
    best_witness_idx_upto(ws, note, anchor, ws.len() as int)
}

/// True when the note at index `i` is spendable against the anchor: it
/// counts toward the verified balance at the anchor height and a witness
/// snapshot at or before the anchor exists for it.
pub open spec fn spendable(
    notes: Seq<NoteRow>,
    txs: Seq<TxRow>,
    ws: Seq<WitnessRow>,
    i: int,
    account: u32,
    anchor: u32,
) -> bool {
    &&& note_counts(notes, txs, i, account, Some(anchor))
    &&& best_witness_idx(ws, i, anchor) is Some
}

/// The greedy selection over the first `n` notes: the references of the
/// notes taken, and the sum of their values.  Spendable notes are taken in
/// note-reference order until the running sum reaches the target, after
/// which no more are taken.
pub open spec fn selection_upto(
    notes: Seq<NoteRow>,
    txs: Seq<TxRow>,
    ws: Seq<WitnessRow>,
    account: u32,
    anchor: u32,
    target: int,
    n: int,
) -> (Seq<int>, int)
    decreases n,
{
    if n <= 0 {
        (Seq::empty(), 0)
    } else {
        let prev = selection_upto(notes, txs, ws, account, anchor, target, n - 1);
        if prev.1 >= target {
            prev
        } else if spendable(notes, txs, ws, n - 1, account, anchor) {
            (prev.0.push(n - 1), prev.1 + notes[n - 1].value)
        } else {
            prev
        }
    }
}

/// Sum of the values of the spendable notes among the first `n` notes.
pub open spec fn spendable_sum_upto(
    notes: Seq<NoteRow>,
    txs: Seq<TxRow>,
    ws: Seq<WitnessRow>,
    account: u32,
    anchor: u32,
    n: int,
) -> int
    decreases n,
{
    if n <= 0 {
        0
    } else {
        spendable_sum_upto(notes, txs, ws, account, anchor, n - 1) + if spendable(
            notes,
            txs,
            ws,
            n - 1,
            account,
            anchor,
        ) {
            notes[n - 1].value as int
        } else {
            0
        }
    }
}

/// True when the selected note faithfully reproduces the stored note at
/// index `i` and carries its best usable witness for the anchor.
pub open spec fn spendable_note_ok(
    sn: SpendableNote,
    i: int,
    notes: Seq<NoteRow>,
    ws: Seq<WitnessRow>,
    anchor: u32,
) -> bool {
    &&& sn.id == i
    &&& 0 <= i < notes.len()
    &&& sn.value == notes[i].value
    &&& sn.address@ == notes[i].address@
    &&& match best_witness_idx(ws, i, anchor) {
        Some(w) => sn.witness_height == ws[w].block && sn.witness@ == ws[w].witness@,
        None => false,
    }
}

/// Looks up the row index of the best usable witness for `note` against the
/// anchor, if any snapshot at or before the anchor exists.
pub fn best_witness(ws: &Vec<WitnessRow>, note: usize, anchor: u32) -> (r: Option<usize>)
    ensures
        match (r, best_witness_idx(ws@, note as int, anchor)) {
            (Some(a), Some(b)) => a == b && a < ws@.len(),
            (None, None) => true,
            _ => false,
        },
{
    let mut best: Option<usize> = None;
    let mut i: usize = 0;
    while i < ws.len()
        invariant
            i <= ws@.len(),
            match (best, best_witness_idx_upto(ws@, note as int, anchor, i as int)) {
                (Some(a), Some(b)) => a == b && a < i,
                (None, None) => true,
                _ => false,
            },
        decreases ws@.len() - i,
    {
        let row = &ws[i];
        if row.note == note && row.block <= anchor {
            best = match best {
                None => Some(i),
                Some(p) => if row.block >= ws[p].block {
                    Some(i)
                } else {
                    Some(p)
                },
            };
        }
        i += 1;
    }
    best
}

/// Returns a subset of the account's spendable notes covering the target
/// value, accumulated in note-reference order, or an insufficient-funds
/// error when all spendable notes together do not reach the target.
pub fn select_spendable_notes(
    db: &WalletDb,
    account: u32,
    target_value: i64,
    anchor_height: u32,
) -> (r: Result<Vec<SpendableNote>, Error>)
    ensures
        ({
            let sel = selection_upto(
                db.received_notes@,
                db.txs@,
                db.witnesses@,
                account,
                anchor_height,
                target_value as int,
                db.received_notes@.len() as int,
            );
            match r {
                Ok(v) => {
                    &&& sel.1 >= target_value
                    &&& v@.len() == sel.0.len()
                    &&& forall|j: int|
                        0 <= j < sel.0.len() ==> spendable_note_ok(
                            #[trigger] v@[j],
                            sel.0[j],
                            db.received_notes@,
                            db.witnesses@,
                            anchor_height,
                        )
                },
                Err(e) => e == Error::InsufficientFunds && sel.1 < target_value,
            }
        }),
{
    let n = db.received_notes.len();
    let mut sel: Vec<SpendableNote> = Vec::new();
    let mut t: i128 = 0;
    let mut i: usize = 0;
    while i < n
        invariant
            i <= n,
            n == db.received_notes@.len(),
            ({
                let s = selection_upto(
                    db.received_notes@,
                    db.txs@,
                    db.witnesses@,
                    account,
                    anchor_height,
                    target_value as int,
                    i as int,
                );
                &&& t as int == s.1
                &&& sel@.len() == s.0.len()
                &&& forall|j: int|
                    0 <= j < s.0.len() ==> spendable_note_ok(
                        #[trigger] sel@[j],
                        s.0[j],
                        db.received_notes@,
                        db.witnesses@,
                        anchor_height,
                    )
            }),
            -(i as int) * 0x8000_0000_0000_0000 <= t as int <= (i as int)
                * 0x8000_0000_0000_0000,
        decreases n - i,
    {
        if t < target_value as i128 {
            let note = &db.received_notes[i];
            if note.account == account && note.spent.is_none() && note.tx < db.txs.len() {
                let mined_ok = match db.txs[note.tx].block {
                    Some(h) => h <= anchor_height,
                    None => false,
                };
                if mined_ok {
                    match best_witness(&db.witnesses, i, anchor_height) {
                        Some(w) => {
                            let address = copy_bytes(&note.address);
                            let witness = copy_bytes(&db.witnesses[w].witness);
                            sel.push(
                                SpendableNote {
                                    id: i,
                                    value: note.value,
                                    address,
                                    witness_height: db.witnesses[w].block,
                                    witness,
                                },
                            );
                            t = t + note.value as i128;
                        },
                        None => {},
                    }
                }
            }
        }
        i += 1;
    }
    if t >= target_value as i128 {
        Ok(sel)
    } else {
        Err(Error::InsufficientFunds)
    }
}

} // verus!
