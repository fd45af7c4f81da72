//! Query surface over the store: accounts, blocks, transactions, balances.
//!
//! Every function here is pure with respect to the caller's state: it reads
//! the store and never mutates it.  Absence ("not yet known") is reported as
//! `None`; errors are reserved for invalid inputs and corrupted stored data.

use vstd::prelude::*;
use vstd::pervasive::VecAdditionalExecFns;

use crate::store::{has_block_at, spec_extrema, BlockRow, TxRow, WalletDb, WitnessRow};
use crate::types::{bytes_eq, copy_bytes, Error};

verus! {

/// The witness rows at heights at or below `h` among the first `n` rows,
/// in table order.
pub open spec fn kept_witnesses_upto(ws: Seq<WitnessRow>, h: u32, n: int) -> Seq<WitnessRow>
    decreases n,
{
    if n <= 0 {
        Seq::empty()
    } else {
        let prev = kept_witnesses_upto(ws, h, n - 1);
        if ws[n - 1].block <= h {
            prev.push(ws[n - 1])
        } else {
            prev
        }
    }
}

/// The block rows at heights at or below `h` among the first `n` rows, in
/// table order.
pub open spec fn kept_blocks_upto(bs: Seq<BlockRow>, h: u32, n: int) -> Seq<BlockRow>
    decreases n,
{
    if n <= 0 {
        Seq::empty()
    } else {
        let prev = kept_blocks_upto(bs, h, n - 1);
        if bs[n - 1].height <= h {
            prev.push(bs[n - 1])
        } else {
            prev
        }
    }
}

/// The transaction with its mined position cleared when it lies above `h`;
/// its id, contents and timestamps are untouched.
pub open spec fn unmined_after(t: TxRow, h: u32) -> TxRow {
    match t.block {
        Some(b) => if b > h {
            TxRow { block: None, tx_index: None, ..t }
        } else {
            t
        },
        None => t,
    }
}

/// The height up to which the chain has been scanned: the greatest stored
/// block height, or one below the Sapling activation height when no block
/// is stored.
pub open spec fn spec_last_scanned(blocks: Seq<BlockRow>, activation: u32) -> int {
    match spec_extrema(blocks) {
        Some(ex) => ex.1 as int,
        None => activation as int - 1,
    }
}

/// A block at or below the cut that exists among the first `n` rows
/// survives the cut.
pub proof fn lemma_kept_blocks_has_le(bs: Seq<BlockRow>, h: u32, b: u32, n: int)
    requires
        b <= h,
        exists|i: int| 0 <= i < n && bs[i].height == b,
    ensures
        has_block_at(kept_blocks_upto(bs, h, n), b),
    decreases n,
{
    let wi = choose|i: int| 0 <= i < n && bs[i].height == b;
    if wi == n - 1 {
        let kept = kept_blocks_upto(bs, h, n);
        assert(kept.last() == bs[n - 1]);
        assert(kept[kept.len() - 1].height == b);
    } else {
        lemma_kept_blocks_has_le(bs, h, b, n - 1);
        let prev = kept_blocks_upto(bs, h, n - 1);
        let wj = choose|j: int| 0 <= j < prev.len() && prev[j].height == b;
        let kept = kept_blocks_upto(bs, h, n);
        assert(kept[wj].height == b);
    }
}

/// The rows surviving the cut are rows of the table before the cut, and
/// the table's distinct heights stay distinct.
pub proof fn lemma_kept_blocks_wf(bs: Seq<BlockRow>, h: u32, n: int)
    requires
        forall|i: int, j: int| 0 <= i < j < bs.len() ==> bs[i].height != bs[j].height,
        0 <= n <= bs.len(),
    ensures
        forall|a: int|
            0 <= a < kept_blocks_upto(bs, h, n).len() ==> exists|i: int|
                0 <= i < n && bs[i] == #[trigger] kept_blocks_upto(bs, h, n)[a],
        forall|a: int, b: int|
            0 <= a < b < kept_blocks_upto(bs, h, n).len() ==> kept_blocks_upto(bs, h, n)[a].height
                != kept_blocks_upto(bs, h, n)[b].height,
    decreases n,
{
    if n > 0 {
        lemma_kept_blocks_wf(bs, h, n - 1);
        let prev = kept_blocks_upto(bs, h, n - 1);
        let kept = kept_blocks_upto(bs, h, n);
        if bs[n - 1].height <= h {
            assert(kept == prev.push(bs[n - 1]));
            assert forall|a: int|
                0 <= a < kept.len() implies exists|i: int|
                0 <= i < n && bs[i] == #[trigger] kept[a] by {
                if a < prev.len() {
                    assert(kept[a] == prev[a]);
                    let wi = choose|i: int| 0 <= i < n - 1 && bs[i] == prev[a];
                    assert(bs[wi] == kept[a]);
                } else {
                    assert(kept[a] == bs[n - 1]);
                }
            }
            assert forall|a: int, b: int|
                0 <= a < b < kept.len() implies kept[a].height != kept[b].height by {
                if b < prev.len() {
                    assert(prev[a].height != prev[b].height);
                } else {
                    assert(kept[b] == bs[n - 1]);
                    let wi = choose|i: int| 0 <= i < n - 1 && bs[i] == prev[a];
                    assert(bs[wi].height != bs[n - 1].height);
                }
            }
        } else {
            assert(kept == prev);
            assert forall|a: int|
                0 <= a < kept.len() implies exists|i: int|
                0 <= i < n && bs[i] == #[trigger] kept[a] by {
                let wi = choose|i: int| 0 <= i < n - 1 && bs[i] == prev[a];
                assert(bs[wi] == kept[a]);
            }
        }
    }
}

/// Rewinds the store to the given height, undoing what scanning above that
/// height recorded: witness snapshots above the height are deleted,
/// transactions mined above it revert to unmined — their contents and any
/// sent- or received-note records survive — and blocks above it are
/// deleted.  Rewinding to a height not below the last scanned height
/// changes nothing.  Fails when the network has no Sapling activation
/// height.
pub fn rewind_to_height(db: &mut WalletDb, sapling_activation: Option<u32>, block_height: u32) -> (r:
    Result<(), Error>)
    requires
        old(db).well_formed(),
    ensures
        final(db).well_formed(),
        match r {
            Ok(()) => {
                &&& sapling_activation is Some
                &&& if block_height as int >= spec_last_scanned(
                    old(db).blocks@,
                    sapling_activation->Some_0,
                ) {
                    *final(db) == *old(db)
                } else {
                    &&& final(db).witnesses@ == kept_witnesses_upto(
                        old(db).witnesses@,
                        block_height,
                        old(db).witnesses@.len() as int,
                    )
                    &&& final(db).txs@.len() == old(db).txs@.len()
                    &&& forall|j: int|
                        0 <= j < old(db).txs@.len() ==> final(db).txs@[j] == unmined_after(
                            #[trigger] old(db).txs@[j],
                            block_height,
                        )
                    &&& final(db).blocks@ == kept_blocks_upto(
                        old(db).blocks@,
                        block_height,
                        old(db).blocks@.len() as int,
                    )
                    &&& final(db).accounts == old(db).accounts
                    &&& final(db).received_notes == old(db).received_notes
                    &&& final(db).sent_notes == old(db).sent_notes
                }
            },
            Err(e) => {
                &&& e == Error::SaplingNotActive
                &&& sapling_activation is None
                &&& *final(db) == *old(db)
            },
        },
{
    let act = match sapling_activation {
        Some(a) => a,
        None => {
            return Err(Error::SaplingNotActive);
        },
    };
    let no_op = match block_height_extrema(db) {
        Some((_mn, mx)) => block_height >= mx,
        None => act == 0 || block_height >= act - 1,
    };
    if no_op {
        return Ok(());
    }

    // Delete witness snapshots above the rewind height.
    let ghost orig_ws = db.witnesses@;
    let nw = db.witnesses.len();
    let mut w: usize = 0;
    let mut i: usize = 0;
    proof {
        assert(db.witnesses@.subrange(0, 0) =~= kept_witnesses_upto(orig_ws, block_height, 0));
    }
    while i < nw
        invariant
            w <= i <= nw,
            nw == db.witnesses@.len(),
            orig_ws.len() == nw,
            orig_ws == old(db).witnesses@,
            db.witnesses@.subrange(0, w as int) == kept_witnesses_upto(
                orig_ws,
                block_height,
                i as int,
            ),
            forall|j: int| i <= j < nw ==> db.witnesses@[j] == orig_ws[j],
            forall|a: int|
                0 <= a < w ==> (#[trigger] db.witnesses@[a].note) < db.received_notes@.len(),
            db.accounts == old(db).accounts,
            db.blocks == old(db).blocks,
            db.txs == old(db).txs,
            db.received_notes == old(db).received_notes,
            db.sent_notes == old(db).sent_notes,
            old(db).well_formed(),
        decreases nw - i,
    {
        if db.witnesses[i].block <= block_height {
            proof {
                assert(db.witnesses@[i as int] == orig_ws[i as int]);
                assert(orig_ws[i as int].note < db.received_notes@.len());
            }
            if w != i {
                let mut tmp = WitnessRow { note: 0, block: 0, witness: Vec::new() };
                db.witnesses.set_and_swap(i, &mut tmp);
                db.witnesses.set(w, tmp);
            }
            w += 1;
            proof {
                assert(db.witnesses@.subrange(0, w as int) =~= kept_witnesses_upto(
                    orig_ws,
                    block_height,
                    i as int + 1,
                ));
            }
        } else {
            proof {
                assert(db.witnesses@.subrange(0, w as int) =~= kept_witnesses_upto(
                    orig_ws,
                    block_height,
                    i as int + 1,
                ));
            }
        }
        i += 1;
    }
    let ghost before_ws = db.witnesses@;
    db.witnesses.truncate(w);
    proof {
        assert(db.witnesses@ == before_ws.subrange(0, w as int));
        assert forall|a: int|
            0 <= a < db.witnesses@.len() implies (#[trigger] db.witnesses@[a].note)
            < db.received_notes@.len() by {
            assert(db.witnesses@[a] == before_ws[a]);
        }
    }

    // Revert transactions mined above the rewind height to unmined.
    let ghost orig_txs = db.txs@;
    let ntx = db.txs.len();
    let mut j: usize = 0;
    while j < ntx
        invariant
            j <= ntx,
            ntx == db.txs@.len(),
            orig_txs.len() == ntx,
            orig_txs == old(db).txs@,
            forall|k: int|
                0 <= k < j ==> db.txs@[k] == unmined_after(orig_txs[k], block_height),
            forall|k: int| j <= k < ntx ==> db.txs@[k] == orig_txs[k],
            db.accounts == old(db).accounts,
            db.blocks == old(db).blocks,
            db.received_notes == old(db).received_notes,
            db.sent_notes == old(db).sent_notes,
            db.witnesses@ == kept_witnesses_upto(
                old(db).witnesses@,
                block_height,
                old(db).witnesses@.len() as int,
            ),
            forall|a: int|
                0 <= a < db.witnesses@.len() ==> (#[trigger] db.witnesses@[a].note)
                    < db.received_notes@.len(),
        decreases ntx - j,
    {
        let needs = match db.txs[j].block {
            Some(b) => b > block_height,
            None => false,
        };
        if needs {
            db.txs[j].block = None;
            db.txs[j].tx_index = None;
        }
        j += 1;
    }

    // Delete blocks above the rewind height, now that nothing depends on
    // them.
    let ghost orig_bs = db.blocks@;
    let nb = db.blocks.len();
    let mut wb: usize = 0;
    let mut ib: usize = 0;
    proof {
        assert(db.blocks@.subrange(0, 0) =~= kept_blocks_upto(orig_bs, block_height, 0));
    }
    while ib < nb
        invariant
            wb <= ib <= nb,
            nb == db.blocks@.len(),
            orig_bs.len() == nb,
            orig_bs == old(db).blocks@,
            db.blocks@.subrange(0, wb as int) == kept_blocks_upto(
                orig_bs,
                block_height,
                ib as int,
            ),
            forall|k: int| ib <= k < nb ==> db.blocks@[k] == orig_bs[k],
            db.accounts == old(db).accounts,
            db.received_notes == old(db).received_notes,
            db.sent_notes == old(db).sent_notes,
            db.txs@.len() == orig_txs.len(),
            orig_txs == old(db).txs@,
            forall|k: int|
                0 <= k < db.txs@.len() ==> db.txs@[k] == unmined_after(
                    orig_txs[k],
                    block_height,
                ),
            forall|a: int|
                0 <= a < db.witnesses@.len() ==> (#[trigger] db.witnesses@[a].note)
                    < db.received_notes@.len(),
            db.witnesses@ == kept_witnesses_upto(
                old(db).witnesses@,
                block_height,
                old(db).witnesses@.len() as int,
            ),
        decreases nb - ib,
    {
        if db.blocks[ib].height <= block_height {
            if wb != ib {
                let mut tmp = BlockRow {
                    height: 0,
                    hash: Vec::new(),
                    time: 0,
                    sapling_tree: Vec::new(),
                };
                db.blocks.set_and_swap(ib, &mut tmp);
                db.blocks.set(wb, tmp);
            }
            wb += 1;
            proof {
                assert(db.blocks@.subrange(0, wb as int) =~= kept_blocks_upto(
                    orig_bs,
                    block_height,
                    ib as int + 1,
                ));
            }
        } else {
            proof {
                assert(db.blocks@.subrange(0, wb as int) =~= kept_blocks_upto(
                    orig_bs,
                    block_height,
                    ib as int + 1,
                ));
            }
        }
        ib += 1;
    }
    let ghost before_bs = db.blocks@;
    db.blocks.truncate(wb);
    proof {
        assert(db.blocks@ == kept_blocks_upto(orig_bs, block_height, nb as int));
        lemma_kept_blocks_wf(orig_bs, block_height, nb as int);
        assert forall|a: int|
            0 <= a < db.blocks@.len() implies (#[trigger] db.blocks@[a].height) < u32::MAX by {
            let wi = choose|k: int| 0 <= k < nb && orig_bs[k] == db.blocks@[a];
            assert(orig_bs[wi].height < u32::MAX);
        }
        assert forall|k: int|
            0 <= k < db.txs@.len() implies crate::store::tx_block_ok(
            #[trigger] db.txs@[k],
            db.blocks@,
        ) by {
            match db.txs@[k].block {
                Some(b) => {
                    assert(db.txs@[k] == unmined_after(orig_txs[k], block_height));
                    assert(b <= block_height);
                    assert(orig_txs[k].block == Some(b));
                    assert(crate::store::tx_block_ok(orig_txs[k], orig_bs));
                    lemma_kept_blocks_has_le(orig_bs, block_height, b, nb as int);
                },
                None => {},
            }
        }
        assert forall|a: int, b: int|
            0 <= a < b < db.txs@.len() implies (#[trigger] db.txs@[a].txid@) != (
        #[trigger] db.txs@[b].txid@) by {
            assert(db.txs@[a].txid == orig_txs[a].txid);
            assert(db.txs@[b].txid == orig_txs[b].txid);
            assert(orig_txs[a].txid@ != orig_txs[b].txid@);
        }
    }
    Ok(())
}

/// Returns the minimum and maximum stored block heights, or absence when no
/// block has been scanned.
pub fn block_height_extrema(db: &WalletDb) -> (r: Option<(u32, u32)>)
    ensures
        r == spec_extrema(db.blocks@),
{
    let mut acc: Option<(u32, u32)> = None;
    let mut i: usize = 0;
    while i < db.blocks.len()
        invariant
            i <= db.blocks@.len(),
            acc == spec_extrema(db.blocks@.take(i as int)),
        decreases db.blocks@.len() - i,
    {
        let h = db.blocks[i].height;
        proof {
            assert(db.blocks@.take(i as int + 1).drop_last() =~= db.blocks@.take(i as int));
            assert(db.blocks@.take(i as int + 1).last() == db.blocks@[i as int]);
        }
        acc = match acc {
            None => Some((h, h)),
            Some((mn, mx)) => Some(
                ((if h < mn { h } else { mn }), (if h > mx { h } else { mx })),
            ),
        };
        i += 1;
    }
    proof {
        assert(db.blocks@.take(db.blocks@.len() as int) =~= db.blocks@);
    }
    acc
}

/// Returns the hash of the stored block at the given height, or absence
/// when that height was never scanned.
pub fn get_block_hash(db: &WalletDb, block_height: u32) -> (r: Option<Vec<u8>>)
    ensures
        match r {
            Some(v) => exists|i: int|
                0 <= i < db.blocks@.len() && (#[trigger] db.blocks@[i]).height == block_height
                    && v@ == db.blocks@[i].hash@,
            None => !has_block_at(db.blocks@, block_height),
        },
{
    match crate::store::find_block(&db.blocks, block_height) {
        Some(i) => {
            let v = copy_bytes(&db.blocks[i].hash);
            proof {
                assert(db.blocks@[i as int].height == block_height);
            }
            Some(v)
        },
        None => None,
    }
}

/// Returns the serialized note-commitment tree snapshotted at the end of
/// the block at the given height, or absence when that height was never
/// scanned.
pub fn get_commitment_tree(db: &WalletDb, block_height: u32) -> (r: Option<Vec<u8>>)
    ensures
        match r {
            Some(v) => exists|i: int|
                0 <= i < db.blocks@.len() && (#[trigger] db.blocks@[i]).height == block_height
                    && v@ == db.blocks@[i].sapling_tree@,
            None => !has_block_at(db.blocks@, block_height),
        },
{
    match crate::store::find_block(&db.blocks, block_height) {
        Some(i) => {
            let v = copy_bytes(&db.blocks[i].sapling_tree);
            proof {
                assert(db.blocks@[i as int].height == block_height);
            }
            Some(v)
        },
        None => None,
    }
}

/// Returns the height the transaction with the given id is mined at, or
/// absence when the id is unknown or the transaction is not yet mined.
pub fn get_tx_height(db: &WalletDb, txid: &Vec<u8>) -> (r: Option<u32>)
    requires
        db.well_formed(),
    ensures
        match r {
            Some(h) => exists|i: int|
                0 <= i < db.txs@.len() && (#[trigger] db.txs@[i]).txid@ == txid@
                    && db.txs@[i].block == Some(h),
            None => forall|i: int|
                0 <= i < db.txs@.len() && (#[trigger] db.txs@[i]).txid@ == txid@
                    ==> db.txs@[i].block is None,
        },
{
    let mut i: usize = 0;
    while i < db.txs.len()
        invariant
            db.well_formed(),
            i <= db.txs@.len(),
            forall|j: int| 0 <= j < i ==> (#[trigger] db.txs@[j].txid@) != txid@,
        decreases db.txs@.len() - i,
    {
        if bytes_eq(&db.txs[i].txid, txid) {
            return db.txs[i].block;
        }
        i += 1;
    }
    None
}

/// Returns the index of the stored transaction with the given id, if any.
pub fn find_tx(txs: &Vec<crate::store::TxRow>, txid: &Vec<u8>) -> (r: Option<usize>)
    ensures
        match r {
            Some(i) => i < txs@.len() && txs@[i as int].txid@ == txid@ && forall|j: int|
                0 <= j < i ==> (#[trigger] txs@[j].txid@) != txid@,
            None => forall|j: int| 0 <= j < txs@.len() ==> (#[trigger] txs@[j].txid@) != txid@,
        },
{
    let mut i: usize = 0;
    while i < txs.len()
        invariant
            i <= txs@.len(),
            forall|j: int| 0 <= j < i ==> (#[trigger] txs@[j].txid@) != txid@,
        decreases txs@.len() - i,
    {
        if bytes_eq(&txs[i].txid, txid) {
            return Some(i);
        }
        i += 1;
    }
    None
}

/// Returns the encoded payment address of the account, or an error when the
/// account id does not denote a known account.
pub fn get_address(db: &WalletDb, account: u32) -> (r: Result<Vec<u8>, Error>)
    ensures
        match r {
            Ok(a) => account < db.accounts@.len() && a@ == db.accounts@[account as int].address@,
            Err(e) => e == Error::AccountUnknown && account >= db.accounts@.len(),
        },
{
    let idx = account as usize;
    if idx < db.accounts.len() {
        Ok(copy_bytes(&db.accounts[idx].address))
    } else {
        Err(Error::AccountUnknown)
    }
}

/// Returns every account's encoded extended full viewing key, paired with
/// its account id, ordered by account id ascending.
pub fn get_extended_full_viewing_keys(db: &WalletDb) -> (r: Vec<(u32, Vec<u8>)>)
    requires
        db.accounts@.len() <= u32::MAX,
    ensures
        r@.len() == db.accounts@.len(),
        forall|i: int|
            0 <= i < r@.len() ==> (#[trigger] r@[i]).0 == i && r@[i].1@
                == db.accounts@[i].extfvk@,
{
    let mut r: Vec<(u32, Vec<u8>)> = Vec::new();
    let mut i: usize = 0;
    while i < db.accounts.len()
        invariant
            i <= db.accounts@.len(),
            db.accounts@.len() <= u32::MAX,
            r@.len() == i,
            forall|j: int|
                0 <= j < i ==> (#[trigger] r@[j]).0 == j && r@[j].1@ == db.accounts@[j].extfvk@,
        decreases db.accounts@.len() - i,
    {
        let key = copy_bytes(&db.accounts[i].extfvk);
        r.push((i as u32, key));
        i += 1;
    }
    r
}

/// View of a sequence of note-reference/byte-string pairs.
pub open spec fn pairs_view(s: Seq<(usize, Vec<u8>)>) -> Seq<(usize, Seq<u8>)> {
    s.map_values(|p: (usize, Vec<u8>)| (p.0, p.1@))
}

/// The witness snapshots taken at height `h` among the first `n` witness
/// rows, each as the witnessed note's reference paired with the serialized
/// witness, in table order.
pub open spec fn witness_pairs_upto(ws: Seq<crate::store::WitnessRow>, h: u32, n: int) -> Seq<
    (usize, Seq<u8>),
>
    decreases n,
{
    if n <= 0 {
        Seq::empty()
    } else {
        let prev = witness_pairs_upto(ws, h, n - 1);
        if ws[n - 1].block == h {
            prev.push((ws[n - 1].note, ws[n - 1].witness@))
        } else {
            prev
        }
    }
}

/// All witness snapshots taken at height `h`, in table order.
pub open spec fn spec_witnesses_at(ws: Seq<crate::store::WitnessRow>, h: u32) -> Seq<
    (usize, Seq<u8>),
> {
    witness_pairs_upto(ws, h, ws.len() as int)
}

/// Returns the incremental witnesses snapshotted at the given block height,
/// each paired with the reference of the note it witnesses.
pub fn get_witnesses(db: &WalletDb, block_height: u32) -> (r: Vec<(usize, Vec<u8>)>)
    ensures
        pairs_view(r@) == spec_witnesses_at(db.witnesses@, block_height),
{
    let mut r: Vec<(usize, Vec<u8>)> = Vec::new();
    let mut i: usize = 0;
    while i < db.witnesses.len()
        invariant
            i <= db.witnesses@.len(),
            pairs_view(r@) == witness_pairs_upto(db.witnesses@, block_height, i as int),
        decreases db.witnesses@.len() - i,
    {
        let row = &db.witnesses[i];
        if row.block == block_height {
            let ghost prev = r@;
            let w = copy_bytes(&row.witness);
            let note = row.note;
            r.push((note, w));
            proof {
                assert(pairs_view(r@) =~= pairs_view(prev).push(
                    (db.witnesses@[i as int].note, db.witnesses@[i as int].witness@),
                ));
            }
        }
        i += 1;
    }
    r
}

/// View of a sequence of nullifier/account pairs.
pub open spec fn nf_pairs_view(s: Seq<(Vec<u8>, u32)>) -> Seq<(Seq<u8>, u32)> {
    s.map_values(|p: (Vec<u8>, u32)| (p.0@, p.1))
}

/// The nullifiers of the currently-unspent notes among the first `n` note
/// rows, each paired with the owning account, in table order.  Notes whose
/// spending key is unknown have no nullifier and are not listed.
pub open spec fn nullifier_pairs_upto(notes: Seq<crate::store::NoteRow>, n: int) -> Seq<
    (Seq<u8>, u32),
>
    decreases n,
{
    if n <= 0 {
        Seq::empty()
    } else {
        let prev = nullifier_pairs_upto(notes, n - 1);
        match notes[n - 1].nf {
            Some(v) => if notes[n - 1].spent is None {
                prev.push((v@, notes[n - 1].account))
            } else {
                prev
            },
            None => prev,
        }
    }
}

/// All nullifiers of currently-unspent notes, in table order.
pub open spec fn spec_nullifiers(notes: Seq<crate::store::NoteRow>) -> Seq<(Seq<u8>, u32)> {
    nullifier_pairs_upto(notes, notes.len() as int)
}

/// Returns the nullifiers of all currently-unspent notes, each paired with
/// the account that controls the note.
pub fn get_nullifiers(db: &WalletDb) -> (r: Vec<(Vec<u8>, u32)>)
    ensures
        nf_pairs_view(r@) == spec_nullifiers(db.received_notes@),
{
    let mut r: Vec<(Vec<u8>, u32)> = Vec::new();
    let mut i: usize = 0;
    while i < db.received_notes.len()
        invariant
            i <= db.received_notes@.len(),
            nf_pairs_view(r@) == nullifier_pairs_upto(db.received_notes@, i as int),
        decreases db.received_notes@.len() - i,
    {
        let note = &db.received_notes[i];
        if note.spent.is_none() {
            match &note.nf {
                Some(v) => {
                    let ghost prev = r@;
                    let nf = copy_bytes(v);
                    r.push((nf, note.account));
                    proof {
                        assert(nf_pairs_view(r@) =~= nf_pairs_view(prev).push(
                            (
                                db.received_notes@[i as int].nf->Some_0@,
                                db.received_notes@[i as int].account,
                            ),
                        ));
                    }
                },
                None => {},
            }
        }
        i += 1;
    }
    r
}

/// True when the note at index `i` counts toward the account's balance:
/// it belongs to the account, is unspent, and its owning transaction is
/// mined — at or before the anchor height, when one is given.
pub open spec fn note_counts(
    notes: Seq<crate::store::NoteRow>,
    txs: Seq<crate::store::TxRow>,
    i: int,
    account: u32,
    anchor: Option<u32>,
) -> bool {
    &&& notes[i].account == account
    &&& notes[i].spent is None
    &&& notes[i].tx < txs.len()
    &&& match txs[notes[i].tx as int].block {
        Some(h) => match anchor {
            Some(a) => h <= a,
            None => true,
        },
        None => false,
    }
}

/// Sum of the values of the counted notes among the first `n` notes.
pub open spec fn balance_upto(
    notes: Seq<crate::store::NoteRow>,
    txs: Seq<crate::store::TxRow>,
    account: u32,
    anchor: Option<u32>,
    n: int,
) -> int
    decreases n,
{
    if n <= 0 {
        0
    } else {
        balance_upto(notes, txs, account, anchor, n - 1) + if note_counts(
            notes,
            txs,
            n - 1,
            account,
            anchor,
        ) {
            notes[n - 1].value as int
        } else {
            0
        }
    }
}

/// The account's balance: the sum of the values of its unspent notes whose
/// owning transaction is mined, restricted to the anchor height when one is
/// given.
pub open spec fn spec_balance(db: WalletDb, account: u32, anchor: Option<u32>) -> int {
    balance_upto(
        db.received_notes@,
        db.txs@,
        account,
        anchor,
        db.received_notes@.len() as int,
    )
}

/// Computes the account balance with an optional anchor-height restriction.
fn balance_with(db: &WalletDb, account: u32, anchor: Option<u32>) -> (r: Result<i64, Error>)
    ensures
        ({
            let total = spec_balance(*db, account, anchor);
            match r {
                Ok(a) => a == total && 0 <= total <= crate::types::MAX_MONEY,
                Err(e) => e == Error::CorruptedData && !(0 <= total
                    <= crate::types::MAX_MONEY),
            }
        }),
{
    let n = db.received_notes.len();
    let mut s: i128 = 0;
    let mut i: usize = 0;
    while i < n
        invariant
            i <= n,
            n == db.received_notes@.len(),
            s as int == balance_upto(db.received_notes@, db.txs@, account, anchor, i as int),
            -(i as int) * 0x8000_0000_0000_0000 <= s as int <= (i as int) * 0x8000_0000_0000_0000,
        decreases n - i,
    {
        let counted: bool = {
            let note = &db.received_notes[i];
            if note.account == account && note.spent.is_none() && note.tx < db.txs.len() {
                match db.txs[note.tx].block {
                    Some(h) => match anchor {
                        Some(a) => h <= a,
                        None => true,
                    },
                    None => false,
                }
            } else {
                false
            }
        };
        if counted {
            s = s + db.received_notes[i].value as i128;
        }
        i += 1;
    }
    if s < 0 || s > crate::types::MAX_MONEY as i128 {
        Err(Error::CorruptedData)
    } else {
        Ok(s as i64)
    }
}

/// Returns the account's raw balance: the sum of the values of its unspent
/// notes whose owning transaction is mined, at any depth.  A sum outside
/// the valid money range is reported as corrupted data, never clamped.
pub fn get_balance(db: &WalletDb, account: u32) -> (r: Result<i64, Error>)
    ensures
        ({
            let total = spec_balance(*db, account, None);
            match r {
                Ok(a) => a == total && 0 <= total <= crate::types::MAX_MONEY,
                Err(e) => e == Error::CorruptedData && !(0 <= total
                    <= crate::types::MAX_MONEY),
            }
        }),
{
    balance_with(db, account, None)
}

/// Returns the account's verified balance: as `get_balance`, but counting
/// only notes whose owning transaction is mined at or before the anchor
/// height, so the result is safe to spend against across short reorgs.
pub fn get_verified_balance(db: &WalletDb, account: u32, anchor_height: u32) -> (r: Result<
    i64,
    Error,
>)
    ensures
        ({
            let total = spec_balance(*db, account, Some(anchor_height));
            match r {
                Ok(a) => a == total && 0 <= total <= crate::types::MAX_MONEY,
                Err(e) => e == Error::CorruptedData && !(0 <= total
                    <= crate::types::MAX_MONEY),
            }
        }),
{
    balance_with(db, account, Some(anchor_height))
}

/// True exactly when the account is known and its stored extended full
/// viewing key matches the given one byte for byte.
pub fn is_valid_account_extfvk(db: &WalletDb, account: u32, extfvk: &Vec<u8>) -> (r: bool)
    ensures
        r == (account < db.accounts@.len() && db.accounts@[account as int].extfvk@ == extfvk@),
{
    let idx = account as usize;
    if idx < db.accounts.len() {
        bytes_eq(&db.accounts[idx].extfvk, extfvk)
    } else {
        false
    }
}

} // verus!
