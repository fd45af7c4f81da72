//! Store-wide laws: properties relating several operations, proved once
//! and for all over the store's model.

use vstd::prelude::*;

use crate::select::{selection_upto, spendable, spendable_sum_upto};
use crate::store::{
    has_block_at, spec_anchor, spec_extrema, spec_mark_spent, BlockRow, NoteRow, TxRow, WalletDb,
    WitnessRow,
};
use crate::wallet::{
    balance_upto, kept_blocks_upto, kept_witnesses_upto, note_counts, unmined_after,
};

verus! {

/// With no ingested blocks, every account's balance — raw or verified, at
/// any anchor — is zero: no transaction can be mined, so no note counts.
pub proof fn lemma_no_blocks_zero_balance(db: WalletDb, account: u32, anchor: Option<u32>, n: int)
    requires
        db.well_formed(),
        db.blocks@.len() == 0,
        0 <= n <= db.received_notes@.len(),
    ensures
        balance_upto(db.received_notes@, db.txs@, account, anchor, n) == 0,
    decreases n,
{
    if n > 0 {
        lemma_no_blocks_zero_balance(db, account, anchor, n - 1);
        if note_counts(db.received_notes@, db.txs@, n - 1, account, anchor) {
            let t = db.received_notes@[n - 1].tx as int;
            assert(crate::store::tx_block_ok(db.txs@[t], db.blocks@));
            assert(false);
        }
    }
}

/// When heights `h1 <= h2` are both stored and bracket every stored
/// height, the extrema are exactly `(h1, h2)`.
pub proof fn lemma_extrema_min_max(blocks: Seq<BlockRow>, h1: u32, h2: u32)
    requires
        has_block_at(blocks, h1),
        has_block_at(blocks, h2),
        forall|i: int| 0 <= i < blocks.len() ==> h1 <= (#[trigger] blocks[i].height) <= h2,
    ensures
        spec_extrema(blocks) == Some((h1, h2)),
{
    crate::store::lemma_extrema_bounds(blocks);
    let (mn, mx) = spec_extrema(blocks)->Some_0;
    let w1 = choose|i: int| 0 <= i < blocks.len() && blocks[i].height == h1;
    assert(mn <= blocks[w1].height);
    let w2 = choose|i: int| 0 <= i < blocks.len() && blocks[i].height == h2;
    assert(blocks[w2].height <= mx);
    let wn = choose|i: int| 0 <= i < blocks.len() && blocks[i].height == mn;
    assert(h1 <= blocks[wn].height);
    let wx = choose|i: int| 0 <= i < blocks.len() && blocks[i].height == mx;
    assert(blocks[wx].height <= h2);
}

/// Anchor invariant: for stored extrema `(mn, mx)`, the target height is
/// `mx + 1` and the anchor height always lies between the earliest stored
/// block and the newest one: `mn <= anchor <= target - 1`.
pub proof fn lemma_anchor_invariant(db: WalletDb)
    requires
        db.well_formed(),
        spec_extrema(db.blocks@) is Some,
    ensures
        ({
            let ex = spec_extrema(db.blocks@)->Some_0;
            let target = (ex.1 + 1) as u32;
            let anchor = spec_anchor(target, ex.0);
            &&& ex.1 < u32::MAX
            &&& ex.0 <= anchor
            &&& anchor <= target - 1
        }),
{
    crate::store::lemma_extrema_bounds(db.blocks@);
    let ex = spec_extrema(db.blocks@)->Some_0;
    let wx = choose|i: int| 0 <= i < db.blocks@.len() && db.blocks@[i].height == ex.1;
    assert(db.blocks@[wx].height < u32::MAX);
}

/// Idempotence of spend marking: marking a nullifier a second time — with
/// any transaction — changes nothing, because the note it hit is no longer
/// unspent and still references the first spending transaction.
pub proof fn lemma_mark_spent_idempotent(notes: Seq<NoteRow>, nf: Seq<u8>, t1: usize, t2: usize)
    ensures
        spec_mark_spent(spec_mark_spent(notes, nf, t1), nf, t2) == spec_mark_spent(
            notes,
            nf,
            t1,
        ),
{
    let once = spec_mark_spent(notes, nf, t1);
    let twice = spec_mark_spent(once, nf, t2);
    assert forall|i: int| 0 <= i < notes.len() implies twice[i] == once[i] by {
        assert(once[i] == (if crate::store::marks(notes[i], nf) {
            crate::store::with_spent(notes[i], Some(t1))
        } else {
            notes[i]
        }));
        assert(!crate::store::marks(once[i], nf));
    }
    assert(twice =~= once);
}

/// Every block surviving a rewind cut lies at or below the cut height.
pub proof fn lemma_kept_blocks_below(bs: Seq<BlockRow>, h: u32, n: int)
    requires
        0 <= n <= bs.len(),
    ensures
        forall|a: int|
            0 <= a < kept_blocks_upto(bs, h, n).len() ==> (#[trigger] kept_blocks_upto(
                bs,
                h,
                n,
            )[a].height) <= h,
    decreases n,
{
    if n > 0 {
        lemma_kept_blocks_below(bs, h, n - 1);
        let prev = kept_blocks_upto(bs, h, n - 1);
        let kept = kept_blocks_upto(bs, h, n);
        assert forall|a: int| 0 <= a < kept.len() implies (#[trigger] kept[a].height) <= h by {
            if a < prev.len() {
                assert(kept[a] == prev[a]);
                assert(prev[a].height <= h);
            }
        }
    }
}

/// Every witness snapshot surviving a rewind cut lies at or below the cut
/// height.
pub proof fn lemma_kept_witnesses_below(ws: Seq<WitnessRow>, h: u32, n: int)
    requires
        0 <= n <= ws.len(),
    ensures
        forall|a: int|
            0 <= a < kept_witnesses_upto(ws, h, n).len() ==> (#[trigger] kept_witnesses_upto(
                ws,
                h,
                n,
            )[a].block) <= h,
    decreases n,
{
    if n > 0 {
        lemma_kept_witnesses_below(ws, h, n - 1);
        let prev = kept_witnesses_upto(ws, h, n - 1);
        let kept = kept_witnesses_upto(ws, h, n);
        assert forall|a: int| 0 <= a < kept.len() implies (#[trigger] kept[a].block) <= h by {
            if a < prev.len() {
                assert(kept[a] == prev[a]);
                assert(prev[a].block <= h);
            }
        }
    }
}

/// After a rewind cut, no transaction reports a mined height above the
/// cut, and a transaction's id, contents and timestamps are untouched.
pub proof fn lemma_unmined_after_bounds(t: TxRow, h: u32)
    ensures
        match unmined_after(t, h).block {
            Some(b) => b <= h && unmined_after(t, h) == t,
            None => true,
        },
        unmined_after(t, h).txid == t.txid,
        unmined_after(t, h).expiry_height == t.expiry_height,
        unmined_after(t, h).raw == t.raw,
        unmined_after(t, h).created == t.created,
{
}

/// A block stored at or below the cut height survives the cut, so
/// rewinding to a scanned height leaves that height's block in place.
pub proof fn lemma_rewind_keeps_cut_block(bs: Seq<BlockRow>, h: u32, b: u32)
    requires
        b <= h,
        has_block_at(bs, b),
    ensures
        has_block_at(kept_blocks_upto(bs, h, bs.len() as int), b),
{
    crate::wallet::lemma_kept_blocks_has_le(bs, h, b, bs.len() as int);
}

/// Rewind correctness for the chain extrema: rewinding to a scanned
/// height `h` leaves blocks spanning exactly the old minimum up to `h`.
pub proof fn lemma_rewind_extrema(bs: Seq<BlockRow>, h: u32)
    requires
        forall|i: int, j: int| 0 <= i < j < bs.len() ==> bs[i].height != bs[j].height,
        has_block_at(bs, h),
    ensures
        ({
            let kept = kept_blocks_upto(bs, h, bs.len() as int);
            match spec_extrema(bs) {
                Some(ex) => spec_extrema(kept) == Some((ex.0, h)),
                None => false,
            }
        }),
{
    crate::store::lemma_extrema_bounds(bs);
    let ex = spec_extrema(bs)->Some_0;
    let kept = kept_blocks_upto(bs, h, bs.len() as int);
    let wh = choose|i: int| 0 <= i < bs.len() && bs[i].height == h;
    assert(ex.0 <= bs[wh].height);
    lemma_rewind_keeps_cut_block(bs, h, ex.0);
    lemma_rewind_keeps_cut_block(bs, h, h);
    lemma_kept_blocks_below(bs, h, bs.len() as int);
    crate::wallet::lemma_kept_blocks_wf(bs, h, bs.len() as int);
    assert forall|i: int| 0 <= i < kept.len() implies ex.0 <= (#[trigger] kept[i].height) <= h by {
        let wi = choose|j: int| 0 <= j < bs.len() && bs[j] == kept[i];
        assert(ex.0 <= bs[wi].height);
    }
    lemma_extrema_min_max(kept, ex.0, h);
}

/// The greedy selection never takes more value than the spendable notes
/// offer, and stops short of the target only when even the full spendable
/// set stops short: an insufficient result means insufficient funds, never
/// a truncated answer.  This holds for non-negative note values, which
/// every uncorrupted store has.
pub proof fn lemma_selection_covers(
    notes: Seq<NoteRow>,
    txs: Seq<TxRow>,
    ws: Seq<WitnessRow>,
    account: u32,
    anchor: u32,
    target: int,
    n: int,
)
    requires
        0 <= n <= notes.len(),
        forall|i: int| 0 <= i < notes.len() ==> 0 <= (#[trigger] notes[i]).value,
    ensures
        ({
            let sel = selection_upto(notes, txs, ws, account, anchor, target, n);
            let total = spendable_sum_upto(notes, txs, ws, account, anchor, n);
            &&& sel.1 <= total
            &&& sel.1 < target ==> sel.1 == total
            &&& (sel.1 >= target <==> total >= target)
        }),
    decreases n,
{
    if n > 0 {
        lemma_selection_covers(notes, txs, ws, account, anchor, target, n - 1);
        let prev = selection_upto(notes, txs, ws, account, anchor, target, n - 1);
        if spendable(notes, txs, ws, n - 1, account, anchor) {
            assert(0 <= notes[n - 1].value);
        }
    }
}

} // verus!
