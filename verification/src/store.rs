//! The wallet data store and its tables.
//!
//! The store owns six tables, each a growable vector of rows.  Row
//! references (`usize` indexes into the vectors) serve as the backend note
//! and transaction identifiers.  `WalletDb::well_formed` states the
//! referential invariants every mutation preserves: row references stay in
//! range, a transaction's mined height always names a stored block, and
//! block heights are unique and below the height ceiling.

use vstd::prelude::*;
use vstd::pervasive::VecAdditionalExecFns;

use crate::types::Error;

verus! {

/// An account known to the wallet: one viewing key and one derived payment
/// address, both in their encoded forms.  The account id is the row index.
pub struct AccountRow {
    /// Encoded extended full viewing key.
    pub extfvk: Vec<u8>,
    /// Encoded shielded payment address.
    pub address: Vec<u8>,
}

/// A scanned block: its hash, wall-clock time and the serialized snapshot of
/// the global note-commitment tree as of the end of the block.
pub struct BlockRow {
    /// Chain height of the block.
    pub height: u32,
    /// Block hash bytes.
    pub hash: Vec<u8>,
    /// Wall-clock time of the block.
    pub time: u32,
    /// Serialized note-commitment tree snapshot.
    pub sapling_tree: Vec<u8>,
}

/// A transaction the wallet knows about.  It is mined exactly when `block`
/// is set; an unmined transaction keeps its data and may become mined later
/// or expire.
pub struct TxRow {
    /// 32-byte transaction id.
    pub txid: Vec<u8>,
    /// Height of the block the transaction is mined in, if any.
    pub block: Option<u32>,
    /// Position of the transaction within its block, if mined.
    pub tx_index: Option<u32>,
    /// Height after which an unmined transaction can no longer confirm.
    pub expiry_height: Option<u32>,
    /// Full serialized transaction, if known.
    pub raw: Option<Vec<u8>>,
    /// Authoring time for transactions the wallet created, as a Unix
    /// timestamp in seconds.
    pub created: Option<i64>,
}

/// A shielded output received by one of the wallet's accounts.
pub struct NoteRow {
    /// Row reference of the transaction that created the note.
    pub tx: usize,
    /// Index of the output within its transaction.
    pub output_index: usize,
    /// Account that controls the note.
    pub account: u32,
    /// Destination payment address, in its encoded form.
    pub address: Vec<u8>,
    /// Value of the note, in zatoshis.
    pub value: i64,
    /// Memo bytes, if a memo was recovered for the note.
    pub memo: Option<Vec<u8>>,
    /// Nullifier of the note, if the spending key is known.
    pub nf: Option<Vec<u8>>,
    /// Whether the note returns change to the sender, if known.
    pub is_change: Option<bool>,
    /// Row reference of the spending transaction; absent while unspent.
    pub spent: Option<usize>,
}

/// An incremental Merkle-membership proof for one note, snapshotted at one
/// block height.
pub struct WitnessRow {
    /// Row reference of the witnessed note.
    pub note: usize,
    /// Height of the block whose tree snapshot the witness proves
    /// membership in.
    pub block: u32,
    /// Serialized incremental witness.
    pub witness: Vec<u8>,
}

/// An output the wallet authored, for any recipient including change.
pub struct SentNoteRow {
    /// Row reference of the owning transaction.
    pub tx: usize,
    /// Index of the output within its transaction.
    pub output_index: usize,
    /// Account the value was sent from.
    pub from_account: u32,
    /// Recipient address, in its encoded form.
    pub address: Vec<u8>,
    /// Value sent, in zatoshis.
    pub value: i64,
    /// Memo bytes attached to the output, if any.
    pub memo: Option<Vec<u8>>,
}

/// The in-memory wallet data store.
pub struct WalletDb {
    /// Accounts, keyed by row index.
    pub accounts: Vec<AccountRow>,
    /// Scanned blocks.
    pub blocks: Vec<BlockRow>,
    /// Transactions, keyed by row index.
    pub txs: Vec<TxRow>,
    /// Received notes, keyed by row index.
    pub received_notes: Vec<NoteRow>,
    /// Witness snapshots.
    pub witnesses: Vec<WitnessRow>,
    /// Sent-note records.
    pub sent_notes: Vec<SentNoteRow>,
}

/// True when some stored block has height `h`.
pub open spec fn has_block_at(blocks: Seq<BlockRow>, h: u32) -> bool {
    exists|i: int| 0 <= i < blocks.len() && blocks[i].height == h
}

/// The least and greatest stored block heights, if any block is stored.
pub open spec fn spec_extrema(blocks: Seq<BlockRow>) -> Option<(u32, u32)>
    decreases blocks.len(),
{
    if blocks.len() == 0 {
        None
    } else {
        let h = blocks.last().height;
        match spec_extrema(blocks.drop_last()) {
            None => Some((h, h)),
            Some((mn, mx)) => Some(
                ((if h < mn { h } else { mn }), (if h > mx { h } else { mx })),
            ),
        }
    }
}

/// Bounds of `spec_extrema`: both extrema are stored heights and they
/// bracket every stored height.
pub proof fn lemma_extrema_bounds(blocks: Seq<BlockRow>)
    ensures
        match spec_extrema(blocks) {
            None => blocks.len() == 0,
            Some((mn, mx)) => {
                &&& has_block_at(blocks, mn)
                &&& has_block_at(blocks, mx)
                &&& mn <= mx
                &&& forall|i: int| 0 <= i < blocks.len() ==> mn <= (#[trigger] blocks[i].height) <= mx
            },
        },
    decreases blocks.len(),
{
    if blocks.len() > 0 {
        let prefix = blocks.drop_last();
        lemma_extrema_bounds(prefix);
        assert(blocks.last() == blocks[blocks.len() - 1]);
        match spec_extrema(prefix) {
            None => {
                assert(blocks[blocks.len() - 1].height == blocks.last().height);
            },
            Some((mn, mx)) => {
                assert(has_block_at(prefix, mn));
                let wi = choose|i: int| 0 <= i < prefix.len() && prefix[i].height == mn;
                assert(blocks[wi].height == mn);
                let wj = choose|i: int| 0 <= i < prefix.len() && prefix[i].height == mx;
                assert(blocks[wj].height == mx);
                assert(forall|i: int|
                    0 <= i < prefix.len() ==> (#[trigger] blocks[i].height) == prefix[i].height);
            },
        }
    }
}

/// True when the transaction's mined height, if set, names a stored block.
pub open spec fn tx_block_ok(tx: TxRow, blocks: Seq<BlockRow>) -> bool {
    match tx.block {
        Some(h) => has_block_at(blocks, h),
        None => true,
    }
}

/// True when the note's transaction references lie within the transaction
/// table.
pub open spec fn note_refs_ok(note: NoteRow, n_txs: int) -> bool {
    &&& note.tx < n_txs
    &&& match note.spent {
        Some(t) => t < n_txs,
        None => true,
    }
}

impl WalletDb {
    /// Referential consistency of the store: every row reference is in
    /// range, every mined transaction names a stored block, and block
    /// heights are unique and leave room for a target height above them.
    pub open spec fn well_formed(&self) -> bool {
        &&& forall|i: int, j: int|
            0 <= i < j < self.blocks@.len() ==> self.blocks@[i].height != self.blocks@[j].height
        &&& forall|i: int| 0 <= i < self.blocks@.len() ==> (#[trigger] self.blocks@[i].height) < u32::MAX
        &&& forall|j: int|
            0 <= j < self.txs@.len() ==> tx_block_ok(#[trigger] self.txs@[j], self.blocks@)
        &&& forall|i: int|
            0 <= i < self.received_notes@.len() ==> note_refs_ok(
                #[trigger] self.received_notes@[i],
                self.txs@.len() as int,
            )
        &&& forall|w: int|
            0 <= w < self.witnesses@.len() ==> (#[trigger] self.witnesses@[w].note)
                < self.received_notes@.len()
        &&& forall|s: int|
            0 <= s < self.sent_notes@.len() ==> (#[trigger] self.sent_notes@[s].tx)
                < self.txs@.len()
        &&& forall|i: int, j: int|
            0 <= i < j < self.txs@.len() ==> (#[trigger] self.txs@[i].txid@)
                != (#[trigger] self.txs@[j].txid@)
    }

    /// Creates an empty store.
    pub fn new() -> (r: WalletDb)
        ensures
            r.well_formed(),
            r.accounts@.len() == 0,
            r.blocks@.len() == 0,
            r.txs@.len() == 0,
            r.received_notes@.len() == 0,
            r.witnesses@.len() == 0,
            r.sent_notes@.len() == 0,
    {
        WalletDb {
            accounts: Vec::new(),
            blocks: Vec::new(),
            txs: Vec::new(),
            received_notes: Vec::new(),
            witnesses: Vec::new(),
            sent_notes: Vec::new(),
        }
    }

    /// Registers an account with its encoded viewing key and payment
    /// address, returning the new account id.  Accounts are created at
    /// wallet setup and are immutable thereafter.
    pub fn add_account(&mut self, extfvk: Vec<u8>, address: Vec<u8>) -> (r: usize)
        requires
            old(self).well_formed(),
        ensures
            final(self).well_formed(),
            r == old(self).accounts@.len(),
            final(self).accounts@.len() == old(self).accounts@.len() + 1,
            final(self).accounts@.last().extfvk@ == extfvk@,
            final(self).accounts@.last().address@ == address@,
            forall|i: int|
                0 <= i < old(self).accounts@.len() ==> final(self).accounts@[i]
                    == old(self).accounts@[i],
            final(self).blocks == old(self).blocks,
            final(self).txs == old(self).txs,
            final(self).received_notes == old(self).received_notes,
            final(self).witnesses == old(self).witnesses,
            final(self).sent_notes == old(self).sent_notes,
    {
        let id = self.accounts.len();
        self.accounts.push(AccountRow { extfvk, address });
        id
    }

    /// Appends a scanned block with its hash, time and commitment-tree
    /// snapshot.  A height already stored is refused, as is the one height
    /// that would leave no room for a target height above it.
    pub fn insert_block(
        &mut self,
        height: u32,
        hash: Vec<u8>,
        time: u32,
        sapling_tree: Vec<u8>,
    ) -> (r: Result<(), Error>)
        requires
            old(self).well_formed(),
        ensures
            final(self).well_formed(),
            match r {
                Ok(()) => {
                    &&& height < u32::MAX
                    &&& !has_block_at(old(self).blocks@, height)
                    &&& final(self).blocks@ == old(self).blocks@.push(
                        (BlockRow { height, hash, time, sapling_tree }),
                    )
                    &&& final(self).accounts == old(self).accounts
                    &&& final(self).txs == old(self).txs
                    &&& final(self).received_notes == old(self).received_notes
                    &&& final(self).witnesses == old(self).witnesses
                    &&& final(self).sent_notes == old(self).sent_notes
                },
                Err(e) => {
                    &&& *final(self) == *old(self)
                    &&& (e == Error::HeightOutOfRange <==> height == u32::MAX)
                    &&& (e == Error::DuplicateBlock <==> height < u32::MAX && has_block_at(
                        old(self).blocks@,
                        height,
                    ))
                    &&& (e == Error::HeightOutOfRange || e == Error::DuplicateBlock)
                },
            },
    {
        if height == u32::MAX {
            return Err(Error::HeightOutOfRange);
        }
        match find_block(&self.blocks, height) {
            Some(i) => {
                proof {
                    assert(self.blocks@[i as int].height == height);
                }
                Err(Error::DuplicateBlock)
            },
            None => {
                let ghost old_blocks = self.blocks@;
                self.blocks.push(BlockRow { height, hash, time, sapling_tree });
                proof {
                    assert forall|j: int|
                        0 <= j < self.txs@.len() implies tx_block_ok(
                        #[trigger] self.txs@[j],
                        self.blocks@,
                    ) by {
                        match self.txs@[j].block {
                            Some(h) => {
                                let wi = choose|i: int|
                                    0 <= i < old_blocks.len() && old_blocks[i].height == h;
                                assert(self.blocks@[wi].height == h);
                            },
                            None => {},
                        }
                    }
                }
                Ok(())
            },
        }
    }

    /// Returns the default target height for a new transaction (one above
    /// the newest scanned block) and the anchor height its spend proofs
    /// should be built against, or absence when no block has been scanned.
    ///
    /// The anchor lies `ANCHOR_OFFSET` confirmations behind the target, but
    /// never before the earliest stored block, so a usable commitment-tree
    /// snapshot always exists for it.
    pub fn get_target_and_anchor_heights(&self) -> (r: Option<(u32, u32)>)
        requires
            self.well_formed(),
        ensures
            match (r, spec_extrema(self.blocks@)) {
                (None, None) => true,
                (Some(ta), Some(ex)) => ta.0 == ex.1 + 1 && ta.1 == spec_anchor(ta.0, ex.0),
                _ => false,
            },
    {
        match crate::wallet::block_height_extrema(self) {
            None => None,
            Some((mn, mx)) => {
                proof {
                    lemma_extrema_bounds(self.blocks@);
                    let wi = choose|i: int|
                        0 <= i < self.blocks@.len() && self.blocks@[i].height == mx;
                    assert(self.blocks@[wi].height == mx);
                }
                let target = mx + 1;
                let backed = if target >= crate::types::ANCHOR_OFFSET {
                    target - crate::types::ANCHOR_OFFSET
                } else {
                    0
                };
                let anchor = if backed >= mn {
                    backed
                } else {
                    mn
                };
                Some((target, anchor))
            },
        }
    }

    /// Returns the greatest stored block height together with that block's
    /// hash, or absence when no block has been scanned.
    pub fn get_max_height_hash(&self) -> (r: Option<(u32, Vec<u8>)>)
        requires
            self.well_formed(),
        ensures
            match (r, spec_extrema(self.blocks@)) {
                (None, None) => true,
                (Some(p), Some(ex)) => p.0 == ex.1 && exists|i: int|
                    0 <= i < self.blocks@.len() && (#[trigger] self.blocks@[i]).height == ex.1
                        && p.1@ == self.blocks@[i].hash@,
                _ => false,
            },
    {
        match crate::wallet::block_height_extrema(self) {
            None => None,
            Some((_mn, mx)) => {
                proof {
                    lemma_extrema_bounds(self.blocks@);
                }
                match crate::wallet::get_block_hash(self, mx) {
                    Some(hash) => Some((mx, hash)),
                    None => {
                        // The maximum height is a stored block, so the
                        // lookup cannot miss.
                        assert(false);
                        None
                    },
                }
            },
        }
    }

    /// Marks the unspent note carrying this nullifier as spent, recording
    /// the spending transaction's reference on it.  When no unspent note
    /// carries the nullifier — for example when a block is scanned twice —
    /// the call succeeds without changing anything, so replays are
    /// harmless.
    pub fn mark_spent(&mut self, tx_ref: usize, nf: &Vec<u8>) -> (r: Result<(), Error>)
        requires
            old(self).well_formed(),
        ensures
            final(self).well_formed(),
            match r {
                Ok(()) => {
                    &&& tx_ref < old(self).txs@.len()
                    &&& final(self).received_notes@ == spec_mark_spent(
                        old(self).received_notes@,
                        nf@,
                        tx_ref,
                    )
                    &&& final(self).accounts == old(self).accounts
                    &&& final(self).blocks == old(self).blocks
                    &&& final(self).txs == old(self).txs
                    &&& final(self).witnesses == old(self).witnesses
                    &&& final(self).sent_notes == old(self).sent_notes
                },
                Err(e) => {
                    &&& e == Error::InvalidTxRef
                    &&& tx_ref >= old(self).txs@.len()
                    &&& *final(self) == *old(self)
                },
            },
    {
        if tx_ref >= self.txs.len() {
            return Err(Error::InvalidTxRef);
        }
        let ghost orig = self.received_notes@;
        let n = self.received_notes.len();
        let mut i: usize = 0;
        while i < n
            invariant
                i <= n,
                n == self.received_notes@.len(),
                orig.len() == n,
                tx_ref < self.txs@.len(),
                forall|j: int|
                    0 <= j < i ==> self.received_notes@[j] == spec_mark_spent(
                        orig,
                        nf@,
                        tx_ref,
                    )[j],
                forall|j: int| i <= j < n ==> self.received_notes@[j] == orig[j],
                self.accounts == old(self).accounts,
                self.blocks == old(self).blocks,
                self.txs == old(self).txs,
                self.witnesses == old(self).witnesses,
                self.sent_notes == old(self).sent_notes,
            decreases n - i,
        {
            let do_mark = {
                let note = &self.received_notes[i];
                note.spent.is_none() && match &note.nf {
                    Some(v) => crate::types::bytes_eq(v, nf),
                    None => false,
                }
            };
            if do_mark {
                self.received_notes[i].spent = Some(tx_ref);
            }
            i += 1;
        }
        proof {
            assert(self.received_notes@ =~= spec_mark_spent(orig, nf@, tx_ref));
            assert forall|j: int|
                0 <= j < self.received_notes@.len() implies note_refs_ok(
                #[trigger] self.received_notes@[j],
                self.txs@.len() as int,
            ) by {
                assert(note_refs_ok(orig[j], self.txs@.len() as int));
            }
        }
        Ok(())
    }

    /// Reverts to unspent every note whose recorded spending transaction is
    /// still unmined and expired strictly before the given height, so an
    /// expired spend proposal cannot leave a note marked spent forever.
    pub fn update_expired_notes(&mut self, from_height: u32)
        requires
            old(self).well_formed(),
        ensures
            final(self).well_formed(),
            final(self).received_notes@ == spec_update_expired(
                old(self).received_notes@,
                old(self).txs@,
                from_height,
            ),
            final(self).accounts == old(self).accounts,
            final(self).blocks == old(self).blocks,
            final(self).txs == old(self).txs,
            final(self).witnesses == old(self).witnesses,
            final(self).sent_notes == old(self).sent_notes,
    {
        let ghost orig = self.received_notes@;
        let n = self.received_notes.len();
        let mut i: usize = 0;
        while i < n
            invariant
                i <= n,
                n == self.received_notes@.len(),
                orig.len() == n,
                forall|j: int|
                    0 <= j < i ==> self.received_notes@[j] == spec_update_expired(
                        orig,
                        old(self).txs@,
                        from_height,
                    )[j],
                forall|j: int| i <= j < n ==> self.received_notes@[j] == orig[j],
                self.accounts == old(self).accounts,
                self.blocks == old(self).blocks,
                self.txs == old(self).txs,
                self.witnesses == old(self).witnesses,
                self.sent_notes == old(self).sent_notes,
            decreases n - i,
        {
            let revert = {
                let note = &self.received_notes[i];
                match note.spent {
                    Some(t) => t < self.txs.len() && self.txs[t].block.is_none()
                        && match self.txs[t].expiry_height {
                        Some(e) => e < from_height,
                        None => false,
                    },
                    None => false,
                }
            };
            if revert {
                self.received_notes[i].spent = None;
            }
            i += 1;
        }
        proof {
            assert(self.received_notes@ =~= spec_update_expired(
                orig,
                old(self).txs@,
                from_height,
            ));
            assert forall|j: int|
                0 <= j < self.received_notes@.len() implies note_refs_ok(
                #[trigger] self.received_notes@[j],
                self.txs@.len() as int,
            ) by {
                assert(note_refs_ok(orig[j], self.txs@.len() as int));
            }
        }
    }

    /// Records that the transaction with the given id is mined at the given
    /// height and in-block position, creating the transaction row if the id
    /// is new, and returns the transaction's reference.  The height must
    /// name a stored block.
    pub fn put_tx_meta(&mut self, txid: &Vec<u8>, tx_index: u32, height: u32) -> (r: Result<
        usize,
        Error,
    >)
        requires
            old(self).well_formed(),
        ensures
            final(self).well_formed(),
            final(self).accounts == old(self).accounts,
            final(self).blocks == old(self).blocks,
            final(self).received_notes == old(self).received_notes,
            final(self).witnesses == old(self).witnesses,
            final(self).sent_notes == old(self).sent_notes,
            match r {
                Ok(i) => {
                    &&& has_block_at(old(self).blocks@, height)
                    &&& i < final(self).txs@.len()
                    &&& forall|j: int| 0 <= j < i ==> (#[trigger] old(self).txs@[j].txid@) != txid@
                    &&& if i < old(self).txs@.len() {
                        &&& old(self).txs@[i as int].txid@ == txid@
                        &&& final(self).txs@ == old(self).txs@.update(
                            i as int,
                            with_tx_meta(old(self).txs@[i as int], height, tx_index),
                        )
                    } else {
                        &&& i == old(self).txs@.len()
                        &&& final(self).txs@.len() == old(self).txs@.len() + 1
                        &&& forall|j: int|
                            0 <= j < old(self).txs@.len() ==> final(self).txs@[j] == old(self).txs@[j]
                        &&& final(self).txs@.last().txid@ == txid@
                        &&& final(self).txs@.last().block == Some(height)
                        &&& final(self).txs@.last().tx_index == Some(tx_index)
                        &&& final(self).txs@.last().expiry_height is None
                        &&& final(self).txs@.last().raw is None
                        &&& final(self).txs@.last().created is None
                    }
                },
                Err(e) => {
                    &&& e == Error::InvalidHeight
                    &&& !has_block_at(old(self).blocks@, height)
                    &&& *final(self) == *old(self)
                },
            },
    {
        match find_block(&self.blocks, height) {
            None => Err(Error::InvalidHeight),
            Some(b) => {
                proof {
                    assert(self.blocks@[b as int].height == height);
                }
                match crate::wallet::find_tx(&self.txs, txid) {
                    Some(i) => {
                        let ghost oldtxs = self.txs@;
                        self.txs[i].block = Some(height);
                        self.txs[i].tx_index = Some(tx_index);
                        proof {
                            assert(self.txs@ =~= oldtxs.update(
                                i as int,
                                with_tx_meta(oldtxs[i as int], height, tx_index),
                            ));
                            assert forall|a: int, c: int|
                                0 <= a < c < self.txs@.len() implies (
                            #[trigger] self.txs@[a].txid@) != (#[trigger] self.txs@[c].txid@) by {
                                assert(self.txs@[a].txid == oldtxs[a].txid);
                                assert(self.txs@[c].txid == oldtxs[c].txid);
                                assert(oldtxs[a].txid@ != oldtxs[c].txid@);
                            }
                            assert forall|j: int|
                                0 <= j < self.txs@.len() implies tx_block_ok(
                                #[trigger] self.txs@[j],
                                self.blocks@,
                            ) by {
                                if j != i as int {
                                    assert(tx_block_ok(oldtxs[j], self.blocks@));
                                }
                            }
                        }
                        Ok(i)
                    },
                    None => {
                        let row = TxRow {
                            txid: crate::types::copy_bytes(txid),
                            block: Some(height),
                            tx_index: Some(tx_index),
                            expiry_height: None,
                            raw: None,
                            created: None,
                        };
                        let i = self.txs.len();
                        let ghost oldtxs = self.txs@;
                        self.txs.push(row);
                        proof {
                            assert forall|a: int, c: int|
                                0 <= a < c < self.txs@.len() implies (
                            #[trigger] self.txs@[a].txid@) != (#[trigger] self.txs@[c].txid@) by {
                                if c < oldtxs.len() {
                                    assert(oldtxs[a].txid@ != oldtxs[c].txid@);
                                } else {
                                    assert(oldtxs[a].txid@ != txid@);
                                }
                            }
                            assert forall|j: int|
                                0 <= j < self.txs@.len() implies tx_block_ok(
                                #[trigger] self.txs@[j],
                                self.blocks@,
                            ) by {
                                if j < oldtxs.len() {
                                    assert(tx_block_ok(oldtxs[j], self.blocks@));
                                }
                            }
                            assert forall|j: int|
                                0 <= j < self.received_notes@.len() implies note_refs_ok(
                                #[trigger] self.received_notes@[j],
                                self.txs@.len() as int,
                            ) by {
                                assert(note_refs_ok(
                                    self.received_notes@[j],
                                    oldtxs.len() as int,
                                ));
                            }
                        }
                        Ok(i)
                    },
                }
            },
        }
    }

    /// Records the full contents of a transaction — its serialized bytes,
    /// expiry height and optional authoring time — creating the transaction
    /// row if the id is new, and returns the transaction's reference.  The
    /// mined position, if already recorded, is kept.
    pub fn put_tx_data(
        &mut self,
        txid: &Vec<u8>,
        expiry_height: u32,
        raw: &Vec<u8>,
        created: Option<i64>,
    ) -> (r: usize)
        requires
            old(self).well_formed(),
        ensures
            final(self).well_formed(),
            final(self).accounts == old(self).accounts,
            final(self).blocks == old(self).blocks,
            final(self).received_notes == old(self).received_notes,
            final(self).witnesses == old(self).witnesses,
            final(self).sent_notes == old(self).sent_notes,
            r < final(self).txs@.len(),
            final(self).txs@[r as int].txid@ == txid@,
            final(self).txs@[r as int].expiry_height == Some(expiry_height),
            crate::types::opt_bytes_view(final(self).txs@[r as int].raw) == Some(raw@),
            final(self).txs@[r as int].created == created,
            forall|j: int| 0 <= j < r ==> (#[trigger] old(self).txs@[j].txid@) != txid@,
            if r < old(self).txs@.len() {
                &&& old(self).txs@[r as int].txid@ == txid@
                &&& final(self).txs@.len() == old(self).txs@.len()
                &&& forall|j: int|
                    0 <= j < old(self).txs@.len() && j != r ==> final(self).txs@[j] == old(self).txs@[j]
                &&& final(self).txs@[r as int].txid == old(self).txs@[r as int].txid
                &&& final(self).txs@[r as int].block == old(self).txs@[r as int].block
                &&& final(self).txs@[r as int].tx_index == old(self).txs@[r as int].tx_index
            } else {
                &&& r == old(self).txs@.len()
                &&& final(self).txs@.len() == old(self).txs@.len() + 1
                &&& forall|j: int|
                    0 <= j < old(self).txs@.len() ==> final(self).txs@[j] == old(self).txs@[j]
                &&& final(self).txs@.last().block is None
                &&& final(self).txs@.last().tx_index is None
            },
    {
        match crate::wallet::find_tx(&self.txs, txid) {
            Some(i) => {
                let ghost oldtxs = self.txs@;
                self.txs[i].expiry_height = Some(expiry_height);
                self.txs[i].raw = Some(crate::types::copy_bytes(raw));
                self.txs[i].created = created;
                proof {
                    assert forall|a: int, c: int|
                        0 <= a < c < self.txs@.len() implies (#[trigger] self.txs@[a].txid@) != (
                    #[trigger] self.txs@[c].txid@) by {
                        assert(self.txs@[a].txid == oldtxs[a].txid);
                        assert(self.txs@[c].txid == oldtxs[c].txid);
                        assert(oldtxs[a].txid@ != oldtxs[c].txid@);
                    }
                    assert forall|j: int|
                        0 <= j < self.txs@.len() implies tx_block_ok(
                        #[trigger] self.txs@[j],
                        self.blocks@,
                    ) by {
                        assert(self.txs@[j].block == oldtxs[j].block);
                        assert(tx_block_ok(oldtxs[j], self.blocks@));
                    }
                }
                i
            },
            None => {
                let row = TxRow {
                    txid: crate::types::copy_bytes(txid),
                    block: None,
                    tx_index: None,
                    expiry_height: Some(expiry_height),
                    raw: Some(crate::types::copy_bytes(raw)),
                    created,
                };
                let i = self.txs.len();
                let ghost oldtxs = self.txs@;
                self.txs.push(row);
                proof {
                    assert forall|a: int, c: int|
                        0 <= a < c < self.txs@.len() implies (#[trigger] self.txs@[a].txid@) != (
                    #[trigger] self.txs@[c].txid@) by {
                        if c < oldtxs.len() {
                            assert(oldtxs[a].txid@ != oldtxs[c].txid@);
                        } else {
                            assert(oldtxs[a].txid@ != txid@);
                        }
                    }
                    assert forall|j: int|
                        0 <= j < self.txs@.len() implies tx_block_ok(
                        #[trigger] self.txs@[j],
                        self.blocks@,
                    ) by {
                        if j < oldtxs.len() {
                            assert(tx_block_ok(oldtxs[j], self.blocks@));
                        }
                    }
                    assert forall|j: int|
                        0 <= j < self.received_notes@.len() implies note_refs_ok(
                        #[trigger] self.received_notes@[j],
                        self.txs@.len() as int,
                    ) by {
                        assert(note_refs_ok(self.received_notes@[j], oldtxs.len() as int));
                    }
                }
                i
            },
        }
    }

    /// Records a received shielded output as a note of its account, and
    /// returns the note's reference.  A note already stored for the same
    /// transaction and output index is updated in place — its reference and
    /// spent state survive — rather than duplicated; fields only one origin
    /// knows (the memo, the change flag) are kept when the output does not
    /// carry them.
    pub fn put_received_note(
        &mut self,
        output: &crate::types::ShieldedOutput,
        nf: &Option<Vec<u8>>,
        tx_ref: usize,
    ) -> (r: Result<usize, Error>)
        requires
            old(self).well_formed(),
        ensures
            final(self).well_formed(),
            final(self).accounts == old(self).accounts,
            final(self).blocks == old(self).blocks,
            final(self).txs == old(self).txs,
            final(self).witnesses == old(self).witnesses,
            final(self).sent_notes == old(self).sent_notes,
            match r {
                Ok(i) => {
                    &&& tx_ref < old(self).txs@.len()
                    &&& i < final(self).received_notes@.len()
                    &&& final(self).received_notes@[i as int].tx == tx_ref
                    &&& final(self).received_notes@[i as int].output_index
                        == output.spec_index()
                    &&& final(self).received_notes@[i as int].account == output.spec_account()
                    &&& final(self).received_notes@[i as int].address@ == output.spec_to()
                    &&& final(self).received_notes@[i as int].value == output.spec_value()
                    &&& crate::types::opt_bytes_view(final(self).received_notes@[i as int].nf)
                        == crate::types::opt_bytes_view(*nf)
                    &&& forall|j: int|
                        0 <= j < i ==> !((#[trigger] old(self).received_notes@[j]).tx == tx_ref
                            && old(self).received_notes@[j].output_index
                            == output.spec_index())
                    &&& match output.spec_memo() {
                        Some(m) => crate::types::opt_bytes_view(
                            final(self).received_notes@[i as int].memo,
                        ) == Some(m),
                        None => i < old(self).received_notes@.len() ==> final(self).received_notes@[i as int].memo == old(self).received_notes@[
                            i as int
                        ].memo,
                    }
                    &&& match output.spec_is_change() {
                        Some(c) => final(self).received_notes@[i as int].is_change == Some(c),
                        None => i < old(self).received_notes@.len() ==> final(self).received_notes@[i as int].is_change == old(self).received_notes@[
                            i as int
                        ].is_change,
                    }
                    &&& if i < old(self).received_notes@.len() {
                        &&& old(self).received_notes@[i as int].tx == tx_ref
                        &&& old(self).received_notes@[i as int].output_index
                            == output.spec_index()
                        &&& final(self).received_notes@.len() == old(self).received_notes@.len()
                        &&& forall|j: int|
                            0 <= j < old(self).received_notes@.len() && j != i ==> final(self).received_notes@[j] == old(self).received_notes@[j]
                        &&& final(self).received_notes@[i as int].spent == old(self).received_notes@[i as int].spent
                    } else {
                        &&& i == old(self).received_notes@.len()
                        &&& final(self).received_notes@.len() == old(self).received_notes@.len() + 1
                        &&& forall|j: int|
                            0 <= j < old(self).received_notes@.len() ==> final(self).received_notes@[j] == old(self).received_notes@[j]
                        &&& final(self).received_notes@[i as int].memo
                            == (match output.spec_memo() {
                            Some(_) => final(self).received_notes@[i as int].memo,
                            None => None::<Vec<u8>>,
                        })
                        &&& final(self).received_notes@[i as int].is_change
                            == output.spec_is_change()
                        &&& final(self).received_notes@[i as int].spent is None
                    }
                },
                Err(e) => {
                    &&& e == Error::InvalidTxRef
                    &&& tx_ref >= old(self).txs@.len()
                    &&& *final(self) == *old(self)
                },
            },
    {
        if tx_ref >= self.txs.len() {
            return Err(Error::InvalidTxRef);
        }
        let output_index = output.index();
        match find_note(&self.received_notes, tx_ref, output_index) {
            Some(i) => {
                let ghost orig = self.received_notes@;
                self.received_notes[i].account = output.account();
                self.received_notes[i].address = crate::types::copy_bytes(output.to());
                self.received_notes[i].value = output.value();
                match output.memo() {
                    Some(m) => {
                        self.received_notes[i].memo = Some(crate::types::copy_bytes(m));
                    },
                    None => {},
                }
                self.received_notes[i].nf = crate::types::copy_bytes_opt(nf);
                match output.is_change() {
                    Some(c) => {
                        self.received_notes[i].is_change = Some(c);
                    },
                    None => {},
                }
                proof {
                    assert forall|j: int|
                        0 <= j < self.received_notes@.len() implies note_refs_ok(
                        #[trigger] self.received_notes@[j],
                        self.txs@.len() as int,
                    ) by {
                        assert(note_refs_ok(orig[j], self.txs@.len() as int));
                        if j == i as int {
                            assert(self.received_notes@[j].tx == orig[j].tx);
                            assert(self.received_notes@[j].spent == orig[j].spent);
                        }
                    }
                }
                Ok(i)
            },
            None => {
                let address = crate::types::copy_bytes(output.to());
                let memo = match output.memo() {
                    Some(m) => Some(crate::types::copy_bytes(m)),
                    None => None,
                };
                let row = NoteRow {
                    tx: tx_ref,
                    output_index,
                    account: output.account(),
                    address,
                    value: output.value(),
                    memo,
                    nf: crate::types::copy_bytes_opt(nf),
                    is_change: output.is_change(),
                    spent: None,
                };
                let i = self.received_notes.len();
                let ghost orig = self.received_notes@;
                self.received_notes.push(row);
                proof {
                    assert forall|j: int|
                        0 <= j < self.received_notes@.len() implies note_refs_ok(
                        #[trigger] self.received_notes@[j],
                        self.txs@.len() as int,
                    ) by {
                        if j < orig.len() {
                            assert(note_refs_ok(orig[j], self.txs@.len() as int));
                        }
                    }
                    assert forall|w: int|
                        0 <= w < self.witnesses@.len() implies (#[trigger] self.witnesses@[
                    w].note) < self.received_notes@.len() by {
                        assert(self.witnesses@[w].note < orig.len());
                    }
                }
                Ok(i)
            },
        }
    }

    /// Attaches a witness snapshot to a note at a height.  Snapshots for
    /// the same note at several heights coexist; only pruning and rewind
    /// remove them.
    pub fn insert_witness(&mut self, note_id: usize, witness: Vec<u8>, height: u32) -> (r:
        Result<(), Error>)
        requires
            old(self).well_formed(),
        ensures
            final(self).well_formed(),
            final(self).accounts == old(self).accounts,
            final(self).blocks == old(self).blocks,
            final(self).txs == old(self).txs,
            final(self).received_notes == old(self).received_notes,
            final(self).sent_notes == old(self).sent_notes,
            match r {
                Ok(()) => {
                    &&& note_id < old(self).received_notes@.len()
                    &&& final(self).witnesses@ == old(self).witnesses@.push(
                        (WitnessRow { note: note_id, block: height, witness }),
                    )
                },
                Err(e) => {
                    &&& e == Error::InvalidNoteRef
                    &&& note_id >= old(self).received_notes@.len()
                    &&& *final(self) == *old(self)
                },
            },
    {
        if note_id >= self.received_notes.len() {
            return Err(Error::InvalidNoteRef);
        }
        self.witnesses.push(WitnessRow { note: note_id, block: height, witness });
        Ok(())
    }

    /// Deletes every witness snapshot strictly below the given height — a
    /// storage-reclamation policy: snapshots below the retention floor can
    /// never serve a future anchor once superseded.
    pub fn prune_witnesses(&mut self, from_height: u32)
        requires
            old(self).well_formed(),
        ensures
            final(self).well_formed(),
            final(self).accounts == old(self).accounts,
            final(self).blocks == old(self).blocks,
            final(self).txs == old(self).txs,
            final(self).received_notes == old(self).received_notes,
            final(self).sent_notes == old(self).sent_notes,
            final(self).witnesses@ == pruned_witnesses_upto(
                old(self).witnesses@,
                from_height,
                old(self).witnesses@.len() as int,
            ),
    {
        let ghost orig = self.witnesses@;
        let n = self.witnesses.len();
        let mut w: usize = 0;
        let mut i: usize = 0;
        proof {
            assert(self.witnesses@.subrange(0, 0) =~= pruned_witnesses_upto(
                orig,
                from_height,
                0,
            ));
        }
        while i < n
            invariant
                w <= i <= n,
                n == self.witnesses@.len(),
                orig.len() == n,
                orig == old(self).witnesses@,
                self.witnesses@.subrange(0, w as int) == pruned_witnesses_upto(
                    orig,
                    from_height,
                    i as int,
                ),
                forall|j: int| i <= j < n ==> self.witnesses@[j] == orig[j],
                forall|a: int|
                    0 <= a < w ==> (#[trigger] self.witnesses@[a].note)
                        < self.received_notes@.len(),
                self.accounts == old(self).accounts,
                self.blocks == old(self).blocks,
                self.txs == old(self).txs,
                self.received_notes == old(self).received_notes,
                self.sent_notes == old(self).sent_notes,
                old(self).well_formed(),
            decreases n - i,
        {
            if self.witnesses[i].block >= from_height {
                proof {
                    assert(self.witnesses@[i as int] == orig[i as int]);
                    assert(orig[i as int].note < self.received_notes@.len());
                }
                if w != i {
                    let mut tmp = WitnessRow { note: 0, block: 0, witness: Vec::new() };
                    self.witnesses.set_and_swap(i, &mut tmp);
                    self.witnesses.set(w, tmp);
                }
                w += 1;
                proof {
                    assert(self.witnesses@.subrange(0, w as int) =~= pruned_witnesses_upto(
                        orig,
                        from_height,
                        i as int + 1,
                    ));
                }
            } else {
                proof {
                    assert(self.witnesses@.subrange(0, w as int) =~= pruned_witnesses_upto(
                        orig,
                        from_height,
                        i as int + 1,
                    ));
                }
            }
            i += 1;
        }
        let ghost before = self.witnesses@;
        self.witnesses.truncate(w);
        proof {
            assert(self.witnesses@ == before.subrange(0, w as int));
            assert forall|a: int|
                0 <= a < self.witnesses@.len() implies (#[trigger] self.witnesses@[a].note)
                < self.received_notes@.len() by {
                assert(self.witnesses@[a] == before[a]);
            }
        }
    }

    /// Records an authored output, updating the record already stored for
    /// the same transaction and output index if one exists, so repeated
    /// decryption of the same transaction keeps a single record per output.
    pub fn put_sent_note(
        &mut self,
        output: &crate::types::ShieldedOutput,
        tx_ref: usize,
    ) -> (r: Result<(), Error>)
        requires
            old(self).well_formed(),
        ensures
            final(self).well_formed(),
            final(self).accounts == old(self).accounts,
            final(self).blocks == old(self).blocks,
            final(self).txs == old(self).txs,
            final(self).received_notes == old(self).received_notes,
            final(self).witnesses == old(self).witnesses,
            match r {
                Ok(()) => {
                    &&& tx_ref < old(self).txs@.len()
                    &&& exists|i: int|
                        {
                            &&& 0 <= i < final(self).sent_notes@.len()
                            &&& (#[trigger] final(self).sent_notes@[i]).tx == tx_ref
                            &&& final(self).sent_notes@[i].output_index == output.spec_index()
                            &&& final(self).sent_notes@[i].from_account
                                == output.spec_account()
                            &&& final(self).sent_notes@[i].address@ == output.spec_to()
                            &&& final(self).sent_notes@[i].value == output.spec_value()
                            &&& crate::types::opt_bytes_view(final(self).sent_notes@[i].memo)
                                == output.spec_memo()
                            &&& forall|j: int|
                                0 <= j < final(self).sent_notes@.len() && j != i ==> final(self).sent_notes@[j] == old(self).sent_notes@[j]
                            &&& (final(self).sent_notes@.len() == old(self).sent_notes@.len()
                                || (i == old(self).sent_notes@.len() && final(self).sent_notes@.len() == old(self).sent_notes@.len() + 1))
                        }
                },
                Err(e) => {
                    &&& e == Error::InvalidTxRef
                    &&& tx_ref >= old(self).txs@.len()
                    &&& *final(self) == *old(self)
                },
            },
    {
        if tx_ref >= self.txs.len() {
            return Err(Error::InvalidTxRef);
        }
        let output_index = output.index();
        let memo = match output.memo() {
            Some(m) => Some(crate::types::copy_bytes(m)),
            None => None,
        };
        match find_sent_note(&self.sent_notes, tx_ref, output_index) {
            Some(i) => {
                let ghost orig = self.sent_notes@;
                self.sent_notes[i].from_account = output.account();
                self.sent_notes[i].address = crate::types::copy_bytes(output.to());
                self.sent_notes[i].value = output.value();
                self.sent_notes[i].memo = memo;
                proof {
                    assert forall|s: int|
                        0 <= s < self.sent_notes@.len() implies (#[trigger] self.sent_notes@[
                    s].tx) < self.txs@.len() by {
                        assert(orig[s].tx < self.txs@.len());
                        if s == i as int {
                            assert(self.sent_notes@[s].tx == orig[s].tx);
                        }
                    }
                    assert((i as int) < self.sent_notes@.len());
                }
                Ok(())
            },
            None => {
                let row = SentNoteRow {
                    tx: tx_ref,
                    output_index,
                    from_account: output.account(),
                    address: crate::types::copy_bytes(output.to()),
                    value: output.value(),
                    memo,
                };
                let ghost orig = self.sent_notes@;
                let ghost i = self.sent_notes@.len() as int;
                self.sent_notes.push(row);
                proof {
                    assert forall|s: int|
                        0 <= s < self.sent_notes@.len() implies (#[trigger] self.sent_notes@[
                    s].tx) < self.txs@.len() by {
                        if s < orig.len() {
                            assert(orig[s].tx < self.txs@.len());
                        }
                    }
                    assert((#[trigger] final(self).sent_notes@[i]).tx == tx_ref);
                }
                Ok(())
            },
        }
    }

    /// Appends a sent-note record for an authored output without looking
    /// for an existing record.
    pub fn insert_sent_note(
        &mut self,
        tx_ref: usize,
        output_index: usize,
        account: u32,
        to: &Vec<u8>,
        value: i64,
        memo: Option<Vec<u8>>,
    ) -> (r: Result<(), Error>)
        requires
            old(self).well_formed(),
        ensures
            final(self).well_formed(),
            final(self).accounts == old(self).accounts,
            final(self).blocks == old(self).blocks,
            final(self).txs == old(self).txs,
            final(self).received_notes == old(self).received_notes,
            final(self).witnesses == old(self).witnesses,
            match r {
                Ok(()) => {
                    &&& tx_ref < old(self).txs@.len()
                    &&& final(self).sent_notes@.len() == old(self).sent_notes@.len() + 1
                    &&& forall|j: int|
                        0 <= j < old(self).sent_notes@.len() ==> final(self).sent_notes@[j]
                            == old(self).sent_notes@[j]
                    &&& final(self).sent_notes@.last().tx == tx_ref
                    &&& final(self).sent_notes@.last().output_index == output_index
                    &&& final(self).sent_notes@.last().from_account == account
                    &&& final(self).sent_notes@.last().address@ == to@
                    &&& final(self).sent_notes@.last().value == value
                    &&& crate::types::opt_bytes_view(final(self).sent_notes@.last().memo)
                        == crate::types::opt_bytes_view(memo)
                },
                Err(e) => {
                    &&& e == Error::InvalidTxRef
                    &&& tx_ref >= old(self).txs@.len()
                    &&& *final(self) == *old(self)
                },
            },
    {
        if tx_ref >= self.txs.len() {
            return Err(Error::InvalidTxRef);
        }
        let ghost orig = self.sent_notes@;
        let row = SentNoteRow {
            tx: tx_ref,
            output_index,
            from_account: account,
            address: crate::types::copy_bytes(to),
            value,
            memo,
        };
        self.sent_notes.push(row);
        proof {
            assert forall|s: int|
                0 <= s < self.sent_notes@.len() implies (#[trigger] self.sent_notes@[s].tx)
                < self.txs@.len() by {
                if s < orig.len() {
                    assert(orig[s].tx < self.txs@.len());
                }
            }
        }
        Ok(())
    }
}

/// The note with its spent state replaced.
pub open spec fn with_spent(r: NoteRow, s: Option<usize>) -> NoteRow {
    NoteRow { spent: s, ..r }
}

/// True when marking this nullifier as spent hits the note: the note is
/// currently unspent and carries exactly this nullifier.
pub open spec fn marks(r: NoteRow, nf: Seq<u8>) -> bool {
    &&& r.spent is None
    &&& match r.nf {
        Some(v) => v@ == nf,
        None => false,
    }
}

/// The note table after marking the nullifier spent by `tx_ref`: every
/// unspent note carrying the nullifier becomes spent; nothing else changes.
pub open spec fn spec_mark_spent(notes: Seq<NoteRow>, nf: Seq<u8>, tx_ref: usize) -> Seq<NoteRow> {
    notes.map_values(
        |r: NoteRow| if marks(r, nf) {
            with_spent(r, Some(tx_ref))
        } else {
            r
        },
    )
}

/// True when the note's spent state must be reverted at height `h`: its
/// spending transaction is unmined and expired strictly before `h`.
pub open spec fn expired_reverts(r: NoteRow, txs: Seq<TxRow>, h: u32) -> bool {
    match r.spent {
        Some(t) => t < txs.len() && txs[t as int].block is None && match txs[t as int].expiry_height {
            Some(e) => e < h,
            None => false,
        },
        None => false,
    }
}

/// The note table after reverting the spent state of notes whose spending
/// transaction expired unmined before height `h`.
pub open spec fn spec_update_expired(notes: Seq<NoteRow>, txs: Seq<TxRow>, h: u32) -> Seq<
    NoteRow,
> {
    notes.map_values(
        |r: NoteRow| if expired_reverts(r, txs, h) {
            with_spent(r, None)
        } else {
            r
        },
    )
}

/// The transaction with its mined position set.
pub open spec fn with_tx_meta(t: TxRow, height: u32, idx: u32) -> TxRow {
    TxRow { block: Some(height), tx_index: Some(idx), ..t }
}

/// The witness rows at heights at or above `h` among the first `n` rows, in
/// table order.
pub open spec fn pruned_witnesses_upto(ws: Seq<WitnessRow>, h: u32, n: int) -> Seq<WitnessRow>
    decreases n,
{
    if n <= 0 {
        Seq::empty()
    } else {
        let prev = pruned_witnesses_upto(ws, h, n - 1);
        if ws[n - 1].block >= h {
            prev.push(ws[n - 1])
        } else {
            prev
        }
    }
}

/// The anchor height for a given target height and earliest stored height:
/// `ANCHOR_OFFSET` blocks behind the target, floored at zero, but never
/// before the earliest stored block.
pub open spec fn spec_anchor(target: u32, mn: u32) -> u32 {
    let backed: u32 = if target >= crate::types::ANCHOR_OFFSET {
        (target - crate::types::ANCHOR_OFFSET) as u32
    } else {
        0u32
    };
    if backed >= mn {
        backed
    } else {
        mn
    }
}

/// Returns the index of the first stored note created by the transaction
/// at the given output index, if any.
fn find_note(notes: &Vec<NoteRow>, tx_ref: usize, output_index: usize) -> (r: Option<usize>)
    ensures
        match r {
            Some(i) => i < notes@.len() && notes@[i as int].tx == tx_ref && notes@[
                i as int
            ].output_index == output_index && forall|j: int|
                0 <= j < i ==> !((#[trigger] notes@[j]).tx == tx_ref && notes@[j].output_index
                    == output_index),
            None => forall|j: int|
                0 <= j < notes@.len() ==> !((#[trigger] notes@[j]).tx == tx_ref
                    && notes@[j].output_index == output_index),
        },
{
    let mut i: usize = 0;
    while i < notes.len()
        invariant
            i <= notes@.len(),
            forall|j: int|
                0 <= j < i ==> !((#[trigger] notes@[j]).tx == tx_ref && notes@[j].output_index
                    == output_index),
        decreases notes@.len() - i,
    {
        if notes[i].tx == tx_ref && notes[i].output_index == output_index {
            return Some(i);
        }
        i += 1;
    }
    None
}

/// Returns the index of the first sent-note record of the transaction at
/// the given output index, if any.
fn find_sent_note(notes: &Vec<SentNoteRow>, tx_ref: usize, output_index: usize) -> (r: Option<
    usize,
>)
    ensures
        match r {
            Some(i) => i < notes@.len() && notes@[i as int].tx == tx_ref && notes@[
                i as int
            ].output_index == output_index && forall|j: int|
                0 <= j < i ==> !((#[trigger] notes@[j]).tx == tx_ref && notes@[j].output_index
                    == output_index),
            None => forall|j: int|
                0 <= j < notes@.len() ==> !((#[trigger] notes@[j]).tx == tx_ref
                    && notes@[j].output_index == output_index),
        },
{
    let mut i: usize = 0;
    while i < notes.len()
        invariant
            i <= notes@.len(),
            forall|j: int|
                0 <= j < i ==> !((#[trigger] notes@[j]).tx == tx_ref && notes@[j].output_index
                    == output_index),
        decreases notes@.len() - i,
    {
        if notes[i].tx == tx_ref && notes[i].output_index == output_index {
            return Some(i);
        }
        i += 1;
    }
    None
}

/// Looks up the index of the stored block at the given height.
pub fn find_block(blocks: &Vec<BlockRow>, height: u32) -> (r: Option<usize>)
    ensures
        match r {
            Some(i) => i < blocks@.len() && blocks@[i as int].height == height,
            None => !has_block_at(blocks@, height),
        },
{
    let mut i: usize = 0;
    while i < blocks.len()
        invariant
            i <= blocks@.len(),
            forall|j: int| 0 <= j < i ==> blocks@[j].height != height,
        decreases blocks@.len() - i,
    {
        if blocks[i].height == height {
            return Some(i);
        }
        i += 1;
    }
    None
}

} // verus!
