//! The backend-agnostic storage interface.
//!
//! `WalletRead` is the query surface and `WalletWrite` the transactional
//! mutation surface of a wallet data store.  A backend exposes its
//! abstract state — the six tables — through spec-level models, and every
//! operation's contract is stated over those models, so wallet operations
//! built on the traits are abstracted from the storage substrate without
//! losing the store's guarantees.  `WalletDb`, the in-memory backend,
//! implements both.

use vstd::prelude::*;

use crate::select::{selection_upto, spendable_note_ok, SpendableNote};
use crate::store::{
    has_block_at, spec_anchor, spec_extrema, spec_mark_spent, spec_update_expired, with_tx_meta,
    AccountRow, BlockRow, NoteRow, SentNoteRow, TxRow, WalletDb, WitnessRow,
};
use crate::types::{opt_bytes_view, Error, ShieldedOutput};
use crate::wallet::{
    balance_upto, kept_blocks_upto, kept_witnesses_upto, nf_pairs_view, pairs_view,
    spec_last_scanned, spec_nullifiers, spec_witnesses_at, unmined_after,
};

verus! {

/// Read-only operations required for light-wallet functions, abstracted
/// from the data storage substrate.
pub trait WalletRead {
    /// The accounts of the backend's abstract state, keyed by account id.
    spec fn accounts_model(&self) -> Seq<AccountRow>;

    /// The stored blocks of the backend's abstract state.
    spec fn blocks_model(&self) -> Seq<BlockRow>;

    /// The transactions of the backend's abstract state, keyed by
    /// transaction reference.
    spec fn txs_model(&self) -> Seq<TxRow>;

    /// The received notes of the backend's abstract state, keyed by note
    /// reference.
    spec fn notes_model(&self) -> Seq<NoteRow>;

    /// The witness snapshots of the backend's abstract state.
    spec fn witnesses_model(&self) -> Seq<WitnessRow>;

    /// The sent-note records of the backend's abstract state.
    spec fn sent_notes_model(&self) -> Seq<SentNoteRow>;

    /// Referential consistency of the abstract state.
    spec fn inv(&self) -> bool;

    /// Returns the minimum and maximum stored block heights, or absence
    /// when no block has been scanned.
    fn block_height_extrema(&self) -> (r: Option<(u32, u32)>)
        requires
            self.inv(),
        ensures
            r == spec_extrema(self.blocks_model()),
    ;

    /// Returns the default target height for a new transaction and the
    /// anchor height its spend proofs should be built against.
    fn get_target_and_anchor_heights(&self) -> (r: Option<(u32, u32)>)
        requires
            self.inv(),
        ensures
            match (r, spec_extrema(self.blocks_model())) {
                (None, None) => true,
                (Some(ta), Some(ex)) => ta.0 == ex.1 + 1 && ta.1 == spec_anchor(ta.0, ex.0),
                _ => false,
            },
    ;

    /// Returns the greatest stored block height with that block's hash, or
    /// absence when no block has been scanned.
    fn get_max_height_hash(&self) -> (r: Option<(u32, Vec<u8>)>)
        requires
            self.inv(),
        ensures
            match (r, spec_extrema(self.blocks_model())) {
                (None, None) => true,
                (Some(p), Some(ex)) => p.0 == ex.1 && exists|i: int|
                    0 <= i < self.blocks_model().len() && (#[trigger] self.blocks_model()[
                    i]).height == ex.1 && p.1@ == self.blocks_model()[i].hash@,
                _ => false,
            },
    ;

    /// Returns the hash of the stored block at the given height, or
    /// absence when that height was never scanned.
    fn get_block_hash(&self, block_height: u32) -> (r: Option<Vec<u8>>)
        requires
            self.inv(),
        ensures
            match r {
                Some(v) => exists|i: int|
                    0 <= i < self.blocks_model().len() && (#[trigger] self.blocks_model()[
                    i]).height == block_height && v@ == self.blocks_model()[i].hash@,
                None => !has_block_at(self.blocks_model(), block_height),
            },
    ;

    /// Returns the height the transaction with the given id is mined at,
    /// or absence when the id is unknown or the transaction is unmined.
    fn get_tx_height(&self, txid: &Vec<u8>) -> (r: Option<u32>)
        requires
            self.inv(),
        ensures
            match r {
                Some(h) => exists|i: int|
                    0 <= i < self.txs_model().len() && (#[trigger] self.txs_model()[i]).txid@
                        == txid@ && self.txs_model()[i].block == Some(h),
                None => forall|i: int|
                    0 <= i < self.txs_model().len() && (#[trigger] self.txs_model()[i]).txid@
                        == txid@ ==> self.txs_model()[i].block is None,
            },
    ;

    /// Returns the encoded payment address of the account, or an error
    /// when the account id is unknown.
    fn get_address(&self, account: u32) -> (r: Result<Vec<u8>, Error>)
        requires
            self.inv(),
        ensures
            match r {
                Ok(a) => account < self.accounts_model().len() && a@ == self.accounts_model()[
                    account as int
                ].address@,
                Err(e) => e == Error::AccountUnknown && account >= self.accounts_model().len(),
            },
    ;

    /// Returns every account's encoded extended full viewing key, paired
    /// with its account id, ordered by account id ascending.
    fn get_extended_full_viewing_keys(&self) -> (r: Vec<(u32, Vec<u8>)>)
        requires
            self.inv(),
            self.accounts_model().len() <= u32::MAX,
        ensures
            r@.len() == self.accounts_model().len(),
            forall|i: int|
                0 <= i < r@.len() ==> (#[trigger] r@[i]).0 == i && r@[i].1@
                    == self.accounts_model()[i].extfvk@,
    ;

    /// True exactly when the account is known and its stored viewing key
    /// matches the given one byte for byte.
    fn is_valid_account_extfvk(&self, account: u32, extfvk: &Vec<u8>) -> (r: bool)
        requires
            self.inv(),
        ensures
            r == (account < self.accounts_model().len() && self.accounts_model()[
                account as int
            ].extfvk@ == extfvk@),
    ;

    /// Returns the account's raw balance over all mined, unspent notes.
    fn get_balance(&self, account: u32) -> (r: Result<i64, Error>)
        requires
            self.inv(),
        ensures
            ({
                let total = balance_upto(
                    self.notes_model(),
                    self.txs_model(),
                    account,
                    None,
                    self.notes_model().len() as int,
                );
                match r {
                    Ok(a) => a == total && 0 <= total <= crate::types::MAX_MONEY,
                    Err(e) => e == Error::CorruptedData && !(0 <= total
                        <= crate::types::MAX_MONEY),
                }
            }),
    ;

    /// Returns the account's balance over unspent notes mined at or
    /// before the anchor height.
    fn get_verified_balance(&self, account: u32, anchor_height: u32) -> (r: Result<i64, Error>)
        requires
            self.inv(),
        ensures
            ({
                let total = balance_upto(
                    self.notes_model(),
                    self.txs_model(),
                    account,
                    Some(anchor_height),
                    self.notes_model().len() as int,
                );
                match r {
                    Ok(a) => a == total && 0 <= total <= crate::types::MAX_MONEY,
                    Err(e) => e == Error::CorruptedData && !(0 <= total
                        <= crate::types::MAX_MONEY),
                }
            }),
    ;

    /// Returns the serialized commitment tree snapshotted at the given
    /// height, or absence when that height was never scanned.
    fn get_commitment_tree(&self, block_height: u32) -> (r: Option<Vec<u8>>)
        requires
            self.inv(),
        ensures
            match r {
                Some(v) => exists|i: int|
                    0 <= i < self.blocks_model().len() && (#[trigger] self.blocks_model()[
                    i]).height == block_height && v@ == self.blocks_model()[i].sapling_tree@,
                None => !has_block_at(self.blocks_model(), block_height),
            },
    ;

    /// Returns the witness snapshots taken at the given height, each
    /// paired with the witnessed note's reference.
    fn get_witnesses(&self, block_height: u32) -> (r: Vec<(usize, Vec<u8>)>)
        requires
            self.inv(),
        ensures
            pairs_view(r@) == spec_witnesses_at(self.witnesses_model(), block_height),
    ;

    /// Returns the nullifiers of all currently-unspent notes, each paired
    /// with the owning account.
    fn get_nullifiers(&self) -> (r: Vec<(Vec<u8>, u32)>)
        requires
            self.inv(),
        ensures
            nf_pairs_view(r@) == spec_nullifiers(self.notes_model()),
    ;

    /// Returns a subset of the account's spendable notes covering the
    /// target value, or an insufficient-funds error.
    fn select_spendable_notes(&self, account: u32, target_value: i64, anchor_height: u32) -> (r:
        Result<Vec<SpendableNote>, Error>)
        requires
            self.inv(),
        ensures
            ({
                let sel = selection_upto(
                    self.notes_model(),
                    self.txs_model(),
                    self.witnesses_model(),
                    account,
                    anchor_height,
                    target_value as int,
                    self.notes_model().len() as int,
                );
                match r {
                    Ok(v) => {
                        &&& sel.1 >= target_value
                        &&& v@.len() == sel.0.len()
                        &&& forall|j: int|
                            0 <= j < sel.0.len() ==> spendable_note_ok(
                                #[trigger] v@[j],
                                sel.0[j],
                                self.notes_model(),
                                self.witnesses_model(),
                                anchor_height,
                            )
                    },
                    Err(e) => e == Error::InsufficientFunds && sel.1 < target_value,
                }
            }),
    ;
}

/// The write capabilities required to update stored wallet data.  Every
/// operation is atomic: it either completes its contract or fails leaving
/// the abstract state exactly as it was.
pub trait WalletWrite: WalletRead {
    /// Appends a scanned block.
    fn insert_block(&mut self, height: u32, hash: Vec<u8>, time: u32, sapling_tree: Vec<u8>) -> (r:
        Result<(), Error>)
        requires
            old(self).inv(),
        ensures
            final(self).inv(),
            match r {
                Ok(()) => {
                    &&& height < u32::MAX
                    &&& !has_block_at(old(self).blocks_model(), height)
                    &&& final(self).blocks_model() == old(self).blocks_model().push(
                        (BlockRow { height, hash, time, sapling_tree }),
                    )
                    &&& final(self).txs_model() == old(self).txs_model()
                    &&& final(self).notes_model() == old(self).notes_model()
                    &&& final(self).witnesses_model() == old(self).witnesses_model()
                },
                Err(e) => {
                    &&& final(self).blocks_model() == old(self).blocks_model()
                    &&& (e == Error::HeightOutOfRange <==> height == u32::MAX)
                    &&& (e == Error::DuplicateBlock <==> height < u32::MAX && has_block_at(
                        old(self).blocks_model(),
                        height,
                    ))
                    &&& (e == Error::HeightOutOfRange || e == Error::DuplicateBlock)
                },
            },
    ;

    /// Rewinds the store to the given height: witnesses above it are
    /// deleted, transactions mined above it revert to unmined, and blocks
    /// above it are deleted; nothing else changes.
    fn rewind_to_height(&mut self, sapling_activation: Option<u32>, block_height: u32) -> (r:
        Result<(), Error>)
        requires
            old(self).inv(),
        ensures
            final(self).inv(),
            match r {
                Ok(()) => {
                    &&& sapling_activation is Some
                    &&& if block_height as int >= spec_last_scanned(
                        old(self).blocks_model(),
                        sapling_activation->Some_0,
                    ) {
                        &&& final(self).blocks_model() == old(self).blocks_model()
                        &&& final(self).txs_model() == old(self).txs_model()
                        &&& final(self).witnesses_model() == old(self).witnesses_model()
                        &&& final(self).notes_model() == old(self).notes_model()
                        &&& final(self).sent_notes_model() == old(self).sent_notes_model()
                    } else {
                        &&& final(self).witnesses_model() == kept_witnesses_upto(
                            old(self).witnesses_model(),
                            block_height,
                            old(self).witnesses_model().len() as int,
                        )
                        &&& final(self).txs_model().len() == old(self).txs_model().len()
                        &&& forall|j: int|
                            0 <= j < old(self).txs_model().len() ==> final(self).txs_model()[j]
                                == unmined_after(
                                #[trigger] old(self).txs_model()[j],
                                block_height,
                            )
                        &&& final(self).blocks_model() == kept_blocks_upto(
                            old(self).blocks_model(),
                            block_height,
                            old(self).blocks_model().len() as int,
                        )
                        &&& final(self).notes_model() == old(self).notes_model()
                        &&& final(self).sent_notes_model() == old(self).sent_notes_model()
                    }
                },
                Err(e) => {
                    &&& e == Error::SaplingNotActive
                    &&& sapling_activation is None
                    &&& final(self).blocks_model() == old(self).blocks_model()
                    &&& final(self).txs_model() == old(self).txs_model()
                    &&& final(self).witnesses_model() == old(self).witnesses_model()
                    &&& final(self).notes_model() == old(self).notes_model()
                    &&& final(self).sent_notes_model() == old(self).sent_notes_model()
                },
            },
    ;

    /// Records that a transaction is mined at a stored height, and
    /// returns its reference.
    fn put_tx_meta(&mut self, txid: &Vec<u8>, tx_index: u32, height: u32) -> (r: Result<
        usize,
        Error,
    >)
        requires
            old(self).inv(),
        ensures
            final(self).inv(),
            final(self).blocks_model() == old(self).blocks_model(),
            final(self).notes_model() == old(self).notes_model(),
            final(self).witnesses_model() == old(self).witnesses_model(),
            final(self).sent_notes_model() == old(self).sent_notes_model(),
            match r {
                Ok(i) => {
                    &&& has_block_at(old(self).blocks_model(), height)
                    &&& i < final(self).txs_model().len()
                    &&& if i < old(self).txs_model().len() {
                        &&& old(self).txs_model()[i as int].txid@ == txid@
                        &&& final(self).txs_model() == old(self).txs_model().update(
                            i as int,
                            with_tx_meta(old(self).txs_model()[i as int], height, tx_index),
                        )
                    } else {
                        &&& i == old(self).txs_model().len()
                        &&& final(self).txs_model().len() == old(self).txs_model().len() + 1
                        &&& final(self).txs_model().last().txid@ == txid@
                        &&& final(self).txs_model().last().block == Some(height)
                        &&& final(self).txs_model().last().tx_index == Some(tx_index)
                    }
                },
                Err(e) => {
                    &&& e == Error::InvalidHeight
                    &&& !has_block_at(old(self).blocks_model(), height)
                    &&& final(self).txs_model() == old(self).txs_model()
                },
            },
    ;

    /// Records the full contents of a transaction, and returns its
    /// reference.
    fn put_tx_data(&mut self, txid: &Vec<u8>, expiry_height: u32, raw: &Vec<u8>, created: Option<
        i64,
    >) -> (r: usize)
        requires
            old(self).inv(),
        ensures
            final(self).inv(),
            final(self).blocks_model() == old(self).blocks_model(),
            final(self).notes_model() == old(self).notes_model(),
            final(self).witnesses_model() == old(self).witnesses_model(),
            final(self).sent_notes_model() == old(self).sent_notes_model(),
            r < final(self).txs_model().len(),
            final(self).txs_model()[r as int].txid@ == txid@,
            final(self).txs_model()[r as int].expiry_height == Some(expiry_height),
            opt_bytes_view(final(self).txs_model()[r as int].raw) == Some(raw@),
            final(self).txs_model()[r as int].created == created,
    ;

    /// Marks the unspent note carrying the nullifier as spent by the
    /// transaction; a nullifier no unspent note carries is a harmless
    /// no-op.
    fn mark_spent(&mut self, tx_ref: usize, nf: &Vec<u8>) -> (r: Result<(), Error>)
        requires
            old(self).inv(),
        ensures
            final(self).inv(),
            final(self).blocks_model() == old(self).blocks_model(),
            final(self).txs_model() == old(self).txs_model(),
            final(self).witnesses_model() == old(self).witnesses_model(),
            final(self).sent_notes_model() == old(self).sent_notes_model(),
            match r {
                Ok(()) => {
                    &&& tx_ref < old(self).txs_model().len()
                    &&& final(self).notes_model() == spec_mark_spent(
                        old(self).notes_model(),
                        nf@,
                        tx_ref,
                    )
                },
                Err(e) => {
                    &&& e == Error::InvalidTxRef
                    &&& tx_ref >= old(self).txs_model().len()
                    &&& final(self).notes_model() == old(self).notes_model()
                },
            },
    ;

    /// Records a received shielded output as a note, updating the note
    /// already stored for the same transaction and output index if one
    /// exists, and returns the note's reference.
    fn put_received_note(&mut self, output: &ShieldedOutput, nf: &Option<Vec<u8>>, tx_ref: usize) -> (r:
        Result<usize, Error>)
        requires
            old(self).inv(),
        ensures
            final(self).inv(),
            final(self).blocks_model() == old(self).blocks_model(),
            final(self).txs_model() == old(self).txs_model(),
            final(self).witnesses_model() == old(self).witnesses_model(),
            final(self).sent_notes_model() == old(self).sent_notes_model(),
            match r {
                Ok(i) => {
                    &&& tx_ref < old(self).txs_model().len()
                    &&& i < final(self).notes_model().len()
                    &&& final(self).notes_model().len() == if i < old(
                        self,
                    ).notes_model().len() {
                        old(self).notes_model().len()
                    } else {
                        old(self).notes_model().len() + 1
                    }
                    &&& final(self).notes_model()[i as int].tx == tx_ref
                    &&& final(self).notes_model()[i as int].output_index == output.spec_index()
                    &&& final(self).notes_model()[i as int].account == output.spec_account()
                    &&& final(self).notes_model()[i as int].address@ == output.spec_to()
                    &&& final(self).notes_model()[i as int].value == output.spec_value()
                    &&& opt_bytes_view(final(self).notes_model()[i as int].nf) == opt_bytes_view(
                        *nf,
                    )
                },
                Err(e) => {
                    &&& e == Error::InvalidTxRef
                    &&& tx_ref >= old(self).txs_model().len()
                    &&& final(self).notes_model() == old(self).notes_model()
                },
            },
    ;

    /// Attaches a witness snapshot to a note at a height.
    fn insert_witness(&mut self, note_id: usize, witness: Vec<u8>, height: u32) -> (r: Result<
        (),
        Error,
    >)
        requires
            old(self).inv(),
        ensures
            final(self).inv(),
            final(self).blocks_model() == old(self).blocks_model(),
            final(self).txs_model() == old(self).txs_model(),
            final(self).notes_model() == old(self).notes_model(),
            final(self).sent_notes_model() == old(self).sent_notes_model(),
            match r {
                Ok(()) => {
                    &&& note_id < old(self).notes_model().len()
                    &&& final(self).witnesses_model() == old(self).witnesses_model().push(
                        (WitnessRow { note: note_id, block: height, witness }),
                    )
                },
                Err(e) => {
                    &&& e == Error::InvalidNoteRef
                    &&& note_id >= old(self).notes_model().len()
                    &&& final(self).witnesses_model() == old(self).witnesses_model()
                },
            },
    ;

    /// Deletes every witness snapshot strictly below the given height.
    fn prune_witnesses(&mut self, from_height: u32)
        requires
            old(self).inv(),
        ensures
            final(self).inv(),
            final(self).blocks_model() == old(self).blocks_model(),
            final(self).txs_model() == old(self).txs_model(),
            final(self).notes_model() == old(self).notes_model(),
            final(self).sent_notes_model() == old(self).sent_notes_model(),
            final(self).witnesses_model() == crate::store::pruned_witnesses_upto(
                old(self).witnesses_model(),
                from_height,
                old(self).witnesses_model().len() as int,
            ),
    ;

    /// Reverts to unspent every note whose spending transaction expired
    /// unmined strictly before the given height.
    fn update_expired_notes(&mut self, from_height: u32)
        requires
            old(self).inv(),
        ensures
            final(self).inv(),
            final(self).blocks_model() == old(self).blocks_model(),
            final(self).txs_model() == old(self).txs_model(),
            final(self).witnesses_model() == old(self).witnesses_model(),
            final(self).sent_notes_model() == old(self).sent_notes_model(),
            final(self).notes_model() == spec_update_expired(
                old(self).notes_model(),
                old(self).txs_model(),
                from_height,
            ),
    ;

    /// Records an authored output, updating the record already stored for
    /// the same transaction and output index if one exists.
    fn put_sent_note(&mut self, output: &ShieldedOutput, tx_ref: usize) -> (r: Result<(), Error>)
        requires
            old(self).inv(),
        ensures
            final(self).inv(),
            final(self).blocks_model() == old(self).blocks_model(),
            final(self).txs_model() == old(self).txs_model(),
            final(self).notes_model() == old(self).notes_model(),
            final(self).witnesses_model() == old(self).witnesses_model(),
            match r {
                Ok(()) => {
                    &&& tx_ref < old(self).txs_model().len()
                    &&& exists|i: int|
                        {
                            &&& 0 <= i < final(self).sent_notes_model().len()
                            &&& (#[trigger] final(self).sent_notes_model()[i]).tx == tx_ref
                            &&& final(self).sent_notes_model()[i].output_index
                                == output.spec_index()
                            &&& final(self).sent_notes_model()[i].from_account
                                == output.spec_account()
                            &&& final(self).sent_notes_model()[i].address@ == output.spec_to()
                            &&& final(self).sent_notes_model()[i].value == output.spec_value()
                            &&& opt_bytes_view(final(self).sent_notes_model()[i].memo)
                                == output.spec_memo()
                        }
                },
                Err(e) => {
                    &&& e == Error::InvalidTxRef
                    &&& tx_ref >= old(self).txs_model().len()
                    &&& final(self).sent_notes_model() == old(self).sent_notes_model()
                },
            },
    ;

    /// Appends a sent-note record for an authored output.
    fn insert_sent_note(
        &mut self,
        tx_ref: usize,
        output_index: usize,
        account: u32,
        to: &Vec<u8>,
        value: i64,
        memo: Option<Vec<u8>>,
    ) -> (r: Result<(), Error>)
        requires
            old(self).inv(),
        ensures
            final(self).inv(),
            final(self).blocks_model() == old(self).blocks_model(),
            final(self).txs_model() == old(self).txs_model(),
            final(self).notes_model() == old(self).notes_model(),
            final(self).witnesses_model() == old(self).witnesses_model(),
            match r {
                Ok(()) => {
                    &&& tx_ref < old(self).txs_model().len()
                    &&& final(self).sent_notes_model().len() == old(
                        self,
                    ).sent_notes_model().len() + 1
                    &&& final(self).sent_notes_model().last().tx == tx_ref
                    &&& final(self).sent_notes_model().last().output_index == output_index
                    &&& final(self).sent_notes_model().last().from_account == account
                    &&& final(self).sent_notes_model().last().address@ == to@
                    &&& final(self).sent_notes_model().last().value == value
                    &&& opt_bytes_view(final(self).sent_notes_model().last().memo)
                        == opt_bytes_view(memo)
                },
                Err(e) => {
                    &&& e == Error::InvalidTxRef
                    &&& tx_ref >= old(self).txs_model().len()
                    &&& final(self).sent_notes_model() == old(self).sent_notes_model()
                },
            },
    ;
}

impl WalletRead for WalletDb {
    open spec fn accounts_model(&self) -> Seq<AccountRow> {
        self.accounts@
    }

    open spec fn blocks_model(&self) -> Seq<BlockRow> {
        self.blocks@
    }

    open spec fn txs_model(&self) -> Seq<TxRow> {
        self.txs@
    }

    open spec fn notes_model(&self) -> Seq<NoteRow> {
        self.received_notes@
    }

    open spec fn witnesses_model(&self) -> Seq<WitnessRow> {
        self.witnesses@
    }

    open spec fn sent_notes_model(&self) -> Seq<SentNoteRow> {
        self.sent_notes@
    }

    open spec fn inv(&self) -> bool {
        self.well_formed()
    }

    fn block_height_extrema(&self) -> (r: Option<(u32, u32)>) {
        crate::wallet::block_height_extrema(self)
    }

    fn get_target_and_anchor_heights(&self) -> (r: Option<(u32, u32)>) {
        WalletDb::get_target_and_anchor_heights(self)
    }

    fn get_max_height_hash(&self) -> (r: Option<(u32, Vec<u8>)>) {
        let r = WalletDb::get_max_height_hash(self);
        proof {
            match &r {
                Some(p) => {
                    let ex = spec_extrema(self.blocks@)->Some_0;
                    let wi = choose|i: int|
                        0 <= i < self.blocks@.len() && (#[trigger] self.blocks@[i]).height
                            == ex.1 && p.1@ == self.blocks@[i].hash@;
                    assert((#[trigger] self.blocks_model()[wi]).height == ex.1);
                },
                None => {},
            }
        }
        r
    }

    fn get_block_hash(&self, block_height: u32) -> (r: Option<Vec<u8>>) {
        let r = crate::wallet::get_block_hash(self, block_height);
        proof {
            match &r {
                Some(v) => {
                    let wi = choose|i: int|
                        0 <= i < self.blocks@.len() && (#[trigger] self.blocks@[i]).height
                            == block_height && v@ == self.blocks@[i].hash@;
                    assert((#[trigger] self.blocks_model()[wi]).height == block_height);
                },
                None => {},
            }
        }
        r
    }

    fn get_tx_height(&self, txid: &Vec<u8>) -> (r: Option<u32>) {
        crate::wallet::get_tx_height(self, txid)
    }

    fn get_address(&self, account: u32) -> (r: Result<Vec<u8>, Error>) {
        crate::wallet::get_address(self, account)
    }

    fn get_extended_full_viewing_keys(&self) -> (r: Vec<(u32, Vec<u8>)>) {
        crate::wallet::get_extended_full_viewing_keys(self)
    }

    fn is_valid_account_extfvk(&self, account: u32, extfvk: &Vec<u8>) -> (r: bool) {
        crate::wallet::is_valid_account_extfvk(self, account, extfvk)
    }

    fn get_balance(&self, account: u32) -> (r: Result<i64, Error>) {
        crate::wallet::get_balance(self, account)
    }

    fn get_verified_balance(&self, account: u32, anchor_height: u32) -> (r: Result<i64, Error>) {
        crate::wallet::get_verified_balance(self, account, anchor_height)
    }

    fn get_commitment_tree(&self, block_height: u32) -> (r: Option<Vec<u8>>) {
        let r = crate::wallet::get_commitment_tree(self, block_height);
        proof {
            match &r {
                Some(v) => {
                    let wi = choose|i: int|
                        0 <= i < self.blocks@.len() && (#[trigger] self.blocks@[i]).height
                            == block_height && v@ == self.blocks@[i].sapling_tree@;
                    assert((#[trigger] self.blocks_model()[wi]).height == block_height);
                },
                None => {},
            }
        }
        r
    }

    fn get_witnesses(&self, block_height: u32) -> (r: Vec<(usize, Vec<u8>)>) {
        crate::wallet::get_witnesses(self, block_height)
    }

    fn get_nullifiers(&self) -> (r: Vec<(Vec<u8>, u32)>) {
        crate::wallet::get_nullifiers(self)
    }

    fn select_spendable_notes(&self, account: u32, target_value: i64, anchor_height: u32) -> (r:
        Result<Vec<SpendableNote>, Error>) {
        crate::select::select_spendable_notes(self, account, target_value, anchor_height)
    }
}

impl WalletWrite for WalletDb {
    fn insert_block(&mut self, height: u32, hash: Vec<u8>, time: u32, sapling_tree: Vec<u8>) -> (r:
        Result<(), Error>) {
        WalletDb::insert_block(self, height, hash, time, sapling_tree)
    }

    fn rewind_to_height(&mut self, sapling_activation: Option<u32>, block_height: u32) -> (r:
        Result<(), Error>) {
        crate::wallet::rewind_to_height(self, sapling_activation, block_height)
    }

    fn put_tx_meta(&mut self, txid: &Vec<u8>, tx_index: u32, height: u32) -> (r: Result<
        usize,
        Error,
    >) {
        WalletDb::put_tx_meta(self, txid, tx_index, height)
    }

    fn put_tx_data(&mut self, txid: &Vec<u8>, expiry_height: u32, raw: &Vec<u8>, created: Option<
        i64,
    >) -> (r: usize) {
        WalletDb::put_tx_data(self, txid, expiry_height, raw, created)
    }

    fn mark_spent(&mut self, tx_ref: usize, nf: &Vec<u8>) -> (r: Result<(), Error>) {
        WalletDb::mark_spent(self, tx_ref, nf)
    }

    fn put_received_note(&mut self, output: &ShieldedOutput, nf: &Option<Vec<u8>>, tx_ref: usize) -> (r:
        Result<usize, Error>) {
        WalletDb::put_received_note(self, output, nf, tx_ref)
    }

    fn insert_witness(&mut self, note_id: usize, witness: Vec<u8>, height: u32) -> (r: Result<
        (),
        Error,
    >) {
        WalletDb::insert_witness(self, note_id, witness, height)
    }

    fn prune_witnesses(&mut self, from_height: u32) {
        WalletDb::prune_witnesses(self, from_height)
    }

    fn update_expired_notes(&mut self, from_height: u32) {
        WalletDb::update_expired_notes(self, from_height)
    }

    fn put_sent_note(&mut self, output: &ShieldedOutput, tx_ref: usize) -> (r: Result<(), Error>) {
        let r = WalletDb::put_sent_note(self, output, tx_ref);
        proof {
            if r is Ok {
                let wi = choose|i: int|
                    {
                        &&& 0 <= i < self.sent_notes@.len()
                        &&& (#[trigger] self.sent_notes@[i]).tx == tx_ref
                        &&& self.sent_notes@[i].output_index == output.spec_index()
                        &&& self.sent_notes@[i].from_account == output.spec_account()
                        &&& self.sent_notes@[i].address@ == output.spec_to()
                        &&& self.sent_notes@[i].value == output.spec_value()
                        &&& opt_bytes_view(self.sent_notes@[i].memo) == output.spec_memo()
                    };
                assert((#[trigger] self.sent_notes_model()[wi]).tx == tx_ref);
            }
        }
        r
    }

    fn insert_sent_note(
        &mut self,
        tx_ref: usize,
        output_index: usize,
        account: u32,
        to: &Vec<u8>,
        value: i64,
        memo: Option<Vec<u8>>,
    ) -> (r: Result<(), Error>) {
        WalletDb::insert_sent_note(self, tx_ref, output_index, account, to, value, memo)
    }
}

} // verus!
