//! Plain-value domain types shared by the whole store.
//!
//! Chain heights are `u32`, note values are `i64` zatoshis, and the opaque
//! cryptographic objects of the protocol (block hashes, transaction ids,
//! nullifiers, viewing keys, payment addresses, serialized commitment trees
//! and witnesses) are carried as byte vectors: the store records and compares
//! them but never computes on their contents.

use vstd::prelude::*;

verus! {

/// Number of confirmations a block must have before its commitment-tree
/// snapshot may serve as the anchor for spending.
pub const ANCHOR_OFFSET: u32 = 10;

/// Largest representable amount of money, in zatoshis.
pub const MAX_MONEY: i64 = 2_100_000_000_000_000;

/// Errors surfaced by the store.
///
/// Absence of data ("not yet known") is reported as `None` results, never as
/// an error; these variants cover invalid inputs, corrupted stored state and
/// failed preconditions.
#[derive(Clone, Copy, Debug, PartialEq, Eq, Structural)]
pub enum Error {
    /// The account id does not denote a known account.
    AccountUnknown,
    /// A stored aggregate (a balance sum) lies outside the valid money range.
    CorruptedData,
    /// A memo is present and marked as text but is not valid UTF-8.
    InvalidMemo,
    /// The eligible notes of the account sum to less than the target value.
    InsufficientFunds,
    /// The network has no Sapling activation height.
    SaplingNotActive,
    /// A note reference does not denote a stored note.
    InvalidNoteRef,
    /// A transaction reference does not denote a stored transaction.
    InvalidTxRef,
    /// A block height does not denote a stored block.
    InvalidHeight,
    /// The block height cannot be stored without overflowing the height type.
    HeightOutOfRange,
    /// A block at this height is already stored.
    DuplicateBlock,
}

/// A decrypted shielded output handed to the store for recording.
///
/// Two origins share one persistence path: an output found by scanning the
/// chain with the wallet's own keys (the change flag is known, no memo is
/// recovered), and an output recovered by decrypting a transaction for
/// sent-note recording (a memo is recovered, the change flag is unknown).
pub enum ShieldedOutput {
    /// Output produced directly by wallet block scanning.
    Scanned {
        /// Index of the output within its transaction.
        index: usize,
        /// Account that controls the output.
        account: u32,
        /// Destination payment address, in its encoded form.
        to: Vec<u8>,
        /// Value of the note, in zatoshis.
        value: i64,
        /// Whether the output returns change to the sender.
        is_change: bool,
    },
    /// Output recovered by transaction decryption.
    Decrypted {
        /// Index of the output within its transaction.
        index: usize,
        /// Account that controls the output.
        account: u32,
        /// Destination payment address, in its encoded form.
        to: Vec<u8>,
        /// Value of the note, in zatoshis.
        value: i64,
        /// Memo bytes carried by the output.
        memo: Vec<u8>,
    },
}

impl ShieldedOutput {
    /// Index of the output within its transaction.
    pub open spec fn spec_index(&self) -> usize {
        match *self {
            ShieldedOutput::Scanned { index, .. } => index,
            ShieldedOutput::Decrypted { index, .. } => index,
        }
    }

    /// Account that controls the output.
    pub open spec fn spec_account(&self) -> u32 {
        match *self {
            ShieldedOutput::Scanned { account, .. } => account,
            ShieldedOutput::Decrypted { account, .. } => account,
        }
    }

    /// Destination address bytes.
    pub open spec fn spec_to(&self) -> Seq<u8> {
        match *self {
            ShieldedOutput::Scanned { ref to, .. } => to@,
            ShieldedOutput::Decrypted { ref to, .. } => to@,
        }
    }

    /// Value of the note.
    pub open spec fn spec_value(&self) -> i64 {
        match *self {
            ShieldedOutput::Scanned { value, .. } => value,
            ShieldedOutput::Decrypted { value, .. } => value,
        }
    }

    /// Memo bytes, known only for decrypted outputs.
    pub open spec fn spec_memo(&self) -> Option<Seq<u8>> {
        match *self {
            ShieldedOutput::Scanned { .. } => None,
            ShieldedOutput::Decrypted { ref memo, .. } => Some(memo@),
        }
    }

    /// Change flag, known only for scanned outputs.
    pub open spec fn spec_is_change(&self) -> Option<bool> {
        match *self {
            ShieldedOutput::Scanned { is_change, .. } => Some(is_change),
            ShieldedOutput::Decrypted { .. } => None,
        }
    }

    /// Index of the output within its transaction.
    pub fn index(&self) -> (r: usize)
        ensures
            r == self.spec_index(),
    {
        match self {
            ShieldedOutput::Scanned { index, .. } => *index,
            ShieldedOutput::Decrypted { index, .. } => *index,
        }
    }

    /// Account that controls the output.
    pub fn account(&self) -> (r: u32)
        ensures
            r == self.spec_account(),
    {
        match self {
            ShieldedOutput::Scanned { account, .. } => *account,
            ShieldedOutput::Decrypted { account, .. } => *account,
        }
    }

    /// Destination payment address, in its encoded form.
    pub fn to(&self) -> (r: &Vec<u8>)
        ensures
            r@ == self.spec_to(),
    {
        match self {
            ShieldedOutput::Scanned { to, .. } => to,
            ShieldedOutput::Decrypted { to, .. } => to,
        }
    }

    /// Value of the note, in zatoshis.
    pub fn value(&self) -> (r: i64)
        ensures
            r == self.spec_value(),
    {
        match self {
            ShieldedOutput::Scanned { value, .. } => *value,
            ShieldedOutput::Decrypted { value, .. } => *value,
        }
    }

    /// Memo bytes, present only for decrypted outputs.
    pub fn memo(&self) -> (r: Option<&Vec<u8>>)
        ensures
            match r {
                Some(m) => self.spec_memo() == Some(m@),
                None => self.spec_memo() is None,
            },
    {
        match self {
            ShieldedOutput::Scanned { .. } => None,
            ShieldedOutput::Decrypted { memo, .. } => Some(memo),
        }
    }

    /// Change flag, known only for scanned outputs.
    pub fn is_change(&self) -> (r: Option<bool>)
        ensures
            r == self.spec_is_change(),
    {
        match self {
            ShieldedOutput::Scanned { is_change, .. } => Some(*is_change),
            ShieldedOutput::Decrypted { .. } => None,
        }
    }
}

/// View of an optional byte string.
pub open spec fn opt_bytes_view(o: Option<Vec<u8>>) -> Option<Seq<u8>> {
    match o {
        Some(v) => Some(v@),
        None => None,
    }
}

/// Compares two byte strings for equality.
pub fn bytes_eq(a: &Vec<u8>, b: &Vec<u8>) -> (r: bool)
    ensures
        r == (a@ == b@),
{
    if a.len() != b.len() {
        assert(a@ != b@);
        return false;
    }
    let mut i: usize = 0;
    while i < a.len()
        invariant
            i <= a@.len(),
            a@.len() == b@.len(),
            forall|j: int| 0 <= j < i ==> a@[j] == b@[j],
        decreases a@.len() - i,
    {
        if a[i] != b[i] {
            return false;
        }
        i += 1;
    }
    assert(a@ =~= b@);
    true
}

/// Copies a byte string.
pub fn copy_bytes(v: &Vec<u8>) -> (r: Vec<u8>)
    ensures
        r@ == v@,
{
    let mut r: Vec<u8> = Vec::new();
    let mut i: usize = 0;
    while i < v.len()
        invariant
            i <= v@.len(),
            r@.len() == i,
            forall|j: int| 0 <= j < i ==> r@[j] == v@[j],
        decreases v@.len() - i,
    {
        r.push(v[i]);
        i += 1;
    }
    assert(r@ =~= v@);
    r
}

/// Copies an optional byte string.
pub fn copy_bytes_opt(v: &Option<Vec<u8>>) -> (r: Option<Vec<u8>>)
    ensures
        match (r, v) {
            (Some(rv), Some(vv)) => rv@ == vv@,
            (None, None) => true,
            _ => false,
        },
{
    match v {
        Some(inner) => Some(copy_bytes(inner)),
        None => None,
    }
}

} // verus!
