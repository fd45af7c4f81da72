//! Memo decoding.
//!
//! A memo is a byte string attached to a shielded output.  A designated
//! "no memo" pattern — an empty string, or the sentinel first byte `0xf6`
//! followed only by zero padding — means the sender attached nothing, and
//! decodes to absence.  Any other memo is text: its trailing zero padding
//! is removed and the rest must be valid UTF-8, else the memo is reported
//! as invalid.

use vstd::prelude::*;
use vstd::utf8::{decode_utf8, valid_utf8};

use crate::store::WalletDb;
use crate::types::Error;

verus! {

/// True when the memo bytes are the designated "no memo" pattern: empty,
/// or the sentinel first byte followed only by zeros.
pub open spec fn is_empty_memo(m: Seq<u8>) -> bool {
    m.len() == 0 || (m[0] == 0xf6 && forall|i: int| 1 <= i < m.len() ==> m[i] == 0)
}

/// The memo bytes with their trailing zero padding removed.
pub open spec fn trim_zeros(m: Seq<u8>) -> Seq<u8>
    decreases m.len(),
{
    if m.len() > 0 && m.last() == 0 {
        trim_zeros(m.drop_last())
    } else {
        m
    }
}

/// Relies on `String::from_utf8`: it succeeds exactly on byte strings that
/// are valid UTF-8, returning the text those bytes encode, stated over
/// `vstd`'s UTF-8 model.
#[verifier::external_body]
fn bytes_to_utf8(v: &Vec<u8>) -> (r: Option<String>)
    ensures
        r is Some <==> valid_utf8(v@),
        r matches Some(s) ==> s@ == decode_utf8(v@),
{
    match String::from_utf8(v.clone()) {
        Ok(s) => Some(s),
        Err(_) => None,
    }
}

/// Copies the memo bytes without their trailing zero padding.
fn trim_trailing_zeros(m: &Vec<u8>) -> (r: Vec<u8>)
    ensures
        r@ == trim_zeros(m@),
{
    let mut end = m.len();
    proof {
        assert(m@.subrange(0, m@.len() as int) =~= m@);
    }
    while end > 0 && m[end - 1] == 0
        invariant
            end <= m@.len(),
            trim_zeros(m@) == trim_zeros(m@.subrange(0, end as int)),
        decreases end,
    {
        proof {
            assert(m@.subrange(0, end as int).last() == 0);
            assert(m@.subrange(0, end as int).drop_last() =~= m@.subrange(0, end as int - 1));
        }
        end -= 1;
    }
    proof {
        assert(trim_zeros(m@.subrange(0, end as int)) == m@.subrange(0, end as int));
    }
    let mut r: Vec<u8> = Vec::new();
    let mut i: usize = 0;
    while i < end
        invariant
            i <= end <= m@.len(),
            r@.len() == i,
            forall|j: int| 0 <= j < i ==> r@[j] == m@[j],
        decreases end - i,
    {
        r.push(m[i]);
        i += 1;
    }
    proof {
        assert(r@ =~= m@.subrange(0, end as int));
    }
    r
}

/// True when the memo bytes are the "no memo" pattern.
fn is_empty_memo_bytes(m: &Vec<u8>) -> (r: bool)
    ensures
        r == is_empty_memo(m@),
{
    if m.len() == 0 {
        return true;
    }
    if m[0] != 0xf6 {
        return false;
    }
    let mut i: usize = 1;
    while i < m.len()
        invariant
            1 <= i <= m@.len(),
            forall|j: int| 1 <= j < i ==> m@[j] == 0,
        decreases m@.len() - i,
    {
        if m[i] != 0 {
            return false;
        }
        i += 1;
    }
    true
}

/// Decodes memo bytes: absence for the "no memo" pattern, the decoded text
/// for a valid UTF-8 memo, and an invalid-memo error otherwise.
pub fn memo_to_utf8(m: &Vec<u8>) -> (r: Result<Option<String>, Error>)
    ensures
        match r {
            Ok(None) => is_empty_memo(m@),
            Ok(Some(s)) => !is_empty_memo(m@) && valid_utf8(trim_zeros(m@)) && s@ == decode_utf8(
                trim_zeros(m@),
            ),
            Err(e) => e == Error::InvalidMemo && !is_empty_memo(m@) && !valid_utf8(
                trim_zeros(m@),
            ),
        },
{
    if is_empty_memo_bytes(m) {
        return Ok(None);
    }
    let trimmed = trim_trailing_zeros(m);
    match bytes_to_utf8(&trimmed) {
        Some(s) => Ok(Some(s)),
        None => Err(Error::InvalidMemo),
    }
}

/// Returns the memo of a received note as text: absence when no memo is
/// stored or the stored memo is the "no memo" pattern, the decoded text
/// when it is valid UTF-8, and an invalid-memo error otherwise.  A
/// reference that denotes no stored note is refused.
pub fn get_received_memo_as_utf8(db: &WalletDb, id_note: usize) -> (r: Result<
    Option<String>,
    Error,
>)
    ensures
        match r {
            Ok(mo) => id_note < db.received_notes@.len() && match (
                mo,
                db.received_notes@[id_note as int].memo,
            ) {
                (None, None) => true,
                (None, Some(mv)) => is_empty_memo(mv@),
                (Some(s), Some(mv)) => !is_empty_memo(mv@) && valid_utf8(trim_zeros(mv@))
                    && s@ == decode_utf8(trim_zeros(mv@)),
                (Some(_), None) => false,
            },
            Err(e) => {
                &&& (e == Error::InvalidNoteRef || e == Error::InvalidMemo)
                &&& (e == Error::InvalidNoteRef <==> id_note >= db.received_notes@.len())
                &&& e == Error::InvalidMemo ==> match db.received_notes@[id_note as int].memo {
                    Some(mv) => !is_empty_memo(mv@) && !valid_utf8(trim_zeros(mv@)),
                    None => false,
                }
            },
        },
{
    if id_note >= db.received_notes.len() {
        return Err(Error::InvalidNoteRef);
    }
    match &db.received_notes[id_note].memo {
        None => Ok(None),
        Some(mv) => memo_to_utf8(mv),
    }
}

/// Returns the memo of a sent note as text, with the same contract as
/// `get_received_memo_as_utf8` but over the sent-note records.
pub fn get_sent_memo_as_utf8(db: &WalletDb, id_note: usize) -> (r: Result<Option<String>, Error>)
    ensures
        match r {
            Ok(mo) => id_note < db.sent_notes@.len() && match (
                mo,
                db.sent_notes@[id_note as int].memo,
            ) {
                (None, None) => true,
                (None, Some(mv)) => is_empty_memo(mv@),
                (Some(s), Some(mv)) => !is_empty_memo(mv@) && valid_utf8(trim_zeros(mv@))
                    && s@ == decode_utf8(trim_zeros(mv@)),
                (Some(_), None) => false,
            },
            Err(e) => {
                &&& (e == Error::InvalidNoteRef || e == Error::InvalidMemo)
                &&& (e == Error::InvalidNoteRef <==> id_note >= db.sent_notes@.len())
                &&& e == Error::InvalidMemo ==> match db.sent_notes@[id_note as int].memo {
                    Some(mv) => !is_empty_memo(mv@) && !valid_utf8(trim_zeros(mv@)),
                    None => false,
                }
            },
        },
{
    if id_note >= db.sent_notes.len() {
        return Err(Error::InvalidNoteRef);
    }
    match &db.sent_notes[id_note].memo {
        None => Ok(None),
        Some(mv) => memo_to_utf8(mv),
    }
}

} // verus!
