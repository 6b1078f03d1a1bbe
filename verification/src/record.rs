//! The per-user lottery record and its stored byte layout:
//! `[liveness tag (8)][owner (8, LE)][derivation nonce (1)][created_at (8, LE,
//! two's complement)][payout destination (8, LE)]`.
//! Typed deserialization of these bytes is the implicit "is this record open"
//! check: closed or zero-filled bytes never decode.

use vstd::bytes::*;
use vstd::prelude::*;

use crate::discriminator::{closed_tag, open_tag, spec_closed_tag, spec_is_closed, spec_open_tag, TAG_LEN};
use crate::errors::MintError;
use crate::ledger::{spec_data, Ledger};

verus! {

/// Stored length of an open record in bytes.
pub const RECORD_LEN: usize = 33;

/// One user's lottery entry.  All fields are set at creation and never
/// change; only the liveness tag in the stored bytes changes, once, when the
/// record is closed.
#[derive(Clone, Copy, Debug, PartialEq, Eq, Structural)]
pub struct LotteryAccount {
    /// Identity of the user who created the record.
    pub user: u64,
    /// The derivation nonce proving the record's address is canonical.
    pub bump: u8,
    /// Ledger time at creation; the sole input of the reward computation.
    pub timestamp: i64,
    /// The token account that receives the minted reward.
    pub user_ata: u64,
}

/// The stored bytes of an open record.
pub open spec fn spec_encode(e: LotteryAccount) -> Seq<u8> {
    spec_open_tag() + spec_u64_to_le_bytes(e.user) + seq![e.bump] + spec_u64_to_le_bytes(
        e.timestamp as u64,
    ) + spec_u64_to_le_bytes(e.user_ata)
}

/// Typed deserialization of stored bytes as an open record.
pub open spec fn spec_decode(d: Seq<u8>) -> Option<LotteryAccount> {
    if d.len() == RECORD_LEN && d.subrange(0, TAG_LEN as int) == spec_open_tag() {
        Some(
            LotteryAccount {
                user: spec_u64_from_le_bytes(d.subrange(8, 16)),
                bump: d[16],
                timestamp: spec_u64_from_le_bytes(d.subrange(17, 25)) as i64,
                user_ata: spec_u64_from_le_bytes(d.subrange(25, 33)),
            },
        )
    } else {
        None
    }
}

/// Whether stored bytes hold no information: absent, or every byte zero.
pub open spec fn spec_all_zero(d: Seq<u8>) -> bool {
    forall|i: int| 0 <= i < d.len() ==> d[i] == 0
}

/// The bytes a secure close stamps over a record: the closed sentinel, then
/// zeroes.
pub open spec fn spec_closed_stamp(n: nat) -> Seq<u8>
    recommends
        n >= TAG_LEN,
{
    spec_closed_tag() + Seq::new((n - TAG_LEN) as nat, |i: int| 0u8)
}

/// Serialize an open record.
pub fn encode_entry(e: &LotteryAccount) -> (r: Vec<u8>)
    ensures
        r@ == spec_encode(*e),
        r@.len() == RECORD_LEN,
{
    proof {
        lemma_auto_spec_u64_to_from_le_bytes();
    }
    let mut v = open_tag();
    let mut user_bytes = u64_to_le_bytes(e.user);
    v.append(&mut user_bytes);
    v.push(e.bump);
    let mut ts_bytes = u64_to_le_bytes(#[verifier::truncate] (e.timestamp as u64));
    v.append(&mut ts_bytes);
    let mut ata_bytes = u64_to_le_bytes(e.user_ata);
    v.append(&mut ata_bytes);
    proof {
        assert(v@ =~= spec_encode(*e));
    }
    v
}

/// Deserialize stored bytes as an open record; fails with `TypeMismatch`
/// whenever the bytes do not have the open record's exact shape.
pub fn decode_entry(data: &Vec<u8>) -> (r: Result<LotteryAccount, MintError>)
    ensures
        match r {
            Ok(e) => spec_decode(data@) == Some(e),
            Err(err) => spec_decode(data@) is None && err == MintError::TypeMismatch,
        },
{
    proof {
        lemma_auto_spec_u64_to_from_le_bytes();
    }
    if data.len() != RECORD_LEN {
        return Err(MintError::TypeMismatch);
    }
    let tag = open_tag();
    let mut i: usize = 0;
    while i < TAG_LEN
        invariant
            0 <= i <= TAG_LEN,
            data@.len() == RECORD_LEN,
            tag@ == spec_open_tag(),
            forall|j: int| 0 <= j < i ==> data@[j] == spec_open_tag()[j],
        decreases TAG_LEN - i,
    {
        if data[i] != tag[i] {
            proof {
                assert(data@.subrange(0, TAG_LEN as int)[i as int] != spec_open_tag()[i as int]);
            }
            return Err(MintError::TypeMismatch);
        }
        i += 1;
    }
    proof {
        assert(data@.subrange(0, TAG_LEN as int) =~= spec_open_tag());
    }
    let s = data.as_slice();
    let user = u64_from_le_bytes(vstd::slice::slice_subrange(s, 8, 16));
    let bump = data[16];
    let ts_raw = u64_from_le_bytes(vstd::slice::slice_subrange(s, 17, 25));
    let user_ata = u64_from_le_bytes(vstd::slice::slice_subrange(s, 25, 33));
    let timestamp = #[verifier::truncate] (ts_raw as i64);
    Ok(LotteryAccount { user, bump, timestamp, user_ata })
}

/// Reads the slot at an address as an open record; an absent slot, like any
/// bytes without the open record's shape, is a `TypeMismatch`.
pub fn read_open_entry(ledger: &Ledger, addr: u64) -> (r: Result<LotteryAccount, MintError>)
    ensures
        match r {
            Ok(e) => spec_decode(spec_data(ledger@, addr)) == Some(e),
            Err(err) => spec_decode(spec_data(ledger@, addr)) is None && err
                == MintError::TypeMismatch,
        },
{
    match ledger.get_slot(addr) {
        Some(slot) => decode_entry(&slot.data),
        None => Err(MintError::TypeMismatch),
    }
}

/// Builds the bytes a secure close stamps over a record.
pub fn closed_stamp(n: usize) -> (r: Vec<u8>)
    requires
        n >= TAG_LEN,
    ensures
        r@ == spec_closed_stamp(n as nat),
        r@.len() == n,
{
    let mut v = closed_tag();
    proof {
        assert(v@ =~= spec_closed_stamp(TAG_LEN as nat));
    }
    while v.len() < n
        invariant
            TAG_LEN <= v@.len() <= n,
            v@ == spec_closed_stamp(v@.len()),
        decreases n - v@.len(),
    {
        v.push(0);
        proof {
            assert(v@ =~= spec_closed_stamp(v@.len()));
        }
    }
    v
}

/// Builds `n` zero bytes — the manual fill the insecure close writes, which
/// is not the system-recognized closed sentinel.
pub fn zero_fill(n: usize) -> (r: Vec<u8>)
    ensures
        r@ == Seq::new(n as nat, |i: int| 0u8),
        r@.len() == n,
        spec_all_zero(r@),
{
    let mut v: Vec<u8> = Vec::new();
    while v.len() < n
        invariant
            v@.len() <= n,
            v@ == Seq::new(v@.len(), |i: int| 0u8),
        decreases n - v@.len(),
    {
        v.push(0);
        proof {
            assert(v@ =~= Seq::new(v@.len(), |i: int| 0u8));
        }
    }
    v
}

/// An encoded record decodes to itself.
pub proof fn lemma_decode_encode(e: LotteryAccount)
    ensures
        spec_decode(spec_encode(e)) == Some(e),
        spec_encode(e).len() == RECORD_LEN,
{
    lemma_auto_spec_u64_to_from_le_bytes();
    let d = spec_encode(e);
    assert(d.subrange(0, TAG_LEN as int) =~= spec_open_tag());
    assert(d.subrange(8, 16) =~= spec_u64_to_le_bytes(e.user));
    assert(d[16] == e.bump);
    assert(d.subrange(17, 25) =~= spec_u64_to_le_bytes(e.timestamp as u64));
    assert(d.subrange(25, 33) =~= spec_u64_to_le_bytes(e.user_ata));
    let t = e.timestamp;
    assert(((t as u64) as i64) == t) by (bit_vector);
}

/// An open record is visibly live: its first stored byte is the open tag's,
/// which is neither zero nor the closed sentinel's first byte.
pub proof fn lemma_encoded_not_blank(e: LotteryAccount)
    ensures
        spec_encode(e).len() == RECORD_LEN,
        spec_encode(e)[0] == 76u8,
        !spec_all_zero(spec_encode(e)),
{
    lemma_auto_spec_u64_to_from_le_bytes();
    assert(spec_encode(e)[0] == spec_open_tag()[0]);
}

/// Bytes recognized as closed never deserialize as an open record.
pub proof fn lemma_closed_not_open(d: Seq<u8>)
    requires
        spec_is_closed(d),
    ensures
        spec_decode(d) is None,
{
    if d.len() == RECORD_LEN && d.subrange(0, TAG_LEN as int) == spec_open_tag() {
        assert(d.subrange(0, TAG_LEN as int)[0] == 76u8);
        assert(spec_closed_tag()[0] == 255u8);
    }
}

/// Zero-filled bytes never deserialize as an open record.
pub proof fn lemma_blank_not_open(d: Seq<u8>)
    requires
        spec_all_zero(d),
    ensures
        spec_decode(d) is None,
{
    if d.len() == RECORD_LEN && d.subrange(0, TAG_LEN as int) == spec_open_tag() {
        assert(d.subrange(0, TAG_LEN as int)[0] == 76u8);
        assert(d[0] == 0u8);
    }
}

/// The closed stamp is recognized as closed, and is not blank.
pub proof fn lemma_closed_stamp_is_closed(n: nat)
    requires
        n > TAG_LEN,
    ensures
        spec_closed_stamp(n).len() == n,
        spec_is_closed(spec_closed_stamp(n)),
        !spec_all_zero(spec_closed_stamp(n)),
{
    assert(spec_closed_stamp(n).subrange(0, TAG_LEN as int) =~= spec_closed_tag());
    assert(spec_closed_stamp(n)[0] == 255u8);
}

} // verus!
