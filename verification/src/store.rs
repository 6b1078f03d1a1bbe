//! The lottery entry store: deterministic per-user addressing and the open
//! request.  Exactly one live record can exist per user, because the record's
//! address is a pure function of the user's identity and an open fails while
//! the slot there still looks live.

use vstd::prelude::*;

use crate::errors::MintError;
use crate::ledger::{spec_data, spec_lamports, AccountSlot, Ledger, LedgerSnap, SlotSnap};
use crate::record::{encode_entry, spec_all_zero, spec_encode, LotteryAccount};

verus! {

/// Nonzero salt folded into a user's identity to place the user's record at
/// an address of its own, distinct from the user's wallet address.
pub const RECORD_ADDRESS_SALT: u64 = 0x4c4f545f52454331;

/// The derived address of a user's record: a pure function of the identity.
pub open spec fn spec_record_address(user: u64) -> u64 {
    user ^ RECORD_ADDRESS_SALT
}

/// Derives the record address for a user.
pub fn record_address(user: u64) -> (r: u64)
    ensures
        r == spec_record_address(user),
{
    user ^ RECORD_ADDRESS_SALT
}

/// The canonical derivation nonce stored with a record: the value that
/// re-derives the record's address (the identity's low byte in this model).
pub open spec fn spec_canonical_nonce(user: u64) -> u8 {
    (user % 256) as u8
}

/// Computes the canonical derivation nonce for a user.
pub fn canonical_nonce(user: u64) -> (r: u8)
    ensures
        r == spec_canonical_nonce(user),
{
    (user % 256) as u8
}

/// A record's address never collides with its owner's own address, and equal
/// record addresses come from equal owners.
pub proof fn lemma_record_address_distinct(a: u64, b: u64)
    ensures
        spec_record_address(a) != a,
        spec_record_address(a) == spec_record_address(b) ==> a == b,
{
    assert(a ^ 0x4c4f545f52454331u64 != a) by (bit_vector);
    if a ^ 0x4c4f545f52454331u64 == b ^ 0x4c4f545f52454331u64 {
        assert(a ^ 0x4c4f545f52454331u64 == b ^ 0x4c4f545f52454331u64 ==> a == b) by (bit_vector);
    }
}

/// The open request: who signs it and which token account receives rewards.
#[derive(Clone, Copy, Debug, PartialEq, Eq, Structural)]
pub struct EnterLottery {
    /// The signing user opening a record.
    pub user: u64,
    /// The user's token account, bound as the record's payout destination.
    pub user_ata: u64,
}

/// Whether the slot at an address currently looks uninitialized: absent, or
/// every stored byte zero.  This — and nothing else — is what an open
/// inspects, which is exactly the ambiguity the insecure close exploits.
pub open spec fn spec_slot_blank(l: LedgerSnap, addr: u64) -> bool {
    spec_all_zero(spec_data(l, addr))
}

/// Checks whether the slot at an address looks uninitialized.
pub fn slot_is_blank(ledger: &Ledger, addr: u64) -> (r: bool)
    ensures
        r == spec_slot_blank(ledger@, addr),
{
    match ledger.get_slot(addr) {
        None => true,
        Some(slot) => {
            let mut i: usize = 0;
            while i < slot.data.len()
                invariant
                    0 <= i <= slot.data@.len(),
                    slot@ == ledger@.slots[addr],
                    ledger@.slots.contains_key(addr),
                    forall|j: int| 0 <= j < i ==> slot.data@[j] == 0,
                decreases slot.data@.len() - i,
            {
                if slot.data[i] != 0 {
                    return false;
                }
                i += 1;
            }
            true
        },
    }
}

/// What an open does: fails with `AlreadyInitialized` while the derived slot
/// looks live; otherwise records the caller, the payout destination, the
/// canonical nonce and the current ledger time, and deposits the requester's
/// collateral into the slot.
pub open spec fn spec_enter(l: LedgerSnap, ctx: EnterLottery, now: i64, rent: u64) -> Result<
    LedgerSnap,
    MintError,
> {
    let addr = spec_record_address(ctx.user);
    if !spec_slot_blank(l, addr) {
        Err(MintError::AlreadyInitialized)
    } else if spec_lamports(l, addr) + rent > u64::MAX {
        Err(MintError::Overflow)
    } else {
        Ok(
            LedgerSnap {
                slots: l.slots.insert(
                    addr,
                    SlotSnap {
                        lamports: (spec_lamports(l, addr) + rent) as u64,
                        data: spec_encode(
                            LotteryAccount {
                                user: ctx.user,
                                bump: spec_canonical_nonce(ctx.user),
                                timestamp: now,
                                user_ata: ctx.user_ata,
                            },
                        ),
                    },
                ),
                tokens: l.tokens,
            },
        )
    }
}

/// Opens a lottery entry for a user: `now` is the ledger time read at the
/// edge of the request, `rent` the collateral the requester attaches to pay
/// for the record's storage.
pub fn enter_lottery(ledger: &mut Ledger, ctx: EnterLottery, now: i64, rent: u64) -> (r: Result<
    (),
    MintError,
>)
    ensures
        match r {
            Ok(()) => spec_enter(old(ledger)@, ctx, now, rent) == Ok::<LedgerSnap, MintError>(
                final(ledger)@,
            ),
            Err(e) => spec_enter(old(ledger)@, ctx, now, rent) == Err::<LedgerSnap, MintError>(e)
                && final(ledger)@ == old(ledger)@,
        },
{
    let addr = record_address(ctx.user);
    if !slot_is_blank(ledger, addr) {
        return Err(MintError::AlreadyInitialized);
    }
    let cur = ledger.lamports_of(addr);
    if rent > u64::MAX - cur {
        return Err(MintError::Overflow);
    }
    let entry = LotteryAccount {
        user: ctx.user,
        bump: canonical_nonce(ctx.user),
        timestamp: now,
        user_ata: ctx.user_ata,
    };
    let data = encode_entry(&entry);
    ledger.set_slot(addr, AccountSlot { lamports: cur + rent, data });
    Ok(())
}

} // verus!
