//! The deliberately flawed redeem: it mints the same reward and moves the
//! same collateral as the secure close, but "closes" the record by hand — it
//! zero-fills the bytes instead of stamping the system-recognized closed
//! sentinel.  A zero-filled slot looks uninitialized to a later open, so a
//! re-funded record can be opened and redeemed again; that revival window is
//! the vulnerability this path reproduces on purpose.

use vstd::prelude::*;

use crate::errors::MintError;
use crate::ledger::{
    spec_data, spec_lamports, spec_with_lamports, AccountSlot, Ledger, LedgerSnap, SlotSnap,
};
use crate::minter::{compute_reward, mint, spec_mint, spec_reward, MintCapability, MintCtx};
use crate::record::{read_open_entry, spec_decode, zero_fill, RECORD_LEN};
use crate::store::{canonical_nonce, record_address, spec_canonical_nonce, spec_record_address};

verus! {

/// The insecure redeem request; the same inputs as the secure one.
#[derive(Clone, Copy, Debug)]
pub struct RedeemWinnings {
    pub user: u64,
    pub user_ata: u64,
    pub mint_auth_nonce: Option<u8>,
}

impl RedeemWinnings {
    /// Builds the mint context exactly as the secure path does.
    pub fn mint_ctx(&self) -> (r: Result<MintCtx, MintError>)
        ensures
            match r {
                Ok(c) => self.mint_auth_nonce == Some(c.capability.nonce) && c.destination
                    == self.user_ata,
                Err(e) => self.mint_auth_nonce is None && e == MintError::MissingNonce,
            },
    {
        match self.mint_auth_nonce {
            Some(nonce) => Ok(
                MintCtx { destination: self.user_ata, capability: MintCapability { nonce } },
            ),
            None => Err(MintError::MissingNonce),
        }
    }
}

/// What an insecure redeem does: the same validation, mint and collateral
/// transfer as the secure close, but the record's bytes end up all zero —
/// not the closed sentinel — so the slot afterwards looks uninitialized.
pub open spec fn spec_redeem_insecure(l: LedgerSnap, ctx: RedeemWinnings) -> Result<
    LedgerSnap,
    MintError,
> {
    let addr = spec_record_address(ctx.user);
    match spec_decode(spec_data(l, addr)) {
        None => Err(MintError::TypeMismatch),
        Some(e) => {
            if e.user != ctx.user || e.user_ata != ctx.user_ata || e.bump != spec_canonical_nonce(
                ctx.user,
            ) {
                Err(MintError::Unauthorized)
            } else {
                match ctx.mint_auth_nonce {
                    None => Err(MintError::MissingNonce),
                    Some(nonce) => {
                        match spec_reward(e.timestamp) {
                            None => Err(MintError::Overflow),
                            Some(amount) => {
                                match spec_mint(
                                    l,
                                    amount,
                                    ctx.user_ata,
                                    MintCapability { nonce },
                                ) {
                                    Err(err) => Err(err),
                                    Ok(l1) => {
                                        let collateral = spec_lamports(l1, addr);
                                        if spec_lamports(l1, ctx.user) + collateral > u64::MAX {
                                            Err(MintError::Overflow)
                                        } else {
                                            let l2 = spec_with_lamports(
                                                l1,
                                                ctx.user,
                                                (spec_lamports(l1, ctx.user) + collateral) as u64,
                                            );
                                            Ok(
                                                LedgerSnap {
                                                    slots: l2.slots.insert(
                                                        addr,
                                                        SlotSnap {
                                                            lamports: 0,
                                                            data: Seq::new(
                                                                spec_data(l, addr).len(),
                                                                |i: int| 0u8,
                                                            ),
                                                        },
                                                    ),
                                                    tokens: l2.tokens,
                                                },
                                            )
                                        }
                                    },
                                }
                            },
                        }
                    },
                }
            }
        },
    }
}

/// Redeems a user's winnings, then "closes" the record manually: collateral
/// out, every byte zeroed.  The zero fill is not the closed sentinel, so the
/// slot afterwards looks uninitialized and can be revived by re-funding it.
pub fn redeem_winnings_insecure(ledger: &mut Ledger, ctx: RedeemWinnings) -> (r: Result<
    (),
    MintError,
>)
    ensures
        match r {
            Ok(()) => spec_redeem_insecure(old(ledger)@, ctx) == Ok::<LedgerSnap, MintError>(
                final(ledger)@,
            ),
            Err(e) => spec_redeem_insecure(old(ledger)@, ctx) == Err::<LedgerSnap, MintError>(e)
                && final(ledger)@ == old(ledger)@,
        },
{
    let addr = record_address(ctx.user);
    let entry = match read_open_entry(ledger, addr) {
        Ok(e) => e,
        Err(e) => {
            return Err(e);
        },
    };
    if entry.user != ctx.user || entry.user_ata != ctx.user_ata || entry.bump != canonical_nonce(
        ctx.user,
    ) {
        return Err(MintError::Unauthorized);
    }
    let mctx = match ctx.mint_ctx() {
        Ok(c) => c,
        Err(e) => {
            return Err(e);
        },
    };
    let amount = match compute_reward(entry.timestamp) {
        Ok(a) => a,
        Err(e) => {
            return Err(e);
        },
    };
    if !mctx.capability.is_valid() {
        return Err(MintError::Unauthorized);
    }
    let bal = ledger.token_balance(ctx.user_ata);
    if amount > u64::MAX - bal {
        return Err(MintError::Overflow);
    }
    let collateral = ledger.lamports_of(addr);
    let dest = ledger.lamports_of(ctx.user);
    if collateral > u64::MAX - dest {
        return Err(MintError::Overflow);
    }
    match mint(ledger, amount, &mctx) {
        Ok(()) => {},
        Err(e) => {
            // unreachable: the capability and the receiving balance were
            // checked just above, so the mint cannot fail here
            proof {
                assert(false);
            }
            return Err(e);
        },
    }
    ledger.set_lamports(ctx.user, dest + collateral);
    let zeroed = zero_fill(RECORD_LEN);
    ledger.set_slot(addr, AccountSlot { lamports: 0, data: zeroed });
    Ok(())
}

} // verus!
