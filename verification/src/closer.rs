//! The secure close protocol: one request that re-validates the record, mints
//! the reward, returns the record's collateral to its owner, and stamps the
//! record's bytes with the closed sentinel — all of it or none of it.  Once
//! stamped, the bytes never deserialize as an open record again.

use vstd::prelude::*;

use crate::errors::MintError;
use crate::ledger::{
    spec_data, spec_lamports, spec_with_lamports, AccountSlot, Ledger, LedgerSnap, SlotSnap,
};
use crate::minter::{compute_reward, mint, spec_mint, spec_reward, MintCapability, MintCtx};
use crate::record::{
    closed_stamp, read_open_entry, spec_closed_stamp, spec_decode, RECORD_LEN,
};
use crate::store::{canonical_nonce, record_address, spec_canonical_nonce, spec_record_address};

verus! {

/// The secure redeem request: the signing user, the token account that must
/// match the record's bound destination, and the mint authority's derivation
/// nonce as the runtime supplied it (absent when the lookup found none).
#[derive(Clone, Copy, Debug)]
pub struct RedeemWinningsSecure {
    pub user: u64,
    pub user_ata: u64,
    pub mint_auth_nonce: Option<u8>,
}

impl RedeemWinningsSecure {
    /// Builds the mint context: the payout destination and a signing
    /// capability computed fresh from the fixed seed and the supplied
    /// derivation nonce.  An absent nonce is a named error, not an abort.
    pub fn mint_ctx(&self) -> (r: Result<MintCtx, MintError>)
        ensures
            match r {
                Ok(c) => self.mint_auth_nonce == Some(c.capability.nonce) && c.destination
                    == self.user_ata,
                Err(e) => self.mint_auth_nonce is None && e == MintError::MissingNonce,
            },
    {
        match self.mint_auth_nonce {
            Some(nonce) => Ok(
                MintCtx { destination: self.user_ata, capability: MintCapability { nonce } },
            ),
            None => Err(MintError::MissingNonce),
        }
    }
}

/// What a secure redeem does.  In order: the stored bytes must deserialize as
/// an open record; the record must be owned by the caller, bound to the
/// caller's token account, and carry the canonical derivation nonce; the mint
/// authority's nonce must be present and prove control of the mint; neither
/// the reward, nor the receiving token balance, nor the owner's collateral
/// may wrap.  Then, atomically: the reward is minted to the destination, the
/// record's whole collateral moves to the owner, and the record is stamped
/// closed with zeroed remainder.
pub open spec fn spec_redeem_secure(l: LedgerSnap, ctx: RedeemWinningsSecure) -> Result<
    LedgerSnap,
    MintError,
> {
    let addr = spec_record_address(ctx.user);
    match spec_decode(spec_data(l, addr)) {
        None => Err(MintError::TypeMismatch),
        Some(e) => {
            if e.user != ctx.user || e.user_ata != ctx.user_ata || e.bump != spec_canonical_nonce(
                ctx.user,
            ) {
                Err(MintError::Unauthorized)
            } else {
                match ctx.mint_auth_nonce {
                    None => Err(MintError::MissingNonce),
                    Some(nonce) => {
                        match spec_reward(e.timestamp) {
                            None => Err(MintError::Overflow),
                            Some(amount) => {
                                match spec_mint(
                                    l,
                                    amount,
                                    ctx.user_ata,
                                    MintCapability { nonce },
                                ) {
                                    Err(err) => Err(err),
                                    Ok(l1) => {
                                        let collateral = spec_lamports(l1, addr);
                                        if spec_lamports(l1, ctx.user) + collateral > u64::MAX {
                                            Err(MintError::Overflow)
                                        } else {
                                            let l2 = spec_with_lamports(
                                                l1,
                                                ctx.user,
                                                (spec_lamports(l1, ctx.user) + collateral) as u64,
                                            );
                                            Ok(
                                                LedgerSnap {
                                                    slots: l2.slots.insert(
                                                        addr,
                                                        SlotSnap {
                                                            lamports: 0,
                                                            data: spec_closed_stamp(
                                                                spec_data(l, addr).len(),
                                                            ),
                                                        },
                                                    ),
                                                    tokens: l2.tokens,
                                                },
                                            )
                                        }
                                    },
                                }
                            },
                        }
                    },
                }
            }
        },
    }
}

/// Redeems a user's winnings and closes the record, securely: every mutation
/// of this request commits together or not at all, and afterwards the record
/// can never pay out again.
pub fn redeem_winnings_secure(ledger: &mut Ledger, ctx: RedeemWinningsSecure) -> (r: Result<
    (),
    MintError,
>)
    ensures
        match r {
            Ok(()) => spec_redeem_secure(old(ledger)@, ctx) == Ok::<LedgerSnap, MintError>(
                final(ledger)@,
            ),
            Err(e) => spec_redeem_secure(old(ledger)@, ctx) == Err::<LedgerSnap, MintError>(e)
                && final(ledger)@ == old(ledger)@,
        },
{
    let addr = record_address(ctx.user);
    let entry = match read_open_entry(ledger, addr) {
        Ok(e) => e,
        Err(e) => {
            return Err(e);
        },
    };
    if entry.user != ctx.user || entry.user_ata != ctx.user_ata || entry.bump != canonical_nonce(
        ctx.user,
    ) {
        return Err(MintError::Unauthorized);
    }
    let mctx = match ctx.mint_ctx() {
        Ok(c) => c,
        Err(e) => {
            return Err(e);
        },
    };
    let amount = match compute_reward(entry.timestamp) {
        Ok(a) => a,
        Err(e) => {
            return Err(e);
        },
    };
    // Every remaining failure is checked before any mutation, so a failing
    // request leaves the ledger exactly as it was.
    if !mctx.capability.is_valid() {
        return Err(MintError::Unauthorized);
    }
    let bal = ledger.token_balance(ctx.user_ata);
    if amount > u64::MAX - bal {
        return Err(MintError::Overflow);
    }
    let collateral = ledger.lamports_of(addr);
    let dest = ledger.lamports_of(ctx.user);
    if collateral > u64::MAX - dest {
        return Err(MintError::Overflow);
    }
    match mint(ledger, amount, &mctx) {
        Ok(()) => {},
        Err(e) => {
            // unreachable: the capability and the receiving balance were
            // checked just above, so the mint cannot fail here
            proof {
                assert(false);
            }
            return Err(e);
        },
    }
    ledger.set_lamports(ctx.user, dest + collateral);
    let stamp = closed_stamp(RECORD_LEN);
    ledger.set_slot(addr, AccountSlot { lamports: 0, data: stamp });
    Ok(())
}

} // verus!
