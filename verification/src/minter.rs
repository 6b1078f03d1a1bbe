//! The reward minter: computes the reward owed to a record and issues it to a
//! token account, authorized by a narrowly-scoped signing capability that is
//! computed fresh per call from a fixed seed and a derivation nonce — never
//! stored, never a bearer secret.

use vstd::prelude::*;

use crate::errors::MintError;
use crate::ledger::{spec_token_balance, Ledger, LedgerSnap};

verus! {

/// The fixed seed from which the mint authority's address is derived.
pub const MINT_SEED: &'static str = "mint-seed";

/// The canonical derivation nonce of the mint authority under `MINT_SEED`
/// (a fixed value in this model of the address derivation).
pub const MINT_AUTH_NONCE: u8 = 254;

/// Units of reward currency minted per second of the record's creation time.
pub const REWARD_MULTIPLIER: u64 = 10;

/// A signing capability scoped to a single mint.  It proves control of the
/// mint authority: it is valid exactly when it was built from the canonical
/// derivation nonce for `MINT_SEED`.
#[derive(Clone, Copy, Debug, PartialEq, Eq, Structural)]
pub struct MintCapability {
    pub nonce: u8,
}

impl MintCapability {
    /// Whether this capability proves control of the mint authority.
    pub open spec fn spec_valid(&self) -> bool {
        self.nonce == MINT_AUTH_NONCE
    }

    /// Checks the capability against the canonical derivation.
    pub fn is_valid(&self) -> (r: bool)
        ensures
            r == self.spec_valid(),
    {
        self.nonce == MINT_AUTH_NONCE
    }
}

/// Everything one mint needs: the receiving token account and the capability.
#[derive(Clone, Copy, Debug, PartialEq, Eq, Structural)]
pub struct MintCtx {
    pub destination: u64,
    pub capability: MintCapability,
}

/// The reward owed to a record created at time `t`: `t`, read as an unsigned
/// 64-bit value, times the fixed multiplier; undefined when that product
/// would wrap.
pub open spec fn spec_reward(t: i64) -> Option<u64> {
    if (t as u64) > u64::MAX / REWARD_MULTIPLIER {
        None
    } else {
        Some((((t as u64) * REWARD_MULTIPLIER) as u64))
    }
}

/// Computes the reward amount with checked arithmetic; a product that would
/// wrap aborts the request with `Overflow` instead of minting a wrong amount.
pub fn compute_reward(t: i64) -> (r: Result<u64, MintError>)
    ensures
        match r {
            Ok(a) => spec_reward(t) == Some(a),
            Err(e) => spec_reward(t) is None && e == MintError::Overflow,
        },
{
    let u = #[verifier::truncate] (t as u64);
    if u > u64::MAX / REWARD_MULTIPLIER {
        Err(MintError::Overflow)
    } else {
        Ok(u * REWARD_MULTIPLIER)
    }
}

/// What a mint does to the ledger: rejects a capability that does not prove
/// control of the mint authority, rejects a receiving balance that would
/// wrap, and otherwise credits the destination with exactly `amount`.
pub open spec fn spec_mint(l: LedgerSnap, amount: u64, destination: u64, cap: MintCapability) -> Result<
    LedgerSnap,
    MintError,
> {
    if !cap.spec_valid() {
        Err(MintError::Unauthorized)
    } else if spec_token_balance(l, destination) + amount > u64::MAX {
        Err(MintError::Overflow)
    } else {
        Ok(
            LedgerSnap {
                slots: l.slots,
                tokens: l.tokens.insert(
                    destination,
                    (spec_token_balance(l, destination) + amount) as u64,
                ),
            },
        )
    }
}

/// Issues `amount` units of the reward currency to the context's destination,
/// authorized by the capability alone; all or nothing.
pub fn mint(ledger: &mut Ledger, amount: u64, ctx: &MintCtx) -> (r: Result<(), MintError>)
    ensures
        match r {
            Ok(()) => spec_mint(old(ledger)@, amount, ctx.destination, ctx.capability) == Ok::<
                LedgerSnap,
                MintError,
            >(final(ledger)@),
            Err(e) => spec_mint(old(ledger)@, amount, ctx.destination, ctx.capability) == Err::<
                LedgerSnap,
                MintError,
            >(e) && final(ledger)@ == old(ledger)@,
        },
{
    if !ctx.capability.is_valid() {
        return Err(MintError::Unauthorized);
    }
    let bal = ledger.token_balance(ctx.destination);
    if amount > u64::MAX - bal {
        return Err(MintError::Overflow);
    }
    ledger.set_token_balance(ctx.destination, bal + amount);
    Ok(())
}

} // verus!
