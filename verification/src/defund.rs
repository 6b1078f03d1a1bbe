//! The forced drain: given nothing but an address whose bytes begin with the
//! closed sentinel, it moves that slot's whole balance to a caller-chosen
//! destination.  There is no ownership, signer or derivation check — a byte
//! pattern is treated as if it were an authorization, which is exactly the
//! flaw this path reproduces on purpose.

use vstd::prelude::*;

use crate::discriminator::{check_closed, spec_is_closed};
use crate::errors::MintError;
use crate::ledger::{spec_data, spec_lamports, spec_with_lamports, Ledger, LedgerSnap};

verus! {

/// The drain request: an arbitrary record address and an arbitrary
/// destination, neither tied to any identity.
#[derive(Clone, Copy, Debug, PartialEq, Eq, Structural)]
pub struct ForceDefund {
    pub data_account: u64,
    pub destination: u64,
}

/// What a drain does: if the addressed bytes are longer than the tag and
/// begin with the closed sentinel — and nothing else is asked — the slot's
/// whole balance moves to the destination, whoever named it; only a receiving
/// balance that would wrap is rejected.
pub open spec fn spec_force_defund(l: LedgerSnap, ctx: ForceDefund) -> Result<
    LedgerSnap,
    MintError,
> {
    if !spec_is_closed(spec_data(l, ctx.data_account)) {
        Err(MintError::InvalidDiscriminator)
    } else if spec_lamports(l, ctx.destination) + spec_lamports(l, ctx.data_account) > u64::MAX {
        Err(MintError::Overflow)
    } else {
        let l1 = spec_with_lamports(
            l,
            ctx.destination,
            (spec_lamports(l, ctx.destination) + spec_lamports(l, ctx.data_account)) as u64,
        );
        Ok(spec_with_lamports(l1, ctx.data_account, 0))
    }
}

/// Drains the collateral of any record whose bytes carry the closed sentinel
/// to any destination.  The contract shows the flaw: no input of this request
/// names an owner, and success depends on stored bytes and balances alone.
pub fn force_defund(ledger: &mut Ledger, ctx: ForceDefund) -> (r: Result<(), MintError>)
    ensures
        match r {
            Ok(()) => spec_force_defund(old(ledger)@, ctx) == Ok::<LedgerSnap, MintError>(
                final(ledger)@,
            ),
            Err(e) => spec_force_defund(old(ledger)@, ctx) == Err::<LedgerSnap, MintError>(e)
                && final(ledger)@ == old(ledger)@,
        },
{
    let closed = match ledger.get_slot(ctx.data_account) {
        None => false,
        Some(slot) => match check_closed(&slot.data) {
            Ok(()) => true,
            Err(_) => false,
        },
    };
    if !closed {
        return Err(MintError::InvalidDiscriminator);
    }
    let collateral = ledger.lamports_of(ctx.data_account);
    let dest = ledger.lamports_of(ctx.destination);
    if collateral > u64::MAX - dest {
        return Err(MintError::Overflow);
    }
    ledger.set_lamports(ctx.destination, dest + collateral);
    ledger.set_lamports(ctx.data_account, 0);
    Ok(())
}

} // verus!
