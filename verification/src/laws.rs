//! The guarantees — and the deliberate failures of guarantee — of the record
//! lifecycle, proved over the request transitions: opening is exclusive per
//! user, the reward is a fixed function of the creation time, a secure close
//! is terminal, an insecure close leaves a revival window, and the drain asks
//! for no authorization at all.

use vstd::prelude::*;

use crate::closer::{spec_redeem_secure, RedeemWinningsSecure};
use crate::defund::{spec_force_defund, ForceDefund};
use crate::errors::MintError;
use crate::insecure::{spec_redeem_insecure, RedeemWinnings};
use crate::ledger::{spec_data, spec_fund, spec_lamports, spec_token_balance, LedgerSnap};
use crate::minter::{spec_reward, MINT_AUTH_NONCE, REWARD_MULTIPLIER};
use crate::record::{
    lemma_blank_not_open, lemma_closed_not_open, lemma_closed_stamp_is_closed,
    lemma_decode_encode, lemma_encoded_not_blank, spec_decode, LotteryAccount, RECORD_LEN,
};
use crate::store::{
    lemma_record_address_distinct, spec_canonical_nonce, spec_enter, spec_record_address,
    spec_slot_blank, EnterLottery,
};

verus! {

/// Opening is exclusive per user: a successful open leaves the derived slot
/// visibly live, so an immediate second open for the same user fails with
/// `AlreadyInitialized` — whatever destination, time or collateral the second
/// request carries.  (The executable open leaves a failing ledger unchanged.)
pub proof fn lemma_open_uniqueness(
    l: LedgerSnap,
    ctx: EnterLottery,
    l2: LedgerSnap,
    ctx2: EnterLottery,
    now: i64,
    now2: i64,
    rent: u64,
    rent2: u64,
)
    requires
        spec_enter(l, ctx, now, rent) == Ok::<LedgerSnap, MintError>(l2),
        ctx2.user == ctx.user,
    ensures
        spec_enter(l2, ctx2, now2, rent2) == Err::<LedgerSnap, MintError>(
            MintError::AlreadyInitialized,
        ),
{
    let entry = LotteryAccount {
        user: ctx.user,
        bump: spec_canonical_nonce(ctx.user),
        timestamp: now,
        user_ata: ctx.user_ata,
    };
    lemma_encoded_not_blank(entry);
}

/// The reward is a deterministic function of the record alone: a successful
/// secure redeem raises the destination's token balance by exactly the stored
/// creation time (read unsigned) times the fixed multiplier.
pub proof fn lemma_secure_redeem_mints_reward(
    l: LedgerSnap,
    ctx: RedeemWinningsSecure,
    l2: LedgerSnap,
)
    requires
        spec_redeem_secure(l, ctx) == Ok::<LedgerSnap, MintError>(l2),
    ensures
        ({
            let e = spec_decode(spec_data(l, spec_record_address(ctx.user)))->Some_0;
            &&& spec_decode(spec_data(l, spec_record_address(ctx.user))) is Some
            &&& spec_reward(e.timestamp) == Some(((e.timestamp as u64) * REWARD_MULTIPLIER) as u64)
            &&& spec_token_balance(l2, ctx.user_ata) == spec_token_balance(l, ctx.user_ata) + (
            e.timestamp as u64) * REWARD_MULTIPLIER
        }),
{
}

/// A secure close is terminal: afterwards neither redeem path accepts the
/// same record address again (its bytes no longer deserialize as open), and
/// the whole collateral the record held has moved to its owner.
pub proof fn lemma_secure_close_terminal(
    l: LedgerSnap,
    ctx: RedeemWinningsSecure,
    l2: LedgerSnap,
    ctx2: RedeemWinningsSecure,
    ctx3: RedeemWinnings,
)
    requires
        spec_redeem_secure(l, ctx) == Ok::<LedgerSnap, MintError>(l2),
        spec_record_address(ctx2.user) == spec_record_address(ctx.user),
        spec_record_address(ctx3.user) == spec_record_address(ctx.user),
    ensures
        spec_redeem_secure(l2, ctx2) == Err::<LedgerSnap, MintError>(MintError::TypeMismatch),
        spec_redeem_insecure(l2, ctx3) == Err::<LedgerSnap, MintError>(MintError::TypeMismatch),
        spec_lamports(l2, spec_record_address(ctx.user)) == 0,
        spec_lamports(l2, ctx.user) == spec_lamports(l, ctx.user) + spec_lamports(
            l,
            spec_record_address(ctx.user),
        ),
{
    let addr = spec_record_address(ctx.user);
    lemma_record_address_distinct(ctx.user, ctx.user);
    assert(spec_data(l, addr).len() == RECORD_LEN);
    lemma_closed_stamp_is_closed(RECORD_LEN as nat);
    lemma_closed_not_open(spec_data(l2, addr));
}

/// The reward arithmetic is overflow-safe on the secure path: when the
/// record and the request are otherwise valid but the owner's balance plus
/// the record's collateral cannot be represented, the redeem fails with
/// `Overflow` (and the executable redeem then leaves every balance as it
/// was).
pub proof fn lemma_secure_redeem_overflow_safe(l: LedgerSnap, ctx: RedeemWinningsSecure)
    requires
        ({
            let e = spec_decode(spec_data(l, spec_record_address(ctx.user)))->Some_0;
            &&& spec_decode(spec_data(l, spec_record_address(ctx.user))) is Some
            &&& e.user == ctx.user
            &&& e.user_ata == ctx.user_ata
            &&& e.bump == spec_canonical_nonce(ctx.user)
            &&& ctx.mint_auth_nonce == Some(MINT_AUTH_NONCE)
            &&& spec_reward(e.timestamp) is Some
            &&& spec_token_balance(l, ctx.user_ata) + spec_reward(e.timestamp)->Some_0
                <= u64::MAX
            &&& spec_lamports(l, ctx.user) + spec_lamports(l, spec_record_address(ctx.user))
                > u64::MAX
        }),
    ensures
        spec_redeem_secure(l, ctx) == Err::<LedgerSnap, MintError>(MintError::Overflow),
{
}

/// The insecure close leaves a revival window: after it succeeds the record's
/// slot looks uninitialized again, so once any party re-funds the address,
/// an open for the same user succeeds a second time.
pub proof fn lemma_insecure_revival(
    l: LedgerSnap,
    ctx: RedeemWinnings,
    l2: LedgerSnap,
    refund: u64,
    l3: LedgerSnap,
    ctx2: EnterLottery,
    now2: i64,
    rent: u64,
)
    requires
        spec_redeem_insecure(l, ctx) == Ok::<LedgerSnap, MintError>(l2),
        spec_fund(l2, spec_record_address(ctx.user), refund) == Ok::<LedgerSnap, MintError>(l3),
        ctx2.user == ctx.user,
        spec_lamports(l3, spec_record_address(ctx.user)) + rent <= u64::MAX,
    ensures
        spec_slot_blank(l2, spec_record_address(ctx.user)),
        spec_slot_blank(l3, spec_record_address(ctx.user)),
        spec_redeem_insecure(l2, ctx) == Err::<LedgerSnap, MintError>(MintError::TypeMismatch),
        spec_enter(l3, ctx2, now2, rent) is Ok,
{
    let addr = spec_record_address(ctx.user);
    assert(spec_data(l2, addr) =~= Seq::new(RECORD_LEN as nat, |i: int| 0u8));
    assert(spec_data(l3, addr) == spec_data(l2, addr));
    lemma_blank_not_open(spec_data(l2, addr));
}

/// A record just opened redeems successfully on the insecure path whenever
/// the canonical mint nonce is supplied and no balance would wrap — and the
/// redeem mints the full reward for the recorded creation time.  Together
/// with the revival lemma, a re-funded, re-opened record pays a second full
/// reward to the same logical user.
pub proof fn lemma_open_then_redeem_ok(
    l: LedgerSnap,
    ctx: EnterLottery,
    now: i64,
    rent: u64,
    l2: LedgerSnap,
    rctx: RedeemWinnings,
)
    requires
        spec_enter(l, ctx, now, rent) == Ok::<LedgerSnap, MintError>(l2),
        rctx.user == ctx.user,
        rctx.user_ata == ctx.user_ata,
        rctx.mint_auth_nonce == Some(MINT_AUTH_NONCE),
        spec_reward(now) is Some,
        spec_token_balance(l2, ctx.user_ata) + spec_reward(now)->Some_0 <= u64::MAX,
        spec_lamports(l2, ctx.user) + spec_lamports(l2, spec_record_address(ctx.user))
            <= u64::MAX,
    ensures
        spec_redeem_insecure(l2, rctx) is Ok,
        spec_token_balance(spec_redeem_insecure(l2, rctx)->Ok_0, ctx.user_ata)
            == spec_token_balance(l2, ctx.user_ata) + spec_reward(now)->Some_0,
{
    let addr = spec_record_address(ctx.user);
    let entry = LotteryAccount {
        user: ctx.user,
        bump: spec_canonical_nonce(ctx.user),
        timestamp: now,
        user_ata: ctx.user_ata,
    };
    lemma_decode_encode(entry);
    lemma_record_address_distinct(ctx.user, ctx.user);
}

/// The drain is unauthenticated: whenever the addressed bytes carry the
/// closed sentinel and the transfer fits, it succeeds for a destination
/// chosen by anyone — no input names an owner — and moves the slot's whole
/// balance there.
pub proof fn lemma_defund_unauthenticated(l: LedgerSnap, ctx: ForceDefund)
    requires
        spec_is_closed_data(l, ctx.data_account),
        ctx.destination != ctx.data_account,
        spec_lamports(l, ctx.destination) + spec_lamports(l, ctx.data_account) <= u64::MAX,
    ensures
        spec_force_defund(l, ctx) is Ok,
        spec_lamports(spec_force_defund(l, ctx)->Ok_0, ctx.destination) == spec_lamports(
            l,
            ctx.destination,
        ) + spec_lamports(l, ctx.data_account),
        spec_lamports(spec_force_defund(l, ctx)->Ok_0, ctx.data_account) == 0,
{
}

/// The drain is overflow-safe: when the collateral plus the destination's
/// existing balance cannot be represented, it fails with `Overflow` (and the
/// executable drain then leaves both balances unchanged).
pub proof fn lemma_defund_overflow_safe(l: LedgerSnap, ctx: ForceDefund)
    requires
        spec_is_closed_data(l, ctx.data_account),
        spec_lamports(l, ctx.destination) + spec_lamports(l, ctx.data_account) > u64::MAX,
    ensures
        spec_force_defund(l, ctx) == Err::<LedgerSnap, MintError>(MintError::Overflow),
{
}

/// The bytes at an address are recognized as a closed account.
pub open spec fn spec_is_closed_data(l: LedgerSnap, addr: u64) -> bool {
    crate::discriminator::spec_is_closed(spec_data(l, addr))
}

} // verus!

