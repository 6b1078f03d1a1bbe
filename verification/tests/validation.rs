//! Request validation and the stored byte shape: every error variant has an
//! input that produces it, and the codec is exercised against hand-built
//! bytes — including the framework's own closed-account sentinel.

use solana_close_account::record::{closed_stamp, decode_entry, encode_entry, zero_fill};
use solana_close_account::{
    enter_lottery, record_address, redeem_winnings_secure, EnterLottery, Ledger, LotteryAccount,
    MintError, RedeemWinningsSecure, MINT_AUTH_NONCE,
};

const USER: u64 = 7;
const ATA: u64 = 11;
const NOW: i64 = 12345;
const RENT: u64 = 500;

fn opened_ledger() -> Ledger {
    let mut ledger = Ledger::new();
    let r = enter_lottery(&mut ledger, EnterLottery { user: USER, user_ata: ATA }, NOW, RENT);
    assert_eq!(r, Ok(()));
    ledger
}

#[test]
fn redeem_without_record_is_type_mismatch() {
    let mut ledger = Ledger::new();
    let ctx = RedeemWinningsSecure {
        user: USER,
        user_ata: ATA,
        mint_auth_nonce: Some(MINT_AUTH_NONCE),
    };
    assert_eq!(redeem_winnings_secure(&mut ledger, ctx), Err(MintError::TypeMismatch));
}

#[test]
fn redeem_with_wrong_destination_is_unauthorized() {
    let mut ledger = opened_ledger();
    let ctx = RedeemWinningsSecure {
        user: USER,
        user_ata: ATA + 1,
        mint_auth_nonce: Some(MINT_AUTH_NONCE),
    };
    assert_eq!(redeem_winnings_secure(&mut ledger, ctx), Err(MintError::Unauthorized));
    assert_eq!(ledger.token_balance(ATA), 0);
    assert_eq!(ledger.token_balance(ATA + 1), 0);
}

#[test]
fn redeem_with_foreign_record_is_unauthorized() {
    let mut ledger = Ledger::new();
    // plant a record at USER's derived address that claims another owner
    let entry = LotteryAccount {
        user: USER + 1,
        bump: ((USER + 1) % 256) as u8,
        timestamp: NOW,
        user_ata: ATA,
    };
    ledger.set_account(record_address(USER), RENT, encode_entry(&entry));
    let ctx = RedeemWinningsSecure {
        user: USER,
        user_ata: ATA,
        mint_auth_nonce: Some(MINT_AUTH_NONCE),
    };
    assert_eq!(redeem_winnings_secure(&mut ledger, ctx), Err(MintError::Unauthorized));
}

#[test]
fn redeem_with_non_canonical_nonce_is_unauthorized() {
    let mut ledger = Ledger::new();
    // a stored derivation nonce that does not re-derive the address
    let wrong_bump = ((USER % 256) as u8).wrapping_add(1);
    let entry = LotteryAccount { user: USER, bump: wrong_bump, timestamp: NOW, user_ata: ATA };
    ledger.set_account(record_address(USER), RENT, encode_entry(&entry));
    let ctx = RedeemWinningsSecure {
        user: USER,
        user_ata: ATA,
        mint_auth_nonce: Some(MINT_AUTH_NONCE),
    };
    assert_eq!(redeem_winnings_secure(&mut ledger, ctx), Err(MintError::Unauthorized));
}

#[test]
fn redeem_without_mint_nonce_is_missing_nonce() {
    let mut ledger = opened_ledger();
    let ctx = RedeemWinningsSecure { user: USER, user_ata: ATA, mint_auth_nonce: None };
    assert_eq!(redeem_winnings_secure(&mut ledger, ctx), Err(MintError::MissingNonce));
}

#[test]
fn redeem_with_invalid_capability_is_unauthorized() {
    let mut ledger = opened_ledger();
    let ctx = RedeemWinningsSecure {
        user: USER,
        user_ata: ATA,
        mint_auth_nonce: Some(MINT_AUTH_NONCE.wrapping_add(1)),
    };
    assert_eq!(redeem_winnings_secure(&mut ledger, ctx), Err(MintError::Unauthorized));
    assert_eq!(ledger.token_balance(ATA), 0);
}

#[test]
fn encode_then_decode_returns_the_record() {
    let entry = LotteryAccount { user: 42, bump: 42, timestamp: -7, user_ata: 9000 };
    let bytes = encode_entry(&entry);
    assert_eq!(bytes.len(), 33);
    assert_eq!(decode_entry(&bytes), Ok(entry));
}

#[test]
fn closed_stamp_carries_the_framework_sentinel() {
    let stamp = closed_stamp(9);
    assert_eq!(&stamp[0..8], &anchor_lang::__private::CLOSED_ACCOUNT_DISCRIMINATOR);
    assert_eq!(stamp[8], 0);
}

#[test]
fn closed_or_blank_bytes_do_not_decode() {
    let stamp = closed_stamp(33);
    assert_eq!(stamp.len(), 33);
    assert_eq!(&stamp[0..8], &[255u8; 8]);
    assert_eq!(decode_entry(&stamp), Err(MintError::TypeMismatch));
    let zeroed = zero_fill(33);
    assert_eq!(decode_entry(&zeroed), Err(MintError::TypeMismatch));
    let truncated: Vec<u8> = Vec::new();
    assert_eq!(decode_entry(&truncated), Err(MintError::TypeMismatch));
}
