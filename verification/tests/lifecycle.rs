//! End-to-end exercises of the record lifecycle: open, secure redeem,
//! insecure redeem with revival, and the forced drain.

use solana_close_account::{
    enter_lottery, force_defund, record_address, redeem_winnings_insecure,
    redeem_winnings_secure, EnterLottery, ForceDefund, Ledger, MintError, RedeemWinnings,
    RedeemWinningsSecure, MINT_AUTH_NONCE,
};

const USER: u64 = 7;
const ATA: u64 = 11;
const NOW: i64 = 12345;
const RENT: u64 = 500;

fn open_for(ledger: &mut Ledger, user: u64, ata: u64, now: i64, rent: u64) {
    let r = enter_lottery(ledger, EnterLottery { user, user_ata: ata }, now, rent);
    assert_eq!(r, Ok(()));
}

#[test]
fn open_records_the_entry() {
    let mut ledger = Ledger::new();
    open_for(&mut ledger, USER, ATA, NOW, RENT);
    let addr = record_address(USER);
    assert_ne!(addr, USER);
    assert_eq!(ledger.lamports_of(addr), RENT);
    let slot = ledger.get_slot(addr).expect("record slot exists");
    let entry = solana_close_account::record::decode_entry(&slot.data).expect("record is open");
    assert_eq!(entry.user, USER);
    assert_eq!(entry.user_ata, ATA);
    assert_eq!(entry.timestamp, NOW);
    assert_eq!(entry.bump, (USER % 256) as u8);
    assert_eq!(ledger.token_balance(ATA), 0);
}

#[test]
fn open_twice_fails_with_already_initialized() {
    let mut ledger = Ledger::new();
    open_for(&mut ledger, USER, ATA, NOW, RENT);
    let addr = record_address(USER);
    let before_data = ledger.get_slot(addr).unwrap().data.clone();
    let r = enter_lottery(&mut ledger, EnterLottery { user: USER, user_ata: ATA }, NOW + 5, RENT);
    assert_eq!(r, Err(MintError::AlreadyInitialized));
    // the failing call changed nothing
    assert_eq!(ledger.lamports_of(addr), RENT);
    assert_eq!(ledger.get_slot(addr).unwrap().data, before_data);
}

#[test]
fn secure_redeem_mints_exactly_ten_per_second() {
    let mut ledger = Ledger::new();
    open_for(&mut ledger, USER, ATA, NOW, RENT);
    // recomputing the reward before closing always yields the same value
    assert_eq!(solana_close_account::compute_reward(NOW), Ok((NOW as u64) * 10));
    assert_eq!(solana_close_account::compute_reward(NOW), Ok(123450));
    let ctx = RedeemWinningsSecure {
        user: USER,
        user_ata: ATA,
        mint_auth_nonce: Some(MINT_AUTH_NONCE),
    };
    assert_eq!(redeem_winnings_secure(&mut ledger, ctx), Ok(()));
    assert_eq!(ledger.token_balance(ATA), 123450);
}

#[test]
fn secure_close_is_terminal() {
    let mut ledger = Ledger::new();
    open_for(&mut ledger, USER, ATA, NOW, RENT);
    let addr = record_address(USER);
    let collateral_before = ledger.lamports_of(addr);
    let ctx = RedeemWinningsSecure {
        user: USER,
        user_ata: ATA,
        mint_auth_nonce: Some(MINT_AUTH_NONCE),
    };
    assert_eq!(redeem_winnings_secure(&mut ledger, ctx), Ok(()));
    // the collateral held before closing moved, in full, to the owner
    assert_eq!(ledger.lamports_of(USER), collateral_before);
    assert_eq!(ledger.lamports_of(addr), 0);
    // no later attempt on the same address deserializes it as open
    assert_eq!(redeem_winnings_secure(&mut ledger, ctx), Err(MintError::TypeMismatch));
    let ictx = RedeemWinnings { user: USER, user_ata: ATA, mint_auth_nonce: Some(MINT_AUTH_NONCE) };
    assert_eq!(redeem_winnings_insecure(&mut ledger, ictx), Err(MintError::TypeMismatch));
    // the closed bytes persist, so even a re-open is rejected
    let r = enter_lottery(&mut ledger, EnterLottery { user: USER, user_ata: ATA }, NOW, RENT);
    assert_eq!(r, Err(MintError::AlreadyInitialized));
    assert_eq!(ledger.token_balance(ATA), 123450);
}

#[test]
fn insecure_redeem_allows_revival_and_double_reward() {
    let mut ledger = Ledger::new();
    open_for(&mut ledger, USER, ATA, NOW, RENT);
    let addr = record_address(USER);
    let ictx = RedeemWinnings { user: USER, user_ata: ATA, mint_auth_nonce: Some(MINT_AUTH_NONCE) };
    assert_eq!(redeem_winnings_insecure(&mut ledger, ictx), Ok(()));
    assert_eq!(ledger.token_balance(ATA), 123450);
    assert_eq!(ledger.lamports_of(USER), RENT);
    // externally re-fund the drained slot with fresh collateral ...
    assert_eq!(ledger.fund(addr, 800), Ok(()));
    // ... and the same user can open again: the zero-filled slot looks blank
    let r = enter_lottery(&mut ledger, EnterLottery { user: USER, user_ata: ATA }, NOW, RENT);
    assert_eq!(r, Ok(()));
    // a second redeem mints a second full reward for the same logical entry
    assert_eq!(redeem_winnings_insecure(&mut ledger, ictx), Ok(()));
    assert_eq!(ledger.token_balance(ATA), 2 * 123450);
}

#[test]
fn force_defund_needs_no_authorization() {
    let mut ledger = Ledger::new();
    // any party can plant closed-looking bytes holding collateral ...
    let mut bytes: Vec<u8> = vec![255; 8];
    bytes.push(0);
    ledger.set_account(999, 5000, bytes);
    // ... and any unrelated party can name any destination and take it all
    let ctx = ForceDefund { data_account: 999, destination: 4242 };
    assert_eq!(force_defund(&mut ledger, ctx), Ok(()));
    assert_eq!(ledger.lamports_of(4242), 5000);
    assert_eq!(ledger.lamports_of(999), 0);
}

#[test]
fn force_defund_rejects_bytes_without_closed_sentinel() {
    let mut ledger = Ledger::new();
    // an open record is not drainable: its tag is not the closed sentinel
    open_for(&mut ledger, USER, ATA, NOW, RENT);
    let addr = record_address(USER);
    let ctx = ForceDefund { data_account: addr, destination: 4242 };
    assert_eq!(force_defund(&mut ledger, ctx), Err(MintError::InvalidDiscriminator));
    assert_eq!(ledger.lamports_of(addr), RENT);
    // too-short bytes are rejected even when every byte is 0xFF
    let short: Vec<u8> = vec![255; 8];
    ledger.set_account(1000, 77, short);
    let ctx2 = ForceDefund { data_account: 1000, destination: 4242 };
    assert_eq!(force_defund(&mut ledger, ctx2), Err(MintError::InvalidDiscriminator));
    // a near-miss prefix is rejected too
    let mut almost: Vec<u8> = vec![255; 7];
    almost.push(254);
    almost.push(0);
    ledger.set_account(1001, 77, almost);
    let ctx3 = ForceDefund { data_account: 1001, destination: 4242 };
    assert_eq!(force_defund(&mut ledger, ctx3), Err(MintError::InvalidDiscriminator));
    assert_eq!(ledger.lamports_of(4242), 0);
}

#[test]
fn force_defund_overflow_leaves_balances_unchanged() {
    let mut ledger = Ledger::new();
    let mut bytes: Vec<u8> = vec![255; 8];
    bytes.push(0);
    ledger.set_account(999, u64::MAX, bytes);
    ledger.set_account(4242, 1, Vec::new());
    let ctx = ForceDefund { data_account: 999, destination: 4242 };
    assert_eq!(force_defund(&mut ledger, ctx), Err(MintError::Overflow));
    assert_eq!(ledger.lamports_of(999), u64::MAX);
    assert_eq!(ledger.lamports_of(4242), 1);
}

#[test]
fn secure_redeem_collateral_overflow_leaves_balances_unchanged() {
    let mut ledger = Ledger::new();
    open_for(&mut ledger, USER, ATA, NOW, RENT);
    // the owner's wallet already holds so much that the collateral cannot fit
    assert_eq!(ledger.fund(USER, u64::MAX), Ok(()));
    let ctx = RedeemWinningsSecure {
        user: USER,
        user_ata: ATA,
        mint_auth_nonce: Some(MINT_AUTH_NONCE),
    };
    assert_eq!(redeem_winnings_secure(&mut ledger, ctx), Err(MintError::Overflow));
    assert_eq!(ledger.lamports_of(USER), u64::MAX);
    assert_eq!(ledger.lamports_of(record_address(USER)), RENT);
    assert_eq!(ledger.token_balance(ATA), 0);
}

#[test]
fn reward_overflow_aborts_redeem() {
    let mut ledger = Ledger::new();
    // a negative creation time reads as a huge unsigned value; the reward
    // product would wrap, so the whole request aborts with no partial mint
    open_for(&mut ledger, USER, ATA, -1, RENT);
    assert_eq!(solana_close_account::compute_reward(-1), Err(MintError::Overflow));
    let ctx = RedeemWinningsSecure {
        user: USER,
        user_ata: ATA,
        mint_auth_nonce: Some(MINT_AUTH_NONCE),
    };
    assert_eq!(redeem_winnings_secure(&mut ledger, ctx), Err(MintError::Overflow));
    assert_eq!(ledger.token_balance(ATA), 0);
    assert_eq!(ledger.lamports_of(record_address(USER)), RENT);
}
