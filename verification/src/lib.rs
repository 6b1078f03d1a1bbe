//! A verified model of a ledger-resident lottery-entry lifecycle: a user opens
//! a per-user record, redeems a reward computed from its creation time, and the
//! record is retired so it cannot pay out twice.  Beside the secure close
//! protocol the crate keeps two deliberately flawed paths — a manual,
//! non-atomic closure and an unauthenticated drain — whose weaknesses are
//! stated in their contracts rather than hidden.

pub mod closer;
pub mod defund;
pub mod discriminator;
pub mod errors;
pub mod insecure;
pub mod laws;
pub mod ledger;
pub mod minter;
pub mod record;
pub mod store;

pub use closer::{redeem_winnings_secure, RedeemWinningsSecure};
pub use defund::{force_defund, ForceDefund};
pub use errors::MintError;
pub use insecure::{redeem_winnings_insecure, RedeemWinnings};
pub use ledger::{AccountSlot, Ledger};
pub use minter::{compute_reward, MintCapability, MintCtx, MINT_AUTH_NONCE, MINT_SEED};
pub use record::LotteryAccount;
pub use store::{enter_lottery, record_address, EnterLottery};

