//! The error taxonomy of the service.  Every error aborts the single failing
//! request and leaves the ledger untouched; none is fatal to the service.

use vstd::prelude::*;

verus! {

/// Why a request was rejected.
#[derive(Clone, Copy, Debug, PartialEq, Eq, Structural)]
pub enum MintError {
    /// An open was attempted while a live record occupies the derived address.
    AlreadyInitialized,
    /// An operation expected an open record but the stored bytes do not have
    /// the open record's shape (this includes a correctly closed record).
    TypeMismatch,
    /// A drain target's bytes do not begin with the closed-account sentinel.
    InvalidDiscriminator,
    /// Owner, payout destination, derivation nonce, or signing capability did
    /// not match what the record or the minter requires.
    Unauthorized,
    /// Checked arithmetic on a balance or a reward would wrap.
    Overflow,
    /// The canonical derivation nonce for the mint authority was not supplied.
    MissingNonce,
}

} // verus!
