use vstd::prelude::*;

verus! {

/// Failures of the wallet registry and the transaction engine.
#[derive(Debug, PartialEq, Eq, Structural)]
pub enum BitcoinWalletError {
    /// No wallet is registered for the vault.
    VaultNotFound(u64),
    /// A wallet already exists for the vault; the second writer is rejected.
    VaultAlreadyExists(u64),
    /// The beneficiary list is malformed or an allocated amount is dust.
    InvalidHeirs,
    /// The vault's address holds no spendable outputs.
    NoUtxos(u64),
    /// The spendable total does not exceed the estimated fee.
    InsufficientFunds,
    /// The size-fee product overflows.
    FeeEstimationUnavailable,
    /// Key, signature or encoding failure, including arithmetic overflow.
    Crypto,
    /// The Bitcoin network oracle rejected a request.
    Network,
}

/// Failures of the guardian threshold registry and the share custody protocol.
#[derive(Debug, PartialEq, Eq, Structural)]
pub enum GuardianError {
    /// No guardian set is registered for the vault.
    VaultNotFound(u64),
    /// A guardian set already exists for the vault; the second writer is
    /// rejected.
    VaultAlreadyRegistered(u64),
    /// No guardian entry carries the given email hash.
    GuardianNotFound,
    /// The guardian is already bound to a different identity.
    PrincipalMismatch,
    /// The guardian has not accepted the invitation.
    GuardianNotAccepted,
    /// The guardian's share was already recorded.
    ShareAlreadySubmitted,
    /// The caller is not authorized for the operation.
    Unauthorized,
    /// The share payload exceeds the size cap.
    ShareTooLarge,
    /// The request shape is invalid: bad counts, threshold, emails or aliases.
    Validation,
    /// Key derivation or encryption failed.
    CryptoError,
    /// The system randomness source returned nothing.
    RandomnessUnavailable,
}

} // verus!
