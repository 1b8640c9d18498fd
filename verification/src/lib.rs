//! Programmable custody for a Bitcoin-denominated estate vault.
//!
//! Two cooperating engines share this crate. A wallet and transaction engine
//! derives one deposit address per vault, allocates a fee-aware payout among
//! weighted beneficiaries, and assembles a proportional inheritance
//! transaction over the vault's unspent outputs. A guardian threshold
//! registry manages a social-recovery quorum whose members each hold an
//! individually encrypted secret share, advancing each guardian through an
//! invited / accepted / share-submitted lifecycle.
//!
//! External oracles (key derivation, signing, randomness, the Bitcoin
//! network) act only at the edges: every decision between two oracle calls
//! stands here as a verified function over explicit state.

pub mod btc;
pub mod bytes;
pub mod custody;
pub mod digest;
pub mod email;
pub mod errors;
pub mod guardian;
pub mod lookup;
pub mod payout;
pub mod tx;
pub mod wallet;
