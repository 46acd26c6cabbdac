//! A claim-and-sign library for single-use Bitcoin "drop" allocations.
//!
//! A campaign operator funds a legacy pay-to-pubkey-hash address and hands
//! out one-time claim credentials. Redeeming a credential deterministically
//! assembles an unsigned withdrawal transaction, computes the double-hash
//! digest an external threshold signer must sign, and, once the signer
//! replies, splices the signature into the transaction and emits its final
//! wire bytes. Credentials are consumed before the signing round-trip is
//! dispatched, so a credential can never initiate two claim attempts.

pub mod errors;
pub mod hexcodec;
pub mod hashing;
pub mod address;
pub mod bitcoin_tx;
pub mod external;
pub mod ecdsa;
pub mod registry;
pub mod store;
pub mod numfmt;
pub mod contract;
