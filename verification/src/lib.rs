//! Core engine of a Chaumian e-cash mint.
//!
//! The crate holds the mint's protocol and ledger logic: per-denomination
//! keyset management, blind signing, proof verification, a spent-proof
//! ledger with all-or-nothing batch spending, and the invoice-lifecycle
//! coordinator that gates token issuance on Lightning payment. Network
//! transport, durable storage and the Lightning backend live outside; the
//! engine works on plain values handed in by the surrounding shell.

pub mod amount;
pub mod bridge;
pub mod bytes;
pub mod crypto;
pub mod error;
pub mod invoice;
pub mod keyset;
pub mod laws;
pub mod ledger;
pub mod mint;
pub mod quote;
pub mod signer;
pub mod validator;
