use vstd::prelude::*;

verus! {

/// The error taxonomy of the mint's protocol operations. Every failing
/// operation reports one distinguishing kind; none is swallowed.
#[derive(Clone, Copy, Debug, PartialEq, Eq, Structural)]
pub enum MintError {
    /// An amount is not in the denomination set (powers of two).
    InvalidAmount,
    /// A keyset id is not held by the keyset manager.
    UnknownKeyset,
    /// A proof's signature does not match the recomputed value.
    InvalidSignature,
    /// A secret in a melt/split batch was already recorded spent.
    DoubleSpend,
    /// Output amounts do not add up to the value they must match.
    AmountMismatch,
    /// Input proofs are worth less than invoice amount plus fee.
    InsufficientAmount,
    /// Minting was attempted while the quote is still pending.
    InvoiceNotPaidYet,
    /// The quote's time-to-live elapsed before it was paid.
    QuoteExpired,
    /// A second mint attempt against an already consumed quote.
    AlreadyConsumed,
    /// No quote is recorded under the given hash.
    UnknownQuote,
    /// A payment request string could not be decoded, or names no amount
    /// where one is needed.
    InvalidInvoice,
    /// The external Lightning gateway failed; reported by the shell.
    LightningGatewayError,
    /// A constraint of the persistence layer was violated, such as
    /// registering a second quote under an existing hash.
    PersistenceError,
    /// A curve operation on the carried bytes has no result, for example a
    /// blinded point that does not decode to a curve point.
    CryptoError,
}

} // verus!
