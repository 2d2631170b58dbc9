use vstd::prelude::*;
use vstd::string::StrSliceExecFns;

verus! {

// The mobile client's bridge hands each call over a message port to the
// host shell. The decision half of that dispatch lives here: every wire
// entry point builds the wallet command the shell must run, and the
// retry loop around minting is a state machine whose every terminal
// outcome is explicit.

/// A wallet operation requested over the bridge, for the host shell to
/// run against its wallet backend.
#[derive(Clone, Debug, PartialEq)]
pub enum WalletCommand {
    /// Render a QR code for the given amount.
    GenerateQrCode { amount: u8 },
    /// Open and migrate the wallet's local database.
    InitDb,
    /// Report the wallet's balance.
    GetBalance,
    /// Pay a bolt11 invoice from the wallet.
    PayInvoice { invoice: String },
    /// Receive an e-cash token of this mint's protocol.
    ImportCashuToken { token: String },
    /// Receive a token of the federated backend.
    ImportFedimintToken { token: String },
}

/// A token string is routed to the e-cash wallet exactly when it carries
/// the protocol's prefix.
pub open spec fn is_cashu_token(s: Seq<char>) -> bool {
    s.len() >= 5 && s[0] == 'c' && s[1] == 'a' && s[2] == 's' && s[3] == 'h' && s[4] == 'u'
}

/// Wire entry: requests a QR code for `amount`.
pub fn wire_generate_qrcode(amount: u8) -> (c: WalletCommand)
    ensures
        c == (WalletCommand::GenerateQrCode { amount }),
{
    WalletCommand::GenerateQrCode { amount }
}

/// Wire entry: requests database initialisation.
pub fn wire_init_db() -> (c: WalletCommand)
    ensures
        c == WalletCommand::InitDb,
{
    WalletCommand::InitDb
}

/// Wire entry: requests the wallet's balance.
pub fn wire_get_balance() -> (c: WalletCommand)
    ensures
        c == WalletCommand::GetBalance,
{
    WalletCommand::GetBalance
}

/// Wire entry: requests payment of an invoice.
pub fn wire_pay_invoice(invoice: String) -> (c: WalletCommand)
    ensures
        c == (WalletCommand::PayInvoice { invoice }),
{
    WalletCommand::PayInvoice { invoice }
}

/// Wire entry: imports a token, routed by its prefix to the e-cash
/// wallet or to the federated backend.
pub fn wire_import_token(token: String) -> (c: WalletCommand)
    ensures
        c == if is_cashu_token(token@) {
            (WalletCommand::ImportCashuToken { token })
        } else {
            (WalletCommand::ImportFedimintToken { token })
        },
{
    let cashu = token.as_str().unicode_len() >= 5 && token.as_str().get_char(0) == 'c'
        && token.as_str().get_char(1) == 'a' && token.as_str().get_char(2) == 's'
        && token.as_str().get_char(3) == 'h' && token.as_str().get_char(4) == 'u';
    if cashu {
        WalletCommand::ImportCashuToken { token }
    } else {
        WalletCommand::ImportFedimintToken { token }
    }
}

/// Where the wallet keeps its state: the browser target gets the
/// in-memory store, every other target the database at the given path.
#[derive(Clone, Debug, PartialEq)]
pub enum WalletBackend {
    Sqlite { db_path: String },
    InMemory,
}

/// Picks the wallet backend from the runtime target, one choice for all
/// call sites.
pub fn wallet_backend(web_target: bool, db_path: String) -> (b: WalletBackend)
    ensures
        b == if web_target {
            WalletBackend::InMemory
        } else {
            (WalletBackend::Sqlite { db_path })
        },
{
    if web_target {
        WalletBackend::InMemory
    } else {
        WalletBackend::Sqlite { db_path }
    }
}

/// The state of one bounded wait for a quote's payment: how many mint
/// attempts are left before the wait reports failure.
#[derive(Clone, Copy, Debug)]
pub struct MintPoll {
    pub amount: u64,
    pub attempts_left: u32,
}

/// What one mint attempt against the quote came back with.
#[derive(Clone, Copy, Debug, PartialEq)]
pub enum PollEvent {
    /// Minting succeeded for this total amount.
    Minted { total: u64 },
    /// The quote is not paid yet; the attempt may be retried.
    NotPaidYet,
    /// Minting failed for another reason; retrying is pointless.
    Failed,
}

/// What the shell must do next. Every way the wait can end is a terminal
/// decision: exhausting the attempts surfaces `GaveUpUnpaid` to the
/// caller instead of returning silently.
#[derive(Clone, Copy, Debug, PartialEq)]
pub enum PollDecision {
    /// Deliver the minted total to the caller.
    Deliver { total: u64 },
    /// Sleep this many milliseconds, attempt again, and report the event.
    Retry { millis: u64 },
    /// The quote was never paid within the allowed attempts.
    GaveUpUnpaid,
    /// Minting failed; surface the failure.
    GaveUpFailed,
}

/// Starts a bounded wait for tokens against a paid quote: thirty
/// attempts, one second apart.
pub fn poll_start(amount: u64) -> (s: MintPoll)
    ensures
        s.amount == amount,
        s.attempts_left == 30u32,
{
    MintPoll { amount, attempts_left: 30 }
}

/// Advances the wait by one observed event: success delivers, a hard
/// failure surfaces at once, and a still-unpaid quote is retried until
/// the attempts run out, which surfaces an explicit unpaid outcome.
pub fn poll_step(state: &mut MintPoll, event: PollEvent) -> (d: PollDecision)
    ensures
        final(state).amount == old(state).amount,
        match event {
            PollEvent::Minted { total } => d == (PollDecision::Deliver { total })
                && final(state).attempts_left == old(state).attempts_left,
            PollEvent::NotPaidYet => if old(state).attempts_left > 1 {
                d == (PollDecision::Retry { millis: 1000u64 })
                    && final(state).attempts_left == old(state).attempts_left - 1
            } else {
                d == PollDecision::GaveUpUnpaid && final(state).attempts_left == 0
            },
            PollEvent::Failed => d == PollDecision::GaveUpFailed && final(state).attempts_left
                == old(state).attempts_left,
        },
{
    match event {
        PollEvent::Minted { total } => PollDecision::Deliver { total },
        PollEvent::NotPaidYet => {
            if state.attempts_left > 1 {
                state.attempts_left = state.attempts_left - 1;
                PollDecision::Retry { millis: 1000 }
            } else {
                state.attempts_left = 0;
                PollDecision::GaveUpUnpaid
            }
        },
        PollEvent::Failed => PollDecision::GaveUpFailed,
    }
}

} // verus!
