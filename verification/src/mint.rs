use crate::amount::{lemma_sum_bounds, lemma_sum_push, sum_of};
use crate::bytes::clone_bytes;
use crate::error::MintError;
use crate::invoice::{bolt11_parts, invoice_amount_sat};
use crate::keyset::KeysetManager;
use crate::ledger::{batch_accepted, views_of, SpentProofLedger};
use crate::quote::{InvoiceCoordinator, MintQuote, QuoteStatus};
use crate::signer::{sign_blinded, sign_spec, BlindedMessage, Promise};
use crate::validator::{verify_proof, verify_spec, Proof};
use vstd::prelude::*;

verus! {

/// The fee charged on melting, added to the invoice amount the input
/// proofs must cover.
pub const FEE: u64 = 0;

/// The amounts of a batch of proofs.
pub open spec fn proof_amounts(proofs: Seq<Proof>) -> Seq<u64> {
    proofs.map_values(|p: Proof| p.amount)
}

/// The amounts of a batch of blinded messages.
pub open spec fn msg_amounts(msgs: Seq<BlindedMessage>) -> Seq<u64> {
    msgs.map_values(|m: BlindedMessage| m.amount)
}

/// The secrets of a batch of proofs.
pub open spec fn proof_secrets(proofs: Seq<Proof>) -> Seq<Seq<u8>> {
    proofs.map_values(|p: Proof| p.secret@)
}

/// The signed points of a batch of promises.
pub open spec fn promise_points(promises: Seq<Promise>) -> Seq<Seq<u8>> {
    promises.map_values(|p: Promise| p.c_point@)
}

/// Verifying a batch of proofs: the first failing proof's error, in
/// order, or success when every proof verifies.
pub open spec fn verify_all(km: KeysetManager, proofs: Seq<Proof>) -> Result<(), MintError>
    decreases proofs.len(),
{
    if proofs.len() == 0 {
        Ok(())
    } else {
        match verify_all(km, proofs.drop_last()) {
            Err(e) => Err(e),
            Ok(()) => verify_spec(km, proofs.last()),
        }
    }
}

/// Signing a batch of blinded messages under one keyset: the signed
/// points in order, or the first failing message's error.
pub open spec fn sign_all(km: KeysetManager, id: Seq<u8>, msgs: Seq<BlindedMessage>) -> Result<
    Seq<Seq<u8>>,
    MintError,
>
    decreases msgs.len(),
{
    if msgs.len() == 0 {
        Ok(Seq::empty())
    } else {
        match sign_all(km, id, msgs.drop_last()) {
            Err(e) => Err(e),
            Ok(points) => match sign_spec(km, id, msgs.last().amount, msgs.last().b_point@) {
                Err(e) => Err(e),
                Ok(c) => Ok(points.push(c)),
            },
        }
    }
}

/// A failing proof before position `i`, with the prefix up to it clean,
/// decides the whole batch.
proof fn lemma_verify_all_err(km: KeysetManager, proofs: Seq<Proof>, i: int, e: MintError)
    requires
        0 <= i < proofs.len(),
        verify_all(km, proofs.take(i)) == Ok::<(), MintError>(()),
        verify_spec(km, proofs[i]) == Err::<(), MintError>(e),
    ensures
        verify_all(km, proofs) == Err::<(), MintError>(e),
    decreases proofs.len(),
{
    if i + 1 == proofs.len() {
        assert(proofs.drop_last() =~= proofs.take(i));
        assert(proofs.last() == proofs[i]);
    } else {
        assert(proofs.drop_last().take(i) =~= proofs.take(i));
        assert(proofs.drop_last()[i] == proofs[i]);
        lemma_verify_all_err(km, proofs.drop_last(), i, e);
    }
}

/// A failing message before position `i`, with the prefix up to it
/// signable, decides the whole batch.
proof fn lemma_sign_all_err(
    km: KeysetManager,
    id: Seq<u8>,
    msgs: Seq<BlindedMessage>,
    i: int,
    e: MintError,
)
    requires
        0 <= i < msgs.len(),
        sign_all(km, id, msgs.take(i)) is Ok,
        sign_spec(km, id, msgs[i].amount, msgs[i].b_point@) == Err::<Seq<u8>, MintError>(e),
    ensures
        sign_all(km, id, msgs) == Err::<Seq<Seq<u8>>, MintError>(e),
    decreases msgs.len(),
{
    if i + 1 == msgs.len() {
        assert(msgs.drop_last() =~= msgs.take(i));
        assert(msgs.last() == msgs[i]);
    } else {
        assert(msgs.drop_last().take(i) =~= msgs.take(i));
        assert(msgs.drop_last()[i] == msgs[i]);
        lemma_sign_all_err(km, id, msgs.drop_last(), i, e);
    }
}

/// Batch verification never reports a value mismatch: its errors come
/// from single proofs.
proof fn lemma_verify_all_no_mismatch(km: KeysetManager, proofs: Seq<Proof>)
    ensures
        verify_all(km, proofs) != Err::<(), MintError>(MintError::AmountMismatch),
    decreases proofs.len(),
{
    if proofs.len() > 0 {
        lemma_verify_all_no_mismatch(km, proofs.drop_last());
    }
}

/// Batch signing never reports a value mismatch: its errors come from
/// single messages.
proof fn lemma_sign_all_no_mismatch(km: KeysetManager, id: Seq<u8>, msgs: Seq<BlindedMessage>)
    ensures
        sign_all(km, id, msgs) != Err::<Seq<Seq<u8>>, MintError>(MintError::AmountMismatch),
    decreases msgs.len(),
{
    if msgs.len() > 0 {
        lemma_sign_all_no_mismatch(km, id, msgs.drop_last());
    }
}

/// Verifies every proof of a batch in order, stopping at the first
/// failure.
pub fn verify_batch(km: &KeysetManager, proofs: &Vec<Proof>) -> (r: Result<(), MintError>)
    requires
        km.wf(),
    ensures
        r == verify_all(*km, proofs@),
{
    let mut i: usize = 0;
    while i < proofs.len()
        invariant
            km.wf(),
            i <= proofs@.len(),
            verify_all(*km, proofs@.take(i as int)) == Ok::<(), MintError>(()),
        decreases proofs@.len() - i,
    {
        match verify_proof(km, &proofs[i]) {
            Ok(()) => {},
            Err(e) => {
                proof {
                    lemma_verify_all_err(*km, proofs@, i as int, e);
                }
                return Err(e);
            },
        }
        proof {
            assert(proofs@.take(i + 1).drop_last() =~= proofs@.take(i as int));
            assert(proofs@.take(i + 1).last() == proofs@[i as int]);
        }
        i = i + 1;
    }
    proof {
        assert(proofs@.take(proofs@.len() as int) =~= proofs@);
    }
    Ok(())
}

/// Signs every blinded message of a batch in order under one keyset,
/// stopping at the first failure; on success one promise per message.
pub fn sign_outputs(km: &KeysetManager, id: &Vec<u8>, msgs: &Vec<BlindedMessage>) -> (r: Result<
    Vec<Promise>,
    MintError,
>)
    requires
        km.wf(),
    ensures
        match r {
            Ok(ps) => sign_all(*km, id@, msgs@) == Ok::<_, MintError>(promise_points(ps@))
                && ps@.len() == msgs@.len() && forall|k: int|
                0 <= k < ps@.len() ==> (#[trigger] ps@[k]).amount == msgs@[k].amount
                    && ps@[k].keyset_id@ == id@,
            Err(e) => sign_all(*km, id@, msgs@) == Err::<Seq<Seq<u8>>, MintError>(e),
        },
{
    let mut promises: Vec<Promise> = Vec::new();
    let mut i: usize = 0;
    proof {
        assert(msgs@.take(0) =~= Seq::<BlindedMessage>::empty());
        assert(promise_points(promises@) =~= Seq::<Seq<u8>>::empty());
    }
    while i < msgs.len()
        invariant
            km.wf(),
            i <= msgs@.len(),
            promises@.len() == i,
            sign_all(*km, id@, msgs@.take(i as int)) == Ok::<_, MintError>(
                promise_points(promises@),
            ),
            forall|k: int|
                0 <= k < i ==> (#[trigger] promises@[k]).amount == msgs@[k].amount
                    && promises@[k].keyset_id@ == id@,
        decreases msgs@.len() - i,
    {
        match sign_blinded(km, id, &msgs[i]) {
            Ok(p) => {
                proof {
                    assert(msgs@.take(i + 1).drop_last() =~= msgs@.take(i as int));
                    assert(msgs@.take(i + 1).last() == msgs@[i as int]);
                    assert(promise_points(promises@.push(p)) =~= promise_points(promises@).push(
                        p.c_point@,
                    ));
                }
                promises.push(p);
            },
            Err(e) => {
                proof {
                    lemma_sign_all_err(*km, id@, msgs@, i as int, e);
                }
                return Err(e);
            },
        }
        i = i + 1;
    }
    proof {
        assert(msgs@.take(msgs@.len() as int) =~= msgs@);
    }
    Ok(promises)
}

/// Adds up a batch of proof amounts without overflow.
pub fn sum_proof_amounts(proofs: &Vec<Proof>) -> (r: u128)
    ensures
        r as int == sum_of(proof_amounts(proofs@)),
{
    let ghost amounts = proof_amounts(proofs@);
    let mut sum: u128 = 0;
    let mut i: usize = 0;
    while i < proofs.len()
        invariant
            amounts == proof_amounts(proofs@),
            i <= proofs@.len(),
            sum as int == sum_of(amounts.take(i as int)),
        decreases proofs@.len() - i,
    {
        proof {
            lemma_sum_bounds(amounts.take(i as int));
            assert(amounts.take(i as int).len() * 0xffffffffffffffff + 0xffffffffffffffff
                < 0x100000000000000000000000000000000) by (nonlinear_arith)
                requires
                    amounts.take(i as int).len() <= 0xffffffffffffffff,
            ;
            lemma_sum_push(amounts.take(i as int), proofs@[i as int].amount);
            assert(amounts.take(i + 1) =~= amounts.take(i as int).push(proofs@[i as int].amount));
        }
        sum = sum + proofs[i].amount as u128;
        i = i + 1;
    }
    proof {
        assert(amounts.take(amounts.len() as int) =~= amounts);
    }
    sum
}

/// Adds up a batch of blinded-message amounts without overflow.
pub fn sum_msg_amounts(msgs: &Vec<BlindedMessage>) -> (r: u128)
    ensures
        r as int == sum_of(msg_amounts(msgs@)),
{
    let ghost amounts = msg_amounts(msgs@);
    let mut sum: u128 = 0;
    let mut i: usize = 0;
    while i < msgs.len()
        invariant
            amounts == msg_amounts(msgs@),
            i <= msgs@.len(),
            sum as int == sum_of(amounts.take(i as int)),
        decreases msgs@.len() - i,
    {
        proof {
            lemma_sum_bounds(amounts.take(i as int));
            assert(amounts.take(i as int).len() * 0xffffffffffffffff + 0xffffffffffffffff
                < 0x100000000000000000000000000000000) by (nonlinear_arith)
                requires
                    amounts.take(i as int).len() <= 0xffffffffffffffff,
            ;
            lemma_sum_push(amounts.take(i as int), msgs@[i as int].amount);
            assert(amounts.take(i + 1) =~= amounts.take(i as int).push(msgs@[i as int].amount));
        }
        sum = sum + msgs[i].amount as u128;
        i = i + 1;
    }
    proof {
        assert(amounts.take(amounts.len() as int) =~= amounts);
    }
    sum
}

/// Copies the secrets out of a batch of proofs.
fn collect_secrets(proofs: &Vec<Proof>) -> (r: Vec<Vec<u8>>)
    ensures
        views_of(r@) == proof_secrets(proofs@),
{
    let mut secrets: Vec<Vec<u8>> = Vec::new();
    let mut i: usize = 0;
    while i < proofs.len()
        invariant
            i <= proofs@.len(),
            secrets@.len() == i,
            forall|k: int| 0 <= k < i ==> (#[trigger] secrets@[k])@ == proofs@[k].secret@,
        decreases proofs@.len() - i,
    {
        let s = clone_bytes(&proofs[i].secret);
        secrets.push(s);
        i = i + 1;
    }
    proof {
        assert(views_of(secrets@) =~= proof_secrets(proofs@));
    }
    secrets
}

/// The position where a batch of promises is cut in two: the length of
/// the shortest prefix whose amounts add up to at least `target`, or the
/// whole length where they never do.
pub open spec fn split_point(amounts: Seq<u64>, target: int) -> int
    decreases amounts.len(),
{
    if target <= 0 {
        0
    } else if amounts.len() == 0 {
        0
    } else {
        1 + split_point(amounts.subrange(1, amounts.len() as int), target - amounts[0])
    }
}

/// The cut is never past the end of the batch.
pub proof fn lemma_split_point_bounds(amounts: Seq<u64>, target: int)
    ensures
        0 <= split_point(amounts, target) <= amounts.len(),
    decreases amounts.len(),
{
    if target > 0 && amounts.len() > 0 {
        lemma_split_point_bounds(amounts.subrange(1, amounts.len() as int), target - amounts[0]);
    }
}

/// The checks a melt performs before anything is spent: the decoded
/// invoice names the amount owed; every input proof verifies; the inputs
/// cover amount plus fee; the change outputs ask for exactly the overpaid
/// remainder; and the change can be signed. The result is the signed
/// change points.
pub open spec fn melt_check(
    km: KeysetManager,
    pr: Seq<char>,
    proofs: Seq<Proof>,
    outs: Seq<BlindedMessage>,
) -> Result<Seq<Seq<u8>>, MintError> {
    match bolt11_parts(pr) {
        None => Err(MintError::InvalidInvoice),
        Some((msat_opt, expiry)) => match msat_opt {
            None => Err(MintError::InvalidInvoice),
            Some(msat) => match verify_all(km, proofs) {
                Err(e) => Err(e),
                Ok(()) => if sum_of(proof_amounts(proofs)) < msat / 1000 + FEE {
                    Err(MintError::InsufficientAmount)
                } else if sum_of(msg_amounts(outs)) != sum_of(proof_amounts(proofs)) - msat / 1000
                    - FEE {
                    Err(MintError::AmountMismatch)
                } else {
                    sign_all(km, km.active_id(), outs)
                },
            },
        },
    }
}

/// The checks a split performs before anything is spent: output amounts
/// add up to input amounts; every input proof verifies; the outputs can
/// be signed. The result is the signed output points.
pub open spec fn split_check(
    km: KeysetManager,
    proofs: Seq<Proof>,
    outs: Seq<BlindedMessage>,
) -> Result<Seq<Seq<u8>>, MintError> {
    if sum_of(msg_amounts(outs)) != sum_of(proof_amounts(proofs)) {
        Err(MintError::AmountMismatch)
    } else {
        match verify_all(km, proofs) {
            Err(e) => Err(e),
            Ok(()) => sign_all(km, km.active_id(), outs),
        }
    }
}

/// A melt that passed its checks and spent its inputs: the invoice amount
/// the shell must now pay, and the change promises owed to the caller
/// whatever the payment's outcome.
#[derive(Debug)]
pub struct MeltAuthorization {
    pub invoice_amount: u64,
    pub change: Vec<Promise>,
}

/// The assembled result of a melt after the payment attempt.
#[derive(Debug)]
pub struct MeltOutcome {
    pub paid: bool,
    pub preimage: Option<String>,
    pub change: Vec<Promise>,
}

/// The mint's protocol engine: keysets, the spent-proof ledger, and the
/// quote table, composed into the protocol operations.
pub struct Mint {
    pub keysets: KeysetManager,
    pub ledger: SpentProofLedger,
    pub quotes: InvoiceCoordinator,
}

impl Mint {
    /// The composed well-formedness of the engine's state.
    pub open spec fn wf(self) -> bool {
        &&& self.keysets.wf()
        &&& self.quotes.wf()
    }

    /// A mint with one keyset derived from the master secret, an empty
    /// ledger, and an empty quote table with the given time-to-live.
    /// Succeeds whenever the master secret is derivable.
    pub fn new(master: &Vec<u8>, ttl: u64) -> (r: Result<Mint, MintError>)
        ensures
            match r {
                Ok(m) => m.wf() && m.keysets.keysets@.len() == 1
                    && m.keysets.keysets@[0].derived_from(master@) && (forall|s: Seq<u8>|
                    !m.ledger.spent(s)) && m.quotes.quotes@.len() == 0 && m.quotes.ttl == ttl,
                Err(e) => e == MintError::CryptoError && !crate::keyset::master_derivable(master@),
            },
            crate::keyset::master_derivable(master@) ==> r is Ok,
    {
        let keysets = match KeysetManager::from_master(master) {
            Ok(km) => km,
            Err(e) => {
                return Err(e);
            },
        };
        Ok(Mint { keysets, ledger: SpentProofLedger::new(), quotes: InvoiceCoordinator::new(ttl) })
    }

    /// The fee charged on top of a melted invoice's amount.
    pub fn check_fees(&self) -> (r: u64)
        ensures
            r == FEE,
    {
        FEE
    }

    /// Records the quote for an invoice the gateway created for `amount`;
    /// the shell hands in the gateway's payment request and hash.
    pub fn create_mint_quote(&mut self, amount: u64, pr: String, hash: Vec<u8>, now: u64) -> (r:
        Result<(), MintError>)
        requires
            old(self).wf(),
        ensures
            final(self).wf(),
            final(self).keysets == old(self).keysets,
            final(self).ledger == old(self).ledger,
            final(self).quotes.ttl == old(self).quotes.ttl,
            match r {
                Ok(()) => !old(self).quotes.has_quote(hash@) && final(self).quotes.quotes@ == old(
                    self,
                ).quotes.quotes@.push(
                    MintQuote {
                        hash,
                        pr,
                        amount,
                        status: QuoteStatus::Pending,
                        expiry: if now + old(self).quotes.ttl <= u64::MAX {
                            (now + old(self).quotes.ttl) as u64
                        } else {
                            u64::MAX
                        },
                    },
                ),
                Err(e) => e == MintError::PersistenceError && old(self).quotes.has_quote(hash@)
                    && final(self).quotes == old(self).quotes,
            },
    {
        self.quotes.register_quote(amount, pr, hash, now)
    }

    /// Invoked on confirmed external payment of the quote's invoice.
    pub fn mark_paid(&mut self, hash: &Vec<u8>, now: u64) -> (r: Result<(), MintError>)
        requires
            old(self).wf(),
        ensures
            final(self).wf(),
            final(self).keysets == old(self).keysets,
            final(self).ledger == old(self).ledger,
            final(self).quotes.ttl == old(self).quotes.ttl,
            match old(self).quotes.quote_index(hash@) {
                None => r == Err::<(), MintError>(MintError::UnknownQuote) && final(self).quotes
                    == old(self).quotes,
                Some(i) => {
                    let q = old(self).quotes.quotes@[i];
                    match q.status {
                        QuoteStatus::Pending => if now < q.expiry {
                            r == Ok::<(), MintError>(()) && final(self).quotes.quotes@ == old(
                                self,
                            ).quotes.moved_to(i, QuoteStatus::Paid)
                        } else {
                            r == Err::<(), MintError>(MintError::QuoteExpired) && final(self).quotes
                                == old(self).quotes
                        },
                        QuoteStatus::Paid => r == Ok::<(), MintError>(()) && final(self).quotes
                            == old(self).quotes,
                        QuoteStatus::Consumed => r == Ok::<(), MintError>(()) && final(self).quotes
                            == old(self).quotes,
                        QuoteStatus::Expired => r == Err::<(), MintError>(MintError::QuoteExpired)
                            && final(self).quotes == old(self).quotes,
                    }
                },
            },
    {
        self.quotes.mark_paid(hash, now)
    }

    /// Issues the tokens a paid quote gates: looks the quote up, owes
    /// `UnknownQuote`, `InvoiceNotPaidYet` (Pending within its
    /// time-to-live), `QuoteExpired` or `AlreadyConsumed` per the quote's
    /// state; for a Paid quote it signs every blinded output under the
    /// active keyset and only then consumes the quote, so a quote mints
    /// exactly once. A signing failure leaves the quote Paid.
    pub fn mint_tokens(&mut self, hash: &Vec<u8>, outputs: &Vec<BlindedMessage>, now: u64) -> (r:
        Result<Vec<Promise>, MintError>)
        requires
            old(self).wf(),
        ensures
            final(self).wf(),
            final(self).keysets == old(self).keysets,
            final(self).ledger == old(self).ledger,
            final(self).quotes.ttl == old(self).quotes.ttl,
            match r {
                Ok(ps) => {
                    let i = old(self).quotes.quote_index(hash@)->0;
                    &&& old(self).quotes.has_quote(hash@)
                    &&& old(self).quotes.quotes@[i].status == QuoteStatus::Paid
                    &&& sign_all(old(self).keysets, old(self).keysets.active_id(), outputs@)
                        == Ok::<_, MintError>(promise_points(ps@))
                    &&& ps@.len() == outputs@.len()
                    &&& forall|k: int|
                        0 <= k < ps@.len() ==> (#[trigger] ps@[k]).amount == outputs@[k].amount
                            && ps@[k].keyset_id@ == old(self).keysets.active_id()
                    &&& final(self).quotes.quotes@ == old(self).quotes.moved_to(
                        i,
                        QuoteStatus::Consumed,
                    )
                },
                Err(e) => final(self).quotes == old(self).quotes && (match old(
                    self,
                ).quotes.quote_index(hash@) {
                    None => e == MintError::UnknownQuote,
                    Some(i) => {
                        let q = old(self).quotes.quotes@[i];
                        match q.status {
                            QuoteStatus::Pending => if now < q.expiry {
                                e == MintError::InvoiceNotPaidYet
                            } else {
                                e == MintError::QuoteExpired
                            },
                            QuoteStatus::Expired => e == MintError::QuoteExpired,
                            QuoteStatus::Consumed => e == MintError::AlreadyConsumed,
                            QuoteStatus::Paid => sign_all(
                                old(self).keysets,
                                old(self).keysets.active_id(),
                                outputs@,
                            ) == Err::<Seq<Seq<u8>>, MintError>(e),
                        }
                    },
                }),
            },
    {
        let i = match self.quotes.find_quote(hash) {
            Some(i) => i,
            None => {
                return Err(MintError::UnknownQuote);
            },
        };
        match self.quotes.quotes[i].status {
            QuoteStatus::Pending => {
                if now < self.quotes.quotes[i].expiry {
                    Err(MintError::InvoiceNotPaidYet)
                } else {
                    Err(MintError::QuoteExpired)
                }
            },
            QuoteStatus::Expired => Err(MintError::QuoteExpired),
            QuoteStatus::Consumed => Err(MintError::AlreadyConsumed),
            QuoteStatus::Paid => {
                let active_id = clone_bytes(&self.keysets.keysets[self.keysets.active].id);
                let promises = match sign_outputs(&self.keysets, &active_id, outputs) {
                    Ok(ps) => ps,
                    Err(e) => {
                        return Err(e);
                    },
                };
                match self.quotes.consume(hash) {
                    Ok(()) => Ok(promises),
                    Err(_) => {
                        proof {
                            assert(false);
                        }
                        Err(MintError::AlreadyConsumed)
                    },
                }
            },
        }
    }

    /// Redeems input proofs against an invoice: every proof must verify,
    /// the inputs must cover the invoice amount plus fee
    /// (`InsufficientAmount`), the change outputs must ask for exactly
    /// the overpaid remainder (`AmountMismatch`), and the whole batch of
    /// secrets is spent atomically (`DoubleSpend` leaves the ledger
    /// unchanged). Only after the batch is spent may the shell pay the
    /// invoice: spend-then-pay is deliberate, and a failed payment is not
    /// rolled back — the change promises compensate overpayment only.
    pub fn melt(&mut self, pr: &String, proofs: &Vec<Proof>, change_outputs: &Vec<BlindedMessage>)
        -> (r: Result<MeltAuthorization, MintError>)
        requires
            old(self).wf(),
        ensures
            final(self).wf(),
            final(self).keysets == old(self).keysets,
            final(self).quotes == old(self).quotes,
            match r {
                Ok(auth) => {
                    &&& melt_check(old(self).keysets, pr@, proofs@, change_outputs@) == Ok::<
                        _,
                        MintError,
                    >(promise_points(auth.change@))
                    &&& auth.change@.len() == change_outputs@.len()
                    &&& forall|k: int|
                        0 <= k < auth.change@.len() ==> (#[trigger] auth.change@[k]).amount
                            == change_outputs@[k].amount && auth.change@[k].keyset_id@ == old(
                            self,
                        ).keysets.active_id()
                    &&& (bolt11_parts(pr@)->0).0 matches Some(msat) && auth.invoice_amount == msat
                        / 1000
                    &&& batch_accepted(old(self).ledger, proof_secrets(proofs@))
                    &&& forall|s: Seq<u8>|
                        final(self).ledger.spent(s) <==> (old(self).ledger.spent(s)
                            || proof_secrets(proofs@).contains(s))
                },
                Err(e) => final(self).ledger == old(self).ledger && (match melt_check(
                    old(self).keysets,
                    pr@,
                    proofs@,
                    change_outputs@,
                ) {
                    Err(e0) => e == e0,
                    Ok(_) => e == MintError::DoubleSpend && !batch_accepted(
                        old(self).ledger,
                        proof_secrets(proofs@),
                    ),
                }),
            },
    {
        let amount_sat = match invoice_amount_sat(pr) {
            Ok(a) => a,
            Err(e) => {
                return Err(e);
            },
        };
        match verify_batch(&self.keysets, proofs) {
            Ok(()) => {},
            Err(e) => {
                return Err(e);
            },
        }
        let total = sum_proof_amounts(proofs);
        if total < amount_sat as u128 + FEE as u128 {
            return Err(MintError::InsufficientAmount);
        }
        let change_due = total - amount_sat as u128 - FEE as u128;
        let outs_total = sum_msg_amounts(change_outputs);
        if outs_total != change_due {
            return Err(MintError::AmountMismatch);
        }
        let active_id = clone_bytes(&self.keysets.keysets[self.keysets.active].id);
        let change = match sign_outputs(&self.keysets, &active_id, change_outputs) {
            Ok(ps) => ps,
            Err(e) => {
                return Err(e);
            },
        };
        let secrets = collect_secrets(proofs);
        match self.ledger.try_spend_batch(&secrets) {
            Ok(()) => Ok(MeltAuthorization { invoice_amount: amount_sat, change }),
            Err(e) => Err(e),
        }
    }

    /// Assembles the melt response once the shell has attempted the
    /// payment: the gateway's outcome and preimage, and the change owed
    /// from the authorization, unchanged.
    pub fn melt_finalize(auth: MeltAuthorization, paid: bool, preimage: Option<String>) -> (r:
        MeltOutcome)
        ensures
            r.paid == paid,
            r.preimage == preimage,
            r.change == auth.change,
    {
        MeltOutcome { paid, preimage, change: auth.change }
    }

    /// Exchanges input proofs for newly signed outputs of equal total
    /// value: fails `AmountMismatch` exactly when the output amounts do
    /// not add up to the input amounts, before anything is spent; then
    /// verifies and atomically spends the inputs as a melt does, signs
    /// the outputs under the active keyset, and cuts the promises where
    /// their running amount sum first reaches `amount`, preserving the
    /// caller's order.
    pub fn split(&mut self, amount: u64, proofs: &Vec<Proof>, outputs: &Vec<BlindedMessage>) -> (r:
        Result<(Vec<Promise>, Vec<Promise>), MintError>)
        requires
            old(self).wf(),
        ensures
            final(self).wf(),
            final(self).keysets == old(self).keysets,
            final(self).quotes == old(self).quotes,
            match r {
                Ok(parts) => {
                    let cs = split_check(old(self).keysets, proofs@, outputs@)->Ok_0;
                    let cut = split_point(msg_amounts(outputs@), amount as int);
                    &&& split_check(old(self).keysets, proofs@, outputs@) is Ok
                    &&& promise_points(parts.0@) == cs.take(cut)
                    &&& promise_points(parts.1@) == cs.skip(cut)
                    &&& parts.0@.len() + parts.1@.len() == outputs@.len()
                    &&& forall|k: int|
                        0 <= k < parts.0@.len() ==> (#[trigger] parts.0@[k]).amount
                            == outputs@[k].amount && parts.0@[k].keyset_id@ == old(
                            self,
                        ).keysets.active_id()
                    &&& forall|k: int|
                        0 <= k < parts.1@.len() ==> (#[trigger] parts.1@[k]).amount == outputs@[k
                            + cut].amount && parts.1@[k].keyset_id@ == old(self).keysets.active_id()
                    &&& batch_accepted(old(self).ledger, proof_secrets(proofs@))
                    &&& forall|s: Seq<u8>|
                        final(self).ledger.spent(s) <==> (old(self).ledger.spent(s)
                            || proof_secrets(proofs@).contains(s))
                },
                Err(e) => final(self).ledger == old(self).ledger && (match split_check(
                    old(self).keysets,
                    proofs@,
                    outputs@,
                ) {
                    Err(e0) => e == e0,
                    Ok(_) => e == MintError::DoubleSpend && !batch_accepted(
                        old(self).ledger,
                        proof_secrets(proofs@),
                    ),
                }),
            },
            r matches Err(MintError::AmountMismatch) <==> sum_of(msg_amounts(outputs@)) != sum_of(
                proof_amounts(proofs@),
            ),
    {
        let total_in = sum_proof_amounts(proofs);
        let total_out = sum_msg_amounts(outputs);
        if total_out != total_in {
            return Err(MintError::AmountMismatch);
        }
        match verify_batch(&self.keysets, proofs) {
            Ok(()) => {},
            Err(e) => {
                proof {
                    lemma_verify_all_no_mismatch(self.keysets, proofs@);
                }
                return Err(e);
            },
        }
        let active_id = clone_bytes(&self.keysets.keysets[self.keysets.active].id);
        let mut promises = match sign_outputs(&self.keysets, &active_id, outputs) {
            Ok(ps) => ps,
            Err(e) => {
                proof {
                    lemma_sign_all_no_mismatch(self.keysets, active_id@, outputs@);
                }
                return Err(e);
            },
        };
        let secrets = collect_secrets(proofs);
        match self.ledger.try_spend_batch(&secrets) {
            Ok(()) => {},
            Err(e) => {
                return Err(e);
            },
        }
        let ghost amounts = msg_amounts(outputs@);
        let ghost target = amount as int;
        let mut cut: usize = 0;
        let mut acc: u128 = 0;
        proof {
            assert(amounts.skip(0) =~= amounts);
            assert(amounts.take(0) =~= Seq::<u64>::empty());
        }
        while cut < promises.len() && acc < amount as u128
            invariant
                target == amount as int,
                amounts == msg_amounts(outputs@),
                promises@.len() == amounts.len(),
                forall|k: int|
                    0 <= k < promises@.len() ==> (#[trigger] promises@[k]).amount == amounts[k],
                cut <= promises@.len(),
                acc as int == sum_of(amounts.take(cut as int)),
                split_point(amounts, target) == cut + split_point(
                    amounts.skip(cut as int),
                    target - acc,
                ),
            decreases promises@.len() - cut,
        {
            proof {
                lemma_sum_bounds(amounts.take(cut as int));
                assert(amounts.take(cut as int).len() * 0xffffffffffffffff + 0xffffffffffffffff
                    < 0x100000000000000000000000000000000) by (nonlinear_arith)
                    requires
                        amounts.take(cut as int).len() <= 0xffffffffffffffff,
                ;
                lemma_sum_push(amounts.take(cut as int), promises@[cut as int].amount);
                assert(amounts.take(cut + 1) =~= amounts.take(cut as int).push(
                    amounts[cut as int],
                ));
                assert(amounts.skip(cut as int).subrange(1, amounts.skip(cut as int).len() as int)
                    =~= amounts.skip(cut + 1));
                assert(amounts.skip(cut as int)[0] == amounts[cut as int]);
                assert(target - acc > 0);
                assert(split_point(amounts.skip(cut as int), target - acc) == 1 + split_point(
                    amounts.skip(cut + 1),
                    target - acc - amounts[cut as int],
                ));
            }
            acc = acc + promises[cut].amount as u128;
            cut = cut + 1;
        }
        proof {
            if acc >= amount as u128 {
                assert(split_point(amounts.skip(cut as int), target - acc) == 0);
            } else {
                assert(cut == promises@.len());
                assert(amounts.skip(cut as int).len() == 0);
            }
            assert(split_point(amounts, target) == cut as int);
            lemma_split_point_bounds(amounts, target);
        }
        let ghost all = promises@;
        let snd = promises.split_off(cut);
        let fst = promises;
        proof {
            assert(promise_points(fst@) =~= promise_points(all).take(cut as int));
            assert(promise_points(snd@) =~= promise_points(all).skip(cut as int));
            assert(promise_points(all).take(cut as int) =~= (split_check(
                old(self).keysets,
                proofs@,
                outputs@,
            )->Ok_0).take(cut as int));
            assert(promise_points(all).skip(cut as int) =~= (split_check(
                old(self).keysets,
                proofs@,
                outputs@,
            )->Ok_0).skip(cut as int));
        }
        Ok((fst, snd))
    }

    /// Lists the public keys of the active keyset, one pair of amount and
    /// compressed public key per denomination.
    pub fn list_keys(&self) -> (r: Vec<(u64, Vec<u8>)>)
        requires
            self.wf(),
        ensures
            r@.len() == 64,
            forall|j: int|
                0 <= j < r@.len() ==> {
                    let ks = self.keysets.keysets@[self.keysets.active as int];
                    (#[trigger] r@[j]).0 == ks.keys@[j].amount && r@[j].1@ == ks.keys@[j].pk@
                },
    {
        let keyset = self.keysets.active_keyset();
        let mut pairs: Vec<(u64, Vec<u8>)> = Vec::new();
        let mut j: usize = 0;
        while j < keyset.keys.len()
            invariant
                j <= keyset.keys@.len(),
                pairs@.len() == j,
                *keyset == self.keysets.keysets@[self.keysets.active as int],
                forall|k: int|
                    0 <= k < j ==> (#[trigger] pairs@[k]).0 == keyset.keys@[k].amount
                        && pairs@[k].1@ == keyset.keys@[k].pk@,
            decreases keyset.keys@.len() - j,
        {
            let pk = clone_bytes(&keyset.keys[j].pk);
            let amount = keyset.keys[j].amount;
            pairs.push((amount, pk));
            j = j + 1;
        }
        pairs
    }

    /// Lists the identifiers of every held keyset.
    pub fn list_keysets(&self) -> (r: Vec<Vec<u8>>)
        ensures
            r@.len() == self.keysets.keysets@.len(),
            forall|i: int|
                0 <= i < r@.len() ==> (#[trigger] r@[i])@ == self.keysets.keysets@[i].id@,
    {
        self.keysets.list_keyset_ids()
    }
}

} // verus!
