use crate::bytes::bytes_eq;
use crate::error::MintError;
use vstd::prelude::*;

verus! {

/// The lifecycle of a mint quote. Pending quotes become Paid on external
/// payment confirmation, Consumed on successful minting, or Expired when
/// their time-to-live elapses; Consumed and Expired are terminal.
#[derive(Clone, Copy, Debug, PartialEq, Eq, Structural)]
pub enum QuoteStatus {
    Pending,
    Paid,
    Consumed,
    Expired,
}

/// A pending amount/invoice pairing that must be paid before tokens may
/// be issued against it.
#[derive(Clone, Debug)]
pub struct MintQuote {
    pub hash: Vec<u8>,
    pub pr: String,
    pub amount: u64,
    pub status: QuoteStatus,
    pub expiry: u64,
}

/// The first position from `i` on whose quote carries `hash`.
pub open spec fn quote_find_from(quotes: Seq<MintQuote>, hash: Seq<u8>, i: int) -> Option<int>
    decreases quotes.len() - i,
{
    if i < 0 || i >= quotes.len() {
        None
    } else if quotes[i].hash@ == hash {
        Some(i)
    } else {
        quote_find_from(quotes, hash, i + 1)
    }
}

/// Tracks every quote, keyed by invoice hash, with a fixed time-to-live
/// for new quotes. Quotes are created Pending and mutated only here.
pub struct InvoiceCoordinator {
    pub quotes: Vec<MintQuote>,
    pub ttl: u64,
}

impl InvoiceCoordinator {
    /// Quote hashes are pairwise distinct.
    pub open spec fn wf(self) -> bool {
        forall|i: int, j: int|
            0 <= i < j < self.quotes@.len() ==> (#[trigger] self.quotes@[i]).hash@ != (
            #[trigger] self.quotes@[j]).hash@
    }

    /// The position of the quote carrying `hash`.
    pub open spec fn quote_index(self, hash: Seq<u8>) -> Option<int> {
        quote_find_from(self.quotes@, hash, 0)
    }

    /// Whether a quote is recorded under `hash`.
    pub open spec fn has_quote(self, hash: Seq<u8>) -> bool {
        self.quote_index(hash) is Some
    }

    /// The quote recorded under `hash`; meaningful when one exists.
    pub open spec fn quote_at(self, hash: Seq<u8>) -> MintQuote {
        self.quotes@[self.quote_index(hash)->0]
    }

    /// The quote sequence after the quote at `i` moved to `status`,
    /// everything else unchanged.
    pub open spec fn moved_to(self, i: int, status: QuoteStatus) -> Seq<MintQuote> {
        self.quotes@.update(i, MintQuote { status, ..self.quotes@[i] })
    }

    /// A coordinator with no quotes and the given time-to-live.
    pub fn new(ttl: u64) -> (r: InvoiceCoordinator)
        ensures
            r.wf(),
            r.quotes@.len() == 0,
            r.ttl == ttl,
    {
        InvoiceCoordinator { quotes: Vec::new(), ttl }
    }

    /// Finds the position of the quote carrying `hash`.
    pub fn find_quote(&self, hash: &Vec<u8>) -> (r: Option<usize>)
        ensures
            match r {
                Some(i) => i < self.quotes@.len() && self.quote_index(hash@) == Some(i as int),
                None => !self.has_quote(hash@),
            },
    {
        let mut i: usize = 0;
        while i < self.quotes.len()
            invariant
                i <= self.quotes@.len(),
                self.quote_index(hash@) == quote_find_from(self.quotes@, hash@, i as int),
            decreases self.quotes@.len() - i,
        {
            if bytes_eq(&self.quotes[i].hash, hash) {
                return Some(i);
            }
            i = i + 1;
        }
        None
    }

    /// Records a Pending quote for an invoice the gateway created: the
    /// payment request, its hash, and the amount it is sized for. The
    /// quote expires `ttl` after `now` (saturating). Registering a second
    /// quote under a held hash violates the store's uniqueness and fails
    /// `PersistenceError` with nothing changed.
    pub fn register_quote(&mut self, amount: u64, pr: String, hash: Vec<u8>, now: u64) -> (r:
        Result<(), MintError>)
        requires
            old(self).wf(),
        ensures
            final(self).wf(),
            final(self).ttl == old(self).ttl,
            match r {
                Ok(()) => !old(self).has_quote(hash@) && final(self).quotes@ == old(
                    self,
                ).quotes@.push(
                    MintQuote {
                        hash,
                        pr,
                        amount,
                        status: QuoteStatus::Pending,
                        expiry: if now + old(self).ttl <= u64::MAX {
                            (now + old(self).ttl) as u64
                        } else {
                            u64::MAX
                        },
                    },
                ),
                Err(e) => e == MintError::PersistenceError && old(self).has_quote(hash@)
                    && *final(self) == *old(self),
            },
    {
        if self.find_quote(&hash).is_some() {
            return Err(MintError::PersistenceError);
        }
        let expiry = match now.checked_add(self.ttl) {
            Some(e) => e,
            None => u64::MAX,
        };
        let quote = MintQuote { hash, pr, amount, status: QuoteStatus::Pending, expiry };
        proof {
            lemma_find_absent_push(self.quotes@, quote);
        }
        self.quotes.push(quote);
        Ok(())
    }

    /// Replaces the quote at a held position, keeping its hash.
    fn replace_at(&mut self, i: usize, status: QuoteStatus)
        requires
            old(self).wf(),
            i < old(self).quotes@.len(),
        ensures
            final(self).wf(),
            final(self).ttl == old(self).ttl,
            final(self).quotes@ == old(self).moved_to(i as int, status),
    {
        let q = self.quotes.remove(i);
        let updated = MintQuote { status, ..q };
        self.quotes.insert(i, updated);
        proof {
            assert(self.quotes@ =~= old(self).moved_to(i as int, status));
            assert forall|a: int, b: int|
                0 <= a < b < self.quotes@.len() implies (#[trigger] self.quotes@[a]).hash@ != (
            #[trigger] self.quotes@[b]).hash@ by {
                assert(self.quotes@[a].hash@ == old(self).quotes@[a].hash@);
                assert(self.quotes@[b].hash@ == old(self).quotes@[b].hash@);
            }
        }
    }

    /// Invoked on confirmed external payment: a Pending quote within its
    /// time-to-live becomes Paid; a no-op if the quote is already Paid or
    /// Consumed; fails `QuoteExpired` if the time-to-live elapsed while
    /// the quote was still Pending, or after an expiry sweep; fails
    /// `UnknownQuote` if no quote carries the hash. Nothing else changes.
    pub fn mark_paid(&mut self, hash: &Vec<u8>, now: u64) -> (r: Result<(), MintError>)
        requires
            old(self).wf(),
        ensures
            final(self).wf(),
            final(self).ttl == old(self).ttl,
            match old(self).quote_index(hash@) {
                None => r == Err::<(), MintError>(MintError::UnknownQuote) && *final(self) == *old(
                    self,
                ),
                Some(i) => {
                    let q = old(self).quotes@[i];
                    match q.status {
                        QuoteStatus::Pending => if now < q.expiry {
                            r == Ok::<(), MintError>(()) && final(self).quotes@ == old(
                                self,
                            ).moved_to(i, QuoteStatus::Paid)
                        } else {
                            r == Err::<(), MintError>(MintError::QuoteExpired) && *final(self)
                                == *old(self)
                        },
                        QuoteStatus::Paid => r == Ok::<(), MintError>(()) && *final(self) == *old(
                            self,
                        ),
                        QuoteStatus::Consumed => r == Ok::<(), MintError>(()) && *final(self)
                            == *old(self),
                        QuoteStatus::Expired => r == Err::<(), MintError>(MintError::QuoteExpired)
                            && *final(self) == *old(self),
                    }
                },
            },
    {
        let i = match self.find_quote(hash) {
            Some(i) => i,
            None => {
                return Err(MintError::UnknownQuote);
            },
        };
        match self.quotes[i].status {
            QuoteStatus::Pending => {
                if now < self.quotes[i].expiry {
                    self.replace_at(i, QuoteStatus::Paid);
                    Ok(())
                } else {
                    Err(MintError::QuoteExpired)
                }
            },
            QuoteStatus::Paid => Ok(()),
            QuoteStatus::Consumed => Ok(()),
            QuoteStatus::Expired => Err(MintError::QuoteExpired),
        }
    }

    /// Consumes a Paid quote on successful minting: Paid becomes
    /// Consumed; a second consume fails `AlreadyConsumed`; a quote never
    /// paid fails `InvoiceNotPaidYet` or `QuoteExpired`; an unknown hash
    /// fails `UnknownQuote`. Nothing else changes.
    pub fn consume(&mut self, hash: &Vec<u8>) -> (r: Result<(), MintError>)
        requires
            old(self).wf(),
        ensures
            final(self).wf(),
            final(self).ttl == old(self).ttl,
            match old(self).quote_index(hash@) {
                None => r == Err::<(), MintError>(MintError::UnknownQuote) && *final(self) == *old(
                    self,
                ),
                Some(i) => {
                    let q = old(self).quotes@[i];
                    match q.status {
                        QuoteStatus::Paid => r == Ok::<(), MintError>(()) && final(self).quotes@
                            == old(self).moved_to(i, QuoteStatus::Consumed),
                        QuoteStatus::Consumed => r == Err::<(), MintError>(
                            MintError::AlreadyConsumed,
                        ) && *final(self) == *old(self),
                        QuoteStatus::Pending => r == Err::<(), MintError>(
                            MintError::InvoiceNotPaidYet,
                        ) && *final(self) == *old(self),
                        QuoteStatus::Expired => r == Err::<(), MintError>(MintError::QuoteExpired)
                            && *final(self) == *old(self),
                    }
                },
            },
    {
        let i = match self.find_quote(hash) {
            Some(i) => i,
            None => {
                return Err(MintError::UnknownQuote);
            },
        };
        match self.quotes[i].status {
            QuoteStatus::Paid => {
                self.replace_at(i, QuoteStatus::Consumed);
                Ok(())
            },
            QuoteStatus::Consumed => Err(MintError::AlreadyConsumed),
            QuoteStatus::Pending => Err(MintError::InvoiceNotPaidYet),
            QuoteStatus::Expired => Err(MintError::QuoteExpired),
        }
    }

    /// Looks a quote up by hash; fails `UnknownQuote` exactly when no
    /// quote carries it.
    pub fn status(&self, hash: &Vec<u8>) -> (r: Result<&MintQuote, MintError>)
        ensures
            match r {
                Ok(q) => self.has_quote(hash@) && *q == self.quote_at(hash@),
                Err(e) => e == MintError::UnknownQuote && !self.has_quote(hash@),
            },
    {
        match self.find_quote(hash) {
            Some(i) => Ok(&self.quotes[i]),
            None => Err(MintError::UnknownQuote),
        }
    }

    /// Expiry sweep: every Pending quote whose expiry has passed becomes
    /// Expired; every other quote is untouched.
    pub fn sweep_expired(&mut self, now: u64)
        requires
            old(self).wf(),
        ensures
            final(self).wf(),
            final(self).ttl == old(self).ttl,
            final(self).quotes@.len() == old(self).quotes@.len(),
            forall|i: int|
                0 <= i < old(self).quotes@.len() ==> final(self).quotes@[i] == (if old(
                    self,
                ).quotes@[i].status == QuoteStatus::Pending && old(self).quotes@[i].expiry <= now {
                    MintQuote { status: QuoteStatus::Expired, ..old(self).quotes@[i] }
                } else {
                    old(self).quotes@[i]
                }),
    {
        let mut i: usize = 0;
        while i < self.quotes.len()
            invariant
                old(self).wf(),
                i <= self.quotes@.len(),
                self.quotes@.len() == old(self).quotes@.len(),
                self.ttl == old(self).ttl,
                forall|j: int| i <= j < self.quotes@.len() ==> self.quotes@[j] == old(
                    self,
                ).quotes@[j],
                forall|j: int|
                    0 <= j < i ==> self.quotes@[j] == (if old(self).quotes@[j].status
                        == QuoteStatus::Pending && old(self).quotes@[j].expiry <= now {
                        MintQuote { status: QuoteStatus::Expired, ..old(self).quotes@[j] }
                    } else {
                        old(self).quotes@[j]
                    }),
            decreases self.quotes@.len() - i,
        {
            let expired = match self.quotes[i].status {
                QuoteStatus::Pending => self.quotes[i].expiry <= now,
                _ => false,
            };
            if expired {
                let ghost prev = self.quotes@;
                let q = self.quotes.remove(i);
                let updated = MintQuote { status: QuoteStatus::Expired, ..q };
                self.quotes.insert(i, updated);
                proof {
                    assert(self.quotes@ =~= prev.update(i as int, updated));
                }
            }
            i = i + 1;
        }
        proof {
            assert forall|i2: int, j2: int|
                0 <= i2 < j2 < self.quotes@.len() implies (#[trigger] self.quotes@[i2]).hash@ != (
            #[trigger] self.quotes@[j2]).hash@ by {
                assert(self.quotes@[i2].hash@ == old(self).quotes@[i2].hash@);
                assert(self.quotes@[j2].hash@ == old(self).quotes@[j2].hash@);
            }
        }
    }
}

/// Appending a quote with a fresh hash keeps all hashes distinct.
proof fn lemma_find_absent_push(quotes: Seq<MintQuote>, q: MintQuote)
    requires
        quote_find_from(quotes, q.hash@, 0) is None,
    ensures
        forall|i: int| 0 <= i < quotes.len() ==> (#[trigger] quotes[i]).hash@ != q.hash@,
{
    assert forall|i: int| 0 <= i < quotes.len() implies (#[trigger] quotes[i]).hash@
        != q.hash@ by {
        if quotes[i].hash@ == q.hash@ {
            lemma_find_from_some(quotes, q.hash@, 0, i);
        }
    }
}

/// If some quote at or after `i` carries the hash, the search from `i`
/// finds one.
proof fn lemma_find_from_some(quotes: Seq<MintQuote>, hash: Seq<u8>, i: int, w: int)
    requires
        0 <= i <= w < quotes.len(),
        quotes[w].hash@ == hash,
    ensures
        quote_find_from(quotes, hash, i) is Some,
    decreases w - i,
{
    if quotes[i].hash@ != hash {
        lemma_find_from_some(quotes, hash, i + 1, w);
    }
}

} // verus!
