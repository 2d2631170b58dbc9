use crate::bytes::{bytes_eq, clone_bytes};
use crate::error::MintError;
use vstd::prelude::*;

verus! {

/// The views of a batch of secrets.
pub open spec fn views_of(batch: Seq<Vec<u8>>) -> Seq<Seq<u8>> {
    batch.map_values(|v: Vec<u8>| v@)
}

/// No secret occurs twice in the batch.
pub open spec fn batch_distinct(batch: Seq<Seq<u8>>) -> bool {
    forall|i: int, j: int| 0 <= i < j < batch.len() ==> batch[i] != batch[j]
}

/// The persisted set of redeemed token secrets. A secret, once accepted,
/// is never accepted again; batches are recorded all-or-nothing.
pub struct SpentProofLedger {
    pub secrets: Vec<Vec<u8>>,
}

/// A batch may be recorded against a ledger state exactly when its
/// secrets are pairwise distinct and none is already spent.
pub open spec fn batch_accepted(ledger: SpentProofLedger, batch: Seq<Seq<u8>>) -> bool {
    &&& batch_distinct(batch)
    &&& forall|i: int| 0 <= i < batch.len() ==> !ledger.spent(#[trigger] batch[i])
}

impl SpentProofLedger {
    /// Whether a secret is recorded spent.
    pub open spec fn spent(self, s: Seq<u8>) -> bool {
        exists|i: int| 0 <= i < self.secrets@.len() && (#[trigger] self.secrets@[i])@ == s
    }

    /// An empty ledger: nothing is spent.
    pub fn new() -> (r: SpentProofLedger)
        ensures
            forall|s: Seq<u8>| !r.spent(s),
    {
        SpentProofLedger { secrets: Vec::new() }
    }

    /// Whether a secret is recorded spent.
    pub fn contains(&self, s: &Vec<u8>) -> (r: bool)
        ensures
            r == self.spent(s@),
    {
        let mut i: usize = 0;
        while i < self.secrets.len()
            invariant
                i <= self.secrets@.len(),
                forall|j: int| 0 <= j < i ==> (#[trigger] self.secrets@[j])@ != s@,
            decreases self.secrets@.len() - i,
        {
            if bytes_eq(&self.secrets[i], s) {
                return true;
            }
            i = i + 1;
        }
        false
    }

    /// Atomic check-and-insert for one secret: records it spent unless it
    /// already was, in which case the ledger is unchanged.
    pub fn try_spend(&mut self, secret: &Vec<u8>) -> (r: Result<(), MintError>)
        ensures
            match r {
                Ok(()) => !old(self).spent(secret@) && forall|s: Seq<u8>|
                    final(self).spent(s) <==> (old(self).spent(s) || s == secret@),
                Err(e) => e == MintError::DoubleSpend && old(self).spent(secret@) && *final(self)
                    == *old(self),
            },
    {
        if self.contains(secret) {
            return Err(MintError::DoubleSpend);
        }
        let copy = clone_bytes(secret);
        self.secrets.push(copy);
        proof {
            assert forall|s: Seq<u8>| final(self).spent(s) <==> (old(self).spent(s) || s
                == secret@) by {
                if old(self).spent(s) {
                    let i = choose|i: int|
                        0 <= i < old(self).secrets@.len() && (#[trigger] old(self).secrets@[i])@
                            == s;
                    assert((self.secrets@[i])@ == s);
                }
                if s == secret@ {
                    assert((self.secrets@[self.secrets@.len() - 1])@ == s);
                }
                if self.spent(s) {
                    let i = choose|i: int|
                        0 <= i < self.secrets@.len() && (#[trigger] self.secrets@[i])@ == s;
                    if i < old(self).secrets@.len() {
                        assert((old(self).secrets@[i])@ == s);
                    }
                }
            }
        }
        Ok(())
    }

    /// All-or-nothing batch spend: either every secret in the batch
    /// becomes marked spent, or the ledger is unchanged and the batch is
    /// rejected `DoubleSpend` — exactly when some secret repeats in the
    /// batch or is already recorded.
    pub fn try_spend_batch(&mut self, batch: &Vec<Vec<u8>>) -> (r: Result<(), MintError>)
        ensures
            match r {
                Ok(()) => batch_accepted(*old(self), views_of(batch@)) && forall|s: Seq<u8>|
                    final(self).spent(s) <==> (old(self).spent(s) || views_of(batch@).contains(s)),
                Err(e) => e == MintError::DoubleSpend && !batch_accepted(
                    *old(self),
                    views_of(batch@),
                ) && *final(self) == *old(self),
            },
    {
        let ghost bviews = views_of(batch@);
        let mut i: usize = 0;
        while i < batch.len()
            invariant
                i <= batch@.len(),
                bviews == views_of(batch@),
                *self == *old(self),
                forall|k: int| 0 <= k < i ==> !old(self).spent(#[trigger] bviews[k]),
                forall|k: int, l: int| 0 <= k < l < i ==> bviews[k] != bviews[l],
            decreases batch@.len() - i,
        {
            if self.contains(&batch[i]) {
                proof {
                    assert(bviews[i as int] == batch@[i as int]@);
                    assert(!batch_accepted(*old(self), bviews));
                }
                return Err(MintError::DoubleSpend);
            }
            let mut j: usize = 0;
            while j < i
                invariant
                    j <= i,
                    i < batch@.len(),
                    bviews == views_of(batch@),
                    forall|k: int| 0 <= k < j ==> bviews[k] != bviews[i as int],
                decreases i - j,
            {
                if bytes_eq(&batch[j], &batch[i]) {
                    proof {
                        assert(bviews[j as int] == bviews[i as int]);
                    }
                    return Err(MintError::DoubleSpend);
                }
                j = j + 1;
            }
            i = i + 1;
        }
        let ghost mid = *self;
        let mut k: usize = 0;
        while k < batch.len()
            invariant
                k <= batch@.len(),
                bviews == views_of(batch@),
                batch_accepted(mid, bviews),
                forall|s: Seq<u8>|
                    self.spent(s) <==> (mid.spent(s) || bviews.take(k as int).contains(s)),
            decreases batch@.len() - k,
        {
            let ghost before = *self;
            let copy = clone_bytes(&batch[k]);
            self.secrets.push(copy);
            proof {
                assert forall|s: Seq<u8>| self.spent(s) <==> (before.spent(s) || s
                    == bviews[k as int]) by {
                    if before.spent(s) {
                        let i2 = choose|i2: int|
                            0 <= i2 < before.secrets@.len() && (#[trigger] before.secrets@[i2])@
                                == s;
                        assert((self.secrets@[i2])@ == s);
                    }
                    if s == bviews[k as int] {
                        assert((self.secrets@[self.secrets@.len() - 1])@ == s);
                    }
                    if self.spent(s) {
                        let i2 = choose|i2: int|
                            0 <= i2 < self.secrets@.len() && (#[trigger] self.secrets@[i2])@ == s;
                        if i2 < before.secrets@.len() {
                            assert((before.secrets@[i2])@ == s);
                        }
                    }
                }
                assert forall|s: Seq<u8>| bviews.take(k + 1).contains(s) <==> (bviews.take(
                    k as int,
                ).contains(s) || s == bviews[k as int]) by {
                    if bviews.take(k + 1).contains(s) {
                        let i2 = choose|i2: int|
                            0 <= i2 < k + 1 && #[trigger] bviews.take(k + 1)[i2] == s;
                        if i2 < k {
                            assert(bviews.take(k as int)[i2] == s);
                        }
                    }
                    if bviews.take(k as int).contains(s) {
                        let i2 = choose|i2: int|
                            0 <= i2 < k && #[trigger] bviews.take(k as int)[i2] == s;
                        assert(bviews.take(k + 1)[i2] == s);
                    }
                    if s == bviews[k as int] {
                        assert(bviews.take(k + 1)[k as int] == s);
                    }
                }
            }
            k = k + 1;
        }
        proof {
            assert(bviews.take(bviews.len() as int) =~= bviews);
        }
        Ok(())
    }
}

} // verus!
