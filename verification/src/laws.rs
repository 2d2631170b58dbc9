use crate::amount::is_denomination;
use crate::crypto::{curve_point_of, mul_of};
use crate::error::MintError;
use crate::keyset::{find_from, Keyset, KeysetManager};
use crate::ledger::{batch_accepted, SpentProofLedger};
use crate::signer::sign_spec;
use crate::validator::{verify_spec, Proof};
use vstd::prelude::*;

verus! {

/// The proof's carried signature equals the denomination key of its
/// keyset times the curve point of its secret — what correct external
/// unblinding of a promise for that secret yields, by the curve's group
/// law (the unblinding itself is the wallet's work, outside the mint).
pub open spec fn correctly_unblinded(km: KeysetManager, p: Proof) -> bool {
    match km.keyset_index(p.keyset_id@) {
        None => false,
        Some(i) => match curve_point_of(p.secret@) {
            None => false,
            Some(pt) => mul_of(km.keysets@[i].key_for(p.amount), pt) == Some(p.c_point@),
        },
    }
}

/// Issuance correctness: for any denomination amount, a proof built from
/// a signed promise by correct external unblinding is accepted by proof
/// verification. Together with the signer's contract — signing succeeds
/// exactly when the amount is a denomination, the keyset is held and the
/// blinded point is a point — every promise the mint issues unblinds to a
/// verifiable token.
pub proof fn lemma_sign_then_verify(km: KeysetManager, p: Proof)
    requires
        is_denomination(p.amount),
        correctly_unblinded(km, p),
    ensures
        verify_spec(km, p) == Ok::<(), MintError>(()),
{
}

/// A signed promise carries exactly the blinded point scaled by the
/// denomination key, so the signature a wallet unblinds from it is
/// determined by the keyset, the amount and the blinded point alone.
pub proof fn lemma_sign_deterministic(
    km: KeysetManager,
    id: Seq<u8>,
    amount: u64,
    b_point: Seq<u8>,
    c1: Seq<u8>,
    c2: Seq<u8>,
)
    requires
        sign_spec(km, id, amount, b_point) == Ok::<Seq<u8>, MintError>(c1),
        sign_spec(km, id, amount, b_point) == Ok::<Seq<u8>, MintError>(c2),
    ensures
        c1 == c2,
{
}

/// Serializability of batch spends: after one accepted batch is recorded,
/// a second accepted batch still goes through exactly when it shares no
/// secret with the first; sharing any secret, it is rejected — so of two
/// requests over a common proof exactly one succeeds, and requests over
/// disjoint proof sets never hinder each other.
pub proof fn lemma_batch_serialization(
    before: SpentProofLedger,
    after: SpentProofLedger,
    first: Seq<Seq<u8>>,
    second: Seq<Seq<u8>>,
)
    requires
        batch_accepted(before, first),
        batch_accepted(before, second),
        forall|s: Seq<u8>| after.spent(s) <==> (before.spent(s) || first.contains(s)),
    ensures
        (forall|s: Seq<u8>| first.contains(s) ==> !second.contains(s)) ==> batch_accepted(
            after,
            second,
        ),
        (exists|s: Seq<u8>| first.contains(s) && second.contains(s)) ==> !batch_accepted(
            after,
            second,
        ),
{
    if forall|s: Seq<u8>| first.contains(s) ==> !second.contains(s) {
        assert forall|i: int| 0 <= i < second.len() implies !after.spent(#[trigger] second[i]) by {
            assert(second.contains(second[i]));
        }
    }
    if exists|s: Seq<u8>| first.contains(s) && second.contains(s) {
        let s = choose|s: Seq<u8>| first.contains(s) && second.contains(s);
        let i = choose|i: int| 0 <= i < second.len() && second[i] == s;
        assert(after.spent(second[i]));
    }
}

/// Double-spend prevention: a batch holding any already-spent secret is
/// never accepted by the ledger — so a melt or split over such a batch
/// fails `DoubleSpend` and, by those operations' contracts, leaves the
/// ledger unchanged.
pub proof fn lemma_spent_secret_blocks_batch(
    ledger: SpentProofLedger,
    batch: Seq<Seq<u8>>,
    i: int,
)
    requires
        0 <= i < batch.len(),
        ledger.spent(batch[i]),
    ensures
        !batch_accepted(ledger, batch),
{
}

/// Keyset retention: verification is untouched by publishing a new
/// keyset epoch, however the active epoch moves, as long as every keyset
/// held before is still held — proofs signed under an old keyset keep
/// verifying after rotation.
pub proof fn lemma_rotation_preserves_verification(
    km: KeysetManager,
    rotated: KeysetManager,
    added: Keyset,
    p: Proof,
)
    requires
        km.has_keyset(p.keyset_id@),
        rotated.keysets@ == km.keysets@.push(added),
    ensures
        verify_spec(rotated, p) == verify_spec(km, p),
{
    lemma_find_push(km.keysets@, added, p.keyset_id@, 0);
    lemma_find_range(km.keysets@, p.keyset_id@, 0);
    let i = km.keyset_index(p.keyset_id@)->0;
    assert(rotated.keysets@[i] == km.keysets@[i]);
}

/// A successful search yields a position inside the list.
proof fn lemma_find_range(keysets: Seq<Keyset>, id: Seq<u8>, i: int)
    requires
        0 <= i,
        find_from(keysets, id, i) is Some,
    ensures
        i <= find_from(keysets, id, i)->0 < keysets.len(),
    decreases keysets.len() - i,
{
    if i < keysets.len() && keysets[i].id@ != id {
        lemma_find_range(keysets, id, i + 1);
    }
}

/// A search that succeeds over a keyset list succeeds identically after
/// one keyset is appended.
proof fn lemma_find_push(keysets: Seq<Keyset>, added: Keyset, id: Seq<u8>, i: int)
    requires
        0 <= i,
        find_from(keysets, id, i) is Some,
    ensures
        find_from(keysets.push(added), id, i) == find_from(keysets, id, i),
    decreases keysets.len() - i,
{
    assert(keysets.push(added)[i] == keysets[i]);
    if i < keysets.len() && keysets[i].id@ != id {
        lemma_find_push(keysets, added, id, i + 1);
    }
}

} // verus!
