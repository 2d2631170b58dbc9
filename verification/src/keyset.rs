use crate::amount::{denomination_index, is_denomination, lemma_denom_exponent_unique};
use crate::bytes::{append_bytes, bytes_eq, clone_bytes};
use crate::crypto::{
    derive_pubkey, derive_scalar, pub_of, scalar_of_seed, scalar_ok, sha256, sha256_of,
};
use crate::error::MintError;
use vstd::arithmetic::power2::{lemma2_to64, lemma_pow2_unfold, pow2};
use vstd::prelude::*;

verus! {

/// One denomination's signing keypair: the amount it signs, the secret
/// scalar, and the public key published for it.
pub struct DenomKey {
    pub amount: u64,
    pub sk: Vec<u8>,
    pub pk: Vec<u8>,
}

impl DenomKey {
    /// The keypair is valid and the public key belongs to the secret one.
    pub open spec fn wf(self) -> bool {
        &&& self.sk@.len() == 32
        &&& scalar_ok(self.sk@)
        &&& self.pk@ == pub_of(self.sk@)
    }
}

/// A published epoch of signing keys: one keypair per denomination, and
/// the keyset's identifier. Immutable once created.
pub struct Keyset {
    pub id: Vec<u8>,
    pub keys: Vec<DenomKey>,
}

/// The seed a denomination's key is derived from: the master secret
/// followed by the denomination's exponent as one byte.
pub open spec fn seed_of(master: Seq<u8>, exponent: nat) -> Seq<u8> {
    master + seq![exponent as u8]
}

/// The concatenation of the public keys of a key list, in denomination
/// order; the keyset id is its digest.
pub open spec fn concat_pubkeys(keys: Seq<DenomKey>) -> Seq<u8>
    decreases keys.len(),
{
    if keys.len() == 0 {
        Seq::empty()
    } else {
        concat_pubkeys(keys.drop_last()) + keys.last().pk@
    }
}

impl Keyset {
    /// Sixty-four well-formed keypairs, one per power-of-two denomination
    /// in exponent order, under a 32-byte identifier.
    pub open spec fn wf(self) -> bool {
        &&& self.keys@.len() == 64
        &&& forall|j: int|
            0 <= j < 64 ==> (#[trigger] self.keys@[j]).wf() && self.keys@[j].amount == pow2(
                j as nat,
            )
        &&& self.id@.len() == 32
    }

    /// The keyset was derived from this master secret: each secret key is
    /// the scalar derived from the master and the exponent, and the id is
    /// the digest of the concatenated public keys.
    pub open spec fn derived_from(self, master: Seq<u8>) -> bool {
        &&& forall|j: int|
            0 <= j < 64 ==> Some((#[trigger] self.keys@[j]).sk@) == scalar_of_seed(
                seed_of(master, j as nat),
            )
        &&& self.id@ == sha256_of(concat_pubkeys(self.keys@))
    }

    /// The secret key signing a denomination amount; meaningful when the
    /// keyset is well formed and the amount is a denomination.
    pub open spec fn key_for(self, amount: u64) -> Seq<u8> {
        self.keys@[crate::amount::denom_exponent(amount) as int].sk@
    }

    /// Finds the keypair for an amount, or reports that the amount is no
    /// denomination.
    pub fn find_key(&self, amount: u64) -> (r: Option<&DenomKey>)
        requires
            self.wf(),
        ensures
            match r {
                Some(k) => is_denomination(amount) && k.sk@ == self.key_for(amount) && k.wf()
                    && k.amount == amount,
                None => !is_denomination(amount),
            },
    {
        match denomination_index(amount) {
            Some(i) => {
                proof {
                    let e = crate::amount::denom_exponent(amount);
                    assert(amount == pow2(i as nat));
                    lemma_denom_exponent_unique(i as nat, e);
                }
                Some(&self.keys[i])
            },
            None => None,
        }
    }
}

/// Every denomination exponent yields a scalar from this master secret:
/// the condition under which keyset derivation is owed success.
pub open spec fn master_derivable(master: Seq<u8>) -> bool {
    forall|j: nat| j < 64 ==> scalar_of_seed(seed_of(master, j)) is Some
}

/// Derives a full keyset from a master secret: one scalar per
/// denomination exponent, each with its public key, and the keyset id as
/// the digest of all public keys. Succeeds whenever every denomination's
/// scalar chain yields a scalar, and fails exactly when some
/// denomination's chain runs out of attempts.
pub fn derive_keyset(master: &Vec<u8>) -> (r: Result<Keyset, MintError>)
    ensures
        match r {
            Ok(ks) => ks.wf() && ks.derived_from(master@),
            Err(e) => e == MintError::CryptoError && !master_derivable(master@),
        },
        master_derivable(master@) ==> r is Ok,
{
    let mut keys: Vec<DenomKey> = Vec::new();
    let mut j: usize = 0;
    let mut value: u64 = 1;
    proof {
        lemma2_to64();
    }
    while j < 64
        invariant
            j <= 64,
            keys@.len() == j,
            j < 64 ==> value == pow2(j as nat),
            forall|i: int|
                0 <= i < j ==> (#[trigger] keys@[i]).wf() && keys@[i].amount == pow2(i as nat)
                    && Some(keys@[i].sk@) == scalar_of_seed(seed_of(master@, i as nat)),
        decreases 64 - j,
    {
        let mut seed = clone_bytes(master);
        seed.push(j as u8);
        proof {
            assert(seed@ =~= seed_of(master@, j as nat));
        }
        let sk = match derive_scalar(&seed) {
            Some(sk) => sk,
            None => {
                proof {
                    assert(scalar_of_seed(seed_of(master@, j as nat)) is None);
                }
                return Err(MintError::CryptoError);
            },
        };
        let pk = match derive_pubkey(&sk) {
            Some(pk) => pk,
            None => {
                // Unreachable: the derived scalar is valid by construction.
                proof {
                    assert(false);
                }
                return Err(MintError::CryptoError);
            },
        };
        keys.push(DenomKey { amount: value, sk, pk });
        j = j + 1;
        if j < 64 {
            proof {
                crate::amount::lemma_pow2_u64_bound(j as nat);
                lemma_pow2_unfold(j as nat);
            }
            value = value * 2;
        }
    }
    let mut concat: Vec<u8> = Vec::new();
    let mut i: usize = 0;
    while i < keys.len()
        invariant
            i <= keys.len(),
            concat@ == concat_pubkeys(keys@.take(i as int)),
        decreases keys.len() - i,
    {
        append_bytes(&mut concat, &keys[i].pk);
        proof {
            assert(keys@.take(i + 1).drop_last() =~= keys@.take(i as int));
            assert(keys@.take(i + 1).last() == keys@[i as int]);
        }
        i = i + 1;
    }
    proof {
        assert(keys@.take(keys@.len() as int) =~= keys@);
    }
    let id = sha256(&concat);
    Ok(Keyset { id, keys })
}

/// Holds every published keyset epoch and marks the one that signs new
/// promises. Old keysets are retained so that proofs issued under them
/// keep verifying.
pub struct KeysetManager {
    pub keysets: Vec<Keyset>,
    pub active: usize,
}

/// The first position from `i` on whose keyset carries `id`.
pub open spec fn find_from(keysets: Seq<Keyset>, id: Seq<u8>, i: int) -> Option<int>
    decreases keysets.len() - i,
{
    if i < 0 || i >= keysets.len() {
        None
    } else if keysets[i].id@ == id {
        Some(i)
    } else {
        find_from(keysets, id, i + 1)
    }
}

impl KeysetManager {
    /// At least one keyset, all well formed, and a valid active index.
    pub open spec fn wf(self) -> bool {
        &&& self.keysets@.len() >= 1
        &&& self.active < self.keysets@.len()
        &&& forall|i: int| 0 <= i < self.keysets@.len() ==> (#[trigger] self.keysets@[i]).wf()
    }

    /// The position of the first keyset carrying `id`.
    pub open spec fn keyset_index(self, id: Seq<u8>) -> Option<int> {
        find_from(self.keysets@, id, 0)
    }

    /// Whether some held keyset carries `id`.
    pub open spec fn has_keyset(self, id: Seq<u8>) -> bool {
        self.keyset_index(id) is Some
    }

    /// The first keyset carrying `id`; meaningful when one is held.
    pub open spec fn keyset_at(self, id: Seq<u8>) -> Keyset {
        self.keysets@[self.keyset_index(id)->0]
    }

    /// The identifier of the active signing keyset.
    pub open spec fn active_id(self) -> Seq<u8> {
        self.keysets@[self.active as int].id@
    }

    /// Creates a manager holding one keyset derived from the master
    /// secret, which becomes the active epoch. Succeeds whenever the
    /// master secret is derivable.
    pub fn from_master(master: &Vec<u8>) -> (r: Result<KeysetManager, MintError>)
        ensures
            match r {
                Ok(km) => km.wf() && km.keysets@.len() == 1 && km.active == 0
                    && km.keysets@[0].derived_from(master@),
                Err(e) => e == MintError::CryptoError && !master_derivable(master@),
            },
            master_derivable(master@) ==> r is Ok,
    {
        let keyset = derive_keyset(master)?;
        let mut keysets: Vec<Keyset> = Vec::new();
        keysets.push(keyset);
        Ok(KeysetManager { keysets, active: 0 })
    }

    /// Publishes a new epoch derived from a fresh master secret and makes
    /// it the active one; every earlier keyset is retained unchanged.
    /// Succeeds whenever the new master secret is derivable.
    pub fn rotate(&mut self, master: &Vec<u8>) -> (r: Result<(), MintError>)
        requires
            old(self).wf(),
        ensures
            final(self).wf(),
            master_derivable(master@) ==> r is Ok,
            match r {
                Ok(()) => {
                    &&& final(self).keysets@.len() == old(self).keysets@.len() + 1
                    &&& forall|i: int|
                        0 <= i < old(self).keysets@.len() ==> final(self).keysets@[i] == old(
                            self,
                        ).keysets@[i]
                    &&& final(self).keysets@.last().derived_from(master@)
                    &&& final(self).active == old(self).keysets@.len()
                },
                Err(e) => e == MintError::CryptoError && !master_derivable(master@) && *final(self)
                    == *old(self),
            },
    {
        let keyset = derive_keyset(master)?;
        let index = self.keysets.len();
        self.keysets.push(keyset);
        self.active = index;
        Ok(())
    }

    /// Finds the position of the keyset carrying `id`, or reports it
    /// unknown.
    pub fn find_keyset(&self, id: &Vec<u8>) -> (r: Option<usize>)
        ensures
            match r {
                Some(i) => i < self.keysets@.len() && self.keyset_index(id@) == Some(i as int),
                None => !self.has_keyset(id@),
            },
    {
        let mut i: usize = 0;
        while i < self.keysets.len()
            invariant
                i <= self.keysets@.len(),
                self.keyset_index(id@) == find_from(self.keysets@, id@, i as int),
            decreases self.keysets@.len() - i,
        {
            if bytes_eq(&self.keysets[i].id, id) {
                return Some(i);
            }
            i = i + 1;
        }
        None
    }

    /// The keyset signing new promises.
    pub fn active_keyset(&self) -> (r: &Keyset)
        requires
            self.wf(),
        ensures
            *r == self.keysets@[self.active as int],
    {
        &self.keysets[self.active]
    }

    /// Lists the public keys of the keyset carrying `id`, one pair of
    /// amount and compressed public key per denomination; fails
    /// `UnknownKeyset` exactly when no such keyset is held.
    pub fn public_keys(&self, id: &Vec<u8>) -> (r: Result<Vec<(u64, Vec<u8>)>, MintError>)
        requires
            self.wf(),
        ensures
            match r {
                Ok(pairs) => self.has_keyset(id@) && {
                    let ks = self.keyset_at(id@);
                    &&& pairs@.len() == ks.keys@.len()
                    &&& forall|j: int|
                        0 <= j < pairs@.len() ==> (#[trigger] pairs@[j]).0 == ks.keys@[j].amount
                            && pairs@[j].1@ == ks.keys@[j].pk@
                },
                Err(e) => e == MintError::UnknownKeyset && !self.has_keyset(id@),
            },
    {
        let i = match self.find_keyset(id) {
            Some(i) => i,
            None => {
                return Err(MintError::UnknownKeyset);
            },
        };
        let keyset = &self.keysets[i];
        let mut pairs: Vec<(u64, Vec<u8>)> = Vec::new();
        let mut j: usize = 0;
        while j < keyset.keys.len()
            invariant
                j <= keyset.keys@.len(),
                pairs@.len() == j,
                forall|k: int|
                    0 <= k < j ==> (#[trigger] pairs@[k]).0 == keyset.keys@[k].amount
                        && pairs@[k].1@ == keyset.keys@[k].pk@,
        decreases keyset.keys@.len() - j,
        {
            let pk = clone_bytes(&keyset.keys[j].pk);
            let amount = keyset.keys[j].amount;
            pairs.push((amount, pk));
            j = j + 1;
        }
        Ok(pairs)
    }

    /// Lists the identifiers of every held keyset, active epoch first
    /// position unchanged.
    pub fn list_keyset_ids(&self) -> (r: Vec<Vec<u8>>)
        ensures
            r@.len() == self.keysets@.len(),
            forall|i: int| 0 <= i < r@.len() ==> (#[trigger] r@[i])@ == self.keysets@[i].id@,
    {
        let mut ids: Vec<Vec<u8>> = Vec::new();
        let mut i: usize = 0;
        while i < self.keysets.len()
            invariant
                i <= self.keysets@.len(),
                ids@.len() == i,
                forall|k: int| 0 <= k < i ==> (#[trigger] ids@[k])@ == self.keysets@[k].id@,
            decreases self.keysets@.len() - i,
        {
            let id = clone_bytes(&self.keysets[i].id);
            ids.push(id);
            i = i + 1;
        }
        ids
    }
}

} // verus!
