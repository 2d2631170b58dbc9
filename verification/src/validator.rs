use crate::amount::is_denomination;
use crate::crypto::{curve_point_of, hash_to_curve, mul_of, scalar_mul};
use crate::error::MintError;
use crate::keyset::KeysetManager;
use vstd::prelude::*;

verus! {

/// A bearer token: an amount, the revealed secret, the unblinded
/// signature, and the keyset id it was signed under. Never mutated; valid
/// exactly once.
#[derive(Clone, Debug)]
pub struct Proof {
    pub amount: u64,
    pub secret: Vec<u8>,
    pub c_point: Vec<u8>,
    pub keyset_id: Vec<u8>,
}

/// What verifying a proof returns. The expected signature is recomputed
/// from the revealed secret — its curve point scaled by the denomination's
/// secret key — and compared against the carried one.
pub open spec fn verify_spec(km: KeysetManager, p: Proof) -> Result<(), MintError> {
    if !is_denomination(p.amount) {
        Err(MintError::InvalidAmount)
    } else {
        match km.keyset_index(p.keyset_id@) {
            None => Err(MintError::UnknownKeyset),
            Some(i) => match curve_point_of(p.secret@) {
                None => Err(MintError::CryptoError),
                Some(pt) => match mul_of(km.keysets@[i].key_for(p.amount), pt) {
                    None => Err(MintError::CryptoError),
                    Some(expected) => if p.c_point@ == expected {
                        Ok(())
                    } else {
                        Err(MintError::InvalidSignature)
                    },
                },
            },
        }
    }
}

/// Verifies an unblinded signature against the keyset that issued it:
/// fails `InvalidAmount` if the amount is no denomination,
/// `UnknownKeyset` if the proof's keyset id is not held,
/// `InvalidSignature` if the carried signature differs from the
/// recomputed one, and `CryptoError` where a curve operation has no
/// result. Verification reads only retained keysets, never the active
/// epoch, so proofs of old epochs keep verifying after rotation.
pub fn verify_proof(km: &KeysetManager, p: &Proof) -> (r: Result<(), MintError>)
    requires
        km.wf(),
    ensures
        r == verify_spec(*km, *p),
{
    let i = match km.find_keyset(&p.keyset_id) {
        Some(i) => i,
        None => {
            if crate::amount::denomination_index(p.amount).is_none() {
                return Err(MintError::InvalidAmount);
            }
            return Err(MintError::UnknownKeyset);
        },
    };
    let key = match km.keysets[i].find_key(p.amount) {
        Some(k) => k,
        None => {
            return Err(MintError::InvalidAmount);
        },
    };
    let point = match hash_to_curve(&p.secret) {
        Some(pt) => pt,
        None => {
            return Err(MintError::CryptoError);
        },
    };
    let expected = match scalar_mul(&key.sk, &point) {
        Some(c) => c,
        None => {
            return Err(MintError::CryptoError);
        },
    };
    if crate::bytes::bytes_eq(&p.c_point, &expected) {
        Ok(())
    } else {
        Err(MintError::InvalidSignature)
    }
}

} // verus!
