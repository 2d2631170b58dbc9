use crate::amount::is_denomination;
use crate::bytes::clone_bytes;
use crate::crypto::{mul_of, scalar_mul};
use crate::error::MintError;
use crate::keyset::KeysetManager;
use vstd::prelude::*;

verus! {

/// A blinded point submitted by an external wallet for signing, with the
/// denomination it asks for. Opaque to the mint beyond amount validity.
#[derive(Clone, Debug)]
pub struct BlindedMessage {
    pub amount: u64,
    pub b_point: Vec<u8>,
}

/// A blind signature: the blinded point scaled by the denomination's
/// secret key, bound to one amount and one keyset id. The wallet unblinds
/// it externally into a proof.
#[derive(Clone, Debug)]
pub struct Promise {
    pub amount: u64,
    pub c_point: Vec<u8>,
    pub keyset_id: Vec<u8>,
}

/// What signing a blinded point returns: the signed point, or the error
/// owed for the input. The response is deterministic — the denomination's
/// secret key times the blinded point, with no randomness added by the
/// signer.
pub open spec fn sign_spec(km: KeysetManager, id: Seq<u8>, amount: u64, b_point: Seq<u8>) -> Result<
    Seq<u8>,
    MintError,
> {
    if !is_denomination(amount) {
        Err(MintError::InvalidAmount)
    } else {
        match km.keyset_index(id) {
            None => Err(MintError::UnknownKeyset),
            Some(i) => match mul_of(km.keysets@[i].key_for(amount), b_point) {
                None => Err(MintError::CryptoError),
                Some(c) => Ok(c),
            },
        }
    }
}

/// Issues a blind signature under the keyset carrying `id`: validates the
/// amount against the denomination set (`InvalidAmount`), the keyset id
/// (`UnknownKeyset`), and scales the blinded point by the denomination's
/// secret key (`CryptoError` where the point does not decode or the
/// product has no encoding). Pure besides the returned promise.
pub fn sign_blinded(km: &KeysetManager, id: &Vec<u8>, msg: &BlindedMessage) -> (r: Result<
    Promise,
    MintError,
>)
    requires
        km.wf(),
    ensures
        match r {
            Ok(p) => sign_spec(*km, id@, msg.amount, msg.b_point@) == Ok::<_, MintError>(p.c_point@)
                && p.amount == msg.amount && p.keyset_id@ == id@,
            Err(e) => sign_spec(*km, id@, msg.amount, msg.b_point@) == Err::<Seq<u8>, _>(e),
        },
{
    let i = match km.find_keyset(id) {
        Some(i) => i,
        None => {
            if crate::amount::denomination_index(msg.amount).is_none() {
                return Err(MintError::InvalidAmount);
            }
            return Err(MintError::UnknownKeyset);
        },
    };
    let key = match km.keysets[i].find_key(msg.amount) {
        Some(k) => k,
        None => {
            return Err(MintError::InvalidAmount);
        },
    };
    match scalar_mul(&key.sk, &msg.b_point) {
        Some(c_point) => Ok(Promise { amount: msg.amount, c_point, keyset_id: clone_bytes(id) }),
        None => Err(MintError::CryptoError),
    }
}

} // verus!
