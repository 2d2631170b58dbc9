use secp256k1::hashes::Hash as _;
use vstd::prelude::*;

verus! {

// The engine carries keys and curve points as plain bytes: a secret scalar
// as 32 bytes, a point in its 33-byte compressed encoding. What the curve
// library computes from them is named by the uninterpreted functions below
// and stated in the contracts of the trusted wrappers that call it.

/// The SHA-256 digest of a byte string, as computed by the hash library
/// re-exported by secp256k1.
pub uninterp spec fn sha256_of(data: Seq<u8>) -> Seq<u8>;

/// Whether a byte string is a valid encoding of a secp256k1 curve point,
/// as decided by `secp256k1::PublicKey::from_slice`.
pub uninterp spec fn point_ok(bytes: Seq<u8>) -> bool;

/// Whether a byte string is 32 bytes holding a valid secp256k1 secret
/// scalar, as decided by `secp256k1::SecretKey::from_byte_array`.
pub uninterp spec fn scalar_ok(bytes: Seq<u8>) -> bool;

/// The compressed public key belonging to a valid secret scalar, as
/// computed by `secp256k1::PublicKey::from_secret_key`.
pub uninterp spec fn pub_of(scalar: Seq<u8>) -> Seq<u8>;

/// Scalar-times-point on secp256k1, over the byte encodings; `None` where
/// an input does not decode or the product has no encoding. The result is
/// a function of the two byte strings alone.
pub uninterp spec fn mul_of(scalar: Seq<u8>, point: Seq<u8>) -> Option<Seq<u8>>;

/// Relies on the SHA-256 implementation re-exported by secp256k1 under
/// `hashes::sha256`: the 32-byte digest is a function of the input alone.
#[verifier::external_body]
pub fn sha256(data: &Vec<u8>) -> (r: Vec<u8>)
    ensures
        r@ == sha256_of(data@),
        r@.len() == 32,
{
    secp256k1::hashes::sha256::Hash::hash(data.as_slice()).to_byte_array().to_vec()
}

/// Relies on `secp256k1::PublicKey::from_slice`: whether the bytes decode
/// to a curve point; deterministic in the bytes.
#[verifier::external_body]
pub fn check_point(bytes: &Vec<u8>) -> (r: bool)
    ensures
        r == point_ok(bytes@),
{
    secp256k1::PublicKey::from_slice(bytes.as_slice()).is_ok()
}

/// Relies on `secp256k1::SecretKey::from_byte_array`: whether 32 bytes are
/// a valid secret scalar; false for any other length.
#[verifier::external_body]
pub fn check_scalar(bytes: &Vec<u8>) -> (r: bool)
    ensures
        r == scalar_ok(bytes@),
{
    match <[u8; 32]>::try_from(bytes.as_slice()) {
        Ok(arr) => secp256k1::SecretKey::from_byte_array(arr).is_ok(),
        Err(_) => false,
    }
}

/// Relies on `secp256k1::PublicKey::from_secret_key`: the compressed
/// public key is a function of the secret scalar alone.
#[verifier::external_body]
pub fn derive_pubkey(scalar: &Vec<u8>) -> (r: Option<Vec<u8>>)
    ensures
        match r {
            Some(pk) => scalar_ok(scalar@) && pk@ == pub_of(scalar@) && pk@.len() == 33,
            None => !scalar_ok(scalar@),
        },
{
    let arr: [u8; 32] = <[u8; 32]>::try_from(scalar.as_slice()).ok()?;
    let secret = secp256k1::SecretKey::from_byte_array(arr).ok()?;
    let secp = secp256k1::Secp256k1::new();
    Some(secp256k1::PublicKey::from_secret_key(&secp, &secret).serialize().to_vec())
}

/// Relies on `secp256k1::PublicKey::mul_tweak`: multiplies a decoded point
/// by a scalar modulo the curve order; deterministic in the two byte
/// strings, `None` where an input does not decode or the product would be
/// an invalid key.
#[verifier::external_body]
pub fn scalar_mul(scalar: &Vec<u8>, point: &Vec<u8>) -> (r: Option<Vec<u8>>)
    ensures
        match r {
            Some(q) => mul_of(scalar@, point@) == Some(q@) && q@.len() == 33,
            None => mul_of(scalar@, point@) is None,
        },
{
    let arr: [u8; 32] = <[u8; 32]>::try_from(scalar.as_slice()).ok()?;
    let tweak = secp256k1::Scalar::from_be_bytes(arr).ok()?;
    let p = secp256k1::PublicKey::from_slice(point.as_slice()).ok()?;
    let secp = secp256k1::Secp256k1::new();
    Some(p.mul_tweak(&secp, &tweak).ok()?.serialize().to_vec())
}

/// The chain of repeated SHA-256 digests over a starting byte string.
pub open spec fn hash_chain(start: Seq<u8>, i: nat) -> Seq<u8>
    decreases i,
{
    if i == 0 {
        sha256_of(start)
    } else {
        sha256_of(hash_chain(start, (i - 1) as nat))
    }
}

/// The candidate point encoding tried at step `i` of hash-to-curve: an
/// even-parity prefix byte followed by the `i`-th digest of the secret.
pub open spec fn curve_candidate(secret: Seq<u8>, i: nat) -> Seq<u8> {
    seq![2u8] + hash_chain(secret, i)
}

/// The first candidate from step `i` on that is a curve point, trying at
/// most `fuel` candidates.
pub open spec fn curve_point_from(secret: Seq<u8>, i: nat, fuel: nat) -> Option<Seq<u8>>
    decreases fuel,
{
    if fuel == 0 {
        None
    } else if point_ok(curve_candidate(secret, i)) {
        Some(curve_candidate(secret, i))
    } else {
        curve_point_from(secret, i + 1, (fuel - 1) as nat)
    }
}

/// The curve point a secret is mapped to: the first of the secret's digest
/// chain candidates that decodes to a point, with 64 attempts allowed.
pub open spec fn curve_point_of(secret: Seq<u8>) -> Option<Seq<u8>> {
    curve_point_from(secret, 0, 64)
}

/// The first digest from step `i` on that is a valid secret scalar, trying
/// at most `fuel` candidates.
pub open spec fn scalar_from(seed: Seq<u8>, i: nat, fuel: nat) -> Option<Seq<u8>>
    decreases fuel,
{
    if fuel == 0 {
        None
    } else if scalar_ok(hash_chain(seed, i)) {
        Some(hash_chain(seed, i))
    } else {
        scalar_from(seed, i + 1, (fuel - 1) as nat)
    }
}

/// The secret scalar derived from a seed: the first digest in the seed's
/// chain that is a valid scalar, with 64 attempts allowed.
pub open spec fn scalar_of_seed(seed: Seq<u8>) -> Option<Seq<u8>> {
    scalar_from(seed, 0, 64)
}

/// Prepends the even-parity prefix byte to a digest.
fn prefixed_candidate(digest: &Vec<u8>) -> (r: Vec<u8>)
    ensures
        r@ == seq![2u8] + digest@,
{
    let mut v: Vec<u8> = Vec::new();
    v.push(2u8);
    let mut j: usize = 0;
    while j < digest.len()
        invariant
            j <= digest.len(),
            v@ == seq![2u8] + digest@.take(j as int),
        decreases digest.len() - j,
    {
        let b = digest[j];
        v.push(b);
        proof {
            assert(digest@.take(j + 1) =~= digest@.take(j as int).push(b));
        }
        j = j + 1;
    }
    proof {
        assert(digest@.take(digest@.len() as int) =~= digest@);
    }
    v
}

/// Maps a secret to a curve point by hashing it and re-hashing until the
/// digest, behind an even-parity prefix byte, decodes to a point. Fails
/// only if none of 64 successive digests yields a point.
pub fn hash_to_curve(secret: &Vec<u8>) -> (r: Option<Vec<u8>>)
    ensures
        match r {
            Some(p) => curve_point_of(secret@) == Some(p@) && point_ok(p@) && p@.len() == 33,
            None => curve_point_of(secret@) is None,
        },
{
    let mut digest = sha256(secret);
    let mut i: usize = 0;
    loop
        invariant
            i < 64,
            digest@ == hash_chain(secret@, i as nat),
            digest@.len() == 32,
            curve_point_of(secret@) == curve_point_from(secret@, i as nat, (64 - i) as nat),
        decreases 64 - i,
    {
        let candidate = prefixed_candidate(&digest);
        proof {
            assert(candidate@ == curve_candidate(secret@, i as nat));
        }
        if check_point(&candidate) {
            return Some(candidate);
        }
        i = i + 1;
        if i == 64 {
            return None;
        }
        digest = sha256(&digest);
    }
}

/// Derives a secret scalar from a seed by hashing it and re-hashing until
/// the digest is a valid scalar. Fails only if none of 64 successive
/// digests is one.
pub fn derive_scalar(seed: &Vec<u8>) -> (r: Option<Vec<u8>>)
    ensures
        match r {
            Some(k) => scalar_of_seed(seed@) == Some(k@) && scalar_ok(k@) && k@.len() == 32,
            None => scalar_of_seed(seed@) is None,
        },
{
    let mut digest = sha256(seed);
    let mut i: usize = 0;
    loop
        invariant
            i < 64,
            digest@ == hash_chain(seed@, i as nat),
            digest@.len() == 32,
            scalar_of_seed(seed@) == scalar_from(seed@, i as nat, (64 - i) as nat),
        decreases 64 - i,
    {
        if check_scalar(&digest) {
            return Some(digest);
        }
        i = i + 1;
        if i == 64 {
            return None;
        }
        digest = sha256(&digest);
    }
}

} // verus!
