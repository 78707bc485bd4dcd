//! Schnorr-style proofs of knowledge of a secret key, bound to a
//! caller-supplied challenge through a Fiat-Shamir transcript hash.
//!
//! A proof `(commitment, response)` for public key `pk` and challenge
//! `ch` verifies exactly when
//! `g^response % p == (commitment * (pk^e % p)) % p`, where `e` is the
//! transcript scalar derived from `(pk, commitment, ch)`.

use crate::backend::{hex_decode, hex_encode, random_bytes, sha256, sha256_of};
use crate::codec::{be_bytes_of_u64, hex_bytes, hex_of, hex_valid, push_bytes, push_u64_be,
    read_u64_be, u64_of_be_bytes};
use crate::field::{lemma_schnorr_completeness, pow_mod, pow_mod_spec, FIELD_G, FIELD_P,
    SCALAR_BOUND};
use crate::types::{encode_schnorr_proof, public_of, schnorr_decode_spec, CryptoError, KeyPair,
    SchnorrProof};
use vstd::arithmetic::mul::lemma_mul_upper_bound;
use vstd::prelude::*;

verus! {

/// A secret key crosses the API as 8 big-endian bytes holding a scalar
/// below `SCALAR_BOUND`.
pub open spec fn secret_key_decode_spec(b: Seq<u8>) -> Option<u64> {
    if b.len() == 8 && u64_of_be_bytes(b) < SCALAR_BOUND {
        Some(u64_of_be_bytes(b))
    } else {
        None
    }
}

/// A public key crosses the API as 8 big-endian bytes holding a field
/// element.
pub open spec fn public_key_decode_spec(b: Seq<u8>) -> Option<u64> {
    if b.len() == 8 && u64_of_be_bytes(b) < FIELD_P {
        Some(u64_of_be_bytes(b))
    } else {
        None
    }
}

/// The Fiat-Shamir transcript: a domain byte, the public key, the
/// commitment, then the challenge bytes.
pub open spec fn schnorr_transcript(pk: u64, commitment: u64, challenge: Seq<u8>) -> Seq<u8> {
    seq![83u8] + be_bytes_of_u64(pk) + be_bytes_of_u64(commitment) + challenge
}

/// The scalar read from the first four bytes of a digest.
pub open spec fn scalar32_of(d: Seq<u8>) -> u64
    recommends
        d.len() >= 4,
{
    (((d[0] as u64) << 24) | ((d[1] as u64) << 16) | ((d[2] as u64) << 8) | (d[3] as u64))
}

/// A digest scalar is made of four bytes, so it always lies below the
/// scalar bound.
pub proof fn lemma_scalar32_bound(d: Seq<u8>)
    ensures
        scalar32_of(d) < SCALAR_BOUND,
{
    let a = d[0] as u64;
    let b = d[1] as u64;
    let c = d[2] as u64;
    let e = d[3] as u64;
    assert((a << 24) | (b << 16) | (c << 8) | e < 0x1_0000_0000) by (bit_vector)
        requires
            a < 256,
            b < 256,
            c < 256,
            e < 256,
    ;
}

/// The challenge scalar: the leading 32 bits of the transcript digest.
pub open spec fn challenge_scalar(pk: u64, commitment: u64, challenge: Seq<u8>) -> u64 {
    scalar32_of(sha256_of(schnorr_transcript(pk, commitment, challenge)))
}

fn challenge_scalar_exec(pk: u64, commitment: u64, challenge: &Vec<u8>) -> (e: u64)
    ensures
        e == challenge_scalar(pk, commitment, challenge@),
        e < SCALAR_BOUND,
{
    let mut t: Vec<u8> = Vec::new();
    t.push(83u8);
    push_u64_be(&mut t, pk);
    push_u64_be(&mut t, commitment);
    push_bytes(&mut t, challenge);
    proof {
        assert(t@ =~= schnorr_transcript(pk, commitment, challenge@));
    }
    let d = sha256(&t);
    let e = ((d[0] as u64) << 24) | ((d[1] as u64) << 16) | ((d[2] as u64) << 8) | (d[3] as u64);
    proof {
        lemma_scalar32_bound(d@);
    }
    e
}

/// The Schnorr verification equation for a decoded proof.
pub open spec fn schnorr_relation(pk: u64, p: SchnorrProof, challenge: Seq<u8>) -> bool {
    let e = challenge_scalar(pk, p.commitment, challenge);
    pow_mod_spec(FIELD_G, p.response) == (p.commitment as int * pow_mod_spec(pk, e)) % (
    FIELD_P as int)
}

/// What verification returns on any input bytes: false on a malformed
/// key or proof, else the verification equation.
pub open spec fn schnorr_verify_spec(pk_bytes: Seq<u8>, proof_bytes: Seq<u8>, challenge: Seq<u8>) -> bool {
    match public_key_decode_spec(pk_bytes) {
        Some(pk) => match schnorr_decode_spec(proof_bytes) {
            Some(p) => schnorr_relation(pk, p, challenge),
            None => false,
        },
        None => false,
    }
}

fn decode_secret_key(b: &Vec<u8>) -> (r: Option<u64>)
    ensures
        r == secret_key_decode_spec(b@),
{
    if b.len() != 8 {
        return None;
    }
    let v = read_u64_be(b, 0);
    proof {
        assert(b@.subrange(0, 8) =~= b@);
    }
    if v < SCALAR_BOUND {
        Some(v)
    } else {
        None
    }
}

fn decode_public_key(b: &Vec<u8>) -> (r: Option<u64>)
    ensures
        r == public_key_decode_spec(b@),
{
    if b.len() != 8 {
        return None;
    }
    let v = read_u64_be(b, 0);
    proof {
        assert(b@.subrange(0, 8) =~= b@);
    }
    if v < FIELD_P {
        Some(v)
    } else {
        None
    }
}

/// Draws a fresh identity: a random secret scalar and its one-way
/// public image.  Fails only when the entropy source is unavailable.
pub fn generate_keypair() -> (r: Result<KeyPair, CryptoError>)
    ensures
        r matches Ok(kp) ==> kp.wf(),
        r matches Err(e) ==> e == CryptoError::EntropyUnavailable,
{
    let bytes = match random_bytes(4) {
        Some(v) => v,
        None => {
            return Err(CryptoError::EntropyUnavailable);
        },
    };
    let sk = ((bytes[0] as u64) << 24) | ((bytes[1] as u64) << 16) | ((bytes[2] as u64) << 8) | (
    bytes[3] as u64);
    proof {
        lemma_scalar32_bound(bytes@);
    }
    let pk = pow_mod(FIELD_G, sk);
    Ok(KeyPair { secret: sk, public: pk })
}

/// Draws a fresh identity and returns it as two 8-byte strings: the
/// secret key, then the public key derived from it.
pub fn generate_schnorr_keys() -> (r: Result<(Vec<u8>, Vec<u8>), CryptoError>)
    ensures
        r matches Err(e) ==> e == CryptoError::EntropyUnavailable,
        r matches Ok(pair) ==> ({
            &&& secret_key_decode_spec(pair.0@) is Some
            &&& public_key_decode_spec(pair.1@) == Some(
                public_of(secret_key_decode_spec(pair.0@).unwrap()),
            )
        }),
{
    let kp = match generate_keypair() {
        Ok(kp) => kp,
        Err(e) => {
            return Err(e);
        },
    };
    let mut sk_bytes: Vec<u8> = Vec::new();
    push_u64_be(&mut sk_bytes, kp.secret);
    let mut pk_bytes: Vec<u8> = Vec::new();
    push_u64_be(&mut pk_bytes, kp.public);
    proof {
        assert(sk_bytes@ =~= be_bytes_of_u64(kp.secret));
        assert(pk_bytes@ =~= be_bytes_of_u64(kp.public));
        crate::codec::lemma_u64_be_round_trip(kp.secret);
        crate::codec::lemma_u64_be_round_trip(kp.public);
    }
    Ok((sk_bytes, pk_bytes))
}

/// Produces a proof of knowledge of the secret key behind `pk`, bound
/// to `challenge`.  Returns `InvalidEncoding` exactly on a malformed
/// key; otherwise fails only when the entropy source does.  Whenever
/// `pk` is the public image of `sk`, the returned proof verifies
/// against `(pk, challenge)`.
pub fn generate_schnorr_proof(sk: &Vec<u8>, pk: &Vec<u8>, challenge: &Vec<u8>) -> (r: Result<
    Vec<u8>,
    CryptoError,
>)
    ensures
        (secret_key_decode_spec(sk@) is None || public_key_decode_spec(pk@) is None) <==> r
            == Err::<Vec<u8>, CryptoError>(CryptoError::InvalidEncoding),
        r matches Err(e) ==> (e == CryptoError::InvalidEncoding || e
            == CryptoError::EntropyUnavailable),
        r matches Ok(pb) ==> ({
            &&& pb@.len() == 16
            &&& schnorr_decode_spec(pb@) is Some
            &&& (public_key_decode_spec(pk@) == Some(
                public_of(secret_key_decode_spec(sk@).unwrap()),
            ) ==> schnorr_verify_spec(pk@, pb@, challenge@))
        }),
{
    let sk_val = match decode_secret_key(sk) {
        Some(v) => v,
        None => {
            return Err(CryptoError::InvalidEncoding);
        },
    };
    let pk_val = match decode_public_key(pk) {
        Some(v) => v,
        None => {
            return Err(CryptoError::InvalidEncoding);
        },
    };
    let nonce = match random_bytes(4) {
        Some(v) => v,
        None => {
            return Err(CryptoError::EntropyUnavailable);
        },
    };
    let r_val = ((nonce[0] as u64) << 24) | ((nonce[1] as u64) << 16) | ((nonce[2] as u64) << 8) | (
    nonce[3] as u64);
    proof {
        lemma_scalar32_bound(nonce@);
    }
    let cm = pow_mod(FIELD_G, r_val);
    let e = challenge_scalar_exec(pk_val, cm, challenge);
    proof {
        lemma_mul_upper_bound(
            e as int,
            (SCALAR_BOUND - 1) as int,
            sk_val as int,
            (SCALAR_BOUND - 1) as int,
        );
    }
    let s = r_val + e * sk_val;
    let p = SchnorrProof { commitment: cm, response: s };
    let out = encode_schnorr_proof(&p);
    proof {
        if public_key_decode_spec(pk@) == Some(public_of(secret_key_decode_spec(sk@).unwrap())) {
            lemma_schnorr_completeness(sk_val, r_val, e);
            assert(schnorr_relation(pk_val, p, challenge@));
        }
    }
    Ok(out)
}

/// Checks a Schnorr proof.  Never fails: a malformed key or proof is a
/// verification failure, not an error.
pub fn verify_schnorr_proof(pk: &Vec<u8>, proof: &Vec<u8>, challenge: &Vec<u8>) -> (r: bool)
    ensures
        r == schnorr_verify_spec(pk@, proof@, challenge@),
{
    let pk_val = match decode_public_key(pk) {
        Some(v) => v,
        None => {
            return false;
        },
    };
    let p = match crate::types::decode_schnorr_proof(proof) {
        Some(p) => p,
        None => {
            return false;
        },
    };
    let e = challenge_scalar_exec(pk_val, p.commitment, challenge);
    let lhs = pow_mod(FIELD_G, p.response);
    let rhs = crate::field::mul_mod(p.commitment, pow_mod(pk_val, e));
    lhs == rhs
}

/// Law: the public key is a deterministic function of the secret key:
/// two well-formed identities with the same secret share the public
/// key.
pub proof fn lemma_public_key_deterministic(kp1: KeyPair, kp2: KeyPair)
    requires
        kp1.wf(),
        kp2.wf(),
        kp1.secret == kp2.secret,
    ensures
        kp1.public == kp2.public,
{
}

/// Law (completeness): for every identity and every challenge, an
/// honestly built proof — commitment `g^nonce % p`, response
/// `nonce + e * sk` — verifies against the identity's public key and
/// that challenge, whatever nonce the prover drew.
pub proof fn lemma_schnorr_proof_completeness(sk: u64, nonce: u64, ch: Seq<u8>)
    requires
        sk < SCALAR_BOUND,
        nonce < SCALAR_BOUND,
    ensures
        ({
            let pk = public_of(sk);
            let cm = pow_mod_spec(FIELD_G, nonce) as u64;
            let e = challenge_scalar(pk, cm, ch);
            let p = SchnorrProof { commitment: cm, response: (nonce + e * sk) as u64 };
            &&& schnorr_relation(pk, p, ch)
            &&& schnorr_verify_spec(be_bytes_of_u64(pk), crate::types::schnorr_proof_bytes(p), ch)
        }),
{
    let p_int = FIELD_P as int;
    let pk = public_of(sk);
    let cm = pow_mod_spec(FIELD_G, nonce) as u64;
    let e = challenge_scalar(pk, cm, ch);
    lemma_scalar32_bound(sha256_of(schnorr_transcript(pk, cm, ch)));
    assert(nonce + e * sk <= u64::MAX) by (nonlinear_arith)
        requires
            e < SCALAR_BOUND,
            sk < SCALAR_BOUND,
            nonce < SCALAR_BOUND,
    ;
    let s: u64 = (nonce + e * sk) as u64;
    lemma_schnorr_completeness(sk, nonce, e);
    let pr = SchnorrProof { commitment: cm, response: s };
    assert(schnorr_relation(pk, pr, ch));
    // byte level: both encodings decode back to the same values
    crate::codec::lemma_u64_be_round_trip(pk);
    crate::codec::lemma_u64_be_round_trip(cm);
    crate::codec::lemma_u64_be_round_trip(s);
    let pk_bytes = be_bytes_of_u64(pk);
    let pr_bytes = crate::types::schnorr_proof_bytes(pr);
    assert(pr_bytes.subrange(0, 8) =~= be_bytes_of_u64(cm));
    assert(pr_bytes.subrange(8, 16) =~= be_bytes_of_u64(s));
    assert(public_key_decode_spec(pk_bytes) == Some(pk));
    assert(schnorr_decode_spec(pr_bytes) == Some(pr));
}

/// Law: a proof is bound to the challenge it was generated for.  If a
/// proof verifies under `ch1`, then under any `ch2` it verifies
/// exactly when the key-exponent term of `ch2`'s equation collides
/// with that of `ch1`; whenever the two terms differ, verification
/// under `ch2` fails.
pub proof fn lemma_schnorr_challenge_binding(pk: u64, p: SchnorrProof, ch1: Seq<u8>, ch2: Seq<u8>)
    requires
        schnorr_relation(pk, p, ch1),
    ensures
        ({
            let e1 = challenge_scalar(pk, p.commitment, ch1);
            let e2 = challenge_scalar(pk, p.commitment, ch2);
            schnorr_relation(pk, p, ch2) <==> (p.commitment as int * pow_mod_spec(pk, e2)) % (
            FIELD_P as int) == (p.commitment as int * pow_mod_spec(pk, e1)) % (FIELD_P as int)
        }),
{
}

/// Law: verification is a pure function of its inputs: two runs on the
/// same key, proof and challenge return the same boolean.
pub proof fn lemma_schnorr_verify_idempotent(
    r1: bool,
    r2: bool,
    pk: Seq<u8>,
    proof: Seq<u8>,
    ch: Seq<u8>,
)
    requires
        r1 == schnorr_verify_spec(pk, proof, ch),
        r2 == schnorr_verify_spec(pk, proof, ch),
    ensures
        r1 == r2,
{
}

/// Draws a fresh identity and returns it hex-encoded: the secret key,
/// then the public key derived from it.
pub fn generate_schnorr_keys_hex() -> (r: Result<(String, String), CryptoError>)
    ensures
        r matches Err(e) ==> e == CryptoError::EntropyUnavailable,
        r matches Ok(pair) ==> exists|sk: u64|
            sk < SCALAR_BOUND && pair.0@ == hex_of(be_bytes_of_u64(sk)) && pair.1@ == hex_of(
                be_bytes_of_u64(public_of(sk)),
            ),
{
    let kp = match generate_keypair() {
        Ok(kp) => kp,
        Err(e) => {
            return Err(e);
        },
    };
    let mut sk_bytes: Vec<u8> = Vec::new();
    push_u64_be(&mut sk_bytes, kp.secret);
    let mut pk_bytes: Vec<u8> = Vec::new();
    push_u64_be(&mut pk_bytes, kp.public);
    let sk_hex = hex_encode(&sk_bytes);
    let pk_hex = hex_encode(&pk_bytes);
    proof {
        assert(sk_bytes@ =~= be_bytes_of_u64(kp.secret));
        assert(pk_bytes@ =~= be_bytes_of_u64(kp.public));
    }
    Ok((sk_hex, pk_hex))
}

/// Decodes the three hex strings and produces a proof from the bytes.
/// `InvalidEncoding` exactly on bad hex or a malformed key.
pub fn generate_schnorr_proof_hex(sk_hex: &str, pk_hex: &str, challenge_hex: &str) -> (r: Result<
    Vec<u8>,
    CryptoError,
>)
    ensures
        r == Err::<Vec<u8>, CryptoError>(CryptoError::InvalidEncoding) <==> (!hex_valid(sk_hex@)
            || !hex_valid(pk_hex@) || !hex_valid(challenge_hex@) || secret_key_decode_spec(
            hex_bytes(sk_hex@),
        ) is None || public_key_decode_spec(hex_bytes(pk_hex@)) is None),
        r matches Err(e) ==> (e == CryptoError::InvalidEncoding || e
            == CryptoError::EntropyUnavailable),
        r matches Ok(pb) ==> ({
            &&& schnorr_decode_spec(pb@) is Some
            &&& (public_key_decode_spec(hex_bytes(pk_hex@)) == Some(
                public_of(secret_key_decode_spec(hex_bytes(sk_hex@)).unwrap()),
            ) ==> schnorr_verify_spec(hex_bytes(pk_hex@), pb@, hex_bytes(challenge_hex@)))
        }),
{
    let sk = match hex_decode(sk_hex) {
        Some(v) => v,
        None => {
            return Err(CryptoError::InvalidEncoding);
        },
    };
    let pk = match hex_decode(pk_hex) {
        Some(v) => v,
        None => {
            return Err(CryptoError::InvalidEncoding);
        },
    };
    let challenge = match hex_decode(challenge_hex) {
        Some(v) => v,
        None => {
            return Err(CryptoError::InvalidEncoding);
        },
    };
    generate_schnorr_proof(&sk, &pk, &challenge)
}

/// Decodes the two hex strings and checks the proof bytes against
/// them.  `InvalidEncoding` exactly on bad hex; a malformed key or
/// proof is a verification failure, not an error.
pub fn verify_schnorr_proof_hex(pk_hex: &str, proof: &Vec<u8>, challenge_hex: &str) -> (r: Result<
    bool,
    CryptoError,
>)
    ensures
        r is Err <==> (!hex_valid(pk_hex@) || !hex_valid(challenge_hex@)),
        r matches Err(e) ==> e == CryptoError::InvalidEncoding,
        r matches Ok(b) ==> b == schnorr_verify_spec(
            hex_bytes(pk_hex@),
            proof@,
            hex_bytes(challenge_hex@),
        ),
{
    let pk = match hex_decode(pk_hex) {
        Some(v) => v,
        None => {
            return Err(CryptoError::InvalidEncoding);
        },
    };
    let challenge = match hex_decode(challenge_hex) {
        Some(v) => v,
        None => {
            return Err(CryptoError::InvalidEncoding);
        },
    };
    Ok(verify_schnorr_proof(&pk, proof, &challenge))
}

} // verus!
