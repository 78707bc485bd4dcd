//! The proof objects, their well-formedness invariants, and the exact
//! byte layout each one crosses the API in.  Every encoding decodes
//! back to the value it came from.

use crate::codec::{be_bytes_of_u64, lemma_u64_be_round_trip, push_bytes, push_u64_be, read_u64_be,
    u64_of_be_bytes};
use crate::field::{pow_mod, pow_mod_spec, FIELD_G, FIELD_P, SCALAR_BOUND};
use vstd::prelude::*;

verus! {

/// Failures of key generation, proving and decoding.
#[derive(Clone, Copy, Debug, PartialEq, Eq, Structural)]
pub enum CryptoError {
    /// Input bytes do not parse into the expected structure.
    InvalidEncoding,
    /// A well-formed object does not satisfy its verification relation.
    VerificationFailed,
    /// The secure randomness source could not supply bytes.
    EntropyUnavailable,
}

/// Failures of batch aggregation.
#[derive(Clone, Copy, Debug, PartialEq, Eq, Structural)]
pub enum AggregationError {
    /// The batch was empty.
    EmptyBatch,
    /// The proof at this index is structurally or semantically invalid.
    InvalidProof(usize),
}

/// The public key derived from a secret key: `g^sk % p`, a one-way map
/// under the discrete-logarithm assumption.
pub open spec fn public_of(sk: u64) -> u64 {
    pow_mod_spec(FIELD_G, sk) as u64
}

/// A prover identity: a secret scalar and the group element derived
/// from it.
#[derive(Clone, Copy, Debug, PartialEq, Eq, Structural)]
pub struct KeyPair {
    pub secret: u64,
    pub public: u64,
}

impl KeyPair {
    /// The identity invariant: the secret is in scalar range and the
    /// public key is exactly the one-way image of the secret.
    pub open spec fn wf(self) -> bool {
        self.secret < SCALAR_BOUND && self.public == public_of(self.secret)
    }
}

/// A Schnorr proof of knowledge: a commitment group element and a
/// response scalar.
#[derive(Clone, Copy, Debug, PartialEq, Eq, Structural)]
pub struct SchnorrProof {
    pub commitment: u64,
    pub response: u64,
}

impl SchnorrProof {
    pub open spec fn wf(self) -> bool {
        self.commitment < FIELD_P
    }
}

/// A statement proof: the instance it commits to, how many statements
/// the session has folded, the folded accumulator, and a binding tag.
#[derive(Clone, Debug)]
pub struct StatementProof {
    pub instance: u64,
    pub count: u64,
    pub acc: u64,
    pub tag: Vec<u8>,
}

impl StatementProof {
    pub open spec fn wf(self) -> bool {
        self.instance < FIELD_P && self.acc < FIELD_P && 1 <= self.count && self.tag@.len() == 32
    }
}

/// An aggregate proof: how many statement proofs it represents, the
/// folded instance, and a binding tag.
#[derive(Clone, Debug)]
pub struct AggregateProof {
    pub count: u64,
    pub folded: u64,
    pub tag: Vec<u8>,
}

impl AggregateProof {
    pub open spec fn wf(self) -> bool {
        self.folded < FIELD_P && 1 <= self.count && self.tag@.len() == 32
    }
}

// --- key pair bytes: secret (8) || public (8) ---

pub open spec fn keypair_bytes(kp: KeyPair) -> Seq<u8> {
    be_bytes_of_u64(kp.secret) + be_bytes_of_u64(kp.public)
}

pub open spec fn keypair_decode_spec(b: Seq<u8>) -> Option<KeyPair> {
    if b.len() == 16 {
        let sk = u64_of_be_bytes(b.subrange(0, 8));
        let pk = u64_of_be_bytes(b.subrange(8, 16));
        if sk < SCALAR_BOUND && pk == public_of(sk) {
            Some(KeyPair { secret: sk, public: pk })
        } else {
            None
        }
    } else {
        None
    }
}

/// Encodes a key pair; a well-formed key pair decodes back to itself.
pub fn encode_keypair(kp: &KeyPair) -> (r: Vec<u8>)
    ensures
        r@ == keypair_bytes(*kp),
        kp.wf() ==> keypair_decode_spec(r@) == Some(*kp),
{
    let mut out: Vec<u8> = Vec::new();
    push_u64_be(&mut out, kp.secret);
    push_u64_be(&mut out, kp.public);
    proof {
        assert(out@ =~= keypair_bytes(*kp));
        assert(out@.subrange(0, 8) =~= be_bytes_of_u64(kp.secret));
        assert(out@.subrange(8, 16) =~= be_bytes_of_u64(kp.public));
        lemma_u64_be_round_trip(kp.secret);
        lemma_u64_be_round_trip(kp.public);
    }
    out
}

/// Decodes a key pair, checking the range of the secret and that the
/// public key is the one-way image of the secret.
pub fn decode_keypair(b: &Vec<u8>) -> (r: Option<KeyPair>)
    ensures
        r == keypair_decode_spec(b@),
        r matches Some(kp) ==> kp.wf(),
{
    if b.len() != 16 {
        return None;
    }
    let sk = read_u64_be(b, 0);
    let pk = read_u64_be(b, 8);
    if sk >= SCALAR_BOUND {
        return None;
    }
    let expected = pow_mod(FIELD_G, sk);
    if pk == expected {
        Some(KeyPair { secret: sk, public: pk })
    } else {
        None
    }
}

// --- Schnorr proof bytes: commitment (8) || response (8) ---

pub open spec fn schnorr_proof_bytes(p: SchnorrProof) -> Seq<u8> {
    be_bytes_of_u64(p.commitment) + be_bytes_of_u64(p.response)
}

pub open spec fn schnorr_decode_spec(b: Seq<u8>) -> Option<SchnorrProof> {
    if b.len() == 16 {
        let cm = u64_of_be_bytes(b.subrange(0, 8));
        let s = u64_of_be_bytes(b.subrange(8, 16));
        if cm < FIELD_P {
            Some(SchnorrProof { commitment: cm, response: s })
        } else {
            None
        }
    } else {
        None
    }
}

/// Encodes a Schnorr proof; a well-formed proof decodes back to itself.
pub fn encode_schnorr_proof(p: &SchnorrProof) -> (r: Vec<u8>)
    ensures
        r@ == schnorr_proof_bytes(*p),
        p.wf() ==> schnorr_decode_spec(r@) == Some(*p),
{
    let mut out: Vec<u8> = Vec::new();
    push_u64_be(&mut out, p.commitment);
    push_u64_be(&mut out, p.response);
    proof {
        assert(out@ =~= schnorr_proof_bytes(*p));
        assert(out@.subrange(0, 8) =~= be_bytes_of_u64(p.commitment));
        assert(out@.subrange(8, 16) =~= be_bytes_of_u64(p.response));
        lemma_u64_be_round_trip(p.commitment);
        lemma_u64_be_round_trip(p.response);
    }
    out
}

pub fn decode_schnorr_proof(b: &Vec<u8>) -> (r: Option<SchnorrProof>)
    ensures
        r == schnorr_decode_spec(b@),
        r matches Some(p) ==> p.wf(),
{
    if b.len() != 16 {
        return None;
    }
    let cm = read_u64_be(b, 0);
    let s = read_u64_be(b, 8);
    if cm >= FIELD_P {
        return None;
    }
    Some(SchnorrProof { commitment: cm, response: s })
}

// --- statement proof bytes: instance (8) || count (8) || acc (8) || tag (32) ---

pub open spec fn statement_bytes_of(instance: u64, count: u64, acc: u64, tag: Seq<u8>) -> Seq<u8> {
    be_bytes_of_u64(instance) + be_bytes_of_u64(count) + be_bytes_of_u64(acc) + tag
}

/// The instance field of an encoded statement proof.
pub open spec fn st_instance(b: Seq<u8>) -> u64 {
    u64_of_be_bytes(b.subrange(0, 8))
}

/// The fold-count field of an encoded statement proof.
pub open spec fn st_count(b: Seq<u8>) -> u64 {
    u64_of_be_bytes(b.subrange(8, 16))
}

/// The accumulator field of an encoded statement proof.
pub open spec fn st_acc(b: Seq<u8>) -> u64 {
    u64_of_be_bytes(b.subrange(16, 24))
}

/// The binding tag of an encoded statement proof.
pub open spec fn st_tag(b: Seq<u8>) -> Seq<u8> {
    b.subrange(24, 56)
}

/// Structural well-formedness of encoded statement-proof bytes.
pub open spec fn statement_decode_ok(b: Seq<u8>) -> bool {
    b.len() == 56 && st_instance(b) < FIELD_P && st_acc(b) < FIELD_P && 1 <= st_count(b)
}

/// Encodes a statement proof; a well-formed proof decodes back to the
/// same fields.
pub fn encode_statement_proof(p: &StatementProof) -> (r: Vec<u8>)
    requires
        p.wf(),
    ensures
        r@ == statement_bytes_of(p.instance, p.count, p.acc, p.tag@),
        statement_decode_ok(r@),
        st_instance(r@) == p.instance,
        st_count(r@) == p.count,
        st_acc(r@) == p.acc,
        st_tag(r@) == p.tag@,
{
    let mut out: Vec<u8> = Vec::new();
    push_u64_be(&mut out, p.instance);
    push_u64_be(&mut out, p.count);
    push_u64_be(&mut out, p.acc);
    push_bytes(&mut out, &p.tag);
    proof {
        assert(out@ =~= statement_bytes_of(p.instance, p.count, p.acc, p.tag@));
        assert(out@.subrange(0, 8) =~= be_bytes_of_u64(p.instance));
        assert(out@.subrange(8, 16) =~= be_bytes_of_u64(p.count));
        assert(out@.subrange(16, 24) =~= be_bytes_of_u64(p.acc));
        assert(out@.subrange(24, 56) =~= p.tag@);
        lemma_u64_be_round_trip(p.instance);
        lemma_u64_be_round_trip(p.count);
        lemma_u64_be_round_trip(p.acc);
    }
    out
}

/// Decodes statement-proof bytes into a well-formed statement proof.
pub fn decode_statement_proof(b: &Vec<u8>) -> (r: Option<StatementProof>)
    ensures
        r is Some <==> statement_decode_ok(b@),
        r matches Some(p) ==> p.wf() && p.instance == st_instance(b@) && p.count == st_count(b@)
            && p.acc == st_acc(b@) && p.tag@ == st_tag(b@),
{
    if b.len() != 56 {
        return None;
    }
    let instance = read_u64_be(b, 0);
    let count = read_u64_be(b, 8);
    let acc = read_u64_be(b, 16);
    if instance >= FIELD_P || acc >= FIELD_P || count == 0 {
        return None;
    }
    let mut tag: Vec<u8> = Vec::new();
    let mut i: usize = 24;
    while i < 56
        invariant
            24 <= i <= 56,
            b@.len() == 56,
            tag@ == b@.subrange(24, i as int),
        decreases 56 - i,
    {
        tag.push(b[i]);
        proof {
            assert(tag@ =~= b@.subrange(24, i as int + 1));
        }
        i = i + 1;
    }
    Some(StatementProof { instance, count, acc, tag })
}

// --- aggregate proof bytes: count (8) || folded (8) || tag (32) ---

pub open spec fn aggregate_bytes_of(count: u64, folded: u64, tag: Seq<u8>) -> Seq<u8> {
    be_bytes_of_u64(count) + be_bytes_of_u64(folded) + tag
}

/// The count field of an encoded aggregate proof.
pub open spec fn ag_count(b: Seq<u8>) -> u64 {
    u64_of_be_bytes(b.subrange(0, 8))
}

/// The folded-instance field of an encoded aggregate proof.
pub open spec fn ag_folded(b: Seq<u8>) -> u64 {
    u64_of_be_bytes(b.subrange(8, 16))
}

/// The binding tag of an encoded aggregate proof.
pub open spec fn ag_tag(b: Seq<u8>) -> Seq<u8> {
    b.subrange(16, 48)
}

/// Structural well-formedness of encoded aggregate-proof bytes.
pub open spec fn aggregate_decode_ok(b: Seq<u8>) -> bool {
    b.len() == 48 && ag_folded(b) < FIELD_P && 1 <= ag_count(b)
}

/// Encodes an aggregate proof; a well-formed proof decodes back to the
/// same fields.
pub fn encode_aggregate_proof(p: &AggregateProof) -> (r: Vec<u8>)
    requires
        p.wf(),
    ensures
        r@ == aggregate_bytes_of(p.count, p.folded, p.tag@),
        aggregate_decode_ok(r@),
        ag_count(r@) == p.count,
        ag_folded(r@) == p.folded,
        ag_tag(r@) == p.tag@,
{
    let mut out: Vec<u8> = Vec::new();
    push_u64_be(&mut out, p.count);
    push_u64_be(&mut out, p.folded);
    push_bytes(&mut out, &p.tag);
    proof {
        assert(out@ =~= aggregate_bytes_of(p.count, p.folded, p.tag@));
        assert(out@.subrange(0, 8) =~= be_bytes_of_u64(p.count));
        assert(out@.subrange(8, 16) =~= be_bytes_of_u64(p.folded));
        assert(out@.subrange(16, 48) =~= p.tag@);
        lemma_u64_be_round_trip(p.count);
        lemma_u64_be_round_trip(p.folded);
    }
    out
}

/// Decodes aggregate-proof bytes into a well-formed aggregate proof.
pub fn decode_aggregate_proof(b: &Vec<u8>) -> (r: Option<AggregateProof>)
    ensures
        r is Some <==> aggregate_decode_ok(b@),
        r matches Some(p) ==> p.wf() && p.count == ag_count(b@) && p.folded == ag_folded(b@)
            && p.tag@ == ag_tag(b@),
{
    if b.len() != 48 {
        return None;
    }
    let count = read_u64_be(b, 0);
    let folded = read_u64_be(b, 8);
    if folded >= FIELD_P || count == 0 {
        return None;
    }
    let mut tag: Vec<u8> = Vec::new();
    let mut i: usize = 16;
    while i < 48
        invariant
            16 <= i <= 48,
            b@.len() == 48,
            tag@ == b@.subrange(16, i as int),
        decreases 48 - i,
    {
        tag.push(b[i]);
        proof {
            assert(tag@ =~= b@.subrange(16, i as int + 1));
        }
        i = i + 1;
    }
    Some(AggregateProof { count, folded, tag })
}

} // verus!
