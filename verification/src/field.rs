//! Arithmetic over the fixed prime field used by every proof: the
//! Mersenne prime `2^61 - 1` with a fixed public generator.  All
//! exponentiation is proved against `vstd`'s mathematical `pow`.

use vstd::arithmetic::div_mod::{
    lemma_fundamental_div_mod, lemma_mul_mod_noop_general, lemma_small_mod,
};
use vstd::arithmetic::mul::lemma_mul_upper_bound;
use vstd::arithmetic::power::{
    lemma_pow0, lemma_pow1, lemma_pow_adds, lemma_pow_mod_noop, lemma_pow_multiplies, pow,
};
use vstd::prelude::*;

verus! {

/// The field modulus, the Mersenne prime `2^61 - 1`.
pub const FIELD_P: u64 = 2305843009213693951;

/// The fixed public generator used for key derivation and commitments.
pub const FIELD_G: u64 = 5;

/// Secret keys, nonces and challenge scalars are kept below `2^32` so
/// that a Schnorr response `r + e * sk` always fits in a `u64`.
pub const SCALAR_BOUND: u64 = 0x1_0000_0000;

/// `pow(b, e) % FIELD_P`, the mathematical value every modular
/// exponentiation below is held to.
pub open spec fn pow_mod_spec(b: u64, e: u64) -> int {
    pow(b as int, e as nat) % (FIELD_P as int)
}

/// `(a * b) % FIELD_P`.
pub fn mul_mod(a: u64, b: u64) -> (r: u64)
    ensures
        r as int == (a as int * b as int) % (FIELD_P as int),
        r < FIELD_P,
{
    proof {
        lemma_mul_upper_bound(a as int, u64::MAX as int, b as int, u64::MAX as int);
    }
    let wide: u128 = (a as u128) * (b as u128) % (FIELD_P as u128);
    wide as u64
}

/// `(a + b) % FIELD_P`.
pub fn add_mod(a: u64, b: u64) -> (r: u64)
    requires
        a < FIELD_P,
        b < FIELD_P,
    ensures
        r as int == (a as int + b as int) % (FIELD_P as int),
        r < FIELD_P,
{
    let s: u64 = a + b;
    if s >= FIELD_P {
        proof {
            lemma_small_mod((s - FIELD_P) as nat, FIELD_P as nat);
            vstd::arithmetic::div_mod::lemma_mod_sub_multiples_vanish(s as int, FIELD_P as int);
        }
        s - FIELD_P
    } else {
        proof {
            lemma_small_mod(s as nat, FIELD_P as nat);
        }
        s
    }
}

/// Modular exponentiation by squaring: `base^exp % FIELD_P`.
pub fn pow_mod(base: u64, exp: u64) -> (r: u64)
    ensures
        r as int == pow_mod_spec(base, exp),
        r < FIELD_P,
    decreases exp,
{
    let p_int: Ghost<int> = Ghost(FIELD_P as int);
    let b_int: Ghost<int> = Ghost(base as int);
    if exp == 0 {
        proof {
            lemma_pow0(b_int@);
            lemma_small_mod(1nat, FIELD_P as nat);
        }
        1
    } else {
        let half = pow_mod(base, exp / 2);
        let sq = mul_mod(half, half);
        proof {
            let h: nat = (exp / 2) as nat;
            lemma_mul_mod_noop_general(pow(b_int@, h), pow(b_int@, h), p_int@);
            lemma_pow_adds(b_int@, h, h);
            lemma_fundamental_div_mod(exp as int, 2);
        }
        if exp % 2 == 1 {
            let r = mul_mod(sq, base);
            proof {
                let e1: nat = (exp - 1) as nat;
                lemma_mul_mod_noop_general(pow(b_int@, e1), b_int@, p_int@);
                lemma_pow_adds(b_int@, e1, 1nat);
                lemma_pow1(b_int@);
            }
            r
        } else {
            sq
        }
    }
}

/// Completeness of the Schnorr verification equation: with
/// `pk = g^sk % p` and commitment `g^r % p`, the response `r + e * sk`
/// satisfies `g^(r + e*sk) % p == (commitment * (pk^e % p)) % p`.
pub proof fn lemma_schnorr_completeness(sk: u64, r: u64, e: u64)
    requires
        r + e * sk <= u64::MAX,
    ensures
        ({
            let p = FIELD_P as int;
            let g = FIELD_G as int;
            let pk = pow(g, sk as nat) % p;
            let cm = pow(g, r as nat) % p;
            pow(g, (r + e * sk) as nat) % p == (cm * (pow(pk, e as nat) % p)) % p
        }),
{
    let p = FIELD_P as int;
    let g = FIELD_G as int;
    let pk = pow(g, sk as nat) % p;
    let cm = pow(g, r as nat) % p;
    lemma_pow_mod_noop(pow(g, sk as nat), e as nat, p);
    lemma_pow_multiplies(g, sk as nat, e as nat);
    assert(pow(pk, e as nat) % p == pow(g, (sk * e) as nat) % p);
    lemma_mul_mod_noop_general(pow(g, r as nat), pow(g, (sk * e) as nat), p);
    assert((cm * (pow(g, (sk * e) as nat) % p)) % p == (pow(g, r as nat) * pow(
        g,
        (sk * e) as nat,
    )) % p);
    lemma_pow_adds(g, r as nat, (sk * e) as nat);
    assert(r as nat + (sk * e) as nat == (r + e * sk) as nat) by (nonlinear_arith);
}

} // verus!
