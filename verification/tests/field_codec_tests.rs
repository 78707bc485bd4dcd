use zkp_toolkit::field::{add_mod, mul_mod, pow_mod, FIELD_G, FIELD_P};
use zkp_toolkit::types::{decode_schnorr_proof, encode_keypair, KeyPair, SchnorrProof};

#[test]
fn field_constants() {
    // The modulus is the Mersenne prime 2^61 - 1.
    assert_eq!(FIELD_P, (1u64 << 61) - 1);
    assert_eq!(FIELD_G, 5);
}

#[test]
fn pow_mod_exact_values() {
    assert_eq!(pow_mod(FIELD_G, 0), 1);
    assert_eq!(pow_mod(FIELD_G, 1), 5);
    assert_eq!(pow_mod(FIELD_G, 3), 125);
    // 2^61 % (2^61 - 1) == 1, so the exponent wraps one step further to 2.
    assert_eq!(pow_mod(2, 61), 1);
    assert_eq!(pow_mod(2, 62), 2);
    assert_eq!(pow_mod(0, 5), 0);
    assert_eq!(pow_mod(1, u64::MAX), 1);
}

#[test]
fn add_and_mul_mod_exact_values() {
    assert_eq!(add_mod(FIELD_P - 1, 1), 0);
    assert_eq!(add_mod(FIELD_P - 1, FIELD_P - 1), FIELD_P - 2);
    assert_eq!(add_mod(3, 4), 7);
    assert_eq!(mul_mod(FIELD_P - 1, 2), FIELD_P - 2);
    assert_eq!(mul_mod(3, 4), 12);
    assert_eq!(mul_mod(FIELD_P, 7), 0);
}

#[test]
fn keypair_encoding_is_big_endian() {
    // public_of(1) == g^1 % p == 5.
    let kp = KeyPair { secret: 1, public: 5 };
    let bytes = encode_keypair(&kp);
    assert_eq!(
        bytes,
        vec![0, 0, 0, 0, 0, 0, 0, 1, 0, 0, 0, 0, 0, 0, 0, 5]
    );
}

#[test]
fn schnorr_proof_decoding_reads_big_endian_fields() {
    let mut bytes = vec![0u8; 16];
    bytes[7] = 9; // commitment 9
    bytes[14] = 1; // response 256 + 2
    bytes[15] = 2;
    let p = decode_schnorr_proof(&bytes).expect("in-range fields decode");
    assert_eq!(p, SchnorrProof { commitment: 9, response: 258 });
}
