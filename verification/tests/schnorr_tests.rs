use zkp_toolkit::field::{pow_mod, FIELD_G, FIELD_P};
use zkp_toolkit::schnorr::{
    generate_keypair, generate_schnorr_keys, generate_schnorr_keys_hex, generate_schnorr_proof,
    generate_schnorr_proof_hex, verify_schnorr_proof, verify_schnorr_proof_hex,
};
use zkp_toolkit::types::{
    decode_keypair, decode_schnorr_proof, encode_keypair, encode_schnorr_proof, CryptoError,
    KeyPair, SchnorrProof,
};

fn be(x: u64) -> Vec<u8> {
    x.to_be_bytes().to_vec()
}

fn keys() -> (Vec<u8>, Vec<u8>) {
    generate_schnorr_keys().expect("entropy source available")
}

#[test]
fn public_key_is_deterministic_in_secret() {
    // The same secret always yields the same public key.
    let sk: u64 = 123456789;
    let pk1 = pow_mod(FIELD_G, sk);
    let pk2 = pow_mod(FIELD_G, sk);
    assert_eq!(pk1, pk2);
    // Distinct secrets yield distinct public keys.
    let others = [1u64, 2, 3, 999999, 0xFFFF_FFFE];
    for &o in others.iter() {
        assert_ne!(pow_mod(FIELD_G, o), pk1);
    }
}

#[test]
fn generated_keys_bind_public_to_secret() {
    let (sk, pk) = keys();
    assert_eq!(sk.len(), 8);
    assert_eq!(pk.len(), 8);
    let sk_val = u64::from_be_bytes(sk.as_slice().try_into().unwrap());
    let pk_val = u64::from_be_bytes(pk.as_slice().try_into().unwrap());
    assert_eq!(pk_val, pow_mod(FIELD_G, sk_val));
}

#[test]
fn two_generated_identities_differ() {
    let (sk1, _) = keys();
    let (sk2, _) = keys();
    assert_ne!(sk1, sk2);
}

#[test]
fn schnorr_completeness() {
    let (sk, pk) = keys();
    let challenge = b"round-7-update".to_vec();
    let proof = generate_schnorr_proof(&sk, &pk, &challenge).expect("well-formed inputs");
    assert!(verify_schnorr_proof(&pk, &proof, &challenge));
}

#[test]
fn schnorr_challenge_binding() {
    let (sk, pk) = keys();
    let ch1 = b"challenge-one".to_vec();
    let ch2 = b"challenge-two".to_vec();
    let proof = generate_schnorr_proof(&sk, &pk, &ch1).expect("well-formed inputs");
    assert!(verify_schnorr_proof(&pk, &proof, &ch1));
    assert!(!verify_schnorr_proof(&pk, &proof, &ch2));
}

#[test]
fn schnorr_tamper_detection() {
    let (sk, pk) = keys();
    let challenge = b"tamper-check".to_vec();
    let proof = generate_schnorr_proof(&sk, &pk, &challenge).expect("well-formed inputs");
    for i in 0..proof.len() {
        for flip in [0x01u8, 0x80u8] {
            let mut mutated = proof.clone();
            mutated[i] ^= flip;
            assert!(
                !verify_schnorr_proof(&pk, &mutated, &challenge),
                "mutated byte {i} still verified"
            );
        }
    }
}

#[test]
fn schnorr_verify_is_idempotent() {
    let (sk, pk) = keys();
    let challenge = b"same-inputs".to_vec();
    let proof = generate_schnorr_proof(&sk, &pk, &challenge).expect("well-formed inputs");
    let first = verify_schnorr_proof(&pk, &proof, &challenge);
    let second = verify_schnorr_proof(&pk, &proof, &challenge);
    assert_eq!(first, second);
    let wrong = verify_schnorr_proof(&pk, &proof, &b"other".to_vec());
    assert_eq!(wrong, verify_schnorr_proof(&pk, &proof, &b"other".to_vec()));
}

#[test]
fn malformed_inputs_are_rejected() {
    let (sk, pk) = keys();
    let challenge = b"x".to_vec();
    // Wrong secret-key length.
    let short = vec![1u8, 2, 3];
    assert_eq!(
        generate_schnorr_proof(&short, &pk, &challenge),
        Err(CryptoError::InvalidEncoding)
    );
    // Public key out of field range.
    let big_pk = be(u64::MAX);
    assert_eq!(
        generate_schnorr_proof(&sk, &big_pk, &challenge),
        Err(CryptoError::InvalidEncoding)
    );
    // A malformed key or truncated proof is a verification failure, not an error.
    let proof = generate_schnorr_proof(&sk, &pk, &challenge).unwrap();
    assert!(!verify_schnorr_proof(&big_pk, &proof, &challenge));
    let truncated = proof[..proof.len() - 1].to_vec();
    assert!(!verify_schnorr_proof(&pk, &truncated, &challenge));
    assert!(!verify_schnorr_proof(&pk, &Vec::new(), &challenge));
}

#[test]
fn keypair_round_trip() {
    let kp = generate_keypair().expect("entropy source available");
    let bytes = encode_keypair(&kp);
    assert_eq!(bytes.len(), 16);
    let back = decode_keypair(&bytes).expect("well-formed key pair decodes");
    assert_eq!(back, kp);
    // A key pair whose public half does not match its secret is rejected.
    let fake = KeyPair {
        secret: kp.secret,
        public: (kp.public + 1) % FIELD_P,
    };
    let fake_bytes = encode_keypair(&fake);
    assert!(decode_keypair(&fake_bytes).is_none());
}

#[test]
fn schnorr_proof_round_trip() {
    let p = SchnorrProof {
        commitment: 12345,
        response: 678910,
    };
    let bytes = encode_schnorr_proof(&p);
    assert_eq!(bytes.len(), 16);
    let back = decode_schnorr_proof(&bytes).expect("well-formed proof decodes");
    assert_eq!(back, p);
    // Out-of-range commitment bytes are rejected.
    let mut bad = bytes.clone();
    bad[0] = 0xFF;
    assert!(decode_schnorr_proof(&bad).is_none());
}

#[test]
fn hex_layer_agrees_with_byte_layer() {
    // secret 1 has public key g^1 == 5.
    let sk_hex = "0000000000000001";
    let pk_hex = "0000000000000005";
    let challenge_hex = "deadbeef";
    let proof =
        generate_schnorr_proof_hex(sk_hex, pk_hex, challenge_hex).expect("well-formed hex inputs");
    assert_eq!(
        verify_schnorr_proof_hex(pk_hex, &proof, challenge_hex),
        Ok(true)
    );
    // Hex decoding is case-insensitive.
    assert_eq!(
        verify_schnorr_proof_hex("0000000000000005", &proof, "DEADBEEF"),
        Ok(true)
    );
    // The hex layer hands the byte layer exactly the decoded bytes.
    let pk = vec![0u8, 0, 0, 0, 0, 0, 0, 5];
    let challenge = vec![0xdeu8, 0xad, 0xbe, 0xef];
    assert!(verify_schnorr_proof(&pk, &proof, &challenge));
    // A different challenge fails.
    assert_eq!(
        verify_schnorr_proof_hex(pk_hex, &proof, "deadbeee"),
        Ok(false)
    );
}

#[test]
fn hex_api_round_trip() {
    let (sk_hex, pk_hex) = generate_schnorr_keys_hex().expect("entropy source available");
    assert_eq!(sk_hex.len(), 16);
    assert_eq!(pk_hex.len(), 16);
    for c in sk_hex.chars().chain(pk_hex.chars()) {
        assert!(c.is_ascii_hexdigit() && !c.is_ascii_uppercase());
    }
    let proof = generate_schnorr_proof_hex(&sk_hex, &pk_hex, "00ff").expect("well-formed inputs");
    assert_eq!(verify_schnorr_proof_hex(&pk_hex, &proof, "00ff"), Ok(true));
}

#[test]
fn hex_api_rejects_bad_hex() {
    assert_eq!(
        generate_schnorr_proof_hex("xyz", "00", "00"),
        Err(CryptoError::InvalidEncoding)
    );
    assert_eq!(
        verify_schnorr_proof_hex("0g", &Vec::new(), "00"),
        Err(CryptoError::InvalidEncoding)
    );
}
