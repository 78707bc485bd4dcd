use zkp_toolkit::field::FIELD_P;
use zkp_toolkit::protogalaxy::{verify_and_aggregate_protogalaxy, verify_protogalaxy_proof};
use zkp_toolkit::protostar::{
    generate_protostar_proof, ComputationTrace, FoldingSession, Gate, GateOp,
};
use zkp_toolkit::types::{decode_aggregate_proof, encode_aggregate_proof, AggregationError};

fn statement_proof(seed: u64) -> Vec<u8> {
    let mut session = FoldingSession::new();
    let trace = ComputationTrace {
        gates: vec![Gate {
            op: GateOp::Add,
            a: seed % FIELD_P,
            b: 1,
            c: (seed % FIELD_P + 1) % FIELD_P,
        }],
    };
    generate_protostar_proof(&mut session, &trace).expect("satisfied trace proves")
}

#[test]
fn empty_batch_is_rejected() {
    assert_eq!(
        verify_and_aggregate_protogalaxy(Vec::new()),
        Err(AggregationError::EmptyBatch)
    );
}

#[test]
fn single_proof_batch_aggregates() {
    let p = statement_proof(7);
    let aggregate = verify_and_aggregate_protogalaxy(vec![p]).expect("one valid proof");
    let decoded = decode_aggregate_proof(&aggregate).expect("aggregate decodes");
    assert_eq!(decoded.count, 1);
    assert!(verify_protogalaxy_proof(&aggregate));
}

#[test]
fn first_invalid_proof_aborts_with_its_index() {
    let valid = statement_proof(1);
    let mut invalid = statement_proof(2);
    invalid[40] ^= 0xFF; // break the tag
    assert_eq!(
        verify_and_aggregate_protogalaxy(vec![valid.clone(), invalid.clone()]),
        Err(AggregationError::InvalidProof(1))
    );
    assert_eq!(
        verify_and_aggregate_protogalaxy(vec![invalid.clone(), valid.clone()]),
        Err(AggregationError::InvalidProof(0))
    );
    // Structurally malformed bytes are reported the same way.
    assert_eq!(
        verify_and_aggregate_protogalaxy(vec![valid, b"short".to_vec()]),
        Err(AggregationError::InvalidProof(1))
    );
}

#[test]
fn batch_aggregation_records_count() {
    let proofs: Vec<Vec<u8>> = (0..5u64).map(statement_proof).collect();
    let aggregate = verify_and_aggregate_protogalaxy(proofs).expect("all proofs valid");
    let decoded = decode_aggregate_proof(&aggregate).expect("aggregate decodes");
    assert_eq!(decoded.count, 5);
    assert!(verify_protogalaxy_proof(&aggregate));
}

#[test]
fn aggregation_is_deterministic_and_order_sensitive_in_bytes() {
    let p1 = statement_proof(1);
    let p2 = statement_proof(2);
    let a = verify_and_aggregate_protogalaxy(vec![p1.clone(), p2.clone()]).unwrap();
    let b = verify_and_aggregate_protogalaxy(vec![p1.clone(), p2.clone()]).unwrap();
    assert_eq!(a, b);
    // Reordering may change the bytes but not the validity.
    let c = verify_and_aggregate_protogalaxy(vec![p2, p1]).unwrap();
    assert!(verify_protogalaxy_proof(&c));
}

#[test]
fn aggregate_tamper_detection() {
    let proofs: Vec<Vec<u8>> = (0..3u64).map(statement_proof).collect();
    let aggregate = verify_and_aggregate_protogalaxy(proofs).unwrap();
    assert_eq!(aggregate.len(), 48);
    for i in 0..aggregate.len() {
        for flip in [0x01u8, 0x80u8] {
            let mut mutated = aggregate.clone();
            mutated[i] ^= flip;
            assert!(
                !verify_protogalaxy_proof(&mutated),
                "mutated byte {i} still verified"
            );
        }
    }
}

#[test]
fn aggregate_proof_round_trip() {
    let aggregate = verify_and_aggregate_protogalaxy(vec![statement_proof(9)]).unwrap();
    let decoded = decode_aggregate_proof(&aggregate).expect("aggregate decodes");
    let re_encoded = encode_aggregate_proof(&decoded);
    assert_eq!(re_encoded, aggregate);
    assert!(decode_aggregate_proof(&aggregate[..47].to_vec()).is_none());
}
