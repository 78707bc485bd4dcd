use zkp_toolkit::field::FIELD_P;
use zkp_toolkit::protostar::{
    generate_protostar_proof, statement_proof_valid, trace_instance, verify_protostar_proof,
    ComputationTrace, FoldingSession, Gate, GateOp,
};
use zkp_toolkit::types::{decode_statement_proof, encode_statement_proof, CryptoError};

fn good_trace() -> ComputationTrace {
    ComputationTrace {
        gates: vec![
            Gate { op: GateOp::Add, a: 1, b: 2, c: 3 },
            Gate { op: GateOp::Mul, a: 4, b: 5, c: 20 },
            Gate { op: GateOp::Add, a: FIELD_P - 1, b: 1, c: 0 },
            Gate { op: GateOp::Mul, a: FIELD_P - 1, b: 2, c: FIELD_P - 2 },
        ],
    }
}

fn bad_trace() -> ComputationTrace {
    ComputationTrace {
        gates: vec![Gate { op: GateOp::Add, a: 1, b: 2, c: 4 }],
    }
}

#[test]
fn statement_proof_completeness() {
    let mut session = FoldingSession::new();
    let trace = good_trace();
    let proof = generate_protostar_proof(&mut session, &trace).expect("satisfied trace proves");
    let instance = trace_instance(&trace);
    assert!(verify_protostar_proof(&proof, instance));
    assert!(statement_proof_valid(&proof));
}

#[test]
fn statement_proof_binds_instance() {
    let mut session = FoldingSession::new();
    let trace = good_trace();
    let proof = generate_protostar_proof(&mut session, &trace).expect("satisfied trace proves");
    let other_instance = trace_instance(&bad_trace());
    assert_ne!(trace_instance(&trace), other_instance);
    assert!(!verify_protostar_proof(&proof, other_instance));
}

#[test]
fn distinct_traces_have_distinct_instances() {
    let t1 = good_trace();
    let t2 = ComputationTrace {
        gates: vec![Gate { op: GateOp::Add, a: 1, b: 2, c: 3 }],
    };
    let t3 = ComputationTrace {
        gates: vec![Gate { op: GateOp::Mul, a: 1, b: 2, c: 2 }],
    };
    let empty = ComputationTrace { gates: Vec::new() };
    let instances = [
        trace_instance(&t1),
        trace_instance(&t2),
        trace_instance(&t3),
        trace_instance(&empty),
    ];
    for i in 0..instances.len() {
        for j in 0..i {
            assert_ne!(instances[i], instances[j]);
        }
    }
}

#[test]
fn session_counts_folds() {
    let mut session = FoldingSession::new();
    let trace = good_trace();
    let p1 = generate_protostar_proof(&mut session, &trace).unwrap();
    let p2 = generate_protostar_proof(&mut session, &trace).unwrap();
    let d1 = decode_statement_proof(&p1).unwrap();
    let d2 = decode_statement_proof(&p2).unwrap();
    assert_eq!(d1.count, 1);
    assert_eq!(d2.count, 2);
    // The same instance folded at different accumulator states yields
    // different accumulators.
    assert_eq!(d1.instance, d2.instance);
    assert_ne!(p1, p2);
}

#[test]
fn failed_session_is_terminal() {
    let mut session = FoldingSession::new();
    assert_eq!(
        generate_protostar_proof(&mut session, &bad_trace()),
        Err(CryptoError::VerificationFailed)
    );
    // Once failed, the session refuses even a satisfied trace.
    assert_eq!(
        generate_protostar_proof(&mut session, &good_trace()),
        Err(CryptoError::VerificationFailed)
    );
}

#[test]
fn statement_proof_tamper_detection() {
    let mut session = FoldingSession::new();
    let trace = good_trace();
    let proof = generate_protostar_proof(&mut session, &trace).unwrap();
    let instance = trace_instance(&trace);
    assert_eq!(proof.len(), 56);
    for i in 0..proof.len() {
        for flip in [0x01u8, 0x80u8] {
            let mut mutated = proof.clone();
            mutated[i] ^= flip;
            assert!(
                !verify_protostar_proof(&mutated, instance),
                "mutated byte {i} still verified"
            );
        }
    }
}

#[test]
fn statement_verify_is_idempotent() {
    let mut session = FoldingSession::new();
    let trace = good_trace();
    let proof = generate_protostar_proof(&mut session, &trace).unwrap();
    let instance = trace_instance(&trace);
    assert_eq!(
        verify_protostar_proof(&proof, instance),
        verify_protostar_proof(&proof, instance)
    );
    let mut mutated = proof.clone();
    mutated[0] ^= 1;
    assert_eq!(
        verify_protostar_proof(&mutated, instance),
        verify_protostar_proof(&mutated, instance)
    );
}

#[test]
fn statement_proof_round_trip() {
    let mut session = FoldingSession::new();
    let trace = good_trace();
    let proof = generate_protostar_proof(&mut session, &trace).unwrap();
    let decoded = decode_statement_proof(&proof).expect("emitted proof decodes");
    let re_encoded = encode_statement_proof(&decoded);
    assert_eq!(re_encoded, proof);
    // Truncated or oversized bytes are rejected.
    assert!(decode_statement_proof(&proof[..55].to_vec()).is_none());
    let mut long = proof.clone();
    long.push(0);
    assert!(decode_statement_proof(&long).is_none());
}
