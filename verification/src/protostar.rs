//! Folding-based statement proofs over a computation trace.
//!
//! A trace is a sequence of arithmetic gates over the field; a
//! session arithmetizes each satisfied trace into an instance scalar
//! and folds it into its running accumulator, emitting a statement
//! proof that binds the instance, the fold count and the accumulator
//! under a transcript tag.  A fold step that meets an unsatisfied
//! trace fails the session terminally.

use crate::backend::{sha256, sha256_of};
use crate::codec::{be_bytes_of_u64, bytes_equal, push_bytes, push_u64_be, read_u64_be,
    u64_of_be_bytes};
use crate::field::{add_mod, mul_mod, FIELD_P};
use crate::types::{decode_statement_proof, encode_statement_proof, st_acc, st_count, st_instance,
    st_tag, statement_bytes_of, statement_decode_ok, CryptoError, StatementProof};
use vstd::prelude::*;

verus! {

/// One arithmetic gate: the claim `c == a op b` over the field.
#[derive(Clone, Copy, Debug, PartialEq, Eq, Structural)]
pub enum GateOp {
    Add,
    Mul,
}

#[derive(Clone, Copy, Debug, PartialEq, Eq, Structural)]
pub struct Gate {
    pub op: GateOp,
    pub a: u64,
    pub b: u64,
    pub c: u64,
}

/// A computation trace: a sequence of gate claims whose values the
/// caller has already brought into the field.
#[derive(Clone, Debug)]
pub struct ComputationTrace {
    pub gates: Vec<Gate>,
}

pub open spec fn gate_wf(g: Gate) -> bool {
    g.a < FIELD_P && g.b < FIELD_P && g.c < FIELD_P
}

/// The constraint one gate claims.
pub open spec fn gate_holds(g: Gate) -> bool {
    match g.op {
        GateOp::Add => g.c as int == (g.a as int + g.b as int) % (FIELD_P as int),
        GateOp::Mul => g.c as int == (g.a as int * g.b as int) % (FIELD_P as int),
    }
}

/// Caller contract: every trace value is already reduced into the
/// field.
pub open spec fn trace_wf(gs: Seq<Gate>) -> bool {
    forall|i: int| 0 <= i < gs.len() ==> gate_wf(#[trigger] gs[i])
}

/// The trace satisfies its constraint system.
pub open spec fn trace_satisfied(gs: Seq<Gate>) -> bool {
    forall|i: int| 0 <= i < gs.len() ==> gate_holds(#[trigger] gs[i])
}

/// Checks every gate of the trace.
pub fn check_trace(trace: &ComputationTrace) -> (r: bool)
    requires
        trace_wf(trace.gates@),
    ensures
        r == trace_satisfied(trace.gates@),
{
    let n = trace.gates.len();
    let mut i: usize = 0;
    while i < n
        invariant
            i <= n,
            n == trace.gates@.len(),
            trace_wf(trace.gates@),
            forall|j: int| 0 <= j < i ==> gate_holds(#[trigger] trace.gates@[j]),
        decreases n - i,
    {
        let g = trace.gates[i];
        let expected = match g.op {
            GateOp::Add => add_mod(g.a, g.b),
            GateOp::Mul => mul_mod(g.a, g.b),
        };
        if g.c != expected {
            assert(!gate_holds(trace.gates@[i as int]));
            return false;
        }
        i = i + 1;
    }
    true
}

/// The byte serialization of one gate: an opcode byte and the three
/// values.
pub open spec fn gate_bytes(g: Gate) -> Seq<u8> {
    seq![
        match g.op {
            GateOp::Add => 0u8,
            GateOp::Mul => 1u8,
        },
    ] + be_bytes_of_u64(g.a) + be_bytes_of_u64(g.b) + be_bytes_of_u64(g.c)
}

/// The byte serialization of a trace, gate after gate.
pub open spec fn trace_bytes(gs: Seq<Gate>) -> Seq<u8>
    decreases gs.len(),
{
    if gs.len() == 0 {
        Seq::<u8>::empty()
    } else {
        trace_bytes(gs.drop_last()) + gate_bytes(gs.last())
    }
}

fn encode_trace(trace: &ComputationTrace) -> (r: Vec<u8>)
    ensures
        r@ == trace_bytes(trace.gates@),
{
    let n = trace.gates.len();
    let mut out: Vec<u8> = Vec::new();
    let mut i: usize = 0;
    while i < n
        invariant
            i <= n,
            n == trace.gates@.len(),
            out@ == trace_bytes(trace.gates@.take(i as int)),
        decreases n - i,
    {
        let g = trace.gates[i];
        let op_byte: u8 = match g.op {
            GateOp::Add => 0u8,
            GateOp::Mul => 1u8,
        };
        out.push(op_byte);
        push_u64_be(&mut out, g.a);
        push_u64_be(&mut out, g.b);
        push_u64_be(&mut out, g.c);
        proof {
            let taken = trace.gates@.take(i as int + 1);
            assert(taken.drop_last() =~= trace.gates@.take(i as int));
            assert(taken.last() == trace.gates@[i as int]);
            assert(out@ =~= trace_bytes(trace.gates@.take(i as int)) + gate_bytes(
                trace.gates@[i as int],
            ));
        }
        i = i + 1;
    }
    proof {
        assert(trace.gates@.take(n as int) =~= trace.gates@);
    }
    out
}

/// A digest folded into the field: the leading eight bytes reduced
/// modulo the field prime.
pub open spec fn digest_scalar(d: Seq<u8>) -> u64
    recommends
        d.len() >= 8,
{
    (u64_of_be_bytes(d.subrange(0, 8)) as int % (FIELD_P as int)) as u64
}

fn digest_scalar_exec(d: &Vec<u8>) -> (r: u64)
    requires
        d@.len() >= 8,
    ensures
        r == digest_scalar(d@),
        r < FIELD_P,
{
    let v = read_u64_be(d, 0);
    v % FIELD_P
}

/// The instance scalar a trace arithmetizes to: a collision-resistant
/// digest of its serialization, reduced into the field.
pub open spec fn instance_scalar(gs: Seq<Gate>) -> u64 {
    digest_scalar(sha256_of(seq![73u8] + trace_bytes(gs)))
}

/// The public instance of a trace, as a verifier expects it.
pub fn trace_instance(trace: &ComputationTrace) -> (r: u64)
    ensures
        r == instance_scalar(trace.gates@),
        r < FIELD_P,
{
    let mut t: Vec<u8> = Vec::new();
    t.push(73u8);
    let body = encode_trace(trace);
    push_bytes(&mut t, &body);
    proof {
        assert(t@ =~= seq![73u8] + trace_bytes(trace.gates@));
    }
    let d = sha256(&t);
    digest_scalar_exec(&d)
}

/// The Fiat-Shamir scalar of one fold step, derived from the prior
/// accumulator and the incoming instance.
pub open spec fn fold_scalar(acc: u64, inst: u64) -> u64 {
    digest_scalar(sha256_of(seq![70u8] + be_bytes_of_u64(acc) + be_bytes_of_u64(inst)))
}

/// One fold: `(acc + rho * inst) % p` with `rho` the fold scalar.
pub open spec fn fold_step(acc: u64, inst: u64) -> u64 {
    ((acc as int + (fold_scalar(acc, inst) as int * inst as int) % (FIELD_P as int)) % (
    FIELD_P as int)) as u64
}

pub(crate) fn fold_step_exec(acc: u64, inst: u64) -> (r: u64)
    requires
        acc < FIELD_P,
    ensures
        r == fold_step(acc, inst),
        r < FIELD_P,
{
    let mut t: Vec<u8> = Vec::new();
    t.push(70u8);
    push_u64_be(&mut t, acc);
    push_u64_be(&mut t, inst);
    proof {
        assert(t@ =~= seq![70u8] + be_bytes_of_u64(acc) + be_bytes_of_u64(inst));
    }
    let d = sha256(&t);
    let rho = digest_scalar_exec(&d);
    let prod = mul_mod(rho, inst);
    add_mod(acc, prod)
}

/// The binding tag of a statement proof: a digest over its three
/// fields under a fixed domain byte.
pub open spec fn statement_tag(instance: u64, count: u64, acc: u64) -> Seq<u8> {
    sha256_of(
        seq![84u8] + be_bytes_of_u64(instance) + be_bytes_of_u64(count) + be_bytes_of_u64(acc),
    )
}

fn compute_statement_tag(instance: u64, count: u64, acc: u64) -> (r: Vec<u8>)
    ensures
        r@ == statement_tag(instance, count, acc),
        r@.len() == 32,
{
    let mut t: Vec<u8> = Vec::new();
    t.push(84u8);
    push_u64_be(&mut t, instance);
    push_u64_be(&mut t, count);
    push_u64_be(&mut t, acc);
    proof {
        assert(t@ =~= seq![84u8] + be_bytes_of_u64(instance) + be_bytes_of_u64(count)
            + be_bytes_of_u64(acc));
    }
    sha256(&t)
}

/// Structural and semantic validity of encoded statement-proof bytes:
/// they decode, and their tag is the binding tag of their fields.
pub open spec fn statement_valid(b: Seq<u8>) -> bool {
    statement_decode_ok(b) && st_tag(b) == statement_tag(st_instance(b), st_count(b), st_acc(b))
}

/// What statement verification returns: validity of the bytes plus the
/// binding check against the expected public instance.
pub open spec fn statement_verify_spec(b: Seq<u8>, public_instance: u64) -> bool {
    statement_valid(b) && st_instance(b) == public_instance
}

/// Checks the validity of statement-proof bytes on their own: they
/// decode, and the tag binds the decoded fields.
pub fn statement_proof_valid(proof: &Vec<u8>) -> (r: bool)
    ensures
        r == statement_valid(proof@),
{
    let p = match decode_statement_proof(proof) {
        Some(p) => p,
        None => {
            return false;
        },
    };
    let expected = compute_statement_tag(p.instance, p.count, p.acc);
    bytes_equal(&p.tag, &expected)
}

/// Checks a statement proof against the public instance it must commit
/// to.  Never fails: malformed bytes are a verification failure.
pub fn verify_protostar_proof(proof: &Vec<u8>, public_instance: u64) -> (r: bool)
    ensures
        r == statement_verify_spec(proof@, public_instance),
{
    let p = match decode_statement_proof(proof) {
        Some(p) => p,
        None => {
            return false;
        },
    };
    if p.instance != public_instance {
        return false;
    }
    let expected = compute_statement_tag(p.instance, p.count, p.acc);
    bytes_equal(&p.tag, &expected)
}

/// The per-session folding accumulator: empty, folded `count` times,
/// or terminally failed.
#[derive(Clone, Copy, Debug, PartialEq, Eq, Structural)]
pub enum SessionState {
    Empty,
    Folded { count: u64, acc: u64 },
    Failed,
}

/// The count a state carries; an empty session has folded nothing.
pub open spec fn session_count(s: SessionState) -> u64 {
    match s {
        SessionState::Folded { count, .. } => count,
        _ => 0,
    }
}

/// The accumulator a state carries; an empty session starts at zero.
pub open spec fn session_acc(s: SessionState) -> u64 {
    match s {
        SessionState::Folded { acc, .. } => acc,
        _ => 0,
    }
}

/// A caller-owned proving session.  One session serves one logical
/// thread of execution; it must be discarded once failed.
#[derive(Clone, Copy, Debug, PartialEq, Eq, Structural)]
pub struct FoldingSession {
    pub state: SessionState,
}

impl FoldingSession {
    pub open spec fn wf(self) -> bool {
        match self.state {
            SessionState::Folded { count, acc } => 1 <= count && acc < FIELD_P,
            _ => true,
        }
    }

    /// A fresh session with an empty accumulator.
    pub fn new() -> (r: FoldingSession)
        ensures
            r.state == SessionState::Empty,
            r.wf(),
    {
        FoldingSession { state: SessionState::Empty }
    }
}

/// Arithmetizes the trace, folds it into the session accumulator and
/// emits the statement proof of the folded instance.
///
/// A failed session stays failed and proves nothing further; an
/// unsatisfied trace fails the session terminally.  On success the
/// session advances by one fold and the emitted bytes verify against
/// the trace's own instance.
pub fn generate_protostar_proof(session: &mut FoldingSession, trace: &ComputationTrace) -> (r:
    Result<Vec<u8>, CryptoError>)
    requires
        old(session).wf(),
        trace_wf(trace.gates@),
        session_count(old(session).state) < u64::MAX,
    ensures
        final(session).wf(),
        old(session).state is Failed ==> r == Err::<Vec<u8>, CryptoError>(
            CryptoError::VerificationFailed,
        ) && final(session).state == old(session).state,
        !(old(session).state is Failed) && !trace_satisfied(trace.gates@) ==> r == Err::<
            Vec<u8>,
            CryptoError,
        >(CryptoError::VerificationFailed) && final(session).state is Failed,
        !(old(session).state is Failed) && trace_satisfied(trace.gates@) ==> ({
            let inst = instance_scalar(trace.gates@);
            let count1 = (session_count(old(session).state) + 1) as u64;
            let acc1 = fold_step(session_acc(old(session).state), inst);
            &&& r is Ok
            &&& final(session).state == (SessionState::Folded { count: count1, acc: acc1 })
            &&& (r matches Ok(pb) ==> pb@ == statement_bytes_of(
                inst,
                count1,
                acc1,
                statement_tag(inst, count1, acc1),
            ) && statement_verify_spec(pb@, inst))
        }),
{
    match session.state {
        SessionState::Failed => Err(CryptoError::VerificationFailed),
        _ => {
            if !check_trace(trace) {
                session.state = SessionState::Failed;
                return Err(CryptoError::VerificationFailed);
            }
            let inst = trace_instance(trace);
            let (count0, acc0) = match session.state {
                SessionState::Folded { count, acc } => (count, acc),
                _ => (0u64, 0u64),
            };
            let acc1 = fold_step_exec(acc0, inst);
            let count1 = count0 + 1;
            session.state = SessionState::Folded { count: count1, acc: acc1 };
            let tag = compute_statement_tag(inst, count1, acc1);
            let p = StatementProof { instance: inst, count: count1, acc: acc1, tag };
            Ok(encode_statement_proof(&p))
        },
    }
}

/// Law (tamper detection, tag bytes): changing the tag of a valid
/// statement proof while its payload stands makes verification fail.
pub proof fn lemma_statement_tag_tamper(b1: Seq<u8>, b2: Seq<u8>)
    requires
        statement_valid(b1),
        b2.len() == b1.len(),
        b2.subrange(0, 24) == b1.subrange(0, 24),
        b2.subrange(24, 56) != b1.subrange(24, 56),
    ensures
        !statement_valid(b2),
{
    assert forall|j: int| 0 <= j < 24 implies b2[j] == b1[j] by {
        assert(b2.subrange(0, 24)[j] == b2[j]);
        assert(b1.subrange(0, 24)[j] == b1[j]);
        assert(b2.subrange(0, 24)[j] == b1.subrange(0, 24)[j]);
    }
    assert(b2.subrange(0, 8) =~= b1.subrange(0, 8));
    assert(b2.subrange(8, 16) =~= b1.subrange(8, 16));
    assert(b2.subrange(16, 24) =~= b1.subrange(16, 24));
}

/// Law: statement verification is a pure function of its inputs: two
/// runs on the same proof bytes and instance return the same boolean.
pub proof fn lemma_statement_verify_idempotent(r1: bool, r2: bool, b: Seq<u8>, inst: u64)
    requires
        r1 == statement_verify_spec(b, inst),
        r2 == statement_verify_spec(b, inst),
    ensures
        r1 == r2,
{
}

} // verus!
