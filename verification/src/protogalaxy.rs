//! Batch verification and aggregation of statement proofs.
//!
//! Every proof of the batch is verified independently first;
//! aggregation aborts on the first invalid one with its index and
//! leaves no partial result.  The verified instances are then folded
//! in order into one accumulator, and the aggregate proof carries the
//! batch size, the folded instance and a binding tag.

use crate::backend::{sha256, sha256_of};
use crate::codec::{be_bytes_of_u64, bytes_equal, push_u64_be, read_u64_be};
use crate::field::FIELD_P;
use crate::protostar::{fold_step, fold_step_exec, statement_proof_valid, statement_valid};
use crate::types::{ag_count, ag_folded, ag_tag, aggregate_bytes_of, aggregate_decode_ok,
    decode_aggregate_proof, encode_aggregate_proof, st_instance, AggregateProof, AggregationError};
use vstd::prelude::*;

verus! {

/// The views of a batch of proof byte strings.
pub open spec fn batch_views(ps: Seq<Vec<u8>>) -> Seq<Seq<u8>> {
    ps.map_values(|p: Vec<u8>| p@)
}

/// Every proof of the batch is valid on its own.
pub open spec fn batch_all_valid(ps: Seq<Seq<u8>>) -> bool {
    forall|i: int| 0 <= i < ps.len() ==> statement_valid(#[trigger] ps[i])
}

/// The order-sensitive fold of a batch's instances, starting from the
/// zero accumulator.
pub open spec fn fold_batch(ps: Seq<Seq<u8>>) -> u64
    decreases ps.len(),
{
    if ps.len() == 0 {
        0u64
    } else {
        fold_step(fold_batch(ps.drop_last()), st_instance(ps.last()))
    }
}

/// The binding tag of an aggregate proof: a digest over the count and
/// the folded instance under a fixed domain byte.
pub open spec fn aggregate_tag(count: u64, folded: u64) -> Seq<u8> {
    sha256_of(seq![65u8] + be_bytes_of_u64(count) + be_bytes_of_u64(folded))
}

fn compute_aggregate_tag(count: u64, folded: u64) -> (r: Vec<u8>)
    ensures
        r@ == aggregate_tag(count, folded),
        r@.len() == 32,
{
    let mut t: Vec<u8> = Vec::new();
    t.push(65u8);
    push_u64_be(&mut t, count);
    push_u64_be(&mut t, folded);
    proof {
        assert(t@ =~= seq![65u8] + be_bytes_of_u64(count) + be_bytes_of_u64(folded));
    }
    sha256(&t)
}

/// Structural and semantic validity of encoded aggregate-proof bytes.
pub open spec fn aggregate_valid(b: Seq<u8>) -> bool {
    aggregate_decode_ok(b) && ag_tag(b) == aggregate_tag(ag_count(b), ag_folded(b))
}

/// Verifies each proof of the batch and folds them into one aggregate
/// proof.
///
/// An empty batch fails with `EmptyBatch`; the first structurally or
/// semantically invalid proof fails the whole batch with its index and
/// no partial result; a batch of one is a legal degenerate
/// aggregation.  On success the aggregate records exactly the batch
/// size.
pub fn verify_and_aggregate_protogalaxy(proofs: Vec<Vec<u8>>) -> (r: Result<
    Vec<u8>,
    AggregationError,
>)
    ensures
        r is Ok <==> (proofs@.len() > 0 && batch_all_valid(batch_views(proofs@))),
        proofs@.len() == 0 <==> r == Err::<Vec<u8>, AggregationError>(AggregationError::EmptyBatch),
        r matches Err(AggregationError::InvalidProof(i)) ==> 0 <= i < proofs@.len()
            && !statement_valid(proofs@[i as int]@) && (forall|j: int|
            0 <= j < i ==> statement_valid(#[trigger] proofs@[j]@)),
        r matches Ok(b) ==> ({
            let n = proofs@.len() as u64;
            let folded = fold_batch(batch_views(proofs@));
            &&& b@ == aggregate_bytes_of(n, folded, aggregate_tag(n, folded))
            &&& aggregate_valid(b@)
            &&& ag_count(b@) == n
        }),
{
    let n = proofs.len();
    if n == 0 {
        return Err(AggregationError::EmptyBatch);
    }
    let mut i: usize = 0;
    while i < n
        invariant
            i <= n,
            n == proofs@.len(),
            forall|j: int| 0 <= j < i ==> statement_valid(#[trigger] proofs@[j]@),
        decreases n - i,
    {
        if !statement_proof_valid(&proofs[i]) {
            proof {
                assert(batch_views(proofs@)[i as int] == proofs@[i as int]@);
            }
            return Err(AggregationError::InvalidProof(i));
        }
        i = i + 1;
    }
    proof {
        assert(forall|j: int|
            0 <= j < proofs@.len() ==> batch_views(proofs@)[j] == #[trigger] proofs@[j]@);
    }
    let mut acc: u64 = 0;
    let mut k: usize = 0;
    while k < n
        invariant
            k <= n,
            n == proofs@.len(),
            forall|j: int| 0 <= j < n ==> statement_valid(#[trigger] proofs@[j]@),
            forall|j: int|
                0 <= j < proofs@.len() ==> batch_views(proofs@)[j] == #[trigger] proofs@[j]@,
            acc == fold_batch(batch_views(proofs@).take(k as int)),
            acc < FIELD_P,
        decreases n - k,
    {
        proof {
            assert(statement_valid(proofs@[k as int]@));
        }
        let inst = read_u64_be(&proofs[k], 0);
        acc = fold_step_exec(acc, inst);
        proof {
            let views = batch_views(proofs@);
            let taken = views.take(k as int + 1);
            assert(taken.drop_last() =~= views.take(k as int));
            assert(taken.last() == views[k as int]);
            assert(inst == st_instance(views[k as int]));
        }
        k = k + 1;
    }
    proof {
        assert(batch_views(proofs@).take(n as int) =~= batch_views(proofs@));
    }
    let count: u64 = n as u64;
    let tag = compute_aggregate_tag(count, acc);
    let p = AggregateProof { count, folded: acc, tag };
    let out = encode_aggregate_proof(&p);
    Ok(out)
}

/// Checks an aggregate proof on its own: it decodes, and its tag binds
/// its count and folded instance.  Never fails: malformed bytes are a
/// verification failure.
pub fn verify_protogalaxy_proof(proof: &Vec<u8>) -> (r: bool)
    ensures
        r == aggregate_valid(proof@),
{
    let p = match decode_aggregate_proof(proof) {
        Some(p) => p,
        None => {
            return false;
        },
    };
    let expected = compute_aggregate_tag(p.count, p.folded);
    bytes_equal(&p.tag, &expected)
}

} // verus!
