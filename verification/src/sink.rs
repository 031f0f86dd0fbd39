//! Write-side orchestration: serializing a destination's batches in order,
//! per-destination byte accounting, and the aggregation of the concurrent
//! writer tasks' results.
//!
//! One writer task per destination pulls its batches in order, serializes
//! each and appends the payload to its own storage object; the appends
//! themselves are I/O and live with the caller. What is verified here is the
//! per-destination payload sequence and byte count, and the join: the sum of
//! every task's bytes when all succeed, and the first failure in task order
//! otherwise — a failed task never disturbs what sibling tasks produced.

use vstd::prelude::*;
use crate::errors::FormatError;
use crate::json_decoder::Batch;
use crate::serialize::{encodable, json_lines_of, JsonSerializer};

verus! {

/// Sum of the payload sizes of one destination, in append order.
pub open spec fn sum_lens(ps: Seq<Vec<u8>>) -> int
    decreases ps.len(),
{
    if ps.len() == 0 {
        0
    } else {
        sum_lens(ps.drop_last()) + ps.last()@.len()
    }
}

/// Serializes one destination's batches, in arrival order: payload `i` is the
/// line-delimited encoding of batch `i`. It succeeds exactly when every batch
/// of the destination is encodable; the first batch that is not fails the
/// destination.
pub fn serialize_destination(batches: &Vec<Batch>) -> (r: Result<
    Vec<Vec<u8>>,
    FormatError,
>)
    ensures
        r is Ok <==> (forall|i: int| 0 <= i < batches@.len() ==> encodable(#[trigger] batches@[i])),
        r matches Ok(ps) ==> ps@.len() == batches@.len() && forall|i: int|
            0 <= i < ps@.len() ==> #[trigger] ps@[i]@ == json_lines_of(batches@[i]),
        r matches Err(e) ==> e == FormatError::EncodingError,
{
    let serializer = JsonSerializer::new();
    let mut out: Vec<Vec<u8>> = Vec::new();
    let mut i: usize = 0;
    while i < batches.len()
        invariant
            i <= batches@.len(),
            out@.len() == i,
            forall|j: int| 0 <= j < i ==> encodable(#[trigger] batches@[j]),
            forall|j: int| 0 <= j < i ==> #[trigger] out@[j]@ == json_lines_of(batches@[j]),
        decreases batches@.len() - i,
    {
        match serializer.serialize(&batches[i], i == 0) {
            Ok(payload) => {
                out.push(payload);
            },
            Err(e) => {
                return Err(e);
            },
        }
        i = i + 1;
    }
    Ok(out)
}

/// Counts the bytes one destination's object holds after its payloads are
/// appended in order.
pub fn destination_bytes(payloads: &Vec<Vec<u8>>) -> (r: u64)
    requires
        sum_lens(payloads@) <= u64::MAX,
    ensures
        r as int == sum_lens(payloads@),
{
    let mut total: u64 = 0;
    let mut i: usize = 0;
    while i < payloads.len()
        invariant
            i <= payloads@.len(),
            total as int == sum_lens(payloads@.take(i as int)),
            sum_lens(payloads@) <= u64::MAX,
        decreases payloads@.len() - i,
    {
        proof {
            assert(payloads@.take(i as int + 1).drop_last() =~= payloads@.take(i as int));
            lemma_sum_lens_prefix(payloads@, i as int + 1);
        }
        total = total + payloads[i].len() as u64;
        i = i + 1;
    }
    proof {
        assert(payloads@.take(payloads@.len() as int) =~= payloads@);
    }
    total
}

/// A prefix of the payloads never outweighs the whole.
pub proof fn lemma_sum_lens_prefix(ps: Seq<Vec<u8>>, j: int)
    requires
        0 <= j <= ps.len(),
    ensures
        sum_lens(ps.take(j)) <= sum_lens(ps),
    decreases ps.len() - j,
{
    if j == ps.len() {
        assert(ps.take(j) =~= ps);
    } else {
        assert(ps.take(j + 1).drop_last() =~= ps.take(j));
        assert(sum_lens(ps.take(j)) <= sum_lens(ps.take(j + 1)));
        lemma_sum_lens_prefix(ps, j + 1);
    }
}

/// The first failure among the tasks' results, in task order.
pub open spec fn first_err(rs: Seq<Result<u64, FormatError>>) -> Option<FormatError>
    decreases rs.len(),
{
    if rs.len() == 0 {
        None
    } else {
        match rs[0] {
            Err(e) => Some(e),
            Ok(_) => first_err(rs.skip(1)),
        }
    }
}

/// The byte counts of the successful tasks, summed; failed tasks count
/// nothing.
pub open spec fn sum_ok(rs: Seq<Result<u64, FormatError>>) -> int
    decreases rs.len(),
{
    if rs.len() == 0 {
        0
    } else {
        sum_ok(rs.drop_last()) + (match rs.last() {
            Ok(n) => n as int,
            Err(_) => 0,
        })
    }
}

/// With every result up to `i` successful and result `i` failed, the first
/// failure is result `i`'s.
proof fn lemma_first_err_at(rs: Seq<Result<u64, FormatError>>, i: int)
    requires
        0 <= i < rs.len(),
        forall|j: int| 0 <= j < i ==> rs[j] is Ok,
        rs[i] is Err,
    ensures
        first_err(rs) == Some(rs[i]->Err_0),
    decreases i,
{
    if i > 0 {
        lemma_first_err_at(rs.skip(1), i - 1);
    }
}

/// With every result successful, there is no first failure.
proof fn lemma_first_err_none(rs: Seq<Result<u64, FormatError>>)
    requires
        forall|j: int| 0 <= j < rs.len() ==> rs[j] is Ok,
    ensures
        first_err(rs) is None,
    decreases rs.len(),
{
    if rs.len() > 0 {
        lemma_first_err_none(rs.skip(1));
    }
}

/// A prefix of the successful byte counts never outweighs the whole sum.
proof fn lemma_sum_ok_prefix(rs: Seq<Result<u64, FormatError>>, j: int)
    requires
        0 <= j <= rs.len(),
    ensures
        sum_ok(rs.take(j)) <= sum_ok(rs),
    decreases rs.len() - j,
{
    if j == rs.len() {
        assert(rs.take(j) =~= rs);
    } else {
        assert(rs.take(j + 1).drop_last() =~= rs.take(j));
        lemma_sum_ok_prefix(rs, j + 1);
    }
}

/// Joins the per-destination writer tasks' results once all have completed:
/// when every task succeeded, the total bytes written across all
/// destinations; otherwise the first failure in task order. Failed tasks'
/// partial byte counts are discarded; the results of sibling tasks are not
/// disturbed — what each destination wrote stands, whatever its siblings did.
pub fn aggregate_write_results(results: &Vec<Result<u64, FormatError>>) -> (r: Result<
    u64,
    FormatError,
>)
    requires
        sum_ok(results@) <= u64::MAX,
    ensures
        r is Ok <==> first_err(results@) is None,
        r matches Ok(total) ==> total as int == sum_ok(results@),
        r matches Err(e) ==> first_err(results@) == Some(e),
{
    let mut total: u64 = 0;
    let mut i: usize = 0;
    while i < results.len()
        invariant
            i <= results@.len(),
            forall|j: int| 0 <= j < i ==> results@[j] is Ok,
            total as int == sum_ok(results@.take(i as int)),
            sum_ok(results@) <= u64::MAX,
        decreases results@.len() - i,
    {
        proof {
            assert(results@.take(i as int + 1).drop_last() =~= results@.take(i as int));
            lemma_sum_ok_prefix(results@, i as int + 1);
        }
        match &results[i] {
            Ok(n) => {
                total = total + *n;
            },
            Err(e) => {
                proof {
                    lemma_first_err_at(results@, i as int);
                }
                return Err(*e);
            },
        }
        i = i + 1;
    }
    proof {
        lemma_first_err_none(results@);
        assert(results@.take(results@.len() as int) =~= results@);
    }
    Ok(total)
}

} // verus!
