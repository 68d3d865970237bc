//! The ground-truth converter.
//!
//! A ground-truth file is `[u32 num_queries][u32 k]` followed by a flat run
//! of `num_queries * k` little-endian `u32` neighbor indices and then a flat
//! run of `num_queries * k` little-endian 32-bit float distances (carried
//! here as their bit patterns).  [`read_ground_file`] reads both runs in one
//! bulk read each and reshapes them into one row of `k` values per query.

use crate::elem::{decode_scalar_at, le_value, lemma_le_value_bound, lemma_pow256_values};
use crate::errors::ConvertError;
use crate::vectors::{decode_row_at, row_at};
use vstd::arithmetic::mul::{
    lemma_mul_inequality, lemma_mul_is_distributive_add_other_way, lemma_mul_upper_bound,
};
use vstd::prelude::*;

verus! {

/// The query count a ground-truth file header declares.
pub open spec fn ground_queries(data: Seq<u8>) -> nat {
    le_value(data.subrange(0, 4))
}

/// The neighbors-per-query count a ground-truth file header declares.
pub open spec fn ground_k(data: Seq<u8>) -> nat {
    le_value(data.subrange(4, 8))
}

/// A ground-truth file is well formed when both declared runs are fully
/// present: the header, `Q * k` neighbor indices of four bytes each, and
/// `Q * k` distances of four bytes each.  Trailing bytes beyond the two runs
/// are never read and do not make the file ill-formed.
pub open spec fn ground_file_ok(data: Seq<u8>) -> bool {
    data.len() >= 8 + 8 * (ground_queries(data) * ground_k(data))
}

/// The flat run of neighbor indices, decoded in file order.
pub open spec fn neighbors_flat(data: Seq<u8>) -> Seq<u64> {
    row_at(data, 4, ground_queries(data) * ground_k(data), 8)
}

/// The flat run of distances (as 32-bit patterns), decoded in file order.
pub open spec fn distances_flat(data: Seq<u8>) -> Seq<u64> {
    row_at(
        data,
        4,
        ground_queries(data) * ground_k(data),
        8 + 4 * (ground_queries(data) * ground_k(data)) as int,
    )
}

/// `flat` cut into `q` rows of `k` values: row `i` holds elements
/// `[i * k, (i + 1) * k)` of `flat`.
pub open spec fn reshaped(flat: Seq<u64>, q: nat, k: nat) -> Seq<Seq<u64>>
    recommends
        flat.len() == q * k,
{
    Seq::new(q, |i: int| flat.subrange(i * k, i * k + k))
}

/// Reshaping aligns positionally: for every query `i` and position `j`, row
/// `i` of a reshaped run holds element `i * k + j` of the flat run.  Applied
/// to the neighbor run and the distance run of one file, row `i` of the
/// reshaped neighbors and row `i` of the reshaped distances therefore both
/// correspond to query `i`.
pub proof fn lemma_reshape_aligns(flat: Seq<u64>, q: nat, k: nat)
    requires
        flat.len() == q * k,
    ensures
        reshaped(flat, q, k).len() == q,
        forall|i: int| 0 <= i < q ==> (#[trigger] reshaped(flat, q, k)[i]).len() == k,
        forall|i: int, j: int|
            0 <= i < q && 0 <= j < k ==> reshaped(flat, q, k)[i][j] == flat[i * k + j],
{
    assert forall|i: int| 0 <= i < q implies (#[trigger] reshaped(flat, q, k)[i]).len()
        == k by {
        lemma_mul_inequality(i + 1, q as int, k as int);
        lemma_mul_is_distributive_add_other_way(k as int, i, 1);
    }
    assert forall|i: int, j: int| 0 <= i < q && 0 <= j < k implies reshaped(flat, q, k)[i][j]
        == flat[i * k + j] by {
        lemma_mul_inequality(i + 1, q as int, k as int);
        lemma_mul_is_distributive_add_other_way(k as int, i, 1);
    }
}

/// Cuts `flat` into `q` rows of `k` values each, in order.
#[verifier::loop_isolation(false)]
pub fn reshape(flat: &Vec<u64>, q: usize, k: usize) -> (r: Vec<Vec<u64>>)
    requires
        flat.len() == q * k,
    ensures
        r.deep_view() == reshaped(flat@, q as nat, k as nat),
{
    let mut rows: Vec<Vec<u64>> = Vec::new();
    let mut i: usize = 0;
    while i < q
        invariant
            i <= q,
            rows@.len() == i,
            forall|ii: int|
                0 <= ii < i ==> (#[trigger] rows@[ii])@ == flat@.subrange(
                    ii * k,
                    ii * k + k,
                ),
        decreases q - i,
    {
        proof {
            lemma_mul_inequality(i + 1, q as int, k as int);
            lemma_mul_is_distributive_add_other_way(k as int, i as int, 1);
        }
        let mut row: Vec<u64> = Vec::new();
        let mut j: usize = 0;
        while j < k
            invariant
                i < q,
                j <= k,
                row@.len() == j,
                forall|jj: int| 0 <= jj < j ==> row@[jj] == flat@[i * k + jj],
            decreases k - j,
        {
            row.push(flat[i * k + j]);
            j = j + 1;
        }
        proof {
            assert(row@ =~= flat@.subrange(i * k, i * k + k));
        }
        rows.push(row);
        i = i + 1;
    }
    proof {
        assert forall|ii: int| 0 <= ii < q implies rows.deep_view()[ii] == reshaped(
            flat@,
            q as nat,
            k as nat,
        )[ii] by {
            assert(rows@[ii].deep_view() =~= rows@[ii]@);
        }
        assert(rows.deep_view() =~= reshaped(flat@, q as nat, k as nat));
    }
    rows
}

/// A ground-truth file decoded and reshaped.
#[derive(Debug, PartialEq, Eq)]
pub struct GroundTruth {
    /// Queries in the file, from the header.
    pub num_queries: usize,
    /// Neighbors per query, from the header.
    pub k: usize,
    /// One row of `k` neighbor indices per query, in query order.
    pub neighbor_rows: Vec<Vec<u64>>,
    /// One row of `k` distance bit patterns per query, in query order; row
    /// `i` aligns positionally with row `i` of `neighbor_rows`.
    pub distance_rows: Vec<Vec<u64>>,
}

/// Converts one ground-truth file held in `data`: reads the header, bulk
/// reads the neighbor-index run and then the distance run, and reshapes each
/// into one row per query.  Succeeds exactly when both runs are fully
/// present; a file that ends inside either run fails with a truncation
/// error.
#[verifier::loop_isolation(false)]
pub fn read_ground_file(data: &Vec<u8>) -> (r: Result<GroundTruth, ConvertError>)
    ensures
        match r {
            Ok(g) => {
                &&& ground_file_ok(data@)
                &&& g.num_queries == ground_queries(data@)
                &&& g.k == ground_k(data@)
                &&& g.neighbor_rows.deep_view() == reshaped(
                    neighbors_flat(data@),
                    ground_queries(data@),
                    ground_k(data@),
                )
                &&& g.distance_rows.deep_view() == reshaped(
                    distances_flat(data@),
                    ground_queries(data@),
                    ground_k(data@),
                )
            },
            Err(e) => {
                &&& !ground_file_ok(data@)
                &&& e == ConvertError::TruncatedRead
            },
        },
{
    if data.len() < 8 {
        return Err(ConvertError::TruncatedRead);
    }
    let q64 = decode_scalar_at(data, 0, 4);
    let k64 = decode_scalar_at(data, 4, 4);
    proof {
        assert(data@.subrange(0int, 0int + 4) =~= data@.subrange(0, 4));
        assert(data@.subrange(4int, 4int + 4) =~= data@.subrange(4, 8));
        lemma_le_value_bound(data@.subrange(0, 4));
        lemma_le_value_bound(data@.subrange(4, 8));
        lemma_pow256_values();
        lemma_mul_upper_bound(q64 as int, 0xffff_ffff, k64 as int, 0xffff_ffff);
    }
    let qk64: u64 = q64 * k64;
    let need128: u128 = 8 + 8 * (qk64 as u128);
    if (data.len() as u128) < need128 {
        return Err(ConvertError::TruncatedRead);
    }
    let qk: usize = qk64 as usize;
    let neighbors_run = decode_row_at(data, 8, qk, 4);
    let distances_run = decode_row_at(data, 8 + 4 * qk, qk, 4);
    if neighbors_run.len() != distances_run.len() {
        return Err(ConvertError::ShapeMismatch {
            neighbors: neighbors_run.len(),
            distances: distances_run.len(),
        });
    }
    let q = q64 as usize;
    let k = k64 as usize;
    let neighbor_rows = reshape(&neighbors_run, q, k);
    let distance_rows = reshape(&distances_run, q, k);
    Ok(GroundTruth { num_queries: q, k, neighbor_rows, distance_rows })
}

} // verus!
