//! The binary row reader and the vector batch converter.
//!
//! A vector file is `[u32 cardinality][u32 dimensionality]` followed by
//! `cardinality` records of `dimensionality` scalars each, all little-endian.
//! [`read_vector_file`] decodes the whole file, validates the declared record
//! count against the bytes actually present, and cuts the records into
//! batches of at most a caller-chosen size.

use crate::elem::{
    decode_scalar_at, le_value, lemma_le_value_bound, lemma_pow256_mono, lemma_pow256_values,
    ElemType,
};
use crate::errors::ConvertError;
use vstd::arithmetic::div_mod::{
    lemma_basic_div, lemma_fundamental_div_mod, lemma_fundamental_div_mod_converse_div,
    lemma_fundamental_div_mod_converse_mod, lemma_hoist_over_denominator,
};
use vstd::arithmetic::mul::{
    lemma_mul_inequality, lemma_mul_is_distributive_add_other_way,
    lemma_mul_is_distributive_sub_other_way,
};
use vstd::prelude::*;

verus! {

/// The scalar of width `w` whose little-endian bytes sit at `off` in `data`.
pub open spec fn scalar_at(data: Seq<u8>, w: nat, off: int) -> u64 {
    le_value(data.subrange(off, off + w)) as u64
}

/// The record of `dim` scalars of width `w` that starts at `off` in `data`.
pub open spec fn row_at(data: Seq<u8>, w: nat, dim: nat, off: int) -> Seq<u64> {
    Seq::new(dim, |j: int| scalar_at(data, w, off + j * w))
}

/// The first `n` records that follow the 8-byte header of `data`, each `dim`
/// scalars of width `w`, in file order.
pub open spec fn records_of(data: Seq<u8>, w: nat, dim: nat, n: nat) -> Seq<Seq<u64>> {
    Seq::new(n, |i: int| row_at(data, w, dim, 8 + i * ((dim * w) as int)))
}

/// The record count a vector file header declares.
pub open spec fn header_cardinality(data: Seq<u8>) -> nat {
    le_value(data.subrange(0, 4))
}

/// The dimensionality a vector file header declares.
pub open spec fn header_dimensionality(data: Seq<u8>) -> nat {
    le_value(data.subrange(4, 8))
}

/// How many batches a partition of `n` records into batches of at most `b`
/// produces: `n / b`, rounded up.
pub open spec fn num_batches(n: nat, b: nat) -> nat
    recommends
        b >= 1,
{
    ((n + b - 1) as nat) / b
}

/// Batch `j` of `rows` under batch size `b`: records `j * b` up to
/// `(j + 1) * b` exclusive, cut short at the end of `rows`.
pub open spec fn batch_of(rows: Seq<Seq<u64>>, b: nat, j: int) -> Seq<Seq<u64>> {
    rows.subrange(
        j * b,
        if (j + 1) * b <= rows.len() {
            (j + 1) * b
        } else {
            rows.len() as int
        },
    )
}

/// All batches of `rows` under batch size `b`, in batch-index order.
pub open spec fn batches_of(rows: Seq<Seq<u64>>, b: nat) -> Seq<Seq<Seq<u64>>> {
    Seq::new(num_batches(rows.len(), b), |j: int| batch_of(rows, b, j))
}

/// The total number of records across a sequence of batches.
pub open spec fn sum_lens(batches: Seq<Seq<Seq<u64>>>) -> nat
    decreases batches.len(),
{
    if batches.len() == 0 {
        0
    } else {
        batches[0].len() + sum_lens(batches.drop_first())
    }
}

/// Every batch index addresses records that exist: batch `j` starts strictly
/// inside `rows`.
pub proof fn lemma_batch_start_in_range(n: nat, b: nat, j: int)
    requires
        b >= 1,
        0 <= j < num_batches(n, b),
    ensures
        j * b < n,
{
    let nb = num_batches(n, b);
    lemma_hoist_over_denominator((n - 1) as int, 1, b);
    assert(nb - 1 == (n - 1) as int / b as int);
    lemma_fundamental_div_mod((n - 1) as int, b as int);
    assert(0 <= (n - 1) as int % b as int) by {
        vstd::arithmetic::div_mod::lemma_mod_division_less_than_divisor(
            (n - 1) as int,
            b as int,
        );
    }
    assert(b * (nb - 1) <= n - 1);
    lemma_mul_inequality(j, nb - 1, b as int);
    vstd::arithmetic::mul::lemma_mul_is_commutative(b as int, nb - 1);
}

/// Batching partitions the records, whatever the batch size: concatenating
/// the batches in batch-index order reproduces the records exactly, the batch
/// lengths sum to the record count, and every batch is nonempty and at most
/// `b` long.  In particular this holds for `b == 1` and for `b >= rows.len()`.
pub proof fn lemma_batches_cover(rows: Seq<Seq<u64>>, b: nat)
    requires
        b >= 1,
    ensures
        batches_of(rows, b).flatten() == rows,
        sum_lens(batches_of(rows, b)) == rows.len(),
        forall|j: int|
            0 <= j < batches_of(rows, b).len() ==> 1 <= (
            #[trigger] batches_of(rows, b)[j]).len() <= b,
    decreases rows.len(),
{
    let n = rows.len();
    let bs = batches_of(rows, b);
    if n == 0 {
        assert(bs.len() == 0) by {
            lemma_basic_div((b - 1) as int, b as int);
        }
        assert(bs =~= Seq::<Seq<Seq<u64>>>::empty());
        assert(bs.flatten() =~= rows);
        assert(sum_lens(bs) == 0);
    } else if n <= b {
        assert(bs.len() == 1) by {
            lemma_fundamental_div_mod_converse_div(
                (n + b - 1) as int,
                b as int,
                1,
                (n - 1) as int,
            );
        }
        assert(batch_of(rows, b, 0) =~= rows);
        bs.lemma_flatten_one_element();
        assert(bs.drop_first() =~= Seq::<Seq<Seq<u64>>>::empty());
        assert(sum_lens(bs) == bs[0].len() + sum_lens(bs.drop_first()));
        assert(sum_lens(bs.drop_first()) == 0);
    } else {
        let rest = rows.skip(b as int);
        lemma_batches_cover(rest, b);
        let bs_rest = batches_of(rest, b);
        assert(bs.len() == 1 + bs_rest.len()) by {
            lemma_hoist_over_denominator((n - 1) as int, 1, b);
        }
        assert forall|j: int| 1 <= j < bs.len() implies bs[j] == bs_rest[j - 1] by {
            lemma_batch_start_in_range(n, b, j);
            lemma_batch_start_in_range(rest.len(), b, j - 1);
            lemma_mul_is_distributive_sub_other_way(b as int, j, 1);
            lemma_mul_is_distributive_add_other_way(b as int, j, 1);
            assert(batch_of(rows, b, j) =~= batch_of(rest, b, j - 1));
        }
        assert(bs =~= seq![batch_of(rows, b, 0)] + bs_rest);
        assert(batch_of(rows, b, 0) =~= rows.take(b as int));
        assert(bs.first() == batch_of(rows, b, 0));
        assert(bs.drop_first() =~= bs_rest);
        assert(bs.flatten() == bs.first() + bs.drop_first().flatten());
        assert(bs.flatten() =~= rows);
        assert(sum_lens(bs) == bs[0].len() + sum_lens(bs.drop_first()));
        assert(sum_lens(bs) == rows.len());
        assert forall|j: int| 0 <= j < bs.len() implies 1 <= (#[trigger] bs[j]).len() <= b by {
            if j >= 1 {
                assert(bs[j] == bs_rest[j - 1]);
            }
        }
    }
}

/// The batches of a vector file cover its records exactly, whatever the
/// batch size: concatenating the batches that [`read_vector_file`] hands out
/// in batch-index order reproduces the file's decoded records, and the batch
/// lengths sum to the declared cardinality.  Batch sizes of one and of the
/// whole cardinality are instances.
pub proof fn lemma_vector_batches_cover(data: Seq<u8>, elem: ElemType, b: nat)
    requires
        b >= 1,
    ensures
        batches_of(
            records_of(
                data,
                elem.width_spec(),
                header_dimensionality(data),
                header_cardinality(data),
            ),
            b,
        ).flatten() == records_of(
            data,
            elem.width_spec(),
            header_dimensionality(data),
            header_cardinality(data),
        ),
        sum_lens(
            batches_of(
                records_of(
                    data,
                    elem.width_spec(),
                    header_dimensionality(data),
                    header_cardinality(data),
                ),
                b,
            ),
        ) == header_cardinality(data),
{
    lemma_batches_cover(
        records_of(
            data,
            elem.width_spec(),
            header_dimensionality(data),
            header_cardinality(data),
        ),
        b,
    );
}

/// Decodes the record of `dim` scalars of width `width` that starts at byte
/// `off`: the binary row reader.  Reading never seeks; a record is exactly
/// `dim * width` consecutive bytes.
pub fn decode_row_at(data: &Vec<u8>, off: usize, dim: usize, width: usize) -> (r: Vec<u64>)
    requires
        1 <= width <= 8,
        off + dim * width <= data.len(),
    ensures
        r@ == row_at(data@, width as nat, dim as nat, off as int),
{
    let mut r: Vec<u64> = Vec::new();
    let mut j: usize = 0;
    while j < dim
        invariant
            j <= dim,
            1 <= width <= 8,
            off + dim * width <= data.len(),
            r@.len() == j,
            forall|k: int|
                0 <= k < j ==> r@[k] == scalar_at(data@, width as nat, off + k * width),
        decreases dim - j,
    {
        proof {
            lemma_mul_inequality(j + 1, dim as int, width as int);
            lemma_mul_is_distributive_add_other_way(width as int, j as int, 1);
            lemma_le_value_bound(data@.subrange(off + j * width, off + j * width + width));
            lemma_pow256_mono(width as nat, 8);
            lemma_pow256_values();
        }
        let s = decode_scalar_at(data, off + j * width, width);
        r.push(s);
        j = j + 1;
    }
    proof {
        assert(r@ =~= row_at(data@, width as nat, dim as nat, off as int));
    }
    r
}

/// A vector file decoded and cut into batches.
#[derive(Debug, PartialEq, Eq)]
pub struct VectorBatches {
    /// Records actually read; equals the header-declared cardinality.
    pub cardinality: usize,
    /// Scalars per record, from the header.
    pub dimensionality: usize,
    /// The records in file order, cut into batches of at most the batch size
    /// that was asked for.
    pub batches: Vec<Vec<Vec<u64>>>,
}

/// A vector file is well formed exactly when it holds the records its header
/// declares and nothing more: the 8-byte header, then `cardinality` records
/// of `dimensionality` scalars of width `w` each.
pub open spec fn vector_file_ok(data: Seq<u8>, w: nat) -> bool {
    data.len() == 8 + header_cardinality(data) * (header_dimensionality(data) * w)
}

/// The error a malformed vector file is rejected with: a truncated header, a
/// partial trailing record, or trailing bytes are a truncation; a whole
/// number of records that differs from the declared count is a cardinality
/// mismatch carrying both counts.
pub open spec fn vector_file_error(data: Seq<u8>, w: nat) -> ConvertError
    recommends
        !vector_file_ok(data, w),
{
    let card = header_cardinality(data);
    let rb = header_dimensionality(data) * w;
    if data.len() < 8 {
        ConvertError::TruncatedRead
    } else if rb == 0 {
        ConvertError::TruncatedRead
    } else if ((data.len() - 8) as nat) % rb != 0 {
        ConvertError::TruncatedRead
    } else {
        ConvertError::CardinalityMismatch {
            expected: card as u64,
            actual: (((data.len() - 8) as nat) / rb) as u64,
        }
    }
}

/// Converts one vector file held in `data`: reads the header, decodes every
/// record that follows, validates the declared cardinality against the
/// records actually present, and partitions the records into batches of at
/// most `batch_size`, in file order.
///
/// Succeeds exactly on well-formed files, and then returns every record: the
/// batches are `batches_of` the file's records.  A file that ends inside a
/// record fails with a truncation error and no batch is handed out at all,
/// so no output is ever written for a truncated file.  A well-formed byte
/// length that holds the wrong number of records fails with a cardinality
/// mismatch citing the declared and the observed count.
#[verifier::loop_isolation(false)]
pub fn read_vector_file(data: &Vec<u8>, elem: ElemType, batch_size: usize) -> (r: Result<
    VectorBatches,
    ConvertError,
>)
    requires
        batch_size >= 1,
    ensures
        match r {
            Ok(v) => {
                &&& vector_file_ok(data@, elem.width_spec())
                &&& v.cardinality == header_cardinality(data@)
                &&& v.dimensionality == header_dimensionality(data@)
                &&& v.batches.deep_view() == batches_of(
                    records_of(
                        data@,
                        elem.width_spec(),
                        header_dimensionality(data@),
                        header_cardinality(data@),
                    ),
                    batch_size as nat,
                )
            },
            Err(e) => {
                &&& !vector_file_ok(data@, elem.width_spec())
                &&& e == vector_file_error(data@, elem.width_spec())
            },
        },
{
    if data.len() < 8 {
        return Err(ConvertError::TruncatedRead);
    }
    let card64 = decode_scalar_at(data, 0, 4);
    let dim64 = decode_scalar_at(data, 4, 4);
    proof {
        assert(data@.subrange(0int, 0int + 4) =~= data@.subrange(0, 4));
        assert(data@.subrange(4int, 4int + 4) =~= data@.subrange(4, 8));
        lemma_le_value_bound(data@.subrange(0, 4));
        lemma_le_value_bound(data@.subrange(4, 8));
        lemma_pow256_values();
    }
    let w = elem.width();
    let ghost gw = elem.width_spec();
    let ghost card = header_cardinality(data@);
    let ghost gdim = header_dimensionality(data@);
    proof {
        vstd::arithmetic::mul::lemma_mul_upper_bound(dim64 as int, 0xffff_ffff, w as int, 8);
    }
    let rb64: u64 = dim64 * (w as u64);
    let len64: u64 = data.len() as u64;
    let rem64: u64 = len64 - 8;
    let n64: u64;
    if rb64 == 0 {
        if rem64 != 0 {
            return Err(ConvertError::TruncatedRead);
        }
        n64 = card64;
    } else {
        if rem64 % rb64 != 0 {
            proof {
                if vector_file_ok(data@, gw) {
                    vstd::arithmetic::div_mod::lemma_mod_multiples_basic(
                        card as int,
                        rb64 as int,
                    );
                }
            }
            return Err(ConvertError::TruncatedRead);
        }
        n64 = rem64 / rb64;
        proof {
            lemma_fundamental_div_mod(rem64 as int, rb64 as int);
            if n64 != card64 {
                if vector_file_ok(data@, gw) {
                    lemma_fundamental_div_mod_converse_div(
                        rem64 as int,
                        rb64 as int,
                        card as int,
                        0,
                    );
                }
            }
        }
        if n64 != card64 {
            return Err(ConvertError::CardinalityMismatch { expected: card64, actual: n64 });
        }
    }
    proof {
        vstd::arithmetic::mul::lemma_mul_is_commutative(card as int, rb64 as int);
        assert(vector_file_ok(data@, gw));
    }
    let n: usize = card64 as usize;
    let dim: usize = dim64 as usize;
    let ghost rows_all = records_of(data@, gw, gdim, card);
    let ghost b = batch_size as int;
    let mut batches: Vec<Vec<Vec<u64>>> = Vec::new();
    let mut cur: Vec<Vec<u64>> = Vec::new();
    let mut i: usize = 0;
    proof {
        lemma_basic_div(0, b);
        vstd::arithmetic::div_mod::lemma_small_mod(0, batch_size as nat);
        assert(cur.deep_view() =~= rows_all.subrange(0, 0));
    }
    while i < n
        invariant
            i <= n,
            batches@.len() == i as int / b,
            cur@.len() == i as int % b,
            forall|jj: int|
                0 <= jj < batches@.len() ==> (#[trigger] batches@[jj]).deep_view()
                    == rows_all.subrange(jj * b, (jj + 1) * b),
            cur.deep_view() == rows_all.subrange((i as int / b) * b, i as int),
        decreases n - i,
    {
        proof {
            lemma_mul_inequality(i as int, n as int, rb64 as int);
            lemma_mul_inequality(i + 1, n as int, rb64 as int);
            lemma_mul_is_distributive_add_other_way(rb64 as int, i as int, 1);
        }
        let off64: u64 = 8 + (i as u64) * rb64;
        let off: usize = off64 as usize;
        let row = decode_row_at(data, off, dim, w);
        proof {
            assert(row@ == rows_all[i as int]);
            assert(row.deep_view() =~= row@);
        }
        cur.push(row);
        let ghost i0 = i as int;
        let ghost start = (i0 / b) * b;
        i = i + 1;
        proof {
            lemma_fundamental_div_mod(i0, b);
            assert(cur.deep_view() =~= rows_all.subrange(start, i0 + 1));
        }
        if cur.len() == batch_size {
            batches.push(cur);
            cur = Vec::new();
            proof {
                lemma_mul_is_distributive_add_other_way(b, i0 / b, 1);
                lemma_fundamental_div_mod_converse_div(i0 + 1, b, i0 / b + 1, 0);
                lemma_fundamental_div_mod_converse_mod(i0 + 1, b, i0 / b + 1, 0);
                assert(batches@.last().deep_view() == rows_all.subrange(
                    (i0 / b) * b,
                    (i0 / b + 1) * b,
                ));
                assert(cur.deep_view() =~= rows_all.subrange(
                    (i as int / b) * b,
                    i as int,
                ));
            }
        } else {
            proof {
                vstd::arithmetic::div_mod::lemma_mod_division_less_than_divisor(i0, b);
                lemma_fundamental_div_mod_converse_div(i0 + 1, b, i0 / b, i0 % b + 1);
                lemma_fundamental_div_mod_converse_mod(i0 + 1, b, i0 / b, i0 % b + 1);
            }
        }
    }
    let ghost full = n as int / b;
    if cur.len() > 0 {
        batches.push(cur);
        proof {
            lemma_fundamental_div_mod(n as int, b);
            vstd::arithmetic::div_mod::lemma_mod_division_less_than_divisor(n as int, b);
            lemma_mul_is_distributive_add_other_way(b, full, 1);
            lemma_fundamental_div_mod_converse_div(
                n as int + b - 1,
                b,
                full + 1,
                n as int % b - 1,
            );
            assert(batches@.len() == num_batches(card, batch_size as nat));
        }
    } else {
        proof {
            lemma_fundamental_div_mod(n as int, b);
            lemma_fundamental_div_mod_converse_div(n as int + b - 1, b, full, b - 1);
            assert(batches@.len() == num_batches(card, batch_size as nat));
        }
    }
    proof {
        let bs = batches_of(rows_all, batch_size as nat);
        assert forall|jj: int| 0 <= jj < batches@.len() implies (
        #[trigger] batches@[jj]).deep_view() == bs[jj] by {
            lemma_fundamental_div_mod(n as int, b);
            if jj < full {
                lemma_mul_inequality(jj + 1, full, b);
                vstd::arithmetic::mul::lemma_mul_is_commutative(full, b);
                assert((jj + 1) * b <= n as int);
            } else {
                assert(jj == full && n as int % b != 0);
                assert(batch_of(rows_all, batch_size as nat, jj) =~= rows_all.subrange(
                    (n as int / b) * b,
                    n as int,
                ));
            }
        }
        assert(batches.deep_view() =~= batches_of(rows_all, batch_size as nat));
    }
    Ok(VectorBatches { cardinality: n, dimensionality: dim, batches })
}

} // verus!
