//! Rendering decoded batches as Arrow IPC file images.
//!
//! A batch of records becomes one record batch with one non-null column per
//! record, the column named by the record's index within the batch, exactly
//! as wide as the batch and as long as one record.  The serialized bytes are
//! produced in memory; writing them to disk is the caller's business.
//!
//! The arrow calls are the only trusted boundary of this crate: the bytes an
//! IPC file holds are far too involved to state, so they are only named
//! ([`arrow_ipc_bytes`]) as a fixed function of the element type and the
//! column contents.

use crate::elem::{encode_le_bytes, le_bytes, ElemType};
use crate::errors::ConvertError;
use arrow::array::{make_array, ArrayData, ArrayRef};
use arrow::buffer::Buffer;
use arrow::datatypes::{DataType, Field, Schema};
use arrow::error::ArrowError;
use arrow::ipc::writer::FileWriter;
use arrow::record_batch::RecordBatch;
use std::sync::Arc;
use vstd::arithmetic::mul::lemma_mul_is_distributive_sub_other_way;
use vstd::prelude::*;

verus! {

/// The canonical short name of an element type; it tells the ten columnar
/// data types apart in specifications.
pub open spec fn tag_spec(e: ElemType) -> Seq<char> {
    match e {
        ElemType::Int8 => "i8"@,
        ElemType::UInt8 => "u8"@,
        ElemType::Int16 => "i16"@,
        ElemType::UInt16 => "u16"@,
        ElemType::Int32 => "i32"@,
        ElemType::UInt32 => "u32"@,
        ElemType::Int64 => "i64"@,
        ElemType::UInt64 => "u64"@,
        ElemType::Float32 => "f32"@,
        ElemType::Float64 => "f64"@,
    }
}

/// The bytes of an Arrow IPC file holding one record batch with one non-null
/// column per entry of `cols`, named by its index: column values are of the
/// element type named by `tag`, given as their concatenated little-endian
/// bytes, `n` values per column.  Arrow serializes the same schema and
/// values to the same bytes, so the result is a fixed function of these
/// arguments; nothing more is assumed about it.
pub uninterp spec fn arrow_ipc_bytes(tag: Seq<char>, cols: Seq<Seq<u8>>, n: nat) -> Seq<u8>;

#[verifier::external_type_specification]
#[verifier::external_body]
pub struct ExDataType(DataType);

#[verifier::external_type_specification]
#[verifier::external_body]
pub struct ExArrowError(ArrowError);

/// Relies on `arrow::datatypes::DataType`: picks, for each element type, the
/// arrow data type of the same width and kind.
#[verifier::external_body]
fn arrow_data_type(elem: ElemType) -> DataType {
    match elem {
        ElemType::Int8 => DataType::Int8,
        ElemType::UInt8 => DataType::UInt8,
        ElemType::Int16 => DataType::Int16,
        ElemType::UInt16 => DataType::UInt16,
        ElemType::Int32 => DataType::Int32,
        ElemType::UInt32 => DataType::UInt32,
        ElemType::Int64 => DataType::Int64,
        ElemType::UInt64 => DataType::UInt64,
        ElemType::Float32 => DataType::Float32,
        ElemType::Float64 => DataType::Float64,
    }
}

/// Relies on `arrow::array::ArrayData::try_new` and `make_array` to build
/// each column from its raw little-endian bytes, and on
/// `arrow::record_batch::RecordBatch::try_new` and
/// `arrow::ipc::writer::FileWriter` to serialize the batch into memory.
/// The produced bytes depend only on the element type and the columns
/// ([`arrow_ipc_bytes`]); an arrow refusal comes back as `Err`.  Arrow
/// refuses only a batch of no columns at all or an ill-sized column buffer:
/// `ArrayData::try_new` validates buffer sizes with checked arithmetic and
/// accepts a buffer of at least `n` values of the primitive type,
/// `Buffer::from_slice_ref` allocates at arrow's required alignment,
/// `RecordBatch::try_new` accepts one or more equal-length columns whose
/// types match the schema, and the writer writes into a `Vec`, which cannot
/// fail — so with at least one column, each holding at least `n` values,
/// the call succeeds.
#[verifier::external_body]
fn arrow_encode_columns(elem: ElemType, cols: &Vec<Vec<u8>>, n: usize) -> (r: Result<
    Vec<u8>,
    ArrowError,
>)
    ensures
        r matches Ok(bytes) ==> bytes@ == arrow_ipc_bytes(
            tag_spec(elem),
            cols.deep_view(),
            n as nat,
        ),
        (cols@.len() > 0 && (forall|j: int|
            0 <= j < cols@.len() ==> (#[trigger] cols@[j])@.len() >= n * elem.width_spec()))
            ==> r is Ok,
{
    let dt = arrow_data_type(elem);
    let mut fields = Vec::new();
    let mut arrays: Vec<ArrayRef> = Vec::new();
    for (i, col) in cols.iter().enumerate() {
        fields.push(Field::new(format!("{i}"), dt.clone(), false));
        let data = ArrayData::try_new(dt.clone(), n, None, 0, vec![Buffer::from_slice_ref(col)], vec![])?;
        arrays.push(make_array(data));
    }
    let schema = Arc::new(Schema::new(fields));
    let batch = RecordBatch::try_new(schema.clone(), arrays)?;
    let mut writer = FileWriter::try_new(Vec::new(), &schema)?;
    writer.write(&batch)?;
    writer.finish()?;
    writer.into_inner()
}

/// The concatenated little-endian bytes of a record's scalars, each `w`
/// bytes wide: the raw buffer of one column.
pub open spec fn row_le_bytes(row: Seq<u64>, w: nat) -> Seq<u8>
    decreases row.len(),
{
    if row.len() == 0 {
        Seq::empty()
    } else {
        le_bytes(row[0] as nat, w) + row_le_bytes(row.drop_first(), w)
    }
}

/// The column buffers of a whole batch: one per record, in record order.
pub open spec fn columns_spec(rows: Seq<Seq<u64>>, w: nat) -> Seq<Seq<u8>> {
    Seq::new(rows.len(), |i: int| row_le_bytes(rows[i], w))
}

/// A record's column buffer holds exactly `w` bytes per scalar.
pub proof fn lemma_row_le_bytes_len(row: Seq<u64>, w: nat)
    ensures
        row_le_bytes(row, w).len() == row.len() * w,
    decreases row.len(),
{
    if row.len() == 0 {
        vstd::arithmetic::mul::lemma_mul_basics(w as int);
    } else {
        crate::elem::lemma_le_bytes_len(row[0] as nat, w);
        lemma_row_le_bytes_len(row.drop_first(), w);
        lemma_mul_is_distributive_sub_other_way(w as int, row.len() as int, 1);
    }
}

/// Decoding a record from its little-endian bytes and re-encoding it into
/// the column buffer handed to the columnar writer reproduces the original
/// bytes exactly: no value is altered on the way into a column, bit-exact
/// also for the two float widths, whose bit patterns are carried unchanged.
pub proof fn lemma_record_round_trip(data: Seq<u8>, w: nat, dim: nat, off: int)
    requires
        1 <= w <= 8,
        0 <= off,
        off + dim * w <= data.len(),
    ensures
        row_le_bytes(crate::vectors::row_at(data, w, dim, off), w) == data.subrange(
            off,
            off + dim * w,
        ),
    decreases dim,
{
    let row = crate::vectors::row_at(data, w, dim, off);
    if dim == 0 {
        assert(row_le_bytes(row, w) =~= data.subrange(off, off + dim * w));
    } else {
        lemma_mul_is_distributive_sub_other_way(w as int, dim as int, 1);
        lemma_record_round_trip(data, w, (dim - 1) as nat, off + w);
        let head = data.subrange(off, off + w);
        crate::elem::lemma_le_value_bound(head);
        crate::elem::lemma_pow256_mono(w, 8);
        crate::elem::lemma_pow256_values();
        assert(row[0] as nat == crate::elem::le_value(head));
        crate::elem::lemma_le_bytes_of_le_value(head);
        let shifted = crate::vectors::row_at(data, w, (dim - 1) as nat, off + w);
        assert forall|j: int| 0 <= j < dim - 1 implies row.drop_first()[j] == shifted[j] by {
            vstd::arithmetic::mul::lemma_mul_is_distributive_add_other_way(w as int, j, 1);
        }
        assert(row.drop_first() =~= shifted);
        assert(le_bytes(row[0] as nat, w) + row_le_bytes(row.drop_first(), w) =~= data.subrange(
            off,
            off + dim * w,
        ));
    }
}

/// Re-encodes one record into the raw little-endian buffer of its column.
pub fn row_to_le_bytes(row: &Vec<u64>, elem: ElemType) -> (r: Vec<u8>)
    ensures
        r@ == row_le_bytes(row@, elem.width_spec()),
{
    let w = elem.width();
    let mut out: Vec<u8> = Vec::new();
    let mut j: usize = 0;
    proof {
        assert(row@.skip(0) =~= row@);
    }
    while j < row.len()
        invariant
            j <= row.len(),
            w == elem.width_spec(),
            1 <= w <= 8,
            out@ + row_le_bytes(row@.skip(j as int), w as nat) == row_le_bytes(
                row@,
                elem.width_spec(),
            ),
        decreases row.len() - j,
    {
        let ghost out0 = out@;
        let ghost tail = row@.skip(j as int);
        let mut piece = encode_le_bytes(row[j], w);
        out.append(&mut piece);
        j = j + 1;
        proof {
            assert(tail.drop_first() =~= row@.skip(j as int));
            assert(row_le_bytes(tail, w as nat) == le_bytes(tail[0] as nat, w as nat)
                + row_le_bytes(tail.drop_first(), w as nat));
            assert(out@ + row_le_bytes(row@.skip(j as int), w as nat) =~= out0 + row_le_bytes(
                tail,
                w as nat,
            ));
        }
    }
    proof {
        assert(row@.skip(row@.len() as int) =~= Seq::<u64>::empty());
        assert(out@ + row_le_bytes(row@.skip(row@.len() as int), w as nat) =~= out@);
    }
    out
}

/// Renders one batch of records as the bytes of its columnar file: one
/// column per record, named by the record's index, `values_per_row` values
/// long.  On success the bytes are exactly the arrow IPC image of the
/// batch's column buffers; the only failure is the columnar writer's, and
/// that cannot happen when the batch is nonempty and every record holds at
/// least `values_per_row` scalars — success is then owed.
pub fn encode_batch(elem: ElemType, rows: &Vec<Vec<u64>>, values_per_row: usize) -> (r: Result<
    Vec<u8>,
    ConvertError,
>)
    ensures
        match r {
            Ok(bytes) => bytes@ == arrow_ipc_bytes(
                tag_spec(elem),
                columns_spec(rows.deep_view(), elem.width_spec()),
                values_per_row as nat,
            ),
            Err(e) => e == ConvertError::IoWrite,
        },
        (rows@.len() > 0 && (forall|i: int|
            0 <= i < rows@.len() ==> (#[trigger] rows@[i])@.len() >= values_per_row)) ==> r
            is Ok,
{
    let mut cols: Vec<Vec<u8>> = Vec::new();
    let mut i: usize = 0;
    while i < rows.len()
        invariant
            i <= rows.len(),
            cols@.len() == i,
            forall|ii: int|
                0 <= ii < i ==> (#[trigger] cols@[ii])@ == row_le_bytes(
                    rows@[ii]@,
                    elem.width_spec(),
                ),
        decreases rows.len() - i,
    {
        let col = row_to_le_bytes(&rows[i], elem);
        cols.push(col);
        i = i + 1;
    }
    proof {
        assert forall|ii: int| 0 <= ii < rows@.len() implies cols.deep_view()[ii]
            == columns_spec(rows.deep_view(), elem.width_spec())[ii] by {
            assert(cols@[ii].deep_view() =~= cols@[ii]@);
            assert(rows@[ii].deep_view() =~= rows@[ii]@);
        }
        assert(cols.deep_view() =~= columns_spec(rows.deep_view(), elem.width_spec()));
    }
    let res = arrow_encode_columns(elem, &cols, values_per_row);
    match res {
        Ok(bytes) => Ok(bytes),
        Err(_) => {
            proof {
                if rows@.len() > 0 && (forall|i: int|
                    0 <= i < rows@.len() ==> (#[trigger] rows@[i])@.len() >= values_per_row) {
                    assert forall|i: int| 0 <= i < cols@.len() implies (
                    #[trigger] cols@[i])@.len() >= values_per_row * elem.width_spec() by {
                        lemma_row_le_bytes_len(rows@[i]@, elem.width_spec());
                        vstd::arithmetic::mul::lemma_mul_inequality(
                            values_per_row as int,
                            rows@[i]@.len() as int,
                            elem.width_spec() as int,
                        );
                    }
                }
            }
            Err(ConvertError::IoWrite)
        },
    }
}

} // verus!
