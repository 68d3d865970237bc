//! The dataset orchestrator: the table of supported datasets and the
//! conversion of one dataset's three raw files into its standard form.
//!
//! This module is the only one that knows which dataset is being processed;
//! everything below it is dataset-agnostic.  The caller reads the raw files
//! and hands their bytes in; the orchestrator converts the base file and the
//! query file, optionally the ground-truth file, cross-validates the query
//! counts, and returns the file images to write together with a summary.

use crate::elem::{lemma_le_value_bound, lemma_pow256_values, ElemType};
use crate::errors::ConvertError;
use crate::ground::{
    distances_flat, ground_file_ok, ground_k, ground_queries, lemma_reshape_aligns,
    neighbors_flat, read_ground_file, reshaped,
};
use crate::ipc::{arrow_ipc_bytes, columns_spec, encode_batch, tag_spec};
use crate::vectors::{
    batches_of, header_cardinality, header_dimensionality, read_vector_file, records_of,
    vector_file_error, vector_file_ok, VectorBatches,
};
use vstd::prelude::*;
use vstd::string::StrSliceExecFns;

verus! {

/// The datasets this pipeline knows how to convert.
#[derive(Clone, Copy, Debug, PartialEq, Eq, Structural)]
pub enum Dataset {
    BigAnn,
    FbSSNpp,
    MsftSpaceV,
    MsftTuring,
    YandexDeep,
}

/// The summary of one finished conversion.
#[derive(Debug, Clone, PartialEq, Eq)]
pub struct StandardData {
    /// The output directory the file images are meant for, as given by the
    /// caller.
    pub data_dir: String,
    /// Scalars per record, from the base file header.
    pub dimensionality: usize,
    /// Records in the base file; equals the sum of the base batch lengths.
    pub cardinality: usize,
    /// The batch size the conversion was run with.
    pub batch_size: usize,
    /// Records in the query file; cross-checked against the ground truth
    /// when one was given.
    pub num_queries: usize,
}

/// Everything one dataset conversion produces: the summary and the columnar
/// file images for the caller to write, one file per batch plus the two
/// ground-truth files.
#[derive(Debug, PartialEq, Eq)]
pub struct ConversionOutput {
    pub summary: StandardData,
    /// One columnar file image per base batch, in batch-index order.
    pub base_batches: Vec<Vec<u8>>,
    /// One columnar file image per query batch, in batch-index order.
    pub query_batches: Vec<Vec<u8>>,
    /// The neighbors file image and the distances file image, present
    /// exactly when a ground-truth file was given.
    pub ground: Option<(Vec<u8>, Vec<u8>)>,
}

/// True when two strings hold the same characters.
pub fn str_eq(a: &str, b: &str) -> (r: bool)
    ensures
        r == (a@ == b@),
{
    let la = a.unicode_len();
    let lb = b.unicode_len();
    if la != lb {
        return false;
    }
    let mut i: usize = 0;
    while i < la
        invariant
            i <= la,
            la == a@.len(),
            la == b@.len(),
            forall|k: int| 0 <= k < i ==> a@[k] == b@[k],
        decreases la - i,
    {
        if a.get_char(i) != b.get_char(i) {
            return false;
        }
        i = i + 1;
    }
    proof {
        assert(a@ =~= b@);
    }
    true
}

/// The dataset a command-line name denotes, if any.
pub open spec fn dataset_for_name(s: Seq<char>) -> Option<Dataset> {
    if s == "bigann"@ {
        Some(Dataset::BigAnn)
    } else if s == "fb_ssnnpp"@ {
        Some(Dataset::FbSSNpp)
    } else if s == "msft_spacev"@ {
        Some(Dataset::MsftSpaceV)
    } else if s == "msft_turing"@ {
        Some(Dataset::MsftTuring)
    } else if s == "yandex_deep"@ {
        Some(Dataset::YandexDeep)
    } else {
        None
    }
}

impl Dataset {
    /// The command-line names of every supported dataset, in a fixed order.
    pub fn names() -> (r: [String; 5])
        ensures
            r@.len() == 5,
            r@[0]@ == "bigann"@,
            r@[1]@ == "fb_ssnnpp"@,
            r@[2]@ == "msft_spacev"@,
            r@[3]@ == "msft_turing"@,
            r@[4]@ == "yandex_deep"@,
    {
        [
            "bigann".to_owned(),
            "fb_ssnnpp".to_owned(),
            "msft_spacev".to_owned(),
            "msft_turing".to_owned(),
            "yandex_deep".to_owned(),
        ]
    }

    /// Looks a dataset up by its command-line name.
    pub fn from_name(s: &str) -> (r: Option<Dataset>)
        ensures
            r == dataset_for_name(s@),
    {
        if str_eq(s, "bigann") {
            Some(Dataset::BigAnn)
        } else if str_eq(s, "fb_ssnnpp") {
            Some(Dataset::FbSSNpp)
        } else if str_eq(s, "msft_spacev") {
            Some(Dataset::MsftSpaceV)
        } else if str_eq(s, "msft_turing") {
            Some(Dataset::MsftTuring)
        } else if str_eq(s, "yandex_deep") {
            Some(Dataset::YandexDeep)
        } else {
            None
        }
    }

    /// The scalar element type of this dataset's vector files.
    pub open spec fn elem_type_spec(self) -> ElemType {
        match self {
            Dataset::BigAnn => ElemType::UInt8,
            Dataset::FbSSNpp => ElemType::UInt8,
            Dataset::MsftSpaceV => ElemType::Int8,
            Dataset::MsftTuring => ElemType::Float32,
            Dataset::YandexDeep => ElemType::Float32,
        }
    }

    /// The scalar element type of this dataset's vector files.
    pub fn elem_type(self) -> (r: ElemType)
        ensures
            r == self.elem_type_spec(),
    {
        match self {
            Dataset::BigAnn => ElemType::UInt8,
            Dataset::FbSSNpp => ElemType::UInt8,
            Dataset::MsftSpaceV => ElemType::Int8,
            Dataset::MsftTuring => ElemType::Float32,
            Dataset::YandexDeep => ElemType::Float32,
        }
    }

    /// The batch size this dataset is converted with.
    pub open spec fn batch_size_spec(self) -> nat {
        match self {
            Dataset::BigAnn => 10_000_000,
            Dataset::FbSSNpp => 10_000_000,
            Dataset::MsftSpaceV => 10_000_000,
            Dataset::MsftTuring => 1_000_000,
            Dataset::YandexDeep => 1_000_000,
        }
    }

    /// The batch size this dataset is converted with.
    pub fn default_batch_size(self) -> (r: usize)
        ensures
            r == self.batch_size_spec(),
            r >= 1,
    {
        match self {
            Dataset::BigAnn => 10_000_000,
            Dataset::FbSSNpp => 10_000_000,
            Dataset::MsftSpaceV => 10_000_000,
            Dataset::MsftTuring => 1_000_000,
            Dataset::YandexDeep => 1_000_000,
        }
    }

    /// The vendor file name of this dataset's base file under `base/`.
    pub fn base_file_name(self) -> (r: &'static str)
        ensures
            match self {
                Dataset::BigAnn => r@ == "bigann-1b.u8bin"@,
                Dataset::FbSSNpp => r@ == "fb_ssnpp-1b.u8bin"@,
                Dataset::MsftSpaceV => r@ == "msft_spacev-1b.i8bin"@,
                Dataset::MsftTuring => r@ == "msft_turing-1b.fbin"@,
                Dataset::YandexDeep => r@ == "yandex_deep-1b.fbin"@,
            },
    {
        match self {
            Dataset::BigAnn => "bigann-1b.u8bin",
            Dataset::FbSSNpp => "fb_ssnpp-1b.u8bin",
            Dataset::MsftSpaceV => "msft_spacev-1b.i8bin",
            Dataset::MsftTuring => "msft_turing-1b.fbin",
            Dataset::YandexDeep => "yandex_deep-1b.fbin",
        }
    }

    /// The vendor file name of this dataset's query file under `query/`.
    pub fn query_file_name(self) -> (r: &'static str)
        ensures
            match self {
                Dataset::BigAnn => r@ == "bigann-query.u8bin"@,
                Dataset::FbSSNpp => r@ == "fb_ssnpp-query.u8bin"@,
                Dataset::MsftSpaceV => r@ == "msft_spacev-query.i8bin"@,
                Dataset::MsftTuring => r@ == "msft_turing-query.fbin"@,
                Dataset::YandexDeep => r@ == "yandex_deep-query.fbin"@,
            },
    {
        match self {
            Dataset::BigAnn => "bigann-query.u8bin",
            Dataset::FbSSNpp => "fb_ssnpp-query.u8bin",
            Dataset::MsftSpaceV => "msft_spacev-query.i8bin",
            Dataset::MsftTuring => "msft_turing-query.fbin",
            Dataset::YandexDeep => "yandex_deep-query.fbin",
        }
    }

    /// The vendor file name of this dataset's ground-truth file under
    /// `ground/`.
    pub fn ground_file_name(self) -> (r: &'static str)
        ensures
            match self {
                Dataset::BigAnn => r@ == "bigann-ground.bin"@,
                Dataset::FbSSNpp => r@ == "fb_ssnpp-ground.rangeres"@,
                Dataset::MsftSpaceV => r@ == "msft_spacev-ground.bin"@,
                Dataset::MsftTuring => r@ == "msft_turing-ground.bin"@,
                Dataset::YandexDeep => r@ == "yandex_deep-ground.bin"@,
            },
    {
        match self {
            Dataset::BigAnn => "bigann-ground.bin",
            Dataset::FbSSNpp => "fb_ssnpp-ground.rangeres",
            Dataset::MsftSpaceV => "msft_spacev-ground.bin",
            Dataset::MsftTuring => "msft_turing-ground.bin",
            Dataset::YandexDeep => "yandex_deep-ground.bin",
        }
    }

    /// The subdirectory of the standard root this dataset's output goes to.
    pub fn dir_name(self) -> (r: &'static str)
        ensures
            match self {
                Dataset::BigAnn => r@ == "bigann"@,
                Dataset::FbSSNpp => r@ == "fb_ssnpp"@,
                Dataset::MsftSpaceV => r@ == "msft_spacev"@,
                Dataset::MsftTuring => r@ == "msft_turing"@,
                Dataset::YandexDeep => r@ == "yandex_deep"@,
            },
    {
        match self {
            Dataset::BigAnn => "bigann",
            Dataset::FbSSNpp => "fb_ssnpp",
            Dataset::MsftSpaceV => "msft_spacev",
            Dataset::MsftTuring => "msft_turing",
            Dataset::YandexDeep => "yandex_deep",
        }
    }

    /// Whether this dataset's ground-truth file holds k-nearest-neighbor
    /// results that the pipeline converts.  The range-result ground truth is
    /// not converted.
    pub fn has_knn_ground(self) -> (r: bool)
        ensures
            r == (self != Dataset::FbSSNpp),
    {
        match self {
            Dataset::FbSSNpp => false,
            _ => true,
        }
    }
}

impl Dataset {
    /// Converts the `bigann` dataset: `u8` elements, batches of ten million
    /// records, with k-nearest-neighbor ground truth.
    pub fn convert_bigann(base: &Vec<u8>, query: &Vec<u8>, ground: &Vec<u8>, out_dir: &str) -> (r:
        Result<ConversionOutput, ConvertError>)
        ensures
            conversion_post(
                r,
                base@,
                query@,
                Some(ground@),
                ElemType::UInt8,
                10_000_000,
                out_dir@,
            ),
    {
        convert_dataset(base, query, Some(ground), ElemType::UInt8, 10_000_000, out_dir)
    }

    /// Converts the `fb_ssnnpp` dataset: `u8` elements, batches of ten
    /// million records.  Its ground truth holds range results, which this
    /// pipeline does not convert, so only the base and query files are
    /// processed.
    pub fn convert_fb_ssnpp(base: &Vec<u8>, query: &Vec<u8>, out_dir: &str) -> (r: Result<
        ConversionOutput,
        ConvertError,
    >)
        ensures
            conversion_post(r, base@, query@, None, ElemType::UInt8, 10_000_000, out_dir@),
    {
        convert_dataset(base, query, None, ElemType::UInt8, 10_000_000, out_dir)
    }

    /// Converts the `msft_spacev` dataset: `i8` elements, batches of ten
    /// million records, with k-nearest-neighbor ground truth.
    pub fn convert_msft_spacev(
        base: &Vec<u8>,
        query: &Vec<u8>,
        ground: &Vec<u8>,
        out_dir: &str,
    ) -> (r: Result<ConversionOutput, ConvertError>)
        ensures
            conversion_post(
                r,
                base@,
                query@,
                Some(ground@),
                ElemType::Int8,
                10_000_000,
                out_dir@,
            ),
    {
        convert_dataset(base, query, Some(ground), ElemType::Int8, 10_000_000, out_dir)
    }

    /// Converts the `msft_turing` dataset: 32-bit float elements, batches of
    /// one million records, with k-nearest-neighbor ground truth.
    pub fn convert_msft_turing(
        base: &Vec<u8>,
        query: &Vec<u8>,
        ground: &Vec<u8>,
        out_dir: &str,
    ) -> (r: Result<ConversionOutput, ConvertError>)
        ensures
            conversion_post(
                r,
                base@,
                query@,
                Some(ground@),
                ElemType::Float32,
                1_000_000,
                out_dir@,
            ),
    {
        convert_dataset(base, query, Some(ground), ElemType::Float32, 1_000_000, out_dir)
    }

    /// Converts the `yandex_deep` dataset: 32-bit float elements, batches of
    /// one million records, with k-nearest-neighbor ground truth.
    pub fn convert_yandex_deep(
        base: &Vec<u8>,
        query: &Vec<u8>,
        ground: &Vec<u8>,
        out_dir: &str,
    ) -> (r: Result<ConversionOutput, ConvertError>)
        ensures
            conversion_post(
                r,
                base@,
                query@,
                Some(ground@),
                ElemType::Float32,
                1_000_000,
                out_dir@,
            ),
    {
        convert_dataset(base, query, Some(ground), ElemType::Float32, 1_000_000, out_dir)
    }
}

/// The columnar file images of every batch of a vector file, in batch-index
/// order: batch `j` is serialized with one column per record, each column
/// one record of `dimensionality` values.
pub open spec fn batch_images(data: Seq<u8>, elem: ElemType, b: nat) -> Seq<Seq<u8>> {
    batches_of(
        records_of(
            data,
            elem.width_spec(),
            header_dimensionality(data),
            header_cardinality(data),
        ),
        b,
    ).map_values(
        |batch: Seq<Seq<u64>>|
            arrow_ipc_bytes(
                tag_spec(elem),
                columns_spec(batch, elem.width_spec()),
                header_dimensionality(data),
            ),
    )
}

/// The columnar file image of a ground-truth file's neighbor indices: one
/// `u32` column of `k` values per query.
pub open spec fn neighbors_image(data: Seq<u8>) -> Seq<u8> {
    arrow_ipc_bytes(
        tag_spec(ElemType::UInt32),
        columns_spec(reshaped(neighbors_flat(data), ground_queries(data), ground_k(data)), 4),
        ground_k(data),
    )
}

/// The columnar file image of a ground-truth file's distances: one 32-bit
/// float column of `k` values per query, aligned with the neighbors.
pub open spec fn distances_image(data: Seq<u8>) -> Seq<u8> {
    arrow_ipc_bytes(
        tag_spec(ElemType::Float32),
        columns_spec(reshaped(distances_flat(data), ground_queries(data), ground_k(data)), 4),
        ground_k(data),
    )
}

/// The view of an optional borrowed byte file.
pub open spec fn opt_view(g: Option<&Vec<u8>>) -> Option<Seq<u8>> {
    match g {
        Some(v) => Some(v@),
        None => None,
    }
}

/// All three inputs of one conversion are acceptable: both vector files are
/// well formed, and the ground-truth file, when given, is well formed and
/// agrees with the query file on the query count.
pub open spec fn inputs_ok(
    base: Seq<u8>,
    query: Seq<u8>,
    ground: Option<Seq<u8>>,
    w: nat,
) -> bool {
    &&& vector_file_ok(base, w)
    &&& vector_file_ok(query, w)
    &&& match ground {
        Some(g) => ground_file_ok(g) && ground_queries(g) == header_cardinality(query),
        None => true,
    }
}

/// The error an unacceptable set of inputs is rejected with: the base file's
/// fault first, then the query file's, then the ground-truth file's, then
/// the query-count disagreement carrying both counts.
pub open spec fn conversion_error(
    base: Seq<u8>,
    query: Seq<u8>,
    ground: Option<Seq<u8>>,
    w: nat,
) -> ConvertError
    recommends
        !inputs_ok(base, query, ground, w),
{
    if !vector_file_ok(base, w) {
        vector_file_error(base, w)
    } else if !vector_file_ok(query, w) {
        vector_file_error(query, w)
    } else {
        match ground {
            Some(g) => if !ground_file_ok(g) {
                ConvertError::TruncatedRead
            } else {
                ConvertError::QueryCountMismatch {
                    queries: header_cardinality(query) as u64,
                    ground_queries: ground_queries(g) as u64,
                }
            },
            // Unreachable under the recommends: without a ground-truth file,
            // unacceptable inputs fail one of the vector checks above.
            None => ConvertError::IoWrite,
        }
    }
}

/// What [`convert_dataset`] promises: unacceptable inputs are rejected with
/// exactly [`conversion_error`]; on success every produced file image and
/// every summary field is pinned down; and success is owed on every
/// acceptable input, except a ground-truth file declaring zero queries
/// (whose neighbors file would hold no column at all — the columnar writer
/// refuses an empty batch).
pub open spec fn conversion_post(
    r: Result<ConversionOutput, ConvertError>,
    base: Seq<u8>,
    query: Seq<u8>,
    ground: Option<Seq<u8>>,
    elem: ElemType,
    batch_size: nat,
    out_dir: Seq<char>,
) -> bool {
    let w = elem.width_spec();
    &&& match r {
        Ok(out) => {
            &&& inputs_ok(base, query, ground, w)
            &&& out.summary.data_dir@ == out_dir
            &&& out.summary.cardinality == header_cardinality(base)
            &&& out.summary.dimensionality == header_dimensionality(base)
            &&& out.summary.batch_size == batch_size
            &&& out.summary.num_queries == header_cardinality(query)
            &&& out.base_batches.deep_view() == batch_images(base, elem, batch_size)
            &&& out.query_batches.deep_view() == batch_images(query, elem, batch_size)
            &&& match ground {
                Some(g) => match out.ground {
                    Some(pair) => pair.0@ == neighbors_image(g) && pair.1@ == distances_image(
                        g,
                    ),
                    None => false,
                },
                None => out.ground is None,
            }
        },
        Err(e) => {
            if !inputs_ok(base, query, ground, w) {
                e == conversion_error(base, query, ground, w)
            } else {
                e == ConvertError::IoWrite
            }
        },
    }
    &&& (!inputs_ok(base, query, ground, w) ==> r is Err)
    &&& ((inputs_ok(base, query, ground, w) && match ground {
        Some(g) => ground_queries(g) >= 1,
        None => true,
    }) ==> r is Ok)
}

/// What [`read_vector_file`] hands out is always encodable: every batch is
/// nonempty, and every record in it holds exactly the header-declared number
/// of scalars.
proof fn lemma_batches_encodable(data: Seq<u8>, elem: ElemType, b: nat)
    requires
        b >= 1,
    ensures
        forall|j: int|
            0 <= j < batches_of(
                records_of(
                    data,
                    elem.width_spec(),
                    header_dimensionality(data),
                    header_cardinality(data),
                ),
                b,
            ).len() ==> {
                let batch = #[trigger] batches_of(
                    records_of(
                        data,
                        elem.width_spec(),
                        header_dimensionality(data),
                        header_cardinality(data),
                    ),
                    b,
                )[j];
                batch.len() > 0 && (forall|i: int|
                    0 <= i < batch.len() ==> (#[trigger] batch[i]).len()
                        == header_dimensionality(data))
            },
{
    let rows = records_of(
        data,
        elem.width_spec(),
        header_dimensionality(data),
        header_cardinality(data),
    );
    crate::vectors::lemma_batches_cover(rows, b);
    assert forall|j: int| 0 <= j < batches_of(rows, b).len() implies {
        let batch = #[trigger] batches_of(rows, b)[j];
        batch.len() > 0 && (forall|i: int|
            0 <= i < batch.len() ==> (#[trigger] batch[i]).len() == header_dimensionality(
                data,
            ))
    } by {
        crate::vectors::lemma_batch_start_in_range(rows.len(), b, j);
        vstd::arithmetic::mul::lemma_mul_is_distributive_add_other_way(b as int, j, 1);
        let batch = batches_of(rows, b)[j];
        assert forall|i: int| 0 <= i < batch.len() implies (#[trigger] batch[i]).len()
            == header_dimensionality(data) by {
            assert(batch[i] == rows[j * b + i]);
        }
    }
}

/// Renders every batch of an already-read vector file as its columnar file
/// image, in batch-index order.  When every batch is nonempty and every
/// record holds at least `dimensionality` scalars — which is what
/// [`read_vector_file`] hands out — success is owed.
pub fn encode_batches(elem: ElemType, v: &VectorBatches) -> (r: Result<Vec<Vec<u8>>, ConvertError>)
    ensures
        match r {
            Ok(files) => files.deep_view() == Seq::new(
                v.batches@.len(),
                |j: int|
                    arrow_ipc_bytes(
                        tag_spec(elem),
                        columns_spec(v.batches@[j].deep_view(), elem.width_spec()),
                        v.dimensionality as nat,
                    ),
            ),
            Err(e) => e == ConvertError::IoWrite,
        },
        (forall|j: int|
            0 <= j < v.batches@.len() ==> (#[trigger] v.batches@[j])@.len() > 0 && (forall|
                i: int,
            |
                0 <= i < v.batches@[j]@.len() ==> (#[trigger] v.batches@[j]@[i])@.len()
                    >= v.dimensionality)) ==> r is Ok,
{
    let mut files: Vec<Vec<u8>> = Vec::new();
    let mut j: usize = 0;
    while j < v.batches.len()
        invariant
            j <= v.batches@.len(),
            files@.len() == j,
            forall|ii: int|
                0 <= ii < j ==> (#[trigger] files@[ii])@ == arrow_ipc_bytes(
                    tag_spec(elem),
                    columns_spec(v.batches@[ii].deep_view(), elem.width_spec()),
                    v.dimensionality as nat,
                ),
        decreases v.batches@.len() - j,
    {
        let file = match encode_batch(elem, &v.batches[j], v.dimensionality) {
            Ok(f) => f,
            Err(e) => {
                proof {
                    if forall|jj: int|
                        0 <= jj < v.batches@.len() ==> (#[trigger] v.batches@[jj])@.len() > 0
                            && (forall|i: int|
                            0 <= i < v.batches@[jj]@.len() ==> (
                            #[trigger] v.batches@[jj]@[i])@.len() >= v.dimensionality) {
                        assert(v.batches@[j as int]@.len() > 0);
                    }
                }
                return Err(e);
            },
        };
        files.push(file);
        j = j + 1;
    }
    proof {
        let want = Seq::new(
            v.batches@.len(),
            |jj: int|
                arrow_ipc_bytes(
                    tag_spec(elem),
                    columns_spec(v.batches@[jj].deep_view(), elem.width_spec()),
                    v.dimensionality as nat,
                ),
        );
        assert forall|ii: int| 0 <= ii < v.batches@.len() implies files.deep_view()[ii]
            == want[ii] by {
            assert(files@[ii].deep_view() =~= files@[ii]@);
        }
        assert(files.deep_view() =~= want);
    }
    Ok(files)
}

/// Converts one dataset: the base file, the query file, and optionally the
/// ground-truth file, batching records by `batch_size` and cross-checking
/// the query file's record count against the ground truth's query count.
/// All integrity checks run before anything is rendered, so a malformed or
/// disagreeing input is always rejected with its own error.  On acceptable
/// inputs success is owed, with one exception: a ground-truth file declaring
/// zero queries, whose batch of no columns the columnar writer refuses.
pub fn convert_dataset(
    base: &Vec<u8>,
    query: &Vec<u8>,
    ground: Option<&Vec<u8>>,
    elem: ElemType,
    batch_size: usize,
    out_dir: &str,
) -> (r: Result<ConversionOutput, ConvertError>)
    requires
        batch_size >= 1,
    ensures
        conversion_post(r, base@, query@, opt_view(ground), elem, batch_size as nat, out_dir@),
{
    let vb = match read_vector_file(base, elem, batch_size) {
        Ok(v) => v,
        Err(e) => {
            return Err(e);
        },
    };
    let qb = match read_vector_file(query, elem, batch_size) {
        Ok(v) => v,
        Err(e) => {
            return Err(e);
        },
    };
    let ground_out = match ground {
        Some(g) => {
            let gt = match read_ground_file(g) {
                Ok(t) => t,
                Err(e) => {
                    return Err(e);
                },
            };
            if qb.cardinality != gt.num_queries {
                proof {
                    lemma_le_value_bound(query@.subrange(0, 4));
                    lemma_le_value_bound(g@.subrange(0, 4));
                    lemma_pow256_values();
                }
                return Err(ConvertError::QueryCountMismatch {
                    queries: qb.cardinality as u64,
                    ground_queries: gt.num_queries as u64,
                });
            }
            proof {
                if ground_queries(g@) >= 1 {
                    lemma_reshape_aligns(
                        neighbors_flat(g@),
                        ground_queries(g@),
                        ground_k(g@),
                    );
                    lemma_reshape_aligns(
                        distances_flat(g@),
                        ground_queries(g@),
                        ground_k(g@),
                    );
                    assert(gt.neighbor_rows@.len() == ground_queries(g@));
                    assert(gt.distance_rows@.len() == ground_queries(g@));
                    assert forall|i: int| 0 <= i < gt.neighbor_rows@.len() implies (
                    #[trigger] gt.neighbor_rows@[i])@.len() >= gt.k by {
                        assert(gt.neighbor_rows.deep_view()[i].len() == ground_k(g@));
                    }
                    assert forall|i: int| 0 <= i < gt.distance_rows@.len() implies (
                    #[trigger] gt.distance_rows@[i])@.len() >= gt.k by {
                        assert(gt.distance_rows.deep_view()[i].len() == ground_k(g@));
                    }
                }
            }
            let nb = match encode_batch(ElemType::UInt32, &gt.neighbor_rows, gt.k) {
                Ok(f) => f,
                Err(e) => {
                    return Err(e);
                },
            };
            let db = match encode_batch(ElemType::Float32, &gt.distance_rows, gt.k) {
                Ok(f) => f,
                Err(e) => {
                    return Err(e);
                },
            };
            Some((nb, db))
        },
        None => None,
    };
    proof {
        lemma_batches_encodable(base@, elem, batch_size as nat);
        lemma_batches_encodable(query@, elem, batch_size as nat);
        assert forall|j: int| 0 <= j < vb.batches@.len() implies (
        #[trigger] vb.batches@[j])@.len() > 0 && (forall|i: int|
            0 <= i < vb.batches@[j]@.len() ==> (#[trigger] vb.batches@[j]@[i])@.len()
                >= vb.dimensionality) by {
            assert(vb.batches.deep_view()[j].len() == vb.batches@[j]@.len());
            assert forall|i: int| 0 <= i < vb.batches@[j]@.len() implies (
            #[trigger] vb.batches@[j]@[i])@.len() >= vb.dimensionality by {
                assert(vb.batches.deep_view()[j][i].len() == vb.batches@[j]@[i]@.len());
            }
        }
        assert forall|j: int| 0 <= j < qb.batches@.len() implies (
        #[trigger] qb.batches@[j])@.len() > 0 && (forall|i: int|
            0 <= i < qb.batches@[j]@.len() ==> (#[trigger] qb.batches@[j]@[i])@.len()
                >= qb.dimensionality) by {
            assert(qb.batches.deep_view()[j].len() == qb.batches@[j]@.len());
            assert forall|i: int| 0 <= i < qb.batches@[j]@.len() implies (
            #[trigger] qb.batches@[j]@[i])@.len() >= qb.dimensionality by {
                assert(qb.batches.deep_view()[j][i].len() == qb.batches@[j]@[i]@.len());
            }
        }
    }
    let base_files = match encode_batches(elem, &vb) {
        Ok(f) => f,
        Err(e) => {
            return Err(e);
        },
    };
    let query_files = match encode_batches(elem, &qb) {
        Ok(f) => f,
        Err(e) => {
            return Err(e);
        },
    };
    proof {
        assert(base_files.deep_view() =~= batch_images(base@, elem, batch_size as nat));
        assert(query_files.deep_view() =~= batch_images(query@, elem, batch_size as nat));
    }
    let summary = StandardData {
        data_dir: out_dir.to_owned(),
        dimensionality: vb.dimensionality,
        cardinality: vb.cardinality,
        batch_size,
        num_queries: qb.cardinality,
    };
    Ok(ConversionOutput {
        summary,
        base_batches: base_files,
        query_batches: query_files,
        ground: ground_out,
    })
}

} // verus!
