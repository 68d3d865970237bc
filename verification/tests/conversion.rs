use ann_prepare::dataset::{convert_dataset, Dataset};
use ann_prepare::elem::{decode_element, encode_element, ElemType};
use ann_prepare::errors::ConvertError;
use ann_prepare::ground::read_ground_file;
use ann_prepare::ipc::encode_batch;
use ann_prepare::vectors::read_vector_file;
use arrow::array::{Float32Array, UInt32Array, UInt8Array};
use arrow::ipc::reader::FileReader;

/// Builds a vector file: two little-endian `u32` header words, then payload.
fn vector_file(cardinality: u32, dimensionality: u32, payload: &[u8]) -> Vec<u8> {
    let mut data = Vec::new();
    data.extend_from_slice(&cardinality.to_le_bytes());
    data.extend_from_slice(&dimensionality.to_le_bytes());
    data.extend_from_slice(payload);
    data
}

/// Builds a ground-truth file: header, neighbor indices, distances.
fn ground_file(queries: u32, k: u32, neighbors: &[u32], distances: &[f32]) -> Vec<u8> {
    let mut data = Vec::new();
    data.extend_from_slice(&queries.to_le_bytes());
    data.extend_from_slice(&k.to_le_bytes());
    for n in neighbors {
        data.extend_from_slice(&n.to_le_bytes());
    }
    for d in distances {
        data.extend_from_slice(&d.to_le_bytes());
    }
    data
}

#[test]
fn element_widths() {
    assert_eq!(ElemType::Int8.width(), 1);
    assert_eq!(ElemType::UInt8.width(), 1);
    assert_eq!(ElemType::Int16.width(), 2);
    assert_eq!(ElemType::UInt16.width(), 2);
    assert_eq!(ElemType::Int32.width(), 4);
    assert_eq!(ElemType::UInt32.width(), 4);
    assert_eq!(ElemType::Int64.width(), 8);
    assert_eq!(ElemType::UInt64.width(), 8);
    assert_eq!(ElemType::Float32.width(), 4);
    assert_eq!(ElemType::Float64.width(), 8);
}

#[test]
fn decode_little_endian_exact() {
    assert_eq!(decode_element(ElemType::UInt16, &vec![0x34, 0x12]), Ok(0x1234));
    assert_eq!(
        decode_element(ElemType::UInt32, &vec![0x78, 0x56, 0x34, 0x12]),
        Ok(0x1234_5678)
    );
    assert_eq!(decode_element(ElemType::UInt8, &vec![0xff]), Ok(0xff));
}

#[test]
fn decode_rejects_wrong_width() {
    assert_eq!(
        decode_element(ElemType::UInt32, &vec![1, 2]),
        Err(ConvertError::Decode { width: 4, len: 2 })
    );
    assert_eq!(
        decode_element(ElemType::UInt8, &vec![]),
        Err(ConvertError::Decode { width: 1, len: 0 })
    );
}

#[test]
fn scalar_round_trip_integers() {
    for v in [0u64, 1, 0x1234, 0xffff, 0x1234_5678_9abc_def0] {
        for elem in [ElemType::UInt16, ElemType::UInt32, ElemType::UInt64] {
            let width = elem.width() as u32;
            if width < 8 && v >= 1u64 << (8 * width) {
                continue;
            }
            let bytes = encode_element(elem, v);
            assert_eq!(decode_element(elem, &bytes), Ok(v));
        }
    }
}

#[test]
fn scalar_round_trip_float_bits() {
    let x: f32 = 1.5;
    let bytes = x.to_le_bytes().to_vec();
    let decoded = decode_element(ElemType::Float32, &bytes).unwrap();
    assert_eq!(decoded, x.to_bits() as u64);
    let encoded = encode_element(ElemType::Float32, decoded);
    assert_eq!(encoded, bytes);
    assert_eq!(f32::from_bits(decoded as u32), 1.5);
}

#[test]
fn three_records_two_dims_two_batches() {
    let data = vector_file(3, 2, &[1, 2, 3, 4, 5, 6]);
    let v = read_vector_file(&data, ElemType::UInt8, 2).unwrap();
    assert_eq!(v.cardinality, 3);
    assert_eq!(v.dimensionality, 2);
    assert_eq!(v.batches.len(), 2);
    assert_eq!(v.batches[0], vec![vec![1u64, 2], vec![3, 4]]);
    assert_eq!(v.batches[1], vec![vec![5u64, 6]]);
}

#[test]
fn batch_size_one_covers_all_records() {
    let data = vector_file(3, 2, &[1, 2, 3, 4, 5, 6]);
    let v = read_vector_file(&data, ElemType::UInt8, 1).unwrap();
    assert_eq!(v.batches.len(), 3);
    let flat: Vec<Vec<u64>> = v.batches.into_iter().flatten().collect();
    assert_eq!(flat, vec![vec![1u64, 2], vec![3, 4], vec![5, 6]]);
}

#[test]
fn batch_size_beyond_cardinality_covers_all_records() {
    let data = vector_file(3, 2, &[1, 2, 3, 4, 5, 6]);
    let v = read_vector_file(&data, ElemType::UInt8, 100).unwrap();
    assert_eq!(v.batches.len(), 1);
    assert_eq!(v.batches[0], vec![vec![1u64, 2], vec![3, 4], vec![5, 6]]);
}

#[test]
fn wider_elements_decode_in_file_order() {
    let mut payload = Vec::new();
    for v in [100u16, 200, 300, 400] {
        payload.extend_from_slice(&v.to_le_bytes());
    }
    let data = vector_file(2, 2, &payload);
    let v = read_vector_file(&data, ElemType::UInt16, 10).unwrap();
    assert_eq!(v.batches[0], vec![vec![100u64, 200], vec![300, 400]]);
}

#[test]
fn truncated_trailing_record_is_rejected() {
    // Two records of two bytes declared, but the second record has one byte.
    let data = vector_file(2, 2, &[1, 2, 3]);
    assert_eq!(
        read_vector_file(&data, ElemType::UInt8, 2),
        Err(ConvertError::TruncatedRead)
    );
}

#[test]
fn truncated_header_is_rejected() {
    let data = vec![1, 0, 0];
    assert_eq!(
        read_vector_file(&data, ElemType::UInt8, 2),
        Err(ConvertError::TruncatedRead)
    );
}

#[test]
fn cardinality_mismatch_cites_both_counts() {
    // Header declares ten records; only eight are present.
    let data = vector_file(10, 1, &[0, 1, 2, 3, 4, 5, 6, 7]);
    assert_eq!(
        read_vector_file(&data, ElemType::UInt8, 4),
        Err(ConvertError::CardinalityMismatch { expected: 10, actual: 8 })
    );
}

#[test]
fn surplus_records_are_a_cardinality_mismatch() {
    let data = vector_file(1, 1, &[7, 8, 9]);
    assert_eq!(
        read_vector_file(&data, ElemType::UInt8, 4),
        Err(ConvertError::CardinalityMismatch { expected: 1, actual: 3 })
    );
}

#[test]
fn ground_truth_reshapes_and_aligns() {
    let neighbors = [10u32, 11, 12, 13, 14, 15];
    let distances = [0.5f32, 1.5, 2.5, 3.5, 4.5, 5.5];
    let data = ground_file(2, 3, &neighbors, &distances);
    let g = read_ground_file(&data).unwrap();
    assert_eq!(g.num_queries, 2);
    assert_eq!(g.k, 3);
    assert_eq!(g.neighbor_rows, vec![vec![10u64, 11, 12], vec![13, 14, 15]]);
    let bits: Vec<Vec<u64>> = distances
        .chunks(3)
        .map(|row| row.iter().map(|d| d.to_bits() as u64).collect())
        .collect();
    assert_eq!(g.distance_rows, bits);
}

#[test]
fn ground_truth_truncated_distances_rejected() {
    let neighbors = [10u32, 11, 12, 13, 14, 15];
    let distances = [0.5f32, 1.5, 2.5];
    let data = ground_file(2, 3, &neighbors, &distances);
    assert_eq!(read_ground_file(&data), Err(ConvertError::TruncatedRead));
}

#[test]
fn batch_image_is_a_readable_arrow_file() {
    let rows = vec![vec![1u64, 2], vec![3, 4]];
    let image = encode_batch(ElemType::UInt8, &rows, 2).unwrap();
    // The image is a real IPC file, not the raw column bytes handed in.
    assert_eq!(&image[0..6], b"ARROW1");
    let reader = FileReader::try_new(std::io::Cursor::new(image), None).unwrap();
    let batches: Vec<_> = reader.map(|b| b.unwrap()).collect();
    assert_eq!(batches.len(), 1);
    let batch = &batches[0];
    assert_eq!(batch.num_columns(), 2);
    assert_eq!(batch.schema().field(0).name(), "0");
    assert_eq!(batch.schema().field(1).name(), "1");
    let col0 = batch.column(0).as_any().downcast_ref::<UInt8Array>().unwrap();
    let col1 = batch.column(1).as_any().downcast_ref::<UInt8Array>().unwrap();
    assert_eq!(col0.values().to_vec(), vec![1u8, 2]);
    assert_eq!(col1.values().to_vec(), vec![3u8, 4]);
}

#[test]
fn empty_batch_cannot_be_rendered() {
    let rows: Vec<Vec<u64>> = Vec::new();
    assert_eq!(encode_batch(ElemType::UInt8, &rows, 0), Err(ConvertError::IoWrite));
}

#[test]
fn convert_dataset_end_to_end() {
    let base = vector_file(3, 2, &[1, 2, 3, 4, 5, 6]);
    let query = vector_file(2, 2, &[9, 8, 7, 6]);
    let ground = ground_file(2, 2, &[0, 1, 2, 0], &[0.25, 0.75, 1.25, 1.75]);
    let out = convert_dataset(&base, &query, Some(&ground), ElemType::UInt8, 2, "out/test")
        .unwrap();
    assert_eq!(out.summary.cardinality, 3);
    assert_eq!(out.summary.dimensionality, 2);
    assert_eq!(out.summary.num_queries, 2);
    assert_eq!(out.summary.batch_size, 2);
    assert_eq!(out.summary.data_dir, "out/test");
    assert_eq!(out.base_batches.len(), 2);
    assert_eq!(out.query_batches.len(), 1);
    let (neighbors_image, distances_image) = out.ground.unwrap();

    let reader = FileReader::try_new(std::io::Cursor::new(neighbors_image), None).unwrap();
    let batch = reader.map(|b| b.unwrap()).next().unwrap();
    assert_eq!(batch.num_columns(), 2);
    let row0 = batch.column(0).as_any().downcast_ref::<UInt32Array>().unwrap();
    let row1 = batch.column(1).as_any().downcast_ref::<UInt32Array>().unwrap();
    assert_eq!(row0.values().to_vec(), vec![0u32, 1]);
    assert_eq!(row1.values().to_vec(), vec![2u32, 0]);

    let reader = FileReader::try_new(std::io::Cursor::new(distances_image), None).unwrap();
    let batch = reader.map(|b| b.unwrap()).next().unwrap();
    let row0 = batch.column(0).as_any().downcast_ref::<Float32Array>().unwrap();
    let row1 = batch.column(1).as_any().downcast_ref::<Float32Array>().unwrap();
    assert_eq!(row0.values().to_vec(), vec![0.25f32, 0.75]);
    assert_eq!(row1.values().to_vec(), vec![1.25f32, 1.75]);
}

#[test]
fn query_count_mismatch_cites_both_counts() {
    let base = vector_file(1, 1, &[1]);
    let query = vector_file(2, 1, &[1, 2]);
    let ground = ground_file(3, 1, &[0, 1, 2], &[0.5, 1.5, 2.5]);
    assert_eq!(
        convert_dataset(&base, &query, Some(&ground), ElemType::UInt8, 1, "out"),
        Err(ConvertError::QueryCountMismatch { queries: 2, ground_queries: 3 })
    );
}

#[test]
fn malformed_base_file_aborts_whole_conversion() {
    let base = vector_file(2, 2, &[1, 2, 3]);
    let query = vector_file(1, 2, &[1, 2]);
    let r = convert_dataset(&base, &query, None, ElemType::UInt8, 1, "out");
    assert_eq!(r.map(|_| ()), Err(ConvertError::TruncatedRead));
}

#[test]
fn dataset_names_and_lookup() {
    let names = Dataset::names();
    assert_eq!(
        names,
        ["bigann", "fb_ssnnpp", "msft_spacev", "msft_turing", "yandex_deep"]
    );
    assert_eq!(Dataset::from_name("bigann"), Some(Dataset::BigAnn));
    assert_eq!(Dataset::from_name("fb_ssnnpp"), Some(Dataset::FbSSNpp));
    assert_eq!(Dataset::from_name("msft_spacev"), Some(Dataset::MsftSpaceV));
    assert_eq!(Dataset::from_name("msft_turing"), Some(Dataset::MsftTuring));
    assert_eq!(Dataset::from_name("yandex_deep"), Some(Dataset::YandexDeep));
    assert_eq!(Dataset::from_name("unknown"), None);
    assert_eq!(Dataset::from_name(""), None);
}

#[test]
fn dataset_table() {
    assert_eq!(Dataset::BigAnn.elem_type(), ElemType::UInt8);
    assert_eq!(Dataset::MsftSpaceV.elem_type(), ElemType::Int8);
    assert_eq!(Dataset::MsftTuring.elem_type(), ElemType::Float32);
    assert_eq!(Dataset::BigAnn.default_batch_size(), 10_000_000);
    assert_eq!(Dataset::YandexDeep.default_batch_size(), 1_000_000);
    assert_eq!(Dataset::BigAnn.base_file_name(), "bigann-1b.u8bin");
    assert_eq!(Dataset::BigAnn.query_file_name(), "bigann-query.u8bin");
    assert_eq!(Dataset::BigAnn.ground_file_name(), "bigann-ground.bin");
    assert_eq!(Dataset::FbSSNpp.ground_file_name(), "fb_ssnpp-ground.rangeres");
    assert_eq!(Dataset::MsftTuring.dir_name(), "msft_turing");
    assert!(Dataset::BigAnn.has_knn_ground());
    assert!(!Dataset::FbSSNpp.has_knn_ground());
}

#[test]
fn convert_bigann_entry_point() {
    let base = vector_file(2, 1, &[5, 6]);
    let query = vector_file(1, 1, &[7]);
    let ground = ground_file(1, 2, &[0, 1], &[0.5, 1.5]);
    let out = Dataset::convert_bigann(&base, &query, &ground, "std/bigann").unwrap();
    assert_eq!(out.summary.cardinality, 2);
    assert_eq!(out.summary.num_queries, 1);
    assert_eq!(out.base_batches.len(), 1);
    assert!(out.ground.is_some());
}

#[test]
fn convert_fb_ssnpp_skips_ground_truth() {
    let base = vector_file(1, 1, &[1]);
    let query = vector_file(1, 1, &[2]);
    let out = Dataset::convert_fb_ssnpp(&base, &query, "std/fb_ssnpp").unwrap();
    assert!(out.ground.is_none());
}

#[test]
fn empty_file_of_zero_records() {
    let data = vector_file(0, 3, &[]);
    let v = read_vector_file(&data, ElemType::UInt8, 2).unwrap();
    assert_eq!(v.cardinality, 0);
    assert_eq!(v.dimensionality, 3);
    assert_eq!(v.batches.len(), 0);
}

#[test]
fn float64_records_decode_as_bit_patterns() {
    let mut payload = Vec::new();
    let values = [1.25f64, -2.5];
    for v in values {
        payload.extend_from_slice(&v.to_le_bytes());
    }
    let data = vector_file(1, 2, &payload);
    let v = read_vector_file(&data, ElemType::Float64, 1).unwrap();
    assert_eq!(v.batches[0][0], vec![values[0].to_bits(), values[1].to_bits()]);
}

#[test]
fn ground_with_zero_queries_cannot_be_rendered() {
    // A ground-truth file declaring zero queries yields a neighbors batch of
    // no columns at all, which the columnar writer refuses.
    let base = vector_file(1, 1, &[1]);
    let query = vector_file(0, 1, &[]);
    let ground = ground_file(0, 3, &[], &[]);
    assert_eq!(
        convert_dataset(&base, &query, Some(&ground), ElemType::UInt8, 1, "out").map(|_| ()),
        Err(ConvertError::IoWrite)
    );
}

#[test]
fn valid_inputs_always_convert() {
    // Success is owed on acceptable inputs: a one-record dataset with one
    // ground-truth query converts without any error.
    let base = vector_file(1, 3, &[1, 2, 3]);
    let query = vector_file(1, 3, &[4, 5, 6]);
    let ground = ground_file(1, 1, &[0], &[0.0]);
    let out = convert_dataset(&base, &query, Some(&ground), ElemType::UInt8, 7, "out").unwrap();
    assert_eq!(out.base_batches.len(), 1);
    assert_eq!(out.query_batches.len(), 1);
    assert!(out.ground.is_some());
}
