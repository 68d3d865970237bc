//! Conversion of raw approximate-nearest-neighbor benchmark datasets into a
//! standardized, batched columnar representation.
//!
//! A raw vector file is a header of two little-endian `u32` values (record
//! count and dimensionality) followed by fixed-width records; a ground-truth
//! file is a header (query count and neighbors-per-query) followed by a flat
//! run of neighbor indices and a flat run of distances.  The library decodes
//! these byte layouts, validates the declared counts against the bytes
//! actually present, partitions records into bounded batches, and renders
//! each batch as a columnar file image.  Reading the raw files and writing
//! the produced images to disk is left to the caller.

pub mod dataset;
pub mod elem;
pub mod errors;
pub mod ground;
pub mod ipc;
pub mod vectors;
