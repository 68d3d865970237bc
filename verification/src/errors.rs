use vstd::prelude::*;

verus! {

/// Why a conversion was aborted.  Every failure is fatal for the conversion
/// that raised it; there is no retry or local recovery anywhere.
#[derive(Clone, Copy, Debug, PartialEq, Eq, Structural)]
pub enum ConvertError {
    /// The byte stream ended inside a header or inside a record: fewer bytes
    /// remained than one full read needs (a clean end exactly at a record
    /// boundary is not a truncation).
    TruncatedRead,
    /// One scalar was decoded from a slice whose length is not exactly the
    /// element width.
    Decode { width: usize, len: usize },
    /// The record count declared in a vector file header differs from the
    /// number of complete records present in the file.
    CardinalityMismatch { expected: u64, actual: u64 },
    /// The neighbor-index run and the distance run of a ground-truth file
    /// differ in length.
    ShapeMismatch { neighbors: usize, distances: usize },
    /// The converted query file and the ground-truth file disagree on the
    /// number of queries.
    QueryCountMismatch { queries: u64, ground_queries: u64 },
    /// The columnar writer failed to produce a file image.
    IoWrite,
}

} // verus!
