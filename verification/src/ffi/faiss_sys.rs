//! Handles of Faiss objects, and the constants of its interface.

use vstd::prelude::*;

verus! {

/// How Faiss numbers its metrics.
pub type FaissMetricType = i32;

pub const METRIC_INNER_PRODUCT: FaissMetricType = 0;
pub const METRIC_L2: FaissMetricType = 1;

pub const IO_FLAG_READ_ONLY: i32 = 1;
pub const IO_FLAG_PQ_SKIP_SDC_TABLE: i32 = 2;
pub const IO_FLAG_SKIP_PRECOMPUTE_TABLE: i32 = 16;
pub const IO_FLAG_SKIP_STORAGE: i32 = 32;

/// How Faiss numbers vectors.
pub type FaissIdx = i64;

/// The address of a `faiss::Index`, the base of float indices; zero where there is none.
#[derive(Debug, Clone, Copy, PartialEq, Eq, Structural)]
pub struct FaissIndex {
    pub address: i64,
}

/// The address of a `faiss::IndexBinary`, the base of binary indices; zero where there is none.
#[derive(Debug, Clone, Copy, PartialEq, Eq, Structural)]
pub struct FaissIndexBinary {
    pub address: i64,
}

/// The address of a `faiss::IndexIDMap`, which adds ids to an index; zero where there is none.
#[derive(Debug, Clone, Copy, PartialEq, Eq, Structural)]
pub struct FaissIndexIDMap {
    pub address: i64,
}

/// The address of a `faiss::IndexBinaryIDMap`; zero where there is none.
#[derive(Debug, Clone, Copy, PartialEq, Eq, Structural)]
pub struct FaissIndexBinaryIDMap {
    pub address: i64,
}

/// The address of a `faiss::IndexHNSW`; zero where there is none.
#[derive(Debug, Clone, Copy, PartialEq, Eq, Structural)]
pub struct FaissIndexHNSW {
    pub address: i64,
}

/// The address of a `faiss::IndexIVF`, the base of IVF indices; zero where there is none.
#[derive(Debug, Clone, Copy, PartialEq, Eq, Structural)]
pub struct FaissIndexIVF {
    pub address: i64,
}

/// The address of a `faiss::IndexIVFPQ`; zero where there is none.
#[derive(Debug, Clone, Copy, PartialEq, Eq, Structural)]
pub struct FaissIndexIVFPQ {
    pub address: i64,
}

/// The address of a `faiss::IndexIVFFlat`; zero where there is none.
#[derive(Debug, Clone, Copy, PartialEq, Eq, Structural)]
pub struct FaissIndexIVFFlat {
    pub address: i64,
}

/// The address of a `faiss::IOReader`; zero where there is none.
#[derive(Debug, Clone, Copy, PartialEq, Eq, Structural)]
pub struct FaissIOReader {
    pub address: i64,
}

/// The address of a `faiss::IOWriter`; zero where there is none.
#[derive(Debug, Clone, Copy, PartialEq, Eq, Structural)]
pub struct FaissIOWriter {
    pub address: i64,
}

/// The address of a `faiss::VectorIOReader`, which reads from memory; zero where there is none.
#[derive(Debug, Clone, Copy, PartialEq, Eq, Structural)]
pub struct FaissVectorIOReader {
    pub address: i64,
}

/// The address of a `faiss::VectorIOWriter`, which writes to memory; zero where there is none.
#[derive(Debug, Clone, Copy, PartialEq, Eq, Structural)]
pub struct FaissVectorIOWriter {
    pub address: i64,
}

/// The address of a `faiss::SearchParameters`; zero where there is none.
#[derive(Debug, Clone, Copy, PartialEq, Eq, Structural)]
pub struct FaissSearchParameters {
    pub address: i64,
}

/// The address of a `faiss::SearchParametersHNSW`; zero where there is none.
#[derive(Debug, Clone, Copy, PartialEq, Eq, Structural)]
pub struct FaissSearchParametersHNSW {
    pub address: i64,
}

/// The address of a `faiss::SearchParametersIVF`; zero where there is none.
#[derive(Debug, Clone, Copy, PartialEq, Eq, Structural)]
pub struct FaissSearchParametersIVF {
    pub address: i64,
}

/// The address of a `faiss::IDSelector`; zero where there is none.
#[derive(Debug, Clone, Copy, PartialEq, Eq, Structural)]
pub struct FaissIDSelector {
    pub address: i64,
}

/// The address of a `faiss::RangeSearchResult`; zero where there is none.
#[derive(Debug, Clone, Copy, PartialEq, Eq, Structural)]
pub struct FaissRangeSearchResult {
    pub address: i64,
}

impl FaissIndex {
    /// Whether there is none.
    pub fn is_null(self) -> (null: bool)
        ensures
            null == (self.address == 0),
    {
        self.address == 0
    }
}

impl FaissIndexBinary {
    /// Whether there is none.
    pub fn is_null(self) -> (null: bool)
        ensures
            null == (self.address == 0),
    {
        self.address == 0
    }
}

impl FaissIndexIDMap {
    /// Whether there is none.
    pub fn is_null(self) -> (null: bool)
        ensures
            null == (self.address == 0),
    {
        self.address == 0
    }
}

impl FaissIndexBinaryIDMap {
    /// Whether there is none.
    pub fn is_null(self) -> (null: bool)
        ensures
            null == (self.address == 0),
    {
        self.address == 0
    }
}

impl FaissIOReader {
    /// Whether there is none.
    pub fn is_null(self) -> (null: bool)
        ensures
            null == (self.address == 0),
    {
        self.address == 0
    }
}

impl FaissIndexIVFPQ {
    /// Whether there is none.
    pub fn is_null(self) -> (null: bool)
        ensures
            null == (self.address == 0),
    {
        self.address == 0
    }
}

impl FaissIndexIDMap {
    /// The same object as an index.
    pub fn as_index(self) -> (index: FaissIndex)
        ensures
            index.address == self.address,
    {
        FaissIndex { address: self.address }
    }
}

impl FaissIndexBinaryIDMap {
    /// The same object as a binary index.
    pub fn as_index_binary(self) -> (index: FaissIndexBinary)
        ensures
            index.address == self.address,
    {
        FaissIndexBinary { address: self.address }
    }
}

/// There is no object where the address is zero, whatever the object is, and there is one elsewhere;
/// and an id map seen as an index is the same object.
pub proof fn lemma_objects_at_addresses(
    address: i64,
    index: bool,
    binary: bool,
    id_map: bool,
    binary_id_map: bool,
    reader: bool,
    ivfpq: bool,
    as_index: FaissIndex,
    as_binary: FaissIndexBinary,
)
    requires
        call_ensures(FaissIndex::is_null, (FaissIndex { address },), index),
        call_ensures(FaissIndexBinary::is_null, (FaissIndexBinary { address },), binary),
        call_ensures(FaissIndexIDMap::is_null, (FaissIndexIDMap { address },), id_map),
        call_ensures(
            FaissIndexBinaryIDMap::is_null,
            (FaissIndexBinaryIDMap { address },),
            binary_id_map,
        ),
        call_ensures(FaissIOReader::is_null, (FaissIOReader { address },), reader),
        call_ensures(FaissIndexIVFPQ::is_null, (FaissIndexIVFPQ { address },), ivfpq),
        call_ensures(FaissIndexIDMap::as_index, (FaissIndexIDMap { address },), as_index),
        call_ensures(
            FaissIndexBinaryIDMap::as_index_binary,
            (FaissIndexBinaryIDMap { address },),
            as_binary,
        ),
    ensures
        address == 0 ==> index && binary && id_map && binary_id_map && reader && ivfpq,
        address != 0 ==> !index && !binary && !id_map && !binary_id_map && !reader && !ivfpq,
        as_index.address == address,
        as_binary.address == address,
{
}

} // verus!
