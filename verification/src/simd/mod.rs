//! Similarity scoring over memory-mapped vectors.

pub mod byte_order;
pub mod context;
pub mod dot;
pub mod ffi;
pub mod fp16;
pub mod select;
pub mod sq;

use crate::text;
use crate::text::{decimal_i64, decimal_u64};
use vstd::prelude::*;
use vstd::string::*;

verus! {

/// The similarity functions that the native side offers.
#[derive(Debug, Clone, Copy, PartialEq, Eq, Structural)]
pub enum NativeSimilarityFunctionType {
    /// Max inner product for FP16.
    Fp16MaximumInnerProduct,
    /// L2 for FP16.
    Fp16L2,
    /// Scalar quantized inner product.
    SqIp,
    /// Scalar quantized L2.
    SqL2,
}

impl NativeSimilarityFunctionType {
    /// The number under which Java names the function.
    pub open spec fn ordinal(self) -> int {
        match self {
            NativeSimilarityFunctionType::Fp16MaximumInnerProduct => 0,
            NativeSimilarityFunctionType::Fp16L2 => 1,
            NativeSimilarityFunctionType::SqIp => 2,
            NativeSimilarityFunctionType::SqL2 => 3,
        }
    }

    /// The function that Java names by `ord`.
    pub fn from_ordinal(ord: i32) -> (r: Result<Self, SimdError>)
        ensures
            match r {
                Ok(function_type) => function_type.ordinal() == ord,
                Err(e) => e == SimdError::InvalidFunctionType(ord) && !(0 <= ord <= 3),
            },
    {
        match ord {
            0 => Ok(NativeSimilarityFunctionType::Fp16MaximumInnerProduct),
            1 => Ok(NativeSimilarityFunctionType::Fp16L2),
            2 => Ok(NativeSimilarityFunctionType::SqIp),
            3 => Ok(NativeSimilarityFunctionType::SqL2),
            _ => Err(SimdError::InvalidFunctionType(ord)),
        }
    }
}

/// What can go wrong while scoring.
#[derive(Debug)]
pub enum SimdError {
    InvalidFunctionType(i32),
    NotInitialized,
    OffsetExceedsChunkSize(u64, u64),
    NoNextRegion(i32, i32, i32, usize),
    SecondPartExceedsRegion(i32, i32, i32, i32, u64),
    RegionNotFound(i32),
    AllocationFailed(usize),
    NullPointer(&'static str),
}

impl SimdError {
    /// What the message says.
    pub open spec fn text(self) -> Seq<char> {
        match self {
            SimdError::InvalidFunctionType(ord) => "Invalid native similarity function type: "@
                + text::decimal(ord as int),
            SimdError::NotInitialized => "Search context not initialized: mmapPages is empty"@,
            SimdError::OffsetExceedsChunkSize(offset, size) => "Offset ["@ + text::decimal(
                offset as int,
            ) + "] exceeds chunk size ["@ + text::decimal(size as int) + "]"@,
            SimdError::NoNextRegion(vid, region, next, total) => "Vector [vid="@ + text::decimal(
                vid as int,
            ) + "] straddles two regions ("@ + text::decimal(region as int) + " and "@
                + text::decimal(next as int)
                + "), but no next region exists. Total regions: "@ + text::decimal(total as int),
            SimdError::SecondPartExceedsRegion(vid, region, next, part, size) => "Vector [vid="@
                + text::decimal(vid as int) + "] straddles two regions ("@ + text::decimal(
                region as int,
            ) + " and "@ + text::decimal(next as int) + "), second part size="@ + text::decimal(
                part as int,
            ) + " exceeds next region size="@ + text::decimal(size as int),
            SimdError::RegionNotFound(vid) => "Mapped region for vector (vid="@ + text::decimal(
                vid as int,
            ) + ") was not found"@,
            SimdError::AllocationFailed(size) => "Failed to allocate SIMD-aligned memory of size "@
                + text::decimal(size as int),
            SimdError::NullPointer(what) => "Null pointer encountered: "@ + what@,
        }
    }

    /// The message of the error.
    pub fn message(&self) -> (message: String)
        ensures
            message@ == self.text(),
    {
        match self {
            SimdError::InvalidFunctionType(ord) => {
                let mut out = "Invalid native similarity function type: ".to_owned();
                out.append(decimal_i64(*ord as i64).as_str());
                out
            },
            SimdError::NotInitialized => {
                "Search context not initialized: mmapPages is empty".to_owned()
            },
            SimdError::OffsetExceedsChunkSize(offset, size) => {
                let mut out = "Offset [".to_owned();
                out.append(decimal_u64(*offset).as_str());
                out.append("] exceeds chunk size [");
                out.append(decimal_u64(*size).as_str());
                out.append("]");
                out
            },
            SimdError::NoNextRegion(vid, region, next, total) => {
                let mut out = straddling(*vid, *region, *next);
                out.append("), but no next region exists. Total regions: ");
                out.append(decimal_u64(*total as u64).as_str());
                out
            },
            SimdError::SecondPartExceedsRegion(vid, region, next, part, size) => {
                let mut out = straddling(*vid, *region, *next);
                out.append("), second part size=");
                out.append(decimal_i64(*part as i64).as_str());
                out.append(" exceeds next region size=");
                out.append(decimal_u64(*size).as_str());
                out
            },
            SimdError::RegionNotFound(vid) => {
                let mut out = "Mapped region for vector (vid=".to_owned();
                out.append(decimal_i64(*vid as i64).as_str());
                out.append(") was not found");
                out
            },
            SimdError::AllocationFailed(size) => {
                let mut out = "Failed to allocate SIMD-aligned memory of size ".to_owned();
                out.append(decimal_u64(*size as u64).as_str());
                out
            },
            SimdError::NullPointer(what) => {
                let mut out = "Null pointer encountered: ".to_owned();
                out.append(*what);
                out
            },
        }
    }
}

/// The part that the messages on straddling vectors share.
fn straddling(vid: i32, region: i32, next: i32) -> (out: String)
    ensures
        out@ == "Vector [vid="@ + text::decimal(vid as int) + "] straddles two regions ("@
            + text::decimal(region as int) + " and "@ + text::decimal(next as int),
{
    let mut out = "Vector [vid=".to_owned();
    out.append(decimal_i64(vid as i64).as_str());
    out.append("] straddles two regions (");
    out.append(decimal_i64(region as i64).as_str());
    out.append(" and ");
    out.append(decimal_i64(next as i64).as_str());
    out
}

/// Java numbers the function types from zero on: the half-precision ones first, and of each pair
/// the inner product first. A number is one of theirs where it is below four, and no two of
/// them have one number.
pub proof fn lemma_ordinals(ord: i32, r: Result<NativeSimilarityFunctionType, SimdError>)
    requires
        call_ensures(NativeSimilarityFunctionType::from_ordinal, (ord,), r),
    ensures
        r is Ok <==> 0 <= ord < 4,
        r is Err ==> r == Err::<NativeSimilarityFunctionType, SimdError>(
            SimdError::InvalidFunctionType(ord),
        ),
        r matches Ok(f) ==> {
            &&& f is Fp16MaximumInnerProduct <==> ord == 0
            &&& f is Fp16L2 <==> ord == 1
            &&& f is SqIp <==> ord == 2
            &&& f is SqL2 <==> ord == 3
        },
{
}

/// What is said of an error shows every number that it is of.
pub proof fn lemma_messages(error: SimdError, message: String)
    requires
        call_ensures(SimdError::message, (&error,), message),
    ensures
        match error {
            SimdError::InvalidFunctionType(ord) => message@
                == "Invalid native similarity function type: "@ + text::decimal(ord as int),
            SimdError::NotInitialized => message@
                == "Search context not initialized: mmapPages is empty"@,
            SimdError::OffsetExceedsChunkSize(offset, size) => message@ == "Offset ["@
                + text::decimal(offset as int) + "] exceeds chunk size ["@ + text::decimal(
                size as int,
            ) + "]"@,
            SimdError::NoNextRegion(vid, region, next, total) => message@ == "Vector [vid="@
                + text::decimal(vid as int) + "] straddles two regions ("@ + text::decimal(
                region as int,
            ) + " and "@ + text::decimal(next as int)
                + "), but no next region exists. Total regions: "@ + text::decimal(total as int),
            SimdError::SecondPartExceedsRegion(vid, region, next, part, size) => message@
                == "Vector [vid="@ + text::decimal(vid as int) + "] straddles two regions ("@
                + text::decimal(region as int) + " and "@ + text::decimal(next as int)
                + "), second part size="@ + text::decimal(part as int)
                + " exceeds next region size="@ + text::decimal(size as int),
            SimdError::RegionNotFound(vid) => message@ == "Mapped region for vector (vid="@
                + text::decimal(vid as int) + ") was not found"@,
            SimdError::AllocationFailed(size) => message@
                == "Failed to allocate SIMD-aligned memory of size "@ + text::decimal(size as int),
            SimdError::NullPointer(what) => message@ == "Null pointer encountered: "@ + what@,
        },
{
}

} // verus!
