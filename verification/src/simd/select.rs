//! Which implementation scores a function type on a processor.

use crate::simd::fp16::{
    Avx512Fp16L2, Avx512Fp16MaxIp, DefaultFp16SimilarityFunction, NeonFp16L2, NeonFp16MaxIp,
};
use crate::simd::sq::{
    Avx512SqSimilarityFunction, DefaultSqSimilarityFunction, NeonSqSimilarityFunction,
};
use crate::simd::NativeSimilarityFunctionType;
use vstd::prelude::*;

verus! {

/// The vector instructions that scoring can use.
#[derive(Debug, Clone, Copy, PartialEq, Eq, Structural)]
pub enum VectorInstructions {
    Avx512,
    Neon,
    Neither,
}

/// An implementation of a similarity function.
pub enum SelectedFunction {
    DefaultFp16(DefaultFp16SimilarityFunction),
    DefaultSq(DefaultSqSimilarityFunction),
    Avx512MaxIp(Avx512Fp16MaxIp),
    Avx512L2(Avx512Fp16L2),
    Avx512Sq(Avx512SqSimilarityFunction),
    NeonMaxIp(NeonFp16MaxIp),
    NeonL2(NeonFp16L2),
    NeonSq(NeonSqSimilarityFunction),
}

impl SelectedFunction {
    /// Whether scores follow the inner product; else they follow L2.
    pub open spec fn follows_inner_product(self) -> bool {
        match self {
            SelectedFunction::DefaultFp16(f) => f.is_max_ip,
            SelectedFunction::DefaultSq(f) => f.is_max_ip,
            SelectedFunction::Avx512MaxIp(_) => true,
            SelectedFunction::Avx512L2(_) => false,
            SelectedFunction::Avx512Sq(f) => f.is_max_ip,
            SelectedFunction::NeonMaxIp(_) => true,
            SelectedFunction::NeonL2(_) => false,
            SelectedFunction::NeonSq(f) => f.is_max_ip,
        }
    }

    /// Whether the implementation scores scalar quantized vectors; else it scores
    /// half-precision ones.
    pub open spec fn scores_quantized(self) -> bool {
        self is DefaultSq || self is Avx512Sq || self is NeonSq
    }

    /// The instructions that the implementation uses.
    pub open spec fn instructions(self) -> VectorInstructions {
        match self {
            SelectedFunction::DefaultFp16(_) => VectorInstructions::Neither,
            SelectedFunction::DefaultSq(_) => VectorInstructions::Neither,
            SelectedFunction::Avx512MaxIp(_) => VectorInstructions::Avx512,
            SelectedFunction::Avx512L2(_) => VectorInstructions::Avx512,
            SelectedFunction::Avx512Sq(_) => VectorInstructions::Avx512,
            SelectedFunction::NeonMaxIp(_) => VectorInstructions::Neon,
            SelectedFunction::NeonL2(_) => VectorInstructions::Neon,
            SelectedFunction::NeonSq(_) => VectorInstructions::Neon,
        }
    }
}

/// Selects the implementation of a function type for a processor.
pub fn select_similarity_function(
    function_type: NativeSimilarityFunctionType,
    instructions: VectorInstructions,
) -> (selected: SelectedFunction)
    ensures
        selected.instructions() == instructions,
        selected.follows_inner_product() == (function_type
            is Fp16MaximumInnerProduct || function_type is SqIp),
        selected.scores_quantized() == (function_type is SqIp || function_type is SqL2),
{
    match instructions {
        VectorInstructions::Avx512 => match function_type {
            NativeSimilarityFunctionType::Fp16MaximumInnerProduct => {
                SelectedFunction::Avx512MaxIp(Avx512Fp16MaxIp)
            },
            NativeSimilarityFunctionType::Fp16L2 => SelectedFunction::Avx512L2(Avx512Fp16L2),
            NativeSimilarityFunctionType::SqIp => SelectedFunction::Avx512Sq(
                Avx512SqSimilarityFunction { is_max_ip: true },
            ),
            NativeSimilarityFunctionType::SqL2 => SelectedFunction::Avx512Sq(
                Avx512SqSimilarityFunction { is_max_ip: false },
            ),
        },
        VectorInstructions::Neon => match function_type {
            NativeSimilarityFunctionType::Fp16MaximumInnerProduct => {
                SelectedFunction::NeonMaxIp(NeonFp16MaxIp)
            },
            NativeSimilarityFunctionType::Fp16L2 => SelectedFunction::NeonL2(NeonFp16L2),
            NativeSimilarityFunctionType::SqIp => SelectedFunction::NeonSq(
                NeonSqSimilarityFunction { is_max_ip: true },
            ),
            NativeSimilarityFunctionType::SqL2 => SelectedFunction::NeonSq(
                NeonSqSimilarityFunction { is_max_ip: false },
            ),
        },
        VectorInstructions::Neither => match function_type {
            NativeSimilarityFunctionType::Fp16MaximumInnerProduct => SelectedFunction::DefaultFp16(
                DefaultFp16SimilarityFunction { is_max_ip: true },
            ),
            NativeSimilarityFunctionType::Fp16L2 => SelectedFunction::DefaultFp16(
                DefaultFp16SimilarityFunction { is_max_ip: false },
            ),
            NativeSimilarityFunctionType::SqIp => SelectedFunction::DefaultSq(
                DefaultSqSimilarityFunction { is_max_ip: true },
            ),
            NativeSimilarityFunctionType::SqL2 => SelectedFunction::DefaultSq(
                DefaultSqSimilarityFunction { is_max_ip: false },
            ),
        },
    }
}

/// A function type is scored by the implementation that is made for it and for the processor:
/// half precision and scalar quantization have their own, and the inner product and L2 are
/// not mixed up.
pub proof fn lemma_selected(
    function_type: NativeSimilarityFunctionType,
    instructions: VectorInstructions,
    selected: SelectedFunction,
)
    requires
        call_ensures(select_similarity_function, (function_type, instructions), selected),
    ensures
        match (function_type, instructions) {
            (
                NativeSimilarityFunctionType::Fp16MaximumInnerProduct,
                VectorInstructions::Avx512,
            ) => selected is Avx512MaxIp,
            (NativeSimilarityFunctionType::Fp16L2, VectorInstructions::Avx512) => selected
                is Avx512L2,
            (
                NativeSimilarityFunctionType::Fp16MaximumInnerProduct,
                VectorInstructions::Neon,
            ) => selected is NeonMaxIp,
            (NativeSimilarityFunctionType::Fp16L2, VectorInstructions::Neon) => selected is NeonL2,
            (
                NativeSimilarityFunctionType::Fp16MaximumInnerProduct,
                VectorInstructions::Neither,
            ) => selected matches SelectedFunction::DefaultFp16(f) && f.is_max_ip,
            (
                NativeSimilarityFunctionType::Fp16L2,
                VectorInstructions::Neither,
            ) => selected matches SelectedFunction::DefaultFp16(f) && !f.is_max_ip,
            (
                NativeSimilarityFunctionType::SqIp,
                VectorInstructions::Avx512,
            ) => selected matches SelectedFunction::Avx512Sq(f) && f.is_max_ip,
            (
                NativeSimilarityFunctionType::SqL2,
                VectorInstructions::Avx512,
            ) => selected matches SelectedFunction::Avx512Sq(f) && !f.is_max_ip,
            (
                NativeSimilarityFunctionType::SqIp,
                VectorInstructions::Neon,
            ) => selected matches SelectedFunction::NeonSq(f) && f.is_max_ip,
            (
                NativeSimilarityFunctionType::SqL2,
                VectorInstructions::Neon,
            ) => selected matches SelectedFunction::NeonSq(f) && !f.is_max_ip,
            (
                NativeSimilarityFunctionType::SqIp,
                VectorInstructions::Neither,
            ) => selected matches SelectedFunction::DefaultSq(f) && f.is_max_ip,
            (
                NativeSimilarityFunctionType::SqL2,
                VectorInstructions::Neither,
            ) => selected matches SelectedFunction::DefaultSq(f) && !f.is_max_ip,
        },
{
}

} // verus!
