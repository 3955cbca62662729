use knn_jni_rs::simd::byte_order::{push_number, read_number, ByteOrder};
use knn_jni_rs::simd::context::{
    alignment_gap, binary_code_bytes, page_table, simd_rounded_size, DistanceComputerChange,
    SimdVectorSearchContext, VectorLocation,
};
use knn_jni_rs::simd::dot::{default_4bit_dot_product_batch, int4_bit_dot_product};
use knn_jni_rs::simd::ffi::{FaissDistanceComputer, FaissSQDistanceComputer};
use knn_jni_rs::simd::fp16::{
    f16_to_f32_bits, plan_lanes, Avx512Fp16MaxIp, DefaultFp16SimilarityFunction,
    Fp16SimilarityFunction, NeonFp16L2, NeonFp16MaxIp,
};
use knn_jni_rs::simd::select::{SelectedFunction, VectorInstructions};
use knn_jni_rs::simd::sq::{
    read_data_corrections, Avx512SqSimilarityFunction, DefaultSqSimilarityFunction,
    NeonSqSimilarityFunction, QueryCorrections, SqSimilarityFunction,
};
use knn_jni_rs::simd::{NativeSimilarityFunctionType, SimdError};

#[test]
fn test_native_similarity_function_type_from_ordinal() {
    assert_eq!(
        NativeSimilarityFunctionType::from_ordinal(0).unwrap(),
        NativeSimilarityFunctionType::Fp16MaximumInnerProduct
    );
    assert_eq!(
        NativeSimilarityFunctionType::from_ordinal(1).unwrap(),
        NativeSimilarityFunctionType::Fp16L2
    );
    assert_eq!(
        NativeSimilarityFunctionType::from_ordinal(2).unwrap(),
        NativeSimilarityFunctionType::SqIp
    );
    assert_eq!(
        NativeSimilarityFunctionType::from_ordinal(3).unwrap(),
        NativeSimilarityFunctionType::SqL2
    );
    assert!(NativeSimilarityFunctionType::from_ordinal(99).is_err());
}

#[test]
fn test_int4_bit_dot_product_basic() {
    let q = vec![0u8; 32];
    let d = vec![0u8; 8];
    let result = int4_bit_dot_product(&q, &d, 8);
    assert_eq!(result, 0);

    let mut q2 = vec![0u8; 32];
    for i in 0..8 {
        q2[i] = 0xFF;
    }
    let d2 = vec![0xFFu8; 8];
    let result2 = int4_bit_dot_product(&q2, &d2, 8);
    assert_eq!(result2, 64);
}

#[test]
fn test_read_data_corrections() {
    let mut data: Vec<u8> = Vec::new();
    let lower: f32 = 1.0;
    let upper: f32 = 3.0;
    let additional: f32 = 5.0;
    let comp_sum: i32 = 7;
    data.extend_from_slice(&lower.to_ne_bytes());
    data.extend_from_slice(&upper.to_ne_bytes());
    data.extend_from_slice(&additional.to_ne_bytes());
    data.extend_from_slice(&comp_sum.to_ne_bytes());
    assert_eq!(data.len(), 16);

    let corrections = read_data_corrections(ByteOrder::native(), &data, 0);
    let ax = f32::from_bits(corrections.lower_interval_bits);
    let lx = f32::from_bits(corrections.upper_interval_bits) - ax;
    let add = f32::from_bits(corrections.additional_correction_bits);
    let x1 = corrections.quantized_component_sum as f32;
    assert_eq!(ax, 1.0);
    assert_eq!(lx, 2.0);
    assert_eq!(add, 5.0);
    assert_eq!(x1, 7.0);
}

#[test]
fn test_simd_vector_search_context_single_page() {
    let mut data = vec![0u8; 1024];
    for i in 0..1024 {
        data[i] = (i % 256) as u8;
    }

    let mut ctx = SimdVectorSearchContext::default();
    ctx.one_vector_byte_size = 16;
    ctx.mmap_pages = vec![&data];
    ctx.mmap_page_sizes = vec![1024];

    let first = ctx.get_vector_pointer(0).unwrap();
    assert_eq!(first, VectorLocation::Page { page: 0, offset: 0 });
    assert_eq!(ctx.vector_bytes(first).as_ptr(), data.as_ptr());

    let third = ctx.get_vector_pointer(2).unwrap();
    assert_eq!(third, VectorLocation::Page { page: 0, offset: 32 });
    assert_eq!(ctx.vector_bytes(third).as_ptr(), data[32..].as_ptr());
}

#[test]
fn errors_of_scoring_are_described() {
    assert_eq!(
        NativeSimilarityFunctionType::from_ordinal(-1).unwrap_err().message(),
        "Invalid native similarity function type: -1"
    );
    assert_eq!(
        SimdError::AllocationFailed(64).message(),
        "Failed to allocate SIMD-aligned memory of size 64"
    );
    assert_eq!(SimdError::NullPointer("query").message(), "Null pointer encountered: query");
}

fn paged<'a>(pages: Vec<&'a [u8]>, size: i64) -> SimdVectorSearchContext<'a> {
    let mut ctx = SimdVectorSearchContext::default();
    let mut total = 0;
    for page in &pages {
        total += page.len() as i64;
        ctx.mmap_page_sizes.push(total);
    }
    ctx.mmap_pages = pages;
    ctx.one_vector_byte_size = size;
    ctx
}

#[test]
fn vectors_are_found_wherever_they_lie() {
    let data: Vec<u8> = (0..30).collect();
    let mut ctx = paged(vec![&data[..10], &data[10..19], &data[19..]], 4);
    for id in 0..7i32 {
        let location = ctx.get_vector_pointer(id).unwrap();
        assert!(ctx.is_in_bounds(location));
        let from = 4 * id as usize;
        assert_eq!(ctx.vector_bytes(location), &data[from..from + 4]);
    }
    assert_eq!(
        ctx.get_vector_pointer(7).unwrap_err().message(),
        "Vector [vid=7] straddles two regions (2 and 3), but no next region exists. Total regions: 3"
    );
    assert_eq!(
        ctx.get_vector_pointer(8).unwrap_err().message(),
        "Mapped region for vector (vid=8) was not found"
    );
}

#[test]
fn straddling_vectors_start_at_even_offsets() {
    let data: Vec<u8> = (0..20).collect();
    let mut ctx = paged(vec![&data[..4], &data[4..7], &data[7..]], 3);
    assert_eq!(ctx.get_vector_pointer(1).unwrap(), VectorLocation::Tmp { start: 0 });
    assert_eq!(ctx.get_vector_pointer(2).unwrap(), VectorLocation::Tmp { start: 4 });
    assert_eq!(ctx.vector_bytes(VectorLocation::Tmp { start: 4 }), &[6, 7, 8]);
}

#[test]
fn a_vector_spans_no_more_than_two_pages() {
    let data: Vec<u8> = (0..20).collect();
    let mut ctx = paged(vec![&data[..3], &data[3..4], &data[4..]], 5);
    assert_eq!(
        ctx.get_vector_pointer(0).unwrap_err().message(),
        "Vector [vid=0] straddles two regions (0 and 1), second part size=2 exceeds next region size=1"
    );
}

#[test]
fn lookups_need_pages() {
    let mut ctx = SimdVectorSearchContext::default();
    assert_eq!(
        ctx.get_vector_pointer(0).unwrap_err().message(),
        "Search context not initialized: mmapPages is empty"
    );
    let mut slots = vec![VectorLocation::Tmp { start: 7 }];
    assert!(ctx.get_vector_pointers_in_bulk(&mut slots, &[0], 1).is_err());
    assert_eq!(slots, vec![VectorLocation::Tmp { start: 7 }]);
}

#[test]
fn bulk_lookups_hold_starts_against_the_page() {
    let data = vec![0u8; 20];
    let mut ctx = paged(vec![&data], 8);
    let mut slots = vec![VectorLocation::Tmp { start: 7 }; 3];
    assert!(ctx.get_vector_pointers_in_bulk(&mut slots, &[1, 2, 9], 2).is_ok());
    assert_eq!(
        slots,
        vec![
            VectorLocation::Page { page: 0, offset: 8 },
            VectorLocation::Page { page: 0, offset: 16 },
            VectorLocation::Tmp { start: 7 },
        ]
    );
    assert!(!ctx.is_in_bounds(VectorLocation::Page { page: 0, offset: 16 }));
    assert_eq!(
        ctx.get_vector_pointers_in_bulk(&mut slots, &[0, 3], 2).unwrap_err().message(),
        "Offset [24] exceeds chunk size [20]"
    );
    assert_eq!(slots[0], VectorLocation::Page { page: 0, offset: 0 });
    assert_eq!(slots[1], VectorLocation::Page { page: 0, offset: 16 });
}

#[test]
fn a_query_is_placed_at_an_aligned_address() {
    assert_eq!(alignment_gap(0), 0);
    assert_eq!(alignment_gap(64), 0);
    assert_eq!(alignment_gap(65), 63);
    assert_eq!(alignment_gap(127), 1);
    let mut ctx = SimdVectorSearchContext::default();
    ctx.query_vector = vec![1, 2, 3];
    let mut buffer = vec![0u8; 66];
    assert_eq!(ctx.place_query(&mut buffer, 1000), 24);
    assert_eq!(buffer[23..28], [0, 1, 2, 3, 0]);
}

#[test]
fn a_query_overwrites_the_one_before() {
    let page = vec![0u8; 64];
    let mut ctx = SimdVectorSearchContext::default();
    let change = ctx
        .save_search_context(&[1, 2, 3, 4], 2, vec![&page], 0, VectorInstructions::Neither)
        .unwrap();
    assert_eq!(
        change,
        DistanceComputerChange::Replace { quantizer_type: 0, metric_type: 0 }
    );
    assert_eq!(ctx.one_vector_byte_size, 4);
    assert_eq!(ctx.mmap_page_sizes, vec![64]);
    let change = ctx
        .save_search_context(&[9, 8], 20, vec![&page, &page], 3, VectorInstructions::Avx512)
        .unwrap();
    assert_eq!(change, DistanceComputerChange::Keep);
    assert_eq!(ctx.query_vector, vec![9, 8, 3, 4]);
    assert_eq!(ctx.one_vector_byte_size, 19);
    assert_eq!(ctx.mmap_page_sizes, vec![64, 128]);
    assert!(matches!(
        ctx.similarity_function,
        Some(SelectedFunction::Avx512Sq(Avx512SqSimilarityFunction { is_max_ip: false }))
    ));
    assert_eq!(
        ctx.save_search_context(&[7], 1, vec![], 4, VectorInstructions::Neon).unwrap_err().message(),
        "Invalid native similarity function type: 4"
    );
    assert_eq!(ctx.query_vector, vec![9, 8, 3, 4]);
    assert_eq!(
        ctx.save_search_context(&[7], 1, vec![], 1, VectorInstructions::Neon).unwrap(),
        DistanceComputerChange::Replace { quantizer_type: 0, metric_type: 1 }
    );
}

#[test]
fn sizes_are_rounded() {
    assert_eq!(binary_code_bytes(8), 1);
    assert_eq!(binary_code_bytes(9), 2);
    assert_eq!(binary_code_bytes(-15), -1);
    assert_eq!(simd_rounded_size(0), 0);
    assert_eq!(simd_rounded_size(65), 128);
    assert_eq!(page_table(&[1, 2, 3, 4]), vec![(1, 2), (3, 4)]);
    assert_eq!(
        FaissDistanceComputer { address: 8 }.as_sq(),
        FaissSQDistanceComputer { address: 8 }
    );
}

fn expected_dot(q: &[u8], d: &[u8], n: usize) -> i64 {
    let mut sum = 0;
    for i in 0..8 * n {
        let bit = |bytes: &[u8]| ((bytes[i / 8] >> (i % 8)) & 1) as i64;
        let component = bit(q) + 2 * bit(&q[n..]) + 4 * bit(&q[2 * n..]) + 8 * bit(&q[3 * n..]);
        sum += component * bit(d);
    }
    sum
}

#[test]
fn both_dot_products_agree() {
    for n in [0usize, 1, 3, 8, 13, 21] {
        let q: Vec<u8> = (0..4 * n).map(|i| (i * 37 + 11) as u8).collect();
        let d: Vec<u8> = (0..n).map(|i| (i * 91 + 5) as u8).collect();
        let expected = expected_dot(&q, &d, n);
        assert_eq!(int4_bit_dot_product(&q, &d, n as i32), expected);
        assert_eq!(
            default_4bit_dot_product_batch(&q, &vec![&d, &q], n as i32),
            vec![expected, expected_dot(&q, &q, n)]
        );
    }
}

fn corrections() -> QueryCorrections {
    QueryCorrections {
        lower_interval_bits: 1.5f32.to_bits(),
        upper_interval_bits: 2.5f32.to_bits(),
        additional_correction_bits: (-0.25f32).to_bits(),
        quantized_component_sum: -3,
        centroid_dp_bits: 9.0f32.to_bits(),
    }
}

#[test]
fn query_corrections_are_read_back() {
    let mut ctx = SimdVectorSearchContext::default();
    ctx.set_sq_correction_factors(corrections());
    assert_eq!(ctx.tmp_buffer.len(), 20);
    ctx.tmp_buffer.push(77);
    assert_eq!(ctx.query_corrections(), corrections());
}

#[test]
fn a_vector_scores_alike_by_itself_and_in_bulk() {
    let dimension = 24;
    let size = 3 + 16;
    let data: Vec<u8> = (0..size * 15).map(|i| (i * 29 + 3) as u8).collect();
    let query: Vec<u8> = (0..12).map(|i| (i * 53 + 7) as u8).collect();
    let pages = vec![&data[..100], &data[100..]];
    let ids: Vec<i32> = (0..15).rev().collect();
    let mut ctx = SimdVectorSearchContext::default();
    ctx.save_search_context(&query, dimension, pages, 2, VectorInstructions::Neither).unwrap();
    ctx.set_sq_correction_factors(corrections());
    let scalar = DefaultSqSimilarityFunction { is_max_ip: true };
    let bulk = scalar.calculate_similarity_in_bulk(&mut ctx, &ids, 15).unwrap();
    assert_eq!(bulk.query, corrections());
    assert_eq!(bulk.dimension, dimension);
    assert!(bulk.is_max_ip);
    assert_eq!(bulk.terms.len(), 15);
    let wide = Avx512SqSimilarityFunction { is_max_ip: false };
    let wide_terms = wide.calculate_similarity_in_bulk(&mut ctx, &ids, 15).unwrap();
    assert!(!wide_terms.is_max_ip);
    assert_eq!(wide_terms.terms, bulk.terms);
    let neon = NeonSqSimilarityFunction { is_max_ip: true };
    for (i, &id) in ids.iter().enumerate() {
        let from = size * id as usize;
        let vector = &data[from..from + size];
        assert_eq!(bulk.terms[i].dot_product, expected_dot(&query, vector, 3));
        assert_eq!(bulk.terms[i].corrections, read_data_corrections(ByteOrder::native(), vector, 3));
        let single = neon.calculate_similarity(&mut ctx, id).unwrap();
        assert_eq!(single.terms, vec![bulk.terms[i]]);
    }
    assert_eq!(
        scalar.calculate_similarity_in_bulk(&mut ctx, &[0, 15], 2).err().unwrap().message(),
        "Mapped region for vector (vid=15) was not found"
    );
}

#[test]
fn only_full_blocks_hold_starts_against_the_page() {
    let data = vec![0u8; 64];
    let mut ctx = paged(vec![&data], 2);
    let ids = [0, 1, 2, 40];
    assert_eq!(
        NeonFp16MaxIp.locate_in_bulk(&mut ctx, &ids, 4).unwrap_err().message(),
        "Offset [80] exceeds chunk size [64]"
    );
    assert_eq!(Avx512Fp16MaxIp.locate_in_bulk(&mut ctx, &ids, 4).unwrap().len(), 4);
    assert_eq!(NeonFp16L2.locate_in_bulk(&mut ctx, &ids, 3).unwrap().len(), 3);
    let scalar = DefaultFp16SimilarityFunction { is_max_ip: true };
    assert_eq!(
        scalar.locate_in_bulk(&mut ctx, &ids, 4).unwrap()[3],
        VectorLocation::Page { page: 0, offset: 80 }
    );
}

#[test]
fn lanes_cover_the_dimensions() {
    let plan = plan_lanes(35);
    assert_eq!((plan.simd_dim, plan.tail_dim, plan.tail_mask), (32, 3, 0b111));
    let plan = plan_lanes(48);
    assert_eq!((plan.simd_dim, plan.tail_dim, plan.tail_mask), (48, 0, 0));
}

#[test]
fn half_precision_widens_exactly() {
    assert_eq!(f32::from_bits(f16_to_f32_bits(0x3c00)), 1.0);
    assert_eq!(f32::from_bits(f16_to_f32_bits(0xc000)), -2.0);
    assert_eq!(f32::from_bits(f16_to_f32_bits(0x3555)), 0.333251953125);
    assert_eq!(f32::from_bits(f16_to_f32_bits(0x7bff)), 65504.0);
    assert_eq!(f32::from_bits(f16_to_f32_bits(0x0001)), 1.0 / 16777216.0);
    assert_eq!(f32::from_bits(f16_to_f32_bits(0x83ff)), -1023.0 / 16777216.0);
    assert_eq!(f16_to_f32_bits(0x8000), 0x8000_0000);
    assert_eq!(f16_to_f32_bits(0xfc00), f32::NEG_INFINITY.to_bits());
    assert!(f32::from_bits(f16_to_f32_bits(0xfe01)).is_nan());
}

#[test]
fn a_number_lies_in_memory_in_either_order() {
    let native = if 1u16.to_ne_bytes()[0] == 1 {
        ByteOrder::LowestFirst
    } else {
        ByteOrder::HighestFirst
    };
    assert_eq!(ByteOrder::native(), native);
    assert_eq!(SimdVectorSearchContext::default().byte_order, native);
    assert_eq!(ByteOrder::of(1), ByteOrder::LowestFirst);
    assert_eq!(ByteOrder::of(256), ByteOrder::HighestFirst);

    let bytes = [9, 1, 2, 3, 4];
    assert_eq!(read_number(ByteOrder::LowestFirst, &bytes, 1), 0x0403_0201);
    assert_eq!(read_number(ByteOrder::HighestFirst, &bytes, 1), 0x0102_0304);
    for order in [ByteOrder::LowestFirst, ByteOrder::HighestFirst] {
        let mut written = vec![7];
        push_number(order, &mut written, 0xa1b2_c3d4);
        assert_eq!(written.len(), 5);
        assert_eq!(read_number(order, &written, 1), 0xa1b2_c3d4);
    }
}

#[test]
fn corrections_follow_the_order_of_the_context() {
    let corrections = QueryCorrections {
        lower_interval_bits: 1,
        upper_interval_bits: 2,
        additional_correction_bits: 3,
        quantized_component_sum: -4,
        centroid_dp_bits: 5,
    };
    let mut ctx = SimdVectorSearchContext::default();
    ctx.byte_order = ByteOrder::HighestFirst;
    ctx.set_sq_correction_factors(corrections);
    assert_eq!(&ctx.tmp_buffer[..8], &[0, 0, 0, 1, 0, 0, 0, 2]);
    assert_eq!(&ctx.tmp_buffer[12..16], &[255, 255, 255, 252]);
    assert_eq!(ctx.query_corrections(), corrections);
    ctx.byte_order = ByteOrder::LowestFirst;
    ctx.set_sq_correction_factors(corrections);
    assert_eq!(&ctx.tmp_buffer[..8], &[1, 0, 0, 0, 2, 0, 0, 0]);
    assert_eq!(ctx.query_corrections(), corrections);
}
