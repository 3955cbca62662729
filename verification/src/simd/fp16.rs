//! Half-precision scoring: which vectors a kernel reads, and how it reads them.

use crate::simd::context;
use crate::simd::context::{SimdVectorSearchContext, VectorLocation};
use crate::simd::SimdError;
use vstd::arithmetic::power2::*;
use vstd::prelude::*;

verus! {

/// Half-precision scoring by the Faiss distance computer.
pub struct DefaultFp16SimilarityFunction {
    /// Whether scores follow the inner product; else they follow L2.
    pub is_max_ip: bool,
}

/// Half-precision max inner product for processors with AVX512.
pub struct Avx512Fp16MaxIp;

/// Half-precision L2 for processors with AVX512.
pub struct Avx512Fp16L2;

/// Half-precision max inner product for processors with NEON.
pub struct NeonFp16MaxIp;

/// Half-precision L2 for processors with NEON.
pub struct NeonFp16L2;

/// How many of `n` vectors stand in full blocks; none where there are no blocks.
pub open spec fn in_full_blocks(n: int, block: int) -> int {
    if block == 0 {
        0
    } else {
        (n / block) * block
    }
}

impl<'a> SimdVectorSearchContext<'a> {
    /// Why the first `n` of `ids` cannot all be located in blocks of `block`:
    /// only a full block holds a vector's start against the size of a single
    /// page.
    pub open spec fn locating_error(&self, ids: Seq<i32>, n: nat, block: nat) -> Option<SimdError> {
        if n > 0 && self.mmap_pages@.len() == 0 {
            Some(SimdError::NotInitialized)
        } else if self.mmap_pages@.len() == 1 {
            context::first_bulk_error(
                1,
                self.mmap_page_sizes@,
                self.one_vector_byte_size as int,
                ids,
                in_full_blocks(n as int, block as int) as nat,
            )
        } else {
            context::first_bulk_error(
                self.mmap_pages@.len(),
                self.mmap_page_sizes@,
                self.one_vector_byte_size as int,
                ids,
                n,
            )
        }
    }

    /// Whether a location lies within the memory that it names.
    pub fn is_in_bounds(&self, location: VectorLocation) -> (inside: bool)
        requires
            0 <= self.one_vector_byte_size,
        ensures
            inside == self.in_bounds(location),
    {
        let size = self.one_vector_byte_size as u64;
        match location {
            VectorLocation::Page { page, offset } => {
                if page >= self.mmap_pages.len() {
                    return false;
                }
                let len = self.mmap_pages[page].len() as u64;
                offset <= len && size <= len - offset
            },
            VectorLocation::Tmp { start } => {
                let len = self.tmp_buffer.len() as u64;
                start as u64 <= len && size <= len - start as u64
            },
        }
    }

    /// Locates the first `num` of the given vectors: full blocks of `block` all at
    /// once, the others one by one.
    fn locate_in_blocks(&mut self, ids: &[i32], num: usize, block: usize) -> (r: Result<
        Vec<VectorLocation>,
        SimdError,
    >)
        requires
            old(self).can_look_up(ids@, num as int),
            num <= i32::MAX,
            block <= 8,
        ensures
            final(self).same_but_tmp(old(self)),
            final(self).grew_by(old(self), num as int),
            match old(self).locating_error(ids@, num as nat, block as nat) {
                Some(e) => r == Err::<Vec<VectorLocation>, SimdError>(e),
                None => {
                    &&& r is Ok
                    &&& r->Ok_0@.len() == num
                    &&& forall|i: int|
                        0 <= i < num ==> final(self).locates(#[trigger] r->Ok_0@[i], ids@[i])
                },
            },
    {
        let ghost size = self.one_vector_byte_size as int;
        let ghost ends = self.mmap_page_sizes@;
        let ghost pages = self.mmap_pages@.len();
        let ghost before = self.tmp_buffer@;
        let blocked: usize = if block == 0 {
            0
        } else {
            proof {
                assert(0 <= (num / block) * block <= num) by (nonlinear_arith)
                    requires
                        block > 0,
                ;
            }
            (num / block) * block
        };
        proof {
            assert(blocked * (size + 1) <= num * (size + 1)) by (nonlinear_arith)
                requires
                    blocked <= num,
                    0 <= size,
            ;
            assert(0 * (size + 1) == 0) by (nonlinear_arith);
        }
        let mut locations: Vec<VectorLocation> = Vec::new();
        if blocked > 0 {
            match self.locate_all(ids, blocked as i32) {
                Ok(found) => {
                    locations = found;
                },
                Err(e) => {
                    proof {
                        if pages > 1 {
                            context::lemma_first_bulk_error_stays(
                                pages,
                                ends,
                                size,
                                ids@,
                                blocked as nat,
                                num as nat,
                            );
                        }
                    }
                    return Err(e);
                },
            }
        }
        let mut done: usize = blocked;
        while done < num
            invariant
                blocked <= done <= num <= ids.len(),
                blocked == in_full_blocks(num as int, block as int),
                old(self).can_look_up(ids@, num as int),
                size == old(self).one_vector_byte_size,
                ends == old(self).mmap_page_sizes@,
                pages == old(self).mmap_pages@.len(),
                done > 0 ==> pages > 0,
                before == old(self).tmp_buffer@,
                self.same_but_tmp(old(self)),
                before.is_prefix_of(self.tmp_buffer@),
                self.tmp_buffer@.len() <= before.len() + done * (size + 1),
                pages <= 1 ==> self.tmp_buffer@ == before,
                pages > 1 ==> context::first_bulk_error(pages, ends, size, ids@, done as nat) is None,
                pages == 1 ==> context::first_bulk_error(
                    1,
                    ends,
                    size,
                    ids@,
                    blocked as nat,
                ) is None,
                locations@.len() == done,
                forall|k: int| 0 <= k < done ==> self.locates(#[trigger] locations@[k], ids@[k]),
            decreases num - done,
        {
            let ghost earlier = *self;
            let id = ids[done];
            proof {
                assert(done * (size + 1) + (size + 1) == (done + 1) * (size + 1))
                    by (nonlinear_arith);
                assert((done + 1) * (size + 1) <= num * (size + 1)) by (nonlinear_arith)
                    requires
                        done + 1 <= num,
                        0 <= size,
                ;
            }
            let location = match self.get_vector_pointer(id) {
                Ok(location) => location,
                Err(e) => {
                    proof {
                        if pages > 1 {
                            context::lemma_first_bulk_error_stays(
                                pages,
                                ends,
                                size,
                                ids@,
                                (done + 1) as nat,
                                num as nat,
                            );
                        }
                    }
                    return Err(e);
                },
            };
            proof {
                assert forall|k: int| 0 <= k < done implies self.locates(
                    #[trigger] locations@[k],
                    ids@[k],
                ) by {
                    earlier.lemma_locates_grown(self, locations@[k], ids@[k]);
                }
                assert(self.stored_vector(id) == old(self).stored_vector(id));
            }
            locations.push(location);
            done = done + 1;
        }
        Ok(locations)
    }
}

/// A way to score half-precision vectors.
pub trait Fp16SimilarityFunction {
    /// How many vectors are located at once; zero where each is located by itself.
    spec fn block(&self) -> nat;

    /// Locates the first `num_vectors` of the given vectors, in the order in which
    /// they are scored.
    fn locate_in_bulk(
        &self,
        srch_context: &mut SimdVectorSearchContext<'_>,
        internal_vector_ids: &[i32],
        num_vectors: i32,
    ) -> (r: Result<Vec<VectorLocation>, SimdError>)
        requires
            old(srch_context).can_look_up(internal_vector_ids@, num_vectors as int),
        ensures
            final(srch_context).same_but_tmp(old(srch_context)),
            final(srch_context).grew_by(old(srch_context), num_vectors as int),
            match old(srch_context).locating_error(
                internal_vector_ids@,
                num_vectors as nat,
                self.block(),
            ) {
                Some(e) => r == Err::<Vec<VectorLocation>, SimdError>(e),
                None => {
                    &&& r is Ok
                    &&& r->Ok_0@.len() == num_vectors
                    &&& forall|i: int|
                        0 <= i < num_vectors ==> final(srch_context).locates(
                            #[trigger] r->Ok_0@[i],
                            internal_vector_ids@[i],
                        )
                },
            },
    ;
}

impl Fp16SimilarityFunction for DefaultFp16SimilarityFunction {
    open spec fn block(&self) -> nat {
        0
    }

    /// Each vector is located by itself.
    fn locate_in_bulk(
        &self,
        srch_context: &mut SimdVectorSearchContext<'_>,
        internal_vector_ids: &[i32],
        num_vectors: i32,
    ) -> (r: Result<Vec<VectorLocation>, SimdError>) {
        srch_context.locate_in_blocks(internal_vector_ids, num_vectors as usize, 0)
    }
}

impl Fp16SimilarityFunction for Avx512Fp16MaxIp {
    open spec fn block(&self) -> nat {
        8
    }

    /// Eight vectors are located at once.
    fn locate_in_bulk(
        &self,
        srch_context: &mut SimdVectorSearchContext<'_>,
        internal_vector_ids: &[i32],
        num_vectors: i32,
    ) -> (r: Result<Vec<VectorLocation>, SimdError>) {
        srch_context.locate_in_blocks(internal_vector_ids, num_vectors as usize, 8)
    }
}

impl Fp16SimilarityFunction for Avx512Fp16L2 {
    open spec fn block(&self) -> nat {
        8
    }

    /// Eight vectors are located at once.
    fn locate_in_bulk(
        &self,
        srch_context: &mut SimdVectorSearchContext<'_>,
        internal_vector_ids: &[i32],
        num_vectors: i32,
    ) -> (r: Result<Vec<VectorLocation>, SimdError>) {
        srch_context.locate_in_blocks(internal_vector_ids, num_vectors as usize, 8)
    }
}

impl Fp16SimilarityFunction for NeonFp16MaxIp {
    open spec fn block(&self) -> nat {
        4
    }

    /// Four vectors are located at once.
    fn locate_in_bulk(
        &self,
        srch_context: &mut SimdVectorSearchContext<'_>,
        internal_vector_ids: &[i32],
        num_vectors: i32,
    ) -> (r: Result<Vec<VectorLocation>, SimdError>) {
        srch_context.locate_in_blocks(internal_vector_ids, num_vectors as usize, 4)
    }
}

impl Fp16SimilarityFunction for NeonFp16L2 {
    open spec fn block(&self) -> nat {
        0
    }

    /// Each vector is located by itself.
    fn locate_in_bulk(
        &self,
        srch_context: &mut SimdVectorSearchContext<'_>,
        internal_vector_ids: &[i32],
        num_vectors: i32,
    ) -> (r: Result<Vec<VectorLocation>, SimdError>) {
        srch_context.locate_in_blocks(internal_vector_ids, num_vectors as usize, 0)
    }
}

/// How a kernel of 16 lanes covers the dimensions: whole loads first, then one
/// masked load.
#[derive(Debug, Clone, Copy, PartialEq, Eq, Structural)]
pub struct LanePlan {
    /// The dimensions that whole loads cover.
    pub simd_dim: i32,
    /// The dimensions that are left.
    pub tail_dim: i32,
    /// The lanes that the masked load reads.
    pub tail_mask: u16,
}

/// Plans the loads of a kernel of 16 lanes.
pub fn plan_lanes(dim: i32) -> (plan: LanePlan)
    requires
        0 <= dim,
    ensures
        plan.simd_dim + plan.tail_dim == dim,
        plan.simd_dim % 16 == 0,
        0 <= plan.tail_dim < 16,
        forall|lane: u16|
            lane < 16 ==> ((plan.tail_mask >> lane) & 1 == 1 <==> lane < plan.tail_dim),
{
    let simd_dim = (dim / 16) * 16;
    let tail_dim = dim - simd_dim;
    let width = tail_dim as u16;
    let tail_mask: u16 = if tail_dim > 0 {
        let top = 1u32 << (width as u32);
        assert(1 <= 1u32 << (width as u32) <= 0x8000) by (bit_vector)
            requires
                width < 16,
        ;
        top as u16 - 1
    } else {
        0
    };
    assert forall|lane: u16| lane < 16 implies ((tail_mask >> lane) & 1 == 1 <==> lane
        < tail_dim) by {
        if tail_dim > 0 {
            assert(((((1u32 << (width as u32)) - 1) as u16 >> lane) & 1 == 1) == (lane < width))
                by (bit_vector)
                requires
                    width < 16,
                    lane < 16,
            ;
        } else {
            assert((0u16 >> lane) & 1 == 0) by (bit_vector);
        }
    }
    LanePlan { simd_dim, tail_dim, tail_mask }
}

/// `r` is the single-precision bit pattern of the number that the
/// half-precision bit pattern `bits` stands for; any NaN becomes the quiet NaN
/// without a sign.
pub open spec fn is_widened(bits: u16, r: u32) -> bool {
    let sign = bits as int / 0x8000;
    let exponent = bits as int / 0x400 % 0x20;
    let fraction = bits as int % 0x400;
    if exponent == 0 && fraction == 0 {
        r == sign * 0x8000_0000
    } else if exponent == 0 {
        // The number is fraction * 2^-24, which single precision has in normal
        // form.
        exists|k: nat|
            14 <= k <= 23 && 0x80_0000 <= #[trigger] (fraction * pow2(k)) < 0x100_0000 && r == sign
                * 0x8000_0000 + (126 - k) * 0x80_0000 + (fraction * pow2(k) - 0x80_0000)
    } else if exponent == 31 && fraction == 0 {
        r == sign * 0x8000_0000 + 0x7f80_0000
    } else if exponent == 31 {
        r == 0x7fc0_0000
    } else {
        r == sign * 0x8000_0000 + (exponent + 112) * 0x80_0000 + fraction * 0x2000
    }
}

/// Widens a half-precision number to single precision; both are bit patterns.
pub fn f16_to_f32_bits(bits: u16) -> (r: u32)
    ensures
        is_widened(bits, r),
{
    let sign = (bits / 0x8000) as u32;
    let exponent = (bits / 0x400 % 0x20) as u32;
    let fraction = (bits % 0x400) as u32;
    if exponent == 0 {
        if fraction == 0 {
            return sign * 0x8000_0000;
        }
        let mut m = fraction;
        let mut k: u32 = 0;
        proof {
            lemma2_to64();
        }
        while m < 0x80_0000
            invariant
                0 < fraction < 0x400,
                k <= 23,
                m == fraction * pow2(k as nat),
                m < 0x100_0000,
                k == 23 ==> m >= 0x80_0000,
                m >= fraction,
            decreases 0x100_0000 - m,
        {
            proof {
                lemma2_to64();
                lemma_pow2_unfold((k + 1) as nat);
                assert(fraction * (2 * pow2(k as nat)) == 2 * (fraction * pow2(k as nat)))
                    by (nonlinear_arith);
                if k + 1 == 23 {
                    assert(fraction * pow2(23) >= 0x80_0000) by (nonlinear_arith)
                        requires
                            pow2(23) == 0x80_0000,
                            fraction >= 1,
                    ;
                }
            }
            m = 2 * m;
            k = k + 1;
        }
        proof {
            lemma2_to64();
            if k < 14 {
                vstd::arithmetic::power2::lemma_pow2_strictly_increases(k as nat, 14);
                assert(fraction * pow2(k as nat) < 0x80_0000) by (nonlinear_arith)
                    requires
                        0 < fraction < 0x400,
                        0 < pow2(k as nat) <= 0x2000,
                ;
            }
        }
        return sign * 0x8000_0000 + (126 - k) * 0x80_0000 + (m - 0x80_0000);
    }
    if exponent == 31 {
        if fraction == 0 {
            return sign * 0x8000_0000 + 0x7f80_0000;
        }
        return 0x7fc0_0000;
    }
    sign * 0x8000_0000 + (exponent + 112) * 0x80_0000 + fraction * 0x2000
}

/// The size of the number that a half-precision bit pattern stands for, in units of the smallest
/// one: a power of two times a fraction, which has a leading one unless the exponent is zero.
pub open spec fn half_size(bits: u16) -> int {
    let exponent = bits as int / 0x400 % 0x20;
    let fraction = bits as int % 0x400;
    if exponent == 0 {
        fraction
    } else {
        (fraction + 0x400) * pow2((exponent - 1) as nat)
    }
}

/// The size of the number that a single-precision bit pattern stands for, in units of the
/// smallest one.
pub open spec fn single_size(bits: u32) -> int {
    let exponent = bits as int / 0x80_0000 % 0x100;
    let fraction = bits as int % 0x80_0000;
    if exponent == 0 {
        fraction
    } else {
        (fraction + 0x80_0000) * pow2((exponent - 1) as nat)
    }
}

/// Widening keeps the number: the sign is the same, and so is the size, of which the unit of
/// half precision has 2 to the power of 125 of those of single precision. What is infinite
/// stays so with its sign, and what is no number stays none.
pub proof fn lemma_widening_keeps_the_number(bits: u16, r: u32)
    requires
        call_ensures(f16_to_f32_bits, (bits,), r),
    ensures
        ({
            let exponent = bits as int / 0x400 % 0x20;
            let fraction = bits as int % 0x400;
            let wide_exponent = r as int / 0x80_0000 % 0x100;
            let wide_fraction = r as int % 0x80_0000;
            &&& exponent < 31 ==> {
                &&& single_size(r) == half_size(bits) * pow2(125)
                &&& wide_exponent < 255
            }
            &&& exponent < 31 || fraction == 0 ==> r as int / 0x8000_0000 == bits as int / 0x8000
            &&& exponent == 31 ==> wide_exponent == 255
            &&& exponent == 31 ==> (wide_fraction == 0 <==> fraction == 0)
        }),
{
    let sign = bits as int / 0x8000;
    let exponent = bits as int / 0x400 % 0x20;
    let fraction = bits as int % 0x400;
    lemma2_to64();
    if exponent == 0 && fraction == 0 {
        assert(r == sign * 0x8000_0000);
        assert(r as int / 0x80_0000 == sign * 0x100);
        assert(0 * pow2(125) == 0) by (nonlinear_arith);
    } else if exponent == 0 {
        let k = choose|k: nat|
            14 <= k <= 23 && 0x80_0000 <= #[trigger] (fraction * pow2(k)) < 0x100_0000 && r == sign
                * 0x8000_0000 + (126 - k) * 0x80_0000 + (fraction * pow2(k) - 0x80_0000);
        let f = fraction * pow2(k) - 0x80_0000;
        assert(r as int / 0x80_0000 == sign * 0x100 + (126 - k));
        assert(r as int % 0x80_0000 == f);
        let e = (125 - k) as nat;
        lemma_pow2_adds(k, e);
        assert((f + 0x80_0000) * pow2(e) == fraction * (pow2(k) * pow2(e))) by (nonlinear_arith)
            requires
                f + 0x80_0000 == fraction * pow2(k),
        ;
    } else if exponent < 31 {
        let e = (exponent - 1) as nat;
        let f = fraction * 0x2000;
        assert(r as int / 0x80_0000 == sign * 0x100 + (exponent + 112));
        assert(r as int % 0x80_0000 == f);
        let w = (exponent + 111) as nat;
        lemma_pow2_adds(e, 112);
        lemma_pow2_adds(13, 112);
        assert(pow2(13) == 0x2000);
        assert((f + 0x80_0000) * pow2(w) == (fraction + 0x400) * pow2(e) * pow2(125))
            by (nonlinear_arith)
            requires
                f + 0x80_0000 == (fraction + 0x400) * 0x2000,
                pow2(w) == pow2(e) * pow2(112),
                pow2(125) == 0x2000 * pow2(112),
        ;
    } else if fraction == 0 {
        assert(r == sign * 0x8000_0000 + 0x7f80_0000);
        assert(r as int / 0x80_0000 == sign * 0x100 + 0xff);
    } else {
        assert(r == 0x7fc0_0000);
        assert(0x7fc0_0000int / 0x80_0000 == 0xff);
    }
}

/// As many vectors stand in full blocks as blocks can be filled with.
pub proof fn lemma_full_blocks(n: int, block: int)
    requires
        0 <= n,
        0 <= block,
    ensures
        block > 0 ==> in_full_blocks(n, block) % block == 0,
        block > 0 ==> in_full_blocks(n, block) <= n < in_full_blocks(n, block) + block,
        block == 0 ==> in_full_blocks(n, block) == 0,
{
    if block > 0 {
        vstd::arithmetic::div_mod::lemma_mod_multiples_basic(n / block, block);
        assert((n / block) * block <= n < (n / block) * block + block) by (nonlinear_arith)
            requires
                block > 0,
        ;
    }
}

/// However vectors are located, each has its place under its own number, and what lies there are its
/// bytes.
pub proof fn lemma_located<F: Fp16SimilarityFunction>(
    f: &F,
    context: &mut SimdVectorSearchContext<'_>,
    ids: &[i32],
    n: i32,
    r: Result<Vec<VectorLocation>, SimdError>,
    i: int,
)
    requires
        old(context).can_look_up(ids@, n as int),
        call_ensures(F::locate_in_bulk, (f, context, ids, n), r),
        r is Ok,
        0 <= i < n,
    ensures
        r->Ok_0@.len() == n,
        old(context).mmap_pages@.len() > 0,
        ({
            let size = old(context).one_vector_byte_size;
            match r->Ok_0@[i] {
                VectorLocation::Page { page, offset } => {
                    &&& old(context).mmap_pages@.len() == 1 ==> page == 0 && offset == ids@[i]
                        * size
                    &&& old(context).mmap_pages@.len() > 1 ==> final(context).mmap_pages@[page as int]@.subrange(offset as int, offset + size)
                        == old(context).mapped().subrange(ids@[i] * size, ids@[i] * size + size)
                },
                VectorLocation::Tmp { start } => {
                    &&& old(context).mmap_pages@.len() > 1
                    &&& final(context).tmp_buffer@.subrange(start as int, start + size) == old(context).mapped().subrange(ids@[i] * size, ids@[i] * size + size)
                },
            }
        }),
{
    let size = old(context).one_vector_byte_size as int;
    let id = ids@[i] as int;
    assert(size * id == id * size) by (nonlinear_arith);
    assert(0 <= id * size <= size * (id + 1)) by (nonlinear_arith)
        requires
            0 <= id,
            0 <= size,
    ;
    assert(final(context).locates(r->Ok_0@[i], ids@[i]));
    assert(final(context).mapped() == old(context).mapped());
}

/// A location is in bounds where all its bytes lie in the memory that it names.
pub proof fn lemma_bounds_checked(
    context: &SimdVectorSearchContext<'_>,
    location: VectorLocation,
    inside: bool,
)
    requires
        0 <= context.one_vector_byte_size,
        call_ensures(SimdVectorSearchContext::is_in_bounds, (context, location), inside),
    ensures
        inside <==> match location {
            VectorLocation::Page { page, offset } => page < context.mmap_pages@.len() && offset
                + context.one_vector_byte_size <= context.mmap_pages@[page as int]@.len(),
            VectorLocation::Tmp { start } => start + context.one_vector_byte_size
                <= context.tmp_buffer@.len(),
        },
{
}

/// Each dimension is read once: by a whole load, or by the lane of its number in the masked load; and
/// the masked load reads no others.
pub proof fn lemma_lanes_cover(dim: i32, plan: LanePlan, lane: u16)
    requires
        0 <= dim,
        call_ensures(plan_lanes, (dim,), plan),
        lane < 16,
    ensures
        plan.simd_dim % 16 == 0,
        plan.simd_dim <= dim < plan.simd_dim + 16,
        (plan.tail_mask >> lane) & 1 == 1 <==> plan.simd_dim + lane < dim,
{
}

} // verus!
