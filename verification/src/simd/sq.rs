//! Scalar quantized scoring: 4-bit query against 1-bit data.
//!
//! A stored vector is its binary code followed by sixteen bytes of corrections.
//! What is computed here is all that a score is made from: the dot product and
//! the corrections, the latter as the bit patterns of the numbers they are. The bytes
//! of a number lie in the order of the context.

use crate::simd::byte_order;
use crate::simd::byte_order::{push_number, read_number, ByteOrder};
use crate::simd::context;
use crate::simd::context::{binary_code_bytes, SimdVectorSearchContext, VectorLocation};
use crate::simd::dot;
use crate::simd::dot::{default_4bit_dot_product_batch, int4_bit_dot_product};
use crate::simd::SimdError;
use vstd::prelude::*;

verus! {

/// The corrections of one stored vector.
#[derive(Debug, Clone, Copy, PartialEq, Eq, Structural)]
pub struct DataCorrections {
    pub lower_interval_bits: u32,
    pub upper_interval_bits: u32,
    pub additional_correction_bits: u32,
    pub quantized_component_sum: i32,
}

/// The corrections that stand in `s` from `at` on.
pub open spec fn corrections_at(order: ByteOrder, s: Seq<u8>, at: int) -> DataCorrections {
    DataCorrections {
        lower_interval_bits: byte_order::number_at(order, s, at),
        upper_interval_bits: byte_order::number_at(order, s, at + 4),
        additional_correction_bits: byte_order::number_at(order, s, at + 8),
        quantized_component_sum: byte_order::number_at(order, s, at + 12) as i32,
    }
}

/// Reads the corrections of a stored vector: lower interval, upper interval,
/// additional correction and component sum, four bytes each.
pub fn read_data_corrections(order: ByteOrder, bytes: &[u8], at: usize) -> (corrections:
    DataCorrections)
    requires
        at + 16 <= bytes.len(),
    ensures
        corrections == corrections_at(order, bytes@, at as int),
{
    DataCorrections {
        lower_interval_bits: read_number(order, bytes, at),
        upper_interval_bits: read_number(order, bytes, at + 4),
        additional_correction_bits: read_number(order, bytes, at + 8),
        quantized_component_sum: read_number(order, bytes, at + 12) as i32,
    }
}

/// The corrections of the query.
#[derive(Debug, Clone, Copy, PartialEq, Eq, Structural)]
pub struct QueryCorrections {
    pub lower_interval_bits: u32,
    pub upper_interval_bits: u32,
    pub additional_correction_bits: u32,
    pub quantized_component_sum: i32,
    pub centroid_dp_bits: u32,
}

/// The query corrections as they are kept at the front of the temporary buffer.
pub open spec fn query_correction_bytes(order: ByteOrder, c: QueryCorrections) -> Seq<u8> {
    byte_order::number_bytes(order, c.lower_interval_bits) + byte_order::number_bytes(
        order,
        c.upper_interval_bits,
    ) + byte_order::number_bytes(order, c.additional_correction_bits) + byte_order::number_bytes(
        order,
        c.quantized_component_sum as u32,
    ) + byte_order::number_bytes(order, c.centroid_dp_bits)
}

/// The query corrections that the first twenty bytes of a buffer hold.
pub open spec fn query_corrections_in(order: ByteOrder, s: Seq<u8>) -> QueryCorrections {
    QueryCorrections {
        lower_interval_bits: byte_order::number_at(order, s, 0),
        upper_interval_bits: byte_order::number_at(order, s, 4),
        additional_correction_bits: byte_order::number_at(order, s, 8),
        quantized_component_sum: byte_order::number_at(order, s, 12) as i32,
        centroid_dp_bits: byte_order::number_at(order, s, 16),
    }
}

/// Query corrections are read back as they were written, whatever is put into
/// the temporary buffer behind them.
#[verifier::spinoff_prover]
#[verifier::rlimit(50)]
pub proof fn lemma_query_corrections_round_trip(
    order: ByteOrder,
    c: QueryCorrections,
    rest: Seq<u8>,
)
    ensures
        query_corrections_in(order, query_correction_bytes(order, c) + rest) == c,
{
    let s = query_correction_bytes(order, c) + rest;
    let n0 = byte_order::number_bytes(order, c.lower_interval_bits);
    let n1 = byte_order::number_bytes(order, c.upper_interval_bits);
    let n2 = byte_order::number_bytes(order, c.additional_correction_bits);
    let n3 = byte_order::number_bytes(order, c.quantized_component_sum as u32);
    let n4 = byte_order::number_bytes(order, c.centroid_dp_bits);
    assert(s =~= Seq::<u8>::empty() + n0 + (n1 + n2 + n3 + n4 + rest));
    byte_order::lemma_number_round_trip(
        order,
        c.lower_interval_bits,
        seq![],
        n1 + n2 + n3 + n4 + rest,
    );
    assert(s =~= n0 + n1 + (n2 + n3 + n4 + rest));
    byte_order::lemma_number_round_trip(order, c.upper_interval_bits, n0, n2 + n3 + n4 + rest);
    assert(s =~= (n0 + n1) + n2 + (n3 + n4 + rest));
    byte_order::lemma_number_round_trip(
        order,
        c.additional_correction_bits,
        n0 + n1,
        n3 + n4 + rest,
    );
    assert(s =~= (n0 + n1 + n2) + n3 + (n4 + rest));
    byte_order::lemma_number_round_trip(
        order,
        c.quantized_component_sum as u32,
        n0 + n1 + n2,
        n4 + rest,
    );
    assert(s =~= (n0 + n1 + n2 + n3) + n4 + rest);
    byte_order::lemma_number_round_trip(order, c.centroid_dp_bits, n0 + n1 + n2 + n3, rest);
    let k = c.quantized_component_sum;
    assert((k as u32) as i32 == k) by (bit_vector);
}

/// What the score of one stored vector is made from.
#[derive(Debug, Clone, Copy, PartialEq, Eq, Structural)]
pub struct SqTerm {
    pub dot_product: i64,
    pub corrections: DataCorrections,
}

/// The term of a stored vector whose code has `n` bytes.
pub open spec fn term_of(order: ByteOrder, query: Seq<u8>, vector: Seq<u8>, n: nat) -> SqTerm {
    SqTerm {
        dot_product: dot::int4_dot(query, vector, n) as i64,
        corrections: corrections_at(order, vector, n as int),
    }
}

/// All that the scores of several vectors are made from.
pub struct SqTerms {
    /// Whether scores follow the inner product; else they follow L2.
    pub is_max_ip: bool,
    pub dimension: i32,
    pub query: QueryCorrections,
    pub terms: Vec<SqTerm>,
}

impl<'a> SimdVectorSearchContext<'a> {
    /// Puts the query corrections at the front of the temporary buffer, in place
    /// of what it holds.
    pub fn set_sq_correction_factors(&mut self, corrections: QueryCorrections)
        ensures
            final(self).same_but_tmp(old(self)),
            final(self).tmp_buffer@ == query_correction_bytes(old(self).byte_order, corrections),
    {
        let mut buffer: Vec<u8> = Vec::new();
        push_number(self.byte_order, &mut buffer, corrections.lower_interval_bits);
        push_number(self.byte_order, &mut buffer, corrections.upper_interval_bits);
        push_number(self.byte_order, &mut buffer, corrections.additional_correction_bits);
        push_number(self.byte_order, &mut buffer, corrections.quantized_component_sum as u32);
        push_number(self.byte_order, &mut buffer, corrections.centroid_dp_bits);
        assert(buffer@ =~= query_correction_bytes(self.byte_order, corrections));
        self.tmp_buffer = buffer;
    }

    /// Reads the query corrections.
    pub fn query_corrections(&self) -> (corrections: QueryCorrections)
        requires
            20 <= self.tmp_buffer@.len(),
        ensures
            corrections == query_corrections_in(self.byte_order, self.tmp_buffer@),
    {
        let buffer = self.tmp_buffer.as_slice();
        QueryCorrections {
            lower_interval_bits: read_number(self.byte_order, buffer, 0),
            upper_interval_bits: read_number(self.byte_order, buffer, 4),
            additional_correction_bits: read_number(self.byte_order, buffer, 8),
            quantized_component_sum: read_number(self.byte_order, buffer, 12) as i32,
            centroid_dp_bits: read_number(self.byte_order, buffer, 16),
        }
    }

    /// The context holds a scalar quantized query and its corrections, and the
    /// first `n` of `ids` can be looked up; with a single page they lie in it.
    pub open spec fn sq_ready(&self, ids: Seq<i32>, n: int) -> bool {
        &&& self.can_look_up(ids, n)
        &&& 0 <= self.dimension <= i32::MAX - 7
        &&& self.one_vector_byte_size == context::code_bytes(self.dimension as int) + 16
        &&& 4 * context::code_bytes(self.dimension as int) <= self.query_vector@.len()
        &&& 20 <= self.tmp_buffer@.len()
        &&& self.mmap_pages@.len() == 1 ==> forall|i: int|
            0 <= i < n ==> self.one_vector_byte_size * (#[trigger] ids[i] + 1)
                <= self.mmap_pages@[0]@.len()
    }

    /// Why the first `n` of `ids` cannot all be scored.
    pub open spec fn scoring_error(&self, ids: Seq<i32>, n: nat) -> Option<SimdError> {
        if n > 0 && self.mmap_pages@.len() == 0 {
            Some(SimdError::NotInitialized)
        } else {
            context::first_bulk_error(
                self.mmap_pages@.len(),
                self.mmap_page_sizes@,
                self.one_vector_byte_size as int,
                ids,
                n,
            )
        }
    }

    /// The term of stored vector `id`.
    pub open spec fn sq_term(&self, id: i32) -> SqTerm {
        term_of(
            self.byte_order,
            self.query_vector@,
            self.stored_vector(id),
            context::code_bytes(self.dimension as int) as nat,
        )
    }

    /// A vector that lies in the only page is found there.
    proof fn lemma_single_page(&self, id: i32)
        requires
            self.wf(),
            self.mmap_pages@.len() == 1,
            0 <= id,
            0 < self.one_vector_byte_size,
            self.one_vector_byte_size * (id + 1) <= self.mmap_pages@[0]@.len(),
            self.one_vector_byte_size * (id + 1) <= u64::MAX,
        ensures
            ({
                let location = VectorLocation::Page {
                    page: 0,
                    offset: (self.one_vector_byte_size * id) as u64,
                };
                &&& self.in_bounds(location)
                &&& self.bytes_at(location) == self.stored_vector(id)
            }),
            context::bulk_error(
                1,
                self.mmap_page_sizes@,
                self.one_vector_byte_size as int,
                id,
            ) is None,
    {
        let size = self.one_vector_byte_size as int;
        assert(size * (id + 1) == size * id + size) by (nonlinear_arith);
        assert(0 <= size * id) by (nonlinear_arith)
            requires
                0 < size,
                0 <= id,
        ;
        let none = context::joined(self.mmap_pages@, 0);
        assert(none =~= Seq::<u8>::empty());
        assert(self.mapped() =~= self.mmap_pages@[0]@);
        assert(self.mmap_page_sizes@[0] == context::joined(self.mmap_pages@, 1).len());
    }

    /// Locates `count` of the given vectors, from `from` on: all at once, or one
    /// by one.
    fn locate_block(&mut self, ids: &[i32], from: usize, count: usize, at_once: bool) -> (r: Result<
        Vec<VectorLocation>,
        SimdError,
    >)
        requires
            0 < count <= 8,
            from + count <= ids.len(),
            old(self).sq_ready(ids@.skip(from as int), count as int),
        ensures
            final(self).same_but_tmp(old(self)),
            final(self).grew_by(old(self), count as int),
            match old(self).scoring_error(ids@.skip(from as int), count as nat) {
                Some(e) => r == Err::<Vec<VectorLocation>, SimdError>(e),
                None => {
                    &&& r is Ok
                    &&& r->Ok_0@.len() == count
                    &&& forall|i: int|
                        0 <= i < count ==> {
                            &&& final(self).in_bounds(#[trigger] r->Ok_0@[i])
                            &&& final(self).bytes_at(r->Ok_0@[i]) == old(self).stored_vector(
                                ids@[from + i],
                            )
                        }
                },
            },
    {
        let block = vstd::slice::slice_subrange(ids, from, ids.len());
        assert(block@ =~= ids@.skip(from as int));
        let r = if at_once {
            self.locate_all(block, count as i32)
        } else {
            self.locate_one_by_one(block, count)
        };
        proof {
            if r is Ok && old(self).mmap_pages@.len() == 1 {
                assert forall|i: int| 0 <= i < count implies {
                    &&& self.in_bounds(#[trigger] r->Ok_0@[i])
                    &&& self.bytes_at(r->Ok_0@[i]) == old(self).stored_vector(ids@[from + i])
                } by {
                    assert(self.locates(r->Ok_0@[i], block@[i]));
                    self.lemma_single_page(block@[i]);
                }
            }
        }
        r
    }

    fn locate_one_by_one(&mut self, ids: &[i32], count: usize) -> (r: Result<
        Vec<VectorLocation>,
        SimdError,
    >)
        requires
            0 < count <= 8,
            old(self).sq_ready(ids@, count as int),
        ensures
            final(self).same_but_tmp(old(self)),
            final(self).grew_by(old(self), count as int),
            match old(self).scoring_error(ids@, count as nat) {
                Some(e) => r == Err::<Vec<VectorLocation>, SimdError>(e),
                None => {
                    &&& r is Ok
                    &&& r->Ok_0@.len() == count
                    &&& forall|i: int|
                        0 <= i < count ==> final(self).locates(#[trigger] r->Ok_0@[i], ids@[i])
                },
            },
    {
        let mut vectors: Vec<VectorLocation> = Vec::new();
        let mut i: usize = 0;
        let ghost size = self.one_vector_byte_size as int;
        let ghost ends = self.mmap_page_sizes@;
        let ghost pages = self.mmap_pages@.len();
        let ghost before = self.tmp_buffer@;
        proof {
            assert(0 * (size + 1) == 0) by (nonlinear_arith);
        }
        while i < count
            invariant
                i <= count,
                0 < count <= 8,
                old(self).sq_ready(ids@, count as int),
                size == old(self).one_vector_byte_size,
                ends == old(self).mmap_page_sizes@,
                pages == old(self).mmap_pages@.len(),
                i > 0 ==> pages > 0,
                before == old(self).tmp_buffer@,
                self.same_but_tmp(old(self)),
                before.is_prefix_of(self.tmp_buffer@),
                self.tmp_buffer@.len() <= before.len() + i * (size + 1),
                pages <= 1 ==> self.tmp_buffer@ == before,
                context::first_bulk_error(pages, ends, size, ids@, i as nat) is None,
                vectors@.len() == i,
                forall|k: int| 0 <= k < i ==> self.locates(#[trigger] vectors@[k], ids@[k]),
            decreases count - i,
        {
            let ghost earlier = *self;
            let id = ids[i];
            proof {
                assert(i * (size + 1) + (size + 1) == (i + 1) * (size + 1)) by (nonlinear_arith);
                assert((i + 1) * (size + 1) <= count * (size + 1)) by (nonlinear_arith)
                    requires
                        i + 1 <= count,
                        0 <= size,
                ;
                if pages == 1 {
                    assert(size * (ids@[i as int] + 1) <= self.mmap_pages@[0]@.len());
                    self.lemma_single_page(id);
                }
            }
            let location = match self.get_vector_pointer(id) {
                Ok(location) => location,
                Err(e) => {
                    proof {
                        if pages > 0 {
                            context::lemma_first_bulk_error_stays(
                                pages,
                                ends,
                                size,
                                ids@,
                                (i + 1) as nat,
                                count as nat,
                            );
                        }
                    }
                    return Err(e);
                },
            };
            proof {
                assert forall|k: int| 0 <= k < i implies self.locates(
                    #[trigger] vectors@[k],
                    ids@[k],
                ) by {
                    earlier.lemma_locates_grown(self, vectors@[k], ids@[k]);
                }
                assert(self.stored_vector(id) == old(self).stored_vector(id));
            }
            vectors.push(location);
            i = i + 1;
        }
        Ok(vectors)
    }

    /// The terms of a block of located vectors.
    fn block_terms(&self, locations: &Vec<VectorLocation>) -> (terms: Vec<SqTerm>)
        requires
            0 <= self.dimension <= i32::MAX - 7,
            self.one_vector_byte_size == context::code_bytes(self.dimension as int) + 16,
            4 * context::code_bytes(self.dimension as int) <= self.query_vector@.len(),
            forall|i: int| 0 <= i < locations@.len() ==> self.in_bounds(#[trigger] locations@[i]),
        ensures
            terms@.len() == locations@.len(),
            forall|i: int|
                0 <= i < locations@.len() ==> #[trigger] terms@[i] == term_of(
                    self.byte_order,
                    self.query_vector@,
                    self.bytes_at(locations@[i]),
                    context::code_bytes(self.dimension as int) as nat,
                ),
    {
        let n = binary_code_bytes(self.dimension);
        let mut data_vecs: Vec<&[u8]> = Vec::new();
        let mut i: usize = 0;
        while i < locations.len()
            invariant
                i <= locations.len(),
                0 <= self.one_vector_byte_size,
                forall|k: int|
                    0 <= k < locations@.len() ==> self.in_bounds(#[trigger] locations@[k]),
                data_vecs@.len() == i,
                forall|k: int|
                    0 <= k < i ==> (#[trigger] data_vecs@[k])@ == self.bytes_at(locations@[k]),
            decreases locations.len() - i,
        {
            let bytes = self.vector_bytes(locations[i]);
            data_vecs.push(bytes);
            i = i + 1;
        }
        assert forall|k: int| 0 <= k < data_vecs@.len() implies (#[trigger] data_vecs@[k])@.len()
            == n + 16 by {
            assert(self.in_bounds(locations@[k]));
        }
        let query = self.query_vector.as_slice();
        let dots = if data_vecs.len() == 1 {
            let only = data_vecs[0];
            assert(data_vecs@[0]@.len() == n + 16);
            let mut one: Vec<i64> = Vec::new();
            one.push(int4_bit_dot_product(query, only, n));
            one
        } else {
            default_4bit_dot_product_batch(query, &data_vecs, n)
        };
        let mut terms: Vec<SqTerm> = Vec::new();
        let mut k: usize = 0;
        while k < data_vecs.len()
            invariant
                k <= data_vecs.len(),
                0 <= n,
                query@ == self.query_vector@,
                dots@.len() == data_vecs@.len(),
                forall|b: int|
                    0 <= b < dots@.len() ==> #[trigger] dots@[b] == dot::int4_dot(
                        query@,
                        data_vecs@[b]@,
                        n as nat,
                    ),
                forall|b: int| 0 <= b < data_vecs@.len() ==> (#[trigger] data_vecs@[b])@.len() == n + 16,
                terms@.len() == k,
                forall|b: int|
                    0 <= b < k ==> #[trigger] terms@[b] == term_of(
                        self.byte_order,
                        self.query_vector@,
                        data_vecs@[b]@,
                        n as nat,
                    ),
            decreases data_vecs.len() - k,
        {
            let bytes = data_vecs[k];
            assert(data_vecs@[k as int]@.len() == n + 16);
            let corrections = read_data_corrections(self.byte_order, bytes, n as usize);
            terms.push(SqTerm { dot_product: dots[k], corrections });
            k = k + 1;
        }
        terms
    }

    /// What all of `ids` asks for, a block of them asks for too.
    proof fn lemma_block_ready(&self, now: &Self, ids: Seq<i32>, n: int, from: int, count: int)
        requires
            self.sq_ready(ids, n),
            now.same_but_tmp(self),
            0 <= from,
            0 < count,
            from + count <= n,
            20 <= now.tmp_buffer@.len() <= self.tmp_buffer@.len() + from * (
            self.one_vector_byte_size + 1),
        ensures
            now.sq_ready(ids.skip(from), count),
            now.tmp_buffer@.len() + count * (self.one_vector_byte_size + 1)
                <= self.tmp_buffer@.len() + (from + count) * (self.one_vector_byte_size + 1),
    {
        let step = self.one_vector_byte_size + 1;
        assert((from + count) * step == from * step + count * step) by (nonlinear_arith);
        assert((from + count) * step <= n * step) by (nonlinear_arith)
            requires
                from + count <= n,
                0 <= step,
        ;
        let block = ids.skip(from);
        assert forall|i: int| 0 <= i < count implies 0 <= #[trigger] block[i]
            && now.one_vector_byte_size * (block[i] + 1) <= u64::MAX by {
            assert(block[i] == ids[from + i]);
        }
        if now.mmap_pages@.len() == 1 {
            assert forall|i: int| 0 <= i < count implies now.one_vector_byte_size * (
            #[trigger] block[i] + 1) <= now.mmap_pages@[0]@.len() by {
                assert(block[i] == ids[from + i]);
            }
        }
    }

    /// The terms of the first `num` of the given vectors, in blocks of eight,
    /// then of four, then one by one. The vectors of a block are located all at
    /// once, or one by one.
    fn sq_terms(&mut self, ids: &[i32], num: usize, at_once: bool) -> (r: Result<
        Vec<SqTerm>,
        SimdError,
    >)
        requires
            old(self).sq_ready(ids@, num as int),
        ensures
            final(self).same_but_tmp(old(self)),
            final(self).grew_by(old(self), num as int),
            match old(self).scoring_error(ids@, num as nat) {
                Some(e) => r == Err::<Vec<SqTerm>, SimdError>(e),
                None => {
                    &&& r is Ok
                    &&& r->Ok_0@.len() == num
                    &&& forall|i: int|
                        0 <= i < num ==> #[trigger] r->Ok_0@[i] == old(self).sq_term(ids@[i])
                },
            },
    {
        let mut terms: Vec<SqTerm> = Vec::new();
        let mut processed_count: usize = 0;
        let ghost size = self.one_vector_byte_size as int;
        let ghost ends = self.mmap_page_sizes@;
        let ghost pages = self.mmap_pages@.len();
        let ghost before = self.tmp_buffer@;
        proof {
            assert(0 * (size + 1) == 0) by (nonlinear_arith);
        }
        while processed_count < num
            invariant
                processed_count <= num <= ids.len(),
                old(self).sq_ready(ids@, num as int),
                size == old(self).one_vector_byte_size,
                ends == old(self).mmap_page_sizes@,
                pages == old(self).mmap_pages@.len(),
                processed_count > 0 ==> pages > 0,
                before == old(self).tmp_buffer@,
                self.same_but_tmp(old(self)),
                before.is_prefix_of(self.tmp_buffer@),
                self.tmp_buffer@.len() <= before.len() + processed_count * (size + 1),
                pages <= 1 ==> self.tmp_buffer@ == before,
                context::first_bulk_error(pages, ends, size, ids@, processed_count as nat) is None,
                terms@.len() == processed_count,
                forall|k: int|
                    0 <= k < processed_count ==> #[trigger] terms@[k] == old(self).sq_term(ids@[k]),
            decreases num - processed_count,
        {
            let left = num - processed_count;
            let count: usize = if left >= 8 {
                8
            } else if left >= 4 {
                4
            } else {
                1
            };
            proof {
                assert((processed_count + count) * (size + 1) <= num * (size + 1))
                    by (nonlinear_arith)
                    requires
                        processed_count + count <= num,
                        0 <= size,
                ;
                old(self).lemma_block_ready(
                    self,
                    ids@,
                    num as int,
                    processed_count as int,
                    count as int,
                );
                if pages > 0 {
                    context::lemma_first_bulk_error_skip(
                        pages,
                        ends,
                        size,
                        ids@,
                        processed_count as nat,
                        count as nat,
                    );
                }
            }
            let locations = match self.locate_block(
                ids,
                processed_count,
                count,
                at_once && count > 1,
            ) {
                Ok(locations) => locations,
                Err(e) => {
                    proof {
                        if pages > 0 {
                            context::lemma_first_bulk_error_stays(
                                pages,
                                ends,
                                size,
                                ids@,
                                (processed_count + count) as nat,
                                num as nat,
                            );
                        }
                    }
                    return Err(e);
                },
            };
            let mut block = self.block_terms(&locations);
            proof {
                assert forall|k: int| 0 <= k < count implies #[trigger] block@[k] == old(
                    self,
                ).sq_term(ids@[processed_count + k]) by {
                    assert(self.bytes_at(locations@[k]) == old(self).stored_vector(
                        ids@[processed_count + k],
                    ));
                }
            }
            terms.append(&mut block);
            processed_count = processed_count + count;
        }
        Ok(terms)
    }
}

/// Scalar quantized scoring without vector instructions.
pub struct DefaultSqSimilarityFunction {
    pub is_max_ip: bool,
}

/// Scalar quantized scoring for processors with AVX512.
pub struct Avx512SqSimilarityFunction {
    pub is_max_ip: bool,
}

/// Scalar quantized scoring for processors with NEON.
pub struct NeonSqSimilarityFunction {
    pub is_max_ip: bool,
}

/// `terms` is what the scores of the first `n` of `ids` are made from.
pub open spec fn scored(
    context: &SimdVectorSearchContext<'_>,
    is_max_ip: bool,
    ids: Seq<i32>,
    n: int,
    terms: SqTerms,
) -> bool {
    &&& terms.is_max_ip == is_max_ip
    &&& terms.dimension == context.dimension
    &&& terms.query == query_corrections_in(context.byte_order, context.tmp_buffer@)
    &&& terms.terms@.len() == n
    &&& forall|i: int| 0 <= i < n ==> #[trigger] terms.terms@[i] == context.sq_term(ids[i])
}

/// A context that can score some vectors, and then has room for others, can score the
/// others once it has scored the first.
pub proof fn lemma_ready_again(
    before: &SimdVectorSearchContext<'_>,
    after: &SimdVectorSearchContext<'_>,
    n: int,
    ids: Seq<i32>,
    m: int,
)
    requires
        before.sq_ready(ids, m),
        0 <= n,
        before.mmap_pages@.len() > 1 ==> before.tmp_buffer@.len() + (n + m) * (
        before.one_vector_byte_size + 1) <= usize::MAX,
        after.same_but_tmp(before),
        after.grew_by(before, n),
    ensures
        after.sq_ready(ids, m),
        query_corrections_in(after.byte_order, after.tmp_buffer@) == query_corrections_in(
            before.byte_order,
            before.tmp_buffer@,
        ),
{
    let step = before.one_vector_byte_size + 1;
    assert((n + m) * step == n * step + m * step) by (nonlinear_arith);
    let (b, a) = (before.tmp_buffer@, after.tmp_buffer@);
    assert(forall|i: int| 0 <= i < b.len() ==> a[i] == b[i]);
}

/// A vector is scored alike by itself and among others.
pub proof fn lemma_bulk_is_pointwise(
    context: &SimdVectorSearchContext<'_>,
    is_max_ip: bool,
    ids: Seq<i32>,
    n: int,
    i: int,
    bulk: SqTerms,
    single: SqTerms,
)
    requires
        0 <= i < n <= ids.len(),
        scored(context, is_max_ip, ids, n, bulk),
        scored(context, is_max_ip, seq![ids[i]], 1, single),
    ensures
        bulk.terms@[i] == single.terms@[0],
        bulk.query == single.query,
        bulk.dimension == single.dimension,
        bulk.is_max_ip == single.is_max_ip,
{
    assert(single.terms@[0] == context.sq_term(seq![ids[i]][0]));
}

fn score_in_bulk(
    srch_context: &mut SimdVectorSearchContext<'_>,
    is_max_ip: bool,
    internal_vector_ids: &[i32],
    num_vectors: i32,
    at_once: bool,
) -> (r: Result<SqTerms, SimdError>)
    requires
        old(srch_context).sq_ready(internal_vector_ids@, num_vectors as int),
    ensures
        final(srch_context).same_but_tmp(old(srch_context)),
        final(srch_context).grew_by(old(srch_context), num_vectors as int),
        match old(srch_context).scoring_error(internal_vector_ids@, num_vectors as nat) {
            Some(e) => r == Err::<SqTerms, SimdError>(e),
            None => r is Ok && scored(
                old(srch_context),
                is_max_ip,
                internal_vector_ids@,
                num_vectors as int,
                r->Ok_0,
            ),
        },
{
    let query = srch_context.query_corrections();
    let dimension = srch_context.dimension;
    match srch_context.sq_terms(internal_vector_ids, num_vectors as usize, at_once) {
        Ok(terms) => Ok(SqTerms { is_max_ip, dimension, query, terms }),
        Err(e) => Err(e),
    }
}

fn score_single(
    srch_context: &mut SimdVectorSearchContext<'_>,
    is_max_ip: bool,
    internal_vector_id: i32,
) -> (r: Result<SqTerms, SimdError>)
    requires
        old(srch_context).sq_ready(seq![internal_vector_id], 1),
    ensures
        final(srch_context).same_but_tmp(old(srch_context)),
        final(srch_context).grew_by(old(srch_context), 1),
        match old(srch_context).scoring_error(seq![internal_vector_id], 1) {
            Some(e) => r == Err::<SqTerms, SimdError>(e),
            None => r is Ok && scored(
                old(srch_context),
                is_max_ip,
                seq![internal_vector_id],
                1,
                r->Ok_0,
            ),
        },
{
    let mut ids: Vec<i32> = Vec::new();
    ids.push(internal_vector_id);
    assert(ids@ =~= seq![internal_vector_id]);
    score_in_bulk(srch_context, is_max_ip, ids.as_slice(), 1, false)
}

/// A way to score scalar quantized vectors.
pub trait SqSimilarityFunction {
    /// Whether scores follow the inner product; else they follow L2.
    spec fn follows_inner_product(&self) -> bool;

    /// What the scores of the first `num_vectors` of the given vectors are made
    /// from.
    fn calculate_similarity_in_bulk(
        &self,
        srch_context: &mut SimdVectorSearchContext<'_>,
        internal_vector_ids: &[i32],
        num_vectors: i32,
    ) -> (r: Result<SqTerms, SimdError>)
        requires
            old(srch_context).sq_ready(internal_vector_ids@, num_vectors as int),
        ensures
            final(srch_context).same_but_tmp(old(srch_context)),
            final(srch_context).grew_by(old(srch_context), num_vectors as int),
            match old(srch_context).scoring_error(internal_vector_ids@, num_vectors as nat) {
                Some(e) => r == Err::<SqTerms, SimdError>(e),
                None => r is Ok && scored(
                    old(srch_context),
                    self.follows_inner_product(),
                    internal_vector_ids@,
                    num_vectors as int,
                    r->Ok_0,
                ),
            },
    ;

    /// What the score of one vector is made from.
    fn calculate_similarity(
        &self,
        srch_context: &mut SimdVectorSearchContext<'_>,
        internal_vector_id: i32,
    ) -> (r: Result<SqTerms, SimdError>)
        requires
            old(srch_context).sq_ready(seq![internal_vector_id], 1),
        ensures
            final(srch_context).same_but_tmp(old(srch_context)),
            final(srch_context).grew_by(old(srch_context), 1),
            match old(srch_context).scoring_error(seq![internal_vector_id], 1) {
                Some(e) => r == Err::<SqTerms, SimdError>(e),
                None => r is Ok && scored(
                    old(srch_context),
                    self.follows_inner_product(),
                    seq![internal_vector_id],
                    1,
                    r->Ok_0,
                ),
            },
    ;
}

impl SqSimilarityFunction for DefaultSqSimilarityFunction {
    open spec fn follows_inner_product(&self) -> bool {
        self.is_max_ip
    }

    /// The vectors of a block are located one by one.
    fn calculate_similarity_in_bulk(
        &self,
        srch_context: &mut SimdVectorSearchContext<'_>,
        internal_vector_ids: &[i32],
        num_vectors: i32,
    ) -> (r: Result<SqTerms, SimdError>) {
        score_in_bulk(srch_context, self.is_max_ip, internal_vector_ids, num_vectors, false)
    }

    fn calculate_similarity(
        &self,
        srch_context: &mut SimdVectorSearchContext<'_>,
        internal_vector_id: i32,
    ) -> (r: Result<SqTerms, SimdError>) {
        score_single(srch_context, self.is_max_ip, internal_vector_id)
    }
}

impl SqSimilarityFunction for Avx512SqSimilarityFunction {
    open spec fn follows_inner_product(&self) -> bool {
        self.is_max_ip
    }

    /// The vectors of a block are located all at once.
    fn calculate_similarity_in_bulk(
        &self,
        srch_context: &mut SimdVectorSearchContext<'_>,
        internal_vector_ids: &[i32],
        num_vectors: i32,
    ) -> (r: Result<SqTerms, SimdError>) {
        score_in_bulk(srch_context, self.is_max_ip, internal_vector_ids, num_vectors, true)
    }

    fn calculate_similarity(
        &self,
        srch_context: &mut SimdVectorSearchContext<'_>,
        internal_vector_id: i32,
    ) -> (r: Result<SqTerms, SimdError>) {
        score_single(srch_context, self.is_max_ip, internal_vector_id)
    }
}

impl SqSimilarityFunction for NeonSqSimilarityFunction {
    open spec fn follows_inner_product(&self) -> bool {
        self.is_max_ip
    }

    /// The vectors of a block are located all at once.
    fn calculate_similarity_in_bulk(
        &self,
        srch_context: &mut SimdVectorSearchContext<'_>,
        internal_vector_ids: &[i32],
        num_vectors: i32,
    ) -> (r: Result<SqTerms, SimdError>) {
        score_in_bulk(srch_context, self.is_max_ip, internal_vector_ids, num_vectors, true)
    }

    fn calculate_similarity(
        &self,
        srch_context: &mut SimdVectorSearchContext<'_>,
        internal_vector_id: i32,
    ) -> (r: Result<SqTerms, SimdError>) {
        score_single(srch_context, self.is_max_ip, internal_vector_id)
    }
}

/// A stored vector's corrections are read as they were stored behind its code: lower
/// interval, upper interval, additional correction and component sum, four bytes each.
pub proof fn lemma_data_corrections_round_trip(
    order: ByteOrder,
    code: Seq<u8>,
    c: DataCorrections,
    rest: Seq<u8>,
    bytes: &[u8],
    at: usize,
    read: DataCorrections,
)
    requires
        bytes@ == code + byte_order::number_bytes(order, c.lower_interval_bits)
            + byte_order::number_bytes(order, c.upper_interval_bits) + byte_order::number_bytes(
            order,
            c.additional_correction_bits,
        ) + byte_order::number_bytes(order, c.quantized_component_sum as u32) + rest,
        at == code.len(),
        call_ensures(read_data_corrections, (order, bytes, at), read),
    ensures
        read == c,
{
    lemma_stored_corrections(order, code, c, rest);
}

#[verifier::spinoff_prover]
#[verifier::rlimit(50)]
proof fn lemma_stored_corrections(
    order: ByteOrder,
    code: Seq<u8>,
    c: DataCorrections,
    rest: Seq<u8>,
)
    ensures
        corrections_at(
            order,
            code + byte_order::number_bytes(order, c.lower_interval_bits)
                + byte_order::number_bytes(order, c.upper_interval_bits) + byte_order::number_bytes(
                order,
                c.additional_correction_bits,
            ) + byte_order::number_bytes(order, c.quantized_component_sum as u32) + rest,
            code.len() as int,
        ) == c,
{
    let n0 = byte_order::number_bytes(order, c.lower_interval_bits);
    let n1 = byte_order::number_bytes(order, c.upper_interval_bits);
    let n2 = byte_order::number_bytes(order, c.additional_correction_bits);
    let n3 = byte_order::number_bytes(order, c.quantized_component_sum as u32);
    let s = code + n0 + n1 + n2 + n3 + rest;
    assert(s =~= code + n0 + (n1 + n2 + n3 + rest));
    byte_order::lemma_number_round_trip(
        order,
        c.lower_interval_bits,
        code,
        n1 + n2 + n3 + rest,
    );
    assert(s =~= (code + n0) + n1 + (n2 + n3 + rest));
    byte_order::lemma_number_round_trip(order, c.upper_interval_bits, code + n0, n2 + n3 + rest);
    assert(s =~= (code + n0 + n1) + n2 + (n3 + rest));
    byte_order::lemma_number_round_trip(
        order,
        c.additional_correction_bits,
        code + n0 + n1,
        n3 + rest,
    );
    assert(s =~= (code + n0 + n1 + n2) + n3 + rest);
    byte_order::lemma_number_round_trip(
        order,
        c.quantized_component_sum as u32,
        code + n0 + n1 + n2,
        rest,
    );
    let k = c.quantized_component_sum;
    assert((k as u32) as i32 == k) by (bit_vector);
}

/// The query corrections lie one behind the other, four bytes each.
pub proof fn lemma_query_correction_bytes(order: ByteOrder, c: QueryCorrections)
    ensures
        query_correction_bytes(order, c).len() == 20,
        query_correction_bytes(order, c).subrange(0, 4) == byte_order::number_bytes(
            order,
            c.lower_interval_bits,
        ),
        query_correction_bytes(order, c).subrange(4, 8) == byte_order::number_bytes(
            order,
            c.upper_interval_bits,
        ),
        query_correction_bytes(order, c).subrange(8, 12) == byte_order::number_bytes(
            order,
            c.additional_correction_bits,
        ),
        query_correction_bytes(order, c).subrange(12, 16) == byte_order::number_bytes(
            order,
            c.quantized_component_sum as u32,
        ),
        query_correction_bytes(order, c).subrange(16, 20) == byte_order::number_bytes(
            order,
            c.centroid_dp_bits,
        ),
{
}

/// What the score of a vector is made from is what is stored of that vector: its place in the
/// mapped memory is its id times the size of a vector, its code has a bit for each dimension,
/// and its corrections follow. The dot product is the sum, over all components, of the
/// query's value times the stored bit.
pub proof fn lemma_scored_as_stored(
    context: &SimdVectorSearchContext<'_>,
    is_max_ip: bool,
    ids: Seq<i32>,
    n: int,
    i: int,
    terms: SqTerms,
    code: Seq<u8>,
    c: DataCorrections,
)
    requires
        scored(context, is_max_ip, ids, n, terms),
        0 <= i < n,
        0 <= ids[i],
        0 <= context.dimension,
        code.len() == (context.dimension + 7) / 8,
        context.one_vector_byte_size == code.len() + 16,
        (ids[i] + 1) * context.one_vector_byte_size <= context.mapped().len(),
        context.mapped().subrange(
            ids[i] * context.one_vector_byte_size,
            (ids[i] + 1) * context.one_vector_byte_size,
        ) == code + byte_order::number_bytes(context.byte_order, c.lower_interval_bits)
            + byte_order::number_bytes(context.byte_order, c.upper_interval_bits)
            + byte_order::number_bytes(context.byte_order, c.additional_correction_bits)
            + byte_order::number_bytes(context.byte_order, c.quantized_component_sum as u32),
    ensures
        terms.terms@.len() == n,
        terms.terms@[i].corrections == c,
        terms.terms@[i].dot_product == dot::component_sum(
            context.query_vector@,
            code,
            code.len(),
            8 * code.len(),
        ),
        terms.is_max_ip == is_max_ip,
        terms.dimension == context.dimension,
{
    let order = context.byte_order;
    let size = context.one_vector_byte_size as int;
    let id = ids[i] as int;
    let m = code.len();
    assert((id + 1) * size == size * id + size && id * size == size * id) by (nonlinear_arith);
    let v = context.stored_vector(ids[i]);
    let n0 = byte_order::number_bytes(order, c.lower_interval_bits);
    let n1 = byte_order::number_bytes(order, c.upper_interval_bits);
    let n2 = byte_order::number_bytes(order, c.additional_correction_bits);
    let n3 = byte_order::number_bytes(order, c.quantized_component_sum as u32);
    assert(v == code + n0 + n1 + n2 + n3);
    assert(v =~= code + n0 + n1 + n2 + n3 + Seq::<u8>::empty());
    lemma_stored_corrections(order, code, c, Seq::empty());
    assert(terms.terms@[i] == context.sq_term(ids[i]));
    assert(context::code_bytes(context.dimension as int) == m);
    dot::lemma_dot_is_component_sum(context.query_vector@, v, m);
    dot::lemma_component_sum_of_front(context.query_vector@, v, code, m, 8 * m);
    dot::lemma_common_ones_bound(context.query_vector@, 0, v, m);
    dot::lemma_common_ones_bound(context.query_vector@, m as int, v, m);
    dot::lemma_common_ones_bound(context.query_vector@, 2 * m as int, v, m);
    dot::lemma_common_ones_bound(context.query_vector@, 3 * m as int, v, m);
}

/// The corrections of a query are read as they were set, and setting them changes nothing else.
pub proof fn lemma_corrections_kept<'a>(
    context: &mut SimdVectorSearchContext<'a>,
    c: QueryCorrections,
    read: QueryCorrections,
)
    requires
        call_ensures(SimdVectorSearchContext::set_sq_correction_factors, (context, c), ()),
        call_ensures(SimdVectorSearchContext::query_corrections, (&*final(context),), read),
    ensures
        read == c,
        final(context).tmp_buffer@.len() == 20,
        final(context).query_vector@ == old(context).query_vector@,
        final(context).mmap_pages@ == old(context).mmap_pages@,
        final(context).one_vector_byte_size == old(context).one_vector_byte_size,
        final(context).dimension == old(context).dimension,
{
    let s = query_correction_bytes(old(context).byte_order, c);
    lemma_query_corrections_round_trip(old(context).byte_order, c, Seq::empty());
    assert(s + Seq::<u8>::empty() =~= s);
    lemma_query_correction_bytes(old(context).byte_order, c);
}

/// Scores are made from what is stored of the vectors, whatever function makes them: vector by
/// vector, alone or among others, with the corrections of the query and by the metric that the
/// function is for.
pub proof fn lemma_functions_score<F: SqSimilarityFunction>(
    f: &F,
    context: &mut SimdVectorSearchContext<'_>,
    ids: &[i32],
    n: i32,
    r: Result<SqTerms, SimdError>,
    i: int,
    other: &mut SimdVectorSearchContext<'_>,
    single: Result<SqTerms, SimdError>,
)
    requires
        old(context).sq_ready(ids@, n as int),
        0 <= i < n,
        call_ensures(F::calculate_similarity_in_bulk, (f, context, ids, n), r),
        *old(other) == *old(context),
        old(other).sq_ready(seq![ids@[i]], 1),
        call_ensures(F::calculate_similarity, (f, other, ids@[i]), single),
        r is Ok,
        single is Ok,
    ensures
        scored(old(context), f.follows_inner_product(), ids@, n as int, r->Ok_0),
        r->Ok_0.terms@.len() == n,
        single->Ok_0.terms@.len() == 1,
        r->Ok_0.terms@[i] == single->Ok_0.terms@[0],
        r->Ok_0.is_max_ip == f.follows_inner_product(),
        single->Ok_0.is_max_ip == f.follows_inner_product(),
        r->Ok_0.query == query_corrections_in(old(context).byte_order, old(context).tmp_buffer@),
        single->Ok_0.query == r->Ok_0.query,
        r->Ok_0.dimension == old(context).dimension,
        single->Ok_0.dimension == old(context).dimension,
{
    lemma_bulk_is_pointwise(
        old(context),
        f.follows_inner_product(),
        ids@,
        n as int,
        i,
        r->Ok_0,
        single->Ok_0,
    );
}

/// A function scores by the metric that it is made for.
pub proof fn lemma_metrics_followed(
    default: DefaultSqSimilarityFunction,
    avx512: Avx512SqSimilarityFunction,
    neon: NeonSqSimilarityFunction,
)
    ensures
        default.follows_inner_product() <==> default.is_max_ip,
        avx512.follows_inner_product() <==> avx512.is_max_ip,
        neon.follows_inner_product() <==> neon.is_max_ip,
{
}

} // verus!
