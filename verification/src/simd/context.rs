//! The search context: the query, the mapped pages and where a vector lies in
//! them.

use crate::simd::byte_order;
use crate::simd::byte_order::ByteOrder;
use crate::simd::ffi::FaissDistanceComputer;
use crate::simd::select::{select_similarity_function, SelectedFunction, VectorInstructions};
use crate::simd::{NativeSimilarityFunctionType, SimdError};
use vstd::prelude::*;

verus! {

/// Where the bytes of a vector can be read.
#[derive(Debug, Clone, Copy, PartialEq, Eq, Structural)]
pub enum VectorLocation {
    /// In a mapped page, from a byte offset on.
    Page { page: usize, offset: u64 },
    /// In the temporary buffer, from a byte offset on.
    Tmp { start: usize },
}

/// Thread-local search context: the query vector, the page table and the state
/// of the similarity function.
pub struct SimdVectorSearchContext<'a> {
    /// The bytes of the query.
    pub query_vector: Vec<u8>,
    /// The largest query that was saved so far, in bytes.
    pub query_vector_byte_size: i32,
    /// Vector dimension.
    pub dimension: i32,
    /// Stored vector byte size, which depends on the quantization.
    pub one_vector_byte_size: i64,
    /// The mapped pages.
    pub mmap_pages: Vec<&'a [u8]>,
    /// Where each page ends when the pages are laid end to end.
    pub mmap_page_sizes: Vec<i64>,
    /// Function type ordinal.
    pub native_function_type_ord: i32,
    /// Selected similarity function implementation.
    pub similarity_function: Option<SelectedFunction>,
    /// Faiss distance computer.
    pub faiss_function: FaissDistanceComputer,
    /// Temporary buffer, reset whenever a context is saved.
    pub tmp_buffer: Vec<u8>,
    /// How the numbers of stored vectors and of the query are laid out.
    pub byte_order: ByteOrder,
}

/// The first `n` pages laid end to end.
pub open spec fn joined(pages: Seq<&[u8]>, n: nat) -> Seq<u8>
    decreases n,
{
    if n == 0 {
        seq![]
    } else {
        joined(pages, (n - 1) as nat) + pages[n - 1]@
    }
}

/// The table of page ends fits the pages.
pub open spec fn ends_fit(pages: Seq<&[u8]>, ends: Seq<i64>) -> bool {
    &&& ends.len() == pages.len()
    &&& forall|j: int| 0 <= j < pages.len() ==> #[trigger] ends[j] == joined(pages, (j + 1) as nat).len()
}

/// Where page `j` starts when the pages are laid end to end.
pub open spec fn page_start(ends: Seq<i64>, j: int) -> int {
    if j == 0 {
        0
    } else {
        ends[j - 1] as int
    }
}

/// The first page whose end lies behind `start`, counted from page `from`; the
/// number of pages where there is none.
pub open spec fn page_of(ends: Seq<i64>, start: int, from: int) -> int
    decreases ends.len() - from,
{
    if from >= ends.len() {
        ends.len() as int
    } else if start < ends[from] {
        from
    } else {
        page_of(ends, start, from + 1)
    }
}

/// Why vector `id`, of `size` bytes, cannot be located in more than one page.
pub open spec fn lookup_error(ends: Seq<i64>, size: int, id: i32) -> Option<SimdError> {
    let start = size * id;
    let j = page_of(ends, start, 0);
    if j >= ends.len() {
        Some(SimdError::RegionNotFound(id))
    } else if start + size <= ends[j] {
        None
    } else if j + 1 >= ends.len() {
        Some(SimdError::NoNextRegion(id, j as i32, (j + 1) as i32, ends.len() as usize))
    } else if start + size > ends[j + 1] {
        Some(
            SimdError::SecondPartExceedsRegion(
                id,
                j as i32,
                (j + 1) as i32,
                (start + size - ends[j]) as i32,
                (ends[j + 1] - ends[j]) as u64,
            ),
        )
    } else {
        None
    }
}

/// Where vector `id` of `size` bytes lies, once located: in its page, or, if it
/// spans two, at the next even offset of a temporary buffer of `tmp` bytes.
pub open spec fn located(ends: Seq<i64>, size: int, id: i32, tmp: nat) -> VectorLocation {
    let start = size * id;
    let j = page_of(ends, start, 0);
    if start + size <= ends[j] {
        VectorLocation::Page { page: j as usize, offset: (start - page_start(ends, j)) as u64 }
    } else {
        VectorLocation::Tmp { start: (tmp + tmp % 2) as usize }
    }
}

/// Why vector `id` is refused in a bulk lookup over `pages` pages: with a single
/// page its start is held against the page's size.
pub open spec fn bulk_error(pages: nat, ends: Seq<i64>, size: int, id: i32) -> Option<SimdError> {
    if pages == 1 {
        if size * id < ends[0] {
            None
        } else {
            Some(SimdError::OffsetExceedsChunkSize((size * id) as u64, ends[0] as u64))
        }
    } else {
        lookup_error(ends, size, id)
    }
}

/// The error of the first of the first `n` vectors that a bulk lookup refuses.
pub open spec fn first_bulk_error(
    pages: nat,
    ends: Seq<i64>,
    size: int,
    ids: Seq<i32>,
    n: nat,
) -> Option<SimdError>
    decreases n,
{
    if n == 0 {
        None
    } else {
        match first_bulk_error(pages, ends, size, ids, (n - 1) as nat) {
            Some(e) => Some(e),
            None => bulk_error(pages, ends, size, ids[n - 1]),
        }
    }
}

/// What saving a context asks of the Faiss distance computer.
#[derive(Debug, Clone, Copy, PartialEq, Eq, Structural)]
pub enum DistanceComputerChange {
    /// The one in place stays.
    Keep,
    /// A new one takes its place, made for the context's dimension and query.
    Replace { quantizer_type: i32, metric_type: i32 },
}

/// The distance computer that a function type needs: half-precision codes under
/// inner product or L2; the scalar quantized types need none.
pub open spec fn distance_computer_change(ord: int) -> DistanceComputerChange {
    if ord == 0 {
        DistanceComputerChange::Replace { quantizer_type: 0, metric_type: 0 }
    } else if ord == 1 {
        DistanceComputerChange::Replace { quantizer_type: 0, metric_type: 1 }
    } else {
        DistanceComputerChange::Keep
    }
}

/// `selected` implements the function type with ordinal `ord` by the given
/// instructions.
pub open spec fn selected_for(
    selected: SelectedFunction,
    ord: int,
    instructions: VectorInstructions,
) -> bool {
    &&& selected.instructions() == instructions
    &&& selected.follows_inner_product() == (ord == 0 || ord == 2)
    &&& selected.scores_quantized() == (ord == 2 || ord == 3)
}

/// `(dimension + 7) / 8`, rounded towards zero.
pub open spec fn code_bytes(dimension: int) -> int {
    if dimension + 7 >= 0 {
        (dimension + 7) / 8
    } else {
        -((-(dimension + 7)) / 8)
    }
}

/// The bytes of one stored vector: two per component for half precision; one bit
/// per component and sixteen bytes of corrections for scalar quantization.
pub open spec fn stored_vector_size(ord: int, dimension: int) -> int {
    if ord == 0 || ord == 1 {
        2 * dimension
    } else {
        code_bytes(dimension) + 16
    }
}

/// The query buffer once a query is saved: a larger query replaces it, another
/// overwrites its front.
pub open spec fn saved_query(buffer: Seq<u8>, query: Seq<u8>) -> Seq<u8> {
    if buffer.len() < query.len() {
        query
    } else {
        query + buffer.skip(query.len() as int)
    }
}

/// The front of the query buffer is the query that was saved last.
pub proof fn lemma_saved_query_in_front(buffer: Seq<u8>, query: Seq<u8>)
    ensures
        saved_query(buffer, query).take(query.len() as int) == query,
        saved_query(buffer, query).len() >= buffer.len(),
{
    assert(saved_query(buffer, query).take(query.len() as int) =~= query);
}

/// The bytes of a vector that hold one bit per component.
pub fn binary_code_bytes(dimension: i32) -> (n: i32)
    requires
        dimension <= i32::MAX - 7,
    ensures
        n == code_bytes(dimension as int),
{
    if dimension >= -7 {
        (dimension + 7) / 8
    } else {
        let away: u64 = (-(dimension as i64 + 7)) as u64;
        -((away / 8) as i32)
    }
}

/// The next multiple of 64 that holds `n` bytes.
pub fn simd_rounded_size(n: usize) -> (rounded: usize)
    requires
        n <= i32::MAX,
    ensures
        rounded % 64 == 0,
        n <= rounded < n + 64,
{
    ((n + 63) / 64) * 64
}

/// How many bytes a buffer of queries is aligned to.
pub const QUERY_ALIGNMENT: u64 = 64;

/// How far the next aligned address lies behind `address`.
pub fn alignment_gap(address: u64) -> (gap: usize)
    ensures
        gap < QUERY_ALIGNMENT,
        (address + gap) % QUERY_ALIGNMENT as int == 0,
{
    ((QUERY_ALIGNMENT - address % QUERY_ALIGNMENT) % QUERY_ALIGNMENT) as usize
}

/// Where each page ends when the pages are laid end to end: the running sums of
/// their sizes.
fn page_ends(pages: &Vec<&[u8]>) -> (ends: Vec<i64>)
    requires
        joined(pages@, pages@.len()).len() <= i64::MAX,
    ensures
        ends_fit(pages@, ends@),
{
    let mut ends: Vec<i64> = Vec::new();
    let mut total: i64 = 0;
    let mut i: usize = 0;
    while i < pages.len()
        invariant
            i <= pages.len(),
            ends@.len() == i,
            joined(pages@, pages@.len()).len() <= i64::MAX,
            total == joined(pages@, i as nat).len(),
            forall|j: int| 0 <= j < i ==> #[trigger] ends@[j] == joined(pages@, (j + 1) as nat).len(),
        decreases pages.len() - i,
    {
        let page = pages[i];
        proof {
            lemma_joined_grows(pages@, (i + 1) as nat, pages@.len());
        }
        total = total + page.len() as i64;
        ends.push(total);
        i = i + 1;
    }
    ends
}

/// More pages join to no fewer bytes.
proof fn lemma_joined_grows(pages: Seq<&[u8]>, m: nat, n: nat)
    requires
        m <= n,
    ensures
        joined(pages, m).len() <= joined(pages, n).len(),
    decreases n,
{
    if m < n {
        lemma_joined_grows(pages, m, (n - 1) as nat);
    }
}

/// The pages that Java passes as one array: address and size in turn.
pub fn page_table(address_and_size: &[i64]) -> (table: Vec<(i64, i64)>)
    requires
        address_and_size.len() % 2 == 0,
    ensures
        table@.len() == address_and_size@.len() / 2,
        forall|k: int|
            0 <= k < table@.len() ==> #[trigger] table@[k] == (
                address_and_size@[2 * k],
                address_and_size@[2 * k + 1],
            ),
{
    let mut table: Vec<(i64, i64)> = Vec::new();
    let mut i: usize = 0;
    while i < address_and_size.len()
        invariant
            i <= address_and_size.len(),
            i % 2 == 0,
            address_and_size.len() % 2 == 0,
            table@.len() == i / 2,
            forall|k: int|
                0 <= k < table@.len() ==> #[trigger] table@[k] == (
                    address_and_size@[2 * k],
                    address_and_size@[2 * k + 1],
                ),
        decreases address_and_size.len() - i,
    {
        table.push((address_and_size[i], address_and_size[i + 1]));
        i = i + 2;
    }
    table
}

impl<'a> Default for SimdVectorSearchContext<'a> {
    /// A context that no query was saved in, for vectors laid out as this machine does.
    fn default() -> (context: Self)
        ensures
            context.query_vector@.len() == 0,
            context.query_vector_byte_size == 0,
            context.dimension == 0,
            context.one_vector_byte_size == 0,
            context.mmap_pages@.len() == 0,
            context.mmap_page_sizes@.len() == 0,
            context.native_function_type_ord == -1,
            context.similarity_function is None,
            context.faiss_function.address == 0,
            context.tmp_buffer@.len() == 0,
            byte_order::is_native(context.byte_order),
    {
        SimdVectorSearchContext {
            query_vector: Vec::new(),
            query_vector_byte_size: 0,
            dimension: 0,
            one_vector_byte_size: 0,
            mmap_pages: Vec::new(),
            mmap_page_sizes: Vec::new(),
            native_function_type_ord: -1,
            similarity_function: None,
            faiss_function: FaissDistanceComputer { address: 0 },
            tmp_buffer: Vec::new(),
            byte_order: ByteOrder::native(),
        }
    }
}

/// `n` zero bytes.
pub open spec fn zeros(n: nat) -> Seq<u8> {
    Seq::new(n, |i: int| 0u8)
}

proof fn lemma_page_of(ends: Seq<i64>, start: int, from: int, j: int)
    requires
        0 <= from <= j <= ends.len(),
        forall|i: int| from <= i < j ==> ends[i] <= start,
        j < ends.len() ==> start < ends[j],
    ensures
        page_of(ends, start, from) == j,
    decreases j - from,
{
    if from < j {
        lemma_page_of(ends, start, from + 1, j);
    }
}

/// A bulk lookup that has failed stays failed.
pub proof fn lemma_first_bulk_error_stays(
    pages: nat,
    ends: Seq<i64>,
    size: int,
    ids: Seq<i32>,
    m: nat,
    n: nat,
)
    requires
        m <= n,
        first_bulk_error(pages, ends, size, ids, m) is Some,
    ensures
        first_bulk_error(pages, ends, size, ids, n) == first_bulk_error(pages, ends, size, ids, m),
    decreases n - m,
{
    if m < n {
        lemma_first_bulk_error_stays(pages, ends, size, ids, m, (n - 1) as nat);
    }
}

/// Where the first `from` vectors are found, a bulk lookup fails as it does on
/// the others.
pub proof fn lemma_first_bulk_error_skip(
    pages: nat,
    ends: Seq<i64>,
    size: int,
    ids: Seq<i32>,
    from: nat,
    k: nat,
)
    requires
        from + k <= ids.len(),
        first_bulk_error(pages, ends, size, ids, from) is None,
    ensures
        first_bulk_error(pages, ends, size, ids, from + k) == first_bulk_error(
            pages,
            ends,
            size,
            ids.skip(from as int),
            k,
        ),
    decreases k,
{
    if k > 0 {
        lemma_first_bulk_error_skip(pages, ends, size, ids, from, (k - 1) as nat);
    }
}

/// A page lies in the joined pages where the table says.
proof fn lemma_joined_page(pages: Seq<&[u8]>, ends: Seq<i64>, j: int, n: nat)
    requires
        ends_fit(pages, ends),
        0 <= j < n <= pages.len(),
    ensures
        0 <= page_start(ends, j) <= ends[j],
        ends[j] == page_start(ends, j) + pages[j]@.len(),
        ends[j] <= joined(pages, n).len(),
        joined(pages, n).subrange(page_start(ends, j), ends[j] as int) == pages[j]@,
    decreases n,
{
    let before = joined(pages, (n - 1) as nat);
    if j == n - 1 {
        assert(n >= 2 ==> ends[n - 2] == joined(pages, (n - 1) as nat).len());
        assert(page_start(ends, j) == before.len());
        assert(ends[j] == joined(pages, n).len());
        assert(joined(pages, n).subrange(before.len() as int, joined(pages, n).len() as int)
            =~= pages[j]@);
    } else {
        lemma_joined_page(pages, ends, j, (n - 1) as nat);
        assert(joined(pages, n).subrange(page_start(ends, j), ends[j] as int) =~= before.subrange(
            page_start(ends, j),
            ends[j] as int,
        ));
    }
}

/// Filling the room behind a prefix from its front leaves zeros behind what was
/// filled in.
proof fn lemma_fill_front(prefix: Seq<u8>, room: nat, part: Seq<u8>)
    requires
        part.len() <= room,
    ensures
        (prefix + zeros(room)).take(prefix.len() as int) + part + (prefix + zeros(room)).skip(
            (prefix.len() + part.len()) as int,
        ) == prefix + part + zeros((room - part.len()) as nat),
{
    assert((prefix + zeros(room)).take(prefix.len() as int) + part + (prefix + zeros(room)).skip(
        (prefix.len() + part.len()) as int,
    ) =~= prefix + part + zeros((room - part.len()) as nat));
}

/// Overwrites `count` bytes of `dest`, from `at` on, with those of `src`, from
/// `from` on.
fn copy_bytes(dest: &mut Vec<u8>, at: usize, src: &[u8], from: usize, count: usize)
    requires
        at + count <= old(dest).len(),
        from + count <= src.len(),
    ensures
        final(dest)@ == old(dest)@.take(at as int) + src@.subrange(from as int, from + count)
            + old(dest)@.skip(at + count),
{
    let mut i: usize = 0;
    while i < count
        invariant
            i <= count,
            at + count <= dest.len(),
            dest.len() == old(dest).len(),
            from + count <= src.len(),
            dest@ =~= old(dest)@.take(at as int) + src@.subrange(from as int, from + i) + old(
                dest,
            )@.skip(at + i),
        decreases count - i,
    {
        dest.set(at + i, src[from + i]);
        i = i + 1;
    }
}

impl<'a> SimdVectorSearchContext<'a> {
    /// The page table fits the pages.
    pub open spec fn wf(&self) -> bool {
        ends_fit(self.mmap_pages@, self.mmap_page_sizes@)
    }

    /// All mapped pages laid end to end: vector `id` is meant to start at `id`
    /// times the vector size.
    pub open spec fn mapped(&self) -> Seq<u8> {
        joined(self.mmap_pages@, self.mmap_pages@.len())
    }

    /// The bytes of vector `id`.
    pub open spec fn stored_vector(&self, id: i32) -> Seq<u8> {
        self.mapped().subrange(
            self.one_vector_byte_size * id,
            self.one_vector_byte_size * id + self.one_vector_byte_size,
        )
    }

    /// The bytes that a location stands for.
    pub open spec fn bytes_at(&self, location: VectorLocation) -> Seq<u8> {
        match location {
            VectorLocation::Page { page, offset } => self.mmap_pages@[page as int]@.subrange(
                offset as int,
                offset + self.one_vector_byte_size,
            ),
            VectorLocation::Tmp { start } => self.tmp_buffer@.subrange(
                start as int,
                start + self.one_vector_byte_size,
            ),
        }
    }

    /// A location lies within the memory that it names.
    pub open spec fn in_bounds(&self, location: VectorLocation) -> bool {
        match location {
            VectorLocation::Page { page, offset } => page < self.mmap_pages@.len() && offset
                + self.one_vector_byte_size <= self.mmap_pages@[page as int]@.len(),
            VectorLocation::Tmp { start } => start + self.one_vector_byte_size
                <= self.tmp_buffer@.len(),
        }
    }

    /// Everything but the temporary buffer is as in `other`.
    pub open spec fn same_but_tmp(&self, other: &Self) -> bool {
        &&& self.query_vector == other.query_vector
        &&& self.query_vector_byte_size == other.query_vector_byte_size
        &&& self.dimension == other.dimension
        &&& self.one_vector_byte_size == other.one_vector_byte_size
        &&& self.mmap_pages == other.mmap_pages
        &&& self.mmap_page_sizes == other.mmap_page_sizes
        &&& self.native_function_type_ord == other.native_function_type_ord
        &&& self.similarity_function == other.similarity_function
        &&& self.faiss_function == other.faiss_function
        &&& self.byte_order == other.byte_order
    }

    /// Locates vector `internal_vector_id`. A vector that spans two pages is
    /// copied to the temporary buffer, at an even offset.
    pub fn get_vector_pointer(&mut self, internal_vector_id: i32) -> (r: Result<
        VectorLocation,
        SimdError,
    >)
        requires
            old(self).wf(),
            0 <= internal_vector_id,
            0 <= old(self).one_vector_byte_size,
            old(self).mmap_pages@.len() > 1 ==> old(self).one_vector_byte_size > 0,
            old(self).one_vector_byte_size * (internal_vector_id + 1) <= u64::MAX,
            old(self).tmp_buffer@.len() + 1 + old(self).one_vector_byte_size <= usize::MAX,
        ensures
            final(self).same_but_tmp(old(self)),
            old(self).mmap_pages@.len() == 0 ==> r == Err::<VectorLocation, SimdError>(
                SimdError::NotInitialized,
            ),
            old(self).mmap_pages@.len() == 1 ==> r == Ok::<VectorLocation, SimdError>(
                VectorLocation::Page {
                    page: 0,
                    offset: (old(self).one_vector_byte_size * internal_vector_id) as u64,
                },
            ),
            old(self).mmap_pages@.len() > 1 ==> r == match lookup_error(
                old(self).mmap_page_sizes@,
                old(self).one_vector_byte_size as int,
                internal_vector_id,
            ) {
                Some(e) => Err::<VectorLocation, SimdError>(e),
                None => Ok(
                    located(
                        old(self).mmap_page_sizes@,
                        old(self).one_vector_byte_size as int,
                        internal_vector_id,
                        old(self).tmp_buffer@.len(),
                    ),
                ),
            },
            match r {
                Ok(VectorLocation::Tmp { .. }) => final(self).tmp_buffer@ == old(self).tmp_buffer@
                    + zeros(old(self).tmp_buffer@.len() % 2) + old(self).stored_vector(
                    internal_vector_id,
                ),
                Err(SimdError::SecondPartExceedsRegion(..)) => {
                    let start = old(self).one_vector_byte_size * internal_vector_id;
                    let end = old(self).mmap_page_sizes@[page_of(
                        old(self).mmap_page_sizes@,
                        start,
                        0,
                    )];
                    final(self).tmp_buffer@ == old(self).tmp_buffer@ + zeros(
                        old(self).tmp_buffer@.len() % 2,
                    ) + old(self).mapped().subrange(start, end as int) + zeros(
                        (start + old(self).one_vector_byte_size - end) as nat,
                    )
                },
                _ => final(self).tmp_buffer@ == old(self).tmp_buffer@,
            },
            old(self).tmp_buffer@.is_prefix_of(final(self).tmp_buffer@),
            final(self).tmp_buffer@.len() <= old(self).tmp_buffer@.len() + 1 + old(
                self,
            ).one_vector_byte_size,
            r is Ok && old(self).mmap_pages@.len() > 1 ==> {
                &&& final(self).in_bounds(r->Ok_0)
                &&& final(self).bytes_at(r->Ok_0) == old(self).stored_vector(internal_vector_id)
            },
    {
        if self.mmap_pages.len() == 1 {
            let offset = self.start_of(internal_vector_id);
            return Ok(VectorLocation::Page { page: 0, offset });
        }
        if self.mmap_pages.len() == 0 {
            return Err(SimdError::NotInitialized);
        }
        let start = self.start_of(internal_vector_id);
        let size = self.one_vector_byte_size as u64;
        let end = start + size;
        let ghost ends = self.mmap_page_sizes@;
        let ghost pages = self.mmap_pages@;
        let ghost all = self.mapped();
        let j = self.page_behind(start);
        if j >= self.mmap_page_sizes.len() {
            return Err(SimdError::RegionNotFound(internal_vector_id));
        }
        proof {
            lemma_joined_page(pages, ends, j as int, pages.len());
        }
        let region_start: u64 = if j == 0 {
            0
        } else {
            proof {
                lemma_joined_page(pages, ends, j - 1, pages.len());
            }
            self.mmap_page_sizes[j - 1] as u64
        };
        let region_end = self.mmap_page_sizes[j] as u64;
        let relative_offset = start - region_start;
        if end <= region_end {
            proof {
                assert(self.mapped().subrange(start as int, end as int)
                    =~= pages[j as int]@.subrange(
                    relative_offset as int,
                    relative_offset + size,
                ));
            }
            return Ok(VectorLocation::Page { page: j, offset: relative_offset });
        }
        if j + 1 >= self.mmap_page_sizes.len() || j + 1 >= self.mmap_pages.len() {
            return Err(
                SimdError::NoNextRegion(
                    internal_vector_id,
                    j as i32,
                    (j + 1) as i32,
                    self.mmap_page_sizes.len(),
                ),
            );
        }
        proof {
            lemma_joined_page(pages, ends, j + 1, pages.len());
        }
        self.copy_straddling(internal_vector_id, start, j, relative_offset)
    }

    /// Puts the saved query into a buffer, whose first byte lies at `address`, at the
    /// first place in it that is aligned.
    pub fn place_query(&self, buffer: &mut Vec<u8>, address: u64) -> (start: usize)
        requires
            self.query_vector@.len() + QUERY_ALIGNMENT <= old(buffer)@.len() + 1,
        ensures
            final(buffer)@.len() == old(buffer)@.len(),
            is_placed(self.query_vector@, final(buffer)@, address, start),
    {
        let start = alignment_gap(address);
        let count = self.query_vector.len();
        copy_bytes(buffer, start, self.query_vector.as_slice(), 0, count);
        assert(buffer@.subrange(start as int, start + count) =~= self.query_vector@);
        start
    }

    /// What looking up the first `n` of `ids` asks for: ids that count from zero,
    /// offsets that fit, and room in the temporary buffer.
    pub open spec fn can_look_up(&self, ids: Seq<i32>, n: int) -> bool {
        &&& self.wf()
        &&& 0 <= n <= ids.len()
        &&& 0 <= self.one_vector_byte_size
        &&& self.mmap_pages@.len() > 1 ==> self.one_vector_byte_size > 0
        &&& forall|i: int|
            0 <= i < n ==> 0 <= #[trigger] ids[i] && self.one_vector_byte_size * (ids[i] + 1)
                <= u64::MAX
        &&& self.tmp_buffer@.len() + n * (self.one_vector_byte_size + 1) <= usize::MAX
    }

    /// A location holds the bytes of vector `id`; in a single page it is the
    /// vector's offset.
    pub open spec fn locates(&self, location: VectorLocation, id: i32) -> bool {
        if self.mmap_pages@.len() == 1 {
            location == (VectorLocation::Page {
                page: 0,
                offset: (self.one_vector_byte_size * id) as u64,
            })
        } else {
            &&& self.in_bounds(location)
            &&& self.bytes_at(location) == self.stored_vector(id)
        }
    }

    /// Locations stay good while the temporary buffer grows at its end.
    pub proof fn lemma_locates_grown(&self, later: &Self, location: VectorLocation, id: i32)
        requires
            self.locates(location, id),
            later.same_but_tmp(self),
            self.tmp_buffer@.is_prefix_of(later.tmp_buffer@),
            0 <= self.one_vector_byte_size,
        ensures
            later.locates(location, id),
    {
        if self.mmap_pages@.len() != 1 {
            assert(later.bytes_at(location) =~= self.bytes_at(location));
        }
    }

    /// The temporary buffer is that of `before`, with at most `n` vectors and their
    /// padding behind it; nothing is behind it where no vector can span two pages.
    pub open spec fn grew_by(&self, before: &Self, n: int) -> bool {
        &&& before.tmp_buffer@.is_prefix_of(self.tmp_buffer@)
        &&& self.tmp_buffer@.len() <= before.tmp_buffer@.len() + n * (before.one_vector_byte_size
            + 1)
        &&& before.mmap_pages@.len() <= 1 ==> self.tmp_buffer@ == before.tmp_buffer@
    }

    /// The first `k` slots hold the locations of the first `k` of `ids`, and the others
    /// are as in `before`.
    pub open spec fn located_first(
        &self,
        slots: Seq<VectorLocation>,
        before: Seq<VectorLocation>,
        ids: Seq<i32>,
        k: int,
    ) -> bool {
        &&& slots.len() == before.len()
        &&& forall|i: int| 0 <= i < k ==> self.locates(#[trigger] slots[i], ids[i])
        &&& forall|i: int| k <= i < slots.len() ==> #[trigger] slots[i] == before[i]
    }

    /// Locates the first `num_vectors` of the given vectors and stores the locations
    /// into `vectors`. With a single page each start is held against the page's size.
    /// On an error the locations of the vectors before the one at fault are stored.
    pub fn get_vector_pointers_in_bulk(
        &mut self,
        vectors: &mut Vec<VectorLocation>,
        internal_vector_ids: &[i32],
        num_vectors: i32,
    ) -> (r: Result<(), SimdError>)
        requires
            old(self).can_look_up(internal_vector_ids@, num_vectors as int),
            num_vectors <= old(vectors)@.len(),
        ensures
            final(self).same_but_tmp(old(self)),
            final(self).grew_by(old(self), num_vectors as int),
            old(self).mmap_pages@.len() == 0 ==> {
                &&& r == Err::<(), SimdError>(SimdError::NotInitialized)
                &&& final(vectors)@ == old(vectors)@
            },
            old(self).mmap_pages@.len() > 0 ==> match first_bulk_error(
                old(self).mmap_pages@.len(),
                old(self).mmap_page_sizes@,
                old(self).one_vector_byte_size as int,
                internal_vector_ids@,
                num_vectors as nat,
            ) {
                Some(e) => {
                    &&& r == Err::<(), SimdError>(e)
                    &&& exists|k: int|
                        {
                            &&& 0 <= k < num_vectors
                            &&& first_bulk_error(
                                old(self).mmap_pages@.len(),
                                old(self).mmap_page_sizes@,
                                old(self).one_vector_byte_size as int,
                                internal_vector_ids@,
                                k as nat,
                            ) is None
                            &&& bulk_error(
                                old(self).mmap_pages@.len(),
                                old(self).mmap_page_sizes@,
                                old(self).one_vector_byte_size as int,
                                internal_vector_ids@[k],
                            ) == Some(e)
                            &&& #[trigger] final(self).located_first(
                                final(vectors)@,
                                old(vectors)@,
                                internal_vector_ids@,
                                k,
                            )
                        }
                },
                None => {
                    &&& r == Ok::<(), SimdError>(())
                    &&& final(self).located_first(
                        final(vectors)@,
                        old(vectors)@,
                        internal_vector_ids@,
                        num_vectors as int,
                    )
                },
            },
    {
        let num = num_vectors as usize;
        let ghost size = self.one_vector_byte_size as int;
        let ghost ends = self.mmap_page_sizes@;
        let ghost pages = self.mmap_pages@.len();
        let ghost before = self.tmp_buffer@;
        proof {
            assert(0 <= num_vectors * (size + 1)) by (nonlinear_arith)
                requires
                    0 <= num_vectors,
                    0 <= size,
            ;
            assert(0 * (size + 1) == 0) by (nonlinear_arith);
        }
        if self.mmap_pages.len() == 0 {
            return Err(SimdError::NotInitialized);
        }
        let mut i: usize = 0;
        while i < num
            invariant
                num == num_vectors,
                i <= num,
                num <= old(vectors)@.len(),
                old(self).can_look_up(internal_vector_ids@, num_vectors as int),
                size == old(self).one_vector_byte_size,
                ends == old(self).mmap_page_sizes@,
                pages == old(self).mmap_pages@.len(),
                pages > 0,
                before == old(self).tmp_buffer@,
                self.same_but_tmp(old(self)),
                before.is_prefix_of(self.tmp_buffer@),
                self.tmp_buffer@.len() <= before.len() + i * (size + 1),
                pages == 1 ==> self.tmp_buffer@ == before,
                first_bulk_error(pages, ends, size, internal_vector_ids@, i as nat) is None,
                self.located_first(vectors@, old(vectors)@, internal_vector_ids@, i as int),
            decreases num - i,
        {
            let id = internal_vector_ids[i];
            proof {
                assert(i * (size + 1) + (size + 1) == (i + 1) * (size + 1)) by (nonlinear_arith);
                assert((i + 1) * (size + 1) <= num * (size + 1)) by (nonlinear_arith)
                    requires
                        i + 1 <= num,
                        0 <= size,
                ;
            }
            let ghost earlier = *self;
            let ghost slots = vectors@;
            let found = if self.mmap_pages.len() == 1 {
                let offset = self.start_of(id);
                let page_size = self.page_size_of_only_page();
                if offset >= page_size {
                    Err(SimdError::OffsetExceedsChunkSize(offset, page_size))
                } else {
                    Ok(VectorLocation::Page { page: 0, offset })
                }
            } else {
                self.get_vector_pointer(id)
            };
            proof {
                assert forall|k: int| 0 <= k < i implies self.locates(
                    #[trigger] slots[k],
                    internal_vector_ids@[k],
                ) by {
                    earlier.lemma_locates_grown(self, slots[k], internal_vector_ids@[k]);
                }
                assert(self.located_first(slots, old(vectors)@, internal_vector_ids@, i as int));
                assert(self.stored_vector(id) == old(self).stored_vector(id));
            }
            match found {
                Ok(location) => {
                    vectors.set(i, location);
                },
                Err(e) => {
                    proof {
                        lemma_first_bulk_error_stays(
                            pages,
                            ends,
                            size,
                            internal_vector_ids@,
                            (i + 1) as nat,
                            num as nat,
                        );
                    }
                    return Err(e);
                },
            }
            i = i + 1;
        }
        Ok(())
    }

    /// The locations of the first `num_vectors` of the given vectors.
    pub(crate) fn locate_all(&mut self, internal_vector_ids: &[i32], num_vectors: i32) -> (r: Result<
        Vec<VectorLocation>,
        SimdError,
    >)
        requires
            old(self).can_look_up(internal_vector_ids@, num_vectors as int),
        ensures
            final(self).same_but_tmp(old(self)),
            final(self).grew_by(old(self), num_vectors as int),
            old(self).mmap_pages@.len() == 0 ==> r == Err::<Vec<VectorLocation>, SimdError>(
                SimdError::NotInitialized,
            ),
            old(self).mmap_pages@.len() > 0 ==> match first_bulk_error(
                old(self).mmap_pages@.len(),
                old(self).mmap_page_sizes@,
                old(self).one_vector_byte_size as int,
                internal_vector_ids@,
                num_vectors as nat,
            ) {
                Some(e) => r == Err::<Vec<VectorLocation>, SimdError>(e),
                None => {
                    &&& r is Ok
                    &&& r->Ok_0@.len() == num_vectors
                    &&& forall|i: int|
                        0 <= i < num_vectors ==> final(self).locates(
                            #[trigger] r->Ok_0@[i],
                            internal_vector_ids@[i],
                        )
                },
            },
    {
        let mut vectors: Vec<VectorLocation> = Vec::new();
        let mut i: i32 = 0;
        while i < num_vectors
            invariant
                0 <= i <= num_vectors,
                vectors@.len() == i,
            decreases num_vectors - i,
        {
            vectors.push(VectorLocation::Tmp { start: 0 });
            i = i + 1;
        }
        match self.get_vector_pointers_in_bulk(&mut vectors, internal_vector_ids, num_vectors) {
            Ok(_) => Ok(vectors),
            Err(e) => Err(e),
        }
    }

    fn page_size_of_only_page(&self) -> (size: u64)
        requires
            self.wf(),
            self.mmap_pages@.len() == 1,
        ensures
            size == self.mmap_page_sizes@[0],
    {
        assert(self.mmap_page_sizes@[0] == joined(self.mmap_pages@, 1).len());
        self.mmap_page_sizes[0] as u64
    }

    /// Copies a vector that starts in page `j` and goes on in the next page to
    /// the temporary buffer.
    fn copy_straddling(&mut self, internal_vector_id: i32, start: u64, j: usize, relative_offset: u64) -> (r: Result<VectorLocation, SimdError>)
        requires
            old(self).wf(),
            0 < old(self).one_vector_byte_size,
            start == old(self).one_vector_byte_size * internal_vector_id,
            start + old(self).one_vector_byte_size <= u64::MAX,
            old(self).tmp_buffer@.len() + 1 + old(self).one_vector_byte_size <= usize::MAX,
            j + 1 < old(self).mmap_pages.len(),
            page_start(old(self).mmap_page_sizes@, j as int) <= start < old(self).mmap_page_sizes@[j as int],
            relative_offset == start - page_start(old(self).mmap_page_sizes@, j as int),
            start + old(self).one_vector_byte_size > old(self).mmap_page_sizes@[j as int],
        ensures
            final(self).same_but_tmp(old(self)),
            final(self).tmp_buffer@.len() <= old(self).tmp_buffer@.len() + 1 + old(
                self,
            ).one_vector_byte_size,
            ({
                let size = old(self).one_vector_byte_size;
                let ends = old(self).mmap_page_sizes@;
                let all = old(self).mapped();
                let tmp = old(self).tmp_buffer@;
                if start + size > ends[j + 1] {
                    &&& r == Err::<VectorLocation, SimdError>(SimdError::SecondPartExceedsRegion(
                        internal_vector_id,
                        j as i32,
                        (j + 1) as i32,
                        (start + size - ends[j as int]) as i32,
                        (ends[j + 1] - ends[j as int]) as u64,
                    ))
                    &&& final(self).tmp_buffer@ == tmp + zeros(tmp.len() % 2) + all.subrange(start as int, ends[j as int] as int) + zeros((start + size - ends[j as int]) as nat)
                } else {
                    &&& r == Ok::<VectorLocation, SimdError>(VectorLocation::Tmp { start: (tmp.len() + tmp.len() % 2) as usize })
                    &&& final(self).tmp_buffer@ == tmp + zeros(tmp.len() % 2) + all.subrange(start as int, start + size)
                }
            }),
    {
        let size = self.one_vector_byte_size as u64;
        let ghost ends = self.mmap_page_sizes@;
        let ghost pages = self.mmap_pages@;
        let ghost all = self.mapped();
        proof {
            lemma_joined_page(pages, ends, j as int, pages.len());
            lemma_joined_page(pages, ends, j + 1, pages.len());
        }
        let region_end = self.mmap_page_sizes[j] as u64;
        let page = self.mmap_pages[j];
        assert(relative_offset < page.len());
        let old_len = self.tmp_buffer.len();
        let padding = old_len % 2;
        let copy_dest_index = old_len + padding;
        self.tmp_buffer.resize(copy_dest_index + size as usize, 0);
        let ghost prefix = old(self).tmp_buffer@ + zeros(padding as nat);
        assert(self.tmp_buffer@ =~= prefix + zeros(size as nat)) by {
            let grown = self.tmp_buffer@;
            assert forall|i: int| 0 <= i < old_len implies grown[i] == old(self).tmp_buffer@[i] by {
                assert(grown[i] == grown.subrange(0, old_len as int)[i]);
            }
        }
        let first_part_size = (region_end - start) as usize;
        let ghost first = all.subrange(start as int, region_end as int);
        copy_bytes(
            &mut self.tmp_buffer,
            copy_dest_index,
            page,
            relative_offset as usize,
            first_part_size,
        );
        let second_part_size = size as usize - first_part_size;
        let next_region_size = (self.mmap_page_sizes[j + 1] - self.mmap_page_sizes[j]) as u64;
        proof {
            assert(pages[j as int]@.subrange(relative_offset as int, relative_offset + first_part_size)
                =~= first);
            lemma_fill_front(prefix, size as nat, first);
        }
        assert(self.tmp_buffer@ == prefix + first + zeros(second_part_size as nat));
        if second_part_size as u64 > next_region_size {
            return Err(
                SimdError::SecondPartExceedsRegion(
                    internal_vector_id,
                    j as i32,
                    (j + 1) as i32,
                    second_part_size as i32,
                    next_region_size,
                ),
            );
        }
        let ghost second = all.subrange(region_end as int, start + size);
        copy_bytes(
            &mut self.tmp_buffer,
            copy_dest_index + first_part_size,
            self.mmap_pages[j + 1],
            0,
            second_part_size,
        );
        proof {
            assert(pages[j + 1]@.subrange(0, second_part_size as int) =~= second);
            lemma_fill_front(prefix + first, second_part_size as nat, second);
            assert(self.tmp_buffer@ =~= prefix + (first + second));
            assert(first + second =~= all.subrange(start as int, start + size));
        }
        Ok(VectorLocation::Tmp { start: copy_dest_index })
    }

    /// The first page that ends behind `start`.
    fn page_behind(&self, start: u64) -> (j: usize)
        requires
            self.wf(),
        ensures
            j == page_of(self.mmap_page_sizes@, start as int, 0),
            j <= self.mmap_page_sizes@.len(),
            j < self.mmap_page_sizes@.len() ==> start < self.mmap_page_sizes@[j as int],
            forall|i: int| 0 <= i < j ==> self.mmap_page_sizes@[i] <= start,
    {
        let ghost ends = self.mmap_page_sizes@;
        let mut j: usize = 0;
        while j < self.mmap_page_sizes.len()
            invariant
                self.wf(),
                ends == self.mmap_page_sizes@,
                0 <= j <= ends.len(),
                forall|i: int| 0 <= i < j ==> ends[i] <= start,
            decreases ends.len() - j,
        {
            proof {
                lemma_joined_page(self.mmap_pages@, ends, j as int, self.mmap_pages@.len());
            }
            if start < self.mmap_page_sizes[j] as u64 {
                proof {
                    lemma_page_of(ends, start as int, 0, j as int);
                }
                return j;
            }
            j = j + 1;
        }
        proof {
            lemma_page_of(ends, start as int, 0, j as int);
        }
        j
    }

    /// Where vector `internal_vector_id` starts when the pages are laid end to
    /// end.
    fn start_of(&self, internal_vector_id: i32) -> (start: u64)
        requires
            0 <= internal_vector_id,
            0 <= self.one_vector_byte_size,
            self.one_vector_byte_size * (internal_vector_id + 1) <= u64::MAX,
        ensures
            start == self.one_vector_byte_size * internal_vector_id,
            start + self.one_vector_byte_size <= u64::MAX,
    {
        let size = self.one_vector_byte_size as u64;
        let id = internal_vector_id as u64;
        assert(size * id + size == size * (id + 1)) by (nonlinear_arith);
        assert(0 <= size * id) by (nonlinear_arith);
        size * id
    }

    /// The bytes at a location.
    pub fn vector_bytes(&self, location: VectorLocation) -> (bytes: &[u8])
        requires
            self.in_bounds(location),
            0 <= self.one_vector_byte_size,
        ensures
            bytes@ == self.bytes_at(location),
    {
        let size = self.one_vector_byte_size;
        match location {
            VectorLocation::Page { page, offset } => {
                let bytes = self.mmap_pages[page];
                assert(offset + size <= bytes.len());
                vstd::slice::slice_subrange(bytes, offset as usize, offset as usize + size as usize)
            },
            VectorLocation::Tmp { start } => {
                let bytes = self.tmp_buffer.as_slice();
                assert(start + size <= bytes.len());
                vstd::slice::slice_subrange(bytes, start, start + size as usize)
            },
        }
    }

    /// The query buffer is as long as the largest query so far.
    pub open spec fn query_wf(&self) -> bool {
        self.query_vector@.len() == self.query_vector_byte_size
    }

    /// Makes the context ready for a query over the given pages: takes the query,
    /// the vector layout of the function type and the page table, and empties the
    /// temporary buffer. Says what becomes of the distance computer.
    pub fn save_search_context(
        &mut self,
        query: &[u8],
        dimension: i32,
        pages: Vec<&'a [u8]>,
        native_function_type_ord: i32,
        instructions: VectorInstructions,
    ) -> (r: Result<DistanceComputerChange, SimdError>)
        requires
            old(self).query_wf(),
            query.len() <= i32::MAX,
            2 <= native_function_type_ord <= 3 ==> dimension <= i32::MAX - 7,
            joined(pages@, pages@.len()).len() <= i64::MAX,
        ensures
            match r {
                Err(e) => {
                    &&& !(0 <= native_function_type_ord <= 3)
                    &&& e == SimdError::InvalidFunctionType(native_function_type_ord)
                },
                Ok(change) => {
                    &&& 0 <= native_function_type_ord <= 3
                    &&& change == distance_computer_change(native_function_type_ord as int)
                    &&& final(self).mmap_pages == pages
                    &&& selected_for(
                        final(self).similarity_function->0,
                        native_function_type_ord as int,
                        instructions,
                    )
                },
            },
            saves(
                *old(self),
                SaveView { query: query@, dimension, pages: pages@, ord: native_function_type_ord },
                *final(self),
            ),
    {
        let function_type = match NativeSimilarityFunctionType::from_ordinal(
            native_function_type_ord,
        ) {
            Ok(function_type) => function_type,
            Err(e) => return Err(e),
        };
        self.tmp_buffer = Vec::new();
        self.save_query(query);
        let (size, change) = match function_type {
            NativeSimilarityFunctionType::Fp16MaximumInnerProduct => (
                2 * dimension as i64,
                DistanceComputerChange::Replace { quantizer_type: 0, metric_type: 0 },
            ),
            NativeSimilarityFunctionType::Fp16L2 => (
                2 * dimension as i64,
                DistanceComputerChange::Replace { quantizer_type: 0, metric_type: 1 },
            ),
            NativeSimilarityFunctionType::SqIp | NativeSimilarityFunctionType::SqL2 => (
                binary_code_bytes(dimension) as i64 + 16,
                DistanceComputerChange::Keep,
            ),
        };
        self.similarity_function = Some(select_similarity_function(function_type, instructions));
        self.one_vector_byte_size = size;
        self.native_function_type_ord = native_function_type_ord;
        self.dimension = dimension;
        self.mmap_page_sizes = page_ends(&pages);
        self.mmap_pages = pages;
        Ok(change)
    }

    /// Takes the bytes of a query into the buffer, which grows where the query is
    /// larger than any before.
    fn save_query(&mut self, query: &[u8])
        requires
            old(self).query_wf(),
            query.len() <= i32::MAX,
        ensures
            final(self).query_wf(),
            final(self).query_vector@ == saved_query(old(self).query_vector@, query@),
            final(self).tmp_buffer == old(self).tmp_buffer,
            final(self).faiss_function == old(self).faiss_function,
            final(self).byte_order == old(self).byte_order,
    {
        let len = query.len();
        if self.query_vector_byte_size < len as i32 {
            let mut grown: Vec<u8> = Vec::with_capacity(simd_rounded_size(len));
            let mut i: usize = 0;
            while i < len
                invariant
                    i <= len,
                    len == query.len(),
                    grown@ =~= query@.take(i as int),
                decreases len - i,
            {
                grown.push(query[i]);
                i = i + 1;
            }
            self.query_vector = grown;
            self.query_vector_byte_size = len as i32;
        } else {
            assert(query@.subrange(0, len as int) =~= query@);
            copy_bytes(&mut self.query_vector, 0, query, 0, len);
        }
        assert(self.query_vector@ =~= saved_query(old(self).query_vector@, query@));
    }
}

/// What is asked to be saved in a context.
pub struct SaveView<'a> {
    pub query: Seq<u8>,
    pub dimension: i32,
    pub pages: Seq<&'a [u8]>,
    /// The ordinal of the function type.
    pub ord: i32,
}

impl<'a> SaveView<'a> {
    /// There is a function type of this ordinal.
    pub open spec fn is_known(&self) -> bool {
        0 <= self.ord <= 3
    }
}

/// What saving makes of a context: all but the largest query so far, the distance
/// computer and the byte order is new. An unknown function type changes nothing.
pub open spec fn saves<'a>(
    before: SimdVectorSearchContext<'a>,
    save: SaveView<'a>,
    after: SimdVectorSearchContext<'a>,
) -> bool {
    if save.is_known() {
        &&& after.wf()
        &&& after.query_wf()
        &&& after.query_vector@ == saved_query(before.query_vector@, save.query)
        &&& after.dimension == save.dimension
        &&& after.one_vector_byte_size == stored_vector_size(
            save.ord as int,
            save.dimension as int,
        )
        &&& after.mmap_pages@ == save.pages
        &&& after.native_function_type_ord == save.ord
        &&& after.similarity_function is Some
        &&& after.faiss_function == before.faiss_function
        &&& after.tmp_buffer@ == Seq::<u8>::empty()
        &&& after.byte_order == before.byte_order
    } else {
        after == before
    }
}

/// The sizes of the first `n` pages, added up.
pub open spec fn total_size(pages: Seq<&[u8]>, n: nat) -> nat
    decreases n,
{
    if n == 0 {
        0
    } else {
        total_size(pages, (n - 1) as nat) + pages[n - 1]@.len()
    }
}

proof fn lemma_joined_size(pages: Seq<&[u8]>, n: nat)
    ensures
        joined(pages, n).len() == total_size(pages, n),
    decreases n,
{
    if n > 0 {
        lemma_joined_size(pages, (n - 1) as nat);
    }
}

/// The contexts come from a new one, each from the one before by a save.
pub open spec fn saved_in_turn<'a>(
    contexts: Seq<SimdVectorSearchContext<'a>>,
    requests: Seq<SaveView<'a>>,
) -> bool {
    &&& contexts.len() == requests.len() + 1
    &&& contexts[0].query_wf()
    &&& contexts[0].query_vector@.len() == 0
    &&& forall|k: int|
        0 <= k < requests.len() ==> saves(contexts[k], #[trigger] requests[k], contexts[k + 1])
}

/// After any saves, the query buffer is as long as the longest query that was taken in;
/// it is empty where none was.
proof fn lemma_largest_query<'a>(
    contexts: Seq<SimdVectorSearchContext<'a>>,
    requests: Seq<SaveView<'a>>,
)
    requires
        saved_in_turn(contexts, requests),
    ensures
        contexts.last().query_wf(),
        forall|k: int|
            0 <= k < requests.len() && (#[trigger] requests[k]).is_known() ==> requests[k].query.len()
                <= contexts.last().query_vector@.len(),
        contexts.last().query_vector@.len() == 0 || exists|k: int|
            0 <= k < requests.len() && (#[trigger] requests[k]).is_known()
                && requests[k].query.len() == contexts.last().query_vector@.len(),
    decreases requests.len(),
{
    if requests.len() > 0 {
        let (before, asked) = (contexts.drop_last(), requests.drop_last());
        assert forall|k: int| 0 <= k < asked.len() implies saves(
            before[k],
            #[trigger] asked[k],
            before[k + 1],
        ) by {
            assert(saves(contexts[k], requests[k], contexts[k + 1]));
        }
        lemma_largest_query(before, asked);
        let last = requests.last();
        assert(saves(before.last(), requests[requests.len() - 1], contexts.last()));
        lemma_saved_query_in_front(before.last().query_vector@, last.query);
        assert forall|k: int|
            0 <= k < requests.len() && (#[trigger] requests[k]).is_known() implies requests[k].query.len()
            <= contexts.last().query_vector@.len() by {
            if k < asked.len() {
                assert(asked[k] == requests[k]);
            }
        }
        let (held, size) = (before.last().query_vector@.len(), contexts.last().query_vector@.len());
        if last.is_known() && size == last.query.len() {
            assert(requests[requests.len() - 1].query.len() == size);
        } else if size > 0 {
            assert(size == held);
            let k = choose|k: int|
                0 <= k < asked.len() && (#[trigger] asked[k]).is_known() && asked[k].query.len()
                    == held;
            assert(requests[k] == asked[k]);
        }
    }
}

/// After any saves of which the last is of a known function type, nothing is left of the
/// earlier ones but the largest query: the page table has the running sums of the sizes
/// of the last pages, the buffer is as long as the longest query and begins with the
/// last one, also where it is placed at an aligned address, and the temporary buffer is
/// empty.
pub proof fn lemma_last_save_counts<'a>(
    contexts: Seq<SimdVectorSearchContext<'a>>,
    requests: Seq<SaveView<'a>>,
)
    requires
        requests.len() > 0,
        saved_in_turn(contexts, requests),
        requests.last().is_known(),
    ensures
        ({
            let (context, save) = (contexts.last(), requests.last());
            &&& context.mmap_pages@ == save.pages
            &&& context.mmap_page_sizes@.len() == save.pages.len()
            &&& forall|i: int|
                0 <= i < save.pages.len() ==> #[trigger] context.mmap_page_sizes@[i] == total_size(
                    save.pages,
                    (i + 1) as nat,
                )
            &&& context.one_vector_byte_size == if save.ord == 0 || save.ord == 1 {
                2 * save.dimension
            } else {
                code_bytes(save.dimension as int) + 16
            }
            &&& context.tmp_buffer@.len() == 0
            &&& context.query_vector@.take(save.query.len() as int) == save.query
            &&& forall|k: int|
                0 <= k < requests.len() && (#[trigger] requests[k]).is_known()
                    ==> requests[k].query.len() <= context.query_vector_byte_size
            &&& exists|k: int|
                0 <= k < requests.len() && (#[trigger] requests[k]).is_known()
                    && requests[k].query.len() == context.query_vector_byte_size
            &&& forall|buffer: Seq<u8>, address: u64, start: usize| #[trigger]
                is_placed(context.query_vector@, buffer, address, start) ==> {
                    &&& (address + start) % QUERY_ALIGNMENT as int == 0
                    &&& buffer.subrange(start as int, start + save.query.len()) == save.query
                }
        }),
{
    let (context, save) = (contexts.last(), requests.last());
    let last = requests.len() - 1;
    assert(saves(contexts[last], requests[last], contexts[last + 1]));
    lemma_largest_query(contexts, requests);
    lemma_saved_query_in_front(contexts[last].query_vector@, save.query);
    if context.query_vector@.len() == 0 {
        assert(requests[last].query.len() == 0);
    }
    assert forall|i: int| 0 <= i < save.pages.len() implies #[trigger] context.mmap_page_sizes@[i]
        == total_size(save.pages, (i + 1) as nat) by {
        lemma_joined_size(save.pages, (i + 1) as nat);
    }
    assert forall|buffer: Seq<u8>, address: u64, start: usize| #[trigger]
        is_placed(context.query_vector@, buffer, address, start) implies {
        &&& (address + start) % QUERY_ALIGNMENT as int == 0
        &&& buffer.subrange(start as int, start + save.query.len()) == save.query
    } by {
        let n = save.query.len() as int;
        let placed = buffer.subrange(start as int, start + context.query_vector@.len());
        assert(buffer.subrange(start as int, start + n) =~= placed.take(n));
    }
}

/// A query lies in a buffer from `start` on, at an aligned address, where the buffer
/// lies at `address`.
pub open spec fn is_placed(query: Seq<u8>, buffer: Seq<u8>, address: u64, start: usize) -> bool {
    &&& start < QUERY_ALIGNMENT
    &&& (address + start) % QUERY_ALIGNMENT as int == 0
    &&& start + query.len() <= buffer.len()
    &&& buffer.subrange(start as int, start + query.len()) == query
}

/// The mapped memory is the pages laid end to end: byte `k` of page `j` stands behind the bytes
/// of the pages before it and the `k` bytes before it in its own.
pub proof fn lemma_mapped_bytes(pages: Seq<&[u8]>, n: nat, j: int, k: int)
    requires
        0 <= j < n <= pages.len(),
        0 <= k < pages[j]@.len(),
    ensures
        joined(pages, n).len() == total_size(pages, n),
        total_size(pages, j as nat) + k < joined(pages, n).len(),
        joined(pages, n)[total_size(pages, j as nat) + k] == pages[j]@[k],
    decreases n,
{
    lemma_joined_size(pages, n);
    lemma_joined_size(pages, (n - 1) as nat);
    if j < n - 1 {
        lemma_mapped_bytes(pages, (n - 1) as nat, j, k);
    }
}

proof fn lemma_first_page(ends: Seq<i64>, start: int, from: int)
    requires
        0 <= from <= ends.len(),
    ensures
        from <= page_of(ends, start, from) <= ends.len(),
        forall|i: int| from <= i < page_of(ends, start, from) ==> #[trigger] ends[i] <= start,
        page_of(ends, start, from) < ends.len() ==> start < ends[page_of(ends, start, from)],
    decreases ends.len() - from,
{
    if from < ends.len() && !(start < ends[from]) {
        lemma_first_page(ends, start, from + 1);
    }
}

/// The bytes from `start` on lie in page `j`, or in that page and the next.
pub open spec fn lie_from_page(ends: Seq<i64>, start: int, size: int, j: int) -> bool {
    &&& 0 <= j < ends.len()
    &&& j > 0 ==> ends[j - 1] <= start
    &&& start < ends[j]
    &&& start + size <= ends[j] || (j + 1 < ends.len() && start + size <= ends[j + 1])
}

/// Page ends do not decrease.
pub proof fn lemma_ends_grow(pages: Seq<&[u8]>, ends: Seq<i64>, i: int, j: int)
    requires
        ends_fit(pages, ends),
        0 <= i <= j < ends.len(),
    ensures
        ends[i] <= ends[j],
        ends[j] == total_size(pages, (j + 1) as nat),
{
    lemma_joined_grows(pages, (i + 1) as nat, (j + 1) as nat);
    lemma_joined_size(pages, (j + 1) as nat);
}

/// A vector is found in several pages where it lies in one of them or in two that follow each
/// other. What is found are its bytes: byte `k` is byte `k` from where the vector starts in the
/// mapped memory, which is its id times the size of a vector. A vector that starts behind the
/// last page has no region. What was in the temporary buffer stays there, and a vector that is
/// copied there lies at an even place.
pub proof fn lemma_vector_found<'a>(
    context: &mut SimdVectorSearchContext<'a>,
    id: i32,
    r: Result<VectorLocation, SimdError>,
)
    requires
        old(context).wf(),
        0 <= id,
        0 < old(context).one_vector_byte_size,
        old(context).mmap_pages@.len() > 1,
        old(context).one_vector_byte_size * (id + 1) <= u64::MAX,
        old(context).tmp_buffer@.len() + 1 + old(context).one_vector_byte_size <= usize::MAX,
        call_ensures(SimdVectorSearchContext::get_vector_pointer, (context, id), r),
    ensures
        ({
            let size = old(context).one_vector_byte_size as int;
            let start = id * size;
            let ends = old(context).mmap_page_sizes@;
            &&& r is Ok <==> exists|j: int| #[trigger] lie_from_page(ends, start, size, j)
            &&& start >= ends.last() ==> r == Err::<VectorLocation, SimdError>(
                SimdError::RegionNotFound(id),
            )
            &&& old(context).tmp_buffer@.is_prefix_of(final(context).tmp_buffer@)
            &&& match r {
                Ok(VectorLocation::Page { page, offset }) => {
                    let bytes = final(context).mmap_pages@[page as int]@;
                    &&& page < final(context).mmap_pages@.len()
                    &&& offset + size <= bytes.len()
                    &&& forall|k: int|
                        0 <= k < size ==> bytes[offset + k] == #[trigger] old(
                            context,
                        ).mapped()[start + k]
                },
                Ok(VectorLocation::Tmp { start: at }) => {
                    let bytes = final(context).tmp_buffer@;
                    &&& at % 2 == 0
                    &&& old(context).tmp_buffer@.len() <= at
                    &&& at + size <= bytes.len()
                    &&& forall|k: int|
                        0 <= k < size ==> bytes[at + k] == #[trigger] old(context).mapped()[start
                            + k]
                },
                Err(_) => true,
            }
        }),
{
    let size = old(context).one_vector_byte_size as int;
    let start = id * size;
    let ends = old(context).mmap_page_sizes@;
    let pages = old(context).mmap_pages@;
    assert(size * id == id * size && size * (id + 1) == id * size + size) by (nonlinear_arith);
    assert(0 <= id * size) by (nonlinear_arith)
        requires
            0 <= id,
            0 < size,
    ;
    lemma_first_page(ends, start, 0);
    let j = page_of(ends, start, 0);
    if start >= ends.last() {
        if j < ends.len() {
            lemma_ends_grow(pages, ends, j, ends.len() - 1);
        }
    }
    if r is Ok {
        assert(lie_from_page(ends, start, size, j));
    }
    assert forall|i: int| #[trigger] lie_from_page(ends, start, size, i) implies r is Ok by {
        if i < j {
            assert(ends[i] <= start);
        }
        if j < i {
            lemma_ends_grow(pages, ends, j, i - 1);
        }
        assert(i == j);
    }
    if let Ok(location) = r {
        lemma_ends_grow(pages, ends, j, ends.len() - 1);
        if j + 1 < ends.len() {
            lemma_ends_grow(pages, ends, j + 1, ends.len() - 1);
        }
        assert(ends[ends.len() - 1] == joined(pages, pages.len()).len());
        let all = old(context).mapped();
        assert(start + size <= all.len());
        let found = final(context).bytes_at(location);
        assert(found == all.subrange(start, start + size));
        match location {
            VectorLocation::Page { page, offset } => {
                let bytes = final(context).mmap_pages@[page as int]@;
                assert forall|k: int| 0 <= k < size implies bytes[offset + k]
                    == #[trigger] all[start + k] by {
                    assert(found[k] == bytes[offset + k]);
                    assert(all.subrange(start, start + size)[k] == all[start + k]);
                }
            },
            VectorLocation::Tmp { start: at } => {
                let bytes = final(context).tmp_buffer@;
                assert forall|k: int| 0 <= k < size implies bytes[at + k]
                    == #[trigger] all[start + k] by {
                    assert(found[k] == bytes[at + k]);
                    assert(all.subrange(start, start + size)[k] == all[start + k]);
                }
            },
        }
    }
}

/// In a single page a vector lies at its id times the size of a vector, and nowhere where there
/// is no page. Nothing changes.
pub proof fn lemma_vector_in_single_page<'a>(
    context: &mut SimdVectorSearchContext<'a>,
    id: i32,
    r: Result<VectorLocation, SimdError>,
)
    requires
        old(context).wf(),
        0 <= id,
        0 <= old(context).one_vector_byte_size,
        old(context).mmap_pages@.len() <= 1,
        old(context).one_vector_byte_size * (id + 1) <= u64::MAX,
        call_ensures(SimdVectorSearchContext::get_vector_pointer, (context, id), r),
    ensures
        old(context).mmap_pages@.len() == 0 ==> r == Err::<VectorLocation, SimdError>(
            SimdError::NotInitialized,
        ),
        old(context).mmap_pages@.len() == 1 ==> (r matches Ok(
            VectorLocation::Page { page, offset },
        ) && page == 0 && offset == id * old(context).one_vector_byte_size),
        final(context).tmp_buffer@ == old(context).tmp_buffer@,
{
    let size = old(context).one_vector_byte_size as int;
    assert(size * id == id * size && size * (id + 1) == id * size + size) by (nonlinear_arith);
    assert(0 <= id * size) by (nonlinear_arith)
        requires
            0 <= id,
            0 <= size,
    ;
}

/// A bulk lookup fails where one of its vectors is refused, and then with the error of the first
/// that is. In a single page a vector is refused that starts behind the page, and in several
/// pages one that does not lie in one of them or in two that follow each other.
pub proof fn lemma_first_refused(pages: Seq<&[u8]>, ends: Seq<i64>, size: int, ids: Seq<i32>, n: nat)
    requires
        ends_fit(pages, ends),
        0 < size,
        n <= ids.len(),
        0 < pages.len() <= usize::MAX,
        forall|i: int| 0 <= i < ids.len() ==> 0 <= #[trigger] ids[i],
    ensures
        match first_bulk_error(pages.len(), ends, size, ids, n) {
            None => forall|i: int|
                0 <= i < n ==> is_found(pages.len(), ends, size, #[trigger] ids[i]),
            Some(e) => exists|k: int|
                {
                    &&& 0 <= k < n
                    &&& !is_found(pages.len(), ends, size, #[trigger] ids[k])
                    &&& forall|i: int|
                        0 <= i < k ==> is_found(pages.len(), ends, size, #[trigger] ids[i])
                    &&& pages.len() == 1 ==> e == SimdError::OffsetExceedsChunkSize(
                        (size * ids[k]) as u64,
                        ends[0] as u64,
                    )
                    &&& match e {
                        SimdError::RegionNotFound(id) => id == ids[k] && size * id >= ends.last(),
                        SimdError::NoNextRegion(id, region, next, total) => {
                            &&& id == ids[k]
                            &&& total == pages.len()
                            &&& size * id < ends.last() < size * id + size
                        },
                        SimdError::SecondPartExceedsRegion(id, ..) => id == ids[k],
                        SimdError::OffsetExceedsChunkSize(..) => pages.len() == 1,
                        _ => false,
                    }
                },
        },
    decreases n,
{
    if n > 0 {
        let m = (n - 1) as nat;
        lemma_first_refused(pages, ends, size, ids, m);
        let id = ids[m as int];
        lemma_one_refused(pages, ends, size, id);
        if first_bulk_error(pages.len(), ends, size, ids, m) is None {
            assert(first_bulk_error(pages.len(), ends, size, ids, n) == bulk_error(
                pages.len(),
                ends,
                size,
                id,
            ));
        } else {
            let k = choose|k: int|
                {
                    &&& 0 <= k < m
                    &&& !is_found(pages.len(), ends, size, #[trigger] ids[k])
                    &&& forall|i: int|
                        0 <= i < k ==> is_found(pages.len(), ends, size, #[trigger] ids[i])
                    &&& pages.len() == 1 ==> first_bulk_error(pages.len(), ends, size, ids, m)->0
                        == SimdError::OffsetExceedsChunkSize((size * ids[k]) as u64, ends[0] as u64)
                    &&& match first_bulk_error(pages.len(), ends, size, ids, m)->0 {
                        SimdError::RegionNotFound(id) => id == ids[k] && size * id >= ends.last(),
                        SimdError::NoNextRegion(id, region, next, total) => {
                            &&& id == ids[k]
                            &&& total == pages.len()
                            &&& size * id < ends.last() < size * id + size
                        },
                        SimdError::SecondPartExceedsRegion(id, ..) => id == ids[k],
                        SimdError::OffsetExceedsChunkSize(..) => pages.len() == 1,
                        _ => false,
                    }
                };
            assert(!is_found(pages.len(), ends, size, ids[k]));
        }
    }
}

/// A bulk lookup over `pages` pages finds vector `id`.
pub open spec fn is_found(pages: nat, ends: Seq<i64>, size: int, id: i32) -> bool {
    if pages == 1 {
        id * size < ends[0]
    } else {
        exists|j: int| #[trigger] lie_from_page(ends, id * size, size, j)
    }
}

proof fn lemma_one_refused(pages: Seq<&[u8]>, ends: Seq<i64>, size: int, id: i32)
    requires
        ends_fit(pages, ends),
        0 < size,
        0 <= id,
        0 < pages.len() <= usize::MAX,
    ensures
        bulk_error(pages.len(), ends, size, id) is None <==> is_found(pages.len(), ends, size, id),
        bulk_error(pages.len(), ends, size, id) matches Some(e) ==> {
            &&& pages.len() == 1 ==> e == SimdError::OffsetExceedsChunkSize(
                (size * id) as u64,
                ends[0] as u64,
            )
            &&& match e {
                SimdError::RegionNotFound(i) => i == id && size * id >= ends.last(),
                SimdError::NoNextRegion(i, region, next, total) => {
                    &&& i == id
                    &&& total == pages.len()
                    &&& size * id < ends.last() < size * id + size
                },
                SimdError::SecondPartExceedsRegion(i, ..) => i == id,
                SimdError::OffsetExceedsChunkSize(..) => pages.len() == 1,
                _ => false,
            }
        },
{
    let start = size * id;
    assert(size * id == id * size) by (nonlinear_arith);
    if pages.len() > 1 {
        lemma_first_page(ends, start, 0);
        let j = page_of(ends, start, 0);
        if lookup_error(ends, size, id) is None {
            assert(lie_from_page(ends, start, size, j));
        }
        assert forall|i: int| #[trigger] lie_from_page(ends, start, size, i) implies lookup_error(
            ends,
            size,
            id,
        ) is None by {
            if i < j {
                assert(ends[i] <= start);
            }
            if j < i {
                lemma_ends_grow(pages, ends, j, i - 1);
            }
            assert(i == j);
        }
    }
}

/// The bytes of a vector that has a bit for each component are as many as it takes, and no more.
pub proof fn lemma_code_bytes(dimension: i32, n: i32)
    requires
        0 <= dimension <= i32::MAX - 7,
        call_ensures(binary_code_bytes, (dimension,), n),
    ensures
        8 * (n - 1) < dimension <= 8 * n,
{
}

/// Saving a query for a known function type takes the query, the dimension and the pages, and
/// fixes how large a stored vector is: two bytes for each component of half precision, and for
/// scalar quantization a bit for each component, in whole bytes, and sixteen bytes. Half
/// precision needs a new distance computer: that of the inner product or that of L2. An unknown
/// function type is an error, and changes nothing.
pub proof fn lemma_saved<'a>(
    context: &mut SimdVectorSearchContext<'a>,
    query: &[u8],
    dimension: i32,
    pages: Vec<&'a [u8]>,
    ord: i32,
    instructions: VectorInstructions,
    r: Result<DistanceComputerChange, SimdError>,
)
    requires
        old(context).query_wf(),
        0 <= dimension <= i32::MAX - 7,
        call_ensures(
            SimdVectorSearchContext::save_search_context,
            (context, query, dimension, pages, ord, instructions),
            r,
        ),
    ensures
        r is Ok <==> 0 <= ord <= 3,
        r is Err ==> *final(context) == *old(context) && r == Err::<
            DistanceComputerChange,
            SimdError,
        >(SimdError::InvalidFunctionType(ord)),
        r is Ok ==> {
            &&& final(context).query_vector@.take(query@.len() as int) == query@
            &&& final(context).dimension == dimension
            &&& final(context).mmap_pages@ == pages@
            &&& final(context).mapped() == joined(pages@, pages@.len())
            &&& final(context).native_function_type_ord == ord
            &&& final(context).tmp_buffer@.len() == 0
            &&& final(context).byte_order == old(context).byte_order
        },
        ord == 0 || ord == 1 ==> final(context).one_vector_byte_size == 2 * dimension,
        ord == 2 || ord == 3 ==> {
            let code = final(context).one_vector_byte_size - 16;
            8 * (code - 1) < dimension <= 8 * code
        },
        ord == 0 ==> r == Ok::<DistanceComputerChange, SimdError>(
            DistanceComputerChange::Replace { quantizer_type: 0, metric_type: 0 },
        ),
        ord == 1 ==> r == Ok::<DistanceComputerChange, SimdError>(
            DistanceComputerChange::Replace { quantizer_type: 0, metric_type: 1 },
        ),
        ord == 2 || ord == 3 ==> r == Ok::<DistanceComputerChange, SimdError>(
            DistanceComputerChange::Keep,
        ),
{
    if r is Ok {
        lemma_saved_query_in_front(old(context).query_vector@, query@);
    }
}

/// The page table takes the numbers of the array in their order, two for each page.
pub proof fn lemma_page_table(address_and_size: &[i64], table: Vec<(i64, i64)>, i: int)
    requires
        address_and_size@.len() % 2 == 0,
        0 <= i < address_and_size@.len(),
        call_ensures(page_table, (address_and_size,), table),
    ensures
        2 * table@.len() == address_and_size@.len(),
        i % 2 == 0 ==> table@[i / 2].0 == address_and_size@[i],
        i % 2 == 1 ==> table@[i / 2].1 == address_and_size@[i],
{
    assert(table@[i / 2] == (address_and_size@[2 * (i / 2)], address_and_size@[2 * (i / 2) + 1]));
}

/// A bulk lookup stores the place of each vector in the slot of its number, and leaves the other
/// slots as they are. What lies at a place are the bytes of the vector: those from its id times the
/// size of a vector on.
pub proof fn lemma_bulk_found<'a>(
    context: &mut SimdVectorSearchContext<'a>,
    slots: &mut Vec<VectorLocation>,
    ids: &[i32],
    n: i32,
    r: Result<(), SimdError>,
    i: int,
)
    requires
        old(context).can_look_up(ids@, n as int),
        n <= old(slots)@.len(),
        call_ensures(
            SimdVectorSearchContext::get_vector_pointers_in_bulk,
            (context, slots, ids, n),
            r,
        ),
        0 <= i < old(slots)@.len(),
    ensures
        final(slots)@.len() == old(slots)@.len(),
        n <= i ==> final(slots)@[i] == old(slots)@[i],
        old(context).mmap_pages@.len() == 0 ==> r is Err,
        r is Ok && i < n ==> {
            let size = old(context).one_vector_byte_size;
            match final(slots)@[i] {
                VectorLocation::Page { page, offset } => {
                    &&& page < final(context).mmap_pages@.len()
                    &&& old(context).mmap_pages@.len() == 1 ==> page == 0 && offset == ids@[i]
                        * size
                    &&& old(context).mmap_pages@.len() > 1 ==> final(context).mmap_pages@[page as int]@.subrange(offset as int, offset + size)
                        == old(context).mapped().subrange(ids@[i] * size, ids@[i] * size + size)
                },
                VectorLocation::Tmp { start } => {
                    &&& old(context).mmap_pages@.len() > 1
                    &&& final(context).tmp_buffer@.subrange(start as int, start + size) == old(context).mapped().subrange(ids@[i] * size, ids@[i] * size + size)
                },
            }
        },
        final(context).mmap_pages@ == old(context).mmap_pages@,
        old(context).tmp_buffer@.is_prefix_of(final(context).tmp_buffer@),
{
    let size = old(context).one_vector_byte_size as int;
    if r is Ok && i < n {
        let id = ids@[i] as int;
        assert(size * id == id * size) by (nonlinear_arith);
        assert(0 <= id * size <= size * (id + 1)) by (nonlinear_arith)
            requires
                0 <= id,
                0 <= size,
        ;
        assert(final(context).locates(final(slots)@[i], ids@[i]));
        assert(final(context).mapped() == old(context).mapped());
    }
}

/// A query is placed at the first aligned place of its buffer, and stands there whole. A buffer for
/// `n` bytes has the next multiple of the alignment.
pub proof fn lemma_query_placed<'a>(
    context: SimdVectorSearchContext<'a>,
    buffer: &mut Vec<u8>,
    address: u64,
    start: usize,
    gap: usize,
    n: usize,
    rounded: usize,
    i: int,
)
    requires
        context.query_vector@.len() + 64 <= old(buffer)@.len() + 1,
        call_ensures(SimdVectorSearchContext::place_query, (&context, buffer, address), start),
        call_ensures(alignment_gap, (address,), gap),
        n <= i32::MAX,
        call_ensures(simd_rounded_size, (n,), rounded),
        0 <= i < context.query_vector@.len(),
    ensures
        (address + start) % 64 == 0,
        start < 64,
        gap == start,
        final(buffer)@.len() == old(buffer)@.len(),
        final(buffer)@[start + i] == context.query_vector@[i],
        rounded % 64 == 0,
        n <= rounded < n + 64,
{
    let q = context.query_vector@;
    assert(final(buffer)@.subrange(start as int, start + q.len())[i] == final(buffer)@[start + i]);
}

/// The bytes at a location are those of the memory that it names, from its place on, as many as a
/// vector has.
pub proof fn lemma_bytes_read<'a>(
    context: &SimdVectorSearchContext<'a>,
    location: VectorLocation,
    bytes: &[u8],
    k: int,
)
    requires
        context.in_bounds(location),
        0 <= k < context.one_vector_byte_size,
        call_ensures(SimdVectorSearchContext::vector_bytes, (context, location), bytes),
    ensures
        bytes@.len() == context.one_vector_byte_size,
        location matches VectorLocation::Page { page, offset } ==> bytes@[k]
            == context.mmap_pages@[page as int]@[offset + k],
        location matches VectorLocation::Tmp { start } ==> bytes@[k] == context.tmp_buffer@[start
            + k],
{
}

/// The function that is saved is one for the instructions that there are, of the precision and the
/// metric that the number names: half precision for the first two, and inner product for the first
/// and the third.
pub proof fn lemma_function_saved<'a>(
    context: &mut SimdVectorSearchContext<'a>,
    query: &[u8],
    dimension: i32,
    pages: Vec<&'a [u8]>,
    ord: i32,
    instructions: VectorInstructions,
    r: Result<DistanceComputerChange, SimdError>,
)
    requires
        old(context).query_wf(),
        call_ensures(
            SimdVectorSearchContext::save_search_context,
            (context, query, dimension, pages, ord, instructions),
            r,
        ),
        r is Ok,
    ensures
        final(context).similarity_function matches Some(f) && match f {
            SelectedFunction::DefaultFp16(g) => instructions is Neither && ord == (if g.is_max_ip {
                0int
            } else {
                1
            }),
            SelectedFunction::DefaultSq(g) => instructions is Neither && ord == (if g.is_max_ip {
                2int
            } else {
                3
            }),
            SelectedFunction::Avx512MaxIp(_) => instructions is Avx512 && ord == 0,
            SelectedFunction::Avx512L2(_) => instructions is Avx512 && ord == 1,
            SelectedFunction::Avx512Sq(g) => instructions is Avx512 && ord == (if g.is_max_ip {
                2int
            } else {
                3
            }),
            SelectedFunction::NeonMaxIp(_) => instructions is Neon && ord == 0,
            SelectedFunction::NeonL2(_) => instructions is Neon && ord == 1,
            SelectedFunction::NeonSq(g) => instructions is Neon && ord == (if g.is_max_ip {
                2int
            } else {
                3
            }),
        },
{
}

} // verus!
