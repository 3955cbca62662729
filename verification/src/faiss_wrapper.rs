//! Operations on Faiss indices: what a request must look like, what is asked of
//! Faiss, and what is made of its answers.

use crate::faiss_index_service;
use crate::faiss_index_service::{
    push_hnsw_settings, push_ivf_settings, IndexType, ParamValue, ParameterSetting,
};
use crate::faiss_plan::{TemplatePlan, TrainPlan};
use crate::ffi::faiss_sys::{
    FaissIOReader, FaissIndex, FaissIndexBinary, FaissIndexBinaryIDMap, FaissIndexIDMap,
    FaissIndexIVFPQ, FaissMetricType, IO_FLAG_PQ_SKIP_SDC_TABLE, IO_FLAG_READ_ONLY,
    IO_FLAG_SKIP_PRECOMPUTE_TABLE, METRIC_INNER_PRODUCT, METRIC_L2,
};
use crate::id_bitmap;
use crate::id_bitmap::{bitmap_of, largest};
use crate::jni_util;
use crate::jni_util::{
    level_of, BQQuantizationLevel, COARSE_QUANTIZER, COSINESIMIL, EF_CONSTRUCTION, EF_SEARCH, HAMMING,
    INNER_PRODUCT, L2, NPROBES,
};
use crate::native_plan::{Fault, FaultView};
use crate::string_map::StringMap;
use crate::text::{join, same_text};
use vstd::arithmetic::power2::*;
use vstd::prelude::*;
use vstd::string::*;

verus! {

/// What can go wrong in an operation on a Faiss index.
#[derive(Debug)]
pub enum FaissWrapperError {
    Runtime(String),
    Jni(jni::errors::Error),
    NullPointer(String),
}

impl FaissWrapperError {
    /// `text` describes the error.
    pub open spec fn describes(&self, text: Seq<char>) -> bool {
        match self {
            FaissWrapperError::Runtime(message) => text == message@,
            FaissWrapperError::Jni(e) => exists|shown: String| #[trigger]
                to_string_from_display_ensures(e, shown) && text == "JNI error: "@ + shown@,
            FaissWrapperError::NullPointer(message) => text == "Null pointer: "@ + message@,
        }
    }

    /// The description of the error.
    pub fn message(&self) -> (text: String)
        ensures
            self.describes(text@),
    {
        match self {
            FaissWrapperError::Runtime(message) => message.as_str().to_owned(),
            FaissWrapperError::Jni(e) => {
                let shown = e.to_string();
                join("JNI error: ", shown.as_str())
            },
            FaissWrapperError::NullPointer(message) => join("Null pointer: ", message.as_str()),
        }
    }

    /// The error is a failure with this message.
    pub open spec fn says(self, text: Seq<char>) -> bool {
        self matches FaissWrapperError::Runtime(message) && message@ == text
    }
}

fn runtime<T>(text: &str) -> (r: Result<T, FaissWrapperError>)
    ensures
        r matches Err(e) && e.says(text@),
{
    Err(FaissWrapperError::Runtime(text.to_owned()))
}

/// The fault of a plan as an error. Of `Fault::Java` the plan does not know what the
/// JVM answered: whoever called it does.
pub fn error_of_fault(fault: Fault) -> (error: FaissWrapperError)
    requires
        !(fault is Java),
    ensures
        match fault@ {
            FaultView::NullPointer(text) => error matches FaissWrapperError::NullPointer(message)
                && message@ == text,
            FaultView::Runtime(text) => error.says(text),
            FaultView::Faiss(text) => error.says(text),
            FaultView::Write(text) => error.says(text),
            FaultView::InvalidArgument(text) => error.says(text),
            FaultView::NotTrained => error.says("Index is not trained"@),
            FaultView::Add => error.says("Failed to add vectors"@),
            FaultView::Java => true,
        },
{
    match fault {
        Fault::NullPointer(text) => FaissWrapperError::NullPointer(text),
        Fault::Runtime(text) => FaissWrapperError::Runtime(text),
        Fault::Faiss(text) => FaissWrapperError::Runtime(text),
        Fault::Write(text) => FaissWrapperError::Runtime(text),
        Fault::InvalidArgument(text) => FaissWrapperError::Runtime(text),
        Fault::NotTrained => FaissWrapperError::Runtime("Index is not trained".to_owned()),
        Fault::Add => FaissWrapperError::Runtime("Failed to add vectors".to_owned()),
        Fault::Java => vstd::pervasive::unreached(),
    }
}

/// How the ids of a filter are written down.
#[derive(Debug, Clone, Copy, PartialEq, Eq, Structural)]
pub enum FilterIdsSelectorType {
    /// As bits of words.
    Bitmap,
    /// One by one.
    Batch,
}

/// The ids whose bits are set in the first `n` words of a bitmap, as Lucene's
/// `FixedBitSet` lays it out.
pub struct IDSelectorJlongBitmap<'a> {
    pub n: usize,
    pub bitmap: &'a [i64],
}

/// The number that has the bits of `id`.
pub open spec fn unsigned_id(id: i64) -> int {
    if id < 0 {
        id + 0x1_0000_0000_0000_0000
    } else {
        id as int
    }
}

impl<'a> IDSelectorJlongBitmap<'a> {
    /// The words are there.
    pub open spec fn wf(&self) -> bool {
        self.n <= self.bitmap@.len()
    }

    /// `id` is selected.
    pub open spec fn selects(&self, id: i64) -> bool {
        let index = unsigned_id(id);
        index / 64 < self.n && id_bitmap::word_bit(self.bitmap@[index / 64] as u64, index % 64)
    }

    /// The selector of the first `n` words of `bitmap`.
    pub fn new(n: usize, bitmap: &'a [i64]) -> (selector: Self)
        requires
            n <= bitmap@.len(),
        ensures
            selector.wf(),
            selector.n == n,
            selector.bitmap@ == bitmap@,
    {
        IDSelectorJlongBitmap { n, bitmap }
    }

    /// Whether `id` is selected.
    pub fn is_member(&self, id: i64) -> (member: bool)
        requires
            self.wf(),
        ensures
            member == self.selects(id),
    {
        #[verifier::truncate]
        let index = id as u64;
        proof {
            assert(id >= 0 ==> id as u64 == id) by (bit_vector);
            assert(id < 0 ==> id as u64 == id + 0x1_0000_0000_0000_0000) by (bit_vector);
        }
        assert(index >> 6 == index / 64) by (bit_vector);
        assert(index & 63 == index % 64) by (bit_vector);
        let i = index >> 6;
        if i >= self.n as u64 {
            return false;
        }
        #[verifier::truncate]
        let word = self.bitmap[i as usize] as u64;
        (word >> (index & 63)) & 1 == 1
    }
}

/// The metric of a space, or nothing where there is no such space. Vectors of
/// cosine similarity are normalized, so that it is an inner product. Hamming
/// distance is not that of a float index.
pub open spec fn metric_of(space_type: Seq<char>) -> Option<FaissMetricType> {
    if space_type == L2@ || space_type == HAMMING@ {
        Some(METRIC_L2)
    } else if space_type == INNER_PRODUCT@ || space_type == COSINESIMIL@ {
        Some(METRIC_INNER_PRODUCT)
    } else {
        None
    }
}

/// The names of the spaces of one metric are not those of the other.
pub proof fn lemma_spaces_differ()
    ensures
        L2@ != INNER_PRODUCT@,
        L2@ != COSINESIMIL@,
        HAMMING@ != INNER_PRODUCT@,
        HAMMING@ != COSINESIMIL@,
{
    reveal_strlit("l2");
    reveal_strlit("hamming");
    reveal_strlit("innerproduct");
    reveal_strlit("cosinesimil");
    assert(L2@.len() == 2);
    assert(HAMMING@.len() == 7);
    assert(INNER_PRODUCT@.len() == 12);
    assert(COSINESIMIL@.len() == 11);
}

/// The metric of a space.
pub fn translate_space_to_metric(space_type: &str) -> (r: Result<FaissMetricType, FaissWrapperError>)
    ensures
        match r {
            Ok(metric) => metric_of(space_type@) == Some(metric),
            Err(e) => metric_of(space_type@) is None && e.says(
                "Invalid spaceType: "@ + space_type@,
            ),
        },
{
    proof {
        lemma_spaces_differ();
    }
    if same_text(space_type, L2) {
        Ok(METRIC_L2)
    } else if same_text(space_type, INNER_PRODUCT) {
        Ok(METRIC_INNER_PRODUCT)
    } else if same_text(space_type, COSINESIMIL) {
        Ok(METRIC_INNER_PRODUCT)
    } else if same_text(space_type, HAMMING) {
        Ok(METRIC_L2)
    } else {
        Err(FaissWrapperError::Runtime(join("Invalid spaceType: ", space_type)))
    }
}

/// Which ids a search may return.
pub enum IdFilter<'a> {
    /// All of them.
    Everything,
    /// Those of a bitmap.
    Bitmap(IDSelectorJlongBitmap<'a>),
    /// Those of a list.
    Batch(&'a [i64]),
}

impl<'a> IdFilter<'a> {
    /// What the filter refers to is there.
    pub open spec fn wf(&self) -> bool {
        match self {
            IdFilter::Bitmap(selector) => selector.wf(),
            _ => true,
        }
    }

    /// `id` may be returned.
    pub open spec fn selects(&self, id: i64) -> bool {
        match self {
            IdFilter::Everything => true,
            IdFilter::Bitmap(selector) => selector.selects(id),
            IdFilter::Batch(ids) => ids@.contains(id),
        }
    }

    /// The filter that Java asks for: none without ids, a bitmap where the type says
    /// so, and a list otherwise.
    pub open spec fn requested(filter_ids: Option<&'a [i64]>, filter_ids_type: i32) -> Self {
        match filter_ids {
            None => IdFilter::Everything,
            Some(ids) => if filter_ids_type == FilterIdsSelectorType::Bitmap as i32 {
                IdFilter::Bitmap(IDSelectorJlongBitmap { n: ids.len(), bitmap: ids })
            } else {
                IdFilter::Batch(ids)
            },
        }
    }

    /// The filter that Java asks for.
    pub fn new(filter_ids: Option<&'a [i64]>, filter_ids_type: i32) -> (filter: Self)
        ensures
            filter == IdFilter::requested(filter_ids, filter_ids_type),
            filter.wf(),
    {
        match filter_ids {
            None => IdFilter::Everything,
            Some(ids) => if filter_ids_type == FilterIdsSelectorType::Bitmap as i32 {
                IdFilter::Bitmap(IDSelectorJlongBitmap { n: ids.len(), bitmap: ids })
            } else {
                IdFilter::Batch(ids)
            },
        }
    }

    /// Whether `id` may be returned.
    pub fn is_selected(&self, id: i64) -> (selected: bool)
        requires
            self.wf(),
        ensures
            selected == self.selects(id),
    {
        match self {
            IdFilter::Everything => true,
            IdFilter::Bitmap(selector) => selector.is_member(id),
            IdFilter::Batch(ids) => contains(ids, id),
        }
    }
}

fn contains(ids: &[i64], id: i64) -> (found: bool)
    ensures
        found == ids@.contains(id),
{
    let mut i: usize = 0;
    while i < ids.len()
        invariant
            i <= ids@.len(),
            forall|j: int| 0 <= j < i ==> ids@[j] != id,
        decreases ids@.len() - i,
    {
        if ids[i] == id {
            return true;
        }
        i += 1;
    }
    false
}

/// One neighbour that a search found.
#[derive(Debug, PartialEq, Eq)]
pub struct QueryResult<D> {
    pub id: i32,
    pub distance: D,
}

/// How many of the ids stand before the first -1, which stands for a missing
/// neighbour.
pub open spec fn found_count(ids: Seq<i64>) -> nat
    decreases ids.len(),
{
    if ids.len() == 0 || ids[0] == -1 {
        0
    } else {
        1 + found_count(ids.drop_first())
    }
}

/// Neighbour `i`.
pub open spec fn neighbour<D>(ids: Seq<i64>, distances: Seq<D>, i: int) -> QueryResult<D> {
    QueryResult { id: ids[i] as i32, distance: distances[i] }
}

/// The neighbours among the first `n` that the filter selects, in order.
pub open spec fn selected_results<D>(
    ids: Seq<i64>,
    distances: Seq<D>,
    filter: IdFilter<'_>,
    n: nat,
) -> Seq<QueryResult<D>>
    decreases n,
{
    if n == 0 {
        Seq::empty()
    } else {
        let before = selected_results(ids, distances, filter, (n - 1) as nat);
        if filter.selects(ids[n - 1]) {
            before.push(neighbour(ids, distances, n - 1))
        } else {
            before
        }
    }
}

proof fn lemma_found_count(ids: Seq<i64>)
    ensures
        found_count(ids) <= ids.len(),
        found_count(ids) < ids.len() ==> ids[found_count(ids) as int] == -1,
        forall|i: int| 0 <= i < found_count(ids) ==> #[trigger] ids[i] != -1,
    decreases ids.len(),
{
    if ids.len() > 0 && ids[0] != -1 {
        let rest = ids.drop_first();
        lemma_found_count(rest);
        assert forall|i: int| 0 <= i < found_count(ids) implies #[trigger] ids[i] != -1 by {
            if i > 0 {
                assert(rest[i - 1] != -1);
            }
        }
    }
}

/// Neighbour `i` is one of the first `n`, and the filter selects it.
pub open spec fn is_candidate(ids: Seq<i64>, filter: IdFilter<'_>, n: nat, i: int) -> bool {
    0 <= i < n && filter.selects(ids[i])
}

/// A search returns exactly the neighbours that the filter selects: each of them is
/// among the results, and every result is one of them.
pub proof fn lemma_results_are_selected<D>(
    ids: Seq<i64>,
    distances: Seq<D>,
    filter: IdFilter<'_>,
    n: nat,
)
    ensures
        selected_results(ids, distances, filter, n).len() <= n,
        forall|i: int| #[trigger]
            is_candidate(ids, filter, n, i) ==> selected_results(
                ids,
                distances,
                filter,
                n,
            ).contains(neighbour(ids, distances, i)),
        forall|result: QueryResult<D>| #[trigger]
            selected_results(ids, distances, filter, n).contains(result) ==> exists|i: int| #[trigger]
                is_candidate(ids, filter, n, i) && result == neighbour(ids, distances, i),
    decreases n,
{
    if n > 0 {
        let m = (n - 1) as nat;
        let before = selected_results(ids, distances, filter, m);
        let after = selected_results(ids, distances, filter, n);
        lemma_results_are_selected(ids, distances, filter, m);
        assert forall|i: int| #[trigger] is_candidate(ids, filter, n, i) implies after.contains(
            neighbour(ids, distances, i),
        ) by {
            if i < m {
                assert(is_candidate(ids, filter, m, i));
                let r = choose|r: int|
                    0 <= r < before.len() && before[r] == neighbour(ids, distances, i);
                assert(after[r] == neighbour(ids, distances, i));
            } else {
                assert(after[after.len() - 1] == neighbour(ids, distances, i));
            }
        }
        assert forall|result: QueryResult<D>| #[trigger] after.contains(result) implies exists|i: int|
            #[trigger] is_candidate(ids, filter, n, i) && result == neighbour(ids, distances, i) by {
            let r = choose|r: int| 0 <= r < after.len() && after[r] == result;
            if r < before.len() {
                assert(before[r] == result);
                assert(before.contains(result));
                let i = choose|i: int| #[trigger]
                    is_candidate(ids, filter, m, i) && result == neighbour(ids, distances, i);
                assert(is_candidate(ids, filter, n, i));
            } else {
                assert(is_candidate(ids, filter, n, m as int));
            }
        }
    }
}

/// Without a filter a search returns every neighbour in order.
pub proof fn lemma_unfiltered_results<D>(ids: Seq<i64>, distances: Seq<D>, n: nat)
    ensures
        selected_results(ids, distances, IdFilter::Everything, n) == Seq::new(
            n,
            |i: int| neighbour(ids, distances, i),
        ),
    decreases n,
{
    if n > 0 {
        lemma_unfiltered_results(ids, distances, (n - 1) as nat);
    }
    assert(selected_results(ids, distances, IdFilter::Everything, n) =~= Seq::new(
        n,
        |i: int| neighbour(ids, distances, i),
    ));
}

fn collect_results<D: Copy>(ids: &[i64], distances: &[D], filter: &IdFilter<'_>, n: usize) -> (results:
    Vec<QueryResult<D>>)
    requires
        filter.wf(),
        n <= ids@.len(),
        n <= distances@.len(),
    ensures
        results@ == selected_results(ids@, distances@, *filter, n as nat),
{
    let mut results: Vec<QueryResult<D>> = Vec::new();
    let mut i: usize = 0;
    while i < n
        invariant
            i <= n <= ids@.len(),
            n <= distances@.len(),
            filter.wf(),
            results@ == selected_results(ids@, distances@, *filter, i as nat),
        decreases n - i,
    {
        if filter.is_selected(ids[i]) {
            #[verifier::truncate]
            let id = ids[i] as i32;
            results.push(QueryResult { id, distance: distances[i] });
        }
        i += 1;
    }
    results
}

/// What a query for the `k` nearest neighbours returns, where Faiss found `ids` at
/// `distances`, both of length `k`.
pub fn query_results<D: Copy>(ids: &[i64], distances: &[D], filter: &IdFilter<'_>) -> (results: Vec<
    QueryResult<D>,
>)
    requires
        filter.wf(),
        ids@.len() == distances@.len(),
    ensures
        results@ == selected_results(ids@, distances@, *filter, found_count(ids@)),
{
    let mut n: usize = 0;
    proof {
        lemma_found_count(ids@);
    }
    while n < ids.len() && ids[n] != -1
        invariant
            n <= found_count(ids@) <= ids@.len(),
            found_count(ids@) < ids@.len() ==> ids@[found_count(ids@) as int] == -1,
            forall|i: int| 0 <= i < found_count(ids@) ==> #[trigger] ids@[i] != -1,
        decreases ids@.len() - n,
    {
        n += 1;
    }
    collect_results(ids, distances, filter, n)
}

/// What a range search returns, where Faiss found `labels` at `distances`: at most
/// `max_result_window` of those that the filter selects. There is nothing that it could
/// return where `max_result_window` is negative.
pub fn range_results<D: Copy>(
    labels: &[i64],
    distances: &[D],
    filter: &IdFilter<'_>,
    max_result_window: i32,
) -> (r: Option<Vec<QueryResult<D>>>)
    requires
        filter.wf(),
        labels@.len() == distances@.len(),
    ensures
        match r {
            Some(results) => {
                let all = selected_results(labels@, distances@, *filter, labels@.len());
                &&& max_result_window >= 0
                &&& results@ == if all.len() <= max_result_window {
                    all
                } else {
                    all.take(max_result_window as int)
                }
            },
            None => max_result_window < 0,
        },
{
    if max_result_window < 0 {
        return None;
    }
    let mut results = collect_results(labels, distances, filter, labels.len());
    if results.len() > max_result_window as usize {
        results.truncate(max_result_window as usize);
    }
    Some(results)
}

/// A query can be run: it has a vector and an index.
pub fn check_query(query_is_null: bool, index_pointer: i64) -> (r: Result<
    FaissIndexIDMap,
    FaissWrapperError,
>)
    ensures
        match r {
            Ok(index) => !query_is_null && index_pointer != 0 && index.address == index_pointer,
            Err(e) => if query_is_null {
                e.says("Query Vector cannot be null"@)
            } else {
                index_pointer == 0 && e.says("Invalid pointer to index"@)
            },
        },
{
    if query_is_null {
        return runtime("Query Vector cannot be null");
    }
    let index = FaissIndexIDMap { address: index_pointer };
    if index.is_null() {
        return runtime("Invalid pointer to index");
    }
    Ok(index)
}

/// A query of a binary index can be run: it has a vector and an index.
pub fn check_binary_query(query_is_null: bool, index_pointer: i64) -> (r: Result<
    FaissIndexBinaryIDMap,
    FaissWrapperError,
>)
    ensures
        match r {
            Ok(index) => !query_is_null && index_pointer != 0 && index.address == index_pointer,
            Err(e) => if query_is_null {
                e.says("Query Vector cannot be null"@)
            } else {
                index_pointer == 0 && e.says("Invalid pointer to index"@)
            },
        },
{
    if query_is_null {
        return runtime("Query Vector cannot be null");
    }
    let index = FaissIndexBinaryIDMap { address: index_pointer };
    if index.is_null() {
        return runtime("Invalid pointer to index");
    }
    Ok(index)
}

/// A range search can be run: it has a vector and an index.
pub fn check_range_search(query_is_null: bool, index_pointer: i64) -> (r: Result<
    FaissIndexIDMap,
    FaissWrapperError,
>)
    ensures
        match r {
            Ok(index) => !query_is_null && index_pointer != 0 && index.address == index_pointer,
            Err(e) => if query_is_null {
                e.says("Query Vector cannot be null"@)
            } else {
                index_pointer == 0 && e.says("Invalid pointer to indexReader"@)
            },
        },
{
    if query_is_null {
        return runtime("Query Vector cannot be null");
    }
    let index = FaissIndexIDMap { address: index_pointer };
    if index.is_null() {
        return runtime("Invalid pointer to indexReader");
    }
    Ok(index)
}

/// An error where Faiss made no object for the results of a range search.
pub fn check_range_search_result(result_is_null: bool) -> (r: Result<(), FaissWrapperError>)
    ensures
        r is Ok == !result_is_null,
        r matches Err(e) ==> e.says("Failed to create RangeSearchResult"@),
{
    if result_is_null {
        return runtime("Failed to create RangeSearchResult");
    }
    Ok(())
}

/// What is set on an index before it is searched: the size of the candidate list
/// of an HNSW index, and how many lists of an IVF index are searched.
pub open spec fn search_parameters(
    ef_search: Option<i32>,
    nprobe: Option<i32>,
    is_hnsw: bool,
    is_ivf: bool,
) -> Seq<ParameterSetting> {
    let for_hnsw = if is_hnsw && ef_search is Some {
        seq![ParameterSetting::EfSearch(ef_search->0)]
    } else {
        seq![]
    };
    let for_ivf = if is_ivf && nprobe is Some {
        seq![ParameterSetting::Nprobe(nprobe->0)]
    } else {
        seq![]
    };
    for_hnsw + for_ivf
}

/// What is set on an index before it is searched.
pub fn search_settings(
    ef_search: Option<i32>,
    nprobe: Option<i32>,
    is_hnsw: bool,
    is_ivf: bool,
) -> (settings: Vec<ParameterSetting>)
    ensures
        settings@ == search_parameters(ef_search, nprobe, is_hnsw, is_ivf),
{
    let mut settings: Vec<ParameterSetting> = Vec::new();
    if is_hnsw {
        if let Some(ef) = ef_search {
            settings.push(ParameterSetting::EfSearch(ef));
        }
    }
    if is_ivf {
        if let Some(n) = nprobe {
            settings.push(ParameterSetting::Nprobe(n));
        }
    }
    assert(settings@ =~= search_parameters(ef_search, nprobe, is_hnsw, is_ivf));
    settings
}

/// The number that a parameter is given, in 32 bits.
pub open spec fn parameter_in(parameters: Map<Seq<char>, i64>, key: Seq<char>) -> Option<i32> {
    if parameters.dom().contains(key) {
        Some(parameters[key] as i32)
    } else {
        None
    }
}

fn get_parameter(parameters: &StringMap<i64>, key: &str) -> (value: Option<i32>)
    ensures
        value == parameter_in(parameters@, key@),
{
    match parameters.get(key) {
        Some(value) => {
            #[verifier::truncate]
            let n = *value as i32;
            Some(n)
        },
        None => None,
    }
}

/// What is set on an index, in order: what an IVF index takes, whose coarse quantizer
/// has parameters of its own, then what an HNSW index takes. Nothing is set where
/// there is no index.
pub open spec fn extra_settings(
    parameters: Map<Seq<char>, ParamValue>,
    index: FaissIndex,
    is_ivf: bool,
    is_hnsw: bool,
) -> Seq<ParameterSetting> {
    if index.address == 0 {
        seq![]
    } else {
        (if is_ivf {
            faiss_index_service::ivf_settings(parameters)
        } else {
            seq![]
        }) + (if is_hnsw {
            faiss_index_service::hnsw_settings(parameters)
        } else {
            seq![]
        })
    }
}

/// What is set on an index that cannot be said in its description.
pub fn set_extra_parameters(
    parameters: &StringMap<ParamValue>,
    index: FaissIndex,
    is_ivf: bool,
    is_hnsw: bool,
) -> (settings: Vec<ParameterSetting>)
    ensures
        settings@ == extra_settings(parameters@, index, is_ivf, is_hnsw),
{
    let mut settings: Vec<ParameterSetting> = Vec::new();
    if index.is_null() {
        return settings;
    }
    if is_ivf {
        push_ivf_settings(&mut settings, parameters);
    }
    if is_hnsw {
        push_hnsw_settings(&mut settings, parameters);
    }
    assert(settings@ =~= extra_settings(parameters@, index, is_ivf, is_hnsw));
    settings
}

/// The number that a parameter is given in 32 bits, or a default.
pub fn get_integer_method_parameter(params: &StringMap<i64>, key: &str, default_value: i32) -> (value:
    i32)
    ensures
        value == match parameter_in(params@, key@) {
            Some(n) => n,
            None => default_value,
        },
{
    match get_parameter(params, key) {
        Some(n) => n,
        None => default_value,
    }
}

/// The parameters of the coarse quantizer of an IVF index, where they are given.
#[derive(Debug, Clone, Copy, PartialEq, Eq, Structural)]
pub struct QuantizerParameters {
    pub ef_construction: Option<i32>,
    pub ef_search: Option<i32>,
}

/// The parameters of an index under training that cannot be said in its
/// description, where they are given. Those of its coarse quantizer are parameters of
/// a parameter.
pub fn training_parameters(
    ef_construction: Option<i32>,
    ef_search: Option<i32>,
    nprobe: Option<i32>,
    quantizer: Option<QuantizerParameters>,
) -> (parameters: StringMap<ParamValue>)
    ensures
        faiss_index_service::int_param(parameters@, EF_CONSTRUCTION@) == ef_construction,
        faiss_index_service::int_param(parameters@, EF_SEARCH@) == ef_search,
        faiss_index_service::int_param(parameters@, NPROBES@) == nprobe,
        ({
            let sub = faiss_index_service::sub_params(parameters@, COARSE_QUANTIZER@);
            match quantizer {
                Some(q) => {
                    &&& faiss_index_service::int_param(sub, EF_CONSTRUCTION@) == q.ef_construction
                    &&& faiss_index_service::int_param(sub, EF_SEARCH@) == q.ef_search
                },
                None => !parameters@.dom().contains(COARSE_QUANTIZER@),
            }
        }),
{
    proof {
        reveal_strlit("ef_construction");
        reveal_strlit("ef_search");
        reveal_strlit("nprobes");
        reveal_strlit("coarse_quantizer");
        assert(EF_CONSTRUCTION@.len() == 15);
        assert(EF_SEARCH@.len() == 9);
        assert(NPROBES@.len() == 7);
        assert(COARSE_QUANTIZER@.len() == 16);
    }
    let mut parameters: StringMap<ParamValue> = StringMap::new();
    if let Some(n) = ef_construction {
        parameters.insert(EF_CONSTRUCTION.to_owned(), ParamValue::Int(n));
    }
    if let Some(n) = ef_search {
        parameters.insert(EF_SEARCH.to_owned(), ParamValue::Int(n));
    }
    if let Some(n) = nprobe {
        parameters.insert(NPROBES.to_owned(), ParamValue::Int(n));
    }
    if let Some(q) = quantizer {
        let mut sub: StringMap<ParamValue> = StringMap::new();
        if let Some(n) = q.ef_construction {
            sub.insert(EF_CONSTRUCTION.to_owned(), ParamValue::Int(n));
        }
        if let Some(n) = q.ef_search {
            sub.insert(EF_SEARCH.to_owned(), ParamValue::Int(n));
        }
        parameters.insert(COARSE_QUANTIZER.to_owned(), ParamValue::SubParams(sub));
    }
    parameters
}

/// One action of training an index.
#[derive(Debug, Clone, Copy, PartialEq, Eq, Structural)]
pub enum TrainAction {
    /// Trains the quantizer of an IVF index as an index of its own, on the same
    /// vectors.
    TrainQuantizer,
    /// Makes the direct map of an IVF index.
    MakeDirectMap,
    /// Trains the index on the vectors.
    TrainIndex,
}

/// The quantizer of an IVF index is trained as an index of its own where this is what
/// the IVF index says of it.
pub const QUANTIZER_TRAINS_ALONE: i32 = 2;

/// What training an index takes, in order. An IVF index has its quantizer trained
/// first where that trains alone, and gets a direct map; an index that is trained is
/// not trained again. Nothing is done where there is no index.
pub open spec fn train_actions(
    index: FaissIndex,
    is_ivf: bool,
    quantizer_trains_alone: i32,
    is_trained: i32,
) -> Seq<TrainAction> {
    if index.address == 0 {
        seq![]
    } else {
        (if is_ivf && quantizer_trains_alone == QUANTIZER_TRAINS_ALONE {
            seq![TrainAction::TrainQuantizer]
        } else {
            seq![]
        }) + (if is_ivf {
            seq![TrainAction::MakeDirectMap]
        } else {
            seq![]
        }) + (if is_trained == 0 {
            seq![TrainAction::TrainIndex]
        } else {
            seq![]
        })
    }
}

/// An index is trained once where it is not trained, and not where it is; its quantizer
/// is trained before it, and nothing is done twice.
pub proof fn lemma_trains_once(
    index: FaissIndex,
    is_ivf: bool,
    quantizer_trains_alone: i32,
    is_trained: i32,
)
    ensures
        ({
            let actions = train_actions(index, is_ivf, quantizer_trains_alone, is_trained);
            &&& actions.contains(TrainAction::TrainIndex) == (index.address != 0 && is_trained == 0)
            &&& actions.contains(TrainAction::TrainQuantizer) == (index.address != 0 && is_ivf
                && quantizer_trains_alone == QUANTIZER_TRAINS_ALONE)
            &&& actions.contains(TrainAction::MakeDirectMap) == (index.address != 0 && is_ivf)
            &&& actions.contains(TrainAction::TrainQuantizer) ==> actions[0]
                == TrainAction::TrainQuantizer
            &&& actions.no_duplicates()
        }),
{
    let actions = train_actions(index, is_ivf, quantizer_trains_alone, is_trained);
    if index.address != 0 {
        let trains_quantizer = is_ivf && quantizer_trains_alone == QUANTIZER_TRAINS_ALONE;
        if trains_quantizer {
            assert(actions[0] == TrainAction::TrainQuantizer);
        }
        if is_ivf {
            assert(actions[if trains_quantizer {
                1
            } else {
                0
            }] == TrainAction::MakeDirectMap);
        }
        if is_trained == 0 {
            assert(actions[actions.len() - 1] == TrainAction::TrainIndex);
        }
    }
}

/// What training an index takes: `is_ivf` and `quantizer_trains_alone` are what the
/// index says of itself and its quantizer, `is_trained` is zero where it is not trained.
pub fn internal_train_index(
    index: FaissIndex,
    is_ivf: bool,
    quantizer_trains_alone: i32,
    is_trained: i32,
) -> (actions: Vec<TrainAction>)
    ensures
        actions@ == train_actions(index, is_ivf, quantizer_trains_alone, is_trained),
{
    let mut actions: Vec<TrainAction> = Vec::new();
    if index.is_null() {
        return actions;
    }
    if is_ivf {
        if quantizer_trains_alone == QUANTIZER_TRAINS_ALONE {
            actions.push(TrainAction::TrainQuantizer);
        }
        actions.push(TrainAction::MakeDirectMap);
    }
    if is_trained == 0 {
        actions.push(TrainAction::TrainIndex);
    }
    assert(actions@ =~= train_actions(index, is_ivf, quantizer_trains_alone, is_trained));
    actions
}

/// Whether a binary index is trained now: there is one, and it says that it is not
/// trained.
pub fn internal_train_binary_index(index: FaissIndexBinary, is_trained: i32) -> (train: bool)
    ensures
        train == (index.address != 0 && is_trained == 0),
{
    !index.is_null() && is_trained == 0
}

/// Makes no index: what is wrong with the request is said first, and else that an index
/// service makes indices.
pub fn init_index(dim: i32, parameters_are_null: bool) -> (r: Result<i64, FaissWrapperError>)
    ensures
        r matches Err(e) && e.says(
            if dim <= 0 {
                "Vectors dimensions cannot be less than or equal to 0"@
            } else if parameters_are_null {
                "Parameters cannot be null"@
            } else {
                "init_index: use IndexService trait dispatch via faiss_service_jni"@
            },
        ),
{
    if dim <= 0 {
        return runtime("Vectors dimensions cannot be less than or equal to 0");
    }
    if parameters_are_null {
        return runtime("Parameters cannot be null");
    }
    runtime("init_index: use IndexService trait dispatch via faiss_service_jni")
}

/// Makes no scalar quantized index: what is wrong with the request is said first, and
/// else that an index service makes such indices.
pub fn init_faiss_sq_index(dim: i32, parameters_are_null: bool) -> (r: Result<
    i64,
    FaissWrapperError,
>)
    ensures
        r matches Err(e) && e.says(
            if dim <= 0 {
                "Vectors dimensions cannot be less than or equal to 0"@
            } else if parameters_are_null {
                "Parameters cannot be null"@
            } else {
                "init_faiss_sq_index: use BinaryIndexService trait dispatch via faiss_service_jni"@
            },
        ),
{
    if dim <= 0 {
        return runtime("Vectors dimensions cannot be less than or equal to 0");
    }
    if parameters_are_null {
        return runtime("Parameters cannot be null");
    }
    runtime("init_faiss_sq_index: use BinaryIndexService trait dispatch via faiss_service_jni")
}

/// Inserts nothing: what is wrong with the request is said first, and else that an index
/// service inserts vectors.
pub fn insert_to_index(ids_are_null: bool, vectors_address: i64, dim: i32) -> (r: Result<
    (),
    FaissWrapperError,
>)
    ensures
        r matches Err(e) && e.says(
            if ids_are_null {
                "IDs cannot be null"@
            } else if vectors_address <= 0 {
                "VectorsAddress cannot be less than 0"@
            } else if dim <= 0 {
                "Vectors dimensions cannot be less than or equal to 0"@
            } else {
                "insert_to_index: use IndexService trait dispatch via faiss_service_jni"@
            },
        ),
{
    if ids_are_null {
        return runtime("IDs cannot be null");
    }
    if vectors_address <= 0 {
        return runtime("VectorsAddress cannot be less than 0");
    }
    if dim <= 0 {
        return runtime("Vectors dimensions cannot be less than or equal to 0");
    }
    runtime("insert_to_index: use IndexService trait dispatch via faiss_service_jni")
}

/// Writes nothing: a missing stream is said first, and else that an index service writes
/// indices.
pub fn write_index(output_is_null: bool) -> (r: Result<(), FaissWrapperError>)
    ensures
        r matches Err(e) && e.says(
            if output_is_null {
                "Index output stream cannot be null"@
            } else {
                "write_index: use IndexService trait dispatch via faiss_service_jni"@
            },
        ),
{
    if output_is_null {
        return runtime("Index output stream cannot be null");
    }
    runtime("write_index: use IndexService trait dispatch via faiss_service_jni")
}

/// A request to make an index from a template.
#[derive(Debug, Clone, Copy)]
pub struct TemplateRequest {
    pub ids_are_null: bool,
    pub vectors_address: i64,
    pub dim: i32,
    pub output_is_null: bool,
    pub template_is_null: bool,
}

impl TemplateRequest {
    /// Why the request is refused, where it is.
    pub open spec fn refusal(self, kind: IndexType) -> Option<Seq<char>> {
        if self.ids_are_null {
            Some("IDs cannot be null"@)
        } else if self.vectors_address <= 0 {
            Some("VectorsAddress cannot be less than 0"@)
        } else if self.dim <= 0 {
            Some("Vectors dimensions cannot be less than or equal to 0"@)
        } else if self.output_is_null {
            Some("Index output stream cannot be null"@)
        } else if self.template_is_null {
            Some("Template index cannot be null"@)
        } else if kind is Binary && self.dim % 8 != 0 {
            Some("Dimensions should be multiple of 8"@)
        } else {
            None
        }
    }

    /// Refuses a request that cannot be met.
    pub fn check(self, kind: IndexType) -> (r: Result<(), FaissWrapperError>)
        ensures
            match r {
                Ok(_) => self.refusal(kind) is None,
                Err(e) => self.refusal(kind) matches Some(text) && e.says(text),
            },
    {
        if self.ids_are_null {
            return runtime("IDs cannot be null");
        }
        if self.vectors_address <= 0 {
            return runtime("VectorsAddress cannot be less than 0");
        }
        if self.dim <= 0 {
            return runtime("Vectors dimensions cannot be less than or equal to 0");
        }
        if self.output_is_null {
            return runtime("Index output stream cannot be null");
        }
        if self.template_is_null {
            return runtime("Template index cannot be null");
        }
        if matches!(kind, IndexType::Binary) && self.dim % 8 != 0 {
            return runtime("Dimensions should be multiple of 8");
        }
        Ok(())
    }
}

/// How many vectors of dimension `dim` the stored numbers make.
pub open spec fn template_vectors(kind: IndexType, len: nat, dim: i32) -> nat {
    if kind is Binary {
        len / (dim as nat / 8)
    } else {
        len / dim as nat
    }
}

fn plan_template(kind: IndexType, request: TemplateRequest, vectors_len: usize, num_ids: usize) -> (r:
    Result<TemplatePlan, FaissWrapperError>)
    ensures
        match r {
            Ok(plan) => {
                &&& request.refusal(kind) is None
                &&& plan.kind == kind
                &&& plan.num_vectors == num_ids
                &&& num_ids == template_vectors(kind, vectors_len as nat, request.dim)
            },
            Err(e) => match request.refusal(kind) {
                Some(message) => e.says(message),
                None => {
                    &&& num_ids != template_vectors(kind, vectors_len as nat, request.dim)
                    &&& e.says("Number of IDs does not match number of vectors"@)
                },
            },
        },
{
    request.check(kind)?;
    let dim = request.dim as usize;
    let numbers = if matches!(kind, IndexType::Binary) {
        dim / 8
    } else {
        dim
    };
    assert(numbers > 0) by {
        if kind is Binary {
            assert(request.dim % 8 == 0);
        }
    }
    let num_vectors = vectors_len / numbers;
    if num_ids != num_vectors {
        return runtime("Number of IDs does not match number of vectors");
    }
    Ok(TemplatePlan { kind, num_vectors })
}

/// The plan of an index of float vectors that is made from a template, where `vectors_len`
/// numbers are stored.
pub fn create_index_from_template(request: TemplateRequest, vectors_len: usize, num_ids: usize) -> (r:
    Result<TemplatePlan, FaissWrapperError>)
    ensures
        match r {
            Ok(plan) => {
                &&& request.refusal(IndexType::Float) is None
                &&& plan.kind == IndexType::Float
                &&& plan.num_vectors == num_ids
                &&& num_ids == vectors_len as nat / request.dim as nat
            },
            Err(e) => match request.refusal(IndexType::Float) {
                Some(message) => e.says(message),
                None => {
                    &&& num_ids != vectors_len as nat / request.dim as nat
                    &&& e.says("Number of IDs does not match number of vectors"@)
                },
            },
        },
{
    plan_template(IndexType::Float, request, vectors_len, num_ids)
}

/// The plan of an index of binary vectors that is made from a template, where `vectors_len`
/// numbers are stored.
pub fn create_binary_index_from_template(
    request: TemplateRequest,
    vectors_len: usize,
    num_ids: usize,
) -> (r: Result<TemplatePlan, FaissWrapperError>)
    ensures
        match r {
            Ok(plan) => {
                &&& request.refusal(IndexType::Binary) is None
                &&& plan.kind == IndexType::Binary
                &&& plan.num_vectors == num_ids
                &&& num_ids == vectors_len as nat / (request.dim as nat / 8)
            },
            Err(e) => match request.refusal(IndexType::Binary) {
                Some(message) => e.says(message),
                None => {
                    &&& num_ids != vectors_len as nat / (request.dim as nat / 8)
                    &&& e.says("Number of IDs does not match number of vectors"@)
                },
            },
        },
{
    plan_template(IndexType::Binary, request, vectors_len, num_ids)
}

/// The plan of an index of byte vectors that is made from a template, where `vectors_len`
/// numbers are stored.
pub fn create_byte_index_from_template(
    request: TemplateRequest,
    vectors_len: usize,
    num_ids: usize,
) -> (r: Result<TemplatePlan, FaissWrapperError>)
    ensures
        match r {
            Ok(plan) => {
                &&& request.refusal(IndexType::Byte) is None
                &&& plan.kind == IndexType::Byte
                &&& plan.num_vectors == num_ids
                &&& num_ids == vectors_len as nat / request.dim as nat
            },
            Err(e) => match request.refusal(IndexType::Byte) {
                Some(message) => e.says(message),
                None => {
                    &&& num_ids != vectors_len as nat / request.dim as nat
                    &&& e.says("Number of IDs does not match number of vectors"@)
                },
            },
        },
{
    plan_template(IndexType::Byte, request, vectors_len, num_ids)
}

/// An index can be trained: it has parameters, and a binary one has a dimension
/// that is a multiple of eight.
pub fn check_training(kind: IndexType, parameters_are_null: bool, dimension: i32) -> (r: Result<
    (),
    FaissWrapperError,
>)
    ensures
        match r {
            Ok(_) => !parameters_are_null && (kind is Binary ==> dimension as int % 8 == 0),
            Err(e) => if parameters_are_null {
                e.says("Parameters cannot be null"@)
            } else {
                &&& kind is Binary
                &&& dimension as int % 8 != 0
                &&& e.says("Dimensions should be multiple of 8"@)
            },
        },
{
    if parameters_are_null {
        return runtime("Parameters cannot be null");
    }
    assert(dimension & 7 == 0 <==> dimension as int % 8 == 0) by {
        assert(dimension & 7 == 0 <==> dimension % 8 == 0) by (bit_vector);
    }
    if matches!(kind, IndexType::Binary) && dimension & 7 != 0 {
        return runtime("Dimensions should be multiple of 8");
    }
    Ok(())
}

/// The metric of an index under training, whose space Java may not have given.
pub fn training_metric(space_type: Option<&str>) -> (r: Result<FaissMetricType, FaissWrapperError>)
    ensures
        match r {
            Ok(metric) => space_type matches Some(name) && metric_of(name@) == Some(metric),
            Err(e) => match space_type {
                None => e.says("spaceType not found"@),
                Some(name) => metric_of(name@) is None && e.says("Invalid spaceType: "@ + name@),
            },
        },
{
    match space_type {
        None => runtime("spaceType not found"),
        Some(name) => translate_space_to_metric(name),
    }
}

/// The description of an index under training, which Java may not have given.
pub fn training_description(description: Option<String>) -> (r: Result<String, FaissWrapperError>)
    ensures
        match r {
            Ok(text) => description == Some(text),
            Err(e) => description is None && e.says("index_description not found"@),
        },
{
    match description {
        None => runtime("index_description not found"),
        Some(text) => Ok(text),
    }
}

/// How many training vectors of dimension `dimension` the stored numbers make.
pub fn count_training_vectors(kind: IndexType, len: usize, dimension: i32) -> (n: usize)
    requires
        if kind is Binary {
            dimension as usize >= 8
        } else {
            dimension as usize > 0
        },
    ensures
        n == if kind is Binary {
            len as int / (dimension as usize as int / 8)
        } else {
            len as int / dimension as usize as int
        },
{
    #[verifier::truncate]
    let dim = dimension as usize;
    if matches!(kind, IndexType::Binary) {
        len / (dim / 8)
    } else {
        len / dim
    }
}

/// The plan that trains an index of float vectors.
pub fn train_index() -> (plan: TrainPlan)
    ensures
        plan == (TrainPlan { kind: IndexType::Float }),
{
    TrainPlan { kind: IndexType::Float }
}

/// The plan that trains an index of binary vectors.
pub fn train_binary_index() -> (plan: TrainPlan)
    ensures
        plan == (TrainPlan { kind: IndexType::Binary }),
{
    TrainPlan { kind: IndexType::Binary }
}

/// The plan that trains an index of byte vectors.
pub fn train_byte_index() -> (plan: TrainPlan)
    ensures
        plan == (TrainPlan { kind: IndexType::Byte }),
{
    TrainPlan { kind: IndexType::Byte }
}

/// How an index is read: for reading only, without the tables that are not needed
/// for it.
pub open spec fn load_flags() -> i32 {
    IO_FLAG_READ_ONLY | IO_FLAG_PQ_SKIP_SDC_TABLE | IO_FLAG_SKIP_PRECOMPUTE_TABLE
}

/// How an index is read.
pub fn io_flags() -> (flags: i32)
    ensures
        flags == load_flags(),
        flags == 19,
{
    assert(1i32 | 2i32 | 16i32 == 19) by (bit_vector);
    IO_FLAG_READ_ONLY | IO_FLAG_PQ_SKIP_SDC_TABLE | IO_FLAG_SKIP_PRECOMPUTE_TABLE
}

/// An index can be loaded from a file: there is a path.
pub fn check_index_path(path_is_null: bool) -> (r: Result<(), FaissWrapperError>)
    ensures
        r is Ok == !path_is_null,
        r matches Err(e) ==> e.says("Index path cannot be null"@),
{
    if path_is_null {
        return runtime("Index path cannot be null");
    }
    Ok(())
}

/// The index that was read from a file: `ret` is what Faiss answered, zero where
/// it succeeded.
pub fn load_index(ret: i32, index: FaissIndex) -> (r: Result<i64, FaissWrapperError>)
    ensures
        match r {
            Ok(address) => ret == 0 && index.address != 0 && address == index.address,
            Err(e) => (ret != 0 || index.address == 0) && e.says(
                "Failed to load index from path"@,
            ),
        },
{
    if ret != 0 || index.is_null() {
        return runtime("Failed to load index from path");
    }
    Ok(index.address)
}

/// The binary index that was read from a file: `ret` is what Faiss answered, zero
/// where it succeeded.
pub fn load_binary_index(ret: i32, index: FaissIndexBinary) -> (r: Result<i64, FaissWrapperError>)
    ensures
        match r {
            Ok(address) => ret == 0 && index.address != 0 && address == index.address,
            Err(e) => (ret != 0 || index.address == 0) && e.says(
                "Failed to load binary index from path"@,
            ),
        },
{
    if ret != 0 || index.is_null() {
        return runtime("Failed to load binary index from path");
    }
    Ok(index.address)
}

/// An index can be loaded from a stream: there is a reader.
pub fn check_io_reader(io_reader: FaissIOReader) -> (r: Result<(), FaissWrapperError>)
    ensures
        r is Ok == (io_reader.address != 0),
        r matches Err(e) ==> e.says("IOReader cannot be null"@),
{
    if io_reader.is_null() {
        return runtime("IOReader cannot be null");
    }
    Ok(())
}

/// The index that was read from a stream.
pub fn load_index_with_stream(index: FaissIndex) -> (r: Result<i64, FaissWrapperError>)
    ensures
        match r {
            Ok(address) => index.address != 0 && address == index.address,
            Err(e) => index.address == 0 && e.says("Failed to load index from stream"@),
        },
{
    if index.is_null() {
        return runtime("Failed to load index from stream");
    }
    Ok(index.address)
}

/// The binary index that was read from a stream.
pub fn load_binary_index_with_stream(index: FaissIndexBinary) -> (r: Result<i64, FaissWrapperError>)
    ensures
        match r {
            Ok(address) => index.address != 0 && address == index.address,
            Err(e) => index.address == 0 && e.says("Failed to load binary index from stream"@),
        },
{
    if index.is_null() {
        return runtime("Failed to load binary index from stream");
    }
    Ok(index.address)
}

/// An index with asymmetric distances can be loaded: there are parameters.
pub fn check_adc_parameters(method_params_are_null: bool) -> (r: Result<(), FaissWrapperError>)
    ensures
        r is Ok == !method_params_are_null,
        r matches Err(e) ==> e.says("Method params cannot be null"@),
{
    if method_params_are_null {
        return runtime("Method params cannot be null");
    }
    Ok(())
}

/// The quantization level of an index with asymmetric distances, which Java may not
/// have given.
pub fn adc_quantization_level(level: Option<&str>) -> (r: Result<
    BQQuantizationLevel,
    FaissWrapperError,
>)
    ensures
        match r {
            Ok(l) => level matches Some(text) && jni_util::quantization_level(text@) == Some(l),
            Err(e) => match level {
                None => e.says("Quantization level not specified in params"@),
                Some(text) => jni_util::quantization_level(text@) is None && e.says(
                    "load adc stream called without a quantization level"@,
                ),
            },
        },
{
    match level {
        None => runtime("Quantization level not specified in params"),
        Some(text) => match level_of(text) {
            Some(l) => Ok(l),
            None => runtime("load adc stream called without a quantization level"),
        },
    }
}

/// Why an index with asymmetric distances cannot be loaded, where it cannot be.
pub open spec fn adc_refusal(level: BQQuantizationLevel, space_type: Option<Seq<char>>) -> Option<
    Seq<char>,
> {
    match space_type {
        None => Some("space type not specified in params"@),
        Some(name) => if metric_of(name) is None {
            Some("Invalid spaceType: "@ + name)
        } else {
            match level {
                BQQuantizationLevel::OneBit => None,
                BQQuantizationLevel::TwoBit => Some("ADC not supported for 2 or 4 bit."@),
                BQQuantizationLevel::FourBit => Some("ADC not supported for 2 or 4 bit."@),
                BQQuantizationLevel::Unquantized => Some(
                    "load adc stream called without a quantization level"@,
                ),
            }
        },
    }
}

/// The metric with which an index with asymmetric distances is loaded: it takes a
/// space, and one bit for each dimension.
pub fn load_index_with_stream_adc_params(level: BQQuantizationLevel, space_type: Option<&str>) -> (r:
    Result<FaissMetricType, FaissWrapperError>)
    ensures
        ({
            let name = match space_type {
                Some(text) => Some(text@),
                None => None,
            };
            match r {
                Ok(metric) => adc_refusal(level, name) is None && metric_of(name->0) == Some(metric),
                Err(e) => adc_refusal(level, name) is Some && e.says(adc_refusal(level, name)->0),
            }
        }),
{
    let name = match space_type {
        Some(name) => name,
        None => return runtime("space type not specified in params"),
    };
    let metric = match translate_space_to_metric(name) {
        Ok(metric) => metric,
        Err(e) => return Err(e),
    };
    match level {
        BQQuantizationLevel::OneBit => Ok(metric),
        BQQuantizationLevel::TwoBit => runtime("ADC not supported for 2 or 4 bit."),
        BQQuantizationLevel::FourBit => runtime("ADC not supported for 2 or 4 bit."),
        BQQuantizationLevel::Unquantized => runtime(
            "load adc stream called without a quantization level",
        ),
    }
}

/// The index with asymmetric distances that was read from a stream.
pub fn load_index_with_stream_adc(index: FaissIndex) -> (r: Result<i64, FaissWrapperError>)
    ensures
        match r {
            Ok(address) => index.address != 0 && address == index.address,
            Err(e) => index.address == 0 && e.says(
                "Failed to load ADC index from stream. knn_shim_load_index_adc returned null."@,
            ),
        },
{
    if index.is_null() {
        return runtime(
            "Failed to load ADC index from stream. knn_shim_load_index_adc returned null.",
        );
    }
    Ok(index.address)
}

/// Whether an index is an IVFPQ index with L2 distances: `ivfpq` is what it is seen
/// as, if it is one.
pub fn is_index_ivfpq_l2(index: FaissIndex, ivfpq: FaissIndexIVFPQ, metric: FaissMetricType) -> (is:
    bool)
    ensures
        is == (index.address != 0 && ivfpq.address != 0 && metric == METRIC_L2),
{
    if index.is_null() {
        return false;
    }
    if ivfpq.is_null() {
        return false;
    }
    metric == METRIC_L2
}

/// Whether an index shares its state with others: IVFPQ indices with L2 distances
/// do.
pub fn is_shared_index_state_required(
    index_pointer: i64,
    ivfpq: FaissIndexIVFPQ,
    metric: FaissMetricType,
) -> (required: bool)
    ensures
        required == (index_pointer != 0 && ivfpq.address != 0 && metric == METRIC_L2),
{
    is_index_ivfpq_l2(FaissIndex { address: index_pointer }, ivfpq, metric)
}

/// The index as an IVFPQ index.
pub fn extract_ivfpq_index(index: FaissIndex, ivfpq: FaissIndexIVFPQ) -> (r: Result<
    FaissIndexIVFPQ,
    FaissWrapperError,
>)
    ensures
        match r {
            Ok(i) => index.address != 0 && ivfpq.address != 0 && i == ivfpq,
            Err(e) => if index.address == 0 {
                e.says("Unable to extract IVFPQ index. Index pointer is null."@)
            } else {
                ivfpq.address == 0 && e.says(
                    "Unable to extract IVFPQ index. IVFPQ index not present."@,
                )
            },
        },
{
    if index.is_null() {
        return runtime("Unable to extract IVFPQ index. Index pointer is null.");
    }
    if ivfpq.is_null() {
        return runtime("Unable to extract IVFPQ index. IVFPQ index not present.");
    }
    Ok(ivfpq)
}

/// Shared state can be made for an index.
pub fn check_init_shared_index_state(is_ivfpq_l2: bool) -> (r: Result<(), FaissWrapperError>)
    ensures
        r is Ok == is_ivfpq_l2,
        r matches Err(e) ==> e.says(
            "Unable to init shared index state from index. index is not of type IVFPQ-l2"@,
        ),
{
    if !is_ivfpq_l2 {
        return runtime(
            "Unable to init shared index state from index. index is not of type IVFPQ-l2",
        );
    }
    Ok(())
}

/// The shared state that was made; zero stands for none.
pub fn init_shared_index_state(table: i64) -> (r: Result<i64, FaissWrapperError>)
    ensures
        match r {
            Ok(address) => table != 0 && address == table,
            Err(e) => table == 0 && e.says("Failed to initialize IVFPQ precomputed table"@),
        },
{
    if table == 0 {
        return runtime("Failed to initialize IVFPQ precomputed table");
    }
    Ok(table)
}

/// Shared state can be given to an index.
pub fn set_shared_index_state(is_ivfpq_l2: bool) -> (r: Result<(), FaissWrapperError>)
    ensures
        r is Ok == is_ivfpq_l2,
        r matches Err(e) ==> e.says(
            "Unable to set shared index state from index. index is not of type IVFPQ-l2"@,
        ),
{
    if !is_ivfpq_l2 {
        return runtime(
            "Unable to set shared index state from index. index is not of type IVFPQ-l2",
        );
    }
    Ok(())
}

/// What is released.
#[derive(Debug, Clone, Copy, PartialEq, Eq, Structural)]
pub enum Release {
    Nothing,
    Index(FaissIndex),
    BinaryIndex(FaissIndexBinary),
}

/// What is released at `index_pointer`: nothing where it is zero.
pub fn free(index_pointer: i64, is_binary_index: u8) -> (release: Release)
    ensures
        release == if index_pointer == 0 {
            Release::Nothing
        } else if is_binary_index != 0 {
            Release::BinaryIndex(FaissIndexBinary { address: index_pointer })
        } else {
            Release::Index(FaissIndex { address: index_pointer })
        },
{
    if is_binary_index != 0 {
        let index = FaissIndexBinary { address: index_pointer };
        if index.is_null() {
            Release::Nothing
        } else {
            Release::BinaryIndex(index)
        }
    } else {
        let index = FaissIndex { address: index_pointer };
        if index.is_null() {
            Release::Nothing
        } else {
            Release::Index(index)
        }
    }
}

/// The shared state that is released; nothing where the address is zero.
pub fn free_shared_index_state(shared_index_state_pointer: i64) -> (table: Option<i64>)
    ensures
        table == if shared_index_state_pointer != 0 {
            Some(shared_index_state_pointer)
        } else {
            None
        },
{
    if shared_index_state_pointer != 0 {
        Some(shared_index_state_pointer)
    } else {
        None
    }
}

/// Readies Faiss. There is nothing to do: the number of threads is set for each
/// operation.
pub fn init_library() {
}

/// How many words the bitmap of the given ids has.
pub open spec fn grouper_words(ids: Seq<i32>) -> int {
    (id_bitmap::max_id(ids) + 64) / 64
}

/// The bitmap of the parent ids: bit `id` is set where `id` is a parent id. Without
/// ids there is no word.
pub fn build_id_grouper_bitmap(parent_ids: Option<&[i32]>) -> (words: Vec<u64>)
    requires
        parent_ids matches Some(ids) ==> ids@.len() > 0 ==> id_bitmap::max_id(ids@) >= 0,
    ensures
        match parent_ids {
            None => words@.len() == 0,
            Some(ids) => {
                &&& words@.len() == grouper_words(ids@)
                &&& forall|id: int|
                    0 <= id < 64 * words@.len() ==> #[trigger] id_bitmap::bit_is_set(words@, id)
                        == id_bitmap::is_listed(ids@, id)
            },
        },
{
    match parent_ids {
        None => Vec::new(),
        Some(ids) => {
            let max_id: u64 = if ids.len() == 0 {
                0
            } else {
                largest(ids) as u64
            };
            bitmap_of(ids, ((max_id + 64) / 64) as usize)
        },
    }
}

/// A selector of the bitmap of the parent ids selects exactly the parent ids that
/// are not negative.
pub proof fn lemma_grouper_selects(ids: Seq<i32>, words: Seq<u64>, selector: IDSelectorJlongBitmap, id: i64)
    requires
        ids.len() > 0,
        words.len() == grouper_words(ids),
        forall|i: int|
            0 <= i < 64 * words.len() ==> #[trigger] id_bitmap::bit_is_set(words, i)
                == id_bitmap::is_listed(ids, i),
        selector.n == words.len(),
        selector.bitmap@.len() == words.len(),
        forall|w: int| 0 <= w < words.len() ==> #[trigger] selector.bitmap@[w] as u64 == words[w],
        id >= 0,
    ensures
        selector.selects(id) == id_bitmap::is_listed(ids, id as int),
{
    id_bitmap::lemma_max_id(ids);
    if id < 64 * words.len() {
        assert(selector.bitmap@[id as int / 64] as u64 == words[id as int / 64]);
        assert(id_bitmap::bit_is_set(words, id as int) == id_bitmap::is_listed(ids, id as int));
    } else {
        assert(id > id_bitmap::max_id(ids));
        assert(!id_bitmap::is_listed(ids, id as int));
    }
}

/// The results are the neighbours at these places, in the order of the places: each has its
/// neighbour's distance, and its neighbour's id, of which an id that does not fit keeps the
/// low 32 bits.
pub open spec fn are_at<D>(
    ids: Seq<i64>,
    distances: Seq<D>,
    results: Seq<QueryResult<D>>,
    places: Seq<int>,
) -> bool {
    &&& results.len() == places.len()
    &&& forall|r: int, s: int|
        0 <= r < s < places.len() ==> #[trigger] places[r] < #[trigger] places[s]
    &&& forall|r: int|
        0 <= r < places.len() ==> {
            let place = #[trigger] places[r];
            &&& 0 <= place < ids.len()
            &&& results[r].distance == distances[place]
            &&& i32::MIN <= ids[place] <= i32::MAX ==> results[r].id == ids[place]
            &&& (ids[place] - results[r].id) % 0x1_0000_0000 == 0
        }
}

proof fn lemma_low_half(id: i64)
    ensures
        (id - (id as i32)) % 0x1_0000_0000 == 0,
        i32::MIN <= id <= i32::MAX ==> (id as i32) == id,
{
    assert((id - (id as i32)) % 0x1_0000_0000 == 0) by (bit_vector);
}

proof fn lemma_places<D>(
    ids: Seq<i64>,
    distances: Seq<D>,
    filter: IdFilter<'_>,
    n: nat,
) -> (places: Seq<int>)
    requires
        n <= ids.len(),
    ensures
        are_at(ids, distances, selected_results(ids, distances, filter, n), places),
        forall|i: int| #[trigger]
            places.contains(i) <==> 0 <= i < n && filter.selects(ids[i]),
    decreases n,
{
    if n == 0 {
        Seq::empty()
    } else {
        let m = (n - 1) as nat;
        let before = lemma_places(ids, distances, filter, m);
        assert forall|r: int| 0 <= r < before.len() implies 0 <= #[trigger] before[r] < m by {
            assert(before.contains(before[r]));
        }
        if filter.selects(ids[m as int]) {
            lemma_low_half(ids[m as int]);
            let places = before.push(m as int);
            assert forall|i: int| #[trigger] places.contains(i) <==> 0 <= i < n && filter.selects(
                ids[i],
            ) by {
                if before.contains(i) {
                    let r = choose|r: int| 0 <= r < before.len() && before[r] == i;
                    assert(places[r] == i);
                }
                if i == m {
                    assert(places[before.len() as int] == i);
                }
                if places.contains(i) && i != m {
                    let r = choose|r: int| 0 <= r < places.len() && places[r] == i;
                    assert(before[r] == i);
                }
            }
            places
        } else {
            before
        }
    }
}

/// A query returns the neighbours that were found and that the filter selects, all of them,
/// in the order in which they were found and with their ids and distances: a neighbour was
/// found where neither it nor one before it is -1.
pub proof fn lemma_query_results<D: Copy>(
    ids: &[i64],
    distances: &[D],
    filter: &IdFilter<'_>,
    results: Vec<QueryResult<D>>,
)
    requires
        filter.wf(),
        ids@.len() == distances@.len(),
        call_ensures(query_results::<D>, (ids, distances, filter), results),
    ensures
        exists|places: Seq<int>|
            {
                &&& #[trigger] are_at(ids@, distances@, results@, places)
                &&& forall|i: int| #[trigger]
                    places.contains(i) <==> {
                        &&& 0 <= i < ids@.len()
                        &&& forall|j: int| 0 <= j <= i ==> #[trigger] ids@[j] != -1
                        &&& filter.selects(ids@[i])
                    }
            },
{
    lemma_found_count(ids@);
    let found = found_count(ids@);
    let places = lemma_places(ids@, distances@, *filter, found);
    assert forall|i: int| #[trigger] places.contains(i) <==> {
        &&& 0 <= i < ids@.len()
        &&& forall|j: int| 0 <= j <= i ==> #[trigger] ids@[j] != -1
        &&& filter.selects(ids@[i])
    } by {
        if found <= i < ids@.len() {
            assert(ids@[found as int] == -1);
        }
    }
    assert(are_at(ids@, distances@, results@, places));
}

/// A range search returns, of the vectors that were found and that the filter selects, as many
/// as the window allows, in the order in which they were found and with their ids and
/// distances; those that are left out come behind those that are returned.
pub proof fn lemma_range_results<D: Copy>(
    labels: &[i64],
    distances: &[D],
    filter: &IdFilter<'_>,
    max_result_window: i32,
    r: Option<Vec<QueryResult<D>>>,
)
    requires
        filter.wf(),
        labels@.len() == distances@.len(),
        call_ensures(range_results::<D>, (labels, distances, filter, max_result_window), r),
    ensures
        r is None <==> max_result_window < 0,
        r matches Some(results) ==> exists|places: Seq<int>, count: int|
            {
                &&& 0 <= count <= places.len()
                &&& count == max_result_window || count == places.len() <= max_result_window
                &&& #[trigger] are_at(labels@, distances@, results@, places.take(count))
                &&& forall|i: int| #[trigger]
                    places.contains(i) <==> 0 <= i < labels@.len() && filter.selects(labels@[i])
            },
{
    if let Some(results) = r {
        let all = selected_results(labels@, distances@, *filter, labels@.len());
        let places = lemma_places(labels@, distances@, *filter, labels@.len());
        let count: int = if all.len() <= max_result_window {
            all.len() as int
        } else {
            max_result_window as int
        };
        assert(are_at(labels@, distances@, results@, places.take(count)));
    }
}

/// Which ids the filter that Java asks for lets through: all where there are no filter ids;
/// where the type is zero, those that the words have as bits, id `id` being digit `id % 64`
/// of word `id / 64` to base two; and otherwise those of the list.
pub proof fn lemma_requested_filter(
    filter_ids: Option<&[i64]>,
    filter_ids_type: i32,
    filter: IdFilter<'_>,
    id: i64,
    selected: bool,
)
    requires
        call_ensures(IdFilter::new, (filter_ids, filter_ids_type), filter),
        call_ensures(IdFilter::is_selected, (&filter, id), selected),
    ensures
        filter_ids is None ==> selected,
        filter_ids matches Some(ids) ==> {
            &&& filter_ids_type == 0 ==> {
                &&& 0 <= id < 64 * ids@.len() ==> selected == (ids@[id as int / 64] as u64 as nat
                    / pow2((id as int % 64) as nat) % 2 == 1)
                &&& id >= 64 * ids@.len() ==> !selected
                &&& id < 0 && ids@.len() <= i64::MAX / 64 ==> !selected
            }
            &&& filter_ids_type != 0 ==> selected == exists|i: int|
                0 <= i < ids@.len() && #[trigger] ids@[i] == id
        },
{
    if let Some(ids) = filter_ids {
        if filter_ids_type == 0 && 0 <= id < 64 * ids@.len() {
            id_bitmap::lemma_word_bit(ids@[id as int / 64] as u64, (id as int % 64) as nat);
        }
    }
}

/// A bitmap selector sees the first `n` words alone: id `id` is digit `id % 64` of word
/// `id / 64` to base two.
pub proof fn lemma_bitmap_selector(
    n: usize,
    bitmap: &[i64],
    selector: IDSelectorJlongBitmap<'_>,
    id: i64,
    member: bool,
)
    requires
        n <= bitmap@.len(),
        call_ensures(IDSelectorJlongBitmap::new, (n, bitmap), selector),
        call_ensures(IDSelectorJlongBitmap::is_member, (&selector, id), member),
    ensures
        0 <= id < 64 * n ==> member == (bitmap@[id as int / 64] as u64 as nat / pow2(
            (id as int % 64) as nat,
        ) % 2 == 1),
        id >= 64 * n ==> !member,
{
    if 0 <= id < 64 * n {
        id_bitmap::lemma_word_bit(bitmap@[id as int / 64] as u64, (id as int % 64) as nat);
    }
}

/// The bitmap of the parent ids reaches each of them, by as few words as that takes, and holds
/// an id where it is a parent id. Without parent ids there is no word, and one word where
/// the list of them is empty.
pub proof fn lemma_grouper_bitmap(parent_ids: Option<&[i32]>, words: Vec<u64>, id: int)
    requires
        parent_ids matches Some(ids) ==> forall|i: int|
            0 <= i < ids@.len() ==> 0 <= #[trigger] ids@[i],
        call_ensures(build_id_grouper_bitmap, (parent_ids,), words),
    ensures
        parent_ids is None ==> words@.len() == 0,
        parent_ids matches Some(ids) ==> {
            &&& ids@.len() == 0 ==> words@.len() == 1
            &&& ids@.len() > 0 ==> exists|i: int|
                0 <= i < ids@.len() && 64 * (words@.len() - 1) <= #[trigger] ids@[i]
            &&& forall|i: int| 0 <= i < ids@.len() ==> #[trigger] ids@[i] < 64 * words@.len()
            &&& 0 <= id < 64 * words@.len() ==> words@[id / 64] as nat / pow2((id % 64) as nat) % 2
                == (if exists|i: int| 0 <= i < ids@.len() && #[trigger] ids@[i] == id {
                1nat
            } else {
                0
            })
        },
{
    if let Some(ids) = parent_ids {
        if ids@.len() > 0 {
            id_bitmap::lemma_max_id(ids@);
        }
        if 0 <= id < 64 * words@.len() {
            id_bitmap::lemma_word_bit(words@[id / 64], (id % 64) as nat);
            assert(id_bitmap::bit_is_set(words@, id) == id_bitmap::is_listed(ids@, id));
        }
    }
}

/// A search sets what it is given for the kind of index that it searches, and nothing else: no
/// setting is made for an index of another kind, and none where no number is given.
pub proof fn lemma_search_settings(
    ef_search: Option<i32>,
    nprobe: Option<i32>,
    is_hnsw: bool,
    is_ivf: bool,
    settings: Vec<ParameterSetting>,
)
    requires
        call_ensures(search_settings, (ef_search, nprobe, is_hnsw, is_ivf), settings),
    ensures
        forall|x: ParameterSetting| #[trigger]
            settings@.contains(x) <==> match x {
                ParameterSetting::EfSearch(n) => is_hnsw && ef_search == Some(n),
                ParameterSetting::Nprobe(n) => is_ivf && nprobe == Some(n),
                _ => false,
            },
        settings@.no_duplicates(),
{
    let a: Seq<ParameterSetting> = if is_hnsw && ef_search is Some {
        seq![ParameterSetting::EfSearch(ef_search->0)]
    } else {
        seq![]
    };
    let b: Seq<ParameterSetting> = if is_ivf && nprobe is Some {
        seq![ParameterSetting::Nprobe(nprobe->0)]
    } else {
        seq![]
    };
    assert(settings@ =~= a + b);
    faiss_index_service::lemma_contains_of_sum(a, b);
    assert forall|x: ParameterSetting| #[trigger] settings@.contains(x) <==> match x {
        ParameterSetting::EfSearch(n) => is_hnsw && ef_search == Some(n),
        ParameterSetting::Nprobe(n) => is_ivf && nprobe == Some(n),
        _ => false,
    } by {
        assert((a + b).contains(x) <==> a.contains(x) || b.contains(x));
        if a.len() > 0 {
            assert(a[0] == ParameterSetting::EfSearch(ef_search->0));
        }
        if b.len() > 0 {
            assert(b[0] == ParameterSetting::Nprobe(nprobe->0));
        }
    }
}

/// A parameter that is given counts, and the default does where it is not; a number that does not
/// fit into 32 bits keeps its low 32 bits.
pub proof fn lemma_integer_method_parameter(
    params: &StringMap<i64>,
    key: &str,
    default_value: i32,
    value: i32,
)
    requires
        call_ensures(get_integer_method_parameter, (params, key, default_value), value),
    ensures
        !params@.dom().contains(key@) ==> value == default_value,
        params@.dom().contains(key@) ==> {
            let given = params@[key@];
            &&& i32::MIN <= given <= i32::MAX ==> value == given
            &&& (given - value) % 0x1_0000_0000 == 0
        },
{
    if params@.dom().contains(key@) {
        lemma_low_half(params@[key@]);
    }
}

/// What is set on an index under training comes from the parameters that it is given: a setting
/// is made where there is an index, it is of the setting's kind, and the parameter of the
/// setting's name is a number, with that number. The coarse quantizer of an IVF index has its
/// parameters in those under its own name. No setting is made twice, and those of an IVF index
/// come first.
pub proof fn lemma_training_settings(
    parameters: &StringMap<ParamValue>,
    index: FaissIndex,
    is_ivf: bool,
    is_hnsw: bool,
    settings: Vec<ParameterSetting>,
)
    requires
        call_ensures(set_extra_parameters, (parameters, index, is_ivf, is_hnsw), settings),
    ensures
        forall|x: ParameterSetting| #[trigger]
            settings@.contains(x) <==> index.address != 0 && match x {
                ParameterSetting::EfConstruction(n) => is_hnsw && parameters@.contains_pair(
                    "ef_construction"@,
                    ParamValue::Int(n),
                ),
                ParameterSetting::EfSearch(n) => is_hnsw && parameters@.contains_pair(
                    "ef_search"@,
                    ParamValue::Int(n),
                ),
                ParameterSetting::Nprobe(n) => is_ivf && parameters@.contains_pair(
                    "nprobes"@,
                    ParamValue::Int(n),
                ),
                ParameterSetting::QuantizerEfSearch(n) => is_ivf
                    && faiss_index_service::quantizer_has(parameters@, "ef_search"@, n),
                ParameterSetting::QuantizerEfConstruction(n) => is_ivf
                    && faiss_index_service::quantizer_has(parameters@, "ef_construction"@, n),
            },
        settings@.no_duplicates(),
        forall|i: int, j: int|
            0 <= i < settings@.len() && 0 <= j < settings@.len()
                && !faiss_index_service::is_for_hnsw(#[trigger] settings@[i])
                && faiss_index_service::is_for_hnsw(#[trigger] settings@[j]) ==> i < j,
{
    if index.address != 0 {
        faiss_index_service::lemma_settings_of_hnsw(parameters@);
        faiss_index_service::lemma_settings_of_ivf(parameters@);
        let v: Seq<ParameterSetting> = if is_ivf {
            faiss_index_service::ivf_settings(parameters@)
        } else {
            seq![]
        };
        let h: Seq<ParameterSetting> = if is_hnsw {
            faiss_index_service::hnsw_settings(parameters@)
        } else {
            seq![]
        };
        assert(settings@ == v + h);
        faiss_index_service::lemma_contains_of_sum(v, h);
        assert forall|x: ParameterSetting| #[trigger] settings@.contains(x) <==> v.contains(x)
            || h.contains(x) by {
            assert((v + h).contains(x) <==> v.contains(x) || h.contains(x));
        }
    }
}

/// The parameters of an index under training are those that are given, each under its name, and
/// no others have a number: what is then set on an index is what was given.
pub proof fn lemma_training_parameters(
    ef_construction: Option<i32>,
    ef_search: Option<i32>,
    nprobe: Option<i32>,
    quantizer: Option<QuantizerParameters>,
    parameters: StringMap<ParamValue>,
    index: FaissIndex,
    is_ivf: bool,
    is_hnsw: bool,
    settings: Vec<ParameterSetting>,
)
    requires
        index.address != 0,
        call_ensures(
            training_parameters,
            (ef_construction, ef_search, nprobe, quantizer),
            parameters,
        ),
        call_ensures(set_extra_parameters, (&parameters, index, is_ivf, is_hnsw), settings),
    ensures
        forall|x: ParameterSetting| #[trigger]
            settings@.contains(x) <==> match x {
                ParameterSetting::EfConstruction(n) => is_hnsw && ef_construction == Some(n),
                ParameterSetting::EfSearch(n) => is_hnsw && ef_search == Some(n),
                ParameterSetting::Nprobe(n) => is_ivf && nprobe == Some(n),
                ParameterSetting::QuantizerEfSearch(n) => is_ivf && (quantizer matches Some(q)
                    && q.ef_search == Some(n)),
                ParameterSetting::QuantizerEfConstruction(n) => is_ivf && (quantizer matches Some(q)
                    && q.ef_construction == Some(n)),
            },
{
    lemma_training_settings(&parameters, index, is_ivf, is_hnsw, settings);
    let p = parameters@;
    let sub = faiss_index_service::sub_params(p, "coarse_quantizer"@);
    assert(ef_construction == faiss_index_service::int_param(p, "ef_construction"@));
    assert(ef_search == faiss_index_service::int_param(p, "ef_search"@));
    assert(nprobe == faiss_index_service::int_param(p, "nprobes"@));
    if let Some(q) = quantizer {
        assert(q.ef_search == faiss_index_service::int_param(sub, "ef_search"@));
        assert(q.ef_construction == faiss_index_service::int_param(sub, "ef_construction"@));
    } else {
        assert(!p.dom().contains("coarse_quantizer"@));
    }
}

/// An index is made from a template where nothing that it takes is missing, the dimension is
/// positive, and a multiple of eight for binary vectors, and there are as many ids as the stored
/// numbers make whole vectors: each has as many numbers as dimensions, or an eighth of that
/// where it is binary. The plan then adds as many vectors as there are ids.
pub proof fn lemma_template_request(
    kind: IndexType,
    request: TemplateRequest,
    vectors_len: usize,
    num_ids: usize,
    r: Result<TemplatePlan, FaissWrapperError>,
)
    requires
        match kind {
            IndexType::Float => call_ensures(
                create_index_from_template,
                (request, vectors_len, num_ids),
                r,
            ),
            IndexType::Binary => call_ensures(
                create_binary_index_from_template,
                (request, vectors_len, num_ids),
                r,
            ),
            IndexType::Byte => call_ensures(
                create_byte_index_from_template,
                (request, vectors_len, num_ids),
                r,
            ),
        },
    ensures
        ({
            let width = if kind is Binary {
                request.dim as int / 8
            } else {
                request.dim as int
            };
            &&& r is Ok <==> {
                &&& !request.ids_are_null && !request.output_is_null && !request.template_is_null
                &&& request.vectors_address > 0
                &&& request.dim > 0
                &&& kind is Binary ==> request.dim as int % 8 == 0
                &&& num_ids * width <= vectors_len < (num_ids + 1) * width
            }
            &&& r matches Ok(plan) ==> plan.kind == kind && plan.num_vectors == num_ids
        }),
{
    let width: int = if kind is Binary {
        request.dim as int / 8
    } else {
        request.dim as int
    };
    if request.dim > 0 && (kind is Binary ==> request.dim as int % 8 == 0) {
        let n = vectors_len as int / width;
        let m = num_ids as int;
        assert(n * width <= vectors_len < (n + 1) * width) by (nonlinear_arith)
            requires
                width > 0,
                n == vectors_len as int / width,
        ;
        assert(m * width <= vectors_len && vectors_len < (m + 1) * width ==> m == n)
            by (nonlinear_arith)
            requires
                width > 0,
                n * width <= vectors_len < (n + 1) * width,
        ;
    }
}

/// What is wrong with a request is said in a fixed order: the first thing that is wrong is named,
/// and nothing is refused where nothing is wrong.
pub proof fn lemma_request_refusal(request: TemplateRequest, kind: IndexType, r: Result<
    (),
    FaissWrapperError,
>)
    requires
        call_ensures(TemplateRequest::check, (request, kind), r),
    ensures
        r is Ok <==> {
            &&& !request.ids_are_null && !request.output_is_null && !request.template_is_null
            &&& request.vectors_address > 0
            &&& request.dim > 0
            &&& kind is Binary ==> request.dim as int % 8 == 0
        },
        request.ids_are_null ==> (r matches Err(e) && e.says("IDs cannot be null"@)),
        !request.ids_are_null && request.vectors_address <= 0 ==> (r matches Err(e) && e.says(
            "VectorsAddress cannot be less than 0"@,
        )),
        !request.ids_are_null && request.vectors_address > 0 && request.dim <= 0 ==> (r matches Err(
            e,
        ) && e.says("Vectors dimensions cannot be less than or equal to 0"@)),
{
}

/// The vectors to train on are as many as the stored numbers make whole vectors.
pub proof fn lemma_training_vectors(kind: IndexType, len: usize, dimension: i32, n: usize)
    requires
        dimension >= 1,
        kind is Binary ==> dimension >= 8,
        call_ensures(count_training_vectors, (kind, len, dimension), n),
    ensures
        kind is Binary ==> n * (dimension as int / 8) <= len < (n + 1) * (dimension as int / 8),
        !(kind is Binary) ==> n * dimension <= len < (n + 1) * dimension,
{
    let width: int = if kind is Binary {
        dimension as int / 8
    } else {
        dimension as int
    };
    assert(n * width <= len < (n + 1) * width) by (nonlinear_arith)
        requires
            width > 0,
            n as int == len as int / width,
    ;
}

/// An index can be trained where it has parameters, unless it is binary and its dimension is no
/// multiple of eight.
pub proof fn lemma_training_check(
    kind: IndexType,
    parameters_are_null: bool,
    dimension: i32,
    r: Result<(), FaissWrapperError>,
)
    requires
        call_ensures(check_training, (kind, parameters_are_null, dimension), r),
    ensures
        r is Ok <==> !parameters_are_null && (kind is Binary ==> exists|k: int|
            #![trigger (8 * k)]
            dimension == 8 * k),
{
    if kind is Binary {
        let k = dimension as int / 8;
        assert(dimension as int % 8 == 0 ==> dimension == 8 * k);
    }
}

/// A space has a metric where it is one of the four that there are: distances for the Hamming
/// space are asked for as for L2, and cosine similarity is an inner product. It is the same
/// metric wherever the space is named.
pub proof fn lemma_metrics(
    space_type: &str,
    r: Result<FaissMetricType, FaissWrapperError>,
    training: Result<FaissMetricType, FaissWrapperError>,
    loading: Result<FaissMetricType, FaissWrapperError>,
)
    requires
        call_ensures(translate_space_to_metric, (space_type,), r),
        call_ensures(training_metric, (Some(space_type),), training),
        call_ensures(
            load_index_with_stream_adc_params,
            (BQQuantizationLevel::OneBit, Some(space_type)),
            loading,
        ),
    ensures
        r is Ok <==> {
            ||| space_type@ == "l2"@
            ||| space_type@ == "hamming"@
            ||| space_type@ == "innerproduct"@
            ||| space_type@ == "cosinesimil"@
        },
        space_type@ == "l2"@ || space_type@ == "hamming"@ ==> r == Ok::<
            FaissMetricType,
            FaissWrapperError,
        >(1),
        space_type@ == "innerproduct"@ || space_type@ == "cosinesimil"@ ==> r == Ok::<
            FaissMetricType,
            FaissWrapperError,
        >(0),
        r matches Err(e) ==> e.says("Invalid spaceType: "@ + space_type@),
        r is Ok ==> training == r && loading == r,
        r is Err ==> training is Err && loading is Err,
{
    lemma_spaces_differ();
}

/// An index with asymmetric distances has one bit for each dimension: it is refused for every
/// other level, whatever its space is, and for a missing space, whatever its level is.
pub proof fn lemma_adc_levels(
    level: BQQuantizationLevel,
    space_type: Option<&str>,
    r: Result<FaissMetricType, FaissWrapperError>,
)
    requires
        call_ensures(load_index_with_stream_adc_params, (level, space_type), r),
    ensures
        r is Ok ==> level is OneBit && space_type is Some,
        space_type is None ==> (r matches Err(e) && e.says("space type not specified in params"@)),
        level is TwoBit && r is Err && (space_type matches Some(name) && (name@ == "l2"@ || name@
            == "innerproduct"@)) ==> (r matches Err(e) && e.says(
            "ADC not supported for 2 or 4 bit."@,
        )),
        level is FourBit && (space_type matches Some(name) && (name@ == "l2"@ || name@
            == "innerproduct"@)) ==> (r matches Err(e) && e.says(
            "ADC not supported for 2 or 4 bit."@,
        )),
{
}

/// What was read is handed on by its address, and nothing is handed on where nothing was read.
pub proof fn lemma_loaded(
    ret: i32,
    index: FaissIndex,
    binary: FaissIndexBinary,
    from_file: Result<i64, FaissWrapperError>,
    binary_from_file: Result<i64, FaissWrapperError>,
    from_stream: Result<i64, FaissWrapperError>,
    binary_from_stream: Result<i64, FaissWrapperError>,
    with_adc: Result<i64, FaissWrapperError>,
)
    requires
        call_ensures(load_index, (ret, index), from_file),
        call_ensures(load_binary_index, (ret, binary), binary_from_file),
        call_ensures(load_index_with_stream, (index,), from_stream),
        call_ensures(load_binary_index_with_stream, (binary,), binary_from_stream),
        call_ensures(load_index_with_stream_adc, (index,), with_adc),
    ensures
        from_file is Ok <==> ret == 0 && index.address != 0,
        binary_from_file is Ok <==> ret == 0 && binary.address != 0,
        from_stream is Ok <==> index.address != 0,
        binary_from_stream is Ok <==> binary.address != 0,
        with_adc is Ok <==> index.address != 0,
        from_file matches Ok(a) ==> a == index.address,
        binary_from_file matches Ok(a) ==> a == binary.address,
        from_stream matches Ok(a) ==> a == index.address,
        binary_from_stream matches Ok(a) ==> a == binary.address,
        with_adc matches Ok(a) ==> a == index.address,
{
}

/// What is released is what lies at the address, as the kind of index that it is said to be, and
/// nothing where there is no address.
pub proof fn lemma_released(
    pointer: i64,
    is_binary_index: u8,
    release: Release,
    table: Option<i64>,
)
    requires
        call_ensures(free, (pointer, is_binary_index), release),
        call_ensures(free_shared_index_state, (pointer,), table),
    ensures
        release is Nothing <==> pointer == 0,
        release matches Release::Index(index) ==> index.address == pointer && is_binary_index == 0,
        release matches Release::BinaryIndex(index) ==> index.address == pointer && is_binary_index
            != 0,
        table is None <==> pointer == 0,
        table matches Some(address) ==> address == pointer,
{
}

/// State is shared between IVFPQ indices with L2 distances: it is asked for by those for which it
/// can be made, and what was made is handed on by its address.
pub proof fn lemma_shared_state(
    index: FaissIndex,
    ivfpq: FaissIndexIVFPQ,
    metric: FaissMetricType,
    required: bool,
    extracted: Result<FaissIndexIVFPQ, FaissWrapperError>,
    table: i64,
    made: Result<i64, FaissWrapperError>,
)
    requires
        call_ensures(is_shared_index_state_required, (index.address, ivfpq, metric), required),
        call_ensures(extract_ivfpq_index, (index, ivfpq), extracted),
        call_ensures(init_shared_index_state, (table,), made),
    ensures
        required <==> index.address != 0 && ivfpq.address != 0 && metric
            == 1,
        required ==> extracted == Ok::<FaissIndexIVFPQ, FaissWrapperError>(ivfpq),
        extracted is Ok <==> index.address != 0 && ivfpq.address != 0,
        made is Ok <==> table != 0,
        made matches Ok(address) ==> address == table,
{
}

/// An index is read for reading only and without tables: three flags of one bit each.
pub proof fn lemma_io_flags(flags: i32)
    requires
        call_ensures(io_flags, (), flags),
    ensures
        flags == 1 + 2 + 16,
{
}

/// An error of the native library has this text.
pub open spec fn is_runtime(error: FaissWrapperError, text: Seq<char>) -> bool {
    match error {
        FaissWrapperError::Runtime(message) => message@ == text,
        _ => false,
    }
}

/// A search needs a query and an index, and is run on the index at the address; a missing query is
/// told before a missing index.
pub proof fn lemma_searches_checked(
    query_is_null: bool,
    address: i64,
    r: Result<FaissIndexIDMap, FaissWrapperError>,
    binary: Result<FaissIndexBinaryIDMap, FaissWrapperError>,
    range: Result<FaissIndexIDMap, FaissWrapperError>,
    result_is_null: bool,
    result: Result<(), FaissWrapperError>,
)
    requires
        call_ensures(check_query, (query_is_null, address), r),
        call_ensures(check_binary_query, (query_is_null, address), binary),
        call_ensures(check_range_search, (query_is_null, address), range),
        call_ensures(check_range_search_result, (result_is_null,), result),
    ensures
        r is Ok <==> !query_is_null && address != 0,
        binary is Ok <==> !query_is_null && address != 0,
        range is Ok <==> !query_is_null && address != 0,
        result is Ok <==> !result_is_null,
        r matches Ok(index) ==> index.address == address,
        binary matches Ok(index) ==> index.address == address,
        range matches Ok(index) ==> index.address == address,
        query_is_null ==> {
            &&& is_runtime(r->Err_0, "Query Vector cannot be null"@)
            &&& is_runtime(binary->Err_0, "Query Vector cannot be null"@)
            &&& is_runtime(range->Err_0, "Query Vector cannot be null"@)
        },
        !query_is_null && address == 0 ==> {
            &&& is_runtime(r->Err_0, "Invalid pointer to index"@)
            &&& is_runtime(binary->Err_0, "Invalid pointer to index"@)
            &&& is_runtime(range->Err_0, "Invalid pointer to indexReader"@)
        },
        result_is_null ==> is_runtime(result->Err_0, "Failed to create RangeSearchResult"@),
{
}

/// An index is trained where there is one that is not trained yet, as the last thing that is done
/// with it; an index of cells gets its direct map before, and its quantizer is trained first, where
/// the quantizer says that it trains alone.
pub proof fn lemma_training_actions(
    index: FaissIndex,
    is_ivf: bool,
    quantizer_trains_alone: i32,
    is_trained: i32,
    actions: Vec<TrainAction>,
    binary: FaissIndexBinary,
    train_binary: bool,
)
    requires
        call_ensures(
            internal_train_index,
            (index, is_ivf, quantizer_trains_alone, is_trained),
            actions,
        ),
        call_ensures(internal_train_binary_index, (binary, is_trained), train_binary),
    ensures
        actions@.contains(TrainAction::TrainIndex) <==> index.address != 0 && is_trained == 0,
        actions@.contains(TrainAction::MakeDirectMap) <==> index.address != 0 && is_ivf,
        actions@.contains(TrainAction::TrainQuantizer) <==> index.address != 0 && is_ivf
            && quantizer_trains_alone == 2,
        forall|i: int, j: int|
            0 <= i < j < actions@.len() ==> {
                &&& #[trigger] actions@[i] != #[trigger] actions@[j]
                &&& actions@[i] != TrainAction::TrainIndex
                &&& actions@[j] != TrainAction::TrainQuantizer
            },
        train_binary <==> binary.address != 0 && is_trained == 0,
{
    lemma_trains_once(index, is_ivf, quantizer_trains_alone, is_trained);
}

/// A plan trains vectors of the kind that it is made for.
pub proof fn lemma_training_kinds(float: TrainPlan, binary: TrainPlan, byte: TrainPlan)
    requires
        call_ensures(train_index, (), float),
        call_ensures(train_binary_index, (), binary),
        call_ensures(train_byte_index, (), byte),
    ensures
        float.kind is Float,
        binary.kind is Binary,
        byte.kind is Byte,
{
}

/// What is missing in a request is told, and a request that has it is let through.
pub proof fn lemma_requests_checked(
    description: Option<String>,
    described: Result<String, FaissWrapperError>,
    path_is_null: bool,
    path: Result<(), FaissWrapperError>,
    io_reader: FaissIOReader,
    reader: Result<(), FaissWrapperError>,
    params_are_null: bool,
    params: Result<(), FaissWrapperError>,
    dim: i32,
    made: Result<i64, FaissWrapperError>,
)
    requires
        call_ensures(training_description, (description,), described),
        call_ensures(check_index_path, (path_is_null,), path),
        call_ensures(check_io_reader, (io_reader,), reader),
        call_ensures(check_adc_parameters, (params_are_null,), params),
        call_ensures(init_index, (dim, params_are_null), made),
    ensures
        match description {
            Some(text) => described == Ok::<String, FaissWrapperError>(text),
            None => described is Err && is_runtime(
                described->Err_0,
                "index_description not found"@,
            ),
        },
        path is Ok <==> !path_is_null,
        path_is_null ==> is_runtime(path->Err_0, "Index path cannot be null"@),
        reader is Ok <==> io_reader.address != 0,
        io_reader.address == 0 ==> is_runtime(reader->Err_0, "IOReader cannot be null"@),
        params is Ok <==> !params_are_null,
        params_are_null ==> is_runtime(params->Err_0, "Method params cannot be null"@),
        made is Err,
        dim < 1 ==> is_runtime(
            made->Err_0,
            "Vectors dimensions cannot be less than or equal to 0"@,
        ),
        dim >= 1 && params_are_null ==> is_runtime(made->Err_0, "Parameters cannot be null"@),
{
}

/// The level of an index with asymmetric distances is the one that is named, and there are no levels
/// but the three that quantize.
pub proof fn lemma_adc_level_named(
    text: &str,
    r: Result<BQQuantizationLevel, FaissWrapperError>,
    absent: Result<BQQuantizationLevel, FaissWrapperError>,
)
    requires
        call_ensures(adc_quantization_level, (Some(text),), r),
        call_ensures(adc_quantization_level, (None::<&str>,), absent),
    ensures
        r == Ok::<_, FaissWrapperError>(BQQuantizationLevel::OneBit) <==> text@
            == "ScalarQuantizationParams_1"@,
        r == Ok::<_, FaissWrapperError>(BQQuantizationLevel::TwoBit) <==> text@
            == "ScalarQuantizationParams_2"@,
        r == Ok::<_, FaissWrapperError>(BQQuantizationLevel::FourBit) <==> text@
            == "ScalarQuantizationParams_4"@,
        r != Ok::<_, FaissWrapperError>(BQQuantizationLevel::Unquantized),
        r is Err ==> is_runtime(
            r->Err_0,
            "load adc stream called without a quantization level"@,
        ),
        absent is Err && is_runtime(
            absent->Err_0,
            "Quantization level not specified in params"@,
        ),
{
    reveal_strlit("ScalarQuantizationParams_1");
    reveal_strlit("ScalarQuantizationParams_2");
    reveal_strlit("ScalarQuantizationParams_4");
    assert("ScalarQuantizationParams_1"@[25] == '1');
    assert("ScalarQuantizationParams_2"@[25] == '2');
    assert("ScalarQuantizationParams_4"@[25] == '4');
}

/// State is shared by indices of inverted lists with product quantization and L2 distances, and by
/// no others.
pub proof fn lemma_state_shared(
    index: FaissIndex,
    ivfpq: FaissIndexIVFPQ,
    metric: FaissMetricType,
    is: bool,
    init: Result<(), FaissWrapperError>,
    set: Result<(), FaissWrapperError>,
)
    requires
        call_ensures(is_index_ivfpq_l2, (index, ivfpq, metric), is),
        call_ensures(check_init_shared_index_state, (is,), init),
        call_ensures(set_shared_index_state, (is,), set),
    ensures
        is <==> index.address != 0 && ivfpq.address != 0 && metric == 1,
        init is Ok <==> index.address != 0 && ivfpq.address != 0 && metric == 1,
        set is Ok <==> index.address != 0 && ivfpq.address != 0 && metric == 1,
        init is Err ==> is_runtime(
            init->Err_0,
            "Unable to init shared index state from index. index is not of type IVFPQ-l2"@,
        ),
        set is Err ==> is_runtime(
            set->Err_0,
            "Unable to set shared index state from index. index is not of type IVFPQ-l2"@,
        ),
{
}

/// What a fault says is said on as it is, and a null pointer stays one.
pub proof fn lemma_fault_is_told(fault: Fault, error: FaissWrapperError)
    requires
        !(fault is Java),
        call_ensures(error_of_fault, (fault,), error),
    ensures
        fault matches Fault::NullPointer(text) ==> (
        error matches FaissWrapperError::NullPointer(message) && message@ == text@),
        fault matches Fault::Runtime(text) ==> is_runtime(error, text@),
        fault matches Fault::Faiss(text) ==> is_runtime(error, text@),
        fault matches Fault::Write(text) ==> is_runtime(error, text@),
        fault matches Fault::InvalidArgument(text) ==> is_runtime(error, text@),
        fault is NotTrained ==> is_runtime(error, "Index is not trained"@),
        fault is Add ==> is_runtime(error, "Failed to add vectors"@),
{
}

/// What is wrong with a request to make an index from a template is told, the first thing that is.
pub proof fn lemma_refusals_are_told(
    kind: IndexType,
    request: TemplateRequest,
    vectors_len: usize,
    num_ids: usize,
    r: Result<TemplatePlan, FaissWrapperError>,
)
    requires
        match kind {
            IndexType::Float => call_ensures(
                create_index_from_template,
                (request, vectors_len, num_ids),
                r,
            ),
            IndexType::Binary => call_ensures(
                create_binary_index_from_template,
                (request, vectors_len, num_ids),
                r,
            ),
            IndexType::Byte => call_ensures(
                create_byte_index_from_template,
                (request, vectors_len, num_ids),
                r,
            ),
        },
        r is Err,
    ensures
        is_runtime(
            r->Err_0,
            if request.ids_are_null {
                "IDs cannot be null"@
            } else if request.vectors_address < 1 {
                "VectorsAddress cannot be less than 0"@
            } else if request.dim < 1 {
                "Vectors dimensions cannot be less than or equal to 0"@
            } else if request.output_is_null {
                "Index output stream cannot be null"@
            } else if request.template_is_null {
                "Template index cannot be null"@
            } else if kind is Binary && request.dim as int % 8 != 0 {
                "Dimensions should be multiple of 8"@
            } else {
                "Number of IDs does not match number of vectors"@
            },
        ),
{
}

/// What cannot be done here is told, and what is wrong with a request is told before.
pub proof fn lemma_dispatch_is_told(
    dim: i32,
    is_null: bool,
    address: i64,
    made: Result<i64, FaissWrapperError>,
    quantized: Result<i64, FaissWrapperError>,
    inserted: Result<(), FaissWrapperError>,
    written: Result<(), FaissWrapperError>,
)
    requires
        call_ensures(init_index, (dim, is_null), made),
        call_ensures(init_faiss_sq_index, (dim, is_null), quantized),
        call_ensures(insert_to_index, (is_null, address, dim), inserted),
        call_ensures(write_index, (is_null,), written),
    ensures
        made is Err && quantized is Err && inserted is Err && written is Err,
        dim < 1 ==> is_runtime(
            quantized->Err_0,
            "Vectors dimensions cannot be less than or equal to 0"@,
        ),
        dim >= 1 && is_null ==> is_runtime(quantized->Err_0, "Parameters cannot be null"@),
        dim >= 1 && !is_null ==> {
            &&& is_runtime(
                made->Err_0,
                "init_index: use IndexService trait dispatch via faiss_service_jni"@,
            )
            &&& is_runtime(
                quantized->Err_0,
                "init_faiss_sq_index: use BinaryIndexService trait dispatch via faiss_service_jni"@,
            )
        },
        is_runtime(
            inserted->Err_0,
            if is_null {
                "IDs cannot be null"@
            } else if address < 1 {
                "VectorsAddress cannot be less than 0"@
            } else if dim < 1 {
                "Vectors dimensions cannot be less than or equal to 0"@
            } else {
                "insert_to_index: use IndexService trait dispatch via faiss_service_jni"@
            },
        ),
        is_runtime(
            written->Err_0,
            if is_null {
                "Index output stream cannot be null"@
            } else {
                "write_index: use IndexService trait dispatch via faiss_service_jni"@
            },
        ),
{
}

/// What could not be loaded, made or found is told.
pub proof fn lemma_failures_are_told(
    ret: i32,
    index: FaissIndex,
    binary: FaissIndexBinary,
    from_file: Result<i64, FaissWrapperError>,
    binary_from_file: Result<i64, FaissWrapperError>,
    from_stream: Result<i64, FaissWrapperError>,
    binary_from_stream: Result<i64, FaissWrapperError>,
    with_adc: Result<i64, FaissWrapperError>,
    ivfpq: FaissIndexIVFPQ,
    extracted: Result<FaissIndexIVFPQ, FaissWrapperError>,
    table: i64,
    made: Result<i64, FaissWrapperError>,
    metric: Result<FaissMetricType, FaissWrapperError>,
)
    requires
        call_ensures(load_index, (ret, index), from_file),
        call_ensures(load_binary_index, (ret, binary), binary_from_file),
        call_ensures(load_index_with_stream, (index,), from_stream),
        call_ensures(load_binary_index_with_stream, (binary,), binary_from_stream),
        call_ensures(load_index_with_stream_adc, (index,), with_adc),
        call_ensures(extract_ivfpq_index, (index, ivfpq), extracted),
        call_ensures(init_shared_index_state, (table,), made),
        call_ensures(training_metric, (None::<&str>,), metric),
    ensures
        from_file is Err ==> is_runtime(from_file->Err_0, "Failed to load index from path"@),
        binary_from_file is Err ==> is_runtime(
            binary_from_file->Err_0,
            "Failed to load binary index from path"@,
        ),
        from_stream is Err ==> is_runtime(from_stream->Err_0, "Failed to load index from stream"@),
        binary_from_stream is Err ==> is_runtime(
            binary_from_stream->Err_0,
            "Failed to load binary index from stream"@,
        ),
        with_adc is Err ==> is_runtime(
            with_adc->Err_0,
            "Failed to load ADC index from stream. knn_shim_load_index_adc returned null."@,
        ),
        extracted is Err ==> is_runtime(
            extracted->Err_0,
            if index.address == 0 {
                "Unable to extract IVFPQ index. Index pointer is null."@
            } else {
                "Unable to extract IVFPQ index. IVFPQ index not present."@
            },
        ),
        made is Err ==> is_runtime(
            made->Err_0,
            "Failed to initialize IVFPQ precomputed table"@,
        ),
        metric is Err && is_runtime(metric->Err_0, "spaceType not found"@),
{
}

/// An index with asymmetric distances is loaded for one bit and a space that there is, with the metric
/// of that space, and for nothing else.
pub proof fn lemma_adc_loaded(
    level: BQQuantizationLevel,
    name: &str,
    r: Result<FaissMetricType, FaissWrapperError>,
)
    requires
        call_ensures(load_index_with_stream_adc_params, (level, Some(name)), r),
    ensures
        r is Ok <==> level is OneBit && (name@ == "l2"@ || name@ == "hamming"@ || name@
            == "innerproduct"@ || name@ == "cosinesimil"@),
        r matches Ok(metric) ==> (metric == 1 <==> name@ == "l2"@ || name@ == "hamming"@),
        r matches Ok(metric) ==> (metric == 0 <==> name@ == "innerproduct"@ || name@
            == "cosinesimil"@),
{
    lemma_spaces_differ();
}

} // verus!
