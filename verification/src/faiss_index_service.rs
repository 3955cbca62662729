//! Services that build Faiss indices of float, binary and byte vectors.

use crate::faiss_plan::{InitPlan, InsertPlan, WritePlan};
use crate::native_plan::{Fault, FaultView};
use crate::string_map::StringMap;
use crate::text;
use crate::text::{decimal_i64, decimal_u64, join, pointer};
use vstd::prelude::*;
use vstd::string::*;

pub use crate::ffi::faiss_sys::{
    FaissIOWriter, FaissIndex, FaissIndexBinary, FaissIndexBinaryIDMap, FaissIndexHNSW,
    FaissIndexIDMap, FaissIndexIVF,
};

verus! {

pub const NPROBES: &'static str = "nprobes";
pub const COARSE_QUANTIZER: &'static str = "coarse_quantizer";
pub const M: &'static str = "m";
pub const EF_CONSTRUCTION: &'static str = "ef_construction";
pub const EF_SEARCH: &'static str = "ef_search";

/// The metrics of Faiss.
#[derive(Debug, Clone, Copy, PartialEq, Eq, Structural)]
pub enum FaissMetricType {
    MetricInnerProduct,
    MetricL2,
    MetricL1,
    MetricLinf,
    MetricLp,
    MetricCanberra,
    MetricBrayCurtis,
    MetricJensenShannon,
}

impl FaissMetricType {
    /// How Faiss numbers the metric.
    pub open spec fn number(self) -> i32 {
        match self {
            FaissMetricType::MetricInnerProduct => 0,
            FaissMetricType::MetricL2 => 1,
            FaissMetricType::MetricL1 => 2,
            FaissMetricType::MetricLinf => 3,
            FaissMetricType::MetricLp => 4,
            FaissMetricType::MetricCanberra => 20,
            FaissMetricType::MetricBrayCurtis => 21,
            FaissMetricType::MetricJensenShannon => 22,
        }
    }

    /// How Faiss numbers the metric.
    pub fn code(self) -> (n: i32)
        ensures
            n == self.number(),
    {
        match self {
            FaissMetricType::MetricInnerProduct => 0,
            FaissMetricType::MetricL2 => 1,
            FaissMetricType::MetricL1 => 2,
            FaissMetricType::MetricLinf => 3,
            FaissMetricType::MetricLp => 4,
            FaissMetricType::MetricCanberra => 20,
            FaissMetricType::MetricBrayCurtis => 21,
            FaissMetricType::MetricJensenShannon => 22,
        }
    }
}

/// The kinds of vectors that an index holds.
#[derive(Debug, Clone, Copy, PartialEq, Eq, Structural)]
pub enum IndexType {
    Float,
    Binary,
    Byte,
}

/// What can go wrong while an index is built.
#[derive(Debug)]
pub enum IndexServiceError {
    IndexNotTrained,
    FaissError(String),
    InvalidArgument(String),
    WriteError(String),
}

impl IndexServiceError {
    /// The description of the error.
    pub open spec fn text(&self) -> Seq<char> {
        match self {
            IndexServiceError::IndexNotTrained => "Index is not trained"@,
            IndexServiceError::FaissError(message) => "Faiss error: "@ + message@,
            IndexServiceError::InvalidArgument(message) => "Invalid argument: "@ + message@,
            IndexServiceError::WriteError(message) => "Write error: "@ + message@,
        }
    }

    /// The description of the error.
    pub fn message(&self) -> (text: String)
        ensures
            text@ == self.text(),
    {
        match self {
            IndexServiceError::IndexNotTrained => "Index is not trained".to_owned(),
            IndexServiceError::FaissError(message) => join("Faiss error: ", message.as_str()),
            IndexServiceError::InvalidArgument(message) => join(
                "Invalid argument: ",
                message.as_str(),
            ),
            IndexServiceError::WriteError(message) => join("Write error: ", message.as_str()),
        }
    }
}

fn invalid_argument<T>(text: &str) -> (r: Result<T, IndexServiceError>)
    ensures
        r matches Err(IndexServiceError::InvalidArgument(message)) && message@ == text@,
{
    Err(IndexServiceError::InvalidArgument(text.to_owned()))
}

/// The value of a parameter.
#[derive(Debug)]
pub enum ParamValue {
    Int(i32),
    SubParams(StringMap<ParamValue>),
}

/// A parameter that is set on an index.
#[derive(Debug, Clone, Copy, PartialEq, Eq, Structural)]
pub enum ParameterSetting {
    /// The size of the candidate list while an HNSW graph is built.
    EfConstruction(i32),
    /// The size of the candidate list while an HNSW graph is searched.
    EfSearch(i32),
    /// How many lists of an IVF index are searched.
    Nprobe(i32),
    /// The size of the candidate list while the HNSW graph is built that is the coarse
    /// quantizer of an IVF index.
    QuantizerEfConstruction(i32),
    /// The size of the candidate list while the HNSW graph is searched that is the
    /// coarse quantizer of an IVF index.
    QuantizerEfSearch(i32),
}

/// The number that a parameter is given, where it is given one.
pub open spec fn int_param(parameters: Map<Seq<char>, ParamValue>, key: Seq<char>) -> Option<i32> {
    if parameters.dom().contains(key) {
        match parameters[key] {
            ParamValue::Int(n) => Some(n),
            ParamValue::SubParams(_) => None,
        }
    } else {
        None
    }
}

/// The parameters that a parameter is given, where it is given some.
pub open spec fn sub_params(parameters: Map<Seq<char>, ParamValue>, key: Seq<char>) -> Map<
    Seq<char>,
    ParamValue,
> {
    if parameters.dom().contains(key) {
        match parameters[key] {
            ParamValue::Int(_) => Map::empty(),
            ParamValue::SubParams(sub) => sub@,
        }
    } else {
        Map::empty()
    }
}

/// The setting of `ef_construction` in `parameters`.
pub open spec fn ef_construction_in(parameters: Map<Seq<char>, ParamValue>) -> Seq<ParameterSetting> {
    match int_param(parameters, EF_CONSTRUCTION@) {
        Some(n) => seq![ParameterSetting::EfConstruction(n)],
        None => seq![],
    }
}

/// The setting of `ef_search` in `parameters`.
pub open spec fn ef_search_in(parameters: Map<Seq<char>, ParamValue>) -> Seq<ParameterSetting> {
    match int_param(parameters, EF_SEARCH@) {
        Some(n) => seq![ParameterSetting::EfSearch(n)],
        None => seq![],
    }
}

/// The setting of `nprobes` in `parameters`.
pub open spec fn nprobe_in(parameters: Map<Seq<char>, ParamValue>) -> Seq<ParameterSetting> {
    match int_param(parameters, NPROBES@) {
        Some(n) => seq![ParameterSetting::Nprobe(n)],
        None => seq![],
    }
}

/// The settings of a coarse quantizer in its own `parameters`.
pub open spec fn quantizer_settings(parameters: Map<Seq<char>, ParamValue>) -> Seq<ParameterSetting> {
    (match int_param(parameters, EF_SEARCH@) {
        Some(n) => seq![ParameterSetting::QuantizerEfSearch(n)],
        None => seq![],
    }) + (match int_param(parameters, EF_CONSTRUCTION@) {
        Some(n) => seq![ParameterSetting::QuantizerEfConstruction(n)],
        None => seq![],
    })
}

/// What an HNSW index takes of `parameters`, in order.
pub open spec fn hnsw_settings(parameters: Map<Seq<char>, ParamValue>) -> Seq<ParameterSetting> {
    ef_construction_in(parameters) + ef_search_in(parameters)
}

/// What an IVF index takes of `parameters`, in order: its coarse quantizer has
/// parameters of its own.
pub open spec fn ivf_settings(parameters: Map<Seq<char>, ParamValue>) -> Seq<ParameterSetting> {
    nprobe_in(parameters) + quantizer_settings(sub_params(parameters, COARSE_QUANTIZER@))
}

/// What is set on an index, in order: what an HNSW index takes, then what an IVF
/// index takes.
pub open spec fn extra_settings(
    parameters: Map<Seq<char>, ParamValue>,
    is_hnsw: bool,
    is_ivf: bool,
) -> Seq<ParameterSetting> {
    (if is_hnsw {
        hnsw_settings(parameters)
    } else {
        seq![]
    }) + (if is_ivf {
        ivf_settings(parameters)
    } else {
        seq![]
    })
}

fn get_int(parameters: &StringMap<ParamValue>, key: &str) -> (value: Option<i32>)
    ensures
        value == int_param(parameters@, key@),
{
    match parameters.get(key) {
        Some(value) => match value {
            ParamValue::Int(n) => Some(*n),
            ParamValue::SubParams(_) => None,
        },
        None => None,
    }
}

/// Adds what an HNSW index takes of `parameters`.
pub(crate) fn push_hnsw_settings(
    settings: &mut Vec<ParameterSetting>,
    parameters: &StringMap<ParamValue>,
)
    ensures
        final(settings)@ == old(settings)@ + hnsw_settings(parameters@),
{
    if let Some(n) = get_int(parameters, EF_CONSTRUCTION) {
        settings.push(ParameterSetting::EfConstruction(n));
    }
    if let Some(n) = get_int(parameters, EF_SEARCH) {
        settings.push(ParameterSetting::EfSearch(n));
    }
    assert(settings@ =~= old(settings)@ + hnsw_settings(parameters@));
}

/// Adds what an IVF index takes of `parameters`.
pub(crate) fn push_ivf_settings(
    settings: &mut Vec<ParameterSetting>,
    parameters: &StringMap<ParamValue>,
)
    ensures
        final(settings)@ == old(settings)@ + ivf_settings(parameters@),
{
    if let Some(n) = get_int(parameters, NPROBES) {
        settings.push(ParameterSetting::Nprobe(n));
    }
    match parameters.get(COARSE_QUANTIZER) {
        Some(ParamValue::SubParams(sub)) => {
            if let Some(n) = get_int(sub, EF_SEARCH) {
                settings.push(ParameterSetting::QuantizerEfSearch(n));
            }
            if let Some(n) = get_int(sub, EF_CONSTRUCTION) {
                settings.push(ParameterSetting::QuantizerEfConstruction(n));
            }
        },
        _ => {},
    }
    assert(settings@ =~= old(settings)@ + ivf_settings(parameters@));
}

/// What is set on an index that cannot be said in its description.
pub fn set_extra_parameters(
    parameters: &StringMap<ParamValue>,
    is_hnsw: bool,
    is_ivf: bool,
) -> (settings: Vec<ParameterSetting>)
    ensures
        settings@ == extra_settings(parameters@, is_hnsw, is_ivf),
{
    let mut settings: Vec<ParameterSetting> = Vec::new();
    if is_hnsw {
        push_hnsw_settings(&mut settings, parameters);
    }
    if is_ivf {
        push_ivf_settings(&mut settings, parameters);
    }
    assert(settings@ =~= extra_settings(parameters@, is_hnsw, is_ivf));
    settings
}

/// What is set on a binary index that cannot be said in its description: nothing.
pub fn set_extra_parameters_binary(
    _parameters: &StringMap<ParamValue>,
    _index: FaissIndexBinary,
) -> (settings: Vec<ParameterSetting>)
    ensures
        settings@ == Seq::<ParameterSetting>::empty(),
{
    Vec::new()
}

/// How many vectors of dimension `dim` the stored numbers make, as a 32-bit
/// number: a float vector has a number for each dimension, a byte vector a byte,
/// and a binary vector a byte for each eight dimensions.
pub open spec fn vector_count(kind: IndexType, len: usize, dim: i32) -> i32 {
    match kind {
        IndexType::Float => (len as u64 / dim as u64) as i32,
        IndexType::Binary => (len as u64 / eighth(dim) as u64) as i32,
        IndexType::Byte => (len / dim as usize) as i32,
    }
}

/// An eighth of `dim`, rounded towards zero.
pub open spec fn eighth(dim: i32) -> i32 {
    if dim >= 0 {
        (dim / 8) as i32
    } else {
        (-((-dim) / 8)) as i32
    }
}

/// A vector of dimension `dim` has at least one number.
pub open spec fn has_numbers(kind: IndexType, dim: i32) -> bool {
    match kind {
        IndexType::Binary => eighth(dim) != 0,
        _ => dim != 0,
    }
}

/// How many numbers a stored vector of dimension `dim` has: one for each dimension, and
/// a byte for each eight dimensions of a binary vector.
pub open spec fn numbers_per_vector(kind: IndexType, dim: i32) -> int {
    if kind is Binary {
        dim as usize as int / 8
    } else {
        dim as usize as int
    }
}

/// Whether a vector of dimension `dim` has at least one number.
pub fn vectors_have_numbers(kind: IndexType, dim: i32) -> (r: bool)
    ensures
        r == has_numbers(kind, dim),
{
    match kind {
        IndexType::Binary => dim >= 8 || dim <= -8,
        _ => dim != 0,
    }
}

/// Where the numbers of `count` vectors lie among the stored numbers, from vector `start`
/// on: at which number they start, and how many they are.
pub fn numbers_of(kind: IndexType, dim: i32, start: usize, count: usize) -> (r: (usize, usize))
    requires
        start * numbers_per_vector(kind, dim) <= usize::MAX,
        count * numbers_per_vector(kind, dim) <= usize::MAX,
    ensures
        r.0 == start * numbers_per_vector(kind, dim),
        r.1 == count * numbers_per_vector(kind, dim),
{
    #[verifier::truncate]
    let dimensions = dim as usize;
    let width: usize = if matches!(kind, IndexType::Binary) {
        dimensions / 8
    } else {
        dimensions
    };
    (start * width, count * width)
}

/// Where the dimension is positive and the count fits into 32 bits, the count is the
/// plain quotient: how many whole vectors the stored numbers make.
pub proof fn lemma_vector_count(kind: IndexType, len: usize, dim: i32)
    requires
        dim > 0,
        has_numbers(kind, dim),
        len as int / (if kind is Binary {
            dim as int / 8
        } else {
            dim as int
        }) <= i32::MAX,
    ensures
        vector_count(kind, len, dim) == len as int / (if kind is Binary {
            dim as int / 8
        } else {
            dim as int
        }),
{
}

fn eighth_of(dim: i32) -> (e: i32)
    ensures
        e == eighth(dim),
{
    let wide = dim as i64;
    if wide >= 0 {
        (wide / 8) as i32
    } else {
        (-((-wide) / 8)) as i32
    }
}

fn count_vectors(kind: IndexType, len: usize, dim: i32) -> (n: i32)
    requires
        has_numbers(kind, dim),
    ensures
        n == vector_count(kind, len, dim),
{
    match kind {
        IndexType::Float => {
            assert(dim != 0 ==> dim as u64 != 0) by (bit_vector);
            #[verifier::truncate]
            let divisor = dim as u64;
            #[verifier::truncate]
            let n = (len as u64 / divisor) as i32;
            n
        },
        IndexType::Binary => {
            let bytes: i32 = eighth_of(dim);
            assert(bytes != 0 ==> bytes as u64 != 0) by (bit_vector);
            #[verifier::truncate]
            let divisor = bytes as u64;
            #[verifier::truncate]
            let n = (len as u64 / divisor) as i32;
            n
        },
        IndexType::Byte => {
            assert(dim != 0 ==> dim as usize != 0) by (bit_vector);
            #[verifier::truncate]
            let divisor = dim as usize;
            #[verifier::truncate]
            let n = (len / divisor) as i32;
            n
        },
    }
}

/// What is said where ids and vectors do not match in number.
pub open spec fn id_mismatch(kind: IndexType, num_ids: i32, len: usize, dim: i32) -> Seq<char> {
    match kind {
        IndexType::Float => {
            "Number of IDs does not match number of vectors: num_ids="@ + text::decimal(
                num_ids as int,
            ) + ", num_vectors="@ + text::decimal(vector_count(kind, len, dim) as int)
                + ", vec.len()="@ + text::decimal(len as int) + ", dim="@ + text::decimal(
                dim as int,
            )
        },
        _ => "Number of IDs does not match number of vectors"@,
    }
}

/// What is said where Faiss refuses vectors.
pub open spec fn add_refusal(
    kind: IndexType,
    ret: i32,
    id_map_address: i64,
    num_vectors: i32,
    dim: i32,
    vectors_address: i64,
) -> Seq<char> {
    match kind {
        IndexType::Float => {
            "faiss_IndexIDMap_add_with_ids failed: ret="@ + text::decimal(ret as int)
                + ", id_map="@ + text::pointer_text(id_map_address as u64) + ", n="@
                + text::decimal(num_vectors as int) + ", dim="@ + text::decimal(dim as int)
                + ", vec_ptr="@ + text::pointer_text(vectors_address as u64)
        },
        IndexType::Binary => "faiss_IndexBinaryIDMap_add_with_ids failed"@,
        IndexType::Byte => "faiss_IndexIDMap_add_with_ids failed during batch insert"@,
    }
}

/// What making an empty index hands back: the address of the id map that wraps it.
pub fn made_index(id_map: FaissIndexIDMap) -> (address: i64)
    ensures
        address == id_map.address,
{
    id_map.address
}

/// What making an empty binary index hands back: the address of the id map that wraps it.
pub fn made_binary_index(id_map: FaissIndexBinaryIDMap) -> (address: i64)
    ensures
        address == id_map.address,
{
    id_map.address
}

/// What building an index of one kind of vectors takes.
pub trait IndexService {
    /// The kind of vectors.
    spec fn kind(&self) -> IndexType;

    /// The kind of vectors.
    fn index_type(&self) -> (kind: IndexType)
        ensures
            kind == self.kind(),
    ;

    /// The plan that makes an empty index.
    fn init_index(&self, thread_count: i32) -> (plan: InitPlan)
        ensures
            plan.kind == self.kind(),
            plan.thread_count == thread_count,
    ;

    /// The plan that inserts the stored vectors with `num_ids` ids, where
    /// `vectors_len` is how many numbers are stored, and nothing where there is no
    /// storage.
    fn insert_to_index(
        &self,
        dim: i32,
        num_ids: i32,
        thread_count: i32,
        vectors_len: Option<usize>,
    ) -> (r: Result<InsertPlan, IndexServiceError>)
        requires
            vectors_len is Some ==> has_numbers(self.kind(), dim),
            vectors_len matches Some(len) ==> vector_count(self.kind(), len, dim) == num_ids
                ==> num_ids >= 0,
        ensures
            match r {
                Ok(plan) => {
                    &&& vectors_len matches Some(len) && vector_count(self.kind(), len, dim)
                        == num_ids
                    &&& num_ids > 0
                    &&& plan.kind == self.kind()
                    &&& plan.thread_count == thread_count
                    &&& plan.num_vectors == num_ids
                },
                Err(IndexServiceError::InvalidArgument(message)) => match vectors_len {
                    None => message@ == "vectors_address pointer is null"@,
                    Some(len) => {
                        let num_vectors = vector_count(self.kind(), len, dim);
                        ||| num_vectors == 0 && message@ == "Number of vectors cannot be 0"@
                        ||| num_vectors != 0 && num_vectors != num_ids && message@ == id_mismatch(
                            self.kind(),
                            num_ids,
                            len,
                            dim,
                        )
                    },
                },
                Err(_) => false,
            },
    ;

    /// The plan that writes an index and releases it.
    fn write_index(&self, id_map_address: i64) -> (r: Result<WritePlan, IndexServiceError>)
        ensures
            r is Ok == (id_map_address != 0),
            r matches Err(e) ==> e matches IndexServiceError::InvalidArgument(message) && message@
                == "id_map_address pointer is null"@,
    ;
}

fn plan_insertion(
    kind: IndexType,
    dim: i32,
    num_ids: i32,
    thread_count: i32,
    vectors_len: Option<usize>,
) -> (r: Result<InsertPlan, IndexServiceError>)
    requires
        vectors_len is Some ==> has_numbers(kind, dim),
        vectors_len matches Some(len) ==> vector_count(kind, len, dim) == num_ids ==> num_ids >= 0,
    ensures
        match r {
            Ok(plan) => {
                &&& vectors_len matches Some(len) && vector_count(kind, len, dim) == num_ids
                &&& num_ids > 0
                &&& plan.kind == kind
                &&& plan.thread_count == thread_count
                &&& plan.num_vectors == num_ids
            },
            Err(IndexServiceError::InvalidArgument(message)) => match vectors_len {
                None => message@ == "vectors_address pointer is null"@,
                Some(len) => {
                    let num_vectors = vector_count(kind, len, dim);
                    ||| num_vectors == 0 && message@ == "Number of vectors cannot be 0"@
                    ||| num_vectors != 0 && num_vectors != num_ids && message@ == id_mismatch(
                        kind,
                        num_ids,
                        len,
                        dim,
                    )
                },
            },
            Err(_) => false,
        },
{
    let len = match vectors_len {
        Some(len) => len,
        None => return invalid_argument("vectors_address pointer is null"),
    };
    let num_vectors = count_vectors(kind, len, dim);
    if num_vectors == 0 {
        return invalid_argument("Number of vectors cannot be 0");
    }
    if num_ids != num_vectors {
        let message = mismatch_text(kind, num_ids, num_vectors, len, dim);
        return Err(IndexServiceError::InvalidArgument(message));
    }
    Ok(InsertPlan { kind, thread_count, num_vectors: num_vectors as usize })
}

fn mismatch_text(kind: IndexType, num_ids: i32, num_vectors: i32, len: usize, dim: i32) -> (text:
    String)
    requires
        num_vectors == vector_count(kind, len, dim),
    ensures
        text@ == id_mismatch(kind, num_ids, len, dim),
{
    match kind {
        IndexType::Float => {
            let mut out = join(
                "Number of IDs does not match number of vectors: num_ids=",
                decimal_i64(num_ids as i64).as_str(),
            );
            out.append(", num_vectors=");
            out.append(decimal_i64(num_vectors as i64).as_str());
            out.append(", vec.len()=");
            out.append(decimal_u64(len as u64).as_str());
            out.append(", dim=");
            out.append(decimal_i64(dim as i64).as_str());
            out
        },
        _ => "Number of IDs does not match number of vectors".to_owned(),
    }
}

/// The error where Faiss refuses vectors: `ret` is its answer.
pub fn add_error(
    kind: IndexType,
    ret: i32,
    id_map_address: i64,
    num_vectors: i32,
    dim: i32,
    vectors_address: i64,
) -> (error: IndexServiceError)
    ensures
        error matches IndexServiceError::FaissError(message) && message@ == add_refusal(
            kind,
            ret,
            id_map_address,
            num_vectors,
            dim,
            vectors_address,
        ),
{
    let message = match kind {
        IndexType::Float => {
            let mut out = join(
                "faiss_IndexIDMap_add_with_ids failed: ret=",
                decimal_i64(ret as i64).as_str(),
            );
            out.append(", id_map=");
            out.append(
                pointer(
                    #[verifier::truncate]
                    (id_map_address as u64),
                ).as_str(),
            );
            out.append(", n=");
            out.append(decimal_i64(num_vectors as i64).as_str());
            out.append(", dim=");
            out.append(decimal_i64(dim as i64).as_str());
            out.append(", vec_ptr=");
            out.append(
                pointer(
                    #[verifier::truncate]
                    (vectors_address as u64),
                ).as_str(),
            );
            out
        },
        IndexType::Binary => "faiss_IndexBinaryIDMap_add_with_ids failed".to_owned(),
        IndexType::Byte => "faiss_IndexIDMap_add_with_ids failed during batch insert".to_owned(),
    };
    IndexServiceError::FaissError(message)
}

/// The fault of a plan as an error. Of `Fault::Add` the plan does not know what
/// Faiss answered: `add_error` makes that error. No plan of a service calls the JVM.
pub fn error_of_fault(fault: Fault) -> (error: IndexServiceError)
    requires
        !(fault is Add),
        !(fault is Java),
    ensures
        match fault@ {
            FaultView::NotTrained => error is IndexNotTrained,
            FaultView::Faiss(text) => error matches IndexServiceError::FaissError(message)
                && message@ == text,
            FaultView::Write(text) => error matches IndexServiceError::WriteError(message)
                && message@ == text,
            FaultView::InvalidArgument(text) => {
                error matches IndexServiceError::InvalidArgument(message) && message@ == text
            },
            FaultView::Runtime(text) => error matches IndexServiceError::FaissError(message)
                && message@ == text,
            FaultView::NullPointer(text) => {
                error matches IndexServiceError::InvalidArgument(message) && message@ == text
            },
            FaultView::Add => true,
            FaultView::Java => true,
        },
{
    match fault {
        Fault::NotTrained => IndexServiceError::IndexNotTrained,
        Fault::Faiss(text) => IndexServiceError::FaissError(text),
        Fault::Write(text) => IndexServiceError::WriteError(text),
        Fault::InvalidArgument(text) => IndexServiceError::InvalidArgument(text),
        Fault::Runtime(text) => IndexServiceError::FaissError(text),
        Fault::NullPointer(text) => IndexServiceError::InvalidArgument(text),
        Fault::Add => vstd::pervasive::unreached(),
        Fault::Java => vstd::pervasive::unreached(),
    }
}

fn plan_writing(id_map_address: i64) -> (r: Result<WritePlan, IndexServiceError>)
    ensures
        r is Ok == (id_map_address != 0),
        r matches Err(e) ==> e matches IndexServiceError::InvalidArgument(message) && message@
            == "id_map_address pointer is null"@,
{
    if id_map_address == 0 {
        invalid_argument("id_map_address pointer is null")
    } else {
        Ok(WritePlan)
    }
}

/// Builds indices of float vectors.
pub struct FloatIndexService;

impl FloatIndexService {
    pub fn new() -> (service: Self)
        ensures
            service.kind() == IndexType::Float,
    {
        FloatIndexService
    }
}

impl Default for FloatIndexService {
    fn default() -> (service: Self)
        ensures
            service.kind() == IndexType::Float,
    {
        FloatIndexService::new()
    }
}

impl IndexService for FloatIndexService {
    open spec fn kind(&self) -> IndexType {
        IndexType::Float
    }

    fn index_type(&self) -> (kind: IndexType) {
        IndexType::Float
    }

    fn init_index(&self, thread_count: i32) -> (plan: InitPlan) {
        InitPlan { kind: IndexType::Float, thread_count }
    }

    fn insert_to_index(
        &self,
        dim: i32,
        num_ids: i32,
        thread_count: i32,
        vectors_len: Option<usize>,
    ) -> (r: Result<InsertPlan, IndexServiceError>) {
        plan_insertion(IndexType::Float, dim, num_ids, thread_count, vectors_len)
    }

    fn write_index(&self, id_map_address: i64) -> (r: Result<WritePlan, IndexServiceError>) {
        plan_writing(id_map_address)
    }
}

/// Builds indices of binary vectors.
pub struct BinaryIndexService;

impl BinaryIndexService {
    pub fn new() -> (service: Self)
        ensures
            service.kind() == IndexType::Binary,
    {
        BinaryIndexService
    }

    /// The address of a scalar quantized index that was made; zero stands for none.
    pub fn init_faiss_sq_index(&self, address: i64) -> (r: Result<i64, IndexServiceError>)
        ensures
            match r {
                Ok(a) => a == address && address != 0,
                Err(IndexServiceError::FaissError(message)) => address == 0 && message@
                    == "Failed to initialize SQ index"@,
                Err(_) => false,
            },
    {
        if address == 0 {
            Err(IndexServiceError::FaissError("Failed to initialize SQ index".to_owned()))
        } else {
            Ok(address)
        }
    }
}

impl Default for BinaryIndexService {
    fn default() -> (service: Self)
        ensures
            service.kind() == IndexType::Binary,
    {
        BinaryIndexService::new()
    }
}

impl IndexService for BinaryIndexService {
    open spec fn kind(&self) -> IndexType {
        IndexType::Binary
    }

    fn index_type(&self) -> (kind: IndexType) {
        IndexType::Binary
    }

    fn init_index(&self, thread_count: i32) -> (plan: InitPlan) {
        InitPlan { kind: IndexType::Binary, thread_count }
    }

    fn insert_to_index(
        &self,
        dim: i32,
        num_ids: i32,
        thread_count: i32,
        vectors_len: Option<usize>,
    ) -> (r: Result<InsertPlan, IndexServiceError>) {
        plan_insertion(IndexType::Binary, dim, num_ids, thread_count, vectors_len)
    }

    fn write_index(&self, id_map_address: i64) -> (r: Result<WritePlan, IndexServiceError>) {
        plan_writing(id_map_address)
    }
}

/// Builds indices of byte vectors, which Faiss holds as floats.
pub struct ByteIndexService;

impl ByteIndexService {
    pub fn new() -> (service: Self)
        ensures
            service.kind() == IndexType::Byte,
    {
        ByteIndexService
    }
}

impl Default for ByteIndexService {
    fn default() -> (service: Self)
        ensures
            service.kind() == IndexType::Byte,
    {
        ByteIndexService::new()
    }
}

impl IndexService for ByteIndexService {
    open spec fn kind(&self) -> IndexType {
        IndexType::Byte
    }

    fn index_type(&self) -> (kind: IndexType) {
        IndexType::Byte
    }

    fn init_index(&self, thread_count: i32) -> (plan: InitPlan) {
        InitPlan { kind: IndexType::Byte, thread_count }
    }

    fn insert_to_index(
        &self,
        dim: i32,
        num_ids: i32,
        thread_count: i32,
        vectors_len: Option<usize>,
    ) -> (r: Result<InsertPlan, IndexServiceError>) {
        plan_insertion(IndexType::Byte, dim, num_ids, thread_count, vectors_len)
    }

    fn write_index(&self, id_map_address: i64) -> (r: Result<WritePlan, IndexServiceError>) {
        plan_writing(id_map_address)
    }
}

/// A service of some kind.
pub struct AnyIndexService {
    pub service: Box<dyn IndexService>,
}

/// The service for a kind of vectors.
pub fn create_index_service(index_type: IndexType) -> (any: AnyIndexService)
    ensures
        any.service.kind() == index_type,
{
    match index_type {
        IndexType::Float => AnyIndexService { service: Box::new(FloatIndexService::new()) },
        IndexType::Binary => AnyIndexService { service: Box::new(BinaryIndexService::new()) },
        IndexType::Byte => AnyIndexService { service: Box::new(ByteIndexService::new()) },
    }
}

/// What is set on an index comes from the parameters that it is given: a setting is made where
/// the index is of its kind and the parameter of its name is a number, with that number; the
/// coarse quantizer of an IVF index has its parameters in those under its own name. No
/// setting is made twice, and those of an HNSW index come first.
pub proof fn lemma_extra_settings(
    parameters: &StringMap<ParamValue>,
    is_hnsw: bool,
    is_ivf: bool,
    settings: Vec<ParameterSetting>,
)
    requires
        call_ensures(set_extra_parameters, (parameters, is_hnsw, is_ivf), settings),
    ensures
        forall|n: i32| #[trigger]
            settings@.contains(ParameterSetting::EfConstruction(n)) <==> is_hnsw
                && parameters@.contains_pair("ef_construction"@, ParamValue::Int(n)),
        forall|n: i32| #[trigger]
            settings@.contains(ParameterSetting::EfSearch(n)) <==> is_hnsw
                && parameters@.contains_pair("ef_search"@, ParamValue::Int(n)),
        forall|n: i32| #[trigger]
            settings@.contains(ParameterSetting::Nprobe(n)) <==> is_ivf
                && parameters@.contains_pair("nprobes"@, ParamValue::Int(n)),
        forall|n: i32| #[trigger]
            settings@.contains(ParameterSetting::QuantizerEfConstruction(n)) <==> is_ivf
                && quantizer_has(parameters@, "ef_construction"@, n),
        forall|n: i32| #[trigger]
            settings@.contains(ParameterSetting::QuantizerEfSearch(n)) <==> is_ivf
                && quantizer_has(parameters@, "ef_search"@, n),
        settings@.no_duplicates(),
        forall|i: int, j: int|
            0 <= i < settings@.len() && 0 <= j < settings@.len() && is_for_hnsw(
                #[trigger] settings@[i],
            ) && !is_for_hnsw(#[trigger] settings@[j]) ==> i < j,
{
    lemma_settings_of_hnsw(parameters@);
    lemma_settings_of_ivf(parameters@);
    let h: Seq<ParameterSetting> = if is_hnsw {
        hnsw_settings(parameters@)
    } else {
        seq![]
    };
    let v: Seq<ParameterSetting> = if is_ivf {
        ivf_settings(parameters@)
    } else {
        seq![]
    };
    assert(settings@ == h + v);
    lemma_contains_of_sum(h, v);
}

/// The parameters of the coarse quantizer give `key` the number `n`.
pub open spec fn quantizer_has(
    parameters: Map<Seq<char>, ParamValue>,
    key: Seq<char>,
    n: i32,
) -> bool {
    &&& parameters.dom().contains("coarse_quantizer"@)
    &&& parameters["coarse_quantizer"@] matches ParamValue::SubParams(sub) && sub@.contains_pair(
        key,
        ParamValue::Int(n),
    )
}

/// The setting is one of an HNSW index.
pub open spec fn is_for_hnsw(setting: ParameterSetting) -> bool {
    setting is EfConstruction || setting is EfSearch
}

/// What is among the settings of both is among those of one of them.
pub proof fn lemma_contains_of_sum(a: Seq<ParameterSetting>, b: Seq<ParameterSetting>)
    ensures
        forall|x: ParameterSetting| #[trigger]
            (a + b).contains(x) <==> a.contains(x) || b.contains(x),
{
    assert forall|x: ParameterSetting| #[trigger] (a + b).contains(x) <==> a.contains(x)
        || b.contains(x) by {
        if a.contains(x) {
            let i = choose|i: int| 0 <= i < a.len() && a[i] == x;
            assert((a + b)[i] == x);
        }
        if b.contains(x) {
            let i = choose|i: int| 0 <= i < b.len() && b[i] == x;
            assert((a + b)[a.len() + i] == x);
        }
        if (a + b).contains(x) {
            let i = choose|i: int| 0 <= i < a.len() + b.len() && (a + b)[i] == x;
            if i < a.len() {
                assert(a[i] == x);
            } else {
                assert(b[i - a.len()] == x);
            }
        }
    }
}

/// What an HNSW index takes of its parameters.
pub proof fn lemma_settings_of_hnsw(parameters: Map<Seq<char>, ParamValue>)
    ensures
        forall|x: ParameterSetting| #[trigger]
            hnsw_settings(parameters).contains(x) <==> match x {
                ParameterSetting::EfConstruction(n) => parameters.contains_pair(
                    "ef_construction"@,
                    ParamValue::Int(n),
                ),
                ParameterSetting::EfSearch(n) => parameters.contains_pair(
                    "ef_search"@,
                    ParamValue::Int(n),
                ),
                _ => false,
            },
        hnsw_settings(parameters).no_duplicates(),
        forall|i: int|
            0 <= i < hnsw_settings(parameters).len() ==> is_for_hnsw(
                #[trigger] hnsw_settings(parameters)[i],
            ),
{
    let a = ef_construction_in(parameters);
    let b = ef_search_in(parameters);
    lemma_contains_of_sum(a, b);
    assert forall|x: ParameterSetting| #[trigger] hnsw_settings(parameters).contains(x) <==> match x {
        ParameterSetting::EfConstruction(n) => parameters.contains_pair(
            "ef_construction"@,
            ParamValue::Int(n),
        ),
        ParameterSetting::EfSearch(n) => parameters.contains_pair("ef_search"@, ParamValue::Int(n)),
        _ => false,
    } by {
        assert((a + b).contains(x) <==> a.contains(x) || b.contains(x));
        lemma_contains_of_one(a, x);
        lemma_contains_of_one(b, x);
    }
}

proof fn lemma_contains_of_one(a: Seq<ParameterSetting>, x: ParameterSetting)
    requires
        a.len() <= 1,
    ensures
        a.contains(x) <==> a.len() == 1 && a[0] == x,
{
    if a.len() == 1 && a[0] == x {
        assert(a.contains(x));
    }
}

/// What an IVF index takes of its parameters.
pub proof fn lemma_settings_of_ivf(parameters: Map<Seq<char>, ParamValue>)
    ensures
        forall|x: ParameterSetting| #[trigger]
            ivf_settings(parameters).contains(x) <==> match x {
                ParameterSetting::Nprobe(n) => parameters.contains_pair(
                    "nprobes"@,
                    ParamValue::Int(n),
                ),
                ParameterSetting::QuantizerEfSearch(n) => quantizer_has(
                    parameters,
                    "ef_search"@,
                    n,
                ),
                ParameterSetting::QuantizerEfConstruction(n) => quantizer_has(
                    parameters,
                    "ef_construction"@,
                    n,
                ),
                _ => false,
            },
        ivf_settings(parameters).no_duplicates(),
        forall|i: int|
            0 <= i < ivf_settings(parameters).len() ==> !is_for_hnsw(
                #[trigger] ivf_settings(parameters)[i],
            ),
{
    let sub = sub_params(parameters, "coarse_quantizer"@);
    let a = nprobe_in(parameters);
    let b: Seq<ParameterSetting> = match int_param(sub, "ef_search"@) {
        Some(n) => seq![ParameterSetting::QuantizerEfSearch(n)],
        None => seq![],
    };
    let c: Seq<ParameterSetting> = match int_param(sub, "ef_construction"@) {
        Some(n) => seq![ParameterSetting::QuantizerEfConstruction(n)],
        None => seq![],
    };
    assert(ivf_settings(parameters) == a + (b + c));
    lemma_contains_of_sum(b, c);
    lemma_contains_of_sum(a, b + c);
    assert forall|x: ParameterSetting| #[trigger] ivf_settings(parameters).contains(x) <==> match x {
        ParameterSetting::Nprobe(n) => parameters.contains_pair("nprobes"@, ParamValue::Int(n)),
        ParameterSetting::QuantizerEfSearch(n) => quantizer_has(parameters, "ef_search"@, n),
        ParameterSetting::QuantizerEfConstruction(n) => quantizer_has(
            parameters,
            "ef_construction"@,
            n,
        ),
        _ => false,
    } by {
        assert((a + (b + c)).contains(x) <==> a.contains(x) || (b + c).contains(x));
        assert((b + c).contains(x) <==> b.contains(x) || c.contains(x));
        lemma_contains_of_one(a, x);
        lemma_contains_of_one(b, x);
        lemma_contains_of_one(c, x);
    }
}

/// The numbers of some vectors are as many as the vectors have dimensions, or an eighth of
/// that for binary vectors, and they start behind those of the vectors before them: those of
/// vectors that follow each other follow each other too.
pub proof fn lemma_numbers_of(
    kind: IndexType,
    dim: i32,
    start: usize,
    count: usize,
    more: usize,
    r: (usize, usize),
    next: (usize, usize),
)
    requires
        0 <= dim,
        start + count <= usize::MAX,
        start * dim <= usize::MAX,
        count * dim <= usize::MAX,
        more * dim <= usize::MAX,
        (start + count) * dim <= usize::MAX,
        call_ensures(numbers_of, (kind, dim, start, count), r),
        call_ensures(numbers_of, (kind, dim, (start + count) as usize, more), next),
    ensures
        !(kind is Binary) ==> r.0 == start * dim && r.1 == count * dim,
        kind is Binary ==> r.0 == start * (dim as int / 8) && r.1 == count * (dim as int / 8),
        next.0 == r.0 + r.1,
{
    let width: int = if kind is Binary {
        dim as int / 8
    } else {
        dim as int
    };
    assert((start + count) * width == start * width + count * width) by (nonlinear_arith);
}

/// Vectors are inserted where there are some and as many as ids, and with whole dimensions: as
/// many as the stored numbers make, each having as many numbers as dimensions, or an eighth of
/// that where it is binary. Where there is no storage, no vector, or another number of ids,
/// it is an error.
pub proof fn lemma_insertion<S: IndexService>(
    service: &S,
    dim: i32,
    num_ids: i32,
    thread_count: i32,
    vectors_len: Option<usize>,
    r: Result<InsertPlan, IndexServiceError>,
)
    requires
        dim >= 1,
        service.kind() is Binary ==> dim >= 8,
        vectors_len matches Some(len) ==> len as int / (if service.kind() is Binary {
            dim as int / 8
        } else {
            dim as int
        }) <= i32::MAX,
        call_ensures(S::insert_to_index, (service, dim, num_ids, thread_count, vectors_len), r),
    ensures
        ({
            let width = if service.kind() is Binary {
                dim as int / 8
            } else {
                dim as int
            };
            &&& r is Ok <==> (vectors_len matches Some(len) && num_ids > 0 && num_ids * width <= len
                < (num_ids + 1) * width)
            &&& r matches Ok(plan) ==> {
                &&& plan.kind == service.kind()
                &&& plan.num_vectors == num_ids
                &&& plan.thread_count == thread_count
            }
            &&& r matches Err(e) ==> e is InvalidArgument
            &&& vectors_len is None ==> (r matches Err(IndexServiceError::InvalidArgument(text))
                && text@ == "vectors_address pointer is null"@)
            &&& vectors_len matches Some(len) ==> len < width ==> (r matches Err(
                IndexServiceError::InvalidArgument(text),
            ) && text@ == "Number of vectors cannot be 0"@)
        }),
{
    let width: int = if service.kind() is Binary {
        dim as int / 8
    } else {
        dim as int
    };
    if let Some(len) = vectors_len {
        lemma_vector_count(service.kind(), len, dim);
        let n = len as int / width;
        let m = num_ids as int;
        assert(n * width <= len < (n + 1) * width) by (nonlinear_arith)
            requires
                width > 0,
                n == len as int / width,
        ;
        assert(m * width <= len && len < (m + 1) * width ==> m == n) by (nonlinear_arith)
            requires
                width > 0,
                n * width <= len < (n + 1) * width,
        ;
        assert(len < width ==> n == 0) by (nonlinear_arith)
            requires
                width > 0,
                len >= 0,
                n * width <= len < (n + 1) * width,
        ;
    }
}

/// An index can be written where there is one.
pub proof fn lemma_writing<S: IndexService>(
    service: &S,
    id_map_address: i64,
    r: Result<WritePlan, IndexServiceError>,
)
    requires
        call_ensures(S::write_index, (service, id_map_address), r),
    ensures
        r is Ok <==> id_map_address != 0,
        r matches Err(e) ==> e is InvalidArgument,
{
}

/// The number of a metric is its own: metrics with one number are one metric.
pub proof fn lemma_metric_codes(a: FaissMetricType, b: FaissMetricType, n: i32, m: i32)
    requires
        call_ensures(FaissMetricType::code, (a,), n),
        call_ensures(FaissMetricType::code, (b,), m),
    ensures
        n == m ==> a == b,
        a is MetricInnerProduct <==> n == 0,
        a is MetricL2 <==> n == 1,
        a is MetricL1 <==> n == 2,
        a is MetricLinf <==> n == 3,
        a is MetricLp <==> n == 4,
        a is MetricCanberra <==> n == 20,
        a is MetricBrayCurtis <==> n == 21,
        a is MetricJensenShannon <==> n == 22,
{
}

/// A service makes an empty index of its own kind and with as many threads as it is asked for, and
/// the service for a kind is of that kind.
pub proof fn lemma_made_for_kind<S: IndexService>(
    service: &S,
    thread_count: i32,
    plan: InitPlan,
    kind: IndexType,
    any: AnyIndexService,
)
    requires
        call_ensures(S::init_index, (service, thread_count), plan),
        call_ensures(create_index_service, (kind,), any),
    ensures
        plan.kind == service.kind(),
        plan.thread_count == thread_count,
        any.service.kind() == kind,
{
}

/// What making an index hands back is where its id map lies; a binary index gets no settings beside
/// its description; and a vector of fewer than eight bits has no byte.
pub proof fn lemma_made(
    id_map: FaissIndexIDMap,
    address: i64,
    binary: FaissIndexBinaryIDMap,
    binary_address: i64,
    parameters: &StringMap<ParamValue>,
    index: FaissIndexBinary,
    settings: Vec<ParameterSetting>,
    kind: IndexType,
    dim: i32,
    has: bool,
)
    requires
        call_ensures(made_index, (id_map,), address),
        call_ensures(made_binary_index, (binary,), binary_address),
        call_ensures(set_extra_parameters_binary, (parameters, index), settings),
        call_ensures(vectors_have_numbers, (kind, dim), has),
    ensures
        address == id_map.address,
        binary_address == binary.address,
        settings@.len() == 0,
        kind is Binary ==> (has <==> dim >= 8 || dim <= -8),
        !(kind is Binary) ==> (has <==> dim != 0),
{
}

/// What a fault says is said on as it is, by the error that it is: one of Faiss, of writing or of an
/// argument.
pub proof fn lemma_fault_is_told(fault: Fault, error: IndexServiceError)
    requires
        !(fault is Add),
        !(fault is Java),
        call_ensures(error_of_fault, (fault,), error),
    ensures
        fault is NotTrained <==> error is IndexNotTrained,
        fault matches Fault::Faiss(text) ==> (error matches IndexServiceError::FaissError(message)
            && message@ == text@),
        fault matches Fault::Runtime(text) ==> (error matches IndexServiceError::FaissError(message)
            && message@ == text@),
        fault matches Fault::Write(text) ==> (error matches IndexServiceError::WriteError(message)
            && message@ == text@),
        fault matches Fault::InvalidArgument(text) ==> (
        error matches IndexServiceError::InvalidArgument(message) && message@ == text@),
        fault matches Fault::NullPointer(text) ==> (
        error matches IndexServiceError::InvalidArgument(message) && message@ == text@),
{
}

/// What is said of vectors that Faiss refuses shows its answer, the addresses and the numbers that it
/// was given, and for other kinds names the call.
pub proof fn lemma_refusal_is_told(
    kind: IndexType,
    ret: i32,
    id_map_address: i64,
    num_vectors: i32,
    dim: i32,
    vectors_address: i64,
    error: IndexServiceError,
)
    requires
        call_ensures(
            add_error,
            (kind, ret, id_map_address, num_vectors, dim, vectors_address),
            error,
        ),
    ensures
        error is FaissError,
        kind is Float ==> error->FaissError_0@ == "faiss_IndexIDMap_add_with_ids failed: ret="@
            + text::decimal(ret as int) + ", id_map="@ + text::pointer_text(id_map_address as u64)
            + ", n="@ + text::decimal(num_vectors as int) + ", dim="@ + text::decimal(dim as int)
            + ", vec_ptr="@ + text::pointer_text(vectors_address as u64),
        kind is Binary ==> error->FaissError_0@ == "faiss_IndexBinaryIDMap_add_with_ids failed"@,
        kind is Byte ==> error->FaissError_0@
            == "faiss_IndexIDMap_add_with_ids failed during batch insert"@,
{
}

/// Each error says what it is of, before what it says.
pub proof fn lemma_messages(error: IndexServiceError, text: String)
    requires
        call_ensures(IndexServiceError::message, (&error,), text),
    ensures
        match error {
            IndexServiceError::IndexNotTrained => text@ == "Index is not trained"@,
            IndexServiceError::FaissError(message) => text@ == "Faiss error: "@ + message@,
            IndexServiceError::InvalidArgument(message) => text@ == "Invalid argument: "@
                + message@,
            IndexServiceError::WriteError(message) => text@ == "Write error: "@ + message@,
        },
{
}

/// What is said where there are not as many ids as vectors shows, for float vectors, how many there
/// are of each, and of how many numbers and dimensions.
pub proof fn lemma_mismatch_is_told<S: IndexService>(
    service: &S,
    dim: i32,
    num_ids: i32,
    thread_count: i32,
    len: usize,
    r: Result<InsertPlan, IndexServiceError>,
)
    requires
        dim >= 1,
        service.kind() is Binary ==> dim >= 8,
        len as int / (if service.kind() is Binary {
            dim as int / 8
        } else {
            dim as int
        }) <= i32::MAX,
        call_ensures(S::insert_to_index, (service, dim, num_ids, thread_count, Some(len)), r),
        r is Err,
        len >= dim,
    ensures
        r->Err_0 is InvalidArgument,
        service.kind() is Float ==> r->Err_0->InvalidArgument_0@
            == "Number of IDs does not match number of vectors: num_ids="@ + text::decimal(
            num_ids as int,
        ) + ", num_vectors="@ + text::decimal(len as int / dim as int) + ", vec.len()="@
            + text::decimal(len as int) + ", dim="@ + text::decimal(dim as int),
        !(service.kind() is Float) ==> r->Err_0->InvalidArgument_0@
            == "Number of IDs does not match number of vectors"@,
{
    let width: int = if service.kind() is Binary {
        dim as int / 8
    } else {
        dim as int
    };
    lemma_vector_count(service.kind(), len, dim);
    assert(len as int / width >= 1) by (nonlinear_arith)
        requires
            0 < width <= len,
    ;
}

} // verus!
