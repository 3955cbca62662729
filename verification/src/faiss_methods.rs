//! What the basic calls of Faiss answer.

use crate::text;
use crate::text::{decimal_i64, join};
use vstd::prelude::*;
use vstd::string::*;

pub use crate::ffi::faiss_sys::{
    FaissIOWriter, FaissIndex, FaissIndexBinary, FaissIndexBinaryIDMap, FaissIndexIDMap,
};

verus! {

/// The metrics of Faiss.
#[derive(Debug, Clone, Copy, PartialEq, Eq, Structural)]
pub enum FaissMetricType {
    MetricInnerProduct,
    MetricL2,
    MetricL1,
    MetricLinf,
    MetricLp,
    MetricCanberra,
    MetricBrayCurtis,
    MetricJensenShannon,
    MetricJaccard,
}

impl FaissMetricType {
    /// How Faiss numbers the metric.
    pub open spec fn number(self) -> i32 {
        match self {
            FaissMetricType::MetricInnerProduct => 0,
            FaissMetricType::MetricL2 => 1,
            FaissMetricType::MetricL1 => 2,
            FaissMetricType::MetricLinf => 3,
            FaissMetricType::MetricLp => 4,
            FaissMetricType::MetricCanberra => 20,
            FaissMetricType::MetricBrayCurtis => 21,
            FaissMetricType::MetricJensenShannon => 22,
            FaissMetricType::MetricJaccard => 23,
        }
    }

    /// How Faiss numbers the metric.
    pub fn code(self) -> (n: i32)
        ensures
            n == self.number(),
    {
        match self {
            FaissMetricType::MetricInnerProduct => 0,
            FaissMetricType::MetricL2 => 1,
            FaissMetricType::MetricL1 => 2,
            FaissMetricType::MetricLinf => 3,
            FaissMetricType::MetricLp => 4,
            FaissMetricType::MetricCanberra => 20,
            FaissMetricType::MetricBrayCurtis => 21,
            FaissMetricType::MetricJensenShannon => 22,
            FaissMetricType::MetricJaccard => 23,
        }
    }
}

/// Leaves the stored vectors out of a binary index that is written.
pub const IO_FLAG_SKIP_STORAGE: i32 = 1;

/// A call that Faiss refused, with the code that it answered.
#[derive(Debug, Clone, Copy, PartialEq, Eq, Structural)]
pub enum FaissError {
    IndexFactoryFailed(i32),
    IndexBinaryFactoryFailed(i32),
    IndexIdMapFailed(i32),
    IndexBinaryIdMapFailed(i32),
    WriteIndexFailed(i32),
    WriteIndexBinaryFailed(i32),
}

impl FaissError {
    /// What failed, up to the code.
    pub open spec fn beginning(self) -> Seq<char> {
        match self {
            FaissError::IndexFactoryFailed(_) => "Faiss index_factory failed (code="@,
            FaissError::IndexBinaryFactoryFailed(_) => "Faiss index_binary_factory failed (code="@,
            FaissError::IndexIdMapFailed(_) => "Faiss IndexIDMap creation failed (code="@,
            FaissError::IndexBinaryIdMapFailed(_) => {
                "Faiss IndexBinaryIDMap creation failed (code="@
            },
            FaissError::WriteIndexFailed(_) => "Faiss write_index failed (code="@,
            FaissError::WriteIndexBinaryFailed(_) => "Faiss write_index_binary failed (code="@,
        }
    }

    /// The code that Faiss answered.
    pub open spec fn code(self) -> i32 {
        match self {
            FaissError::IndexFactoryFailed(code) => code,
            FaissError::IndexBinaryFactoryFailed(code) => code,
            FaissError::IndexIdMapFailed(code) => code,
            FaissError::IndexBinaryIdMapFailed(code) => code,
            FaissError::WriteIndexFailed(code) => code,
            FaissError::WriteIndexBinaryFailed(code) => code,
        }
    }

    /// The description of the error.
    pub fn message(self) -> (text: String)
        ensures
            text@ == self.beginning() + text::decimal(self.code() as int) + ")"@,
    {
        let (beginning, code) = match self {
            FaissError::IndexFactoryFailed(code) => ("Faiss index_factory failed (code=", code),
            FaissError::IndexBinaryFactoryFailed(code) => (
                "Faiss index_binary_factory failed (code=",
                code,
            ),
            FaissError::IndexIdMapFailed(code) => (
                "Faiss IndexIDMap creation failed (code=",
                code,
            ),
            FaissError::IndexBinaryIdMapFailed(code) => (
                "Faiss IndexBinaryIDMap creation failed (code=",
                code,
            ),
            FaissError::WriteIndexFailed(code) => ("Faiss write_index failed (code=", code),
            FaissError::WriteIndexBinaryFailed(code) => (
                "Faiss write_index_binary failed (code=",
                code,
            ),
        };
        let mut out = join(beginning, decimal_i64(code as i64).as_str());
        out.append(")");
        out
    }
}

/// What a call of Faiss comes to: `code` is what it answered, zero where it
/// succeeded, and `made` what it made.
pub open spec fn outcome<T>(code: i32, made: T, refused: FaissError) -> Result<T, FaissError> {
    if code == 0 {
        Ok(made)
    } else {
        Err(refused)
    }
}

/// The basic calls of Faiss, each with the code that it answered.
pub trait FaissMethods {
    fn index_factory(&self, code: i32, index: FaissIndex) -> (r: Result<FaissIndex, FaissError>)
        ensures
            r == outcome(code, index, FaissError::IndexFactoryFailed(code)),
    ;

    fn index_binary_factory(&self, code: i32, index: FaissIndexBinary) -> (r: Result<
        FaissIndexBinary,
        FaissError,
    >)
        ensures
            r == outcome(code, index, FaissError::IndexBinaryFactoryFailed(code)),
    ;

    fn index_id_map(&self, code: i32, id_map: FaissIndexIDMap) -> (r: Result<
        FaissIndexIDMap,
        FaissError,
    >)
        ensures
            r == outcome(code, id_map, FaissError::IndexIdMapFailed(code)),
    ;

    fn index_binary_id_map(&self, code: i32, id_map: FaissIndexBinaryIDMap) -> (r: Result<
        FaissIndexBinaryIDMap,
        FaissError,
    >)
        ensures
            r == outcome(code, id_map, FaissError::IndexBinaryIdMapFailed(code)),
    ;

    fn write_index(&self, code: i32) -> (r: Result<(), FaissError>)
        ensures
            r == outcome(code, (), FaissError::WriteIndexFailed(code)),
    ;

    /// The flags with which a binary index is written.
    fn write_index_binary_flags(&self, skip_flat: bool) -> (flags: i32)
        ensures
            flags == if skip_flat {
                IO_FLAG_SKIP_STORAGE
            } else {
                0
            },
    ;

    fn write_index_binary(&self, code: i32) -> (r: Result<(), FaissError>)
        ensures
            r == outcome(code, (), FaissError::WriteIndexBinaryFailed(code)),
    ;
}

/// The calls as Faiss answers them.
pub struct FaissMethodsImpl;

impl FaissMethodsImpl {
    pub fn new() -> (methods: Self)
        ensures
            methods == FaissMethodsImpl,
    {
        FaissMethodsImpl
    }
}

impl Default for FaissMethodsImpl {
    fn default() -> (methods: Self)
        ensures
            methods == FaissMethodsImpl,
    {
        FaissMethodsImpl::new()
    }
}

impl FaissMethods for FaissMethodsImpl {
    fn index_factory(&self, code: i32, index: FaissIndex) -> (r: Result<FaissIndex, FaissError>) {
        if code != 0 {
            return Err(FaissError::IndexFactoryFailed(code));
        }
        Ok(index)
    }

    fn index_binary_factory(&self, code: i32, index: FaissIndexBinary) -> (r: Result<
        FaissIndexBinary,
        FaissError,
    >) {
        if code != 0 {
            return Err(FaissError::IndexBinaryFactoryFailed(code));
        }
        Ok(index)
    }

    fn index_id_map(&self, code: i32, id_map: FaissIndexIDMap) -> (r: Result<
        FaissIndexIDMap,
        FaissError,
    >) {
        if code != 0 {
            return Err(FaissError::IndexIdMapFailed(code));
        }
        Ok(id_map)
    }

    fn index_binary_id_map(&self, code: i32, id_map: FaissIndexBinaryIDMap) -> (r: Result<
        FaissIndexBinaryIDMap,
        FaissError,
    >) {
        if code != 0 {
            return Err(FaissError::IndexBinaryIdMapFailed(code));
        }
        Ok(id_map)
    }

    fn write_index(&self, code: i32) -> (r: Result<(), FaissError>) {
        if code != 0 {
            return Err(FaissError::WriteIndexFailed(code));
        }
        Ok(())
    }

    fn write_index_binary_flags(&self, skip_flat: bool) -> (flags: i32) {
        if skip_flat {
            IO_FLAG_SKIP_STORAGE
        } else {
            0
        }
    }

    fn write_index_binary(&self, code: i32) -> (r: Result<(), FaissError>) {
        if code != 0 {
            return Err(FaissError::WriteIndexBinaryFailed(code));
        }
        Ok(())
    }
}

/// A call that Faiss answers with zero has made what it made, and any other answer is the code of
/// the error of this call.
pub proof fn lemma_outcomes<M: FaissMethods>(
    methods: &M,
    code: i32,
    index: FaissIndex,
    binary: FaissIndexBinary,
    id_map: FaissIndexIDMap,
    binary_id_map: FaissIndexBinaryIDMap,
    made: Result<FaissIndex, FaissError>,
    binary_made: Result<FaissIndexBinary, FaissError>,
    mapped: Result<FaissIndexIDMap, FaissError>,
    binary_mapped: Result<FaissIndexBinaryIDMap, FaissError>,
    written: Result<(), FaissError>,
    binary_written: Result<(), FaissError>,
)
    requires
        call_ensures(M::index_factory, (methods, code, index), made),
        call_ensures(M::index_binary_factory, (methods, code, binary), binary_made),
        call_ensures(M::index_id_map, (methods, code, id_map), mapped),
        call_ensures(M::index_binary_id_map, (methods, code, binary_id_map), binary_mapped),
        call_ensures(M::write_index, (methods, code), written),
        call_ensures(M::write_index_binary, (methods, code), binary_written),
    ensures
        code == 0 ==> {
            &&& made matches Ok(i) && i.address == index.address
            &&& binary_made matches Ok(i) && i.address == binary.address
            &&& mapped matches Ok(i) && i.address == id_map.address
            &&& binary_mapped matches Ok(i) && i.address == binary_id_map.address
            &&& written is Ok
            &&& binary_written is Ok
        },
        code != 0 ==> {
            &&& made matches Err(FaissError::IndexFactoryFailed(c)) && c == code
            &&& binary_made matches Err(FaissError::IndexBinaryFactoryFailed(c)) && c == code
            &&& mapped matches Err(FaissError::IndexIdMapFailed(c)) && c == code
            &&& binary_mapped matches Err(FaissError::IndexBinaryIdMapFailed(c)) && c == code
            &&& written matches Err(FaissError::WriteIndexFailed(c)) && c == code
            &&& binary_written matches Err(FaissError::WriteIndexBinaryFailed(c)) && c == code
        },
{
}

/// The description of an error shows its code, in decimal and in brackets, at its end.
pub proof fn lemma_message_shows_code(error: FaissError, code: i32, text: String)
    requires
        error == FaissError::IndexFactoryFailed(code) || error
            == FaissError::IndexBinaryFactoryFailed(code) || error == FaissError::IndexIdMapFailed(
            code,
        ) || error == FaissError::IndexBinaryIdMapFailed(code) || error
            == FaissError::WriteIndexFailed(code) || error == FaissError::WriteIndexBinaryFailed(
            code,
        ),
        call_ensures(FaissError::message, (error,), text),
    ensures
        ({
            let shown = "(code="@ + text::decimal(code as int) + ")"@;
            &&& text@.len() > shown.len()
            &&& text@.skip(text@.len() - shown.len()) == shown
        }),
{
    reveal_strlit("(code=");
    reveal_strlit(")");
    reveal_strlit("Faiss index_factory failed (code=");
    reveal_strlit("Faiss index_binary_factory failed (code=");
    reveal_strlit("Faiss IndexIDMap creation failed (code=");
    reveal_strlit("Faiss IndexBinaryIDMap creation failed (code=");
    reveal_strlit("Faiss write_index failed (code=");
    reveal_strlit("Faiss write_index_binary failed (code=");
    let shown = "(code="@ + text::decimal(code as int) + ")"@;
    assert(text@.skip(text@.len() - shown.len()) =~= shown);
}

/// A metric is told by its number: metrics with one number are one metric.
pub proof fn lemma_metric_codes(a: FaissMetricType, b: FaissMetricType, n: i32, m: i32)
    requires
        call_ensures(FaissMetricType::code, (a,), n),
        call_ensures(FaissMetricType::code, (b,), m),
    ensures
        n == m ==> a == b,
        a is MetricInnerProduct ==> n == 0,
        a is MetricL2 ==> n == 1,
        0 <= n <= 4 || 20 <= n <= 23,
{
}

} // verus!
