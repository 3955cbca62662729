//! What Java asks of the Faiss service.

use crate::asking;
use crate::faiss_index_service;
use crate::faiss_index_service::{
    FaissMetricType, ParamValue, EF_CONSTRUCTION, EF_SEARCH, NPROBES,
};
use crate::faiss_wrapper;
use crate::java_objects;
use crate::java_objects::{get_int_from_map, get_map_value};
use crate::jni_util;
use crate::jni_util::{
    JNIUtil, JniUtilError, INDEX_DESCRIPTION, INDEX_THREAD_QUANTITY, PARAMETERS, SPACE_TYPE,
};
use crate::jvm;
use crate::string_map::StringMap;
use crate::text::{join, same_text};
use crate::KnnError;
use jni::objects::JObject;
use jni::JNIEnv;
use vstd::prelude::*;
use vstd::string::*;

verus! {

broadcast use asking::group_asking;

/// An index can be made: it has a dimension and parameters.
pub fn check_init(dim: i32, parameters_are_null: bool) -> (r: Result<(), KnnError>)
    ensures
        match r {
            Ok(_) => dim > 0 && !parameters_are_null,
            Err(KnnError::InvalidArgument(message)) => if dim <= 0 {
                message@ == "Vectors dimensions cannot be less than or equal to 0"@
            } else {
                parameters_are_null && message@ == "Parameters cannot be null"@
            },
            Err(_) => false,
        },
{
    if dim <= 0 {
        return Err(
            KnnError::InvalidArgument(
                "Vectors dimensions cannot be less than or equal to 0".to_owned(),
            ),
        );
    }
    if parameters_are_null {
        return Err(KnnError::InvalidArgument("Parameters cannot be null".to_owned()));
    }
    Ok(())
}

/// The metric of a space, or nothing where there is no such space.
pub open spec fn service_metric(space_type: Seq<char>) -> Option<FaissMetricType> {
    if space_type == "l2"@ || space_type == "hamming"@ {
        Some(FaissMetricType::MetricL2)
    } else if space_type == "innerproduct"@ || space_type == "cosinesimil"@ {
        Some(FaissMetricType::MetricInnerProduct)
    } else {
        None
    }
}

/// `message` is `prefix`, followed by what the error says of itself.
pub open spec fn tells_of(prefix: Seq<char>, error: JniUtilError, message: Seq<char>) -> bool {
    exists|text: Seq<char>| #[trigger] error.describes(text) && message == prefix + text
}

/// The metric of an index, whose space Java names.
pub fn index_metric(space_type: Result<String, JniUtilError>) -> (r: Result<FaissMetricType, KnnError>)
    ensures
        match r {
            Ok(metric) => space_type matches Ok(name) && service_metric(name@) == Some(metric),
            Err(KnnError::InvalidArgument(message)) => space_type matches Err(e) && tells_of(
                "spaceType: "@,
                e,
                message@,
            ),
            Err(KnnError::NativeLibrary(message)) => {
                &&& space_type matches Ok(name) && service_metric(name@) is None && message@
                    == "Invalid spaceType: "@ + name@
            },
            Err(_) => false,
        },
{
    let name = match space_type {
        Ok(name) => name,
        Err(e) => {
            let message = join("spaceType: ", e.message().as_str());
            return Err(KnnError::InvalidArgument(message));
        },
    };
    if same_text(name.as_str(), "l2") || same_text(name.as_str(), "hamming") {
        Ok(FaissMetricType::MetricL2)
    } else if same_text(name.as_str(), "innerproduct") || same_text(name.as_str(), "cosinesimil") {
        Ok(FaissMetricType::MetricInnerProduct)
    } else {
        Err(KnnError::NativeLibrary(join("Invalid spaceType: ", name.as_str())))
    }
}

/// The description of an index.
pub fn index_description(description: Result<String, JniUtilError>) -> (r: Result<String, KnnError>)
    ensures
        match r {
            Ok(text) => description == Ok::<String, JniUtilError>(text),
            Err(KnnError::InvalidArgument(message)) => description matches Err(e) && tells_of(
                "index_description: "@,
                e,
                message@,
            ),
            Err(_) => false,
        },
{
    match description {
        Ok(text) => Ok(text),
        Err(e) => {
            let message = join("index_description: ", e.message().as_str());
            Err(KnnError::InvalidArgument(message))
        },
    }
}

/// The number of threads; zero where none is given that can be read.
pub fn thread_count(threads: Option<i32>) -> (n: i32)
    ensures
        n == match threads {
            Some(t) => t as int,
            None => 0int,
        },
{
    match threads {
        Some(t) => t,
        None => 0,
    }
}

/// The parameters that cannot be said in the description of an index, where they
/// are given.
pub fn index_params(
    ef_construction: Option<i32>,
    ef_search: Option<i32>,
    nprobes: Option<i32>,
) -> (parameters: StringMap<ParamValue>)
    ensures
        faiss_index_service::int_param(parameters@, EF_CONSTRUCTION@) == ef_construction,
        faiss_index_service::int_param(parameters@, EF_SEARCH@) == ef_search,
        faiss_index_service::int_param(parameters@, NPROBES@) == nprobes,
        forall|key: Seq<char>| #[trigger]
            parameters@.dom().contains(key) ==> key == EF_CONSTRUCTION@ || key == EF_SEARCH@
                || key == NPROBES@,
{
    proof {
        reveal_strlit("ef_construction");
        reveal_strlit("ef_search");
        reveal_strlit("nprobes");
        assert(EF_CONSTRUCTION@.len() == 15);
        assert(EF_SEARCH@.len() == 9);
        assert(NPROBES@.len() == 7);
    }
    let mut parameters: StringMap<ParamValue> = StringMap::new();
    if let Some(n) = ef_construction {
        parameters.insert(EF_CONSTRUCTION.to_owned(), ParamValue::Int(n));
    }
    if let Some(n) = ef_search {
        parameters.insert(EF_SEARCH.to_owned(), ParamValue::Int(n));
    }
    if let Some(n) = nprobes {
        parameters.insert(NPROBES.to_owned(), ParamValue::Int(n));
    }
    parameters
}

/// The service and the operations on an index agree on the metric of every space.
pub proof fn lemma_metrics_agree(space_type: Seq<char>)
    ensures
        match service_metric(space_type) {
            Some(metric) => faiss_wrapper::metric_of(space_type) == Some(metric.number()),
            None => faiss_wrapper::metric_of(space_type) is None,
        },
{
    faiss_wrapper::lemma_spaces_differ();
}

/// An error of a conversion as an error of the argument that was converted.
pub fn argument_error(error: JniUtilError) -> (r: KnnError)
    ensures
        r matches KnnError::InvalidArgument(message) && error.describes(message@),
{
    KnnError::InvalidArgument(error.message())
}

/// Puts the numbers of new vectors before what is stored. Where they could not be
/// had nothing changes, and the error says why.
pub fn transfer_vectors<T>(stored: &mut Vec<T>, vectors: Result<Vec<T>, JniUtilError>) -> (r: Result<
    (),
    KnnError,
>)
    ensures
        match r {
            Ok(_) => vectors matches Ok(new_data) && final(stored)@ == new_data@ + old(stored)@,
            Err(KnnError::InvalidArgument(message)) => {
                &&& vectors matches Err(error) && error.describes(message@)
                &&& final(stored)@ == old(stored)@
            },
            Err(_) => false,
        },
{
    match vectors {
        Ok(new_data) => {
            put_before(new_data, stored);
            Ok(())
        },
        Err(e) => Err(argument_error(e)),
    }
}

/// Puts `new_data` before what is stored.
fn put_before<T>(new_data: Vec<T>, stored: &mut Vec<T>)
    ensures
        final(stored)@ == new_data@ + old(stored)@,
{
    let mut new_data = new_data;
    new_data.append(stored);
    std::mem::swap(&mut new_data, stored);
}

/// The address of a scalar quantized index that was made; zero stands for none.
pub fn init_faiss_sq_index(address: i64) -> (r: Result<i64, KnnError>)
    ensures
        match r {
            Ok(a) => a == address && address != 0,
            Err(KnnError::Internal(message)) => address == 0 && message@
                == "Failed to initialize SQ index"@,
            Err(_) => false,
        },
{
    if address == 0 {
        Err(KnnError::Internal("Failed to initialize SQ index".to_owned()))
    } else {
        Ok(address)
    }
}

/// An index as Java asks for it.
pub struct IndexRequest {
    pub metric: FaissMetricType,
    pub description: String,
    /// The number of threads; zero where none is given.
    pub thread_count: i32,
    /// What the description cannot hold.
    pub params: StringMap<ParamValue>,
}

/// What is said of parameters with which no index can be made.
pub open spec fn is_request_refusal(e: KnnError) -> bool {
    match e {
        KnnError::Jni(_) => true,
        KnnError::InvalidArgument(message) => {
            ||| exists|error: JniUtilError| #[trigger] tells_of("spaceType: "@, error, message@)
            ||| exists|error: JniUtilError|
                #[trigger] tells_of("index_description: "@, error, message@)
        },
        KnnError::NativeLibrary(message) => exists|name: Seq<char>|
            #[trigger] service_metric(name) is None && message@ == "Invalid spaceType: "@ + name,
        _ => false,
    }
}

/// What reading the parameters of an index that is to be made may come to.
pub open spec fn gives_request(parameters: &JObject<'_>, r: Result<IndexRequest, KnnError>) -> bool {
    exists|space_type: jvm::JniResult<JObject<'_>>| #[trigger]
        java_objects::gives_value(parameters, SPACE_TYPE@, space_type) && match space_type {
            Ok(object) => exists|name: Result<String, JniUtilError>| #[trigger]
                java_objects::gives_text(&object, name) && match name {
                    Ok(text) => match service_metric(text@) {
                        Some(metric) => reads_request_description(parameters, metric, r),
                        None => r matches Err(KnnError::NativeLibrary(message)) && message@
                            == "Invalid spaceType: "@ + text@,
                    },
                    Err(e) => r matches Err(KnnError::InvalidArgument(message)) && tells_of(
                        "spaceType: "@,
                        e,
                        message@,
                    ),
                },
            Err(e) => r == Err::<IndexRequest, KnnError>(KnnError::Jni(e)),
        }
}

/// What reading the description of an index that is to be made, and what follows, may
/// come to.
pub open spec fn reads_request_description(
    parameters: &JObject<'_>,
    metric: FaissMetricType,
    r: Result<IndexRequest, KnnError>,
) -> bool {
    exists|description: jvm::JniResult<JObject<'_>>| #[trigger]
        java_objects::gives_value(parameters, INDEX_DESCRIPTION@, description) && match description {
            Ok(object) => exists|text: Result<String, JniUtilError>| #[trigger]
                java_objects::gives_text(&object, text) && match text {
                    Ok(t) => {
                        &&& r matches Ok(request) && request.metric == metric && request.description
                            == t
                        &&& reads_request_numbers(parameters, r->Ok_0)
                    },
                    Err(e) => r matches Err(KnnError::InvalidArgument(message)) && tells_of(
                        "index_description: "@,
                        e,
                        message@,
                    ),
                },
            Err(e) => r == Err::<IndexRequest, KnnError>(KnnError::Jni(e)),
        }
}

/// What reading the numbers of an index that is to be made may come to: those that
/// cannot be read count as not given.
pub open spec fn reads_request_numbers(parameters: &JObject<'_>, request: IndexRequest) -> bool {
    &&& exists|threads: Option<i32>| #[trigger]
        java_objects::gives_int_or_none(parameters, INDEX_THREAD_QUANTITY@, threads)
            && request.thread_count == match threads {
            Some(t) => t as int,
            None => 0int,
        }
    &&& exists|sub_params: jvm::JniResult<JObject<'_>>| #[trigger]
        java_objects::gives_value(parameters, PARAMETERS@, sub_params) && match sub_params {
            Ok(map) => {
                ||| jvm::is_null_answers(&map, true) && has_no_params(request.params@)
                ||| jvm::is_null_answers(&map, false) && has_params_of(&map, request.params@)
            },
            Err(_) => has_no_params(request.params@),
        }
}

/// None of the parameters is given that the description of an index cannot hold.
pub open spec fn has_no_params(params: Map<Seq<char>, ParamValue>) -> bool {
    &&& faiss_index_service::int_param(params, EF_CONSTRUCTION@) is None
    &&& faiss_index_service::int_param(params, EF_SEARCH@) is None
    &&& faiss_index_service::int_param(params, NPROBES@) is None
}

/// The parameters that the description of an index cannot hold are what a Java map
/// gives.
pub open spec fn has_params_of(map: &JObject<'_>, params: Map<Seq<char>, ParamValue>) -> bool {
    &&& java_objects::gives_int_or_none(
        map,
        EF_CONSTRUCTION@,
        faiss_index_service::int_param(params, EF_CONSTRUCTION@),
    )
    &&& java_objects::gives_int_or_none(
        map,
        EF_SEARCH@,
        faiss_index_service::int_param(params, EF_SEARCH@),
    )
    &&& java_objects::gives_int_or_none(
        map,
        NPROBES@,
        faiss_index_service::int_param(params, NPROBES@),
    )
}

/// Reads the parameters of an index that is to be made.
pub fn parse_index_params(env: &mut JNIEnv<'_>, jni_util: &JNIUtil, parameters: &JObject<'_>) -> (r:
    Result<IndexRequest, KnnError>)
    ensures
        asking::only_asks(*old(env), *final(env)),
        gives_request(parameters, r),
        match r {
            Ok(request) => {
                &&& exists|name: Seq<char>| #[trigger] service_metric(name) == Some(request.metric)
                &&& forall|key: Seq<char>| #[trigger]
                    request.params@.dom().contains(key) ==> key == EF_CONSTRUCTION@ || key
                        == EF_SEARCH@ || key == NPROBES@
            },
            Err(e) => is_request_refusal(e),
        },
{
    let space_type = match get_map_value(env, parameters, SPACE_TYPE) {
        Ok(object) => object,
        Err(e) => return Err(KnnError::Jni(e)),
    };
    let space_type = jni_util.convert_java_object_to_rust_string(env, &space_type);
    let metric = match index_metric(space_type) {
        Ok(metric) => metric,
        Err(e) => return Err(e),
    };
    let description = match get_map_value(env, parameters, INDEX_DESCRIPTION) {
        Ok(object) => object,
        Err(e) => return Err(KnnError::Jni(e)),
    };
    let description = jni_util.convert_java_object_to_rust_string(env, &description);
    let description = match index_description(description) {
        Ok(description) => description,
        Err(e) => return Err(e),
    };
    let thread_count = thread_count(get_int_from_map(env, parameters, INDEX_THREAD_QUANTITY));
    let mut params = index_params(None, None, None);
    if let Ok(sub_params) = get_map_value(env, parameters, PARAMETERS) {
        let null = jvm::is_null(&sub_params);
        if !null {
            let ef_construction = get_int_from_map(env, &sub_params, EF_CONSTRUCTION);
            let ef_search = get_int_from_map(env, &sub_params, EF_SEARCH);
            let nprobes = get_int_from_map(env, &sub_params, NPROBES);
            params = index_params(ef_construction, ef_search, nprobes);
        }
    }
    Ok(IndexRequest { metric, description, thread_count, params })
}

/// The ids of vectors that are to be added to an index.
pub fn ids_to_insert(env: &mut JNIEnv<'_>, jni_util: &JNIUtil, ids: &JObject<'_>) -> (r: Result<
    Vec<i64>,
    KnnError,
>)
    ensures
        asking::only_asks(*old(env), *final(env)),
        exists|numbers: Result<Vec<i64>, JniUtilError>| #[trigger]
            java_objects::gives_wide_numbers(*old(env), ids, numbers, *final(env)) && match numbers {
                Ok(wide) => r == Ok::<Vec<i64>, KnnError>(wide),
                Err(error) => r matches Err(KnnError::InvalidArgument(message))
                    && error.describes(message@),
            },
        r matches Ok(wide) ==> exists|numbers: Seq<i32>|
            wide@ == #[trigger] jni_util::widened(numbers),
{
    match jni_util.convert_java_int_array_to_i64_vector(env, ids) {
        Ok(wide) => Ok(wide),
        Err(e) => Err(argument_error(e)),
    }
}

/// What reading the numbers of a Java `float[][]`, whose rows are as long as the first
/// one, may come to.
pub open spec fn gives_numbers<'local>(
    before: JNIEnv<'local>,
    vectors: &JObject<'_>,
    r: Result<Vec<u32>, JniUtilError>,
    after: JNIEnv<'local>,
) -> bool {
    exists|dim: Result<i32, JniUtilError>, measured: JNIEnv<'local>| #[trigger]
        java_objects::gives_first_row_length(before, vectors, dim, measured) && match dim {
            Ok(d) => java_objects::gives_float_vector(measured, vectors, d, r, after),
            Err(e) => r == Err::<Vec<u32>, JniUtilError>(e) && measured == after,
        }
}

/// The numbers of a Java `float[][]`, whose rows are as long as the first one.
fn numbers_to_transfer(env: &mut JNIEnv<'_>, jni_util: &JNIUtil, vectors: &JObject<'_>) -> (r: Result<
    Vec<u32>,
    JniUtilError,
>)
    ensures
        asking::only_asks(*old(env), *final(env)),
        gives_numbers(*old(env), vectors, r, *final(env)),
        java_objects::stores_rows(r),
        r matches Ok(numbers) ==> exists|dim: i32| #[trigger]
            java_objects::stores_some_rows(Seq::empty(), dim, numbers@, Ok(())),
{
    let dim = jni_util.get_inner_dimension_of_2d_java_float_array(env, vectors)?;
    jni_util.convert_2d_java_object_array_to_float_vector(env, vectors, dim)
}

/// Puts the rows of a Java `float[][]` before what is stored, as bit patterns. On an
/// error nothing changes.
pub fn transfer_java_vectors(
    env: &mut JNIEnv<'_>,
    jni_util: &JNIUtil,
    stored: &mut Vec<u32>,
    vectors: &JObject<'_>,
) -> (r: Result<(), KnnError>)
    ensures
        asking::only_asks(*old(env), *final(env)),
        exists|numbers: Result<Vec<u32>, JniUtilError>| #[trigger]
            gives_numbers(*old(env), vectors, numbers, *final(env)) && match numbers {
                Ok(new) => r is Ok && final(stored)@ == new@ + old(stored)@,
                Err(error) => {
                    &&& r matches Err(KnnError::InvalidArgument(message)) && error.describes(
                        message@,
                    )
                    &&& final(stored)@ == old(stored)@
                },
            },
{
    let numbers = numbers_to_transfer(env, jni_util, vectors);
    transfer_vectors(stored, numbers)
}

/// An index is made for a dimension above zero and parameters that are given, and for no others; of
/// two faults that of the dimension is told.
pub proof fn lemma_init_is_checked(
    dim: i32,
    parameters_are_null: bool,
    r: Result<(), KnnError>,
    address: i64,
    made: Result<i64, KnnError>,
)
    requires
        call_ensures(check_init, (dim, parameters_are_null), r),
        call_ensures(init_faiss_sq_index, (address,), made),
    ensures
        r is Ok <==> dim >= 1 && !parameters_are_null,
        dim < 1 ==> (r matches Err(KnnError::InvalidArgument(message)) && message@
            == "Vectors dimensions cannot be less than or equal to 0"@),
        dim >= 1 && parameters_are_null ==> (r matches Err(KnnError::InvalidArgument(message))
            && message@ == "Parameters cannot be null"@),
        address != 0 ==> made == Ok::<i64, KnnError>(address),
        address == 0 ==> (made matches Err(KnnError::Internal(message)) && message@
            == "Failed to initialize SQ index"@),
{
}

/// Distances are L2 for the spaces of that name and of the Hamming distance, the inner product for
/// those of the inner product and of the cosine, and there are no others.
pub proof fn lemma_metric_of_space(name: String, r: Result<FaissMetricType, KnnError>)
    requires
        call_ensures(index_metric, (Ok::<String, JniUtilError>(name),), r),
    ensures
        r is Ok <==> name@ == "l2"@ || name@ == "hamming"@ || name@ == "innerproduct"@ || name@
            == "cosinesimil"@,
        r matches Ok(metric) ==> (metric.number() == 1 <==> name@ == "l2"@ || name@ == "hamming"@),
        r matches Ok(metric) ==> (metric.number() == 0 <==> name@ == "innerproduct"@ || name@
            == "cosinesimil"@),
        r is Err ==> (r matches Err(KnnError::NativeLibrary(message)) && message@
            == "Invalid spaceType: "@ + name@),
{
    faiss_wrapper::lemma_spaces_differ();
}

/// What is read of an index is what is given: the description, the number of threads, which is zero
/// where none is given, and each of the three other numbers under its own key.
pub proof fn lemma_index_numbers(
    description: String,
    text: Result<String, KnnError>,
    threads: Option<i32>,
    n: i32,
    ef_construction: Option<i32>,
    ef_search: Option<i32>,
    nprobes: Option<i32>,
    params: StringMap<ParamValue>,
)
    requires
        call_ensures(index_description, (Ok::<String, JniUtilError>(description),), text),
        call_ensures(thread_count, (threads,), n),
        call_ensures(index_params, (ef_construction, ef_search, nprobes), params),
    ensures
        text == Ok::<String, KnnError>(description),
        threads matches Some(t) ==> n == t,
        threads is None ==> n == 0,
        ef_construction matches Some(k) ==> params@.contains_pair(
            "ef_construction"@,
            ParamValue::Int(k),
        ),
        ef_search matches Some(k) ==> params@.contains_pair("ef_search"@, ParamValue::Int(k)),
        nprobes matches Some(k) ==> params@.contains_pair("nprobes"@, ParamValue::Int(k)),
{
}

/// New numbers stand before those that were stored, all of them and in their order, and what was
/// stored stays behind them; where there are none to be had, what was stored stays as it is.
pub proof fn lemma_transferred<T>(
    stored: &mut Vec<T>,
    vectors: Result<Vec<T>, JniUtilError>,
    r: Result<(), KnnError>,
)
    requires
        call_ensures(transfer_vectors::<T>, (stored, vectors), r),
    ensures
        r is Ok <==> vectors is Ok,
        vectors matches Ok(new) ==> {
            &&& final(stored)@.len() == new@.len() + old(stored)@.len()
            &&& forall|i: int| 0 <= i < new@.len() ==> #[trigger] final(stored)@[i] == new@[i]
            &&& forall|i: int|
                0 <= i < old(stored)@.len() ==> #[trigger] old(stored)@[i]
                    == final(stored)@[new@.len() + i]
        },
        vectors is Err ==> final(stored)@ == old(stored)@,
{
}

/// What an index is made with is what the Java map has: the space and the description under their
/// keys, the number of threads under its own, and the other numbers, each under its own, in the map
/// that stands under its key.
pub proof fn lemma_request_is_read(
    env: &mut JNIEnv<'_>,
    jni_util: &JNIUtil,
    parameters: &JObject<'_>,
    r: Result<IndexRequest, KnnError>,
)
    requires
        call_ensures(parse_index_params, (env, jni_util, parameters), r),
        r is Ok,
    ensures
        java_objects::got_text(parameters, "index_description"@, r->Ok_0.description),
        exists|name: String| #[trigger]
            java_objects::got_text(parameters, "spaceType"@, name) && {
                &&& r->Ok_0.metric.number() == 1 <==> name@ == "l2"@ || name@ == "hamming"@
                &&& r->Ok_0.metric.number() == 0 <==> name@ == "innerproduct"@ || name@
                    == "cosinesimil"@
            },
        java_objects::got_int(parameters, "indexThreadQty"@, r->Ok_0.thread_count)
            || r->Ok_0.thread_count == 0 && java_objects::got_no_int(
            parameters,
            "indexThreadQty"@,
        ),
        forall|key: Seq<char>, n: i32| #[trigger]
            r->Ok_0.params@.contains_pair(key, ParamValue::Int(n)) ==> {
                &&& key == "ef_construction"@ || key == "ef_search"@ || key == "nprobes"@
                &&& exists|map: JObject<'_>| #[trigger]
                    java_objects::got(parameters, "parameters"@, map) && java_objects::got_int(
                        &map,
                        key,
                        n,
                    )
            },
{
    let request = r->Ok_0;
    let space_type = choose|space_type: jvm::JniResult<JObject<'_>>| #[trigger]
        java_objects::gives_value(parameters, SPACE_TYPE@, space_type) && match space_type {
            Ok(object) => exists|name: Result<String, JniUtilError>| #[trigger]
                java_objects::gives_text(&object, name) && match name {
                    Ok(text) => match service_metric(text@) {
                        Some(metric) => reads_request_description(parameters, metric, r),
                        None => false,
                    },
                    Err(_) => false,
                },
            Err(_) => false,
        };
    let space = space_type->Ok_0;
    let name = choose|name: Result<String, JniUtilError>| #[trigger]
        java_objects::gives_text(&space, name) && match name {
            Ok(text) => match service_metric(text@) {
                Some(metric) => reads_request_description(parameters, metric, r),
                None => false,
            },
            Err(_) => false,
        };
    let text = name->Ok_0;
    let metric = service_metric(text@)->0;
    java_objects::lemma_value_is_got(parameters, "spaceType"@, space);
    assert(java_objects::got_text(parameters, "spaceType"@, text));
    let description = choose|description: jvm::JniResult<JObject<'_>>| #[trigger]
        java_objects::gives_value(parameters, INDEX_DESCRIPTION@, description) && match description {
            Ok(object) => exists|t: Result<String, JniUtilError>| #[trigger]
                java_objects::gives_text(&object, t) && match t {
                    Ok(found) => {
                        &&& request.metric == metric && request.description == found
                        &&& reads_request_numbers(parameters, request)
                    },
                    Err(_) => false,
                },
            Err(_) => false,
        };
    java_objects::lemma_value_is_got(parameters, "index_description"@, description->Ok_0);
    assert(java_objects::got_text(parameters, "index_description"@, request.description));
    faiss_wrapper::lemma_spaces_differ();
    lemma_threads_are_read(parameters, request);
    assert forall|key: Seq<char>, n: i32| #[trigger]
        request.params@.contains_pair(key, ParamValue::Int(n)) implies {
        &&& key == "ef_construction"@ || key == "ef_search"@ || key == "nprobes"@
        &&& exists|map: JObject<'_>| #[trigger]
            java_objects::got(parameters, "parameters"@, map) && java_objects::got_int(&map, key, n)
    } by {
        assert(request.params@.dom().contains(key));
        lemma_number_is_read(parameters, request, key, n);
    }
}

proof fn lemma_threads_are_read(parameters: &JObject<'_>, request: IndexRequest)
    requires
        reads_request_numbers(parameters, request),
    ensures
        java_objects::got_int(parameters, "indexThreadQty"@, request.thread_count)
            || request.thread_count == 0 && java_objects::got_no_int(
            parameters,
            "indexThreadQty"@,
        ),
{
    let threads = choose|threads: Option<i32>| #[trigger]
        java_objects::gives_int_or_none(parameters, INDEX_THREAD_QUANTITY@, threads)
            && request.thread_count == match threads {
            Some(t) => t as int,
            None => 0int,
        };
    match threads {
        Some(t) => java_objects::lemma_int_is_got(parameters, "indexThreadQty"@, t),
        None => java_objects::lemma_none_is_got(parameters, "indexThreadQty"@),
    }
}

proof fn lemma_number_is_read(
    parameters: &JObject<'_>,
    request: IndexRequest,
    key: Seq<char>,
    n: i32,
)
    requires
        reads_request_numbers(parameters, request),
        key == "ef_construction"@ || key == "ef_search"@ || key == "nprobes"@,
        faiss_index_service::int_param(request.params@, key) == Some(n),
    ensures
        exists|map: JObject<'_>| #[trigger]
            java_objects::got(parameters, "parameters"@, map) && java_objects::got_int(
                &map,
                key,
                n,
            ),
{
    let sub_params = choose|sub_params: jvm::JniResult<JObject<'_>>| #[trigger]
        java_objects::gives_value(parameters, PARAMETERS@, sub_params) && match sub_params {
            Ok(map) => {
                ||| jvm::is_null_answers(&map, true) && has_no_params(request.params@)
                ||| jvm::is_null_answers(&map, false) && has_params_of(&map, request.params@)
            },
            Err(_) => has_no_params(request.params@),
        };
    let map = sub_params->Ok_0;
    java_objects::lemma_value_is_got(parameters, "parameters"@, map);
    assert(java_objects::gives_int_or_none(&map, key, Some(n)));
    java_objects::lemma_int_is_got(&map, key, n);
    assert(java_objects::got(parameters, "parameters"@, map));
}

/// A number that the description of an index cannot hold is missing only where the Java map gives no
/// map of such numbers, or that map does not give it.
pub proof fn lemma_number_is_absent(
    env: &mut JNIEnv<'_>,
    jni_util: &JNIUtil,
    parameters: &JObject<'_>,
    r: Result<IndexRequest, KnnError>,
    key: Seq<char>,
)
    requires
        call_ensures(parse_index_params, (env, jni_util, parameters), r),
        r is Ok,
        key == "ef_construction"@ || key == "ef_search"@ || key == "nprobes"@,
        !r->Ok_0.params@.dom().contains(key),
    ensures
        java_objects::got_nothing(parameters, "parameters"@) || exists|map: JObject<'_>| #[trigger]
            java_objects::got(parameters, "parameters"@, map) && java_objects::got_no_int(&map, key),
{
    let request = r->Ok_0;
    assert(reads_request_numbers(parameters, request)) by {
        lemma_numbers_are_given(parameters, r);
    }
    let sub_params = choose|sub_params: jvm::JniResult<JObject<'_>>| #[trigger]
        java_objects::gives_value(parameters, PARAMETERS@, sub_params) && match sub_params {
            Ok(map) => {
                ||| jvm::is_null_answers(&map, true) && has_no_params(request.params@)
                ||| jvm::is_null_answers(&map, false) && has_params_of(&map, request.params@)
            },
            Err(_) => has_no_params(request.params@),
        };
    match sub_params {
        Ok(map) => {
            if jvm::is_null_answers(&map, true) {
                java_objects::lemma_no_value_is_got(parameters, "parameters"@, sub_params);
            } else {
                java_objects::lemma_value_is_got(parameters, "parameters"@, map);
                assert(java_objects::gives_int_or_none(&map, key, None));
                java_objects::lemma_none_is_got(&map, key);
                assert(java_objects::got(parameters, "parameters"@, map));
            }
        },
        Err(_) => {
            java_objects::lemma_no_value_is_got(parameters, "parameters"@, sub_params);
        },
    }
}

proof fn lemma_numbers_are_given(parameters: &JObject<'_>, r: Result<IndexRequest, KnnError>)
    requires
        gives_request(parameters, r),
        r is Ok,
    ensures
        reads_request_numbers(parameters, r->Ok_0),
{
}

/// The ids of vectors that are added are the numbers of the whole Java array, in their order.
pub proof fn lemma_ids_are_read(
    env: &mut JNIEnv<'_>,
    jni_util: &JNIUtil,
    ids: &JObject<'_>,
    r: Result<Vec<i64>, KnnError>,
)
    requires
        call_ensures(ids_to_insert, (env, jni_util, ids), r),
        r is Ok,
    ensures
        exists|n: i32, count: int, numbers: Vec<i32>|
            {
                &&& #[trigger] jvm::get_array_length_answers(ids, Ok(n))
                &&& count == if n < 0 {
                    0
                } else {
                    n as int
                }
                &&& #[trigger] jvm::get_int_array_region_answers(ids, count, Ok(numbers))
                &&& r->Ok_0@.len() == numbers@.len()
                &&& forall|i: int|
                    0 <= i < numbers@.len() ==> #[trigger] r->Ok_0@[i] == numbers@[i] as int
            },
{
    let numbers = choose|numbers: Result<Vec<i64>, JniUtilError>| #[trigger]
        java_objects::gives_wide_numbers(*old(env), ids, numbers, *final(env)) && match numbers {
            Ok(wide) => r == Ok::<Vec<i64>, KnnError>(wide),
            Err(_) => false,
        };
    java_objects::lemma_wide_numbers_given(*old(env), ids, numbers, *final(env));
}

/// The rows of a Java `float[][]` are put before what is stored, all of them and in their order, each
/// as long as the first one, and what was stored stays behind them.
pub proof fn lemma_rows_are_transferred(
    env: &mut JNIEnv<'_>,
    jni_util: &JNIUtil,
    stored: &mut Vec<u32>,
    vectors: &JObject<'_>,
    r: Result<(), KnnError>,
)
    requires
        call_ensures(transfer_java_vectors, (env, jni_util, stored, vectors), r),
    ensures
        r is Err ==> final(stored)@ == old(stored)@,
        r is Ok ==> exists|dim: i32, rows: Seq<Vec<u32>>, new: Seq<u32>|
            {
                &&& #[trigger] java_objects::are_float_rows(vectors, dim, rows)
                &&& final(stored)@ == #[trigger] (new + old(stored)@)
                &&& rows.len() == 0 ==> new.len() == 0
                &&& rows.len() > 0 ==> jni_util::holds_rows(
                    new,
                    rows,
                    rows.len() as int,
                    dim as int,
                )
                &&& {
                    ||| dim == 0 && exists|count: i32| #[trigger]
                        jvm::get_array_length_answers(vectors, Ok(count)) && count <= 0
                    ||| exists|row: JObject<'_>| #[trigger]
                        jvm::get_object_array_element_answers(vectors, 0, Ok(row))
                            && jvm::get_array_length_answers(&row, Ok(dim))
                }
            },
{
    if r is Ok {
        let numbers = choose|numbers: Result<Vec<u32>, JniUtilError>| #[trigger]
            gives_numbers(*old(env), vectors, numbers, *final(env)) && match numbers {
                Ok(new) => final(stored)@ == new@ + old(stored)@,
                Err(_) => false,
            };
        lemma_numbers_are_rows(*old(env), vectors, numbers, *final(env));
        let new = numbers->Ok_0@;
        assert(final(stored)@ == new + old(stored)@);
    }
}

proof fn lemma_numbers_are_rows<'local>(
    before: JNIEnv<'local>,
    vectors: &JObject<'_>,
    numbers: Result<Vec<u32>, JniUtilError>,
    after: JNIEnv<'local>,
)
    requires
        gives_numbers(before, vectors, numbers, after),
        numbers is Ok,
    ensures
        exists|dim: i32, rows: Seq<Vec<u32>>|
            {
                &&& #[trigger] java_objects::are_float_rows(vectors, dim, rows)
                &&& rows.len() == 0 ==> numbers->Ok_0@.len() == 0
                &&& rows.len() > 0 ==> jni_util::holds_rows(
                    numbers->Ok_0@,
                    rows,
                    rows.len() as int,
                    dim as int,
                )
                &&& {
                    ||| dim == 0 && exists|count: i32| #[trigger]
                        jvm::get_array_length_answers(vectors, Ok(count)) && count <= 0
                    ||| exists|row: JObject<'_>| #[trigger]
                        jvm::get_object_array_element_answers(vectors, 0, Ok(row))
                            && jvm::get_array_length_answers(&row, Ok(dim))
                }
            },
{
    let (dim, measured) = choose|dim: Result<i32, JniUtilError>, measured: JNIEnv<'local>| #[trigger]
        java_objects::gives_first_row_length(before, vectors, dim, measured) && match dim {
            Ok(d) => java_objects::gives_float_vector(measured, vectors, d, numbers, after),
            Err(_) => false,
        };
    java_objects::lemma_first_row_given(before, vectors, dim, measured);
    java_objects::lemma_float_vector_given(measured, vectors, dim->Ok_0, numbers, after);
}

/// The parameters of an index are refused only where the Java map does not give a space that there is,
/// or a description.
pub proof fn lemma_request_refused(
    env: &mut JNIEnv<'_>,
    jni_util: &JNIUtil,
    parameters: &JObject<'_>,
    r: Result<IndexRequest, KnnError>,
)
    requires
        call_ensures(parse_index_params, (env, jni_util, parameters), r),
        r is Err,
    ensures
        ({
            ||| java_objects::got_no_text(parameters, "spaceType"@)
            ||| exists|name: String| #[trigger]
                java_objects::got_text(parameters, "spaceType"@, name) && name@ != "l2"@ && name@
                    != "hamming"@ && name@ != "innerproduct"@ && name@ != "cosinesimil"@
            ||| java_objects::got_no_text(parameters, "index_description"@)
        }),
{
    let space_type = choose|space_type: jvm::JniResult<JObject<'_>>| #[trigger]
        java_objects::gives_value(parameters, SPACE_TYPE@, space_type) && match space_type {
            Ok(object) => exists|name: Result<String, JniUtilError>| #[trigger]
                java_objects::gives_text(&object, name) && match name {
                    Ok(text) => match service_metric(text@) {
                        Some(metric) => reads_request_description(parameters, metric, r),
                        None => true,
                    },
                    Err(_) => true,
                },
            Err(_) => true,
        };
    match space_type {
        Ok(object) => {
            let name = choose|name: Result<String, JniUtilError>| #[trigger]
                java_objects::gives_text(&object, name) && match name {
                    Ok(text) => match service_metric(text@) {
                        Some(metric) => reads_request_description(parameters, metric, r),
                        None => true,
                    },
                    Err(_) => true,
                };
            match name {
                Ok(text) => {
                    java_objects::lemma_value_is_got(parameters, "spaceType"@, object);
                    assert(java_objects::got_text(parameters, "spaceType"@, text));
                    if let Some(metric) = service_metric(text@) {
                        lemma_description_refused(parameters, metric, r);
                    }
                },
                Err(_) => lemma_no_text_given(parameters, "spaceType"@, object, name),
            }
        },
        Err(_) => java_objects::lemma_no_value_is_got(parameters, "spaceType"@, space_type),
    }
}

proof fn lemma_no_text_given(
    parameters: &JObject<'_>,
    key: Seq<char>,
    object: JObject<'_>,
    text: Result<String, JniUtilError>,
)
    requires
        java_objects::gives_value(parameters, key, Ok(object)),
        java_objects::gives_text(&object, text),
        text is Err,
    ensures
        java_objects::got_no_text(parameters, key),
{
    if jvm::is_null_answers(&object, true) {
        java_objects::lemma_no_value_is_got(parameters, key, Ok(object));
    } else {
        java_objects::lemma_value_is_got(parameters, key, object);
        let e = text->Err_0->Jni_0;
        assert(java_objects::got(parameters, key, object) && jvm::get_string_answers(
            &object,
            Err(e),
        ));
    }
}

proof fn lemma_description_refused(
    parameters: &JObject<'_>,
    metric: FaissMetricType,
    r: Result<IndexRequest, KnnError>,
)
    requires
        reads_request_description(parameters, metric, r),
        r is Err,
    ensures
        java_objects::got_no_text(parameters, "index_description"@),
{
    let description = choose|description: jvm::JniResult<JObject<'_>>| #[trigger]
        java_objects::gives_value(parameters, INDEX_DESCRIPTION@, description) && match description {
            Ok(object) => exists|text: Result<String, JniUtilError>| #[trigger]
                java_objects::gives_text(&object, text) && text is Err,
            Err(_) => true,
        };
    match description {
        Ok(object) => {
            let text = choose|text: Result<String, JniUtilError>| #[trigger]
                java_objects::gives_text(&object, text) && text is Err;
            lemma_no_text_given(parameters, "index_description"@, object, text);
        },
        Err(_) => {
            java_objects::lemma_no_value_is_got(parameters, "index_description"@, description);
        },
    }
}

} // verus!
