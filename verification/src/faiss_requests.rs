//! Requests on Faiss indices as Java makes them.
//!
//! What Java passes, and whether it can be read, is up to the JVM. The contracts
//! say which calls a result comes from, and what is made of each answer.

use crate::asking;
use crate::faiss_index_service;
use crate::faiss_index_service::{IndexType, ParamValue};
use crate::faiss_wrapper;
use crate::faiss_wrapper::{
    adc_quantization_level, check_adc_parameters, check_index_path, check_training,
    load_index_with_stream_adc_params, training_description, training_metric, training_parameters,
    FaissWrapperError, QuantizerParameters, QueryResult,
};
use crate::ffi::faiss_sys::FaissMetricType;
use crate::java_objects;
use crate::java_objects::{
    buffer_size, int_setting, ints_of, longs_of, object_setting, or_tell, string_setting,
};
use crate::jni_util;
use crate::jni_util::{
    COARSE_QUANTIZER, EF_CONSTRUCTION, EF_SEARCH, INDEX_DESCRIPTION, INDEX_THREAD_QUANTITY, NPROBES, PARAMETERS,
    QUANTIZATION_LEVEL_FAISS_INDEX_LOAD_PARAMETER_JAVA_KNN_CONSTANTS, SPACE_TYPE,
    SPACE_TYPE_FAISS_INDEX_JAVA_KNN_CONSTANTS,
};
use crate::jvm;
use crate::jvm::JniResult;
use crate::string_map::StringMap;
use jni::objects::JObject;
use jni::JNIEnv;
use vstd::prelude::*;

verus! {

broadcast use asking::group_asking;

/// What an answer of the JVM is to the operation that asked for it.
pub open spec fn lifted<T>(answer: JniResult<T>) -> Result<T, FaissWrapperError> {
    match answer {
        Ok(value) => Ok(value),
        Err(e) => Err(FaissWrapperError::Jni(e)),
    }
}

/// A failed call into the JVM as an error of the operation that made it.
fn from_jvm<T>(answer: JniResult<T>) -> (r: Result<T, FaissWrapperError>)
    ensures
        r == lifted(answer),
{
    match answer {
        Ok(value) => Ok(value),
        Err(e) => Err(FaissWrapperError::Jni(e)),
    }
}

/// A request to train an index, as far as the index is made from it.
pub struct TrainingRequest {
    pub metric: FaissMetricType,
    pub description: String,
}

/// What is said of a request to train that cannot be met, but for its dimension.
pub open spec fn is_training_refusal(e: FaissWrapperError) -> bool {
    ||| e.says("Parameters cannot be null"@)
    ||| e.says("spaceType not found"@)
    ||| e.says("index_description not found"@)
    ||| exists|name: Seq<char>|
        #[trigger] faiss_wrapper::metric_of(name) is None && e.says("Invalid spaceType: "@ + name)
}

/// What reading a request to train an index may come to.
pub open spec fn gives_training_request(
    kind: IndexType,
    parameters: &JObject<'_>,
    dimension: i32,
    r: Result<TrainingRequest, FaissWrapperError>,
) -> bool {
    ||| {
        &&& jvm::is_null_answers(parameters, true)
        &&& r matches Err(e) && e.says("Parameters cannot be null"@)
    }
    ||| {
        &&& jvm::is_null_answers(parameters, false)
        &&& kind is Binary && dimension as int % 8 != 0
        &&& r matches Err(e) && e.says("Dimensions should be multiple of 8"@)
    }
    ||| {
        &&& jvm::is_null_answers(parameters, false)
        &&& kind is Binary ==> dimension as int % 8 == 0
        &&& exists|space_type: JniResult<Option<String>>| #[trigger]
            java_objects::gives_string_setting(parameters, SPACE_TYPE@, space_type)
                && match space_type {
                Ok(Some(name)) => match faiss_wrapper::metric_of(name@) {
                    Some(metric) => reads_training_description(parameters, metric, r),
                    None => r matches Err(e) && e.says("Invalid spaceType: "@ + name@),
                },
                Ok(None) => r matches Err(e) && e.says("spaceType not found"@),
                Err(e) => r == Err::<TrainingRequest, FaissWrapperError>(FaissWrapperError::Jni(e)),
            }
    }
}

/// What reading the description of an index under training may come to.
pub open spec fn reads_training_description(
    parameters: &JObject<'_>,
    metric: FaissMetricType,
    r: Result<TrainingRequest, FaissWrapperError>,
) -> bool {
    exists|description: JniResult<Option<String>>| #[trigger]
        java_objects::gives_string_setting(parameters, INDEX_DESCRIPTION@, description)
            && match description {
            Ok(Some(text)) => r == Ok::<_, FaissWrapperError>(
                (TrainingRequest { metric, description: text }),
            ),
            Ok(None) => r matches Err(e) && e.says("index_description not found"@),
            Err(e) => r == Err::<TrainingRequest, FaissWrapperError>(FaissWrapperError::Jni(e)),
        }
}

/// Reads a request to train an index of the given kind and dimension.
pub fn training_request(
    env: &mut JNIEnv<'_>,
    kind: IndexType,
    parameters: &JObject<'_>,
    dimension: i32,
) -> (r: Result<TrainingRequest, FaissWrapperError>)
    ensures
        asking::only_asks(*old(env), *final(env)),
        gives_training_request(kind, parameters, dimension, r),
        match r {
            Ok(request) => {
                &&& kind is Binary ==> dimension as int % 8 == 0
                &&& exists|name: Seq<char>| #[trigger]
                    faiss_wrapper::metric_of(name) == Some(request.metric)
            },
            Err(e) => {
                ||| e is Jni
                ||| is_training_refusal(e)
                ||| kind is Binary && dimension as int % 8 != 0 && e.says(
                    "Dimensions should be multiple of 8"@,
                )
            },
        },
{
    check_training(kind, jvm::is_null(parameters), dimension)?;
    let space_type = from_jvm(string_setting(env, parameters, SPACE_TYPE))?;
    let metric = match &space_type {
        Some(name) => training_metric(Some(name.as_str()))?,
        None => training_metric(None)?,
    };
    let description = from_jvm(string_setting(env, parameters, INDEX_DESCRIPTION))?;
    let description = training_description(description)?;
    Ok(TrainingRequest { metric, description })
}

/// The number of threads that Java asks for in a request to train an index, once the
/// index is made; nothing where it asks for none that can be read.
pub fn training_threads(env: &mut JNIEnv<'_>, parameters: &JObject<'_>) -> (r: Result<
    Option<i32>,
    FaissWrapperError,
>)
    ensures
        asking::only_asks(*old(env), *final(env)),
        exists|threads: JniResult<Option<i32>>| #[trigger]
            java_objects::gives_int_setting(parameters, INDEX_THREAD_QUANTITY@, threads) && r
                == lifted(threads),
{
    from_jvm(int_setting(env, parameters, INDEX_THREAD_QUANTITY))
}

/// The parameters that Java gives in a request to train an index and that its description
/// cannot hold, once the index is made; nothing where it gives none. A binary index has
/// none.
pub fn training_extra(env: &mut JNIEnv<'_>, parameters: &JObject<'_>) -> (r: Result<
    Option<StringMap<ParamValue>>,
    FaissWrapperError,
>)
    ensures
        asking::only_asks(*old(env), *final(env)),
        exists|extra: JniResult<Option<StringMap<ParamValue>>>| #[trigger]
            gives_extra(parameters, extra) && r == lifted(extra),
{
    from_jvm(extra_parameters(env, parameters))
}

/// What asking for the parameters that the description of an index cannot hold may
/// come to: they stand in a map of their own, and there may be none.
pub open spec fn gives_extra(parameters: &JObject<'_>, r: JniResult<Option<StringMap<ParamValue>>>) -> bool {
    exists|sub_parameters: JniResult<Option<JObject<'_>>>| #[trigger]
        java_objects::gives_object_setting(parameters, PARAMETERS@, sub_parameters)
            && match sub_parameters {
            Ok(Some(map)) => reads_extra(&map, r),
            Ok(None) => r == Ok::<_, jni::errors::Error>(None::<StringMap<ParamValue>>),
            Err(e) => r == Err::<Option<StringMap<ParamValue>>, jni::errors::Error>(e),
        }
}

/// What reading the parameters of the map of their own may come to.
pub open spec fn reads_extra(map: &JObject<'_>, r: JniResult<Option<StringMap<ParamValue>>>) -> bool {
    match r {
        Ok(Some(extra)) => {
            &&& gives_int_param(map, extra@, EF_CONSTRUCTION@)
            &&& gives_int_param(map, extra@, EF_SEARCH@)
            &&& gives_int_param(map, extra@, NPROBES@)
            &&& exists|quantizer: JniResult<Option<QuantizerParameters>>| #[trigger]
                gives_quantizer(map, quantizer) && match quantizer {
                    Ok(Some(q)) => {
                        let sub = faiss_index_service::sub_params(extra@, COARSE_QUANTIZER@);
                        &&& faiss_index_service::int_param(sub, EF_CONSTRUCTION@)
                            == q.ef_construction
                        &&& faiss_index_service::int_param(sub, EF_SEARCH@) == q.ef_search
                    },
                    Ok(None) => !extra@.dom().contains(COARSE_QUANTIZER@),
                    Err(_) => false,
                }
        },
        Ok(None) => false,
        Err(e) => {
            ||| java_objects::gives_int_setting(map, EF_CONSTRUCTION@, Err(e))
            ||| java_objects::gives_int_setting(map, EF_SEARCH@, Err(e))
            ||| java_objects::gives_int_setting(map, NPROBES@, Err(e))
            ||| gives_quantizer(map, Err(e))
        },
    }
}

/// The number that a parameter is given is what a Java map gives.
pub open spec fn gives_int_param(
    map: &JObject<'_>,
    parameters: Map<Seq<char>, ParamValue>,
    key: Seq<char>,
) -> bool {
    java_objects::gives_int_setting(
        map,
        key,
        Ok(faiss_index_service::int_param(parameters, key)),
    )
}

/// What reading the parameters of a coarse quantizer may come to: they stand in a map of
/// their own, and there may be none.
pub open spec fn gives_quantizer(
    map: &JObject<'_>,
    r: JniResult<Option<QuantizerParameters>>,
) -> bool {
    exists|quantizer: JniResult<Option<JObject<'_>>>| #[trigger]
        java_objects::gives_object_setting(map, COARSE_QUANTIZER@, quantizer) && match quantizer {
            Ok(Some(sub)) => match r {
                Ok(Some(q)) => {
                    &&& java_objects::gives_int_setting(
                        &sub,
                        EF_CONSTRUCTION@,
                        Ok(q.ef_construction),
                    )
                    &&& java_objects::gives_int_setting(&sub, EF_SEARCH@, Ok(q.ef_search))
                },
                Ok(None) => false,
                Err(e) => {
                    ||| java_objects::gives_int_setting(&sub, EF_CONSTRUCTION@, Err(e))
                    ||| java_objects::gives_int_setting(&sub, EF_SEARCH@, Err(e))
                },
            },
            Ok(None) => r == Ok::<_, jni::errors::Error>(None::<QuantizerParameters>),
            Err(e) => r == Err::<Option<QuantizerParameters>, jni::errors::Error>(e),
        }
}

/// The parameters of a coarse quantizer, where Java gives any.
fn quantizer_parameters(env: &mut JNIEnv<'_>, map: &JObject<'_>) -> (r: JniResult<
    Option<QuantizerParameters>,
>)
    ensures
        asking::only_asks(*old(env), *final(env)),
        gives_quantizer(map, r),
{
    match object_setting(env, map, COARSE_QUANTIZER)? {
        Some(sub) => {
            let ef_construction = int_setting(env, &sub, EF_CONSTRUCTION)?;
            let ef_search = int_setting(env, &sub, EF_SEARCH)?;
            Ok(Some(QuantizerParameters { ef_construction, ef_search }))
        },
        None => Ok(None),
    }
}

/// The parameters that the description of an index cannot hold, where Java gives
/// any.
fn extra_parameters(env: &mut JNIEnv<'_>, parameters: &JObject<'_>) -> (extra: JniResult<
    Option<StringMap<ParamValue>>,
>)
    ensures
        asking::only_asks(*old(env), *final(env)),
        gives_extra(parameters, extra),
{
    match object_setting(env, parameters, PARAMETERS)? {
        Some(sub_parameters) => {
            let ef_construction = int_setting(env, &sub_parameters, EF_CONSTRUCTION)?;
            let ef_search = int_setting(env, &sub_parameters, EF_SEARCH)?;
            let nprobes = int_setting(env, &sub_parameters, NPROBES)?;
            let quantizer = quantizer_parameters(env, &sub_parameters)?;
            Ok(Some(training_parameters(ef_construction, ef_search, nprobes, quantizer)))
        },
        None => Ok(None),
    }
}

/// The number of threads that Java asks for, where it does.
pub fn template_threads(env: &mut JNIEnv<'_>, parameters: &JObject<'_>) -> (r: Result<
    Option<i32>,
    FaissWrapperError,
>)
    ensures
        asking::only_asks(*old(env), *final(env)),
        ({
            ||| jvm::is_null_answers(parameters, true) && r == Ok::<_, FaissWrapperError>(None::<i32>)
            ||| jvm::is_null_answers(parameters, false) && exists|answer: JniResult<Option<i32>>|
                #[trigger] java_objects::gives_int_setting(
                    parameters,
                    INDEX_THREAD_QUANTITY@,
                    answer,
                ) && r == lifted(answer)
        }),
{
    if jvm::is_null(parameters) {
        return Ok(None);
    }
    from_jvm(int_setting(env, parameters, INDEX_THREAD_QUANTITY))
}

/// How a search is to be run: the size of its candidate list and how many cells it
/// probes, as far as Java asks for them.
#[derive(Debug, Clone, Copy, PartialEq, Eq)]
pub struct SearchRequest {
    pub ef_search: Option<i32>,
    pub nprobes: Option<i32>,
}

/// What asking how a search for neighbours is to be run may come to.
pub open spec fn gives_search_request(
    method_params: &JObject<'_>,
    r: Result<SearchRequest, FaissWrapperError>,
) -> bool {
    match r {
        Ok(request) => {
            ||| {
                &&& jvm::is_null_answers(method_params, true)
                &&& request.ef_search is None && request.nprobes is None
            }
            ||| {
                &&& jvm::is_null_answers(method_params, false)
                &&& java_objects::gives_int_setting(
                    method_params,
                    EF_SEARCH@,
                    Ok(request.ef_search),
                )
                &&& java_objects::gives_int_setting(method_params, NPROBES@, Ok(request.nprobes))
            }
        },
        Err(FaissWrapperError::Jni(e)) => {
            &&& jvm::is_null_answers(method_params, false)
            &&& {
                ||| java_objects::gives_int_setting(method_params, EF_SEARCH@, Err(e))
                ||| java_objects::gives_int_setting(method_params, NPROBES@, Err(e))
            }
        },
        Err(_) => false,
    }
}

/// What asking how a range search is to be run may come to.
pub open spec fn gives_range_search_request(
    method_params: &JObject<'_>,
    r: Result<SearchRequest, FaissWrapperError>,
) -> bool {
    match r {
        Ok(request) => {
            &&& request.nprobes is None
            &&& {
                ||| jvm::is_null_answers(method_params, true) && request.ef_search is None
                ||| {
                    &&& jvm::is_null_answers(method_params, false)
                    &&& java_objects::gives_int_setting(
                        method_params,
                        EF_SEARCH@,
                        Ok(request.ef_search),
                    )
                }
            }
        },
        Err(FaissWrapperError::Jni(e)) => {
            &&& jvm::is_null_answers(method_params, false)
            &&& java_objects::gives_int_setting(method_params, EF_SEARCH@, Err(e))
        },
        Err(_) => false,
    }
}

/// Reads how a search for neighbours is to be run.
pub fn search_request(env: &mut JNIEnv<'_>, method_params: &JObject<'_>) -> (r: Result<
    SearchRequest,
    FaissWrapperError,
>)
    ensures
        asking::only_asks(*old(env), *final(env)),
        gives_search_request(method_params, r),
{
    if jvm::is_null(method_params) {
        return Ok(SearchRequest { ef_search: None, nprobes: None });
    }
    let ef_search = from_jvm(int_setting(env, method_params, EF_SEARCH))?;
    let nprobes = from_jvm(int_setting(env, method_params, NPROBES))?;
    Ok(SearchRequest { ef_search, nprobes })
}

/// Reads how a range search is to be run: only the size of the candidate list counts.
pub fn range_search_request(env: &mut JNIEnv<'_>, method_params: &JObject<'_>) -> (r: Result<
    SearchRequest,
    FaissWrapperError,
>)
    ensures
        asking::only_asks(*old(env), *final(env)),
        gives_range_search_request(method_params, r),
{
    if jvm::is_null(method_params) {
        return Ok(SearchRequest { ef_search: None, nprobes: None });
    }
    let ef_search = from_jvm(int_setting(env, method_params, EF_SEARCH))?;
    Ok(SearchRequest { ef_search, nprobes: None })
}

/// The ids of a filter; nothing where there is no filter.
pub fn filter_ids(env: &mut JNIEnv<'_>, filter: &JObject<'_>) -> (r: Result<
    Option<Vec<i64>>,
    FaissWrapperError,
>)
    ensures
        asking::only_asks(*old(env), *final(env)),
        match r {
            Ok(Some(ids)) => {
                &&& jvm::is_null_answers(filter, false)
                &&& java_objects::reads_longs(filter, Ok(ids))
            },
            Ok(None) => jvm::is_null_answers(filter, true),
            Err(FaissWrapperError::Jni(e)) => {
                &&& jvm::is_null_answers(filter, false)
                &&& java_objects::reads_longs(filter, Err(e))
            },
            Err(_) => false,
        },
{
    if jvm::is_null(filter) {
        return Ok(None);
    }
    let ids = from_jvm(longs_of(env, filter))?;
    Ok(Some(ids))
}

/// What reading the ids of parent documents may come to.
pub open spec fn gives_parent_ids(
    parents: &JObject<'_>,
    r: Result<Option<Vec<i32>>, FaissWrapperError>,
) -> bool {
    ||| jvm::is_null_answers(parents, true) && r == Ok::<_, FaissWrapperError>(None::<Vec<i32>>)
    ||| jvm::is_null_answers(parents, false) && exists|length: JniResult<i32>| #[trigger]
        jvm::get_array_length_answers(parents, length) && match length {
            Ok(n) => exists|ids: JniResult<Vec<i32>>| #[trigger]
                jvm::get_int_array_region_answers(parents, java_objects::element_count(n), ids)
                    && match ids {
                    Ok(numbers) => r == Ok::<_, FaissWrapperError>(Some(numbers)),
                    Err(e) => r matches Err(FaissWrapperError::Runtime(text))
                        && java_objects::tells_of(e, "Failed to get parent IDs: "@, text@),
                },
            Err(e) => r matches Err(FaissWrapperError::Runtime(text)) && java_objects::tells_of(
                e,
                "Failed to get parent IDs length: "@,
                text@,
            ),
        }
}

/// The ids of parent documents; nothing where there are none.
pub fn parent_ids(env: &mut JNIEnv<'_>, parents: &JObject<'_>) -> (r: Result<
    Option<Vec<i32>>,
    FaissWrapperError,
>)
    ensures
        asking::only_asks(*old(env), *final(env)),
        gives_parent_ids(parents, r),
{
    if jvm::is_null(parents) {
        return Ok(None);
    }
    let length = asking::ask_length(env, parents);
    assert(jvm::get_array_length_answers(parents, length));
    let length = match or_tell(length, "Failed to get parent IDs length: ") {
        Ok(length) => length,
        Err(text) => return Err(FaissWrapperError::Runtime(text)),
    };
    let ids = jvm::get_int_array_region(env, parents, java_objects::buffer_size(length));
    assert(jvm::get_int_array_region_answers(parents, java_objects::element_count(length), ids));
    match or_tell(ids, "Failed to get parent IDs: ") {
        Ok(ids) => Ok(Some(ids)),
        Err(text) => Err(FaissWrapperError::Runtime(text)),
    }
}

/// How many ids of vectors there are.
pub fn id_count(env: &mut JNIEnv<'_>, ids: &JObject<'_>) -> (r: Result<usize, FaissWrapperError>)
    ensures
        asking::only_asks(*old(env), *final(env)),
        match r {
            Ok(count) => exists|length: i32| #[trigger]
                jvm::get_array_length_answers(ids, Ok(length)) && count
                    == java_objects::element_count(length),
            Err(FaissWrapperError::Jni(e)) => jvm::get_array_length_answers(ids, Err(e)),
            Err(_) => false,
        },
{
    let length = asking::ask_length(env, ids);
    assert(jvm::get_array_length_answers(ids, length));
    let length = from_jvm(length)?;
    Ok(buffer_size(length))
}

/// The first `count` ids of vectors, in 64 bits.
pub fn vector_ids(env: &mut JNIEnv<'_>, ids: &JObject<'_>, count: usize) -> (r: Result<
    Vec<i64>,
    FaissWrapperError,
>)
    ensures
        asking::only_asks(*old(env), *final(env)),
        match r {
            Ok(wide) => exists|numbers: Vec<i32>| #[trigger]
                jvm::get_int_array_region_answers(ids, count as int, Ok(numbers)) && wide@
                    == jni_util::widened(numbers@) && wide@.len() == count,
            Err(FaissWrapperError::Jni(e)) => jvm::get_int_array_region_answers(
                ids,
                count as int,
                Err(e),
            ),
            Err(_) => false,
        },
{
    let numbers = jvm::get_int_array_region(env, ids, count);
    assert(jvm::get_int_array_region_answers(ids, count as int, numbers));
    let numbers = from_jvm(numbers)?;
    Ok(jni_util::widen(&numbers))
}

/// The path that a Java string holds.
pub fn index_path(env: &mut JNIEnv<'_>, path: &JObject<'_>) -> (r: Result<String, FaissWrapperError>)
    ensures
        asking::only_asks(*old(env), *final(env)),
        match r {
            Ok(text) => {
                &&& jvm::is_null_answers(path, false)
                &&& jvm::get_string_answers(path, Ok(text))
            },
            Err(FaissWrapperError::Jni(e)) => {
                &&& jvm::is_null_answers(path, false)
                &&& jvm::get_string_answers(path, Err(e))
            },
            Err(e) => jvm::is_null_answers(path, true) && e.says("Index path cannot be null"@),
        },
{
    check_index_path(jvm::is_null(path))?;
    from_jvm(asking::ask_string(env, path))
}

/// What is said of parameters with which no index can be loaded for asymmetric
/// distances.
pub open spec fn is_adc_refusal(e: FaissWrapperError) -> bool {
    ||| e.says("Method params cannot be null"@)
    ||| e.says("Quantization level not specified in params"@)
    ||| e.says("load adc stream called without a quantization level"@)
    ||| e.says("space type not specified in params"@)
    ||| e.says("ADC not supported for 2 or 4 bit."@)
    ||| exists|name: Seq<char>|
        #[trigger] faiss_wrapper::metric_of(name) is None && e.says("Invalid spaceType: "@ + name)
}

/// What reading the metric of an index with asymmetric distances may come to.
pub open spec fn gives_adc_metric(
    method_params: &JObject<'_>,
    r: Result<FaissMetricType, FaissWrapperError>,
) -> bool {
    ||| {
        &&& jvm::is_null_answers(method_params, true)
        &&& r matches Err(e) && e.says("Method params cannot be null"@)
    }
    ||| jvm::is_null_answers(method_params, false) && exists|level: JniResult<Option<String>>|
        #[trigger] java_objects::gives_string_setting(
            method_params,
            QUANTIZATION_LEVEL_FAISS_INDEX_LOAD_PARAMETER_JAVA_KNN_CONSTANTS@,
            level,
        ) && match level {
            Ok(Some(text)) => match jni_util::quantization_level(text@) {
                Some(l) => reads_adc_space(l, method_params, r),
                None => r matches Err(e) && e.says(
                    "load adc stream called without a quantization level"@,
                ),
            },
            Ok(None) => r matches Err(e) && e.says("Quantization level not specified in params"@),
            Err(e) => r == Err::<FaissMetricType, FaissWrapperError>(FaissWrapperError::Jni(e)),
        }
}

/// What reading the space of an index with asymmetric distances may come to.
pub open spec fn reads_adc_space(
    level: jni_util::BQQuantizationLevel,
    method_params: &JObject<'_>,
    r: Result<FaissMetricType, FaissWrapperError>,
) -> bool {
    exists|space_type: JniResult<Option<String>>| #[trigger]
        java_objects::gives_string_setting(
            method_params,
            SPACE_TYPE_FAISS_INDEX_JAVA_KNN_CONSTANTS@,
            space_type,
        ) && match space_type {
            Ok(text) => {
                let name = match text {
                    Some(t) => Some(t@),
                    None => None,
                };
                match r {
                    Ok(metric) => {
                        &&& faiss_wrapper::adc_refusal(level, name) is None
                        &&& faiss_wrapper::metric_of(name->0) == Some(metric)
                    },
                    Err(e) => {
                        &&& faiss_wrapper::adc_refusal(level, name) is Some
                        &&& e.says(faiss_wrapper::adc_refusal(level, name)->0)
                    },
                }
            },
            Err(e) => r == Err::<FaissMetricType, FaissWrapperError>(FaissWrapperError::Jni(e)),
        }
}

/// The metric of an index that Java asks to be loaded for asymmetric distances.
pub fn adc_metric(env: &mut JNIEnv<'_>, method_params: &JObject<'_>) -> (r: Result<
    FaissMetricType,
    FaissWrapperError,
>)
    ensures
        asking::only_asks(*old(env), *final(env)),
        gives_adc_metric(method_params, r),
        match r {
            Ok(metric) => exists|name: Seq<char>| #[trigger]
                faiss_wrapper::metric_of(name) == Some(metric),
            Err(e) => e is Jni || is_adc_refusal(e),
        },
{
    check_adc_parameters(jvm::is_null(method_params))?;
    let level = from_jvm(
        string_setting(
            env,
            method_params,
            QUANTIZATION_LEVEL_FAISS_INDEX_LOAD_PARAMETER_JAVA_KNN_CONSTANTS,
        ),
    )?;
    let level = match &level {
        Some(text) => adc_quantization_level(Some(text.as_str()))?,
        None => adc_quantization_level(None)?,
    };
    let space_type = from_jvm(
        string_setting(env, method_params, SPACE_TYPE_FAISS_INDEX_JAVA_KNN_CONSTANTS),
    )?;
    match &space_type {
        Some(name) => load_index_with_stream_adc_params(level, Some(name.as_str())),
        None => load_index_with_stream_adc_params(level, None),
    }
}

/// What making a query result and putting it at an index of a Java array may come to:
/// one object is made and put there, and nothing else is called.
pub open spec fn places_result<'local>(
    before: JNIEnv<'local>,
    class: &JObject<'_>,
    array: &JObject<'_>,
    index: i32,
    result: QueryResult<u32>,
    r: JniResult<()>,
    after: JNIEnv<'local>,
) -> bool {
    exists|object: JniResult<JObject<'local>>, with_object: JNIEnv<'local>| #[trigger]
        jvm::makes_object_once(
            before,
            class,
            "(IF)V"@,
            result.id,
            result.distance,
            object,
            with_object,
        ) && match object {
            Ok(o) => exists|set: JniResult<()>| #[trigger]
                jvm::sets_element_once(with_object, array, index, &o, set, after) && match set {
                    Ok(_) => jvm::delete_local_ref_answers(o, r),
                    Err(e) => r == Err::<(), jni::errors::Error>(e),
                },
            Err(e) => r == Err::<(), jni::errors::Error>(e) && with_object == after,
        }
}

/// The first results were put into a Java array one after the other, each at its index
/// and from one environment of `passed` to the next.
pub open spec fn placed_first<'local>(
    passed: Seq<JNIEnv<'local>>,
    class: &JObject<'_>,
    array: &JObject<'_>,
    results: Seq<QueryResult<u32>>,
) -> bool {
    &&& 1 <= passed.len() <= results.len() + 1
    &&& forall|k: int|
        0 <= k < passed.len() - 1 ==> places_result(
            passed[k],
            class,
            array,
            k as i32,
            #[trigger] results[k],
            Ok(()),
            passed[k + 1],
        )
}

/// What putting the results of a query into a Java array may come to: each stands at
/// its index, or one cannot be put there once those before it are.
pub open spec fn places_results<'local>(
    before: JNIEnv<'local>,
    class: &JObject<'_>,
    array: &JObject<'_>,
    results: Seq<QueryResult<u32>>,
    r: JniResult<()>,
    after: JNIEnv<'local>,
) -> bool {
    exists|passed: Seq<JNIEnv<'local>>|
        {
            &&& #[trigger] placed_first(passed, class, array, results)
            &&& passed.first() == before
            &&& match r {
                Ok(_) => passed.len() == results.len() + 1 && passed.last() == after,
                Err(e) => {
                    &&& passed.len() <= results.len()
                    &&& places_result(
                        passed.last(),
                        class,
                        array,
                        (passed.len() - 1) as i32,
                        results[passed.len() - 1],
                        Err(e),
                        after,
                    )
                },
            }
        }
}

/// What making a Java array of the results of a query may come to, where their class
/// is known: an array of their number is made, and they are put into it.
pub open spec fn makes_array<'local>(
    before: JNIEnv<'local>,
    class: &JObject<'_>,
    results: Seq<QueryResult<u32>>,
    r: JniResult<JObject<'local>>,
    after: JNIEnv<'local>,
) -> bool {
    exists|
        initial: JObject<'static>,
        array: JniResult<JObject<'local>>,
        with_array: JNIEnv<'local>,
    |
        {
            &&& jvm::null_object_answers(initial)
            &&& #[trigger] jvm::makes_object_array_once(
                before,
                results.len() as i32,
                class,
                &initial,
                array,
                with_array,
            )
            &&& match array {
                Ok(a) => exists|placed: JniResult<()>| #[trigger]
                    places_results(with_array, class, &a, results, placed, after) && r
                        == match placed {
                        Ok(_) => Ok(a),
                        Err(e) => Err(e),
                    },
                Err(e) => r == Err::<JObject<'local>, jni::errors::Error>(e) && with_array == after,
            }
        }
}

/// What handing the results of a query to Java may come to: an array of objects of
/// their class, which has the constructor for them.
pub open spec fn makes_results<'local>(
    before: JNIEnv<'local>,
    results: Seq<QueryResult<u32>>,
    r: JniResult<JObject<'local>>,
    after: JNIEnv<'local>,
) -> bool {
    exists|class: JniResult<JObject<'local>>, with_class: JNIEnv<'local>| #[trigger]
        jvm::finds_class_once(
            before,
            "org/opensearch/knn/index/query/KNNQueryResult"@,
            class,
            with_class,
        ) && match class {
            Ok(c) => exists|
                constructor: JniResult<jni::objects::JMethodID>,
                with_constructor: JNIEnv<'local>,
            | #[trigger]
                jvm::gets_method_id_once(
                    with_class,
                    &c,
                    "<init>"@,
                    "(IF)V"@,
                    constructor,
                    with_constructor,
                ) && match constructor {
                    Ok(_) => makes_array(with_constructor, &c, results, r, after),
                    Err(e) => r == Err::<JObject<'local>, jni::errors::Error>(e) && with_constructor == after,
                },
            Err(e) => r == Err::<JObject<'local>, jni::errors::Error>(e) && with_class == after,
        }
}

/// The results of a query as a Java array; distances are bit patterns.
pub fn result_array<'local>(env: &mut JNIEnv<'local>, results: &Vec<QueryResult<u32>>) -> (r: Result<
    JObject<'local>,
    FaissWrapperError,
>)
    ensures
        exists|answer: JniResult<JObject<'local>>| #[trigger]
            makes_results(*old(env), results@, answer, *final(env)) && r == lifted(answer),
{
    from_jvm(make_results(env, results))
}

fn make_results<'local>(env: &mut JNIEnv<'local>, results: &Vec<QueryResult<u32>>) -> (r: JniResult<
    JObject<'local>,
>)
    ensures
        makes_results(*old(env), results@, r, *final(env)),
{
    let (class, passage) = jvm::find_class_once(
        env,
        "org/opensearch/knn/index/query/KNNQueryResult",
    );
    let ghost with_class = *env;
    assert(jvm::finds_class_once(
        *old(env),
        "org/opensearch/knn/index/query/KNNQueryResult"@,
        class,
        with_class,
    ));
    let class = class?;
    let (constructor, passage) = jvm::get_method_id_once(env, &class, "<init>", "(IF)V");
    assert(jvm::gets_method_id_once(
        with_class,
        &class,
        "<init>"@,
        "(IF)V"@,
        constructor,
        *env,
    ));
    constructor?;
    make_array(env, &class, results)
}

fn make_array<'local>(
    env: &mut JNIEnv<'local>,
    class: &JObject<'_>,
    results: &Vec<QueryResult<u32>>,
) -> (r: JniResult<JObject<'local>>)
    ensures
        makes_array(*old(env), class, results@, r, *final(env)),
{
    let initial = jvm::null_object();
    let (array, passage) = jvm::new_object_array_once(
        env,
        #[verifier::truncate]
        (results.len() as i32),
        class,
        &initial,
    );
    let ghost with_array = *env;
    assert(jvm::makes_object_array_once(
        *old(env),
        results@.len() as i32,
        class,
        &initial,
        array,
        with_array,
    ));
    let array = array?;
    let placed = place_results(env, class, &array, results);
    assert(places_results(with_array, class, &array, results@, placed, *env));
    placed?;
    Ok(array)
}

/// Puts the results of a query into a Java array.
fn place_results<'local>(
    env: &mut JNIEnv<'local>,
    class: &JObject<'_>,
    array: &JObject<'_>,
    results: &Vec<QueryResult<u32>>,
) -> (r: JniResult<()>)
    ensures
        places_results(*old(env), class, array, results@, r, *final(env)),
{
    let ghost start = *env;
    let ghost mut passed: Seq<JNIEnv<'local>> = seq![*env];
    let mut i: usize = 0;
    while i < results.len()
        invariant
            i <= results@.len(),
            passed.len() == i + 1,
            placed_first(passed, class, array, results@),
            passed.first() == start,
            passed.last() == *env,
            start == *old(env),
        decreases results.len() - i,
    {
        let index = #[verifier::truncate] (i as i32);
        match place_result(env, class, array, index, &results[i]) {
            Ok(done) => {
                proof {
                    assert(done == ());
                    let next = passed.push(*env);
                    assert(places_result(
                        passed.last(),
                        class,
                        array,
                        i as i32,
                        results@[i as int],
                        Ok(()),
                        *env,
                    ));
                    assert(placed_first(next, class, array, results@));
                    passed = next;
                }
            },
            Err(e) => {
                let r = Err(e);
                assert(places_result(
                    passed.last(),
                    class,
                    array,
                    i as i32,
                    results@[i as int],
                    Err(r->Err_0),
                    *env,
                ));
                assert(places_results(start, class, array, results@, r, *env));
                return r;
            },
        }
        i += 1;
    }
    Ok(())
}

/// Makes a query result and puts it at an index of a Java array.
fn place_result(
    env: &mut JNIEnv<'_>,
    class: &JObject<'_>,
    array: &JObject<'_>,
    index: i32,
    result: &QueryResult<u32>,
) -> (r: JniResult<()>)
    ensures
        places_result(*old(env), class, array, index, *result, r, *final(env)),
{
    proof {
        jvm::lemma_signatures_plain();
    }
    let (object, passage) = jvm::new_object_once(
        env,
        class,
        "(IF)V",
        result.id,
        result.distance,
    );
    let ghost with_object = *env;
    assert(jvm::makes_object_once(
        *old(env),
        class,
        "(IF)V"@,
        result.id,
        result.distance,
        object,
        with_object,
    ));
    let object = object?;
    let (set, passage) = jvm::set_object_array_element_once(env, array, index, &object);
    assert(jvm::sets_element_once(with_object, array, index, &object, set, *env));
    set?;
    jvm::delete_local_ref(env, object)
}

/// A request to train an index has the metric of the space and the description that the Java map
/// has under these names, and parameters that are no null reference.
pub proof fn lemma_training_request(
    env: &mut JNIEnv<'_>,
    kind: IndexType,
    parameters: &JObject<'_>,
    dimension: i32,
    r: Result<TrainingRequest, FaissWrapperError>,
)
    requires
        call_ensures(training_request, (env, kind, parameters, dimension), r),
        r is Ok,
    ensures
        jvm::is_null_answers(parameters, false),
        java_objects::got_text(parameters, "index_description"@, r->Ok_0.description),
        exists|name: String| #[trigger]
            java_objects::got_text(parameters, "spaceType"@, name) && r->Ok_0.metric == if name@
                == "l2"@ || name@ == "hamming"@ {
                1int
            } else {
                0
            } && (r->Ok_0.metric == 1 || name@ == "innerproduct"@ || name@ == "cosinesimil"@),
{
    let request = r->Ok_0;
    let space_type = choose|space_type: JniResult<Option<String>>| #[trigger]
        java_objects::gives_string_setting(parameters, SPACE_TYPE@, space_type)
            && match space_type {
            Ok(Some(name)) => match faiss_wrapper::metric_of(name@) {
                Some(metric) => reads_training_description(parameters, metric, r),
                None => false,
            },
            _ => false,
        };
    let name = space_type->Ok_0->Some_0;
    java_objects::lemma_text_is_got(parameters, "spaceType"@, name);
    let metric = faiss_wrapper::metric_of(name@)->0;
    let description = choose|description: JniResult<Option<String>>| #[trigger]
        java_objects::gives_string_setting(parameters, INDEX_DESCRIPTION@, description)
            && match description {
            Ok(Some(text)) => r == Ok::<_, FaissWrapperError>(
                (TrainingRequest { metric, description: text }),
            ),
            _ => false,
        };
    java_objects::lemma_text_is_got(
        parameters,
        "index_description"@,
        description->Ok_0->Some_0,
    );
    faiss_wrapper::lemma_spaces_differ();
    assert(java_objects::got_text(parameters, "spaceType"@, name));
}

/// The number of threads is what the Java map has under its name, and there is none only where the
/// map has none.
pub proof fn lemma_threads_are_read(
    parameters: &JObject<'_>,
    training_env: &mut JNIEnv<'_>,
    training: Result<Option<i32>, FaissWrapperError>,
    template_env: &mut JNIEnv<'_>,
    template: Result<Option<i32>, FaissWrapperError>,
)
    requires
        call_ensures(training_threads, (training_env, parameters), training),
        call_ensures(template_threads, (template_env, parameters), template),
    ensures
        training matches Ok(Some(n)) ==> java_objects::got_int(parameters, "indexThreadQty"@, n),
        training matches Ok(Some(_)) || java_objects::got_no_int(parameters, "indexThreadQty"@),
        template matches Ok(Some(n)) ==> {
            &&& jvm::is_null_answers(parameters, false)
            &&& java_objects::got_int(parameters, "indexThreadQty"@, n)
        },
        template matches Ok(Some(_)) || jvm::is_null_answers(parameters, true)
            || java_objects::got_no_int(parameters, "indexThreadQty"@),
{
    if !(training matches Ok(Some(_))) {
        let threads = choose|threads: JniResult<Option<i32>>| #[trigger]
            java_objects::gives_int_setting(parameters, INDEX_THREAD_QUANTITY@, threads)
                && training == lifted(threads);
        java_objects::lemma_no_int_is_got(parameters, "indexThreadQty"@, threads);
    }
    if !(template matches Ok(Some(_))) && !jvm::is_null_answers(parameters, true) {
        let threads = choose|threads: JniResult<Option<i32>>| #[trigger]
            java_objects::gives_int_setting(parameters, INDEX_THREAD_QUANTITY@, threads)
                && template == lifted(threads);
        java_objects::lemma_no_int_is_got(parameters, "indexThreadQty"@, threads);
    }
    if let Ok(Some(n)) = training {
        assert(java_objects::gives_int_setting(parameters, INDEX_THREAD_QUANTITY@, Ok(Some(n))));
        java_objects::lemma_int_is_got(parameters, "indexThreadQty"@, n);
    }
    if let Ok(Some(n)) = template {
        assert(java_objects::gives_int_setting(parameters, INDEX_THREAD_QUANTITY@, Ok(Some(n))));
        java_objects::lemma_int_is_got(parameters, "indexThreadQty"@, n);
    }
}

/// The numbers among these parameters are those that a Java map has under their names, and those of
/// the coarse quantizer are those that the map under its name has.
pub open spec fn has_numbers_of(map: &JObject<'_>, extra: Map<Seq<char>, ParamValue>) -> bool {
    &&& extra.dom().contains("ef_construction"@) ==> (
    extra["ef_construction"@] matches ParamValue::Int(n) ==> java_objects::got_int(
        map,
        "ef_construction"@,
        n,
    ))
    &&& extra.dom().contains("ef_search"@) ==> (
    extra["ef_search"@] matches ParamValue::Int(n) ==> java_objects::got_int(
        map,
        "ef_search"@,
        n,
    ))
    &&& extra.dom().contains("nprobes"@) ==> (
    extra["nprobes"@] matches ParamValue::Int(n) ==> java_objects::got_int(
        map,
        "nprobes"@,
        n,
    ))
    &&& forall|n: i32|
        faiss_index_service::quantizer_has(extra, "ef_construction"@, n)
            ==> #[trigger] quantizer_got(map, "ef_construction"@, n)
    &&& forall|n: i32|
        faiss_index_service::quantizer_has(extra, "ef_search"@, n)
            ==> #[trigger] quantizer_got(map, "ef_search"@, n)
}

/// The parameters that a description cannot hold are what the Java map of parameters has under
/// their names, and those of the coarse quantizer are what the map under its name has.
pub proof fn lemma_extra_is_read(
    env: &mut JNIEnv<'_>,
    parameters: &JObject<'_>,
    r: Result<Option<StringMap<ParamValue>>, FaissWrapperError>,
    extra: StringMap<ParamValue>,
)
    requires
        call_ensures(training_extra, (env, parameters), r),
        r == Ok::<_, FaissWrapperError>(Some(extra)),
    ensures
        exists|map: JObject<'_>|
            {
                &&& #[trigger] java_objects::got(parameters, "parameters"@, map)
                &&& jvm::is_null_answers(&map, false)
                &&& has_numbers_of(&map, extra@)
            },
{
    let answer = choose|answer: JniResult<Option<StringMap<ParamValue>>>| #[trigger]
        gives_extra(parameters, answer) && r == lifted(answer);
    assert(answer == Ok::<_, jni::errors::Error>(Some(extra)));
    let sub_parameters = choose|sub_parameters: JniResult<Option<JObject<'_>>>| #[trigger]
        java_objects::gives_object_setting(parameters, PARAMETERS@, sub_parameters)
            && match sub_parameters {
            Ok(Some(map)) => reads_extra(&map, answer),
            _ => false,
        };
    let map = sub_parameters->Ok_0->Some_0;
    java_objects::lemma_object_is_got(parameters, "parameters"@, map);
    if let Some(n) = faiss_index_service::int_param(extra@, "ef_construction"@) {
        java_objects::lemma_int_is_got(&map, "ef_construction"@, n);
    }
    if let Some(n) = faiss_index_service::int_param(extra@, "ef_search"@) {
        java_objects::lemma_int_is_got(&map, "ef_search"@, n);
    }
    if let Some(n) = faiss_index_service::int_param(extra@, "nprobes"@) {
        java_objects::lemma_int_is_got(&map, "nprobes"@, n);
    }
    let quantizer = choose|quantizer: JniResult<Option<QuantizerParameters>>| #[trigger]
        gives_quantizer(&map, quantizer) && match quantizer {
            Ok(Some(q)) => {
                let sub = faiss_index_service::sub_params(extra@, COARSE_QUANTIZER@);
                &&& faiss_index_service::int_param(sub, EF_CONSTRUCTION@) == q.ef_construction
                &&& faiss_index_service::int_param(sub, EF_SEARCH@) == q.ef_search
            },
            Ok(None) => !extra@.dom().contains(COARSE_QUANTIZER@),
            Err(_) => false,
        };
    if let Ok(Some(q)) = quantizer {
        lemma_quantizer_got(&map, q);
    }
    assert forall|n: i32|
        faiss_index_service::quantizer_has(extra@, "ef_construction"@, n) implies #[trigger] quantizer_got(
        &map,
        "ef_construction"@,
        n,
    ) by {
        let q = quantizer->Ok_0->Some_0;
        assert(q.ef_construction == Some(n));
    }
    assert forall|n: i32|
        faiss_index_service::quantizer_has(extra@, "ef_search"@, n) implies #[trigger] quantizer_got(
        &map,
        "ef_search"@,
        n,
    ) by {
        let q = quantizer->Ok_0->Some_0;
        assert(q.ef_search == Some(n));
    }
    assert(has_numbers_of(&map, extra@));
    assert(java_objects::got(parameters, "parameters"@, map));
}

/// A Java map has a map for the coarse quantizer, and that has this number for the key.
pub open spec fn quantizer_got(map: &JObject<'_>, key: Seq<char>, n: i32) -> bool {
    exists|sub: JObject<'_>|
        {
            &&& #[trigger] java_objects::got(map, "coarse_quantizer"@, sub)
            &&& jvm::is_null_answers(&sub, false)
            &&& java_objects::got_int(&sub, key, n)
        }
}

proof fn lemma_quantizer_got(map: &JObject<'_>, q: QuantizerParameters)
    requires
        gives_quantizer(map, Ok(Some(q))),
    ensures
        q.ef_construction matches Some(n) ==> quantizer_got(map, "ef_construction"@, n),
        q.ef_search matches Some(n) ==> quantizer_got(map, "ef_search"@, n),
{
    let quantizer = choose|quantizer: JniResult<Option<JObject<'_>>>| #[trigger]
        java_objects::gives_object_setting(map, COARSE_QUANTIZER@, quantizer) && match quantizer {
            Ok(Some(sub)) => {
                &&& java_objects::gives_int_setting(&sub, EF_CONSTRUCTION@, Ok(q.ef_construction))
                &&& java_objects::gives_int_setting(&sub, EF_SEARCH@, Ok(q.ef_search))
            },
            _ => false,
        };
    let sub = quantizer->Ok_0->Some_0;
    java_objects::lemma_object_is_got(map, "coarse_quantizer"@, sub);
    if let Some(n) = q.ef_construction {
        java_objects::lemma_int_is_got(&sub, "ef_construction"@, n);
    }
    if let Some(n) = q.ef_search {
        java_objects::lemma_int_is_got(&sub, "ef_search"@, n);
    }
    assert(java_objects::got(map, "coarse_quantizer"@, sub));
}

/// How a search is to be run is what the Java map has under the names of the numbers; a range search
/// takes only the size of its candidate list from it. Without a map there is no number, and a number
/// is missing only where the map does not give it.
pub proof fn lemma_search_request(
    method_params: &JObject<'_>,
    env: &mut JNIEnv<'_>,
    r: Result<SearchRequest, FaissWrapperError>,
    range_env: &mut JNIEnv<'_>,
    range: Result<SearchRequest, FaissWrapperError>,
)
    requires
        call_ensures(search_request, (env, method_params), r),
        call_ensures(range_search_request, (range_env, method_params), range),
    ensures
        r matches Ok(request) ==> {
            &&& request.ef_search matches Some(n) ==> java_objects::got_int(
                method_params,
                "ef_search"@,
                n,
            ) && jvm::is_null_answers(method_params, false)
            &&& request.nprobes matches Some(n) ==> java_objects::got_int(
                method_params,
                "nprobes"@,
                n,
            ) && jvm::is_null_answers(method_params, false)
        },
        range matches Ok(request) ==> {
            &&& request.ef_search matches Some(n) ==> java_objects::got_int(
                method_params,
                "ef_search"@,
                n,
            ) && jvm::is_null_answers(method_params, false)
            &&& request.nprobes is None
        },
        r matches Err(e) ==> e is Jni,
        range matches Err(e) ==> e is Jni,
        !(r matches Ok(_)) ==> java_objects::got_no_int(method_params, "ef_search"@)
            || java_objects::got_no_int(method_params, "nprobes"@),
        !(range matches Ok(_)) ==> java_objects::got_no_int(method_params, "ef_search"@),
        r matches Ok(request) ==> {
            &&& request.ef_search is None ==> jvm::is_null_answers(method_params, true)
                || java_objects::got_no_int(method_params, "ef_search"@)
            &&& request.nprobes is None ==> jvm::is_null_answers(method_params, true)
                || java_objects::got_no_int(method_params, "nprobes"@)
        },
        range matches Ok(request) ==> request.ef_search is None ==> jvm::is_null_answers(
            method_params,
            true,
        ) || java_objects::got_no_int(method_params, "ef_search"@),
{
    lemma_number_is_absent(method_params, r, range);
    if let Ok(request) = r {
        if let Some(n) = request.ef_search {
            java_objects::lemma_int_is_got(method_params, "ef_search"@, n);
        }
        if let Some(n) = request.nprobes {
            java_objects::lemma_int_is_got(method_params, "nprobes"@, n);
        }
    }
    if let Ok(request) = range {
        if let Some(n) = request.ef_search {
            java_objects::lemma_int_is_got(method_params, "ef_search"@, n);
        }
    }
}

/// The ids of a filter and those of parents are all that the Java arrays have; there are none where
/// the array is a null reference.
pub proof fn lemma_ids_are_read(
    filter: &JObject<'_>,
    filter_env: &mut JNIEnv<'_>,
    filtered: Result<Option<Vec<i64>>, FaissWrapperError>,
    parents: &JObject<'_>,
    parent_env: &mut JNIEnv<'_>,
    parent: Result<Option<Vec<i32>>, FaissWrapperError>,
)
    requires
        call_ensures(filter_ids, (filter_env, filter), filtered),
        call_ensures(parent_ids, (parent_env, parents), parent),
    ensures
        filtered matches Ok(Some(ids)) ==> exists|n: i32| #[trigger]
            jvm::get_array_length_answers(filter, Ok(n)) && jvm::get_long_array_region_answers(
                filter,
                if n < 0 {
                    0
                } else {
                    n as int
                },
                Ok(ids),
            ),
        filtered matches Ok(None) ==> jvm::is_null_answers(filter, true),
        parent matches Ok(Some(ids)) ==> exists|n: i32| #[trigger]
            jvm::get_array_length_answers(parents, Ok(n)) && jvm::get_int_array_region_answers(
                parents,
                if n < 0 {
                    0
                } else {
                    n as int
                },
                Ok(ids),
            ),
        parent matches Ok(None) ==> jvm::is_null_answers(parents, true),
{
    if let Ok(Some(ids)) = filtered {
        let length = choose|length: JniResult<i32>| #[trigger]
            jvm::get_array_length_answers(filter, length) && match length {
                Ok(n) => jvm::get_long_array_region_answers(
                    filter,
                    java_objects::element_count(n),
                    Ok(ids),
                ),
                Err(e) => false,
            };
        assert(jvm::get_array_length_answers(filter, Ok(length->Ok_0)));
    }
    if let Ok(Some(ids)) = parent {
        let length = choose|length: JniResult<i32>| #[trigger]
            jvm::get_array_length_answers(parents, length) && match length {
                Ok(n) => exists|answer: JniResult<Vec<i32>>| #[trigger]
                    jvm::get_int_array_region_answers(
                        parents,
                        java_objects::element_count(n),
                        answer,
                    ) && match answer {
                        Ok(numbers) => parent == Ok::<_, FaissWrapperError>(Some(numbers)),
                        Err(e) => false,
                    },
                Err(e) => false,
            };
        let n = length->Ok_0;
        let answer = choose|answer: JniResult<Vec<i32>>| #[trigger]
            jvm::get_int_array_region_answers(parents, java_objects::element_count(n), answer)
                && match answer {
                Ok(numbers) => parent == Ok::<_, FaissWrapperError>(Some(numbers)),
                Err(e) => false,
            };
        assert(answer == Ok::<Vec<i32>, jni::errors::Error>(ids));
        assert(jvm::get_array_length_answers(parents, Ok(n)));
    }
}

/// The ids of vectors are the first of the Java array, as many as are asked for, in their order and
/// unchanged.
pub proof fn lemma_vector_ids_are_read(
    env: &mut JNIEnv<'_>,
    ids: &JObject<'_>,
    count: usize,
    r: Result<Vec<i64>, FaissWrapperError>,
)
    requires
        call_ensures(vector_ids, (env, ids, count), r),
        r is Ok,
    ensures
        r->Ok_0@.len() == count,
        exists|numbers: Vec<i32>|
            {
                &&& #[trigger] jvm::get_int_array_region_answers(ids, count as int, Ok(numbers))
                &&& numbers@.len() == count
                &&& forall|i: int|
                    0 <= i < numbers@.len() ==> #[trigger] r->Ok_0@[i] == numbers@[i] as int
            },
{
    let numbers = choose|numbers: Vec<i32>| #[trigger]
        jvm::get_int_array_region_answers(ids, count as int, Ok(numbers)) && r->Ok_0@
            == jni_util::widened(numbers@) && r->Ok_0@.len() == count;
    assert(jvm::get_int_array_region_answers(ids, count as int, Ok(numbers)));
}

/// The metric of an index with asymmetric distances is that of the space that the Java map has, whose
/// quantization level must be that of one bit.
pub proof fn lemma_adc_metric(
    env: &mut JNIEnv<'_>,
    method_params: &JObject<'_>,
    r: Result<FaissMetricType, FaissWrapperError>,
)
    requires
        call_ensures(adc_metric, (env, method_params), r),
        r is Ok,
    ensures
        jvm::is_null_answers(method_params, false),
        exists|level: String| #[trigger]
            java_objects::got_text(method_params, "quantization_level"@, level) && level@
                == "ScalarQuantizationParams_1"@,
        exists|name: String| #[trigger]
            java_objects::got_text(method_params, "space_type"@, name) && r->Ok_0 == (if name@
                == "l2"@ || name@ == "hamming"@ {
                1int
            } else {
                0
            }) && (r->Ok_0 == 1 || name@ == "innerproduct"@ || name@ == "cosinesimil"@),
{
    let level = choose|level: JniResult<Option<String>>| #[trigger]
        java_objects::gives_string_setting(
            method_params,
            QUANTIZATION_LEVEL_FAISS_INDEX_LOAD_PARAMETER_JAVA_KNN_CONSTANTS@,
            level,
        ) && match level {
            Ok(Some(text)) => match jni_util::quantization_level(text@) {
                Some(l) => reads_adc_space(l, method_params, r),
                None => false,
            },
            _ => false,
        };
    let text = level->Ok_0->Some_0;
    java_objects::lemma_text_is_got(method_params, "quantization_level"@, text);
    let l = jni_util::quantization_level(text@)->0;
    let space_type = choose|space_type: JniResult<Option<String>>| #[trigger]
        java_objects::gives_string_setting(
            method_params,
            SPACE_TYPE_FAISS_INDEX_JAVA_KNN_CONSTANTS@,
            space_type,
        ) && match space_type {
            Ok(t) => {
                let name = match t {
                    Some(n) => Some(n@),
                    None => None,
                };
                &&& faiss_wrapper::adc_refusal(l, name) is None
                &&& faiss_wrapper::metric_of(name->0) == Some(r->Ok_0)
            },
            Err(e) => false,
        };
    let name = space_type->Ok_0->Some_0;
    java_objects::lemma_text_is_got(method_params, "space_type"@, name);
    faiss_wrapper::lemma_spaces_differ();
    assert(l is OneBit);
    assert(java_objects::got_text(method_params, "quantization_level"@, text));
    assert(java_objects::got_text(method_params, "space_type"@, name));
}

/// A result was made as an object of the class, of its id and its distance, and was put into the
/// array at this place.
pub open spec fn is_placed(
    class: &JObject<'_>,
    array: &JObject<'_>,
    place: i32,
    result: QueryResult<u32>,
) -> bool {
    exists|object: JObject<'_>|
        {
            &&& #[trigger] jvm::new_object_answers(
                class,
                "(IF)V"@,
                result.id,
                result.distance,
                Ok(object),
            )
            &&& jvm::set_object_array_element_answers(array, place, &object, Ok(()))
        }
}

/// The results of a query are handed over in an array of as many objects of their class, each of
/// which stands at the place that its result has among the results.
pub proof fn lemma_results_are_placed<'local>(
    env: &mut JNIEnv<'local>,
    results: &Vec<QueryResult<u32>>,
    r: Result<JObject<'local>, FaissWrapperError>,
)
    requires
        call_ensures(result_array, (env, results), r),
        r is Ok,
    ensures
        exists|class: JObject<'local>, initial: JObject<'static>|
            {
                &&& #[trigger] jvm::find_class_answers(
                    "org/opensearch/knn/index/query/KNNQueryResult"@,
                    Ok(class),
                )
                &&& #[trigger] jvm::new_object_array_answers(
                    results@.len() as i32,
                    &class,
                    &initial,
                    Ok(r->Ok_0),
                )
                &&& forall|k: int|
                    0 <= k < results@.len() ==> is_placed(
                        &class,
                        &r->Ok_0,
                        k as i32,
                        #[trigger] results@[k],
                    )
            },
{
    let answer = choose|answer: JniResult<JObject<'local>>| #[trigger]
        makes_results(*old(env), results@, answer, *final(env)) && r == lifted(answer);
    let array = r->Ok_0;
    assert(answer == Ok::<JObject<'local>, jni::errors::Error>(array));
    lemma_made_results(*old(env), results@, array, *final(env));
}

proof fn lemma_made_results<'local>(
    before: JNIEnv<'local>,
    results: Seq<QueryResult<u32>>,
    array: JObject<'local>,
    after: JNIEnv<'local>,
)
    requires
        makes_results(before, results, Ok(array), after),
    ensures
        exists|class: JObject<'local>, initial: JObject<'static>|
            {
                &&& #[trigger] jvm::find_class_answers(
                    "org/opensearch/knn/index/query/KNNQueryResult"@,
                    Ok(class),
                )
                &&& #[trigger] jvm::new_object_array_answers(
                    results.len() as i32,
                    &class,
                    &initial,
                    Ok(array),
                )
                &&& forall|k: int|
                    0 <= k < results.len() ==> is_placed(
                        &class,
                        &array,
                        k as i32,
                        #[trigger] results[k],
                    )
            },
{
    let answer: JniResult<JObject<'local>> = Ok(array);
    let (class, with_class) = choose|class: JniResult<JObject<'local>>, with_class: JNIEnv<'local>| #[trigger]
        jvm::finds_class_once(
            before,
            "org/opensearch/knn/index/query/KNNQueryResult"@,
            class,
            with_class,
        ) && match class {
            Ok(c) => exists|
                constructor: JniResult<jni::objects::JMethodID>,
                with_constructor: JNIEnv<'local>,
            | #[trigger]
                jvm::gets_method_id_once(
                    with_class,
                    &c,
                    "<init>"@,
                    "(IF)V"@,
                    constructor,
                    with_constructor,
                ) && match constructor {
                    Ok(_) => makes_array(with_constructor, &c, results, answer, after),
                    Err(e) => false,
                },
            Err(e) => false,
        };
    let c = class->Ok_0;
    let (constructor, with_constructor) = choose|
        constructor: JniResult<jni::objects::JMethodID>,
        with_constructor: JNIEnv<'local>,
    | #[trigger]
        jvm::gets_method_id_once(
            with_class,
            &c,
            "<init>"@,
            "(IF)V"@,
            constructor,
            with_constructor,
        ) && match constructor {
            Ok(_) => makes_array(with_constructor, &c, results, answer, after),
            Err(e) => false,
        };
    assert(jvm::find_class_answers("org/opensearch/knn/index/query/KNNQueryResult"@, Ok(c)));
    let (initial, made, with_array) = choose|
        initial: JObject<'static>,
        made: JniResult<JObject<'local>>,
        with_array: JNIEnv<'local>,
    |
        {
            &&& jvm::null_object_answers(initial)
            &&& #[trigger] jvm::makes_object_array_once(
                with_constructor,
                results.len() as i32,
                &c,
                &initial,
                made,
                with_array,
            )
            &&& match made {
                Ok(a) => exists|placed: JniResult<()>| #[trigger]
                    places_results(with_array, &c, &a, results, placed, after) && answer
                        == match placed {
                        Ok(_) => Ok::<JObject<'local>, jni::errors::Error>(a),
                        Err(e) => Err(e),
                    },
                Err(e) => false,
            }
        };
    let a = made->Ok_0;
    let placed = choose|placed: JniResult<()>| #[trigger]
        places_results(with_array, &c, &a, results, placed, after) && answer == match placed {
            Ok(_) => Ok::<JObject<'local>, jni::errors::Error>(a),
            Err(e) => Err(e),
        };
    assert(a == array);
    assert(jvm::new_object_array_answers(results.len() as i32, &c, &initial, Ok(array)));
    let passed = choose|passed: Seq<JNIEnv<'local>>|
        {
            &&& #[trigger] placed_first(passed, &c, &a, results)
            &&& passed.first() == with_array
            &&& passed.len() == results.len() + 1
        };
    assert forall|k: int| 0 <= k < results.len() implies is_placed(
        &c,
        &array,
        k as i32,
        #[trigger] results[k],
    ) by {
        lemma_placed(passed[k], &c, &a, k as i32, results[k], passed[k + 1]);
    }
}

proof fn lemma_placed<'local>(
    before: JNIEnv<'local>,
    class: &JObject<'_>,
    array: &JObject<'_>,
    place: i32,
    result: QueryResult<u32>,
    after: JNIEnv<'local>,
)
    requires
        places_result(before, class, array, place, result, Ok(()), after),
    ensures
        is_placed(class, array, place, result),
{
    let (object, with_object) = choose|
        object: JniResult<JObject<'local>>,
        with_object: JNIEnv<'local>,
    | #[trigger]
        jvm::makes_object_once(
            before,
            class,
            "(IF)V"@,
            result.id,
            result.distance,
            object,
            with_object,
        ) && match object {
            Ok(o) => exists|set: JniResult<()>| #[trigger]
                jvm::sets_element_once(with_object, array, place, &o, set, after) && match set {
                    Ok(_) => jvm::delete_local_ref_answers(o, Ok(())),
                    Err(e) => false,
                },
            Err(e) => false,
        };
    let o = object->Ok_0;
    let set = choose|set: JniResult<()>| #[trigger]
        jvm::sets_element_once(with_object, array, place, &o, set, after) && match set {
            Ok(_) => jvm::delete_local_ref_answers(o, Ok(())),
            Err(e) => false,
        };
    match set {
        Ok(done) => {
            assert(done == ());
        },
        Err(_) => {},
    }
    assert(jvm::new_object_answers(class, "(IF)V"@, result.id, result.distance, Ok(o)));
    assert(jvm::set_object_array_element_answers(array, place, &o, Ok(())));
}

proof fn lemma_number_is_absent(
    method_params: &JObject<'_>,
    r: Result<SearchRequest, FaissWrapperError>,
    range: Result<SearchRequest, FaissWrapperError>,
)
    requires
        gives_search_request(method_params, r),
        gives_range_search_request(method_params, range),
    ensures
        !(r matches Ok(_)) ==> java_objects::got_no_int(method_params, "ef_search"@)
            || java_objects::got_no_int(method_params, "nprobes"@),
        !(range matches Ok(_)) ==> java_objects::got_no_int(method_params, "ef_search"@),
        r matches Ok(request) ==> {
            &&& request.ef_search is None ==> jvm::is_null_answers(method_params, true)
                || java_objects::got_no_int(method_params, "ef_search"@)
            &&& request.nprobes is None ==> jvm::is_null_answers(method_params, true)
                || java_objects::got_no_int(method_params, "nprobes"@)
        },
        range matches Ok(request) ==> request.ef_search is None ==> jvm::is_null_answers(
            method_params,
            true,
        ) || java_objects::got_no_int(method_params, "ef_search"@),
{
    let none: JniResult<Option<i32>> = Ok(None);
    if java_objects::gives_int_setting(method_params, "ef_search"@, none) {
        java_objects::lemma_no_int_is_got(method_params, "ef_search"@, none);
    }
    if java_objects::gives_int_setting(method_params, "nprobes"@, none) {
        java_objects::lemma_no_int_is_got(method_params, "nprobes"@, none);
    }
    if let Err(FaissWrapperError::Jni(e)) = r {
        let error: JniResult<Option<i32>> = Err(e);
        if java_objects::gives_int_setting(method_params, "ef_search"@, error) {
            java_objects::lemma_no_int_is_got(method_params, "ef_search"@, error);
        } else {
            java_objects::lemma_no_int_is_got(method_params, "nprobes"@, error);
        }
    }
    if let Err(FaissWrapperError::Jni(e)) = range {
        java_objects::lemma_no_int_is_got(method_params, "ef_search"@, Err(e));
    }
}

/// There are no parameters beside the description only where the Java map gives no map of them, and
/// each number is missing only where that map does not give it.
pub proof fn lemma_extra_is_absent(
    env: &mut JNIEnv<'_>,
    parameters: &JObject<'_>,
    r: Result<Option<StringMap<ParamValue>>, FaissWrapperError>,
)
    requires
        call_ensures(training_extra, (env, parameters), r),
        r is Ok,
    ensures
        r->Ok_0 is None ==> java_objects::got_nothing(parameters, "parameters"@),
        r->Ok_0 matches Some(extra) ==> exists|map: JObject<'_>|
            {
                &&& #[trigger] java_objects::got(parameters, "parameters"@, map)
                &&& lacks_number(&map, extra@, "ef_construction"@)
                &&& lacks_number(&map, extra@, "ef_search"@)
                &&& lacks_number(&map, extra@, "nprobes"@)
                &&& {
                    ||| exists|n: i32| #[trigger]
                        faiss_index_service::quantizer_has(extra@, "ef_construction"@, n)
                    ||| quantizer_got_none(&map, "ef_construction"@)
                }
                &&& {
                    ||| exists|n: i32| #[trigger]
                        faiss_index_service::quantizer_has(extra@, "ef_search"@, n)
                    ||| quantizer_got_none(&map, "ef_search"@)
                }
            },
{
    let answer = choose|answer: JniResult<Option<StringMap<ParamValue>>>| #[trigger]
        gives_extra(parameters, answer) && r == lifted(answer);
    assert(answer == Ok::<_, jni::errors::Error>(r->Ok_0));
    let sub_parameters = choose|sub_parameters: JniResult<Option<JObject<'_>>>| #[trigger]
        java_objects::gives_object_setting(parameters, PARAMETERS@, sub_parameters)
            && match sub_parameters {
            Ok(Some(map)) => reads_extra(&map, answer),
            Ok(None) => answer == Ok::<_, jni::errors::Error>(None::<StringMap<ParamValue>>),
            Err(_) => false,
        };
    match sub_parameters {
        Ok(Some(map)) => {
            java_objects::lemma_object_is_got(parameters, "parameters"@, map);
            let extra = r->Ok_0->Some_0;
            lemma_lacks_number(&map, extra@, "ef_construction"@);
            lemma_lacks_number(&map, extra@, "ef_search"@);
            lemma_lacks_number(&map, extra@, "nprobes"@);
            let quantizer = choose|quantizer: JniResult<Option<QuantizerParameters>>| #[trigger]
                gives_quantizer(&map, quantizer) && match quantizer {
                    Ok(Some(q)) => {
                        let sub = faiss_index_service::sub_params(extra@, COARSE_QUANTIZER@);
                        &&& faiss_index_service::int_param(sub, EF_CONSTRUCTION@)
                            == q.ef_construction
                        &&& faiss_index_service::int_param(sub, EF_SEARCH@) == q.ef_search
                    },
                    Ok(None) => !extra@.dom().contains(COARSE_QUANTIZER@),
                    Err(_) => false,
                };
            lemma_quantizer_got_none(&map, quantizer);
            if let Ok(Some(q)) = quantizer {
                if let Some(n) = q.ef_construction {
                    assert(faiss_index_service::quantizer_has(extra@, "ef_construction"@, n));
                }
                if let Some(n) = q.ef_search {
                    assert(faiss_index_service::quantizer_has(extra@, "ef_search"@, n));
                }
            }
            assert(java_objects::got(parameters, "parameters"@, map));
        },
        _ => {
            java_objects::lemma_no_object_is_got(parameters, "parameters"@, sub_parameters);
        },
    }
}

/// A Java map gave no map for the coarse quantizer, or one that gave no number for this key.
pub open spec fn quantizer_got_none(map: &JObject<'_>, key: Seq<char>) -> bool {
    ||| java_objects::got_nothing(map, "coarse_quantizer"@)
    ||| exists|sub: JObject<'_>| #[trigger]
        java_objects::got(map, "coarse_quantizer"@, sub) && java_objects::got_no_int(&sub, key)
}

proof fn lemma_quantizer_got_none(map: &JObject<'_>, r: JniResult<Option<QuantizerParameters>>)
    requires
        gives_quantizer(map, r),
        r is Ok,
    ensures
        r->Ok_0 is None ==> java_objects::got_nothing(map, "coarse_quantizer"@),
        r->Ok_0 matches Some(q) ==> {
            &&& q.ef_construction is None ==> quantizer_got_none(map, "ef_construction"@)
            &&& q.ef_search is None ==> quantizer_got_none(map, "ef_search"@)
        },
{
    let quantizer = choose|quantizer: JniResult<Option<JObject<'_>>>| #[trigger]
        java_objects::gives_object_setting(map, COARSE_QUANTIZER@, quantizer) && match quantizer {
            Ok(Some(sub)) => r->Ok_0 matches Some(q) && {
                &&& java_objects::gives_int_setting(&sub, EF_CONSTRUCTION@, Ok(q.ef_construction))
                &&& java_objects::gives_int_setting(&sub, EF_SEARCH@, Ok(q.ef_search))
            },
            Ok(None) => r->Ok_0 is None,
            Err(_) => false,
        };
    match quantizer {
        Ok(Some(sub)) => {
            let q = r->Ok_0->Some_0;
            java_objects::lemma_object_is_got(map, "coarse_quantizer"@, sub);
            assert(java_objects::got(map, "coarse_quantizer"@, sub));
            if q.ef_construction is None {
                java_objects::lemma_no_int_is_got(&sub, "ef_construction"@, Ok(None));
            }
            if q.ef_search is None {
                java_objects::lemma_no_int_is_got(&sub, "ef_search"@, Ok(None));
            }
        },
        _ => {
            java_objects::lemma_no_object_is_got(map, "coarse_quantizer"@, quantizer);
        },
    }
}

/// A number that is not among these parameters is one that the Java map did not give.
pub open spec fn lacks_number(
    map: &JObject<'_>,
    extra: Map<Seq<char>, ParamValue>,
    key: Seq<char>,
) -> bool {
    !extra.dom().contains(key) ==> java_objects::got_no_int(map, key)
}

proof fn lemma_lacks_number(map: &JObject<'_>, extra: Map<Seq<char>, ParamValue>, key: Seq<char>)
    requires
        gives_int_param(map, extra, key),
    ensures
        lacks_number(map, extra, key),
{
    if !extra.dom().contains(key) {
        java_objects::lemma_no_int_is_got(map, key, Ok(None));
    }
}

/// As many ids are counted as the Java array has.
pub proof fn lemma_ids_are_counted(
    env: &mut JNIEnv<'_>,
    ids: &JObject<'_>,
    r: Result<usize, FaissWrapperError>,
)
    requires
        call_ensures(id_count, (env, ids), r),
    ensures
        r matches Ok(count) ==> exists|n: i32| #[trigger]
            jvm::get_array_length_answers(ids, Ok(n)) && count == if n < 0 {
                0
            } else {
                n as int
            },
        r matches Err(e) ==> (e matches FaissWrapperError::Jni(error)
            && jvm::get_array_length_answers(ids, Err(error))),
{
}

/// A Java map gave for this key the name of a space that there is not.
pub open spec fn got_unknown_space(map: &JObject<'_>, key: Seq<char>) -> bool {
    exists|name: String| #[trigger]
        java_objects::got_text(map, key, name) && name@ != "l2"@ && name@ != "hamming"@ && name@
            != "innerproduct"@ && name@ != "cosinesimil"@
}

/// A request to train is refused only where there are no parameters, the dimension of a binary index
/// is no multiple of eight, or the Java map does not give a space that there is or a description.
pub proof fn lemma_training_refused(
    env: &mut JNIEnv<'_>,
    kind: IndexType,
    parameters: &JObject<'_>,
    dimension: i32,
    r: Result<TrainingRequest, FaissWrapperError>,
)
    requires
        call_ensures(training_request, (env, kind, parameters, dimension), r),
        r is Err,
    ensures
        ({
            ||| jvm::is_null_answers(parameters, true)
            ||| kind is Binary && dimension as int % 8 != 0
            ||| java_objects::got_no_text(parameters, "spaceType"@)
            ||| got_unknown_space(parameters, "spaceType"@)
            ||| java_objects::got_no_text(parameters, "index_description"@)
        }),
{
    if !jvm::is_null_answers(parameters, true) && !(kind is Binary && dimension as int % 8 != 0) {
        let space_type = choose|space_type: JniResult<Option<String>>| #[trigger]
            java_objects::gives_string_setting(parameters, SPACE_TYPE@, space_type)
                && match space_type {
                Ok(Some(name)) => match faiss_wrapper::metric_of(name@) {
                    Some(metric) => reads_training_description(parameters, metric, r),
                    None => true,
                },
                _ => true,
            };
        match space_type {
            Ok(Some(name)) => {
                java_objects::lemma_text_is_got(parameters, "spaceType"@, name);
                match faiss_wrapper::metric_of(name@) {
                    Some(metric) => lemma_description_refused(parameters, metric, r),
                    None => {
                        assert(java_objects::got_text(parameters, "spaceType"@, name));
                    },
                }
            },
            _ => java_objects::lemma_no_text_is_got(parameters, "spaceType"@, space_type),
        }
    }
}

proof fn lemma_description_refused(
    parameters: &JObject<'_>,
    metric: FaissMetricType,
    r: Result<TrainingRequest, FaissWrapperError>,
)
    requires
        reads_training_description(parameters, metric, r),
        r is Err,
    ensures
        java_objects::got_no_text(parameters, "index_description"@),
{
    let description = choose|description: JniResult<Option<String>>| #[trigger]
        java_objects::gives_string_setting(parameters, INDEX_DESCRIPTION@, description)
            && !(description matches Ok(Some(_)));
    java_objects::lemma_no_text_is_got(parameters, "index_description"@, description);
}

/// Loading for asymmetric distances is refused only where there are no parameters, or the Java map does
/// not give the level of one bit or a space that there is.
pub proof fn lemma_adc_refused(
    env: &mut JNIEnv<'_>,
    method_params: &JObject<'_>,
    r: Result<FaissMetricType, FaissWrapperError>,
)
    requires
        call_ensures(adc_metric, (env, method_params), r),
        r is Err,
    ensures
        ({
            ||| jvm::is_null_answers(method_params, true)
            ||| java_objects::got_no_text(method_params, "quantization_level"@)
            ||| exists|level: String| #[trigger]
                java_objects::got_text(method_params, "quantization_level"@, level) && level@
                    != "ScalarQuantizationParams_1"@
            ||| java_objects::got_no_text(method_params, "space_type"@)
            ||| got_unknown_space(method_params, "space_type"@)
        }),
{
    if !jvm::is_null_answers(method_params, true) {
        let level = choose|level: JniResult<Option<String>>| #[trigger]
            java_objects::gives_string_setting(
                method_params,
                QUANTIZATION_LEVEL_FAISS_INDEX_LOAD_PARAMETER_JAVA_KNN_CONSTANTS@,
                level,
            ) && match level {
                Ok(Some(text)) => match jni_util::quantization_level(text@) {
                    Some(l) => reads_adc_space(l, method_params, r),
                    None => true,
                },
                _ => true,
            };
        match level {
            Ok(Some(text)) => {
                java_objects::lemma_text_is_got(method_params, "quantization_level"@, text);
                if text@ == "ScalarQuantizationParams_1"@ {
                    lemma_adc_space_refused(
                        jni_util::quantization_level(text@)->0,
                        method_params,
                        r,
                    );
                } else {
                    assert(java_objects::got_text(method_params, "quantization_level"@, text));
                }
            },
            _ => java_objects::lemma_no_text_is_got(method_params, "quantization_level"@, level),
        }
    }
}

proof fn lemma_adc_space_refused(
    level: jni_util::BQQuantizationLevel,
    method_params: &JObject<'_>,
    r: Result<FaissMetricType, FaissWrapperError>,
)
    requires
        reads_adc_space(level, method_params, r),
        level is OneBit,
        r is Err,
    ensures
        java_objects::got_no_text(method_params, "space_type"@) || got_unknown_space(
            method_params,
            "space_type"@,
        ),
{
    let space_type = choose|space_type: JniResult<Option<String>>| #[trigger]
        java_objects::gives_string_setting(
            method_params,
            SPACE_TYPE_FAISS_INDEX_JAVA_KNN_CONSTANTS@,
            space_type,
        ) && match space_type {
            Ok(Some(t)) => faiss_wrapper::adc_refusal(level, Some(t@)) is Some,
            _ => true,
        };
    match space_type {
        Ok(Some(t)) => {
            java_objects::lemma_text_is_got(method_params, "space_type"@, t);
            assert(java_objects::got_text(method_params, "space_type"@, t));
        },
        _ => java_objects::lemma_no_text_is_got(method_params, "space_type"@, space_type),
    }
}

} // verus!
