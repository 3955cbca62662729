use knn_jni_rs::faiss_index_service::{FaissMetricType, IndexServiceError};
use knn_jni_rs::faiss_service_jni::{
    argument_error, check_init, index_description, index_metric, index_params,
    init_faiss_sq_index, thread_count, transfer_vectors,
};
use knn_jni_rs::faiss_wrapper::FaissWrapperError;
use knn_jni_rs::jni_util::{JNIUtil, JniUtilError};
use knn_jni_rs::simd_service_jni::{
    query_byte_size, score_similarity, score_similarity_in_bulk, BulkRequest,
};
use knn_jni_rs::{
    error_of_service, global_jni_util, jni_commons, may_throw, on_load, panic_exception,
    FirstStored, KnnError, KNN_JNI_VERSION,
};

#[test]
fn errors_become_java_exceptions() {
    let e = KnnError::InvalidArgument("a".to_string());
    assert_eq!(e.message(), "Invalid argument: a");
    assert_eq!(e.java_exception().class, "java/lang/IllegalArgumentException");
    assert_eq!(e.java_exception().message, "a");

    let e = KnnError::NullPointer("b".to_string());
    assert_eq!(e.message(), "Null pointer: b");
    assert_eq!(e.java_exception().class, "java/lang/NullPointerException");

    let e = KnnError::from(std::io::Error::new(std::io::ErrorKind::Other, "disk"));
    assert_eq!(e.message(), "I/O error: disk");
    assert_eq!(e.java_exception().class, "java/io/IOException");
    assert_eq!(e.java_exception().message, "disk");

    let e = KnnError::Aborted("c".to_string());
    assert_eq!(e.message(), "Operation aborted: c");
    assert_eq!(
        e.java_exception().class,
        "org/opensearch/knn/index/codec/nativeindex/IndexBuildAbortedException"
    );

    let e = KnnError::from(jni::errors::Error::JavaException);
    assert_eq!(e.message(), "JNI error: Java exception was thrown");
    assert_eq!(e.java_exception().class, "java/lang/RuntimeException");
    assert_eq!(e.java_exception().message, "JNI error: Java exception was thrown");

    let e = KnnError::NativeLibrary("d".to_string());
    assert_eq!(e.message(), "Native library error: d");
    assert_eq!(e.java_exception().class, "java/lang/Exception");
    assert_eq!(e.java_exception().message, "d");

    let e = KnnError::Internal("e".to_string());
    assert_eq!(e.message(), "Internal error: e");
    assert_eq!(e.java_exception().class, "java/lang/Exception");
}

#[test]
fn errors_of_operations_become_errors_of_the_crate() {
    let e = KnnError::from(FaissWrapperError::Runtime("a".to_string()));
    assert!(matches!(e, KnnError::NativeLibrary(m) if m == "a"));
    let e = KnnError::from(FaissWrapperError::NullPointer("b".to_string()));
    assert!(matches!(e, KnnError::NullPointer(m) if m == "b"));
    let e = error_of_service(IndexServiceError::IndexNotTrained);
    assert!(matches!(e, KnnError::NativeLibrary(m) if m == "Index is not trained"));
    let e = error_of_service(IndexServiceError::WriteError("w".to_string()));
    assert!(matches!(e, KnnError::NativeLibrary(m) if m == "w"));
    let e = argument_error(JniUtilError::NullPointer("n".to_string()));
    assert!(matches!(e, KnnError::InvalidArgument(m) if m == "Null pointer: n"));
}

#[test]
fn panics_become_java_exceptions() {
    assert_eq!(panic_exception(Some("boom")).message, "Native code panicked: boom");
    assert_eq!(panic_exception(None).message, "Native code panicked (unknown payload)");
    assert_eq!(panic_exception(None).class, "java/lang/RuntimeException");
    assert_eq!(jni_commons::panic_exception(Some("boom")).message, "boom");
    assert_eq!(jni_commons::panic_exception(None).message, "Unknown panic in Rust JNI code");
    assert!(may_throw(Some(false)));
    assert!(!may_throw(Some(true)));
    assert!(!may_throw(None));
}

#[test]
fn loading_answers_with_the_version() {
    assert_eq!(on_load(true), KNN_JNI_VERSION);
    assert_eq!(on_load(true), 0x10001);
    assert_eq!(on_load(false), -1);
    let util = JNIUtil::new();
    assert!(global_jni_util(Some(&util)).vm.is_none());
}

#[test]
fn parameters_of_an_index_are_read() {
    assert!(check_init(4, false).is_ok());
    match check_init(0, false) {
        Err(KnnError::InvalidArgument(m)) => {
            assert_eq!(m, "Vectors dimensions cannot be less than or equal to 0")
        }
        _ => panic!("there is no dimension"),
    }
    assert_eq!(
        index_metric(Ok("cosinesimil".to_string())).unwrap(),
        FaissMetricType::MetricInnerProduct
    );
    assert_eq!(
        index_metric(Ok("hamming".to_string())).unwrap(),
        FaissMetricType::MetricL2
    );
    match index_metric(Ok("l3".to_string())) {
        Err(KnnError::NativeLibrary(m)) => assert_eq!(m, "Invalid spaceType: l3"),
        _ => panic!("there is no such space"),
    }
    match index_metric(Err(JniUtilError::NullPointer("String cannot be null".to_string()))) {
        Err(KnnError::InvalidArgument(m)) => {
            assert_eq!(m, "spaceType: Null pointer: String cannot be null")
        }
        _ => panic!("there is no space"),
    }
    assert_eq!(index_description(Ok("Flat".to_string())).unwrap(), "Flat");
    match index_description(Err(JniUtilError::Jni(jni::errors::Error::JavaException))) {
        Err(KnnError::InvalidArgument(m)) => {
            assert_eq!(m, "index_description: JNI error: Java exception was thrown")
        }
        _ => panic!("there is no description"),
    }
    assert_eq!(thread_count(None), 0);
    assert_eq!(thread_count(Some(3)), 3);
    assert_eq!(index_params(Some(1), None, Some(3)).len(), 2);
    assert_eq!(init_faiss_sq_index(8).unwrap(), 8);
    assert_eq!(
        init_faiss_sq_index(0).unwrap_err().message(),
        "Internal error: Failed to initialize SQ index"
    );
}

#[test]
fn new_vectors_come_before_the_stored_ones() {
    let mut stored = vec![9.0f32];
    assert!(transfer_vectors(&mut stored, Ok(vec![1.0, 2.0, 3.0, 4.0])).is_ok());
    assert_eq!(stored, vec![1.0, 2.0, 3.0, 4.0, 9.0]);
    assert!(transfer_vectors(&mut stored, Ok(vec![])).is_ok());
    assert_eq!(stored.len(), 5);
    let uneven = JniUtilError::Runtime("Dimension of vectors is inconsistent".to_string());
    match transfer_vectors(&mut stored, Err(uneven)) {
        Err(KnnError::InvalidArgument(m)) => {
            assert_eq!(m, "Dimension of vectors is inconsistent")
        }
        _ => panic!("the rows differ in length"),
    }
    let missing = JniUtilError::NullPointer("Array cannot be null".to_string());
    match transfer_vectors(&mut stored, Err(missing)) {
        Err(KnnError::InvalidArgument(m)) => {
            assert_eq!(m, "Null pointer: Array cannot be null")
        }
        _ => panic!("there are no rows"),
    }
    assert_eq!(stored.len(), 5);
}

#[test]
fn scoring_needs_vectors_and_a_query() {
    assert!(matches!(score_similarity_in_bulk(0, true), BulkRequest::Nothing));
    assert!(matches!(score_similarity_in_bulk(2, false), BulkRequest::Score));
    match score_similarity_in_bulk(2, true) {
        BulkRequest::NoContext(m) => assert_eq!(
            m,
            "No search context has been initialized, SimdVectorSearchContext* was empty."
        ),
        _ => panic!("there is no query"),
    }
    assert_eq!(
        score_similarity(true).unwrap_err(),
        "No search context has been initialized."
    );
    assert!(score_similarity(false).is_ok());
    assert_eq!(query_byte_size(5), 20);
}

#[test]
fn what_is_stored_first_stays() {
    let mut place: FirstStored<i32> = FirstStored::new();
    assert_eq!(place.get(), None);
    assert!(place.offer(3));
    assert!(!place.offer(4));
    assert_eq!(place.get(), Some(&3));
}
