use knn_jni_rs::jni_util::{
    add_map_entry, build_aborted, cache_step, check_created, check_pending,
    check_row_length, collect_entries, exception_of_error, exception_of_panic,
    get_jobject_from_map_or_throw, integer_of, length_of, level_named,
    numbers_of, store_reading, store_rows, store_unsigned_reading, BQQuantizationLevel, CacheStep,
    JNIUtil,
    JniReleaseGuard, JniUtilError, COARSE_QUANTIZER, COSINESIMIL, EF_CONSTRUCTION,
    EF_CONSTRUCTION_NMSLIB, EF_SEARCH, FAISS_NAME, HAMMING, ILLEGAL_ARGUMENT_PATH,
    INDEX_DESCRIPTION, INDEX_THREAD_QUANTITY, INNER_PRODUCT, L1, L2, LINF, M, METHOD, M_NMSLIB,
    NEG_DOT_PRODUCT, NMSLIB_NAME, NPROBES, PARAMETERS,
    QUANTIZATION_LEVEL_FAISS_INDEX_LOAD_PARAMETER_JAVA_KNN_CONSTANTS, SPACE_TYPE,
    SPACE_TYPE_FAISS_INDEX_JAVA_KNN_CONSTANTS, TRAINING_DATASET_SIZE_LIMIT,
};
use knn_jni_rs::string_map::StringMap;

#[test]
fn jni_util_test_constants() {
    assert_eq!(FAISS_NAME, "faiss");
    assert_eq!(NMSLIB_NAME, "nmslib");
    assert_eq!(L2, "l2");
    assert_eq!(INNER_PRODUCT, "innerproduct");
    assert_eq!(EF_SEARCH, "ef_search");
}

#[test]
fn test_quantization_level_enum() {
    assert_ne!(BQQuantizationLevel::OneBit, BQQuantizationLevel::TwoBit);
    assert_eq!(BQQuantizationLevel::FourBit, BQQuantizationLevel::FourBit);
}

#[test]
fn test_jni_util_default() {
    let util = JNIUtil::default();
    assert!(util.cached_classes.is_empty());
    assert!(util.cached_methods.is_empty());
}

#[test]
fn test_bq_quantization_level_all_variants() {
    let one = BQQuantizationLevel::OneBit;
    let two = BQQuantizationLevel::TwoBit;
    let four = BQQuantizationLevel::FourBit;
    let none = BQQuantizationLevel::Unquantized;

    assert_ne!(one, two);
    assert_ne!(one, four);
    assert_ne!(one, none);
    assert_ne!(two, four);
    assert_ne!(two, none);
    assert_ne!(four, none);
}

#[test]
fn test_bq_quantization_level_clone_and_copy() {
    let level = BQQuantizationLevel::OneBit;
    let cloned = level.clone();
    let copied = level;
    assert_eq!(level, cloned);
    assert_eq!(level, copied);
}

#[test]
fn test_bq_quantization_level_debug() {
    let level = BQQuantizationLevel::OneBit;
    assert_eq!(format!("{:?}", level), "OneBit");
    assert_eq!(level.name(), "OneBit");

    let level = BQQuantizationLevel::TwoBit;
    assert_eq!(format!("{:?}", level), "TwoBit");
    assert_eq!(level.name(), "TwoBit");

    let level = BQQuantizationLevel::FourBit;
    assert_eq!(format!("{:?}", level), "FourBit");
    assert_eq!(level.name(), "FourBit");

    let level = BQQuantizationLevel::Unquantized;
    assert_eq!(level.name(), "None");
}

#[test]
fn jni_util_test_all_space_type_constants() {
    assert_eq!(L2, "l2");
    assert_eq!(L1, "l1");
    assert_eq!(LINF, "linf");
    assert_eq!(COSINESIMIL, "cosinesimil");
    assert_eq!(INNER_PRODUCT, "innerproduct");
    assert_eq!(NEG_DOT_PRODUCT, "negdotprod");
    assert_eq!(HAMMING, "hamming");
}

#[test]
fn test_index_parameter_constants() {
    assert_eq!(NPROBES, "nprobes");
    assert_eq!(COARSE_QUANTIZER, "coarse_quantizer");
    assert_eq!(M, "m");
    assert_eq!(M_NMSLIB, "M");
    assert_eq!(EF_CONSTRUCTION, "ef_construction");
    assert_eq!(EF_CONSTRUCTION_NMSLIB, "efConstruction");
    assert_eq!(EF_SEARCH, "ef_search");
}

#[test]
fn test_java_knn_constants_strings() {
    assert_eq!(SPACE_TYPE_FAISS_INDEX_JAVA_KNN_CONSTANTS, "space_type");
    assert_eq!(
        QUANTIZATION_LEVEL_FAISS_INDEX_LOAD_PARAMETER_JAVA_KNN_CONSTANTS,
        "quantization_level"
    );
}

#[test]
fn test_misc_constants() {
    assert_eq!(SPACE_TYPE, "spaceType");
    assert_eq!(METHOD, "method");
    assert_eq!(INDEX_DESCRIPTION, "index_description");
    assert_eq!(PARAMETERS, "parameters");
    assert_eq!(TRAINING_DATASET_SIZE_LIMIT, "training_dataset_size_limit");
    assert_eq!(INDEX_THREAD_QUANTITY, "indexThreadQty");
    assert_eq!(ILLEGAL_ARGUMENT_PATH, "java/lang/IllegalArgumentException");
}

#[test]
fn test_jni_util_new_is_empty() {
    let util = JNIUtil::new();
    assert!(util.cached_classes.is_empty());
    assert!(util.cached_methods.is_empty());
    assert!(util.vm.is_none());
}

#[test]
fn test_jni_util_uninitialize_clears() {
    let mut util = JNIUtil::new();
    util.uninitialize();
    assert!(util.cached_classes.is_empty());
    assert!(util.cached_methods.is_empty());
    assert!(util.vm.is_none());
}

#[test]
fn test_jni_util_get_jni_current_env_returns_none_without_vm() {
    let util = JNIUtil::new();
    assert!(util.get_jni_current_env().is_none());
}

#[test]
fn test_jni_util_find_class_not_cached_returns_error() {
    let util = JNIUtil::new();
    assert!(!util.cached_classes.contains_key("java/lang/Integer"));
    match util.find_class("java/lang/Integer") {
        Err(e) => assert_eq!(e.message(), "Unable to load class \"java/lang/Integer\""),
        Ok(_) => panic!("no class is at hand"),
    }
}

#[test]
fn test_jni_util_error_display() {
    let err = JniUtilError::Runtime("test error".to_string());
    assert_eq!(err.message(), "test error");

    let err = JniUtilError::NullPointer("null arg".to_string());
    assert_eq!(err.message(), "Null pointer: null arg");
}

#[test]
fn test_get_jobject_from_map_or_throw_key_not_found() {
    let map: StringMap<i32> = StringMap::new();
    let result = get_jobject_from_map_or_throw(&map, "missing_key");
    assert!(result.is_err());
    let err_msg = result.unwrap_err().message();
    assert!(err_msg.contains("missing_key not found"));
}

#[test]
fn value_of_a_map_is_found() {
    let mut map: StringMap<i32> = StringMap::new();
    map.insert("key".to_string(), 3);
    assert_eq!(*get_jobject_from_map_or_throw(&map, "key").unwrap(), 3);
}

#[test]
fn jvm_error_is_described() {
    let err = JniUtilError::Jni(jni::errors::Error::JavaException);
    assert_eq!(err.message(), "JNI error: Java exception was thrown");
    let exception = exception_of_error(&err);
    assert_eq!(exception.class, "java/lang/Exception");
    assert_eq!(exception.message, "Java exception was thrown");
}

#[test]
fn release_function_is_taken_once() {
    let mut guard = JniReleaseGuard::new(|| {});
    assert!(guard.take().is_some());
    assert!(guard.take().is_none());
}

#[test]
fn methods_and_classes_are_missing_at_first() {
    let util = JNIUtil::new();
    match util.find_method("java/util/Map", "entrySet") {
        Err(e) => assert_eq!(e.message(), "Unable to find \"entrySet\" method"),
        Ok(_) => panic!("no method is at hand"),
    }
    match util.class_to_search("java/util/Map") {
        Err(e) => assert_eq!(e.message(), "Class java/util/Map not cached"),
        Ok(_) => panic!("no class is at hand"),
    }
    match util.integer_conversion(true) {
        Err(e) => assert_eq!(e.message(), "Null pointer: Object cannot be null"),
        Ok(_) => panic!("the object is null"),
    }
    match util.integer_conversion(false) {
        Err(e) => assert_eq!(e.message(), "Unable to load class \"java/lang/Integer\""),
        Ok(_) => panic!("no class is at hand"),
    }
    match util.check_map_methods(false) {
        Err(e) => assert_eq!(e.message(), "Unable to find \"entrySet\" method"),
        Ok(_) => panic!("no method is at hand"),
    }
    match util.check_map_methods(true) {
        Err(e) => assert_eq!(e.message(), "Null pointer: Parameters cannot be null"),
        Ok(_) => panic!("the parameters are null"),
    }
    assert!(util.query_result_construction().is_err());
}

#[test]
fn quantization_levels_are_named() {
    let level = level_named;
    assert_eq!(level(Some("ScalarQuantizationParams_1")).unwrap(), BQQuantizationLevel::OneBit);
    assert_eq!(level(Some("ScalarQuantizationParams_2")).unwrap(), BQQuantizationLevel::TwoBit);
    assert_eq!(level(Some("ScalarQuantizationParams_4")).unwrap(), BQQuantizationLevel::FourBit);
    assert_eq!(
        level(Some("ScalarQuantizationParams_8")).unwrap_err().message(),
        "Unable to convert java string to quantization level"
    );
    assert_eq!(level(None).unwrap_err().message(), "Null pointer: String cannot be null");
}

#[test]
fn pending_exceptions_are_errors() {
    assert!(check_pending(false, "why").is_ok());
    assert_eq!(
        check_pending(true, "Exception in jni occurred").unwrap_err().message(),
        "Exception in jni occurred"
    );
    assert_eq!(
        check_pending(true, "why").unwrap_err().message(),
        "why"
    );
    let abort = build_aborted();
    assert_eq!(
        abort.class,
        "org/opensearch/knn/index/codec/nativeindex/IndexBuildAbortedException"
    );
    assert_eq!(abort.message, "Faiss index build aborted");
    assert_eq!(exception_of_panic(Some("boom")).message, "boom");
    assert_eq!(exception_of_panic(None).message, "Unknown exception occurred");
}

#[test]
fn integers_are_read_from_integers_only() {
    assert_eq!(integer_of(Some(7), false).unwrap(), 7);
    assert_eq!(
        integer_of(None, false).unwrap_err().message(),
        "Cannot call IntMethod on non-integer class"
    );
    assert_eq!(
        integer_of(Some(7), true).unwrap_err().message(),
        "Could not call \"intValue\" method on Integer"
    );
    assert!(check_created(false).is_ok());
    assert_eq!(
        check_created(true).unwrap_err().message(),
        "Unable to create object"
    );
}

#[test]
fn rows_are_stored_up_to_the_first_misfit() {
    let rows = vec![vec![1.0f32, 2.0], vec![3.0, 4.0]];
    let mut joined = vec![];
    assert!(store_rows(Some(&rows), 2, &mut joined).is_ok());
    assert_eq!(joined, vec![1.0, 2.0, 3.0, 4.0]);
    let uneven = vec![vec![1i8, 2], vec![3, 4, 5], vec![6, 7]];
    let mut stored = vec![0i8];
    let r = store_rows(
        Some(&uneven),
        2,
        &mut stored,
    );
    assert_eq!(r.unwrap_err().message(), "Dimension of vectors is inconsistent");
    assert_eq!(stored, vec![0, 1, 2]);
    let r = store_rows(
        None,
        2,
        &mut stored,
    );
    assert_eq!(r.unwrap_err().message(), "Null pointer: Array cannot be null");
    assert_eq!(stored, vec![0, 1, 2]);
    let mut unsigned = vec![9u8];
    let r = store_unsigned_reading(Some(&vec![vec![-1i8, 1]]), None, 2, &mut unsigned);
    assert!(r.is_ok());
    assert_eq!(unsigned, vec![9, 255, 1]);
}

#[test]
fn rows_are_stored_up_to_the_fault() {
    let rows = vec![vec![1u32, 2], vec![3, 4]];
    let fault = || Some(JniUtilError::Runtime("Exception in jni occurred".to_string()));
    let mut stored = vec![0u32];
    let r = store_reading(Some(&rows), fault(), 2, &mut stored);
    assert_eq!(r.unwrap_err().message(), "Exception in jni occurred");
    assert_eq!(stored, vec![0, 1, 2, 3, 4]);
    let r = store_reading(Some(&rows), fault(), 3, &mut stored);
    assert_eq!(r.unwrap_err().message(), "Dimension of vectors is inconsistent");
    assert_eq!(stored.len(), 5);
    assert!(store_reading(Some(&rows), None, 2, &mut stored).is_ok());
    assert_eq!(stored.len(), 9);
    let mut unsigned = vec![];
    let r = store_unsigned_reading(Some(&vec![vec![-2i8]]), fault(), 1, &mut unsigned);
    assert!(r.is_err());
    assert_eq!(unsigned, vec![254u8]);
    assert!(store_unsigned_reading(None, None, 1, &mut unsigned).is_err());
}

#[test]
fn arrays_have_lengths_unless_null() {
    assert_eq!(
        numbers_of(Some(&vec![1, -2])).unwrap(),
        vec![1i64, -2]
    );
    assert!(numbers_of(None).is_err());
    assert_eq!(length_of(Some(4), false).unwrap(), 4);
    assert_eq!(
        length_of(None, false).unwrap_err().message(),
        "Null pointer: Array cannot be null"
    );
    assert_eq!(
        length_of(Some(4), true).unwrap_err().message(),
        "Unable to get array length"
    );
}

#[test]
fn last_entry_of_a_key_counts() {
    let mut map: StringMap<i32> = StringMap::new();
    assert!(add_map_entry(&mut map, Some("k".to_string()), 1).is_ok());
    assert!(add_map_entry(&mut map, Some("l".to_string()), 2).is_ok());
    assert!(add_map_entry(&mut map, Some("k".to_string()), 3).is_ok());
    assert_eq!(
        add_map_entry(&mut map, None, 4).unwrap_err().message(),
        "Null pointer: String cannot be null"
    );
    assert_eq!(map.len(), 2);
    assert_eq!(map.get("k"), Some(&3));
    assert_eq!(map.get("l"), Some(&2));
    map.clear();
    assert!(map.is_empty());
    assert_eq!(map.get("k"), None);
}

#[test]
fn cache_steps_run_from_exceptions_to_the_merge_checker() {
    let mut count = 0;
    while cache_step(count).is_some() {
        count += 1;
    }
    assert_eq!(count, 19);
    match cache_step(0) {
        Some(CacheStep::Class { class }) => assert_eq!(class, "java/io/IOException"),
        _ => panic!("a class comes first"),
    }
    match cache_step(18) {
        Some(CacheStep::StaticMethod { class, method, signature }) => {
            assert_eq!(class, "org/apache/lucene/index/MergeAbortChecker");
            assert_eq!(method, "isMergeAborted");
            assert_eq!(signature, "()Z");
        }
        _ => panic!("a static method comes last"),
    }
}

#[test]
fn entries_make_a_map_in_which_the_last_of_a_key_counts() {
    let entries = vec![
        ("m".to_string(), 16),
        ("ef".to_string(), 100),
        ("m".to_string(), 32),
    ];
    let map = collect_entries(entries);
    assert_eq!(map.get("m"), Some(&32));
    assert_eq!(map.get("ef"), Some(&100));
    assert_eq!(map.get("k"), None);
    assert_eq!(map.len(), 2);
    assert!(collect_entries::<i32>(vec![]).is_empty());
}

#[test]
fn a_row_of_another_length_is_refused() {
    assert!(check_row_length(3, 3).is_ok());
    assert!(check_row_length(0, 0).is_ok());
    for length in [2, 4] {
        assert_eq!(
            check_row_length(length, 3).unwrap_err().message(),
            "Dimension of vectors is inconsistent"
        );
    }
}
