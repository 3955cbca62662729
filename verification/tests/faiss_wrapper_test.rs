use knn_jni_rs::faiss_index_service::{IndexType, ParameterSetting};
use knn_jni_rs::faiss_wrapper::{
    adc_quantization_level, build_id_grouper_bitmap, check_adc_parameters, check_binary_query,
    check_index_path, check_init_shared_index_state, check_io_reader, check_query,
    check_range_search, check_range_search_result, check_training, count_training_vectors,
    create_binary_index_from_template, create_byte_index_from_template,
    create_index_from_template, extract_ivfpq_index, free, free_shared_index_state,
    get_integer_method_parameter, init_faiss_sq_index, init_index, init_library,
    init_shared_index_state, insert_to_index, internal_train_binary_index, internal_train_index,
    io_flags, is_index_ivfpq_l2, is_shared_index_state_required, load_binary_index,
    load_binary_index_with_stream, load_index, load_index_with_stream,
    load_index_with_stream_adc, load_index_with_stream_adc_params, query_results, range_results,
    search_settings, set_extra_parameters, set_shared_index_state, train_binary_index,
    training_description, training_metric, training_parameters, translate_space_to_metric,
    write_index, FaissWrapperError, FilterIdsSelectorType, IDSelectorJlongBitmap, IdFilter,
    QuantizerParameters, QueryResult, Release, TemplateRequest, TrainAction,
};
use knn_jni_rs::ffi::faiss_sys::{
    FaissIOReader, FaissIndex, FaissIndexBinary, FaissIndexBinaryIDMap, FaissIndexIDMap,
    FaissIndexIVFPQ, METRIC_INNER_PRODUCT, METRIC_L2,
};
use knn_jni_rs::jni_util::{BQQuantizationLevel, COSINESIMIL, HAMMING, INNER_PRODUCT, L2};
use knn_jni_rs::string_map::StringMap;

#[test]
fn test_translate_space_to_metric() {
    assert_eq!(translate_space_to_metric("l2").unwrap(), METRIC_L2);
    assert_eq!(
        translate_space_to_metric("innerproduct").unwrap(),
        METRIC_INNER_PRODUCT
    );
    assert_eq!(
        translate_space_to_metric("cosinesimil").unwrap(),
        METRIC_INNER_PRODUCT
    );
    assert_eq!(translate_space_to_metric("hamming").unwrap(), METRIC_L2);
    assert!(translate_space_to_metric("unknown").is_err());
}

#[test]
fn test_id_selector_jlong_bitmap() {
    let bitmap: [i64; 2] = [(1i64 << 0) | (1i64 << 63), 1i64 << 0];
    let selector = IDSelectorJlongBitmap::new(2, &bitmap);

    assert!(selector.is_member(0));
    assert!(!selector.is_member(1));
    assert!(selector.is_member(63));
    assert!(selector.is_member(64));
    assert!(!selector.is_member(65));
    assert!(!selector.is_member(128));
}

#[test]
fn test_init_library_is_noop() {
    init_library();
}

#[test]
fn test_filter_ids_selector_type() {
    assert_eq!(FilterIdsSelectorType::Bitmap as i32, 0);
    assert_eq!(FilterIdsSelectorType::Batch as i32, 1);
}

#[test]
fn test_translate_space_to_metric_l2_returns_metric_l2() {
    let result = translate_space_to_metric(L2);
    assert!(result.is_ok());
    assert_eq!(result.unwrap(), METRIC_L2);
}

#[test]
fn test_translate_space_to_metric_inner_product_returns_metric_ip() {
    let result = translate_space_to_metric(INNER_PRODUCT);
    assert!(result.is_ok());
    assert_eq!(result.unwrap(), METRIC_INNER_PRODUCT);
}

#[test]
fn test_translate_space_to_metric_cosinesimil_returns_metric_ip() {
    let result = translate_space_to_metric(COSINESIMIL);
    assert!(result.is_ok());
    assert_eq!(result.unwrap(), METRIC_INNER_PRODUCT);
}

#[test]
fn test_translate_space_to_metric_hamming_returns_metric_l2() {
    let result = translate_space_to_metric(HAMMING);
    assert!(result.is_ok());
    assert_eq!(result.unwrap(), METRIC_L2);
}

#[test]
fn test_translate_space_to_metric_invalid_returns_error() {
    let result = translate_space_to_metric("invalid_space");
    assert!(result.is_err());
    let err_msg = result.unwrap_err().message();
    assert!(err_msg.contains("Invalid spaceType"));
    assert!(err_msg.contains("invalid_space"));
}

#[test]
fn test_translate_space_to_metric_empty_string_returns_error() {
    let result = translate_space_to_metric("");
    assert!(result.is_err());
}

#[test]
fn test_id_selector_jlong_bitmap_empty_bitmap() {
    let bitmap: [i64; 2] = [0, 0];
    let selector = IDSelectorJlongBitmap::new(2, &bitmap);

    assert!(!selector.is_member(0));
    assert!(!selector.is_member(1));
    assert!(!selector.is_member(63));
    assert!(!selector.is_member(64));
    assert!(!selector.is_member(127));
}

#[test]
fn test_id_selector_jlong_bitmap_all_set() {
    let bitmap: [i64; 2] = [-1i64, -1i64];
    let selector = IDSelectorJlongBitmap::new(2, &bitmap);

    assert!(selector.is_member(0));
    assert!(selector.is_member(1));
    assert!(selector.is_member(32));
    assert!(selector.is_member(63));
    assert!(selector.is_member(64));
    assert!(selector.is_member(100));
    assert!(selector.is_member(127));
    assert!(!selector.is_member(128));
}

#[test]
fn test_id_selector_jlong_bitmap_specific_bits() {
    let mut bitmap: [i64; 2] = [0, 0];
    bitmap[0] |= 1i64 << 5;
    bitmap[0] |= 1i64 << 10;
    bitmap[0] |= 1i64 << 42;
    bitmap[1] |= 1i64 << (70 - 64);

    let selector = IDSelectorJlongBitmap::new(2, &bitmap);

    assert!(selector.is_member(5));
    assert!(selector.is_member(10));
    assert!(selector.is_member(42));
    assert!(selector.is_member(70));
    assert!(!selector.is_member(0));
    assert!(!selector.is_member(6));
    assert!(!selector.is_member(11));
    assert!(!selector.is_member(43));
    assert!(!selector.is_member(71));
}

#[test]
fn test_id_selector_jlong_bitmap_single_word() {
    let bitmap: [i64; 1] = [0b1010_1010];
    let selector = IDSelectorJlongBitmap::new(1, &bitmap);

    assert!(!selector.is_member(0));
    assert!(selector.is_member(1));
    assert!(!selector.is_member(2));
    assert!(selector.is_member(3));
    assert!(!selector.is_member(4));
    assert!(selector.is_member(5));
    assert!(!selector.is_member(6));
    assert!(selector.is_member(7));
    assert!(!selector.is_member(8));
    assert!(!selector.is_member(64));
}

#[test]
fn test_id_selector_jlong_bitmap_large_ids() {
    let num_words = (1024 / 64) + 1;
    let mut bitmap = vec![0i64; num_words];
    bitmap[128 / 64] |= 1i64 << (128 % 64);
    bitmap[1024 / 64] |= 1i64 << (1024 % 64);

    let selector = IDSelectorJlongBitmap::new(num_words, &bitmap);

    assert!(selector.is_member(128));
    assert!(selector.is_member(1024));
    assert!(!selector.is_member(0));
    assert!(!selector.is_member(127));
    assert!(!selector.is_member(129));
    assert!(!selector.is_member(1023));
    assert!(!selector.is_member(1025));
}

#[test]
fn test_free_null_guard_logic() {
    let ptr = FaissIndex { address: 0 };
    assert!(ptr.is_null());
    let ptr_binary = FaissIndexBinary { address: 0 };
    assert!(ptr_binary.is_null());
}

#[test]
fn test_is_index_ivfpq_l2_null_guard_logic() {
    let index = FaissIndex { address: 0 };
    assert!(index.is_null());
    assert!(!is_index_ivfpq_l2(index, FaissIndexIVFPQ { address: 8 }, METRIC_L2));
}

#[test]
fn test_get_integer_method_parameter_found() {
    let mut params: StringMap<i64> = StringMap::new();
    params.insert("ef_search".to_string(), 200);

    let result = get_integer_method_parameter(&params, "ef_search", 16);
    assert_eq!(result, 200);
}

#[test]
fn test_get_integer_method_parameter_not_found() {
    let mut params: StringMap<i64> = StringMap::new();
    params.insert("ef_search".to_string(), 200);

    let result = get_integer_method_parameter(&params, "nprobes", 1);
    assert_eq!(result, 1);
}

#[test]
fn faiss_wrapper_test_get_integer_method_parameter_empty_map() {
    let params: StringMap<i64> = StringMap::new();

    let result = get_integer_method_parameter(&params, "ef_search", 16);
    assert_eq!(result, 16);
}

#[test]
fn test_faiss_wrapper_error_display() {
    let err = FaissWrapperError::Runtime("test error".to_string());
    assert_eq!(err.message(), "test error");

    let err = FaissWrapperError::NullPointer("null ptr".to_string());
    assert_eq!(err.message(), "Null pointer: null ptr");
}

#[test]
fn test_free_null_does_not_crash() {
    assert_eq!(free(0, 0), Release::Nothing);
    assert_eq!(free(0, 1), Release::Nothing);
}

#[test]
fn test_id_selector_jlong_bitmap_correctness_word_boundaries() {
    let mut bitmap = [0i64; 3];
    bitmap[0] |= 1i64 << 63;
    bitmap[1] |= 1i64 << 0;
    bitmap[1] |= 1i64 << 63;
    bitmap[2] |= 1i64 << 0;

    let selector = IDSelectorJlongBitmap::new(3, &bitmap);

    assert!(selector.is_member(63), "bit 63 should be set");
    assert!(selector.is_member(64), "bit 64 should be set");
    assert!(selector.is_member(127), "bit 127 should be set");
    assert!(selector.is_member(128), "bit 128 should be set");

    assert!(!selector.is_member(62), "bit 62 should not be set");
    assert!(!selector.is_member(65), "bit 65 should not be set");
    assert!(!selector.is_member(126), "bit 126 should not be set");
    assert!(!selector.is_member(129), "bit 129 should not be set");

    assert!(!selector.is_member(0), "bit 0 should not be set");
    assert!(!selector.is_member(191), "bit 191 should not be set");
    assert!(!selector.is_member(192), "bit 192 out of bounds");

    assert!(!selector.is_member(1), "bit 1 should not be set");
    assert!(!selector.is_member(32), "bit 32 should not be set");
    assert!(!selector.is_member(96), "bit 96 should not be set");
    assert!(!selector.is_member(160), "bit 160 should not be set");
}

#[test]
fn negative_ids_are_never_selected() {
    let bitmap: [i64; 1] = [-1];
    let selector = IDSelectorJlongBitmap::new(1, &bitmap);
    assert!(!selector.is_member(-1));
    assert!(!selector.is_member(i64::MIN));
}

#[test]
fn jvm_errors_of_operations_are_described() {
    let err = FaissWrapperError::Jni(jni::errors::Error::JavaException);
    assert_eq!(err.message(), "JNI error: Java exception was thrown");
}

#[test]
fn releases_what_there_is() {
    assert_eq!(free(40, 0), Release::Index(FaissIndex { address: 40 }));
    assert_eq!(free(40, 1), Release::BinaryIndex(FaissIndexBinary { address: 40 }));
    assert_eq!(free_shared_index_state(0), None);
    assert_eq!(free_shared_index_state(8), Some(8));
}

#[test]
fn query_stops_at_the_first_missing_neighbour() {
    let ids = [7i64, 3, -1, 9];
    let distances = [0.5f32, 1.5, 2.5, 3.5];
    assert_eq!(
        query_results(&ids, &distances, &IdFilter::new(None, 0)),
        vec![
            QueryResult { id: 7, distance: 0.5 },
            QueryResult { id: 3, distance: 1.5 },
        ]
    );
    let full = [1i64, 2];
    assert_eq!(
        query_results(&full, &[10i32, 20], &IdFilter::new(None, 0)),
        vec![
            QueryResult { id: 1, distance: 10 },
            QueryResult { id: 2, distance: 20 },
        ]
    );
}

#[test]
fn query_keeps_what_the_filter_selects() {
    let ids = [7i64, 3, 65, -1];
    let distances = [1i32, 2, 3, 4];
    let words = [1i64 << 3, 1i64 << 1];
    assert_eq!(
        query_results(&ids, &distances, &IdFilter::new(Some(&words), 0)),
        vec![
            QueryResult { id: 3, distance: 2 },
            QueryResult { id: 65, distance: 3 },
        ]
    );
    let listed = [65i64, 7];
    assert_eq!(
        query_results(&ids, &distances, &IdFilter::new(Some(&listed), 1)),
        vec![
            QueryResult { id: 7, distance: 1 },
            QueryResult { id: 65, distance: 3 },
        ]
    );
    assert_eq!(query_results(&ids, &distances, &IdFilter::new(Some(&[]), 1)), vec![]);
}

#[test]
fn range_search_is_limited_by_the_window() {
    let labels = [5i64, 6, 7];
    let distances = [1i32, 2, 3];
    let filter = IdFilter::new(None, 0);
    assert_eq!(range_results(&labels, &distances, &filter, 10).unwrap().len(), 3);
    assert_eq!(
        range_results(&labels, &distances, &filter, 2).unwrap(),
        vec![
            QueryResult { id: 5, distance: 1 },
            QueryResult { id: 6, distance: 2 },
        ]
    );
    assert_eq!(range_results(&labels, &distances, &filter, 0), Some(vec![]));
    assert_eq!(range_results(&labels, &distances, &filter, -1), None);
    let listed = [7i64];
    assert_eq!(
        range_results(&labels, &distances, &IdFilter::new(Some(&listed), 1), 1).unwrap(),
        vec![QueryResult { id: 7, distance: 3 }]
    );
}

#[test]
fn queries_need_a_vector_and_an_index() {
    assert_eq!(check_query(true, 0).unwrap_err().message(), "Query Vector cannot be null");
    assert_eq!(check_query(false, 0).unwrap_err().message(), "Invalid pointer to index");
    assert_eq!(check_query(false, 16).unwrap(), FaissIndexIDMap { address: 16 });
    assert_eq!(check_query(false, 16).unwrap().as_index(), FaissIndex { address: 16 });
    assert_eq!(
        check_binary_query(false, 16).unwrap(),
        FaissIndexBinaryIDMap { address: 16 }
    );
    assert_eq!(
        check_binary_query(false, 0).unwrap_err().message(),
        "Invalid pointer to index"
    );
    assert_eq!(
        check_range_search(false, 0).unwrap_err().message(),
        "Invalid pointer to indexReader"
    );
    assert_eq!(
        check_range_search_result(true).unwrap_err().message(),
        "Failed to create RangeSearchResult"
    );
}

#[test]
fn search_parameters_go_to_the_index_that_takes_them() {
    assert_eq!(
        search_settings(Some(10), Some(2), true, true),
        vec![ParameterSetting::EfSearch(10), ParameterSetting::Nprobe(2)]
    );
    assert_eq!(search_settings(Some(10), Some(2), false, true), vec![ParameterSetting::Nprobe(2)]);
    assert_eq!(search_settings(None, Some(2), true, false), vec![]);
}

#[test]
fn training_parameters_are_set_in_order() {
    let parameters = training_parameters(Some(128), Some(64), Some(8), None);
    let index = FaissIndex { address: 8 };
    assert_eq!(
        set_extra_parameters(&parameters, index, true, true),
        vec![
            ParameterSetting::Nprobe(8),
            ParameterSetting::EfConstruction(128),
            ParameterSetting::EfSearch(64),
        ]
    );
    assert_eq!(
        set_extra_parameters(&parameters, index, true, false),
        vec![ParameterSetting::Nprobe(8)]
    );
    assert_eq!(
        set_extra_parameters(&parameters, FaissIndex { address: 0 }, true, true),
        vec![]
    );
    let few = training_parameters(None, Some(64), None, None);
    assert_eq!(
        set_extra_parameters(&few, index, true, true),
        vec![ParameterSetting::EfSearch(64)]
    );
}

#[test]
fn a_coarse_quantizer_has_parameters_of_its_own() {
    let index = FaissIndex { address: 8 };
    let quantizer = QuantizerParameters { ef_construction: Some(6), ef_search: Some(5) };
    let parameters = training_parameters(None, Some(64), None, Some(quantizer));
    assert_eq!(
        set_extra_parameters(&parameters, index, true, false),
        vec![
            ParameterSetting::QuantizerEfSearch(5),
            ParameterSetting::QuantizerEfConstruction(6),
        ]
    );
    assert_eq!(
        set_extra_parameters(&parameters, index, false, true),
        vec![ParameterSetting::EfSearch(64)]
    );
    let quantizer = QuantizerParameters { ef_construction: None, ef_search: Some(5) };
    let parameters = training_parameters(None, None, Some(3), Some(quantizer));
    assert_eq!(
        set_extra_parameters(&parameters, index, true, false),
        vec![ParameterSetting::Nprobe(3), ParameterSetting::QuantizerEfSearch(5)]
    );
    assert_eq!(set_extra_parameters(&parameters, index, false, false), vec![]);
}

#[test]
fn only_untrained_indices_are_trained() {
    let index = FaissIndex { address: 8 };
    assert_eq!(internal_train_index(index, false, 0, 0), vec![TrainAction::TrainIndex]);
    assert_eq!(internal_train_index(index, false, 2, 1), vec![]);
    assert_eq!(internal_train_index(FaissIndex { address: 0 }, true, 2, 0), vec![]);
    assert!(internal_train_binary_index(FaissIndexBinary { address: 8 }, 0));
    assert!(!internal_train_binary_index(FaissIndexBinary { address: 0 }, 0));
}

#[test]
fn an_ivf_index_has_its_quantizer_trained_first() {
    let index = FaissIndex { address: 8 };
    assert_eq!(
        internal_train_index(index, true, 2, 0),
        vec![
            TrainAction::TrainQuantizer,
            TrainAction::MakeDirectMap,
            TrainAction::TrainIndex,
        ]
    );
    assert_eq!(
        internal_train_index(index, true, 1, 0),
        vec![TrainAction::MakeDirectMap, TrainAction::TrainIndex]
    );
    assert_eq!(internal_train_index(index, true, 0, 1), vec![TrainAction::MakeDirectMap]);
}

#[test]
fn requests_are_refused_in_order() {
    assert_eq!(
        init_index(1, false).unwrap_err().message(),
        "init_index: use IndexService trait dispatch via faiss_service_jni"
    );
    assert_eq!(
        init_index(0, true).unwrap_err().message(),
        "Vectors dimensions cannot be less than or equal to 0"
    );
    assert_eq!(init_index(1, true).unwrap_err().message(), "Parameters cannot be null");
    assert_eq!(init_faiss_sq_index(1, true).unwrap_err().message(), "Parameters cannot be null");
    assert_eq!(
        init_faiss_sq_index(1, false).unwrap_err().message(),
        "init_faiss_sq_index: use BinaryIndexService trait dispatch via faiss_service_jni"
    );
    assert_eq!(insert_to_index(true, 0, 0).unwrap_err().message(), "IDs cannot be null");
    assert_eq!(
        insert_to_index(false, 0, 0).unwrap_err().message(),
        "VectorsAddress cannot be less than 0"
    );
    assert_eq!(
        insert_to_index(false, 1, 0).unwrap_err().message(),
        "Vectors dimensions cannot be less than or equal to 0"
    );
    assert_eq!(
        insert_to_index(false, 1, 1).unwrap_err().message(),
        "insert_to_index: use IndexService trait dispatch via faiss_service_jni"
    );
    assert_eq!(
        write_index(true).unwrap_err().message(),
        "Index output stream cannot be null"
    );
    assert_eq!(
        write_index(false).unwrap_err().message(),
        "write_index: use IndexService trait dispatch via faiss_service_jni"
    );
}

fn request(dim: i32) -> TemplateRequest {
    TemplateRequest {
        ids_are_null: false,
        vectors_address: 64,
        dim,
        output_is_null: false,
        template_is_null: false,
    }
}

#[test]
fn templates_are_filled_with_matching_vectors() {
    let mut bad = request(12);
    bad.template_is_null = true;
    assert_eq!(
        bad.check(IndexType::Float).unwrap_err().message(),
        "Template index cannot be null"
    );
    assert!(request(12).check(IndexType::Float).is_ok());
    assert_eq!(
        request(12).check(IndexType::Binary).unwrap_err().message(),
        "Dimensions should be multiple of 8"
    );
    match create_index_from_template(bad, 24, 2) {
        Err(e) => assert_eq!(e.message(), "Template index cannot be null"),
        Ok(_) => panic!("there is no template"),
    }
    let plan = create_index_from_template(request(2), 6, 3).unwrap();
    assert_eq!(plan.num_vectors, 3);
    match create_index_from_template(request(2), 6, 2) {
        Err(e) => assert_eq!(e.message(), "Number of IDs does not match number of vectors"),
        Ok(_) => panic!("there are three vectors"),
    }
    assert!(request(16).check(IndexType::Binary).is_ok());
    assert_eq!(create_binary_index_from_template(request(16), 6, 3).unwrap().num_vectors, 3);
    assert_eq!(create_byte_index_from_template(request(3), 6, 2).unwrap().num_vectors, 2);
}

#[test]
fn training_needs_parameters() {
    assert_eq!(
        check_training(IndexType::Binary, true, 8).unwrap_err().message(),
        "Parameters cannot be null"
    );
    assert_eq!(
        check_training(IndexType::Binary, false, -9).unwrap_err().message(),
        "Dimensions should be multiple of 8"
    );
    assert!(check_training(IndexType::Binary, false, -16).is_ok());
    assert!(check_training(IndexType::Float, false, 9).is_ok());
    assert_eq!(training_metric(None).unwrap_err().message(), "spaceType not found");
    assert_eq!(
        training_metric(Some("l3")).unwrap_err().message(),
        "Invalid spaceType: l3"
    );
    assert_eq!(training_metric(Some("l2")).unwrap(), METRIC_L2);
    assert_eq!(
        training_description(None).unwrap_err().message(),
        "index_description not found"
    );
    assert_eq!(training_description(Some("Flat".to_string())).unwrap(), "Flat");
    assert_eq!(count_training_vectors(IndexType::Float, 17, 8), 2);
    assert_eq!(count_training_vectors(IndexType::Binary, 17, 16), 8);
    assert_eq!(train_binary_index().kind, IndexType::Binary);
}

#[test]
fn loading_needs_a_source_and_an_index() {
    assert_eq!(io_flags(), 19);
    assert_eq!(check_index_path(true).unwrap_err().message(), "Index path cannot be null");
    assert_eq!(load_index(0, FaissIndex { address: 8 }).unwrap(), 8);
    assert_eq!(
        load_index(1, FaissIndex { address: 8 }).unwrap_err().message(),
        "Failed to load index from path"
    );
    assert_eq!(
        load_binary_index(0, FaissIndexBinary { address: 0 }).unwrap_err().message(),
        "Failed to load binary index from path"
    );
    assert_eq!(
        check_io_reader(FaissIOReader { address: 0 }).unwrap_err().message(),
        "IOReader cannot be null"
    );
    assert_eq!(load_index_with_stream(FaissIndex { address: 8 }).unwrap(), 8);
    assert_eq!(
        load_index_with_stream(FaissIndex { address: 0 }).unwrap_err().message(),
        "Failed to load index from stream"
    );
    assert_eq!(
        load_binary_index_with_stream(FaissIndexBinary { address: 0 }).unwrap_err().message(),
        "Failed to load binary index from stream"
    );
}

#[test]
fn asymmetric_distances_take_one_bit() {
    assert_eq!(
        check_adc_parameters(true).unwrap_err().message(),
        "Method params cannot be null"
    );
    assert_eq!(
        adc_quantization_level(None).unwrap_err().message(),
        "Quantization level not specified in params"
    );
    assert_eq!(
        adc_quantization_level(Some("x")).unwrap_err().message(),
        "load adc stream called without a quantization level"
    );
    assert_eq!(
        adc_quantization_level(Some("ScalarQuantizationParams_1")).unwrap(),
        BQQuantizationLevel::OneBit
    );
    let load = load_index_with_stream_adc_params;
    assert_eq!(load(BQQuantizationLevel::OneBit, Some("l2")).unwrap(), METRIC_L2);
    assert_eq!(
        load(BQQuantizationLevel::OneBit, None).unwrap_err().message(),
        "space type not specified in params"
    );
    assert_eq!(
        load(BQQuantizationLevel::TwoBit, Some("l3")).unwrap_err().message(),
        "Invalid spaceType: l3"
    );
    assert_eq!(
        load(BQQuantizationLevel::FourBit, Some("l2")).unwrap_err().message(),
        "ADC not supported for 2 or 4 bit."
    );
    assert_eq!(
        load(BQQuantizationLevel::Unquantized, Some("l2")).unwrap_err().message(),
        "load adc stream called without a quantization level"
    );
    assert_eq!(
        load_index_with_stream_adc(FaissIndex { address: 0 }).unwrap_err().message(),
        "Failed to load ADC index from stream. knn_shim_load_index_adc returned null."
    );
}

#[test]
fn shared_state_is_for_ivfpq_l2() {
    let ivfpq = FaissIndexIVFPQ { address: 8 };
    assert!(is_shared_index_state_required(8, ivfpq, METRIC_L2));
    assert!(!is_shared_index_state_required(8, ivfpq, METRIC_INNER_PRODUCT));
    assert!(!is_shared_index_state_required(8, FaissIndexIVFPQ { address: 0 }, METRIC_L2));
    assert_eq!(
        extract_ivfpq_index(FaissIndex { address: 0 }, ivfpq).unwrap_err().message(),
        "Unable to extract IVFPQ index. Index pointer is null."
    );
    assert_eq!(
        extract_ivfpq_index(FaissIndex { address: 8 }, FaissIndexIVFPQ { address: 0 })
            .unwrap_err()
            .message(),
        "Unable to extract IVFPQ index. IVFPQ index not present."
    );
    assert_eq!(
        check_init_shared_index_state(false).unwrap_err().message(),
        "Unable to init shared index state from index. index is not of type IVFPQ-l2"
    );
    assert_eq!(init_shared_index_state(24).unwrap(), 24);
    assert_eq!(
        init_shared_index_state(0).unwrap_err().message(),
        "Failed to initialize IVFPQ precomputed table"
    );
    assert_eq!(
        set_shared_index_state(false).unwrap_err().message(),
        "Unable to set shared index state from index. index is not of type IVFPQ-l2"
    );
}

#[test]
fn bitmap_of_parents_selects_the_parents() {
    assert_eq!(build_id_grouper_bitmap(None), Vec::<u64>::new());
    assert_eq!(build_id_grouper_bitmap(Some(&[])), vec![0u64]);
    let parents = [0i32, 63, 64, -5];
    let words = build_id_grouper_bitmap(Some(&parents));
    assert_eq!(words, vec![1u64 | (1u64 << 63), 1u64]);
    let signed: Vec<i64> = words.iter().map(|&w| w as i64).collect();
    let selector = IDSelectorJlongBitmap::new(signed.len(), &signed);
    for id in 0..200i64 {
        assert_eq!(selector.is_member(id), parents.contains(&(id as i32)));
    }
}
