use knn_jni_rs::nmslib_plan::NmslibCall;
use knn_jni_rs::nmslib_service_jni;
use knn_jni_rs::nmslib_service_jni::{
    free, loaded_index, query_results, translate_space_type, NmslibIndexWrapper,
};
use knn_jni_rs::nmslib_wrapper;
use knn_jni_rs::nmslib_wrapper::{
    check_load, check_load_with_stream, check_query, index_parameters, query_index,
    query_parameters, requested_space, CreateRequest, IndexWrapper, NmslibIndex, NmslibSpace,
};

#[test]
fn test_translate_space_type_l2() {
    assert_eq!(translate_space_type("l2").unwrap(), "l2");
}

#[test]
fn test_translate_space_type_l1() {
    assert_eq!(translate_space_type("l1").unwrap(), "l1");
}

#[test]
fn test_translate_space_type_linf() {
    assert_eq!(translate_space_type("linf").unwrap(), "linf");
}

#[test]
fn test_translate_space_type_cosinesimil() {
    assert_eq!(translate_space_type("cosinesimil").unwrap(), "cosinesimil");
}

#[test]
fn test_translate_space_type_inner_product() {
    assert_eq!(
        translate_space_type("innerproduct").unwrap(),
        "negdotprod"
    );
}

#[test]
fn test_translate_space_type_invalid() {
    assert!(translate_space_type("invalid_space").is_err());
}

#[test]
fn spaces_that_are_not_known_are_refused() {
    assert_eq!(translate_space_type("hamming").unwrap_err(), "Invalid spaceType");
    assert_eq!(
        nmslib_wrapper::translate_space_type("hamming").unwrap_err(),
        "Invalid spaceType: hamming"
    );
    assert_eq!(requested_space(None).unwrap_err(), "spaceType not found in parameters");
    assert_eq!(requested_space(Some("innerproduct")).unwrap(), "negdotprod");
    assert_eq!(
        nmslib_service_jni::requested_space(None).unwrap_err(),
        "Parameters must contain space_type"
    );
}

#[test]
fn parameters_are_written_as_settings() {
    assert_eq!(
        index_parameters(Some(512), Some(16), "indexThreadQty", Some(4)),
        vec!["efConstruction=512", "M=16", "indexThreadQty=4"]
    );
    assert_eq!(index_parameters(None, Some(-1), "indexThreadQty", None), vec!["M=-1"]);
    assert_eq!(query_parameters(Some(100)), vec!["efSearch=100"]);
    assert!(query_parameters(None).is_empty());
}

#[test]
fn creation_is_refused_in_order() {
    let good = CreateRequest {
        ids_are_null: false,
        vectors_address: 8,
        dim: 2,
        output_is_null: false,
        parameters_are_null: false,
    };
    assert!(good.check().is_ok());
    let mut bad = good;
    bad.parameters_are_null = true;
    assert_eq!(bad.check().unwrap_err(), "Parameters cannot be null");
    bad.output_is_null = true;
    assert_eq!(bad.check().unwrap_err(), "Index output stream cannot be null");
    bad.dim = 0;
    assert_eq!(
        bad.check().unwrap_err(),
        "Vectors dimensions cannot be less than or equal to 0"
    );
    bad.vectors_address = -1;
    assert_eq!(bad.check().unwrap_err(), "VectorsAddress cannot be less than 0");
    bad.ids_are_null = true;
    assert_eq!(bad.check().unwrap_err(), "IDs cannot be null");
    assert_eq!(bad.count_vectors(6, 3).unwrap_err(), "IDs cannot be null");
    assert_eq!(good.count_vectors(6, 3).unwrap(), 3);
    assert_eq!(good.count_vectors(1, 0).unwrap_err(), "Number of vectors cannot be 0");
    assert_eq!(
        good.count_vectors(6, 2).unwrap_err(),
        "Number of IDs does not match number of vectors"
    );
}

#[test]
fn loading_and_querying_need_arguments() {
    assert_eq!(check_load(true, true).unwrap_err(), "Index path cannot be null");
    assert_eq!(check_load(false, true).unwrap_err(), "Parameters cannot be null");
    assert_eq!(check_load_with_stream(true, true).unwrap_err(), "Read stream cannot be null");
    assert_eq!(check_query(true, 0).unwrap_err(), "Query Vector cannot be null");
    assert_eq!(check_query(false, 0).unwrap_err(), "Invalid pointer to index");
    assert!(check_query(false, 8).is_ok());
    assert_eq!(query_index(None).ef_search, -1);
    assert_eq!(query_index(Some(50)).ef_search, 50);
    assert_eq!(nmslib_service_jni::query_ef_search(None), -1);
}

#[test]
fn results_of_nmslib_are_taken_in_order() {
    let results = query_results(2, &[4, 5, 0], &[0.5f32, 0.25, 0.0]).unwrap();
    assert_eq!(results.len(), 2);
    assert_eq!((results[0].id, results[0].distance), (4, 0.5));
    assert_eq!((results[1].id, results[1].distance), (5, 0.25));
    assert_eq!(query_results(-1, &[], &[0.0f32; 0]).unwrap_err(), "NMSLIB query failed");
}

#[test]
fn wrappers_release_what_they_have() {
    let full = IndexWrapper {
        space: NmslibSpace { address: 8 },
        index: NmslibIndex { address: 16 },
    };
    assert_eq!(full.release_calls(), vec![NmslibCall::FreeIndex, NmslibCall::FreeSpace]);
    let half = IndexWrapper {
        space: NmslibSpace { address: 8 },
        index: NmslibIndex { address: 0 },
    };
    assert_eq!(half.release_calls(), vec![NmslibCall::FreeSpace]);
    assert_eq!(free(0), None);
    assert_eq!(free(8).unwrap().address, 8);
}

#[test]
fn panics_of_nmslib_are_described() {
    assert_eq!(nmslib_wrapper::panic_text(Some("boom")), "boom");
    assert_eq!(nmslib_wrapper::panic_text(None), "Unknown panic in native code");
    assert_eq!(nmslib_service_jni::panic_text(Some("boom")), "Native panic: boom");
    assert_eq!(nmslib_service_jni::panic_text(None), "Native panic: unknown error");
}

#[test]
fn a_load_hands_back_the_wrapper() {
    assert_eq!(loaded_index(NmslibIndexWrapper { address: 4096 }), 4096);
}
