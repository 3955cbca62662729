use knn_jni_rs::faiss_index_service::{
    add_error, create_index_service, error_of_fault, made_binary_index, made_index, numbers_of,
    set_extra_parameters, set_extra_parameters_binary, vectors_have_numbers, BinaryIndexService, ByteIndexService, FaissIndexBinary,
    FaissMetricType, FloatIndexService, IndexService, IndexServiceError, IndexType, ParamValue,
    ParameterSetting, COARSE_QUANTIZER, EF_CONSTRUCTION, EF_SEARCH, NPROBES,
};
use knn_jni_rs::faiss_methods::{
    FaissError, FaissIndex, FaissIndexBinaryIDMap, FaissIndexIDMap, FaissMethods,
    FaissMethodsImpl, IO_FLAG_SKIP_STORAGE,
};
use knn_jni_rs::native_plan::Fault;
use knn_jni_rs::string_map::StringMap;

#[test]
fn test_create_index_service() {
    let float = create_index_service(IndexType::Float);
    let binary = create_index_service(IndexType::Binary);
    let byte = create_index_service(IndexType::Byte);
    assert_eq!(float.service.index_type(), IndexType::Float);
    assert_eq!(binary.service.index_type(), IndexType::Binary);
    assert_eq!(byte.service.index_type(), IndexType::Byte);
}

#[test]
fn test_param_value() {
    let mut params = StringMap::new();
    params.insert(EF_CONSTRUCTION.to_string(), ParamValue::Int(128));
    params.insert(EF_SEARCH.to_string(), ParamValue::Int(64));

    let mut sub = StringMap::new();
    sub.insert(NPROBES.to_string(), ParamValue::Int(8));
    params.insert(COARSE_QUANTIZER.to_string(), ParamValue::SubParams(sub));

    assert_eq!(params.len(), 3);
}

#[test]
fn extra_parameters_follow_the_kind_of_index() {
    let mut sub = StringMap::new();
    sub.insert(EF_SEARCH.to_string(), ParamValue::Int(5));
    sub.insert(EF_CONSTRUCTION.to_string(), ParamValue::Int(6));
    let mut params = StringMap::new();
    params.insert(EF_CONSTRUCTION.to_string(), ParamValue::Int(128));
    params.insert(EF_SEARCH.to_string(), ParamValue::Int(64));
    params.insert(NPROBES.to_string(), ParamValue::Int(8));
    params.insert(COARSE_QUANTIZER.to_string(), ParamValue::SubParams(sub));
    assert_eq!(
        set_extra_parameters(&params, true, false),
        vec![ParameterSetting::EfConstruction(128), ParameterSetting::EfSearch(64)]
    );
    assert_eq!(
        set_extra_parameters(&params, false, true),
        vec![
            ParameterSetting::Nprobe(8),
            ParameterSetting::QuantizerEfSearch(5),
            ParameterSetting::QuantizerEfConstruction(6),
        ]
    );
    assert_eq!(set_extra_parameters(&params, true, true).len(), 5);
    assert_eq!(set_extra_parameters(&params, false, false), vec![]);
    assert_eq!(set_extra_parameters_binary(&params, FaissIndexBinary { address: 8 }), vec![]);
}

#[test]
fn the_numbers_of_vectors_are_found() {
    assert_eq!(numbers_of(IndexType::Float, 4, 3, 2), (12, 8));
    assert_eq!(numbers_of(IndexType::Byte, 3, 1000, 500), (3000, 1500));
    assert_eq!(numbers_of(IndexType::Binary, 16, 3, 2), (6, 4));
    assert_eq!(numbers_of(IndexType::Binary, 7, 3, 2), (0, 0));
}

#[test]
fn vectors_and_ids_must_match() {
    let float = FloatIndexService::new();
    let plan = float.insert_to_index(4, 3, 2, Some(12)).unwrap();
    assert_eq!(plan.num_vectors, 3);
    assert_eq!(plan.thread_count, 2);
    match float.insert_to_index(4, 3, 2, None) {
        Err(e) => assert_eq!(e.message(), "Invalid argument: vectors_address pointer is null"),
        Ok(_) => panic!("there are no vectors"),
    }
    match float.insert_to_index(4, 3, 2, Some(3)) {
        Err(e) => assert_eq!(e.message(), "Invalid argument: Number of vectors cannot be 0"),
        Ok(_) => panic!("there is no whole vector"),
    }
    match float.insert_to_index(4, 3, 2, Some(8)) {
        Err(IndexServiceError::InvalidArgument(message)) => assert_eq!(
            message,
            "Number of IDs does not match number of vectors: num_ids=3, num_vectors=2, vec.len()=8, dim=4"
        ),
        _ => panic!("there are two vectors"),
    }
    let binary = BinaryIndexService::default();
    assert_eq!(binary.insert_to_index(16, 3, 0, Some(6)).unwrap().num_vectors, 3);
    match binary.insert_to_index(16, 2, 0, Some(6)) {
        Err(IndexServiceError::InvalidArgument(message)) => {
            assert_eq!(message, "Number of IDs does not match number of vectors")
        }
        _ => panic!("there are three vectors"),
    }
    let byte = ByteIndexService::default();
    assert_eq!(byte.insert_to_index(2, 3, 0, Some(6)).unwrap().num_vectors, 3);
    assert!(float.insert_to_index(-4, 1, 0, Some(8)).is_err());
}

#[test]
fn indices_are_written_where_there_is_one() {
    let service = FloatIndexService::default();
    assert!(service.write_index(8).is_ok());
    match service.write_index(0) {
        Err(e) => assert_eq!(e.message(), "Invalid argument: id_map_address pointer is null"),
        Ok(_) => panic!("there is no index"),
    }
    let binary = BinaryIndexService::new();
    assert_eq!(binary.init_faiss_sq_index(24).unwrap(), 24);
    assert_eq!(
        binary.init_faiss_sq_index(0).unwrap_err().message(),
        "Faiss error: Failed to initialize SQ index"
    );
    assert_eq!(binary.init_index(3).thread_count, 3);
}

#[test]
fn refused_vectors_are_described() {
    assert_eq!(
        add_error(IndexType::Float, -4, 0x1a2b, 3, 8, 255).message(),
        "Faiss error: faiss_IndexIDMap_add_with_ids failed: ret=-4, id_map=0x1a2b, n=3, dim=8, vec_ptr=0xff"
    );
    assert_eq!(
        add_error(IndexType::Binary, 1, 8, 3, 8, 8).message(),
        "Faiss error: faiss_IndexBinaryIDMap_add_with_ids failed"
    );
    assert_eq!(
        add_error(IndexType::Byte, 1, 8, 3, 8, 8).message(),
        "Faiss error: faiss_IndexIDMap_add_with_ids failed during batch insert"
    );
    assert_eq!(
        error_of_fault(Fault::Write("Failed to write index to disk".to_string())).message(),
        "Write error: Failed to write index to disk"
    );
    assert_eq!(error_of_fault(Fault::NotTrained).message(), "Index is not trained");
}

#[test]
fn metrics_have_the_numbers_of_faiss() {
    assert_eq!(FaissMetricType::MetricInnerProduct.code(), 0);
    assert_eq!(FaissMetricType::MetricL2.code(), 1);
    assert_eq!(FaissMetricType::MetricJensenShannon.code(), 22);
    assert_eq!(knn_jni_rs::faiss_methods::FaissMetricType::MetricJaccard.code(), 23);
}

#[test]
fn codes_of_faiss_become_errors() {
    let methods = FaissMethodsImpl::new();
    let sentinel = FaissIndex { address: 0xDEAD_BEEF };
    assert_eq!(methods.index_factory(0, sentinel).unwrap(), sentinel);
    assert_eq!(
        methods.index_factory(-2, sentinel).unwrap_err().message(),
        "Faiss index_factory failed (code=-2)"
    );
    assert_eq!(
        methods.index_binary_factory(3, FaissIndexBinary { address: 8 }).unwrap_err(),
        FaissError::IndexBinaryFactoryFailed(3)
    );
    assert_eq!(
        methods.index_id_map(4, FaissIndexIDMap { address: 8 }).unwrap_err().message(),
        "Faiss IndexIDMap creation failed (code=4)"
    );
    assert_eq!(
        methods
            .index_binary_id_map(5, FaissIndexBinaryIDMap { address: 8 })
            .unwrap_err()
            .message(),
        "Faiss IndexBinaryIDMap creation failed (code=5)"
    );
    assert_eq!(
        methods.write_index(6).unwrap_err().message(),
        "Faiss write_index failed (code=6)"
    );
    assert_eq!(
        methods.write_index_binary(7).unwrap_err().message(),
        "Faiss write_index_binary failed (code=7)"
    );
    assert!(methods.write_index(0).is_ok());
    assert_eq!(methods.write_index_binary_flags(true), IO_FLAG_SKIP_STORAGE);
    assert_eq!(methods.write_index_binary_flags(false), 0);
    assert_eq!(
        FaissError::IndexBinaryFactoryFailed(9).message(),
        "Faiss index_binary_factory failed (code=9)"
    );
}

#[test]
fn a_new_index_is_handed_back_by_its_id_map() {
    assert_eq!(made_index(FaissIndexIDMap { address: 64 }), 64);
    assert_eq!(made_binary_index(FaissIndexBinaryIDMap { address: 128 }), 128);
}

#[test]
fn binary_vectors_have_a_byte_for_eight_dimensions() {
    assert!(vectors_have_numbers(IndexType::Binary, 8));
    assert!(vectors_have_numbers(IndexType::Binary, -8));
    assert!(!vectors_have_numbers(IndexType::Binary, 7));
    assert!(!vectors_have_numbers(IndexType::Binary, -7));
    assert!(vectors_have_numbers(IndexType::Float, 1));
    assert!(!vectors_have_numbers(IndexType::Byte, 0));
}
