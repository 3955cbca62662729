use knn_jni_rs::commons::{
    parameter_source, storage_address, store_binary_vector_data, store_byte_vector_data,
    store_vector_data,
    ParameterSource, COARSE_QUANTIZER, COSINESIMIL, EF_CONSTRUCTION,
    EF_CONSTRUCTION_NMSLIB, EF_SEARCH, FAISS_NAME, HAMMING, INDEX_DESCRIPTION,
    INDEX_THREAD_QUANTITY, INNER_PRODUCT, L1, L2, LINF, M, METHOD, M_NMSLIB, NEG_DOT_PRODUCT,
    NMSLIB_NAME, NPROBES, PARAMETERS, SPACE_TYPE, TRAINING_DATASET_SIZE_LIMIT,
};
use knn_jni_rs::string_map::StringMap;

#[test]
fn commons_test_constants() {
    assert_eq!(FAISS_NAME, "faiss");
    assert_eq!(NMSLIB_NAME, "nmslib");
    assert_eq!(EF_SEARCH, "ef_search");
    assert_eq!(M_NMSLIB, "M");
}

#[test]
fn commons_test_all_space_type_constants() {
    assert_eq!(L2, "l2");
    assert_eq!(L1, "l1");
    assert_eq!(LINF, "linf");
    assert_eq!(COSINESIMIL, "cosinesimil");
    assert_eq!(INNER_PRODUCT, "innerproduct");
    assert_eq!(NEG_DOT_PRODUCT, "negdotprod");
    assert_eq!(HAMMING, "hamming");
}

#[test]
fn test_parameter_constants() {
    assert_eq!(NPROBES, "nprobes");
    assert_eq!(COARSE_QUANTIZER, "coarse_quantizer");
    assert_eq!(M, "m");
    assert_eq!(EF_CONSTRUCTION, "ef_construction");
    assert_eq!(EF_CONSTRUCTION_NMSLIB, "efConstruction");
    assert_eq!(SPACE_TYPE, "spaceType");
    assert_eq!(METHOD, "method");
    assert_eq!(INDEX_DESCRIPTION, "index_description");
    assert_eq!(PARAMETERS, "parameters");
    assert_eq!(TRAINING_DATASET_SIZE_LIMIT, "training_dataset_size_limit");
    assert_eq!(INDEX_THREAD_QUANTITY, "index_thread_qty");
}

fn float_rows(n: usize, dim: usize) -> Vec<Vec<f32>> {
    (0..n).map(|_| (0..dim).map(|j| j as f32).collect()).collect()
}

fn byte_rows(n: usize, dim: usize) -> Vec<Vec<i8>> {
    (0..n).map(|_| (0..dim).map(|j| j as i8).collect()).collect()
}

#[test]
fn test_store_vector_data_allocate_new() {
    let dim: usize = 3;
    let total_number_of_vectors: usize = 5;
    let vect = store_vector_data(
        None,
        &float_rows(total_number_of_vectors - 1, dim),
        total_number_of_vectors * dim,
        true,
    );
    assert_eq!(vect.len(), (total_number_of_vectors - 1) * dim);
    assert!(vect.capacity() >= total_number_of_vectors * dim);
}

#[test]
fn test_store_vector_data_append_to_existing() {
    let dim: usize = 3;
    let total_number_of_vectors: usize = 5;
    let first = store_vector_data(
        None,
        &float_rows(total_number_of_vectors - 1, dim),
        total_number_of_vectors * dim,
        true,
    );
    assert_eq!(first.len(), (total_number_of_vectors - 1) * dim);
    let vect = store_vector_data(Some(first), &float_rows(1, dim), 0, true);
    assert_eq!(vect.len(), total_number_of_vectors * dim);
    let mut idx = 0;
    for _i in 0..total_number_of_vectors {
        for j in 0..dim {
            assert_eq!(vect[idx], j as f32);
            idx += 1;
        }
    }
}

#[test]
fn test_store_vector_data_reset_clear() {
    let dim: usize = 3;
    let total_number_of_vectors: usize = 5;
    let initial_capacity = total_number_of_vectors * dim;
    let full = store_vector_data(
        None,
        &float_rows(total_number_of_vectors, dim),
        initial_capacity,
        true,
    );
    assert_eq!(full.len(), total_number_of_vectors * dim);
    let vect = store_vector_data(Some(full), &float_rows(1, dim), 0, false);
    assert_eq!(vect.len(), dim);
    assert!(vect.capacity() >= initial_capacity);
    for j in 0..dim {
        assert_eq!(vect[j], j as f32);
    }
}

#[test]
fn test_store_binary_vector_data_allocate_new() {
    let dim: usize = 3;
    let total_number_of_vectors: usize = 5;
    let initial_capacity = total_number_of_vectors * dim;
    let vect = store_binary_vector_data(
        None,
        &byte_rows(total_number_of_vectors - 1, dim),
        initial_capacity,
        true,
    );
    assert_eq!(vect.len(), (total_number_of_vectors - 1) * dim);
    assert!(vect.capacity() >= initial_capacity);
}

#[test]
fn test_store_binary_vector_data_append_to_existing() {
    let dim: usize = 3;
    let total_number_of_vectors: usize = 5;
    let first = store_binary_vector_data(
        None,
        &byte_rows(total_number_of_vectors - 1, dim),
        total_number_of_vectors * dim,
        true,
    );
    assert_eq!(first.len(), (total_number_of_vectors - 1) * dim);
    let vect = store_binary_vector_data(Some(first), &byte_rows(1, dim), 0, true);
    assert_eq!(vect.len(), total_number_of_vectors * dim);
    let mut idx = 0;
    for _i in 0..total_number_of_vectors {
        for j in 0..dim {
            assert_eq!(vect[idx], j as u8);
            idx += 1;
        }
    }
}

#[test]
fn test_store_binary_vector_data_reset_clear() {
    let dim: usize = 3;
    let total_number_of_vectors: usize = 5;
    let initial_capacity = total_number_of_vectors * dim;
    let full = store_binary_vector_data(
        None,
        &byte_rows(total_number_of_vectors, dim),
        initial_capacity,
        true,
    );
    assert_eq!(full.len(), total_number_of_vectors * dim);
    let vect = store_binary_vector_data(Some(full), &byte_rows(1, dim), 0, false);
    assert_eq!(vect.len(), dim);
    assert!(vect.capacity() >= initial_capacity);
    for j in 0..dim {
        assert_eq!(vect[j], j as u8);
    }
}

#[test]
fn test_store_byte_vector_data_allocate_new() {
    let dim: usize = 3;
    let total_number_of_vectors: usize = 5;
    let initial_capacity = total_number_of_vectors * dim;
    let vect = store_byte_vector_data(
        None,
        &byte_rows(total_number_of_vectors - 1, dim),
        initial_capacity,
        true,
    );
    assert_eq!(vect.len(), (total_number_of_vectors - 1) * dim);
    assert!(vect.capacity() >= initial_capacity);
}

#[test]
fn test_store_byte_vector_data_append_to_existing() {
    let dim: usize = 3;
    let total_number_of_vectors: usize = 5;
    let first = store_byte_vector_data(
        None,
        &byte_rows(total_number_of_vectors - 1, dim),
        total_number_of_vectors * dim,
        true,
    );
    assert_eq!(first.len(), (total_number_of_vectors - 1) * dim);
    let vect = store_byte_vector_data(Some(first), &byte_rows(1, dim), 0, true);
    assert_eq!(vect.len(), total_number_of_vectors * dim);
    let mut idx = 0;
    for _i in 0..total_number_of_vectors {
        for j in 0..dim {
            assert_eq!(vect[idx], j as i8);
            idx += 1;
        }
    }
}

#[test]
fn test_store_byte_vector_data_reset_clear() {
    let dim: usize = 3;
    let total_number_of_vectors: usize = 5;
    let initial_capacity = total_number_of_vectors * dim;
    let full = store_byte_vector_data(
        None,
        &byte_rows(total_number_of_vectors, dim),
        initial_capacity,
        true,
    );
    assert_eq!(full.len(), total_number_of_vectors * dim);
    let vect = store_byte_vector_data(Some(full), &byte_rows(1, dim), 0, false);
    assert_eq!(vect.len(), dim);
    assert!(vect.capacity() >= initial_capacity);
    for j in 0..dim {
        assert_eq!(vect[j], j as i8);
    }
}

#[test]
fn commons_test_get_integer_method_parameter_empty_map() {
    let map: StringMap<i32> = StringMap::new();
    assert!(map.is_empty());
    match parameter_source(&map, "ef_search", 16) {
        ParameterSource::DefaultValue(value) => assert_eq!(value, 16),
        ParameterSource::Object(_) => panic!("the map is empty"),
    }
}

#[test]
fn integer_parameter_comes_from_the_map() {
    let mut map: StringMap<&str> = StringMap::new();
    map.insert("ef_search".to_string(), "an object");
    match parameter_source(&map, "ef_search", 16) {
        ParameterSource::Object(object) => assert_eq!(*object, "an object"),
        ParameterSource::DefaultValue(_) => panic!("the map has the parameter"),
    }
    match parameter_source(&map, "nprobes", 4) {
        ParameterSource::DefaultValue(value) => assert_eq!(value, 4),
        ParameterSource::Object(_) => panic!("the map lacks the parameter"),
    }
}

#[test]
fn longer_rows_are_cut_to_the_first() {
    let rows = vec![vec![1i32, 2], vec![3, 4, 5], vec![6, 7]];
    assert_eq!(store_vector_data(None, &rows, 0, true), vec![1, 2, 3, 4, 6, 7]);
    let none: Vec<Vec<i32>> = vec![];
    assert_eq!(store_vector_data(Some(vec![9]), &none, 0, true), vec![9]);
    assert_eq!(store_vector_data(Some(vec![9]), &none, 0, false), Vec::<i32>::new());
}

#[test]
fn binary_rows_are_unsigned() {
    let rows = vec![vec![-1i8, 127], vec![-128, 0]];
    assert_eq!(store_binary_vector_data(None, &rows, 4, false), vec![255u8, 127, 128, 0]);
    assert_eq!(store_byte_vector_data(None, &rows, 4, false), vec![-1i8, 127, -128, 0]);
}

#[test]
fn stored_vectors_stay_where_they_are() {
    let first = storage_address(0, 4096);
    assert_eq!(first, 4096);
    assert_eq!(storage_address(first, 8192), first);
    let stored = store_vector_data(None, &vec![vec![1, 2], vec![3, 4]], 8, true);
    assert_eq!(
        store_vector_data(Some(stored.clone()), &vec![vec![5]], 0, true),
        vec![1, 2, 3, 4, 5]
    );
    assert_eq!(store_vector_data(Some(stored), &vec![vec![5]], 0, false), vec![5]);
}
