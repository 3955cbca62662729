//! Storage of vectors that Java hands over, and parameters that it passes.

use crate::asking;
use crate::java_objects;
use crate::java_objects::{buffer_size, or_show, show_int};
use crate::jni_util;
use crate::jvm;
use crate::string_map::StringMap;
use jni::objects::JObject;
use jni::JNIEnv;
use vstd::prelude::*;

verus! {

broadcast use asking::group_asking;

pub const FAISS_NAME: &'static str = "faiss";
pub const NMSLIB_NAME: &'static str = "nmslib";

pub const ILLEGAL_ARGUMENT_PATH: &'static str = "java/lang/IllegalArgumentException";

pub const SPACE_TYPE: &'static str = "spaceType";
pub const METHOD: &'static str = "method";
pub const INDEX_DESCRIPTION: &'static str = "index_description";
pub const PARAMETERS: &'static str = "parameters";
pub const TRAINING_DATASET_SIZE_LIMIT: &'static str = "training_dataset_size_limit";
pub const INDEX_THREAD_QUANTITY: &'static str = "index_thread_qty";

pub const L2: &'static str = "l2";
pub const L1: &'static str = "l1";
pub const LINF: &'static str = "linf";
pub const COSINESIMIL: &'static str = "cosinesimil";
pub const INNER_PRODUCT: &'static str = "innerproduct";
pub const NEG_DOT_PRODUCT: &'static str = "negdotprod";
pub const HAMMING: &'static str = "hamming";

pub const NPROBES: &'static str = "nprobes";
pub const COARSE_QUANTIZER: &'static str = "coarse_quantizer";
pub const M: &'static str = "m";
pub const M_NMSLIB: &'static str = "M";
pub const EF_CONSTRUCTION: &'static str = "ef_construction";
pub const EF_CONSTRUCTION_NMSLIB: &'static str = "efConstruction";
pub const EF_SEARCH: &'static str = "ef_search";

pub const SPACE_TYPE_FAISS_INDEX_JAVA_KNN_CONSTANTS: &'static str = "spaceType";
pub const QUANTIZATION_LEVEL_FAISS_INDEX_LOAD_PARAMETER_JAVA_KNN_CONSTANTS: &'static str =
    "quantizationLevel";

/// The length of the first row; zero where there is no row.
pub open spec fn inner_dimension<T>(rows: Seq<Vec<T>>) -> nat {
    if rows.len() == 0 {
        0
    } else {
        rows[0]@.len()
    }
}

/// No row is shorter than the first one.
pub open spec fn rows_reach<T>(rows: Seq<Vec<T>>) -> bool {
    forall|i: int| 0 <= i < rows.len() ==> (#[trigger] rows[i])@.len() >= inner_dimension(rows)
}

/// The first `dim` elements of each row, one row after the other.
pub open spec fn joined_heads<T>(rows: Seq<Vec<T>>, dim: nat) -> Seq<T>
    decreases rows.len(),
{
    if rows.len() == 0 {
        Seq::empty()
    } else {
        joined_heads(rows.drop_last(), dim) + rows.last()@.take(dim as int)
    }
}

/// What is stored before new rows come: nothing, unless they are appended.
pub open spec fn kept<T>(stored: Option<Vec<T>>, append: bool) -> Seq<T> {
    match stored {
        Some(vect) => if append {
            vect@
        } else {
            Seq::empty()
        },
        None => Seq::empty(),
    }
}

/// Where every row has the length of the first one, the rows are stored whole.
pub proof fn lemma_even_rows_whole<T>(rows: Seq<Vec<T>>, dim: nat)
    requires
        forall|i: int| 0 <= i < rows.len() ==> (#[trigger] rows[i])@.len() == dim,
    ensures
        joined_heads(rows, dim) == jni_util::joined_rows(rows),
        joined_heads(rows, dim).len() == rows.len() * dim,
    decreases rows.len(),
{
    if rows.len() > 0 {
        lemma_even_rows_whole(rows.drop_last(), dim);
        assert(rows.last()@.take(dim as int) =~= rows.last()@);
        assert((rows.len() - 1) * dim + dim == rows.len() * dim) by (nonlinear_arith);
    } else {
        assert(0 * dim == 0) by (nonlinear_arith);
    }
}

/// Storing some rows and appending others is storing them all at once, where the
/// first row has the same length in both.
pub proof fn lemma_append_continues<T>(first: Seq<Vec<T>>, second: Seq<Vec<T>>, dim: nat)
    ensures
        joined_heads(first, dim) + joined_heads(second, dim) == joined_heads(first + second, dim),
    decreases second.len(),
{
    if second.len() == 0 {
        assert(first + second =~= first);
        assert(joined_heads(first, dim) + joined_heads(second, dim) =~= joined_heads(first, dim));
    } else {
        lemma_append_continues(first, second.drop_last(), dim);
        assert((first + second).drop_last() =~= first + second.drop_last());
        assert(joined_heads(first, dim) + joined_heads(second, dim) =~= joined_heads(
            first + second.drop_last(),
            dim,
        ) + second.last()@.take(dim as int));
    }
}

/// Where vectors are stored: at the address where others are stored, and where there
/// are none, at that of the storage that was made for them.
pub open spec fn address_of_storage(memory_address: i64, made: i64) -> i64 {
    if memory_address == 0 {
        made
    } else {
        memory_address
    }
}

/// Where vectors are stored: `memory_address` is where others are stored, zero where
/// there are none, and `made` is where the storage lies that was made for them.
pub fn storage_address(memory_address: i64, made: i64) -> (address: i64)
    ensures
        address == address_of_storage(memory_address, made),
{
    if memory_address == 0 {
        made
    } else {
        memory_address
    }
}

/// Storing rows where nothing is stored, and then others where the first lie: the address
/// stays, and it holds the rows of both one after the other, or those of the second
/// alone where they are not appended.
pub proof fn lemma_store_twice<T>(
    first: Seq<Vec<T>>,
    second: Seq<Vec<T>>,
    made: i64,
    made_later: i64,
    stored: Vec<T>,
    first_append: bool,
    append: bool,
)
    requires
        made != 0,
        forall|i: int| 0 <= i < first.len() ==> (#[trigger] first[i])@.len() == inner_dimension(first),
        forall|i: int|
            0 <= i < second.len() ==> (#[trigger] second[i])@.len() == inner_dimension(second),
        stored@ == kept(None::<Vec<T>>, first_append) + joined_heads(first, inner_dimension(first)),
    ensures
        address_of_storage(0, made) != 0,
        address_of_storage(address_of_storage(0, made), made_later) == address_of_storage(0, made),
        kept(Some(stored), append) + joined_heads(second, inner_dimension(second)) == if append {
            jni_util::joined_rows(first) + jni_util::joined_rows(second)
        } else {
            jni_util::joined_rows(second)
        },
{
    lemma_even_rows_whole(first, inner_dimension(first));
    lemma_even_rows_whole(second, inner_dimension(second));
    assert(stored@ =~= jni_util::joined_rows(first));
    assert(Seq::<T>::empty() + jni_util::joined_rows(second) =~= jni_util::joined_rows(second));
}

/// A vector was asked for that has room for `capacity` elements.
pub open spec fn asked_for_room<T>(capacity: usize) -> bool {
    exists|made: Vec<T>| #[trigger] call_ensures(Vec::<T>::with_capacity, (capacity,), made)
}

fn opened<T>(stored: Option<Vec<T>>, initial_capacity: usize, append: bool) -> (vect: Vec<T>)
    ensures
        vect@ == kept(stored, append),
        stored is None ==> asked_for_room::<T>(initial_capacity),
{
    let mut vect = match stored {
        Some(vect) => vect,
        None => {
            let made: Vec<T> = Vec::with_capacity(initial_capacity);
            assert(call_ensures(Vec::<T>::with_capacity, (initial_capacity,), made));
            made
        },
    };
    if !append {
        vect.clear();
    }
    vect
}

/// Stores the rows of `data` behind `stored`, or in its place where they are not
/// appended. Of each row as many elements are stored as the first one has. Where nothing
/// is stored, room for `initial_capacity` elements is asked for; how much the allocator
/// then gives is left open.
pub fn store_vector_data<T: Copy>(
    stored: Option<Vec<T>>,
    data: &Vec<Vec<T>>,
    initial_capacity: usize,
    append: bool,
) -> (vect: Vec<T>)
    requires
        rows_reach(data@),
    ensures
        vect@ == kept(stored, append) + joined_heads(data@, inner_dimension(data@)),
        stored is None ==> asked_for_room::<T>(initial_capacity),
{
    let ghost before = kept(stored, append);
    let mut vect = opened(stored, initial_capacity, append);
    if data.len() == 0 {
        assert(vect@ =~= before + joined_heads(data@, 0));
        return vect;
    }
    let dim = data[0].len();
    let mut i: usize = 0;
    assert(vect@ =~= before + joined_heads(data@.take(0), dim as nat));
    while i < data.len()
        invariant
            i <= data@.len(),
            data@.len() > 0,
            dim == inner_dimension(data@),
            rows_reach(data@),
            vect@ =~= before + joined_heads(data@.take(i as int), dim as nat),
        decreases data@.len() - i,
    {
        let row = &data[i];
        assert(data@[i as int]@.len() >= dim);
        let ghost start = vect@;
        let mut j: usize = 0;
        while j < dim
            invariant
                j <= dim <= row@.len(),
                vect@ =~= start + row@.take(j as int),
            decreases dim - j,
        {
            vect.push(row[j]);
            j += 1;
            assert(row@.take(j as int) =~= row@.take(j - 1).push(row@[j - 1]));
        }
        i += 1;
        assert(data@.take(i as int).drop_last() =~= data@.take(i - 1));
    }
    assert(data@.take(i as int) =~= data@);
    vect
}

/// Stores the rows of `data`, bytes that stand for numbers from 0 to 255, as
/// `store_vector_data` does.
pub fn store_binary_vector_data(
    stored: Option<Vec<u8>>,
    data: &Vec<Vec<i8>>,
    initial_capacity: usize,
    append: bool,
) -> (vect: Vec<u8>)
    requires
        rows_reach(data@),
    ensures
        vect@ == kept(stored, append) + jni_util::unsigned_bytes(
            joined_heads(data@, inner_dimension(data@)),
        ),
        stored is None ==> asked_for_room::<u8>(initial_capacity),
{
    let mut vect = opened(stored, initial_capacity, append);
    let signed = store_vector_data(None, data, 0, true);
    assert(signed@ =~= joined_heads(data@, inner_dimension(data@)));
    jni_util::append_unsigned(&mut vect, &signed);
    vect
}

/// Stores the rows of `data`, signed bytes, as `store_vector_data` does.
pub fn store_byte_vector_data(
    stored: Option<Vec<i8>>,
    data: &Vec<Vec<i8>>,
    initial_capacity: usize,
    append: bool,
) -> (vect: Vec<i8>)
    requires
        rows_reach(data@),
    ensures
        vect@ == kept(stored, append) + joined_heads(data@, inner_dimension(data@)),
        stored is None ==> asked_for_room::<i8>(initial_capacity),
{
    store_vector_data(stored, data, initial_capacity, append)
}

/// Where the value of an integer parameter comes from.
pub enum ParameterSource<'a, V> {
    /// From an object that Java passed.
    Object(&'a V),
    /// From the default.
    DefaultValue(i32),
}

/// Where the value of the integer parameter `method_param` comes from: from the
/// map where it has the parameter.
pub fn parameter_source<'a, V>(
    method_params: &'a StringMap<V>,
    method_param: &str,
    default_value: i32,
) -> (source: ParameterSource<'a, V>)
    ensures
        match source {
            ParameterSource::Object(object) => method_params@.contains_pair(method_param@, *object),
            ParameterSource::DefaultValue(value) => {
                &&& !method_params@.dom().contains(method_param@)
                &&& value == default_value
            },
        },
{
    match method_params.get(method_param) {
        Some(object) => ParameterSource::Object(object),
        None => ParameterSource::DefaultValue(default_value),
    }
}

/// The value of the integer parameter `method_param`: what the Java number says that
/// the map has for it, and the default where the map has none.
pub fn get_integer_method_parameter(
    env: &mut JNIEnv<'_>,
    method_params: &StringMap<JObject<'_>>,
    method_param: &str,
    default_value: i32,
) -> (r: Result<i32, String>)
    ensures
        asking::only_asks(*old(env), *final(env)),
        if method_params@.dom().contains(method_param@) {
            java_objects::shows_int(
                &method_params@[method_param@],
                "Failed to call Integer.intValue(): "@,
                "Failed to extract int value from Integer object: "@,
                r,
            )
        } else {
            r == Ok::<i32, String>(default_value)
        },
{
    match parameter_source(method_params, method_param, default_value) {
        ParameterSource::Object(object) => show_int(
            env,
            object,
            "Failed to call Integer.intValue(): ",
            "Failed to extract int value from Integer object: ",
        ),
        ParameterSource::DefaultValue(value) => Ok(value),
    }
}

/// Every row is as long as the first one.
pub open spec fn rows_even<T>(rows: Seq<Vec<T>>) -> bool {
    forall|i: int| 0 <= i < rows.len() ==> (#[trigger] rows[i])@.len() == inner_dimension(rows)
}

/// What asking a two-dimensional Java array how many rows it has, and how long the
/// first one is, may come to.
pub open spec fn gives_shape(
    data: &JObject<'_>,
    no_first: Seq<char>,
    r: Result<(i32, usize), String>,
) -> bool {
    exists|count: jvm::JniResult<i32>| #[trigger]
        jvm::get_array_length_answers(data, count) && match count {
            Ok(n) => if n == 0 {
                r == Ok::<(i32, usize), String>((0, 0))
            } else {
                gives_width(data, no_first, n, r)
            },
            Err(e) => r matches Err(text) && java_objects::shows_of(
                e,
                "Failed to get outer array length: "@,
                text@,
            ),
        }
}

/// What asking for the length of the first of `count` rows may come to.
pub open spec fn gives_width(
    data: &JObject<'_>,
    no_first: Seq<char>,
    count: i32,
    r: Result<(i32, usize), String>,
) -> bool {
    exists|first: jvm::JniResult<JObject<'_>>| #[trigger]
        jvm::get_object_array_element_answers(data, 0, first) && match first {
            Ok(row) => exists|dim: jvm::JniResult<i32>| #[trigger]
                jvm::get_array_length_answers(&row, dim) && match dim {
                    Ok(d) => r matches Ok((n, width)) && n == count && width
                        == java_objects::element_count(d),
                    Err(e) => r matches Err(text) && java_objects::shows_of(
                        e,
                        "Failed to get inner array length: "@,
                        text@,
                    ),
                },
            Err(e) => r matches Err(text) && java_objects::shows_of(e, no_first, text@),
        }
}

/// How many rows a two-dimensional Java array has, and how long the first one is.
fn shape_of(env: &mut JNIEnv<'_>, data: &JObject<'_>, no_first: &str) -> (r: Result<
    (i32, usize),
    String,
>)
    ensures
        asking::only_asks(*old(env), *final(env)),
        gives_shape(data, no_first@, r),
        r matches Err(text) ==> {
            ||| java_objects::shows_of_jvm("Failed to get outer array length: "@, text@)
            ||| java_objects::shows_of_jvm(no_first@, text@)
            ||| java_objects::shows_of_jvm("Failed to get inner array length: "@, text@)
        },
{
    let count = asking::ask_length(env, data);
    assert(jvm::get_array_length_answers(data, count));
    let count = or_show(count, "Failed to get outer array length: ")?;
    if count == 0 {
        return Ok((0, 0));
    }
    let first = asking::ask_element(env, data, 0);
    assert(jvm::get_object_array_element_answers(data, 0, first));
    let first = or_show(first, no_first)?;
    let dim = asking::ask_length(env, &first);
    assert(jvm::get_array_length_answers(&first, dim));
    let dim = or_show(dim, "Failed to get inner array length: ")?;
    Ok((count, buffer_size(dim)))
}

/// What reading the first `dim` elements of row `i` of a Java `float[][]` may come to.
pub open spec fn gives_float_row(
    data: &JObject<'_>,
    i: i32,
    dim: usize,
    r: Result<Vec<u32>, String>,
) -> bool {
    exists|row: jvm::JniResult<JObject<'_>>| #[trigger]
        jvm::get_object_array_element_answers(data, i, row) && match row {
            Ok(object) => exists|numbers: jvm::JniResult<Vec<u32>>| #[trigger]
                jvm::get_float_array_region_answers(&object, dim as int, numbers)
                    && java_objects::shown(numbers, "Failed to get float array region: "@, r),
            Err(e) => r matches Err(text) && java_objects::shows_of(
                e,
                "Failed to get element from 2D float array: "@,
                text@,
            ),
        }
}

/// What reading `dim` elements of each of the `count` rows of a Java `float[][]` may come
/// to: every row, or what is said of one that cannot be read.
pub open spec fn reads_float_rows(
    data: &JObject<'_>,
    count: i32,
    dim: usize,
    r: Result<Vec<Vec<u32>>, String>,
) -> bool {
    match r {
        Ok(rows) => {
            &&& rows@.len() == java_objects::element_count(count)
            &&& forall|k: int|
                0 <= k < rows@.len() ==> gives_float_row(
                    data,
                    k as i32,
                    dim,
                    Ok(#[trigger] rows@[k]),
                )
        },
        Err(text) => exists|k: i32|
            0 <= k < count && #[trigger] gives_float_row(data, k, dim, Err(text)),
    }
}

/// What reading the rows of a Java `float[][]` may come to.
pub open spec fn gives_float_rows(data: &JObject<'_>, r: Result<Vec<Vec<u32>>, String>) -> bool {
    exists|shape: Result<(i32, usize), String>| #[trigger]
        gives_shape(data, "Failed to get first element of 2D float array: "@, shape) && match shape {
            Ok((count, dim)) => reads_float_rows(data, count, dim, r),
            Err(text) => r == Err::<Vec<Vec<u32>>, String>(text),
        }
}

/// The rows of a Java `float[][]` as bit patterns, each as far as the first one
/// reaches. A row that is shorter is an error.
pub fn float_rows(env: &mut JNIEnv<'_>, data: &JObject<'_>) -> (r: Result<Vec<Vec<u32>>, String>)
    ensures
        asking::only_asks(*old(env), *final(env)),
        gives_float_rows(data, r),
        match r {
            Ok(rows) => rows_even(rows@),
            Err(text) => {
                ||| java_objects::shows_of_jvm("Failed to get outer array length: "@, text@)
                ||| java_objects::shows_of_jvm(
                    "Failed to get first element of 2D float array: "@,
                    text@,
                )
                ||| java_objects::shows_of_jvm("Failed to get inner array length: "@, text@)
                ||| java_objects::shows_of_jvm("Failed to get element from 2D float array: "@, text@)
                ||| java_objects::shows_of_jvm("Failed to get float array region: "@, text@)
            },
        },
{
    let (count, dim) = shape_of(env, data, "Failed to get first element of 2D float array: ")?;
    let mut rows: Vec<Vec<u32>> = Vec::new();
    let mut i: i32 = 0;
    while i < count
        invariant
            asking::only_asks(*old(env), *env),
            gives_shape(
                data,
                "Failed to get first element of 2D float array: "@,
                Ok::<(i32, usize), String>((count, dim)),
            ),
            0 <= i <= java_objects::element_count(count),
            rows@.len() == i,
            forall|k: int| 0 <= k < rows@.len() ==> (#[trigger] rows@[k])@.len() == dim,
            forall|k: int|
                0 <= k < rows@.len() ==> gives_float_row(data, k as i32, dim, Ok(#[trigger] rows@[k])),
        decreases count - i,
    {
        let row = asking::ask_element(env, data, i);
        assert(jvm::get_object_array_element_answers(data, i, row));
        let row = match or_show(row, "Failed to get element from 2D float array: ") {
            Ok(row) => row,
            Err(text) => {
                let r = Err(text);
                assert(gives_float_row(data, i, dim, Err(r->Err_0)));
                assert(reads_float_rows(data, count, dim, r));
                return r;
            },
        };
        let numbers = jvm::get_float_array_region(env, &row, dim);
        assert(jvm::get_float_array_region_answers(&row, dim as int, numbers));
        let numbers = match or_show(numbers, "Failed to get float array region: ") {
            Ok(numbers) => numbers,
            Err(text) => {
                let r = Err(text);
                assert(gives_float_row(data, i, dim, Err(r->Err_0)));
                assert(reads_float_rows(data, count, dim, r));
                return r;
            },
        };
        assert(gives_float_row(data, i, dim, Ok(numbers)));
        rows.push(numbers);
        i = i + 1;
    }
    Ok(rows)
}

/// What reading the first `dim` elements of row `i` of a Java `byte[][]` may come to.
pub open spec fn gives_byte_row(
    data: &JObject<'_>,
    i: i32,
    dim: usize,
    r: Result<Vec<i8>, String>,
) -> bool {
    exists|row: jvm::JniResult<JObject<'_>>| #[trigger]
        jvm::get_object_array_element_answers(data, i, row) && match row {
            Ok(object) => exists|bytes: jvm::JniResult<Vec<i8>>| #[trigger]
                jvm::get_byte_array_region_answers(&object, dim as int, bytes)
                    && java_objects::shown(bytes, "Failed to get byte array elements: "@, r),
            Err(e) => r matches Err(text) && java_objects::shows_of(
                e,
                "Failed to get element from 2D byte array: "@,
                text@,
            ),
        }
}

/// What reading `dim` elements of each of the `count` rows of a Java `byte[][]` may come
/// to: every row, or what is said of one that cannot be read.
pub open spec fn reads_byte_rows(
    data: &JObject<'_>,
    count: i32,
    dim: usize,
    r: Result<Vec<Vec<i8>>, String>,
) -> bool {
    match r {
        Ok(rows) => {
            &&& rows@.len() == java_objects::element_count(count)
            &&& forall|k: int|
                0 <= k < rows@.len() ==> gives_byte_row(
                    data,
                    k as i32,
                    dim,
                    Ok(#[trigger] rows@[k]),
                )
        },
        Err(text) => exists|k: i32|
            0 <= k < count && #[trigger] gives_byte_row(data, k, dim, Err(text)),
    }
}

/// What reading the rows of a Java `byte[][]` may come to.
pub open spec fn gives_byte_rows(data: &JObject<'_>, r: Result<Vec<Vec<i8>>, String>) -> bool {
    exists|shape: Result<(i32, usize), String>| #[trigger]
        gives_shape(data, "Failed to get first element of 2D byte array: "@, shape) && match shape {
            Ok((count, dim)) => reads_byte_rows(data, count, dim, r),
            Err(text) => r == Err::<Vec<Vec<i8>>, String>(text),
        }
}

/// The rows of a Java `byte[][]`, each as far as the first one reaches. A row that is
/// shorter is an error.
pub fn byte_rows(env: &mut JNIEnv<'_>, data: &JObject<'_>) -> (r: Result<Vec<Vec<i8>>, String>)
    ensures
        asking::only_asks(*old(env), *final(env)),
        gives_byte_rows(data, r),
        match r {
            Ok(rows) => rows_even(rows@),
            Err(text) => {
                ||| java_objects::shows_of_jvm("Failed to get outer array length: "@, text@)
                ||| java_objects::shows_of_jvm(
                    "Failed to get first element of 2D byte array: "@,
                    text@,
                )
                ||| java_objects::shows_of_jvm("Failed to get inner array length: "@, text@)
                ||| java_objects::shows_of_jvm("Failed to get element from 2D byte array: "@, text@)
                ||| java_objects::shows_of_jvm("Failed to get byte array elements: "@, text@)
            },
        },
{
    let (count, dim) = shape_of(env, data, "Failed to get first element of 2D byte array: ")?;
    let mut rows: Vec<Vec<i8>> = Vec::new();
    let mut i: i32 = 0;
    while i < count
        invariant
            asking::only_asks(*old(env), *env),
            gives_shape(
                data,
                "Failed to get first element of 2D byte array: "@,
                Ok::<(i32, usize), String>((count, dim)),
            ),
            0 <= i <= java_objects::element_count(count),
            rows@.len() == i,
            forall|k: int| 0 <= k < rows@.len() ==> (#[trigger] rows@[k])@.len() == dim,
            forall|k: int|
                0 <= k < rows@.len() ==> gives_byte_row(data, k as i32, dim, Ok(#[trigger] rows@[k])),
        decreases count - i,
    {
        let row = asking::ask_element(env, data, i);
        assert(jvm::get_object_array_element_answers(data, i, row));
        let row = match or_show(row, "Failed to get element from 2D byte array: ") {
            Ok(row) => row,
            Err(text) => {
                let r = Err(text);
                assert(gives_byte_row(data, i, dim, Err(r->Err_0)));
                assert(reads_byte_rows(data, count, dim, r));
                return r;
            },
        };
        let bytes = jvm::get_byte_array_region(env, &row, dim);
        assert(jvm::get_byte_array_region_answers(&row, dim as int, bytes));
        let bytes = match or_show(bytes, "Failed to get byte array elements: ") {
            Ok(bytes) => bytes,
            Err(text) => {
                let r = Err(text);
                assert(gives_byte_row(data, i, dim, Err(r->Err_0)));
                assert(reads_byte_rows(data, count, dim, r));
                return r;
            },
        };
        assert(gives_byte_row(data, i, dim, Ok(bytes)));
        rows.push(bytes);
        i = i + 1;
    }
    Ok(rows)
}

proof fn lemma_joined_heads_held<T>(rows: Seq<Vec<T>>, k: int, dim: int)
    requires
        0 <= k <= rows.len(),
        0 <= dim,
        forall|i: int| 0 <= i < k ==> (#[trigger] rows[i])@.len() >= dim,
    ensures
        jni_util::holds_rows(joined_heads(rows.take(k), dim as nat), rows, k, dim),
    decreases k,
{
    if k == 0 {
        assert(0 * dim == 0) by (nonlinear_arith);
    } else {
        lemma_joined_heads_held(rows, k - 1, dim);
        assert(rows.take(k).drop_last() =~= rows.take(k - 1));
        jni_util::lemma_holds_one_more_row(
            joined_heads(rows.take(k - 1), dim as nat),
            rows,
            k - 1,
            dim,
        );
    }
}

/// Stored rows lie one after the other, behind what is kept of those that were stored before:
/// all of it where they are appended, and nothing else. Each row has as many elements as the
/// first one.
pub proof fn lemma_stored_rows<T: Copy>(
    stored: Option<Vec<T>>,
    data: &Vec<Vec<T>>,
    initial_capacity: usize,
    append: bool,
    vect: Vec<T>,
)
    requires
        forall|i: int|
            0 <= i < data@.len() ==> (#[trigger] data@[i])@.len() >= data@[0]@.len(),
        call_ensures(store_vector_data::<T>, (stored, data, initial_capacity, append), vect),
    ensures
        data@.len() == 0 && !append ==> vect@.len() == 0,
        data@.len() == 0 && append ==> vect@ == (match stored {
            Some(before) => before@,
            None => Seq::empty(),
        }),
        data@.len() > 0 ==> {
            let kept_len = match stored {
                Some(before) => if append {
                    before@.len() as int
                } else {
                    0
                },
                None => 0,
            };
            &&& kept_len <= vect@.len()
            &&& kept_len > 0 ==> vect@.take(kept_len) == stored->0@
            &&& jni_util::holds_rows(
                vect@.skip(kept_len),
                data@,
                data@.len() as int,
                data@[0]@.len() as int,
            )
        },
{
    let before = kept(stored, append);
    if data@.len() > 0 {
        let n = data@.len() as int;
        let dim = data@[0]@.len() as int;
        lemma_joined_heads_held(data@, n, dim);
        assert(data@.take(n) =~= data@);
        assert(vect@.skip(before.len() as int) =~= joined_heads(data@, dim as nat));
        assert(vect@.take(before.len() as int) =~= before);
    } else {
        assert(vect@ =~= before);
    }
}

/// Stored rows of signed bytes lie as `lemma_stored_rows` says.
pub proof fn lemma_stored_byte_rows(
    stored: Option<Vec<i8>>,
    data: &Vec<Vec<i8>>,
    initial_capacity: usize,
    append: bool,
    vect: Vec<i8>,
)
    requires
        data@.len() > 0,
        forall|i: int|
            0 <= i < data@.len() ==> (#[trigger] data@[i])@.len() >= data@[0]@.len(),
        call_ensures(store_byte_vector_data, (stored, data, initial_capacity, append), vect),
    ensures
        ({
            let kept_len = match stored {
                Some(before) => if append {
                    before@.len() as int
                } else {
                    0
                },
                None => 0,
            };
            &&& kept_len <= vect@.len()
            &&& kept_len > 0 ==> vect@.take(kept_len) == stored->0@
            &&& jni_util::holds_rows(
                vect@.skip(kept_len),
                data@,
                data@.len() as int,
                data@[0]@.len() as int,
            )
        }),
{
    let before = kept(stored, append);
    let n = data@.len() as int;
    let dim = data@[0]@.len() as int;
    lemma_joined_heads_held(data@, n, dim);
    assert(data@.take(n) =~= data@);
    assert(vect@.skip(before.len() as int) =~= joined_heads(data@, dim as nat));
    assert(vect@.take(before.len() as int) =~= before);
}

/// Stored rows of binary vectors lie as `lemma_stored_rows` says, each byte as the number from 0
/// to 255 that has its bits.
pub proof fn lemma_stored_binary_rows(
    stored: Option<Vec<u8>>,
    data: &Vec<Vec<i8>>,
    initial_capacity: usize,
    append: bool,
    vect: Vec<u8>,
)
    requires
        data@.len() > 0,
        forall|i: int|
            0 <= i < data@.len() ==> (#[trigger] data@[i])@.len() >= data@[0]@.len(),
        call_ensures(store_binary_vector_data, (stored, data, initial_capacity, append), vect),
    ensures
        ({
            let kept_len = match stored {
                Some(before) => if append {
                    before@.len() as int
                } else {
                    0
                },
                None => 0,
            };
            &&& kept_len <= vect@.len()
            &&& kept_len > 0 ==> vect@.take(kept_len) == stored->0@
            &&& jni_util::holds_unsigned_rows(
                vect@.skip(kept_len),
                data@,
                data@.len() as int,
                data@[0]@.len() as int,
            )
        }),
{
    let before = kept(stored, append);
    let n = data@.len() as int;
    let dim = data@[0]@.len() as int;
    let signed = joined_heads(data@, dim as nat);
    lemma_joined_heads_held(data@, n, dim);
    assert(data@.take(n) =~= data@);
    jni_util::lemma_unsigned_rows_held(signed, data@, n, dim);
    assert(vect@.skip(before.len() as int) =~= jni_util::unsigned_bytes(signed));
    assert(vect@.take(before.len() as int) =~= before);
}

/// Storage has one address for as long as there is some: an address that is not zero is kept,
/// whatever is made, and zero takes what is made.
pub proof fn lemma_storage_address(memory_address: i64, made: i64, address: i64)
    requires
        call_ensures(storage_address, (memory_address, made), address),
    ensures
        memory_address != 0 ==> address == memory_address,
        memory_address == 0 ==> address == made,
{
}

/// A parameter that the map has comes from the map, and any other from the default.
pub proof fn lemma_parameter_source<V>(
    method_params: &StringMap<V>,
    method_param: &str,
    default_value: i32,
    source: ParameterSource<'_, V>,
)
    requires
        call_ensures(parameter_source::<V>, (method_params, method_param, default_value), source),
    ensures
        source is Object <==> method_params@.dom().contains(method_param@),
        source matches ParameterSource::Object(object) ==> *object
            == method_params@[method_param@],
        source matches ParameterSource::DefaultValue(value) ==> value == default_value,
{
}

/// A parameter that the map has is the number of the object that stands under its name, and a
/// parameter that it does not have is the default.
pub proof fn lemma_parameter_is_read(
    env: &mut JNIEnv<'_>,
    method_params: &StringMap<JObject<'_>>,
    method_param: &str,
    default_value: i32,
    r: Result<i32, String>,
)
    requires
        call_ensures(
            get_integer_method_parameter,
            (env, method_params, method_param, default_value),
            r,
        ),
    ensures
        !method_params@.dom().contains(method_param@) ==> r == Ok::<i32, String>(default_value),
        method_params@.dom().contains(method_param@) && r is Ok ==> java_objects::gave_int(
            &method_params@[method_param@],
            r->Ok_0,
        ),
{
    if method_params@.dom().contains(method_param@) && r is Ok {
        let object = &method_params@[method_param@];
        let value = choose|value: jvm::JniResult<jni::objects::JValueOwned<'_>>| #[trigger]
            java_objects::calls(object, "intValue"@, "()I"@, value) && match value {
                Ok(v) => exists|answer: jvm::JniResult<i32>| #[trigger]
                    jvm::value_int_answers(v, answer) && java_objects::shown(
                        answer,
                        "Failed to extract int value from Integer object: "@,
                        r,
                    ),
                Err(_) => false,
            };
        let v = value->Ok_0;
        let answer = choose|answer: jvm::JniResult<i32>| #[trigger]
            jvm::value_int_answers(v, answer) && java_objects::shown(
                answer,
                "Failed to extract int value from Integer object: "@,
                r,
            );
        assert(answer == Ok::<i32, jni::errors::Error>(r->Ok_0));
        assert(jvm::call_method_answers(object, "intValue"@, "()I"@, Seq::empty(), Ok(v)));
    }
}

/// A two-dimensional Java array has this many rows, and the first one, where there is one, has this
/// length.
pub open spec fn has_shape(data: &JObject<'_>, count: int, width: int) -> bool {
    exists|n: i32|
        {
            &&& #[trigger] jvm::get_array_length_answers(data, Ok(n))
            &&& count == if n < 0 {
                0
            } else {
                n as int
            }
            &&& n != 0 ==> exists|row: JObject<'_>, d: i32|
                {
                    &&& #[trigger] jvm::get_object_array_element_answers(data, 0, Ok(row))
                    &&& #[trigger] jvm::get_array_length_answers(&row, Ok(d))
                    &&& width == if d < 0 {
                        0
                    } else {
                        d as int
                    }
                }
        }
}

proof fn lemma_shape_is_given(
    data: &JObject<'_>,
    no_first: Seq<char>,
    count: i32,
    dim: usize,
)
    requires
        gives_shape(data, no_first, Ok((count, dim))),
    ensures
        has_shape(
            data,
            if count < 0 {
                0
            } else {
                count as int
            },
            dim as int,
        ),
{
    let r: Result<(i32, usize), String> = Ok((count, dim));
    let length = choose|length: jvm::JniResult<i32>| #[trigger]
        jvm::get_array_length_answers(data, length) && match length {
            Ok(n) => if n == 0 {
                r == Ok::<(i32, usize), String>((0, 0))
            } else {
                gives_width(data, no_first, n, r)
            },
            Err(_) => false,
        };
    let n = length->Ok_0;
    assert(jvm::get_array_length_answers(data, Ok(n)));
    if n != 0 {
        let first = choose|first: jvm::JniResult<JObject<'_>>| #[trigger]
            jvm::get_object_array_element_answers(data, 0, first) && match first {
                Ok(row) => exists|d: jvm::JniResult<i32>| #[trigger]
                    jvm::get_array_length_answers(&row, d) && match d {
                        Ok(w) => count == n && dim == java_objects::element_count(w),
                        Err(_) => false,
                    },
                Err(_) => false,
            };
        let row = first->Ok_0;
        let d = choose|d: jvm::JniResult<i32>| #[trigger]
            jvm::get_array_length_answers(&row, d) && match d {
                Ok(w) => count == n && dim == java_objects::element_count(w),
                Err(_) => false,
            };
        assert(jvm::get_object_array_element_answers(data, 0, Ok(row)));
        assert(jvm::get_array_length_answers(&row, Ok(d->Ok_0)));
    }
}

/// The first `width` elements of the row of a Java `float[][]` at this place are these.
pub open spec fn is_float_row(data: &JObject<'_>, place: i32, width: int, row: Vec<u32>) -> bool {
    exists|object: JObject<'_>|
        {
            &&& #[trigger] jvm::get_object_array_element_answers(data, place, Ok(object))
            &&& jvm::get_float_array_region_answers(&object, width, Ok(row))
        }
}

/// The first `width` elements of the row of a Java `byte[][]` at this place are these.
pub open spec fn is_byte_row(data: &JObject<'_>, place: i32, width: int, row: Vec<i8>) -> bool {
    exists|object: JObject<'_>|
        {
            &&& #[trigger] jvm::get_object_array_element_answers(data, place, Ok(object))
            &&& jvm::get_byte_array_region_answers(&object, width, Ok(row))
        }
}

/// The rows of a Java `float[][]` are read in their order and all of them, each as far as the first
/// one reaches.
pub proof fn lemma_float_rows_are_read(
    env: &mut JNIEnv<'_>,
    data: &JObject<'_>,
    r: Result<Vec<Vec<u32>>, String>,
)
    requires
        call_ensures(float_rows, (env, data), r),
        r is Ok,
    ensures
        exists|width: int|
            {
                &&& #[trigger] has_shape(data, r->Ok_0@.len() as int, width)
                &&& forall|i: int|
                    0 <= i < r->Ok_0@.len() ==> is_float_row(
                        data,
                        i as i32,
                        width,
                        #[trigger] r->Ok_0@[i],
                    )
            },
{
    let rows = r->Ok_0@;
    let shape = choose|shape: Result<(i32, usize), String>| #[trigger]
        gives_shape(data, "Failed to get first element of 2D float array: "@, shape) && match shape {
            Ok((count, dim)) => reads_float_rows(data, count, dim, r),
            Err(_) => false,
        };
    let (count, dim) = shape->Ok_0;
    lemma_shape_is_given(data, "Failed to get first element of 2D float array: "@, count, dim);
    assert forall|i: int| 0 <= i < rows.len() implies is_float_row(
        data,
        i as i32,
        dim as int,
        #[trigger] rows[i],
    ) by {
        let row = choose|row: jvm::JniResult<JObject<'_>>| #[trigger]
            jvm::get_object_array_element_answers(data, i as i32, row) && match row {
                Ok(object) => exists|read: jvm::JniResult<Vec<u32>>| #[trigger]
                    jvm::get_float_array_region_answers(&object, dim as int, read)
                        && java_objects::shown(
                        read,
                        "Failed to get float array region: "@,
                        Ok::<Vec<u32>, String>(rows[i]),
                    ),
                Err(_) => false,
            };
        let object = row->Ok_0;
        let read = choose|read: jvm::JniResult<Vec<u32>>| #[trigger]
            jvm::get_float_array_region_answers(&object, dim as int, read) && java_objects::shown(
                read,
                "Failed to get float array region: "@,
                Ok::<Vec<u32>, String>(rows[i]),
            );
        assert(gives_float_row(data, i as i32, dim, Ok(rows[i])));
        assert(read == Ok::<Vec<u32>, jni::errors::Error>(rows[i]));
        assert(jvm::get_object_array_element_answers(data, i as i32, Ok(object)));
    }
    assert(has_shape(data, rows.len() as int, dim as int));
}

/// The rows of a Java `byte[][]` are read in their order and all of them, each as far as the first
/// one reaches.
pub proof fn lemma_byte_rows_are_read(
    env: &mut JNIEnv<'_>,
    data: &JObject<'_>,
    r: Result<Vec<Vec<i8>>, String>,
)
    requires
        call_ensures(byte_rows, (env, data), r),
        r is Ok,
    ensures
        exists|width: int|
            {
                &&& #[trigger] has_shape(data, r->Ok_0@.len() as int, width)
                &&& forall|i: int|
                    0 <= i < r->Ok_0@.len() ==> is_byte_row(
                        data,
                        i as i32,
                        width,
                        #[trigger] r->Ok_0@[i],
                    )
            },
{
    let rows = r->Ok_0@;
    let shape = choose|shape: Result<(i32, usize), String>| #[trigger]
        gives_shape(data, "Failed to get first element of 2D byte array: "@, shape) && match shape {
            Ok((count, dim)) => reads_byte_rows(data, count, dim, r),
            Err(_) => false,
        };
    let (count, dim) = shape->Ok_0;
    lemma_shape_is_given(data, "Failed to get first element of 2D byte array: "@, count, dim);
    assert forall|i: int| 0 <= i < rows.len() implies is_byte_row(
        data,
        i as i32,
        dim as int,
        #[trigger] rows[i],
    ) by {
        let row = choose|row: jvm::JniResult<JObject<'_>>| #[trigger]
            jvm::get_object_array_element_answers(data, i as i32, row) && match row {
                Ok(object) => exists|read: jvm::JniResult<Vec<i8>>| #[trigger]
                    jvm::get_byte_array_region_answers(&object, dim as int, read)
                        && java_objects::shown(
                        read,
                        "Failed to get byte array elements: "@,
                        Ok::<Vec<i8>, String>(rows[i]),
                    ),
                Err(_) => false,
            };
        let object = row->Ok_0;
        let read = choose|read: jvm::JniResult<Vec<i8>>| #[trigger]
            jvm::get_byte_array_region_answers(&object, dim as int, read) && java_objects::shown(
                read,
                "Failed to get byte array elements: "@,
                Ok::<Vec<i8>, String>(rows[i]),
            );
        assert(gives_byte_row(data, i as i32, dim, Ok(rows[i])));
        assert(read == Ok::<Vec<i8>, jni::errors::Error>(rows[i]));
        assert(jvm::get_object_array_element_answers(data, i as i32, Ok(object)));
    }
    assert(has_shape(data, rows.len() as int, dim as int));
}

} // verus!
