//! What Java asks of the NMSLIB service.

use crate::asking;
use crate::commons;
use crate::faiss_wrapper::QueryResult;
use crate::java_objects;
use crate::java_objects::{or_tell, tell_has_next, tell_int, tell_object};
use crate::jni_util;
use crate::jni_util::collect_entries;
use crate::jvm;
use crate::nmslib_plan::WrapperLoadPlan;
use crate::nmslib_wrapper;
use crate::nmslib_wrapper::{
    index_parameters, known_space, query_parameters, tell_results, IndexSettings,
};
use crate::string_map::StringMap;
use crate::text::join;
use jni::objects::JObject;
use jni::JNIEnv;
use vstd::prelude::*;
use vstd::string::*;

verus! {

broadcast use asking::group_asking;

/// The address of an index wrapper of the native side; zero where there is none.
#[derive(Debug, Clone, Copy, PartialEq, Eq, Structural)]
pub struct NmslibIndexWrapper {
    pub address: i64,
}

/// The address of a `similarity::Object`.
#[derive(Debug, Clone, Copy, PartialEq, Eq, Structural)]
pub struct SimilarityObject {
    pub address: i64,
}

/// The address of a `similarity::KNNQuery<float>`.
#[derive(Debug, Clone, Copy, PartialEq, Eq, Structural)]
pub struct SimilarityKNNQuery {
    pub address: i64,
}

/// The address of a `similarity::KNNQueue<float>`.
#[derive(Debug, Clone, Copy, PartialEq, Eq, Structural)]
pub struct SimilarityKNNQueue {
    pub address: i64,
}

/// The address of a writer that NMSLIB saves an index to.
#[derive(Debug, Clone, Copy, PartialEq, Eq, Structural)]
pub struct NmslibOpenSearchIOWriter {
    pub address: i64,
}

/// The address of a reader that NMSLIB loads an index from.
#[derive(Debug, Clone, Copy, PartialEq, Eq, Structural)]
pub struct NmslibOpenSearchIOReader {
    pub address: i64,
}

/// The name that NMSLIB has for a space.
pub fn translate_space_type(space_type: &str) -> (r: Result<String, String>)
    ensures
        match r {
            Ok(name) => nmslib_wrapper::nmslib_space(space_type@) == Some(name@),
            Err(message) => nmslib_wrapper::nmslib_space(space_type@) is None && message@
                == "Invalid spaceType"@,
        },
{
    match known_space(space_type) {
        Some(name) => Ok(name),
        None => Err("Invalid spaceType".to_owned()),
    }
}

/// The space of an index, which Java may not have given.
pub fn requested_space(space_type: Option<&str>) -> (r: Result<String, String>)
    ensures
        match r {
            Ok(name) => space_type matches Some(text) && nmslib_wrapper::nmslib_space(text@)
                == Some(name@),
            Err(message) => match space_type {
                None => message@ == "Parameters must contain space_type"@,
                Some(text) => nmslib_wrapper::nmslib_space(text@) is None && message@
                    == "Invalid spaceType"@,
            },
        },
{
    match space_type {
        None => Err("Parameters must contain space_type".to_owned()),
        Some(text) => translate_space_type(text),
    }
}

/// The plan that loads an index from a file.
pub fn load_index() -> (plan: WrapperLoadPlan)
    ensures
        !plan.from_stream,
{
    WrapperLoadPlan { from_stream: false }
}

/// The plan that loads an index from a stream.
pub fn load_index_with_stream() -> (plan: WrapperLoadPlan)
    ensures
        plan.from_stream,
{
    WrapperLoadPlan { from_stream: true }
}

/// What a load hands back: the address of the loaded wrapper itself, by which queries
/// and releases find it.
pub fn loaded_index(wrapper: NmslibIndexWrapper) -> (address: i64)
    ensures
        address == wrapper.address,
{
    wrapper.address
}

/// The size of the candidate list of a query: -1 stands for the index's own.
pub fn query_ef_search(ef_search: Option<i32>) -> (n: i32)
    ensures
        n == match ef_search {
            Some(ef) => ef as int,
            None => -1int,
        },
{
    match ef_search {
        Some(ef) => ef,
        None => -1,
    }
}

/// What a query returns, where NMSLIB found `result_size` neighbours; less than
/// zero stands for a failure.
pub fn query_results<D: Copy>(result_size: i32, ids: &[i32], distances: &[D]) -> (r: Result<
    Vec<QueryResult<D>>,
    String,
>)
    requires
        result_size <= ids@.len(),
        result_size <= distances@.len(),
    ensures
        match r {
            Ok(results) => result_size >= 0 && results@ == Seq::new(
                result_size as nat,
                |i: int| QueryResult { id: ids@[i], distance: distances@[i] },
            ),
            Err(message) => result_size < 0 && message@ == "NMSLIB query failed"@,
        },
{
    if result_size < 0 {
        return Err("NMSLIB query failed".to_owned());
    }
    let n = result_size as usize;
    let mut results: Vec<QueryResult<D>> = Vec::new();
    let mut i: usize = 0;
    while i < n
        invariant
            i <= n <= ids@.len(),
            n <= distances@.len(),
            results@ =~= Seq::new(
                i as nat,
                |j: int| QueryResult { id: ids@[j], distance: distances@[j] },
            ),
        decreases n - i,
    {
        results.push(QueryResult { id: ids[i], distance: distances[i] });
        i += 1;
    }
    Ok(results)
}

/// The index that is released; nothing where the address is zero.
pub fn free(index_pointer: i64) -> (wrapper: Option<NmslibIndexWrapper>)
    ensures
        wrapper == if index_pointer != 0 {
            Some(NmslibIndexWrapper { address: index_pointer })
        } else {
            None
        },
{
    if index_pointer != 0 {
        Some(NmslibIndexWrapper { address: index_pointer })
    } else {
        None
    }
}

/// What is said of a panic with the given text, if it has one.
pub fn panic_text(text: Option<&str>) -> (message: String)
    ensures
        message@ == match text {
            Some(t) => "Native panic: "@ + t@,
            None => "Native panic: unknown error"@,
        },
{
    match text {
        Some(t) => join("Native panic: ", t),
        None => "Native panic: unknown error".to_owned(),
    }
}

/// What is said where the entries of a Java map cannot be had.
pub open spec fn is_map_fault(text: Seq<char>) -> bool {
    ||| java_objects::tells_of_jvm("Failed to call entrySet: "@, text)
    ||| java_objects::tells_of_jvm("Failed to get entrySet object: "@, text)
    ||| java_objects::tells_of_jvm("Failed to call iterator: "@, text)
    ||| java_objects::tells_of_jvm("Failed to get iterator object: "@, text)
    ||| java_objects::tells_of_jvm("Failed to call hasNext: "@, text)
    ||| java_objects::tells_of_jvm("Failed to get boolean from hasNext: "@, text)
    ||| java_objects::tells_of_jvm("Failed to call next: "@, text)
    ||| java_objects::tells_of_jvm("Failed to get entry object: "@, text)
    ||| java_objects::tells_of_jvm("Failed to call getKey: "@, text)
    ||| java_objects::tells_of_jvm("Failed to get key object: "@, text)
    ||| java_objects::tells_of_jvm("Failed to get string from key: "@, text)
    ||| java_objects::tells_of_jvm("Failed to call getValue: "@, text)
    ||| java_objects::tells_of_jvm("Failed to get value object: "@, text)
}

/// What is said where a Java object cannot be read as an int.
pub open spec fn is_int_fault(text: Seq<char>) -> bool {
    ||| java_objects::tells_of_jvm("Failed to call intValue: "@, text)
    ||| java_objects::tells_of_jvm("Failed to extract int: "@, text)
}

/// What asking a Java map for an iterator over its entries may come to: its set of
/// entries is asked for once, and so is the iterator.
pub open spec fn gives_iterator<'local>(
    before: JNIEnv<'local>,
    map_obj: &JObject<'_>,
    r: Result<JObject<'local>, String>,
    after: JNIEnv<'local>,
) -> bool {
    exists|entry_set: Result<JObject<'local>, String>, with_set: JNIEnv<'local>| #[trigger]
        java_objects::tells_object(
            before,
            map_obj,
            "entrySet"@,
            "()Ljava/util/Set;"@,
            "Failed to call entrySet: "@,
            "Failed to get entrySet object: "@,
            entry_set,
            with_set,
        ) && match entry_set {
            Ok(set) => java_objects::tells_object(
                with_set,
                &set,
                "iterator"@,
                "()Ljava/util/Iterator;"@,
                "Failed to call iterator: "@,
                "Failed to get iterator object: "@,
                r,
                after,
            ),
            Err(text) => r == Err::<JObject<'local>, String>(text) && with_set == after,
        }
}

/// What asking the iterator whether there are more entries may come to.
pub open spec fn gives_more<'local>(
    before: JNIEnv<'local>,
    iterator: &JObject<'_>,
    r: Result<bool, String>,
    after: JNIEnv<'local>,
) -> bool {
    java_objects::tells_has_next(
        before,
        iterator,
        "Failed to call hasNext: "@,
        "Failed to get boolean from hasNext: "@,
        r,
        after,
    )
}

/// What asking the iterator for the next entry may come to: it is asked for one.
pub open spec fn gives_entry<'local>(
    before: JNIEnv<'local>,
    iterator: &JObject<'_>,
    r: Result<(String, JObject<'local>), String>,
    after: JNIEnv<'local>,
) -> bool {
    exists|entry: Result<JObject<'local>, String>, with_entry: JNIEnv<'local>| #[trigger]
        java_objects::tells_object(
            before,
            iterator,
            "next"@,
            "()Ljava/lang/Object;"@,
            "Failed to call next: "@,
            "Failed to get entry object: "@,
            entry,
            with_entry,
        ) && match entry {
            Ok(object) => reads_entry(with_entry, &object, r, after),
            Err(text) => {
                &&& r == Err::<(String, JObject<'local>), String>(text)
                &&& with_entry == after
            },
        }
}

/// What asking an entry for its key may come to.
pub open spec fn gives_key<'local>(
    before: JNIEnv<'local>,
    entry: &JObject<'_>,
    r: Result<JObject<'local>, String>,
    after: JNIEnv<'local>,
) -> bool {
    java_objects::tells_object(
        before,
        entry,
        "getKey"@,
        "()Ljava/lang/Object;"@,
        "Failed to call getKey: "@,
        "Failed to get key object: "@,
        r,
        after,
    )
}

/// What asking an entry for its value may come to.
pub open spec fn gives_value<'local>(
    before: JNIEnv<'local>,
    entry: &JObject<'_>,
    r: Result<JObject<'local>, String>,
    after: JNIEnv<'local>,
) -> bool {
    java_objects::tells_object(
        before,
        entry,
        "getValue"@,
        "()Ljava/lang/Object;"@,
        "Failed to call getValue: "@,
        "Failed to get value object: "@,
        r,
        after,
    )
}

/// What reading the text of a key may come to.
pub open spec fn gives_name<'local>(
    before: JNIEnv<'local>,
    key: &JObject<'_>,
    r: Result<String, String>,
    after: JNIEnv<'local>,
) -> bool {
    exists|answer: jvm::JniResult<String>| #[trigger]
        jvm::gets_string_once(before, key, answer, after) && java_objects::told(
            answer,
            "Failed to get string from key: "@,
            r,
        )
}

/// What reading an entry may come to: its key, the text of the key, and its value, each
/// asked for once.
pub open spec fn reads_entry<'local>(
    before: JNIEnv<'local>,
    entry: &JObject<'_>,
    r: Result<(String, JObject<'local>), String>,
    after: JNIEnv<'local>,
) -> bool {
    exists|key: Result<JObject<'local>, String>, with_key: JNIEnv<'local>| #[trigger]
        gives_key(before, entry, key, with_key) && match key {
            Ok(k) => exists|name: Result<String, String>, with_name: JNIEnv<'local>| #[trigger]
                gives_name(with_key, &k, name, with_name) && match name {
                    Ok(n) => exists|value: Result<JObject<'local>, String>| #[trigger]
                        gives_value(with_name, entry, value, after) && r == match value {
                            Ok(v) => Ok((n, v)),
                            Err(text) => Err(text),
                        },
                    Err(text) => {
                        &&& r == Err::<(String, JObject<'local>), String>(text)
                        &&& with_name == after
                    },
                },
            Err(text) => {
                &&& r == Err::<(String, JObject<'local>), String>(text)
                &&& with_key == after
            },
        }
}

/// The iterator says that it has more, and then gives this entry.
pub open spec fn gives_next<'local>(
    before: JNIEnv<'local>,
    iterator: &JObject<'_>,
    r: Result<(String, JObject<'local>), String>,
    after: JNIEnv<'local>,
) -> bool {
    exists|asked: JNIEnv<'local>| #[trigger]
        gives_more(before, iterator, Ok(true), asked) && gives_entry(asked, iterator, r, after)
}

/// The iterator gave these entries one after the other, each from one environment of
/// `passed` to the next; nothing else was called between.
pub open spec fn gave_entries<'local>(
    passed: Seq<JNIEnv<'local>>,
    iterator: &JObject<'_>,
    entries: Seq<(String, JObject<'local>)>,
) -> bool {
    &&& passed.len() == entries.len() + 1
    &&& forall|k: int|
        0 <= k < entries.len() ==> gives_next(
            passed[k],
            iterator,
            Ok(#[trigger] entries[k]),
            passed[k + 1],
        )
}

/// What taking the entries from the iterator may come to: all of them once it has no
/// more, or what is said of one that cannot be had. The count of entries has 64 bits.
pub open spec fn walks<'local>(
    before: JNIEnv<'local>,
    iterator: &JObject<'_>,
    r: Result<StringMap<JObject<'local>>, String>,
    after: JNIEnv<'local>,
) -> bool {
    exists|passed: Seq<JNIEnv<'local>>, entries: Seq<(String, JObject<'local>)>|
        {
            &&& #[trigger] gave_entries(passed, iterator, entries)
            &&& passed.first() == before
            &&& match r {
                Ok(map) => {
                    &&& map@ == jni_util::collected(entries)
                    &&& {
                        ||| gives_more(passed.last(), iterator, Ok(false), after)
                        ||| entries.len() == u64::MAX && passed.last() == after
                    }
                },
                Err(text) => {
                    ||| gives_more(passed.last(), iterator, Err(text), after)
                    ||| gives_next(
                        passed.last(),
                        iterator,
                        Err::<(String, JObject<'local>), String>(text),
                        after,
                    )
                },
            }
        }
}

/// What reading the entries of a Java map may come to.
pub open spec fn gives_map<'local>(
    map_obj: &JObject<'_>,
    r: Result<StringMap<JObject<'local>>, String>,
) -> bool {
    exists|before: JNIEnv<'local>, after: JNIEnv<'local>| #[trigger]
        reads_map(before, map_obj, r, after)
}

/// What reading the entries of a Java map may come to, with the environment before and
/// after: all entries are taken, and nothing is called where the map is null.
pub open spec fn reads_map<'local>(
    before: JNIEnv<'local>,
    map_obj: &JObject<'_>,
    r: Result<StringMap<JObject<'local>>, String>,
    after: JNIEnv<'local>,
) -> bool {
    ||| {
        &&& jvm::is_null_answers(map_obj, true)
        &&& before == after
        &&& r matches Ok(map) && map@ == Map::<Seq<char>, JObject<'local>>::empty()
    }
    ||| jvm::is_null_answers(map_obj, false)
        && exists|start: Result<JObject<'local>, String>, with_iterator: JNIEnv<'local>| #[trigger]
        gives_iterator(before, map_obj, start, with_iterator) && match start {
            Ok(iterator) => walks(with_iterator, &iterator, r, after),
            Err(text) => {
                &&& r == Err::<StringMap<JObject<'local>>, String>(text)
                &&& with_iterator == after
            },
        }
}

fn get_iterator<'local>(env: &mut JNIEnv<'local>, map_obj: &JObject<'_>) -> (r: Result<
    JObject<'local>,
    String,
>)
    ensures
        asking::only_asks(*old(env), *final(env)),
        gives_iterator(*old(env), map_obj, r, *final(env)),
        r matches Err(text) ==> is_map_fault(text@),
{
    proof {
        jvm::lemma_signatures_plain();
    }
    let entry_set = tell_object(
        env,
        map_obj,
        "entrySet",
        "()Ljava/util/Set;",
        "Failed to call entrySet: ",
        "Failed to get entrySet object: ",
    )?;
    tell_object(
        env,
        &entry_set,
        "iterator",
        "()Ljava/util/Iterator;",
        "Failed to call iterator: ",
        "Failed to get iterator object: ",
    )
}

fn next_entry<'local>(env: &mut JNIEnv<'local>, iterator: &JObject<'_>) -> (r: Result<
    (String, JObject<'local>),
    String,
>)
    ensures
        asking::only_asks(*old(env), *final(env)),
        gives_entry(*old(env), iterator, r, *final(env)),
        r matches Err(text) ==> is_map_fault(text@),
{
    proof {
        jvm::lemma_signatures_plain();
    }
    let entry = tell_object(
        env,
        iterator,
        "next",
        "()Ljava/lang/Object;",
        "Failed to call next: ",
        "Failed to get entry object: ",
    )?;
    let ghost with_entry = *env;
    let key = tell_object(
        env,
        &entry,
        "getKey",
        "()Ljava/lang/Object;",
        "Failed to call getKey: ",
        "Failed to get key object: ",
    );
    assert(gives_key(with_entry, &entry, key, *env));
    let ghost with_key = *env;
    let key = key?;
    let (answer, passage) = jvm::get_string_once(env, &key);
    assert(jvm::gets_string_once(with_key, &key, answer, *env));
    let name = or_tell(answer, "Failed to get string from key: ");
    assert(gives_name(with_key, &key, name, *env));
    let ghost with_name = *env;
    let name = name?;
    let value = tell_object(
        env,
        &entry,
        "getValue",
        "()Ljava/lang/Object;",
        "Failed to call getValue: ",
        "Failed to get value object: ",
    );
    assert(gives_value(with_name, &entry, value, *env));
    let value = value?;
    Ok((name, value))
}

/// Takes the entries of a Java map from an iterator.
fn walk<'local>(env: &mut JNIEnv<'local>, iterator: &JObject<'_>) -> (r: Result<
    StringMap<JObject<'local>>,
    String,
>)
    ensures
        asking::only_asks(*old(env), *final(env)),
        walks(*old(env), iterator, r, *final(env)),
        r matches Err(text) ==> is_map_fault(text@),
{
    let mut entries: Vec<(String, JObject<'local>)> = Vec::new();
    let mut entries_left: u64 = u64::MAX;
    let ghost start = *env;
    let ghost mut passed: Seq<JNIEnv<'local>> = seq![*env];
    while entries_left > 0
        invariant
            asking::only_asks(*old(env), *env),
            gave_entries(passed, iterator, entries@),
            passed.first() == start,
            passed.last() == *env,
            start == *old(env),
            entries@.len() == u64::MAX - entries_left,
        decreases entries_left,
    {
        let more = match tell_has_next(
            env,
            iterator,
            "Failed to call hasNext: ",
            "Failed to get boolean from hasNext: ",
        ) {
            Ok(more) => more,
            Err(text) => {
                let r = Err(text);
                assert(gives_more(passed.last(), iterator, Err(r->Err_0), *env));
                assert(walks(start, iterator, r, *env));
                return r;
            },
        };
        if !more {
            assert(gives_more(passed.last(), iterator, Ok(false), *env));
            return Ok(collect_entries(entries));
        }
        assert(gives_more(passed.last(), iterator, Ok(true), *env));
        match next_entry(env, iterator) {
            Ok(entry) => {
                proof {
                    let next = passed.push(*env);
                    assert(gives_next(passed.last(), iterator, Ok(entry), *env));
                    assert(gave_entries(next, iterator, entries@.push(entry)));
                    passed = next;
                }
                entries.push(entry);
            },
            Err(text) => {
                let r = Err(text);
                assert(gives_next(
                    passed.last(),
                    iterator,
                    Err::<(String, JObject<'local>), String>(r->Err_0),
                    *env,
                ));
                assert(walks(start, iterator, r, *env));
                return r;
            },
        }
        entries_left = entries_left - 1;
    }
    Ok(collect_entries(entries))
}

/// The entries of a Java map, none where it is null. Where a key occurs twice the
/// later value counts.
pub(crate) fn convert_java_map_to_hashmap<'local>(env: &mut JNIEnv<'local>, map_obj: &JObject<'_>)
    -> (r: Result<StringMap<JObject<'local>>, String>)
    ensures
        asking::only_asks(*old(env), *final(env)),
        gives_map(map_obj, r),
        reads_map(*old(env), map_obj, r, *final(env)),
        r matches Err(text) ==> is_map_fault(text@),
{
    if jvm::is_null(map_obj) {
        let none = Ok(StringMap::new());
        assert(reads_map(*old(env), map_obj, none, *env));
        return none;
    }
    assert(jvm::is_null_answers(map_obj, false));
    let iterator = get_iterator(env, map_obj);
    assert(gives_iterator(*old(env), map_obj, iterator, *env));
    let r = match iterator {
        Ok(iterator) => walk(env, &iterator),
        Err(text) => Err(text),
    };
    assert(reads_map(*old(env), map_obj, r, *env));
    r
}

/// What reading a Java string may come to.
pub open spec fn gives_string(obj: &JObject<'_>, r: Result<String, String>) -> bool {
    exists|answer: jvm::JniResult<String>| #[trigger]
        jvm::get_string_answers(obj, answer) && java_objects::told(
            answer,
            "Failed to convert Java object to string: "@,
            r,
        )
}

/// The text of a Java string.
pub(crate) fn convert_java_object_to_string(env: &mut JNIEnv<'_>, obj: &JObject<'_>) -> (r: Result<
    String,
    String,
>)
    ensures
        asking::only_asks(*old(env), *final(env)),
        gives_string(obj, r),
        r matches Err(text) ==> java_objects::tells_of_jvm(
            "Failed to convert Java object to string: "@,
            text@,
        ),
{
    let answer = asking::ask_string(env, obj);
    assert(jvm::get_string_answers(obj, answer));
    or_tell(answer, "Failed to convert Java object to string: ")
}

/// What asking a Java number for its value may come to.
pub open spec fn gives_int(obj: &JObject<'_>, r: Result<i32, String>) -> bool {
    java_objects::tells_int(obj, "Failed to call intValue: "@, "Failed to extract int: "@, r)
}

/// The value of a Java number.
pub(crate) fn convert_java_object_to_integer(env: &mut JNIEnv<'_>, obj: &JObject<'_>) -> (r: Result<
    i32,
    String,
>)
    ensures
        asking::only_asks(*old(env), *final(env)),
        gives_int(obj, r),
        r matches Err(text) ==> is_int_fault(text@),
{
    tell_int(env, obj, "Failed to call intValue: ", "Failed to extract int: ")
}

/// What reading the int that a map has for a key may come to: nothing where it has
/// none.
pub open spec fn gives_int_parameter(
    params: Map<Seq<char>, JObject<'_>>,
    key: Seq<char>,
    r: Result<Option<i32>, String>,
) -> bool {
    if params.dom().contains(key) {
        exists|answer: Result<i32, String>| #[trigger]
            gives_int(&params[key], answer) && r == match answer {
                Ok(n) => Ok(Some(n)),
                Err(text) => Err(text),
            }
    } else {
        r == Ok::<Option<i32>, String>(None)
    }
}

fn int_parameter(env: &mut JNIEnv<'_>, params: &StringMap<JObject<'_>>, key: &str) -> (r: Result<
    Option<i32>,
    String,
>)
    ensures
        asking::only_asks(*old(env), *final(env)),
        gives_int_parameter(params@, key@, r),
        match r {
            Ok(value) => value is Some == params@.dom().contains(key@),
            Err(text) => params@.dom().contains(key@) && is_int_fault(text@),
        },
{
    match params.get(key) {
        Some(object) => {
            let n = convert_java_object_to_integer(env, object)?;
            Ok(Some(n))
        },
        None => Ok(None),
    }
}

/// What is said where the settings of an index cannot be had.
pub open spec fn is_settings_fault(text: Seq<char>) -> bool {
    ||| is_map_fault(text)
    ||| is_int_fault(text)
    ||| java_objects::tells_of_jvm("Failed to convert Java object to string: "@, text)
    ||| text == "Parameters must contain space_type"@
    ||| text == "Invalid spaceType"@
}

/// The name of a space that is asked for, or what is said of one that NMSLIB does not
/// have or that is not given.
pub open spec fn names_space(space_type: Option<Seq<char>>, r: Result<String, String>) -> bool {
    match r {
        Ok(name) => space_type matches Some(text) && nmslib_wrapper::nmslib_space(text) == Some(name@),
        Err(message) => match space_type {
            None => message@ == "Parameters must contain space_type"@,
            Some(text) => nmslib_wrapper::nmslib_space(text) is None && message@ == "Invalid spaceType"@,
        },
    }
}

/// What reading the space of an index may come to.
pub open spec fn gives_space(
    params: Map<Seq<char>, JObject<'_>>,
    r: Result<String, String>,
) -> bool {
    if params.dom().contains(commons::SPACE_TYPE@) {
        exists|text: Result<String, String>| #[trigger]
            gives_string(&params[commons::SPACE_TYPE@], text) && match text {
                Ok(name) => names_space(Some(name@), r),
                Err(message) => r == Err::<String, String>(message),
            }
    } else {
        names_space(None, r)
    }
}

/// What reading the parameters that stand in a map of their own may come to.
pub open spec fn gives_sub_parameters(
    params: Map<Seq<char>, JObject<'_>>,
    r: Result<(Option<i32>, Option<i32>), String>,
) -> bool {
    if params.dom().contains(commons::PARAMETERS@) {
        exists|map: Result<StringMap<JObject<'_>>, String>| #[trigger]
            gives_map(&params[commons::PARAMETERS@], map) && match map {
                Ok(sub_params) => reads_sub_parameters(sub_params@, r),
                Err(text) => r == Err::<(Option<i32>, Option<i32>), String>(text),
            }
    } else {
        r == Ok::<(Option<i32>, Option<i32>), String>((None, None))
    }
}

/// What reading the two parameters of the map of their own may come to.
pub open spec fn reads_sub_parameters(
    sub_params: Map<Seq<char>, JObject<'_>>,
    r: Result<(Option<i32>, Option<i32>), String>,
) -> bool {
    exists|ef: Result<Option<i32>, String>| #[trigger]
        gives_int_parameter(sub_params, commons::EF_CONSTRUCTION@, ef) && match ef {
            Ok(ef_construction) => exists|m: Result<Option<i32>, String>| #[trigger]
                gives_int_parameter(sub_params, commons::M@, m) && r == match m {
                    Ok(n) => Ok((ef_construction, n)),
                    Err(text) => Err(text),
                },
            Err(text) => r == Err::<(Option<i32>, Option<i32>), String>(text),
        }
}

/// What reading the settings of an index that is to be built may come to.
pub open spec fn gives_creation_settings(
    parameters: &JObject<'_>,
    r: Result<IndexSettings, String>,
) -> bool {
    exists|map: Result<StringMap<JObject<'_>>, String>| #[trigger]
        gives_map(parameters, map) && match map {
            Ok(params) => exists|sub: Result<(Option<i32>, Option<i32>), String>| #[trigger]
                gives_sub_parameters(params@, sub) && match sub {
                    Ok((ef, m)) => reads_creation_settings(params@, ef, m, r),
                    Err(text) => r == Err::<IndexSettings, String>(text),
                },
            Err(text) => r == Err::<IndexSettings, String>(text),
        }
}

/// What reading the other settings of an index that is to be built may come to.
pub open spec fn reads_creation_settings(
    params: Map<Seq<char>, JObject<'_>>,
    ef: Option<i32>,
    m: Option<i32>,
    r: Result<IndexSettings, String>,
) -> bool {
    exists|threads: Result<Option<i32>, String>| #[trigger]
        gives_int_parameter(params, commons::INDEX_THREAD_QUANTITY@, threads) && match threads {
            Ok(n) => exists|space: Result<String, String>| #[trigger]
                gives_space(params, space) && match space {
                    Ok(name) => {
                        &&& r matches Ok(settings) && settings.space_type == name
                        &&& nmslib_wrapper::texts(r->Ok_0.parameters@) == creation_texts(ef, m, n)
                    },
                    Err(text) => r == Err::<IndexSettings, String>(text),
                },
            Err(text) => r == Err::<IndexSettings, String>(text),
        }
}

/// What reading the settings of an index that is to be loaded may come to.
pub open spec fn gives_loading_settings(
    parameters: &JObject<'_>,
    r: Result<IndexSettings, String>,
) -> bool {
    exists|map: Result<StringMap<JObject<'_>>, String>| #[trigger]
        gives_map(parameters, map) && match map {
            Ok(params) => exists|space: Result<String, String>| #[trigger]
                gives_space(params@, space) && match space {
                    Ok(name) => reads_loading_settings(params@, name, r),
                    Err(text) => r == Err::<IndexSettings, String>(text),
                },
            Err(text) => r == Err::<IndexSettings, String>(text),
        }
}

/// What reading the size of the candidate list of an index that is to be loaded may
/// come to.
pub open spec fn reads_loading_settings(
    params: Map<Seq<char>, JObject<'_>>,
    space_type: String,
    r: Result<IndexSettings, String>,
) -> bool {
    exists|ef: Result<Option<i32>, String>| #[trigger]
        gives_int_parameter(params, "efSearch"@, ef) && match ef {
            Ok(n) => {
                &&& r matches Ok(settings) && settings.space_type == space_type
                &&& nmslib_wrapper::texts(r->Ok_0.parameters@) == nmslib_wrapper::setting_if("efSearch"@, n)
            },
            Err(text) => r == Err::<IndexSettings, String>(text),
        }
}

fn read_space(env: &mut JNIEnv<'_>, params: &StringMap<JObject<'_>>) -> (r: Result<String, String>)
    ensures
        asking::only_asks(*old(env), *final(env)),
        gives_space(params@, r),
        match r {
            Ok(space) => exists|name: Seq<char>| #[trigger]
                nmslib_wrapper::nmslib_space(name) == Some(space@),
            Err(text) => is_settings_fault(text@),
        },
{
    match params.get(commons::SPACE_TYPE) {
        Some(object) => {
            let text = convert_java_object_to_string(env, object)?;
            requested_space(Some(text.as_str()))
        },
        None => requested_space(None),
    }
}

/// The two parameters that stand in a map of their own, where Java gives it.
fn sub_parameters(env: &mut JNIEnv<'_>, params: &StringMap<JObject<'_>>) -> (r: Result<
    (Option<i32>, Option<i32>),
    String,
>)
    ensures
        asking::only_asks(*old(env), *final(env)),
        gives_sub_parameters(params@, r),
        r matches Err(text) ==> is_settings_fault(text@),
{
    match params.get(commons::PARAMETERS) {
        Some(object) => {
            let sub_params = convert_java_map_to_hashmap(env, object)?;
            let ef_construction = int_parameter(env, &sub_params, commons::EF_CONSTRUCTION)?;
            let m = int_parameter(env, &sub_params, commons::M)?;
            Ok((ef_construction, m))
        },
        None => Ok((None, None)),
    }
}

/// The settings with which Java asks for an index to be built.
pub fn creation_settings(env: &mut JNIEnv<'_>, parameters: &JObject<'_>) -> (r: Result<
    IndexSettings,
    String,
>)
    ensures
        asking::only_asks(*old(env), *final(env)),
        gives_creation_settings(parameters, r),
        match r {
            Ok(settings) => {
                &&& settings.has_known_space()
                &&& exists|ef: Option<i32>, m: Option<i32>, threads: Option<i32>|
                    nmslib_wrapper::texts(settings.parameters@) == #[trigger] creation_texts(
                        ef,
                        m,
                        threads,
                    )
            },
            Err(text) => is_settings_fault(text@),
        },
{
    let params = convert_java_map_to_hashmap(env, parameters)?;
    let (ef_construction, m) = sub_parameters(env, &params)?;
    let threads = int_parameter(env, &params, commons::INDEX_THREAD_QUANTITY)?;
    let space_type = read_space(env, &params)?;
    let parameters = index_parameters(ef_construction, m, commons::INDEX_THREAD_QUANTITY, threads);
    assert(nmslib_wrapper::texts(parameters@) == creation_texts(ef_construction, m, threads));
    Ok(IndexSettings { space_type, parameters })
}

/// The parameters of an index that is to be built, as NMSLIB takes them.
pub open spec fn creation_texts(ef: Option<i32>, m: Option<i32>, threads: Option<i32>) -> Seq<
    Seq<char>,
> {
    nmslib_wrapper::setting_if(commons::EF_CONSTRUCTION_NMSLIB@, ef) + nmslib_wrapper::setting_if(
        commons::M_NMSLIB@,
        m,
    ) + nmslib_wrapper::setting_if(commons::INDEX_THREAD_QUANTITY@, threads)
}

/// The settings with which Java asks for an index to be loaded.
pub fn loading_settings(env: &mut JNIEnv<'_>, parameters: &JObject<'_>) -> (r: Result<
    IndexSettings,
    String,
>)
    ensures
        asking::only_asks(*old(env), *final(env)),
        gives_loading_settings(parameters, r),
        match r {
            Ok(settings) => {
                &&& settings.has_known_space()
                &&& exists|ef: Option<i32>|
                    nmslib_wrapper::texts(settings.parameters@)
                        == #[trigger] nmslib_wrapper::setting_if("efSearch"@, ef)
            },
            Err(text) => is_settings_fault(text@),
        },
{
    let params = convert_java_map_to_hashmap(env, parameters)?;
    let space_type = read_space(env, &params)?;
    let ef_search = int_parameter(env, &params, "efSearch")?;
    let parameters = query_parameters(ef_search);
    Ok(IndexSettings { space_type, parameters })
}

/// What reading the size of the candidate list from the parameters of a query may
/// come to.
pub open spec fn gives_candidates(method_params: &JObject<'_>, r: Result<i32, String>) -> bool {
    exists|map: Result<StringMap<JObject<'_>>, String>| #[trigger]
        gives_map(method_params, map) && match map {
            Ok(params) => exists|ef_search: Result<Option<i32>, String>| #[trigger]
                gives_int_parameter(params@, commons::EF_SEARCH@, ef_search) && match ef_search {
                    Ok(Some(n)) => r == Ok::<i32, String>(n),
                    Ok(None) => r matches Ok(n) && n == -1,
                    Err(text) => r == Err::<i32, String>(text),
                },
            Err(text) => r == Err::<i32, String>(text),
        }
}

/// The size of the candidate list that Java asks for in the parameters of a query,
/// which may be null: -1 stands for the index's own.
pub fn query_candidates(env: &mut JNIEnv<'_>, method_params: &JObject<'_>) -> (r: Result<i32, String>)
    ensures
        asking::only_asks(*old(env), *final(env)),
        gives_candidates(method_params, r),
        r matches Err(text) ==> is_map_fault(text@) || is_int_fault(text@),
{
    let params = convert_java_map_to_hashmap(env, method_params)?;
    let ef_search = int_parameter(env, &params, commons::EF_SEARCH)?;
    Ok(query_ef_search(ef_search))
}

/// How many ids a Java array of ids has.
pub fn count_ids(env: &mut JNIEnv<'_>, ids: &JObject<'_>) -> (r: Result<i32, String>)
    ensures
        asking::only_asks(*old(env), *final(env)),
        exists|length: jvm::JniResult<i32>| #[trigger]
            jvm::get_array_length_answers(ids, length) && java_objects::told(
                length,
                "Failed to get IDs array length: "@,
                r,
            ),
{
    let length = asking::ask_length(env, ids);
    assert(jvm::get_array_length_answers(ids, length));
    or_tell(length, "Failed to get IDs array length: ")
}

/// The results of a query as a Java array; distances are bit patterns.
pub fn result_array<'local>(env: &mut JNIEnv<'local>, results: &Vec<QueryResult<u32>>) -> (r: Result<
    JObject<'local>,
    String,
>)
    ensures
        nmslib_wrapper::makes_results(
            *old(env),
            results@,
            "Failed to set result array element: "@,
            r,
            *final(env),
        ),
        r matches Err(text) ==> nmslib_wrapper::is_result_fault(
            "Failed to set result array element: "@,
            text@,
        ),
{
    tell_results(env, results, "Failed to set result array element: ")
}

proof fn lemma_name_is_read<'local>(
    before: JNIEnv<'local>,
    key: &JObject<'_>,
    name: String,
    after: JNIEnv<'local>,
)
    requires
        gives_name(before, key, Ok(name), after),
    ensures
        jvm::get_string_answers(key, Ok(name)),
{
    let answer = choose|answer: jvm::JniResult<String>| #[trigger]
        jvm::gets_string_once(before, key, answer, after) && java_objects::told(
            answer,
            "Failed to get string from key: "@,
            Ok(name),
        );
    assert(answer == Ok::<String, jni::errors::Error>(name));
}

proof fn lemma_entry_is_given<'local>(
    before: JNIEnv<'local>,
    iterator: &JObject<'_>,
    pair: Result<(String, JObject<'local>), String>,
    after: JNIEnv<'local>,
)
    requires
        gives_next(before, iterator, pair, after),
        pair is Ok,
    ensures
        java_objects::entry_given(iterator, pair->Ok_0.0, pair->Ok_0.1),
{
    let asked = choose|asked: JNIEnv<'local>| #[trigger]
        gives_more(before, iterator, Ok(true), asked) && gives_entry(asked, iterator, pair, after);
    let (entry, with_entry) = choose|
        entry: Result<JObject<'local>, String>,
        with_entry: JNIEnv<'local>,
    | #[trigger]
        java_objects::tells_object(
            asked,
            iterator,
            "next"@,
            "()Ljava/lang/Object;"@,
            "Failed to call next: "@,
            "Failed to get entry object: "@,
            entry,
            with_entry,
        ) && match entry {
            Ok(object) => reads_entry(with_entry, &object, pair, after),
            Err(_) => false,
        };
    let object = entry->Ok_0;
    java_objects::lemma_told_object(
        asked,
        iterator,
        "next"@,
        "()Ljava/lang/Object;"@,
        "Failed to call next: "@,
        "Failed to get entry object: "@,
        object,
        with_entry,
    );
    let (key, with_key) = choose|key: Result<JObject<'local>, String>, with_key: JNIEnv<'local>| #[trigger]
        gives_key(with_entry, &object, key, with_key) && match key {
            Ok(k) => exists|name: Result<String, String>, with_name: JNIEnv<'local>| #[trigger]
                gives_name(with_key, &k, name, with_name) && match name {
                    Ok(n) => exists|value: Result<JObject<'local>, String>| #[trigger]
                        gives_value(with_name, &object, value, after) && pair == match value {
                            Ok(v) => Ok((n, v)),
                            Err(text) => Err(text),
                        },
                    Err(_) => false,
                },
            Err(_) => false,
        };
    let k = key->Ok_0;
    java_objects::lemma_told_object(
        with_entry,
        &object,
        "getKey"@,
        "()Ljava/lang/Object;"@,
        "Failed to call getKey: "@,
        "Failed to get key object: "@,
        k,
        with_key,
    );
    let (name, with_name) = choose|name: Result<String, String>, with_name: JNIEnv<'local>| #[trigger]
        gives_name(with_key, &k, name, with_name) && match name {
            Ok(n) => exists|value: Result<JObject<'local>, String>| #[trigger]
                gives_value(with_name, &object, value, after) && pair == match value {
                    Ok(v) => Ok((n, v)),
                    Err(text) => Err(text),
                },
            Err(_) => false,
        };
    lemma_name_is_read(with_key, &k, name->Ok_0, with_name);
    let value = choose|value: Result<JObject<'local>, String>| #[trigger]
        gives_value(with_name, &object, value, after) && pair == match value {
            Ok(v) => Ok((name->Ok_0, v)),
            Err(text) => Err(text),
        };
    let v = value->Ok_0;
    java_objects::lemma_told_object(
        with_name,
        &object,
        "getValue"@,
        "()Ljava/lang/Object;"@,
        "Failed to call getValue: "@,
        "Failed to get value object: "@,
        v,
        after,
    );
    assert(java_objects::object_of(iterator, "next"@, "()Ljava/lang/Object;"@, object));
    assert(java_objects::object_of(&object, "getKey"@, "()Ljava/lang/Object;"@, k));
}

proof fn lemma_walk_is_held<'local>(
    before: JNIEnv<'local>,
    map_obj: &JObject<'_>,
    set: JObject<'local>,
    iterator: JObject<'local>,
    r: Result<StringMap<JObject<'local>>, String>,
    after: JNIEnv<'local>,
)
    requires
        java_objects::object_of(map_obj, "entrySet"@, "()Ljava/util/Set;"@, set),
        java_objects::object_of(&set, "iterator"@, "()Ljava/util/Iterator;"@, iterator),
        walks(before, &iterator, r, after),
        r is Ok,
    ensures
        java_objects::holds_entries_of(map_obj, r->Ok_0@),
{
    let (passed, entries) = choose|
        passed: Seq<JNIEnv<'local>>,
        entries: Seq<(String, JObject<'local>)>,
    |
        {
            &&& #[trigger] gave_entries(passed, &iterator, entries)
            &&& passed.first() == before
            &&& r->Ok_0@ == jni_util::collected(entries)
            &&& {
                ||| gives_more(passed.last(), &iterator, Ok(false), after)
                ||| entries.len() == u64::MAX && passed.last() == after
            }
        };
    assert forall|k: int| 0 <= k < entries.len() implies java_objects::entry_given(
        &iterator,
        (#[trigger] entries[k]).0,
        entries[k].1,
    ) by {
        lemma_entry_is_given(passed[k], &iterator, Ok(entries[k]), passed[k + 1]);
    }
    if entries.len() != u64::MAX {
        java_objects::lemma_told_has_no_more(
            passed.last(),
            &iterator,
            "Failed to call hasNext: "@,
            "Failed to get boolean from hasNext: "@,
            after,
        );
    }
    assert(java_objects::entries_of(map_obj, entries));
    java_objects::lemma_entries_are_held(map_obj, entries);
}

/// A Java map has what its entries have, each key by its text, and a null reference has nothing.
pub open spec fn holds_map(
    map_obj: &JObject<'_>,
    map: Map<Seq<char>, JObject<'_>>,
) -> bool {
    ||| jvm::is_null_answers(map_obj, true) && map.dom() == Set::<Seq<char>>::empty()
    ||| jvm::is_null_answers(map_obj, false) && java_objects::holds_entries_of(map_obj, map)
}

/// A Java map is read entry by entry: what comes of it has what the entries have, each key by its
/// text, and nothing comes of a null reference.
pub proof fn lemma_map_is_read<'local>(
    before: JNIEnv<'local>,
    map_obj: &JObject<'_>,
    r: Result<StringMap<JObject<'local>>, String>,
    after: JNIEnv<'local>,
)
    requires
        reads_map(before, map_obj, r, after),
        r is Ok,
    ensures
        holds_map(map_obj, r->Ok_0@),
{
    if jvm::is_null_answers(map_obj, true) && before == after && r->Ok_0@ == Map::<
        Seq<char>,
        JObject<'local>,
    >::empty() {
        assert(r->Ok_0@.dom() =~= Set::<Seq<char>>::empty());
    } else {
        let (start, with_iterator) = choose|
            start: Result<JObject<'local>, String>,
            with_iterator: JNIEnv<'local>,
        | #[trigger]
            gives_iterator(before, map_obj, start, with_iterator) && match start {
                Ok(iterator) => walks(with_iterator, &iterator, r, after),
                Err(_) => false,
            };
        let iterator = start->Ok_0;
        let (entry_set, with_set) = choose|
            entry_set: Result<JObject<'local>, String>,
            with_set: JNIEnv<'local>,
        | #[trigger]
            java_objects::tells_object(
                before,
                map_obj,
                "entrySet"@,
                "()Ljava/util/Set;"@,
                "Failed to call entrySet: "@,
                "Failed to get entrySet object: "@,
                entry_set,
                with_set,
            ) && match entry_set {
                Ok(set) => java_objects::tells_object(
                    with_set,
                    &set,
                    "iterator"@,
                    "()Ljava/util/Iterator;"@,
                    "Failed to call iterator: "@,
                    "Failed to get iterator object: "@,
                    start,
                    with_iterator,
                ),
                Err(_) => false,
            };
        let set = entry_set->Ok_0;
        java_objects::lemma_told_object(
            before,
            map_obj,
            "entrySet"@,
            "()Ljava/util/Set;"@,
            "Failed to call entrySet: "@,
            "Failed to get entrySet object: "@,
            set,
            with_set,
        );
        java_objects::lemma_told_object(
            with_set,
            &set,
            "iterator"@,
            "()Ljava/util/Iterator;"@,
            "Failed to call iterator: "@,
            "Failed to get iterator object: "@,
            iterator,
            with_iterator,
        );
        lemma_walk_is_held(with_iterator, map_obj, set, iterator, r, after);
    }
}

proof fn lemma_number_is_read(
    map: Map<Seq<char>, JObject<'_>>,
    key: Seq<char>,
    value: Option<i32>,
)
    requires
        gives_int_parameter(map, key, Ok(value)),
    ensures
        nmslib_wrapper::read_under(map, key, value),
{
    if map.dom().contains(key) {
        let answer = choose|answer: Result<i32, String>| #[trigger]
            gives_int(&map[key], answer) && Ok::<Option<i32>, String>(value) == match answer {
                Ok(n) => Ok::<Option<i32>, String>(Some(n)),
                Err(text) => Err(text),
            };
        lemma_int_is_read(&map[key], answer->Ok_0);
    }
}

proof fn lemma_int_is_read(object: &JObject<'_>, n: i32)
    requires
        gives_int(object, Ok(n)),
    ensures
        java_objects::gave_int(object, n),
{
    let value = choose|value: jvm::JniResult<jni::objects::JValueOwned<'_>>| #[trigger]
        java_objects::calls(object, "intValue"@, "()I"@, value) && match value {
            Ok(v) => exists|answer: jvm::JniResult<i32>| #[trigger]
                jvm::value_int_answers(v, answer) && java_objects::told(
                    answer,
                    "Failed to extract int: "@,
                    Ok(n),
                ),
            Err(_) => false,
        };
    let v = value->Ok_0;
    let answer = choose|answer: jvm::JniResult<i32>| #[trigger]
        jvm::value_int_answers(v, answer) && java_objects::told(
            answer,
            "Failed to extract int: "@,
            Ok(n),
        );
    assert(answer == Ok::<i32, jni::errors::Error>(n));
    assert(jvm::call_method_answers(object, "intValue"@, "()I"@, Seq::empty(), Ok(v)));
}

proof fn lemma_space_is_read(map: Map<Seq<char>, JObject<'_>>, space: String)
    requires
        gives_space(map, Ok(space)),
    ensures
        nmslib_wrapper::space_read(map, space@),
{
    let text = choose|text: Result<String, String>| #[trigger]
        gives_string(&map["spaceType"@], text) && match text {
            Ok(name) => names_space(Some(name@), Ok(space)),
            Err(_) => false,
        };
    let name = text->Ok_0;
    let answer = choose|answer: jvm::JniResult<String>| #[trigger]
        jvm::get_string_answers(&map["spaceType"@], answer) && java_objects::told(
            answer,
            "Failed to convert Java object to string: "@,
            text,
        );
    assert(answer == Ok::<String, jni::errors::Error>(name));
    assert(map.dom().contains("spaceType"@));
    assert(nmslib_wrapper::nmslib_space(name@) == Some(space@));
    assert(jvm::get_string_answers(&map["spaceType"@], Ok(name)));
    reveal_strlit("l2");
    reveal_strlit("l1");
    reveal_strlit("linf");
    reveal_strlit("cosinesimil");
    reveal_strlit("innerproduct");
    assert(name@ == "l2"@ || name@ == "l1"@ || name@ == "linf"@ || name@ == "cosinesimil"@
        || name@ == "innerproduct"@);
    assert(name@ == "innerproduct"@ ==> space@ == "negdotprod"@);
    assert(name@ != "innerproduct"@ ==> space@ == name@);
}

proof fn lemma_given_map<'local>(
    map_obj: &JObject<'_>,
    r: Result<StringMap<JObject<'local>>, String>,
)
    requires
        gives_map(map_obj, r),
        r is Ok,
    ensures
        holds_map(map_obj, r->Ok_0@),
{
    let (before, after) = choose|before: JNIEnv<'local>, after: JNIEnv<'local>| #[trigger]
        reads_map(before, map_obj, r, after);
    lemma_map_is_read(before, map_obj, r, after);
}

/// The two numbers that stand in a map of their own, which a map has under its key; neither where
/// it has none.
pub open spec fn pair_read(
    map: Map<Seq<char>, JObject<'_>>,
    ef_construction: Option<i32>,
    m: Option<i32>,
) -> bool {
    if map.dom().contains("parameters"@) {
        exists|own: Map<Seq<char>, JObject<'_>>|
            {
                &&& #[trigger] holds_map(&map["parameters"@], own)
                &&& nmslib_wrapper::read_under(own, "ef_construction"@, ef_construction)
                &&& nmslib_wrapper::read_under(own, "m"@, m)
            }
    } else {
        ef_construction is None && m is None
    }
}

proof fn lemma_pair_is_read(
    map: Map<Seq<char>, JObject<'_>>,
    ef_construction: Option<i32>,
    m: Option<i32>,
)
    requires
        gives_sub_parameters(map, Ok((ef_construction, m))),
    ensures
        pair_read(map, ef_construction, m),
{
    if map.dom().contains("parameters"@) {
        let own = choose|own: Result<StringMap<JObject<'_>>, String>| #[trigger]
            gives_map(&map["parameters"@], own) && match own {
                Ok(sub) => reads_sub_parameters(sub@, Ok((ef_construction, m))),
                Err(_) => false,
            };
        lemma_given_map(&map["parameters"@], own);
        let sub = own->Ok_0@;
        let ef = choose|ef: Result<Option<i32>, String>| #[trigger]
            gives_int_parameter(sub, commons::EF_CONSTRUCTION@, ef) && match ef {
                Ok(e) => exists|n: Result<Option<i32>, String>| #[trigger]
                    gives_int_parameter(sub, commons::M@, n) && Ok::<_, String>((ef_construction, m))
                        == match n {
                        Ok(found) => Ok((e, found)),
                        Err(text) => Err(text),
                    },
                Err(_) => false,
            };
        let e = ef->Ok_0;
        let n = choose|n: Result<Option<i32>, String>| #[trigger]
            gives_int_parameter(sub, commons::M@, n) && Ok::<_, String>((ef_construction, m))
                == match n {
                Ok(found) => Ok((e, found)),
                Err(text) => Err(text),
            };
        lemma_number_is_read(sub, "ef_construction"@, ef_construction);
        lemma_number_is_read(sub, "m"@, m);
        assert(holds_map(&map["parameters"@], sub));
    }
}

/// What an index is built with is what the Java map has: the space under its key, the number of
/// threads under its own, and the two other numbers in the map that stands under its key.
pub proof fn lemma_creation_is_read(
    env: &mut JNIEnv<'_>,
    parameters: &JObject<'_>,
    r: Result<IndexSettings, String>,
)
    requires
        call_ensures(creation_settings, (env, parameters), r),
        r is Ok,
    ensures
        exists|map: Map<Seq<char>, JObject<'_>>|
            {
                &&& #[trigger] holds_map(parameters, map)
                &&& nmslib_wrapper::space_read(map, r->Ok_0.space_type@)
                &&& exists|ef_construction: Option<i32>, m: Option<i32>, threads: Option<i32>|
                    {
                        &&& #[trigger] pair_read(map, ef_construction, m)
                        &&& #[trigger] nmslib_wrapper::read_under(map, "index_thread_qty"@, threads)
                        &&& nmslib_wrapper::are_creation_settings(
                            r->Ok_0.parameters@,
                            ef_construction,
                            m,
                            "index_thread_qty"@,
                            threads,
                        )
                    }
            },
{
    let settings = r->Ok_0;
    let map = choose|map: Result<StringMap<JObject<'_>>, String>| #[trigger]
        gives_map(parameters, map) && match map {
            Ok(params) => exists|sub: Result<(Option<i32>, Option<i32>), String>| #[trigger]
                gives_sub_parameters(params@, sub) && match sub {
                    Ok((ef, m)) => reads_creation_settings(params@, ef, m, r),
                    Err(_) => false,
                },
            Err(_) => false,
        };
    lemma_given_map(parameters, map);
    let params = map->Ok_0@;
    let sub = choose|sub: Result<(Option<i32>, Option<i32>), String>| #[trigger]
        gives_sub_parameters(params, sub) && match sub {
            Ok((ef, m)) => reads_creation_settings(params, ef, m, r),
            Err(_) => false,
        };
    let (ef, m) = sub->Ok_0;
    lemma_pair_is_read(params, ef, m);
    let threads = choose|threads: Result<Option<i32>, String>| #[trigger]
        gives_int_parameter(params, commons::INDEX_THREAD_QUANTITY@, threads) && match threads {
            Ok(n) => exists|space: Result<String, String>| #[trigger]
                gives_space(params, space) && match space {
                    Ok(name) => settings.space_type == name && nmslib_wrapper::texts(settings.parameters@)
                        == creation_texts(ef, m, n),
                    Err(_) => false,
                },
            Err(_) => false,
        };
    let n = threads->Ok_0;
    lemma_number_is_read(params, "index_thread_qty"@, n);
    let space = choose|space: Result<String, String>| #[trigger]
        gives_space(params, space) && match space {
            Ok(name) => settings.space_type == name && nmslib_wrapper::texts(settings.parameters@)
                == creation_texts(ef, m, n),
            Err(_) => false,
        };
    lemma_space_is_read(params, settings.space_type);
    nmslib_wrapper::lemma_creation_texts(settings.parameters@, ef, m, "index_thread_qty"@, n);
    assert(pair_read(params, ef, m));
    assert(nmslib_wrapper::read_under(params, "index_thread_qty"@, n));
    assert(holds_map(parameters, params));
}

/// What an index is loaded with is what the Java map has: the space under its key, and the size
/// of the candidate list under its own.
pub proof fn lemma_loading_is_read(
    env: &mut JNIEnv<'_>,
    parameters: &JObject<'_>,
    r: Result<IndexSettings, String>,
)
    requires
        call_ensures(loading_settings, (env, parameters), r),
        r is Ok,
    ensures
        exists|map: Map<Seq<char>, JObject<'_>>|
            {
                &&& #[trigger] holds_map(parameters, map)
                &&& nmslib_wrapper::space_read(map, r->Ok_0.space_type@)
                &&& exists|ef_search: Option<i32>|
                    {
                        &&& #[trigger] nmslib_wrapper::read_under(map, "efSearch"@, ef_search)
                        &&& nmslib_wrapper::are_loading_settings(r->Ok_0.parameters@, ef_search)
                    }
            },
{
    let settings = r->Ok_0;
    let map = choose|map: Result<StringMap<JObject<'_>>, String>| #[trigger]
        gives_map(parameters, map) && match map {
            Ok(params) => exists|space: Result<String, String>| #[trigger]
                gives_space(params@, space) && match space {
                    Ok(name) => reads_loading_settings(params@, name, r),
                    Err(_) => false,
                },
            Err(_) => false,
        };
    lemma_given_map(parameters, map);
    let params = map->Ok_0@;
    let space = choose|space: Result<String, String>| #[trigger]
        gives_space(params, space) && match space {
            Ok(name) => reads_loading_settings(params, name, r),
            Err(_) => false,
        };
    let ef = choose|ef: Result<Option<i32>, String>| #[trigger]
        gives_int_parameter(params, "efSearch"@, ef) && match ef {
            Ok(n) => settings.space_type == space->Ok_0 && nmslib_wrapper::texts(settings.parameters@)
                == nmslib_wrapper::setting_if("efSearch"@, n),
            Err(_) => false,
        };
    lemma_space_is_read(params, settings.space_type);
    lemma_number_is_read(params, "efSearch"@, ef->Ok_0);
    nmslib_wrapper::lemma_loading_texts(settings.parameters@, ef->Ok_0);
    assert(nmslib_wrapper::read_under(params, "efSearch"@, ef->Ok_0));
    assert(holds_map(parameters, params));
}

/// A query has the size of the candidate list that the Java map has under its key, and the size of
/// the index itself where the map is null or has none.
pub proof fn lemma_candidates_are_read(
    env: &mut JNIEnv<'_>,
    method_params: &JObject<'_>,
    r: Result<i32, String>,
)
    requires
        call_ensures(query_candidates, (env, method_params), r),
        r is Ok,
    ensures
        exists|map: Map<Seq<char>, JObject<'_>>|
            {
                &&& #[trigger] holds_map(method_params, map)
                &&& if map.dom().contains("ef_search"@) {
                    java_objects::gave_int(&map["ef_search"@], r->Ok_0)
                } else {
                    r->Ok_0 == -1
                }
            },
{
    let map = choose|map: Result<StringMap<JObject<'_>>, String>| #[trigger]
        gives_map(method_params, map) && match map {
            Ok(params) => exists|ef_search: Result<Option<i32>, String>| #[trigger]
                gives_int_parameter(params@, commons::EF_SEARCH@, ef_search) && match ef_search {
                    Ok(Some(n)) => r == Ok::<i32, String>(n),
                    Ok(None) => r->Ok_0 == -1,
                    Err(_) => false,
                },
            Err(_) => false,
        };
    lemma_given_map(method_params, map);
    let params = map->Ok_0@;
    let ef_search = choose|ef_search: Result<Option<i32>, String>| #[trigger]
        gives_int_parameter(params, commons::EF_SEARCH@, ef_search) && match ef_search {
            Ok(Some(n)) => r == Ok::<i32, String>(n),
            Ok(None) => r->Ok_0 == -1,
            Err(_) => false,
        };
    lemma_number_is_read(params, "ef_search"@, ef_search->Ok_0);
    assert(holds_map(method_params, params));
}

/// As many ids are counted as the Java array has.
pub proof fn lemma_ids_are_counted(
    env: &mut JNIEnv<'_>,
    ids: &JObject<'_>,
    r: Result<i32, String>,
)
    requires
        call_ensures(count_ids, (env, ids), r),
    ensures
        r matches Ok(n) ==> jvm::get_array_length_answers(ids, Ok(n)),
{
    let length = choose|length: jvm::JniResult<i32>| #[trigger]
        jvm::get_array_length_answers(ids, length) && java_objects::told(
            length,
            "Failed to get IDs array length: "@,
            r,
        );
    if r is Ok {
        assert(length == Ok::<i32, jni::errors::Error>(r->Ok_0));
    }
}

/// The results of a query are handed over in an array of as many objects of their class, each of
/// which stands at the place that its result has among the results.
pub proof fn lemma_results_are_placed<'local>(
    env: &mut JNIEnv<'local>,
    results: &Vec<QueryResult<u32>>,
    r: Result<JObject<'local>, String>,
)
    requires
        call_ensures(result_array, (env, results), r),
        r is Ok,
    ensures
        nmslib_wrapper::are_placed(results@, &r->Ok_0),
{
    nmslib_wrapper::lemma_made_results(
        *old(env),
        results@,
        "Failed to set result array element: "@,
        r,
        *final(env),
    );
}

/// Spaces have the names that NMSLIB has for them: only that of the inner product is another
/// there, and there are no spaces but these five.
pub proof fn lemma_space_names(
    space_type: &str,
    translated: Result<String, String>,
    requested: Result<String, String>,
    absent: Result<String, String>,
)
    requires
        call_ensures(translate_space_type, (space_type,), translated),
        call_ensures(requested_space, (Some(space_type),), requested),
        call_ensures(requested_space, (None::<&str>,), absent),
    ensures
        translated is Ok <==> {
            ||| space_type@ == "l2"@
            ||| space_type@ == "l1"@
            ||| space_type@ == "linf"@
            ||| space_type@ == "cosinesimil"@
            ||| space_type@ == "innerproduct"@
        },
        translated matches Ok(name) ==> name@ == (if space_type@ == "innerproduct"@ {
            "negdotprod"@
        } else {
            space_type@
        }),
        translated matches Err(message) ==> message@ == "Invalid spaceType"@,
        requested is Ok <==> translated is Ok,
        requested matches Ok(name) ==> name@ == translated->Ok_0@,
        requested matches Err(message) ==> message@ == "Invalid spaceType"@,
        absent matches Err(message) && message@ == "Parameters must contain space_type"@,
{
    reveal_strlit("l2");
    reveal_strlit("l1");
    reveal_strlit("linf");
    reveal_strlit("cosinesimil");
    reveal_strlit("innerproduct");
}

/// A query finds as many neighbours as NMSLIB says, each with the id and the distance that stand at
/// its place, and fails where NMSLIB says that it failed.
pub proof fn lemma_query_results<D: Copy>(
    result_size: i32,
    ids: &[i32],
    distances: &[D],
    r: Result<Vec<QueryResult<D>>, String>,
)
    requires
        result_size <= ids@.len(),
        result_size <= distances@.len(),
        call_ensures(query_results::<D>, (result_size, ids, distances), r),
    ensures
        r is Ok <==> result_size >= 0,
        r matches Ok(results) ==> results@.len() == result_size && forall|i: int|
            0 <= i < result_size ==> (#[trigger] results@[i]).id == ids@[i] && results@[i].distance
                == distances@[i],
        r matches Err(message) ==> message@ == "NMSLIB query failed"@,
{
}

/// What a load hands back is what a release is given: the index at that address, and none where it
/// is zero.
pub proof fn lemma_loaded_is_released(
    wrapper: NmslibIndexWrapper,
    address: i64,
    released: Option<NmslibIndexWrapper>,
)
    requires
        call_ensures(loaded_index, (wrapper,), address),
        call_ensures(free, (address,), released),
    ensures
        address == wrapper.address,
        wrapper.address != 0 ==> released == Some(wrapper),
        wrapper.address == 0 ==> released is None,
{
}

/// A load reads from what it is asked to read from, a query searches with the number that it is
/// given, and only without one by the index's own, and a panic is told with its text.
pub proof fn lemma_requests(
    file: WrapperLoadPlan,
    stream: WrapperLoadPlan,
    ef_search: Option<i32>,
    n: i32,
    text: Option<&str>,
    message: String,
)
    requires
        call_ensures(load_index, (), file),
        call_ensures(load_index_with_stream, (), stream),
        call_ensures(query_ef_search, (ef_search,), n),
        call_ensures(panic_text, (text,), message),
    ensures
        !file.from_stream,
        stream.from_stream,
        ef_search matches Some(ef) ==> n == ef,
        ef_search is None ==> n == -1,
        text matches Some(t) ==> message@ == "Native panic: "@ + t@,
        text is None ==> message@ == "Native panic: unknown error"@,
{
}

proof fn lemma_name_is_refused<'local>(
    before: JNIEnv<'local>,
    entry: &JObject<'_>,
    key: JObject<'local>,
    name: Result<String, String>,
    after: JNIEnv<'local>,
)
    requires
        java_objects::object_of(entry, "getKey"@, "()Ljava/lang/Object;"@, key),
        gives_name(before, &key, name, after),
        name is Err,
    ensures
        java_objects::refuses_entry(entry),
{
    let answer = choose|answer: jvm::JniResult<String>| #[trigger]
        jvm::gets_string_once(before, &key, answer, after) && java_objects::told(
            answer,
            "Failed to get string from key: "@,
            name,
        );
    let e = answer->Err_0;
    assert(java_objects::object_of(entry, "getKey"@, "()Ljava/lang/Object;"@, key)
        && jvm::get_string_answers(&key, Err(e)));
}

proof fn lemma_entry_is_refused<'local>(
    before: JNIEnv<'local>,
    entry: &JObject<'_>,
    pair: Result<(String, JObject<'local>), String>,
    after: JNIEnv<'local>,
)
    requires
        reads_entry(before, entry, pair, after),
        pair is Err,
    ensures
        java_objects::refuses_entry(entry),
{
    let (key, with_key) = choose|key: Result<JObject<'local>, String>, with_key: JNIEnv<'local>| #[trigger]
        gives_key(before, entry, key, with_key) && match key {
            Ok(k) => exists|name: Result<String, String>, with_name: JNIEnv<'local>| #[trigger]
                gives_name(with_key, &k, name, with_name) && match name {
                    Ok(_) => exists|value: Result<JObject<'local>, String>| #[trigger]
                        gives_value(with_name, entry, value, after) && value is Err,
                    Err(_) => true,
                },
            Err(_) => true,
        };
    match key {
        Ok(k) => {
            java_objects::lemma_told_object(
                before,
                entry,
                "getKey"@,
                "()Ljava/lang/Object;"@,
                "Failed to call getKey: "@,
                "Failed to get key object: "@,
                k,
                with_key,
            );
            let (name, with_name) = choose|name: Result<String, String>, with_name: JNIEnv<'local>| #[trigger]
                gives_name(with_key, &k, name, with_name) && match name {
                    Ok(_) => exists|value: Result<JObject<'local>, String>| #[trigger]
                        gives_value(with_name, entry, value, after) && value is Err,
                    Err(_) => true,
                };
            match name {
                Ok(_) => {
                    let value = choose|value: Result<JObject<'local>, String>| #[trigger]
                        gives_value(with_name, entry, value, after) && value is Err;
                    java_objects::lemma_told_refusal(
                        with_name,
                        entry,
                        "getValue"@,
                        "()Ljava/lang/Object;"@,
                        "Failed to call getValue: "@,
                        "Failed to get value object: "@,
                        value,
                        after,
                    );
                },
                Err(_) => lemma_name_is_refused(with_key, entry, k, name, with_name),
            }
        },
        Err(_) => java_objects::lemma_told_refusal(
            before,
            entry,
            "getKey"@,
            "()Ljava/lang/Object;"@,
            "Failed to call getKey: "@,
            "Failed to get key object: "@,
            key,
            with_key,
        ),
    }
}

proof fn lemma_next_is_refused<'local>(
    before: JNIEnv<'local>,
    iterator: &JObject<'_>,
    pair: Result<(String, JObject<'local>), String>,
    after: JNIEnv<'local>,
)
    requires
        gives_next(before, iterator, pair, after),
        pair is Err,
    ensures
        java_objects::refuses_next(iterator),
{
    let asked = choose|asked: JNIEnv<'local>| #[trigger]
        gives_more(before, iterator, Ok(true), asked) && gives_entry(asked, iterator, pair, after);
    let (entry, with_entry) = choose|
        entry: Result<JObject<'local>, String>,
        with_entry: JNIEnv<'local>,
    | #[trigger]
        java_objects::tells_object(
            asked,
            iterator,
            "next"@,
            "()Ljava/lang/Object;"@,
            "Failed to call next: "@,
            "Failed to get entry object: "@,
            entry,
            with_entry,
        ) && match entry {
            Ok(object) => reads_entry(with_entry, &object, pair, after),
            Err(_) => true,
        };
    match entry {
        Ok(object) => {
            java_objects::lemma_told_object(
                asked,
                iterator,
                "next"@,
                "()Ljava/lang/Object;"@,
                "Failed to call next: "@,
                "Failed to get entry object: "@,
                object,
                with_entry,
            );
            lemma_entry_is_refused(with_entry, &object, pair, after);
            assert(java_objects::object_of(iterator, "next"@, "()Ljava/lang/Object;"@, object));
        },
        Err(_) => java_objects::lemma_told_refusal(
            asked,
            iterator,
            "next"@,
            "()Ljava/lang/Object;"@,
            "Failed to call next: "@,
            "Failed to get entry object: "@,
            entry,
            with_entry,
        ),
    }
}

proof fn lemma_walk_is_refused<'local>(
    before: JNIEnv<'local>,
    iterator: &JObject<'_>,
    r: Result<StringMap<JObject<'local>>, String>,
    after: JNIEnv<'local>,
)
    requires
        walks(before, iterator, r, after),
        r is Err,
    ensures
        java_objects::refuses_next(iterator),
{
    let text = r->Err_0;
    let (passed, entries) = choose|
        passed: Seq<JNIEnv<'local>>,
        entries: Seq<(String, JObject<'local>)>,
    |
        {
            &&& #[trigger] gave_entries(passed, iterator, entries)
            &&& {
                ||| gives_more(passed.last(), iterator, Err(text), after)
                ||| gives_next(
                    passed.last(),
                    iterator,
                    Err::<(String, JObject<'local>), String>(text),
                    after,
                )
            }
        };
    if gives_more(passed.last(), iterator, Err(text), after) {
        java_objects::lemma_told_no_answer(
            passed.last(),
            iterator,
            "Failed to call hasNext: "@,
            "Failed to get boolean from hasNext: "@,
            Err(text),
            after,
        );
    } else {
        lemma_next_is_refused(passed.last(), iterator, Err(text), after);
    }
}

/// A Java map is not read only where it, its entries or their keys refuse.
pub proof fn lemma_map_is_refused<'local>(
    before: JNIEnv<'local>,
    map_obj: &JObject<'_>,
    r: Result<StringMap<JObject<'local>>, String>,
    after: JNIEnv<'local>,
)
    requires
        reads_map(before, map_obj, r, after),
        r is Err,
    ensures
        java_objects::refuses_walk(map_obj),
{
    let (start, with_iterator) = choose|
        start: Result<JObject<'local>, String>,
        with_iterator: JNIEnv<'local>,
    | #[trigger]
        gives_iterator(before, map_obj, start, with_iterator) && match start {
            Ok(iterator) => walks(with_iterator, &iterator, r, after),
            Err(_) => true,
        };
    let (entry_set, with_set) = choose|
        entry_set: Result<JObject<'local>, String>,
        with_set: JNIEnv<'local>,
    | #[trigger]
        java_objects::tells_object(
            before,
            map_obj,
            "entrySet"@,
            "()Ljava/util/Set;"@,
            "Failed to call entrySet: "@,
            "Failed to get entrySet object: "@,
            entry_set,
            with_set,
        ) && match entry_set {
            Ok(set) => java_objects::tells_object(
                with_set,
                &set,
                "iterator"@,
                "()Ljava/util/Iterator;"@,
                "Failed to call iterator: "@,
                "Failed to get iterator object: "@,
                start,
                with_iterator,
            ),
            Err(_) => true,
        };
    match entry_set {
        Ok(set) => {
            java_objects::lemma_told_object(
                before,
                map_obj,
                "entrySet"@,
                "()Ljava/util/Set;"@,
                "Failed to call entrySet: "@,
                "Failed to get entrySet object: "@,
                set,
                with_set,
            );
            match start {
                Ok(iterator) => {
                    java_objects::lemma_told_object(
                        with_set,
                        &set,
                        "iterator"@,
                        "()Ljava/util/Iterator;"@,
                        "Failed to call iterator: "@,
                        "Failed to get iterator object: "@,
                        iterator,
                        with_iterator,
                    );
                    lemma_walk_is_refused(with_iterator, &iterator, r, after);
                    assert(java_objects::object_of(
                        &set,
                        "iterator"@,
                        "()Ljava/util/Iterator;"@,
                        iterator,
                    ));
                },
                Err(_) => java_objects::lemma_told_refusal(
                    with_set,
                    &set,
                    "iterator"@,
                    "()Ljava/util/Iterator;"@,
                    "Failed to call iterator: "@,
                    "Failed to get iterator object: "@,
                    start,
                    with_iterator,
                ),
            }
            assert(java_objects::object_of(map_obj, "entrySet"@, "()Ljava/util/Set;"@, set));
        },
        Err(_) => java_objects::lemma_told_refusal(
            before,
            map_obj,
            "entrySet"@,
            "()Ljava/util/Set;"@,
            "Failed to call entrySet: "@,
            "Failed to get entrySet object: "@,
            entry_set,
            with_set,
        ),
    }
}

proof fn lemma_no_int_is_read(object: &JObject<'_>, r: Result<i32, String>)
    requires
        gives_int(object, r),
        r is Err,
    ensures
        java_objects::gave_no_int(object),
{
    let value = choose|value: jvm::JniResult<jni::objects::JValueOwned<'_>>| #[trigger]
        java_objects::calls(object, "intValue"@, "()I"@, value) && match value {
            Ok(v) => exists|answer: jvm::JniResult<i32>| #[trigger]
                jvm::value_int_answers(v, answer) && java_objects::told(
                    answer,
                    "Failed to extract int: "@,
                    r,
                ),
            Err(_) => true,
        };
    assert(jvm::call_method_answers(object, "intValue"@, "()I"@, Seq::empty(), value));
}

proof fn lemma_number_is_refused(
    map: Map<Seq<char>, JObject<'_>>,
    key: Seq<char>,
    r: Result<Option<i32>, String>,
)
    requires
        gives_int_parameter(map, key, r),
        r is Err,
    ensures
        nmslib_wrapper::refuses_int(map, key),
{
    let answer = choose|answer: Result<i32, String>| #[trigger]
        gives_int(&map[key], answer) && answer is Err;
    lemma_no_int_is_read(&map[key], answer);
}

proof fn lemma_space_is_refused(map: Map<Seq<char>, JObject<'_>>, r: Result<String, String>)
    requires
        gives_space(map, r),
        r is Err,
    ensures
        nmslib_wrapper::refuses_space(map),
{
    if map.dom().contains("spaceType"@) {
        let text = choose|text: Result<String, String>| #[trigger]
            gives_string(&map["spaceType"@], text) && match text {
                Ok(name) => names_space(Some(name@), r),
                Err(_) => true,
            };
        let answer = choose|answer: jvm::JniResult<String>| #[trigger]
            jvm::get_string_answers(&map["spaceType"@], answer) && java_objects::told(
                answer,
                "Failed to convert Java object to string: "@,
                text,
            );
        match answer {
            Ok(name) => {
                assert(jvm::get_string_answers(&map["spaceType"@], Ok(name)));
            },
            Err(e) => {
                assert(jvm::get_string_answers(&map["spaceType"@], Err(e)));
            },
        }
    }
}

proof fn lemma_given_refusal<'local>(
    map_obj: &JObject<'_>,
    r: Result<StringMap<JObject<'local>>, String>,
)
    requires
        gives_map(map_obj, r),
        r is Err,
    ensures
        java_objects::refuses_walk(map_obj),
{
    let (before, after) = choose|before: JNIEnv<'local>, after: JNIEnv<'local>| #[trigger]
        reads_map(before, map_obj, r, after);
    lemma_map_is_refused(before, map_obj, r, after);
}

/// The map that a map has for the two numbers of its own could not be walked, or one of the two gave
/// no int.
pub open spec fn refuses_pair(map: Map<Seq<char>, JObject<'_>>) -> bool {
    map.dom().contains("parameters"@) && {
        ||| java_objects::refuses_walk(&map["parameters"@])
        ||| exists|own: Map<Seq<char>, JObject<'_>>|
            #[trigger] holds_map(&map["parameters"@], own) && (nmslib_wrapper::refuses_int(
                own,
                "ef_construction"@,
            ) || nmslib_wrapper::refuses_int(own, "m"@))
    }
}

proof fn lemma_pair_is_refused(
    map: Map<Seq<char>, JObject<'_>>,
    r: Result<(Option<i32>, Option<i32>), String>,
)
    requires
        gives_sub_parameters(map, r),
        r is Err,
    ensures
        refuses_pair(map),
{
    let own = choose|own: Result<StringMap<JObject<'_>>, String>| #[trigger]
        gives_map(&map["parameters"@], own) && match own {
            Ok(sub) => reads_sub_parameters(sub@, r),
            Err(_) => true,
        };
    match own {
        Ok(found) => {
            lemma_given_map(&map["parameters"@], own);
            let sub = found@;
            let ef = choose|ef: Result<Option<i32>, String>| #[trigger]
                gives_int_parameter(sub, commons::EF_CONSTRUCTION@, ef) && match ef {
                    Ok(_) => exists|n: Result<Option<i32>, String>| #[trigger]
                        gives_int_parameter(sub, commons::M@, n) && n is Err,
                    Err(_) => true,
                };
            match ef {
                Ok(_) => {
                    let n = choose|n: Result<Option<i32>, String>| #[trigger]
                        gives_int_parameter(sub, commons::M@, n) && n is Err;
                    lemma_number_is_refused(sub, "m"@, n);
                },
                Err(_) => lemma_number_is_refused(sub, "ef_construction"@, ef),
            }
            assert(holds_map(&map["parameters"@], sub));
        },
        Err(_) => lemma_given_refusal(&map["parameters"@], own),
    }
}

/// The settings of an index that is to be built are refused only where the Java map cannot be walked,
/// has a number that gives no int, or has no space that NMSLIB has.
pub proof fn lemma_creation_is_refused(
    env: &mut JNIEnv<'_>,
    parameters: &JObject<'_>,
    r: Result<IndexSettings, String>,
)
    requires
        call_ensures(creation_settings, (env, parameters), r),
        r is Err,
    ensures
        java_objects::refuses_walk(parameters) || exists|map: Map<Seq<char>, JObject<'_>>|
            #[trigger] holds_map(parameters, map) && (refuses_pair(map) || nmslib_wrapper::refuses_int(
                map,
                "index_thread_qty"@,
            ) || nmslib_wrapper::refuses_space(map)),
{
    let map = choose|map: Result<StringMap<JObject<'_>>, String>| #[trigger]
        gives_map(parameters, map) && match map {
            Ok(params) => exists|sub: Result<(Option<i32>, Option<i32>), String>| #[trigger]
                gives_sub_parameters(params@, sub) && match sub {
                    Ok((ef, m)) => reads_creation_settings(params@, ef, m, r),
                    Err(_) => true,
                },
            Err(_) => true,
        };
    match map {
        Ok(found) => {
            lemma_given_map(parameters, map);
            let params = found@;
            let sub = choose|sub: Result<(Option<i32>, Option<i32>), String>| #[trigger]
                gives_sub_parameters(params, sub) && match sub {
                    Ok((ef, m)) => reads_creation_settings(params, ef, m, r),
                    Err(_) => true,
                };
            match sub {
                Ok((ef, m)) => {
                    let threads = choose|threads: Result<Option<i32>, String>| #[trigger]
                        gives_int_parameter(params, commons::INDEX_THREAD_QUANTITY@, threads)
                            && match threads {
                            Ok(_) => exists|space: Result<String, String>| #[trigger]
                                gives_space(params, space) && space is Err,
                            Err(_) => true,
                        };
                    match threads {
                        Ok(_) => {
                            let space = choose|space: Result<String, String>| #[trigger]
                                gives_space(params, space) && space is Err;
                            lemma_space_is_refused(params, space);
                        },
                        Err(_) => lemma_number_is_refused(params, "index_thread_qty"@, threads),
                    }
                },
                Err(_) => lemma_pair_is_refused(params, sub),
            }
            assert(holds_map(parameters, params));
        },
        Err(_) => lemma_given_refusal(parameters, map),
    }
}

/// The settings of an index that is to be loaded are refused only where the Java map cannot be walked,
/// has no space that NMSLIB has, or has a size of the candidate list that gives no int.
pub proof fn lemma_loading_is_refused(
    env: &mut JNIEnv<'_>,
    parameters: &JObject<'_>,
    r: Result<IndexSettings, String>,
)
    requires
        call_ensures(loading_settings, (env, parameters), r),
        r is Err,
    ensures
        java_objects::refuses_walk(parameters) || exists|map: Map<Seq<char>, JObject<'_>>|
            #[trigger] holds_map(parameters, map) && (nmslib_wrapper::refuses_int(map, "efSearch"@)
                || nmslib_wrapper::refuses_space(map)),
{
    let map = choose|map: Result<StringMap<JObject<'_>>, String>| #[trigger]
        gives_map(parameters, map) && match map {
            Ok(params) => exists|space: Result<String, String>| #[trigger]
                gives_space(params@, space) && match space {
                    Ok(name) => reads_loading_settings(params@, name, r),
                    Err(_) => true,
                },
            Err(_) => true,
        };
    match map {
        Ok(found) => {
            lemma_given_map(parameters, map);
            let params = found@;
            let space = choose|space: Result<String, String>| #[trigger]
                gives_space(params, space) && match space {
                    Ok(name) => reads_loading_settings(params, name, r),
                    Err(_) => true,
                };
            match space {
                Ok(_) => {
                    let ef = choose|ef: Result<Option<i32>, String>| #[trigger]
                        gives_int_parameter(params, "efSearch"@, ef) && ef is Err;
                    lemma_number_is_refused(params, "efSearch"@, ef);
                },
                Err(_) => lemma_space_is_refused(params, space),
            }
            assert(holds_map(parameters, params));
        },
        Err(_) => lemma_given_refusal(parameters, map),
    }
}

} // verus!
