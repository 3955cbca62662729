//! Operations on NMSLIB indices: what a request must look like, what is asked of
//! NMSLIB, and what is made of its answers.

use crate::asking;
use crate::faiss_wrapper::QueryResult;
use crate::java_objects;
use crate::java_objects::{buffer_size, or_tell, tell_has_next, tell_int, tell_object};
use crate::jni_util;
use crate::jni_util::collect_entries;
use crate::jvm;
use crate::nmslib_plan::{CreatePlan, LoadPlan, LoadSource, NmslibCall, QueryPlan};
use crate::native_plan;
use crate::native_plan::{Fault, FaultView};
use crate::string_map::StringMap;
use crate::text;
use crate::text::{decimal_i64, join, same_text};
use jni::objects::JObject;
use jni::JNIEnv;
use vstd::prelude::*;
use vstd::string::*;

verus! {

broadcast use asking::group_asking;

pub const SPACE_TYPE: &'static str = "spaceType";
pub const PARAMETERS: &'static str = "parameters";
pub const INDEX_THREAD_QUANTITY: &'static str = "indexThreadQty";
pub const EF_CONSTRUCTION: &'static str = "ef_construction";
pub const EF_CONSTRUCTION_NMSLIB: &'static str = "efConstruction";
pub const M: &'static str = "m";
pub const M_NMSLIB: &'static str = "M";
pub const EF_SEARCH: &'static str = "ef_search";

pub const L2: &'static str = "l2";
pub const L1: &'static str = "l1";
pub const LINF: &'static str = "linf";
pub const COSINESIMIL: &'static str = "cosinesimil";
pub const INNER_PRODUCT: &'static str = "innerproduct";
pub const NEG_DOT_PRODUCT: &'static str = "negdotprod";

/// The label of every data object: labels are not used.
pub const DEFAULT_LABEL: i32 = -1;

/// The address of a `similarity::Space<float>`; zero where there is none.
#[derive(Debug, Clone, Copy, PartialEq, Eq, Structural)]
pub struct NmslibSpace {
    pub address: i64,
}

/// The address of a `similarity::Index<float>`; zero where there is none.
#[derive(Debug, Clone, Copy, PartialEq, Eq, Structural)]
pub struct NmslibIndex {
    pub address: i64,
}

/// The address of a `similarity::KNNQuery<float>`; zero where there is none.
#[derive(Debug, Clone, Copy, PartialEq, Eq, Structural)]
pub struct NmslibKNNQuery {
    pub address: i64,
}

/// The address of a `similarity::KNNQueue<float>`; zero where there is none.
#[derive(Debug, Clone, Copy, PartialEq, Eq, Structural)]
pub struct NmslibKNNQueue {
    pub address: i64,
}

/// An index together with its space.
#[derive(Debug, Clone, Copy, PartialEq, Eq, Structural)]
pub struct IndexWrapper {
    pub space: NmslibSpace,
    pub index: NmslibIndex,
}

impl IndexWrapper {
    /// What releases the index and its space, as far as there are any, in order.
    pub open spec fn releases(self) -> Seq<NmslibCall> {
        (if self.index.address != 0 {
            seq![NmslibCall::FreeIndex]
        } else {
            seq![]
        }) + (if self.space.address != 0 {
            seq![NmslibCall::FreeSpace]
        } else {
            seq![]
        })
    }

    /// What releases the index and its space, as far as there are any, in order.
    pub fn release_calls(self) -> (calls: Vec<NmslibCall>)
        ensures
            calls@ == self.releases(),
    {
        let mut calls: Vec<NmslibCall> = Vec::new();
        if self.index.address != 0 {
            calls.push(NmslibCall::FreeIndex);
        }
        if self.space.address != 0 {
            calls.push(NmslibCall::FreeSpace);
        }
        assert(calls@ =~= self.releases());
        calls
    }
}

/// The name that NMSLIB has for a space, or nothing where it has no such space.
pub open spec fn nmslib_space(space_type: Seq<char>) -> Option<Seq<char>> {
    if space_type == L2@ || space_type == L1@ || space_type == LINF@ || space_type == COSINESIMIL@ {
        Some(space_type)
    } else if space_type == INNER_PRODUCT@ {
        Some(NEG_DOT_PRODUCT@)
    } else {
        None
    }
}

/// The name that NMSLIB has for a space, if it has one.
pub fn known_space(space_type: &str) -> (name: Option<String>)
    ensures
        match name {
            Some(n) => nmslib_space(space_type@) == Some(n@),
            None => nmslib_space(space_type@) is None,
        },
{
    if same_text(space_type, L2) || same_text(space_type, L1) || same_text(space_type, LINF)
        || same_text(space_type, COSINESIMIL) {
        Some(space_type.to_owned())
    } else if same_text(space_type, INNER_PRODUCT) {
        Some(NEG_DOT_PRODUCT.to_owned())
    } else {
        None
    }
}

/// The name that NMSLIB has for a space.
pub fn translate_space_type(space_type: &str) -> (r: Result<String, String>)
    ensures
        match r {
            Ok(name) => nmslib_space(space_type@) == Some(name@),
            Err(message) => nmslib_space(space_type@) is None && message@ == "Invalid spaceType: "@
                + space_type@,
        },
{
    match known_space(space_type) {
        Some(name) => Ok(name),
        None => Err(join("Invalid spaceType: ", space_type)),
    }
}

/// The space of an index, which Java may not have given.
pub fn requested_space(space_type: Option<&str>) -> (r: Result<String, String>)
    ensures
        match r {
            Ok(name) => space_type matches Some(text) && nmslib_space(text@) == Some(name@),
            Err(message) => match space_type {
                None => message@ == "spaceType not found in parameters"@,
                Some(text) => nmslib_space(text@) is None && message@ == "Invalid spaceType: "@
                    + text@,
            },
        },
{
    match space_type {
        None => Err("spaceType not found in parameters".to_owned()),
        Some(text) => translate_space_type(text),
    }
}

/// A parameter as NMSLIB takes it.
pub open spec fn setting(key: Seq<char>, value: int) -> Seq<char> {
    key + "="@ + text::decimal(value)
}

fn setting_text(key: &str, value: i32) -> (text: String)
    ensures
        text@ == setting(key@, value as int),
{
    let mut out = join(key, "=");
    out.append(decimal_i64(value as i64).as_str());
    out
}

/// A parameter as NMSLIB takes it, where it has a value.
pub open spec fn setting_if(key: Seq<char>, value: Option<i32>) -> Seq<Seq<char>> {
    match value {
        Some(n) => seq![setting(key, n as int)],
        None => seq![],
    }
}

/// Pieces of text as sequences of characters.
pub open spec fn texts(strings: Seq<String>) -> Seq<Seq<char>> {
    Seq::new(strings.len(), |i: int| strings[i]@)
}

fn push_setting(settings: &mut Vec<String>, key: &str, value: Option<i32>)
    ensures
        texts(final(settings)@) == texts(old(settings)@) + setting_if(key@, value),
{
    if let Some(n) = value {
        settings.push(setting_text(key, n));
    }
    assert(texts(settings@) =~= texts(old(settings)@) + setting_if(key@, value));
}

/// The parameters with which an index is built, where they are given: the size of
/// the candidate list, the number of links and, under the given name, the number of
/// threads.
pub fn index_parameters(
    ef_construction: Option<i32>,
    m: Option<i32>,
    thread_key: &str,
    threads: Option<i32>,
) -> (settings: Vec<String>)
    ensures
        texts(settings@) == setting_if(EF_CONSTRUCTION_NMSLIB@, ef_construction) + setting_if(
            M_NMSLIB@,
            m,
        ) + setting_if(thread_key@, threads),
{
    let mut settings: Vec<String> = Vec::new();
    assert(texts(settings@) =~= Seq::<Seq<char>>::empty());
    push_setting(&mut settings, EF_CONSTRUCTION_NMSLIB, ef_construction);
    push_setting(&mut settings, M_NMSLIB, m);
    push_setting(&mut settings, thread_key, threads);
    assert(texts(settings@) =~= setting_if(EF_CONSTRUCTION_NMSLIB@, ef_construction) + setting_if(
        M_NMSLIB@,
        m,
    ) + setting_if(thread_key@, threads));
    settings
}

/// The parameters with which a loaded index is searched, where they are given.
pub fn query_parameters(ef_search: Option<i32>) -> (settings: Vec<String>)
    ensures
        texts(settings@) == setting_if("efSearch"@, ef_search),
{
    let mut settings: Vec<String> = Vec::new();
    push_setting(&mut settings, "efSearch", ef_search);
    assert(texts(settings@) =~= setting_if("efSearch"@, ef_search));
    settings
}

/// A request to make an index.
#[derive(Debug, Clone, Copy)]
pub struct CreateRequest {
    pub ids_are_null: bool,
    pub vectors_address: i64,
    pub dim: i32,
    pub output_is_null: bool,
    pub parameters_are_null: bool,
}

impl CreateRequest {
    /// Why the request is refused, where it is.
    pub open spec fn refusal(self) -> Option<Seq<char>> {
        if self.ids_are_null {
            Some("IDs cannot be null"@)
        } else if self.vectors_address <= 0 {
            Some("VectorsAddress cannot be less than 0"@)
        } else if self.dim <= 0 {
            Some("Vectors dimensions cannot be less than or equal to 0"@)
        } else if self.output_is_null {
            Some("Index output stream cannot be null"@)
        } else if self.parameters_are_null {
            Some("Parameters cannot be null"@)
        } else {
            None
        }
    }

    /// Refuses a request that cannot be met.
    pub fn check(self) -> (r: Result<(), String>)
        ensures
            match r {
                Ok(_) => self.refusal() is None,
                Err(message) => self.refusal() == Some(message@),
            },
    {
        if self.ids_are_null {
            return Err("IDs cannot be null".to_owned());
        }
        if self.vectors_address <= 0 {
            return Err("VectorsAddress cannot be less than 0".to_owned());
        }
        if self.dim <= 0 {
            return Err("Vectors dimensions cannot be less than or equal to 0".to_owned());
        }
        if self.output_is_null {
            return Err("Index output stream cannot be null".to_owned());
        }
        if self.parameters_are_null {
            return Err("Parameters cannot be null".to_owned());
        }
        Ok(())
    }

    /// How many vectors the stored numbers make; there must be one, and as many ids.
    pub fn count_vectors(self, vectors_len: usize, num_ids: usize) -> (r: Result<usize, String>)
        ensures
            match self.refusal() {
                Some(refusal) => r matches Err(message) && message@ == refusal,
                None => {
                    let count = vectors_len as nat / self.dim as nat;
                    match r {
                        Ok(n) => n == count && n > 0 && n == num_ids,
                        Err(message) => if count == 0 {
                            message@ == "Number of vectors cannot be 0"@
                        } else {
                            count != num_ids && message@
                                == "Number of IDs does not match number of vectors"@
                        },
                    }
                },
            },
    {
        self.check()?;
        let num_vectors = vectors_len / (self.dim as usize);
        if num_vectors == 0 {
            return Err("Number of vectors cannot be 0".to_owned());
        }
        if num_ids != num_vectors {
            return Err("Number of IDs does not match number of vectors".to_owned());
        }
        Ok(num_vectors)
    }
}

/// The plan that makes an index of `num_vectors` vectors in an NMSLIB space.
pub fn create_index(num_vectors: usize, space_type: String) -> (plan: CreatePlan)
    ensures
        plan.num_vectors == num_vectors,
        plan.space_type == space_type,
{
    CreatePlan { num_vectors, space_type }
}

/// An index can be loaded from a file: there are a path and parameters.
pub fn check_load(path_is_null: bool, parameters_are_null: bool) -> (r: Result<(), String>)
    ensures
        match r {
            Ok(_) => !path_is_null && !parameters_are_null,
            Err(message) => if path_is_null {
                message@ == "Index path cannot be null"@
            } else {
                parameters_are_null && message@ == "Parameters cannot be null"@
            },
        },
{
    if path_is_null {
        return Err("Index path cannot be null".to_owned());
    }
    if parameters_are_null {
        return Err("Parameters cannot be null".to_owned());
    }
    Ok(())
}

/// An index can be loaded from a stream: there are a stream and parameters.
pub fn check_load_with_stream(stream_is_null: bool, parameters_are_null: bool) -> (r: Result<
    (),
    String,
>)
    ensures
        match r {
            Ok(_) => !stream_is_null && !parameters_are_null,
            Err(message) => if stream_is_null {
                message@ == "Read stream cannot be null"@
            } else {
                parameters_are_null && message@ == "Parameters cannot be null"@
            },
        },
{
    if stream_is_null {
        return Err("Read stream cannot be null".to_owned());
    }
    if parameters_are_null {
        return Err("Parameters cannot be null".to_owned());
    }
    Ok(())
}

/// The plan that loads an index of an NMSLIB space from a file.
pub fn load_index(space_type: String, path: String) -> (plan: LoadPlan)
    ensures
        plan.space_type == space_type,
        plan.source == LoadSource::Path(path),
{
    LoadPlan { space_type, source: LoadSource::Path(path) }
}

/// The plan that loads an index of an NMSLIB space from a stream.
pub fn load_index_with_stream(space_type: String) -> (plan: LoadPlan)
    ensures
        plan.space_type == space_type,
        plan.source is Stream,
{
    LoadPlan { space_type, source: LoadSource::Stream }
}

/// A query can be run: it has a vector and an index.
pub fn check_query(query_is_null: bool, index_pointer: i64) -> (r: Result<(), String>)
    ensures
        match r {
            Ok(_) => !query_is_null && index_pointer != 0,
            Err(message) => if query_is_null {
                message@ == "Query Vector cannot be null"@
            } else {
                index_pointer == 0 && message@ == "Invalid pointer to index"@
            },
        },
{
    if query_is_null {
        return Err("Query Vector cannot be null".to_owned());
    }
    if index_pointer == 0 {
        return Err("Invalid pointer to index".to_owned());
    }
    Ok(())
}

/// The plan of a query: `ef_search` is the size of the candidate list, where one is
/// given that can be read.
pub fn query_index(ef_search: Option<i32>) -> (plan: QueryPlan)
    ensures
        plan.ef_search == match ef_search {
            Some(n) => n as int,
            None => -1int,
        },
{
    QueryPlan {
        ef_search: match ef_search {
            Some(n) => n,
            None => -1,
        },
    }
}

/// The fault of a plan as text. Of `Fault::Java` the plan does not know what the JVM
/// answered: whoever called it does.
pub fn message_of_fault(fault: Fault) -> (message: String)
    requires
        !(fault is Java),
    ensures
        match fault@ {
            FaultView::Runtime(text) => message@ == text,
            FaultView::NullPointer(text) => message@ == text,
            FaultView::Faiss(text) => message@ == text,
            FaultView::Write(text) => message@ == text,
            FaultView::InvalidArgument(text) => message@ == text,
            FaultView::NotTrained => message@ == "Index is not trained"@,
            FaultView::Add => message@ == "Failed to add vectors"@,
            FaultView::Java => true,
        },
{
    match fault {
        Fault::Runtime(text) => text,
        Fault::NullPointer(text) => text,
        Fault::Faiss(text) => text,
        Fault::Write(text) => text,
        Fault::InvalidArgument(text) => text,
        Fault::NotTrained => "Index is not trained".to_owned(),
        Fault::Add => "Failed to add vectors".to_owned(),
        Fault::Java => vstd::pervasive::unreached(),
    }
}

/// What is said of a panic with the given text, if it has one.
pub fn panic_text(text: Option<&str>) -> (message: String)
    ensures
        message@ == match text {
            Some(t) => t@,
            None => "Unknown panic in native code"@,
        },
{
    match text {
        Some(t) => t.to_owned(),
        None => "Unknown panic in native code".to_owned(),
    }
}

/// What is said where the entries of a Java map cannot be had.
pub open spec fn is_map_fault(text: Seq<char>) -> bool {
    ||| java_objects::tells_of_jvm("Failed to call entrySet: "@, text)
    ||| java_objects::tells_of_jvm("entrySet not an object: "@, text)
    ||| java_objects::tells_of_jvm("Failed to get iterator: "@, text)
    ||| java_objects::tells_of_jvm("iterator not an object: "@, text)
    ||| java_objects::tells_of_jvm("hasNext failed: "@, text)
    ||| java_objects::tells_of_jvm("hasNext not bool: "@, text)
    ||| java_objects::tells_of_jvm("next failed: "@, text)
    ||| java_objects::tells_of_jvm("next not object: "@, text)
    ||| java_objects::tells_of_jvm("getKey failed: "@, text)
    ||| java_objects::tells_of_jvm("getKey not object: "@, text)
    ||| java_objects::tells_of_jvm("getValue failed: "@, text)
    ||| java_objects::tells_of_jvm("getValue not object: "@, text)
    ||| java_objects::tells_of_jvm("get_string failed: "@, text)
}

/// What is said where a Java object cannot be read as an int.
pub open spec fn is_int_fault(text: Seq<char>) -> bool {
    ||| java_objects::tells_of_jvm("intValue failed: "@, text)
    ||| java_objects::tells_of_jvm("intValue not int: "@, text)
}

/// What asking a Java map for an iterator over its entries may come to: its set of
/// entries is asked for once, and so is the iterator.
pub open spec fn gives_iterator<'local>(
    before: JNIEnv<'local>,
    map_obj: &JObject<'_>,
    r: Result<JObject<'local>, String>,
    after: JNIEnv<'local>,
) -> bool {
    exists|entry_set: Result<JObject<'local>, String>, with_set: JNIEnv<'local>| #[trigger]
        java_objects::tells_object(
            before,
            map_obj,
            "entrySet"@,
            "()Ljava/util/Set;"@,
            "Failed to call entrySet: "@,
            "entrySet not an object: "@,
            entry_set,
            with_set,
        ) && match entry_set {
            Ok(set) => java_objects::tells_object(
                with_set,
                &set,
                "iterator"@,
                "()Ljava/util/Iterator;"@,
                "Failed to get iterator: "@,
                "iterator not an object: "@,
                r,
                after,
            ),
            Err(text) => r == Err::<JObject<'local>, String>(text) && with_set == after,
        }
}

/// What asking the iterator whether there are more entries may come to.
pub open spec fn gives_more<'local>(
    before: JNIEnv<'local>,
    iterator: &JObject<'_>,
    r: Result<bool, String>,
    after: JNIEnv<'local>,
) -> bool {
    java_objects::tells_has_next(
        before,
        iterator,
        "hasNext failed: "@,
        "hasNext not bool: "@,
        r,
        after,
    )
}

/// What asking the iterator for the next entry may come to: it is asked for one.
pub open spec fn gives_entry<'local>(
    before: JNIEnv<'local>,
    iterator: &JObject<'_>,
    r: Result<(String, JObject<'local>), String>,
    after: JNIEnv<'local>,
) -> bool {
    exists|entry: Result<JObject<'local>, String>, with_entry: JNIEnv<'local>| #[trigger]
        java_objects::tells_object(
            before,
            iterator,
            "next"@,
            "()Ljava/lang/Object;"@,
            "next failed: "@,
            "next not object: "@,
            entry,
            with_entry,
        ) && match entry {
            Ok(object) => reads_entry(with_entry, &object, r, after),
            Err(text) => {
                &&& r == Err::<(String, JObject<'local>), String>(text)
                &&& with_entry == after
            },
        }
}

/// What asking an entry for its key may come to.
pub open spec fn gives_key<'local>(
    before: JNIEnv<'local>,
    entry: &JObject<'_>,
    r: Result<JObject<'local>, String>,
    after: JNIEnv<'local>,
) -> bool {
    java_objects::tells_object(
        before,
        entry,
        "getKey"@,
        "()Ljava/lang/Object;"@,
        "getKey failed: "@,
        "getKey not object: "@,
        r,
        after,
    )
}

/// What asking an entry for its value may come to.
pub open spec fn gives_value<'local>(
    before: JNIEnv<'local>,
    entry: &JObject<'_>,
    r: Result<JObject<'local>, String>,
    after: JNIEnv<'local>,
) -> bool {
    java_objects::tells_object(
        before,
        entry,
        "getValue"@,
        "()Ljava/lang/Object;"@,
        "getValue failed: "@,
        "getValue not object: "@,
        r,
        after,
    )
}

/// What reading the text of a key may come to.
pub open spec fn gives_name<'local>(
    before: JNIEnv<'local>,
    key: &JObject<'_>,
    r: Result<String, String>,
    after: JNIEnv<'local>,
) -> bool {
    exists|answer: jvm::JniResult<String>| #[trigger]
        jvm::gets_string_once(before, key, answer, after) && java_objects::told(
            answer,
            "get_string failed: "@,
            r,
        )
}

/// What reading an entry may come to: its key, its value, and then the text of the key,
/// each asked for once.
pub open spec fn reads_entry<'local>(
    before: JNIEnv<'local>,
    entry: &JObject<'_>,
    r: Result<(String, JObject<'local>), String>,
    after: JNIEnv<'local>,
) -> bool {
    exists|key: Result<JObject<'local>, String>, with_key: JNIEnv<'local>| #[trigger]
        gives_key(before, entry, key, with_key) && match key {
            Ok(k) => exists|value: Result<JObject<'local>, String>, with_value: JNIEnv<'local>| #[trigger]
                gives_value(with_key, entry, value, with_value) && match value {
                    Ok(v) => exists|name: Result<String, String>| #[trigger]
                        gives_name(with_value, &k, name, after) && r == match name {
                            Ok(n) => Ok((n, v)),
                            Err(text) => Err(text),
                        },
                    Err(text) => {
                        &&& r == Err::<(String, JObject<'local>), String>(text)
                        &&& with_value == after
                    },
                },
            Err(text) => {
                &&& r == Err::<(String, JObject<'local>), String>(text)
                &&& with_key == after
            },
        }
}

/// The iterator says that it has more, and then gives this entry.
pub open spec fn gives_next<'local>(
    before: JNIEnv<'local>,
    iterator: &JObject<'_>,
    r: Result<(String, JObject<'local>), String>,
    after: JNIEnv<'local>,
) -> bool {
    exists|asked: JNIEnv<'local>| #[trigger]
        gives_more(before, iterator, Ok(true), asked) && gives_entry(asked, iterator, r, after)
}

/// The iterator gave these entries one after the other, each from one environment of
/// `passed` to the next; nothing else was called between.
pub open spec fn gave_entries<'local>(
    passed: Seq<JNIEnv<'local>>,
    iterator: &JObject<'_>,
    entries: Seq<(String, JObject<'local>)>,
) -> bool {
    &&& passed.len() == entries.len() + 1
    &&& forall|k: int|
        0 <= k < entries.len() ==> gives_next(
            passed[k],
            iterator,
            Ok(#[trigger] entries[k]),
            passed[k + 1],
        )
}

/// What taking the entries from the iterator may come to: all of them once it has no
/// more, or what is said of one that cannot be had. The count of entries has 64 bits.
pub open spec fn walks<'local>(
    before: JNIEnv<'local>,
    iterator: &JObject<'_>,
    r: Result<StringMap<JObject<'local>>, String>,
    after: JNIEnv<'local>,
) -> bool {
    exists|passed: Seq<JNIEnv<'local>>, entries: Seq<(String, JObject<'local>)>|
        {
            &&& #[trigger] gave_entries(passed, iterator, entries)
            &&& passed.first() == before
            &&& match r {
                Ok(map) => {
                    &&& map@ == jni_util::collected(entries)
                    &&& {
                        ||| gives_more(passed.last(), iterator, Ok(false), after)
                        ||| entries.len() == u64::MAX && passed.last() == after
                    }
                },
                Err(text) => {
                    ||| gives_more(passed.last(), iterator, Err(text), after)
                    ||| gives_next(
                        passed.last(),
                        iterator,
                        Err::<(String, JObject<'local>), String>(text),
                        after,
                    )
                },
            }
        }
}

/// What reading the entries of a Java map may come to.
pub open spec fn gives_map<'local>(
    map_obj: &JObject<'_>,
    r: Result<StringMap<JObject<'local>>, String>,
) -> bool {
    exists|before: JNIEnv<'local>, after: JNIEnv<'local>| #[trigger]
        reads_map(before, map_obj, r, after)
}

/// What reading the entries of a Java map may come to, with the environment before and
/// after: all entries are taken.
pub open spec fn reads_map<'local>(
    before: JNIEnv<'local>,
    map_obj: &JObject<'_>,
    r: Result<StringMap<JObject<'local>>, String>,
    after: JNIEnv<'local>,
) -> bool {
    exists|start: Result<JObject<'local>, String>, with_iterator: JNIEnv<'local>| #[trigger]
        gives_iterator(before, map_obj, start, with_iterator) && match start {
            Ok(iterator) => walks(with_iterator, &iterator, r, after),
            Err(text) => {
                &&& r == Err::<StringMap<JObject<'local>>, String>(text)
                &&& with_iterator == after
            },
        }
}

fn get_iterator<'local>(env: &mut JNIEnv<'local>, map_obj: &JObject<'_>) -> (r: Result<
    JObject<'local>,
    String,
>)
    ensures
        asking::only_asks(*old(env), *final(env)),
        gives_iterator(*old(env), map_obj, r, *final(env)),
        r matches Err(text) ==> is_map_fault(text@),
{
    proof {
        jvm::lemma_signatures_plain();
    }
    let entry_set = tell_object(
        env,
        map_obj,
        "entrySet",
        "()Ljava/util/Set;",
        "Failed to call entrySet: ",
        "entrySet not an object: ",
    )?;
    tell_object(
        env,
        &entry_set,
        "iterator",
        "()Ljava/util/Iterator;",
        "Failed to get iterator: ",
        "iterator not an object: ",
    )
}

fn next_entry<'local>(env: &mut JNIEnv<'local>, iterator: &JObject<'_>) -> (r: Result<
    (String, JObject<'local>),
    String,
>)
    ensures
        asking::only_asks(*old(env), *final(env)),
        gives_entry(*old(env), iterator, r, *final(env)),
        r matches Err(text) ==> is_map_fault(text@),
{
    proof {
        jvm::lemma_signatures_plain();
    }
    let entry = tell_object(
        env,
        iterator,
        "next",
        "()Ljava/lang/Object;",
        "next failed: ",
        "next not object: ",
    )?;
    let ghost with_entry = *env;
    let key = tell_object(
        env,
        &entry,
        "getKey",
        "()Ljava/lang/Object;",
        "getKey failed: ",
        "getKey not object: ",
    );
    assert(gives_key(with_entry, &entry, key, *env));
    let ghost with_key = *env;
    let key = key?;
    let value = tell_object(
        env,
        &entry,
        "getValue",
        "()Ljava/lang/Object;",
        "getValue failed: ",
        "getValue not object: ",
    );
    assert(gives_value(with_key, &entry, value, *env));
    let ghost with_value = *env;
    let value = value?;
    let (answer, passage) = jvm::get_string_once(env, &key);
    assert(jvm::gets_string_once(with_value, &key, answer, *env));
    let name = or_tell(answer, "get_string failed: ");
    assert(gives_name(with_value, &key, name, *env));
    let name = name?;
    Ok((name, value))
}

/// Takes the entries of a Java map from an iterator.
fn walk<'local>(env: &mut JNIEnv<'local>, iterator: &JObject<'_>) -> (r: Result<
    StringMap<JObject<'local>>,
    String,
>)
    ensures
        asking::only_asks(*old(env), *final(env)),
        walks(*old(env), iterator, r, *final(env)),
        r matches Err(text) ==> is_map_fault(text@),
{
    let mut entries: Vec<(String, JObject<'local>)> = Vec::new();
    let mut entries_left: u64 = u64::MAX;
    let ghost start = *env;
    let ghost mut passed: Seq<JNIEnv<'local>> = seq![*env];
    while entries_left > 0
        invariant
            asking::only_asks(*old(env), *env),
            gave_entries(passed, iterator, entries@),
            passed.first() == start,
            passed.last() == *env,
            start == *old(env),
            entries@.len() == u64::MAX - entries_left,
        decreases entries_left,
    {
        let more = match tell_has_next(
            env,
            iterator,
            "hasNext failed: ",
            "hasNext not bool: ",
        ) {
            Ok(more) => more,
            Err(text) => {
                let r = Err(text);
                assert(gives_more(passed.last(), iterator, Err(r->Err_0), *env));
                assert(walks(start, iterator, r, *env));
                return r;
            },
        };
        if !more {
            assert(gives_more(passed.last(), iterator, Ok(false), *env));
            return Ok(collect_entries(entries));
        }
        assert(gives_more(passed.last(), iterator, Ok(true), *env));
        match next_entry(env, iterator) {
            Ok(entry) => {
                proof {
                    let next = passed.push(*env);
                    assert(gives_next(passed.last(), iterator, Ok(entry), *env));
                    assert(gave_entries(next, iterator, entries@.push(entry)));
                    passed = next;
                }
                entries.push(entry);
            },
            Err(text) => {
                let r = Err(text);
                assert(gives_next(
                    passed.last(),
                    iterator,
                    Err::<(String, JObject<'local>), String>(r->Err_0),
                    *env,
                ));
                assert(walks(start, iterator, r, *env));
                return r;
            },
        }
        entries_left = entries_left - 1;
    }
    Ok(collect_entries(entries))
}

/// The entries of a Java map. Where a key occurs twice the later value counts.
pub(crate) fn java_map_to_hashmap<'local>(env: &mut JNIEnv<'local>, map_obj: &JObject<'_>) -> (r:
    Result<StringMap<JObject<'local>>, String>)
    ensures
        asking::only_asks(*old(env), *final(env)),
        gives_map(map_obj, r),
        reads_map(*old(env), map_obj, r, *final(env)),
        r matches Err(text) ==> is_map_fault(text@),
{
    let iterator = get_iterator(env, map_obj);
    assert(gives_iterator(*old(env), map_obj, iterator, *env));
    let r = match iterator {
        Ok(iterator) => walk(env, &iterator),
        Err(text) => Err(text),
    };
    assert(reads_map(*old(env), map_obj, r, *env));
    r
}

/// What asking a Java number for its value may come to.
pub open spec fn gives_int(obj: &JObject<'_>, r: Result<i32, String>) -> bool {
    java_objects::tells_int(obj, "intValue failed: "@, "intValue not int: "@, r)
}

/// The value of a Java number.
pub(crate) fn java_object_to_int(env: &mut JNIEnv<'_>, obj: &JObject<'_>) -> (r: Result<i32, String>)
    ensures
        asking::only_asks(*old(env), *final(env)),
        gives_int(obj, r),
        r matches Err(text) ==> is_int_fault(text@),
{
    tell_int(env, obj, "intValue failed: ", "intValue not int: ")
}

/// What reading a Java string may come to.
pub open spec fn gives_string(obj: &JObject<'_>, r: Result<String, String>) -> bool {
    exists|answer: jvm::JniResult<String>| #[trigger]
        jvm::get_string_answers(obj, answer) && java_objects::told(
            answer,
            "get_string failed: "@,
            r,
        )
}

/// The text of a Java string.
pub(crate) fn java_object_to_string(env: &mut JNIEnv<'_>, obj: &JObject<'_>) -> (r: Result<
    String,
    String,
>)
    ensures
        asking::only_asks(*old(env), *final(env)),
        gives_string(obj, r),
        r matches Err(text) ==> java_objects::tells_of_jvm("get_string failed: "@, text@),
{
    let answer = asking::ask_string(env, obj);
    assert(jvm::get_string_answers(obj, answer));
    or_tell(answer, "get_string failed: ")
}

/// What reading the int that a map has for a key may come to: nothing where it has
/// none, or none that can be read.
pub open spec fn gives_method_parameter(
    params: Map<Seq<char>, JObject<'_>>,
    key: Seq<char>,
    value: Option<i32>,
) -> bool {
    if params.dom().contains(key) {
        exists|answer: Result<i32, String>| #[trigger]
            gives_int(&params[key], answer) && value == match answer {
                Ok(n) => Some(n),
                Err(_) => None,
            }
    } else {
        value is None
    }
}

/// What reading the int that a map has for a key may come to: nothing where it has
/// none.
pub open spec fn gives_int_parameter(
    params: Map<Seq<char>, JObject<'_>>,
    key: Seq<char>,
    r: Result<Option<i32>, String>,
) -> bool {
    if params.dom().contains(key) {
        exists|answer: Result<i32, String>| #[trigger]
            gives_int(&params[key], answer) && r == match answer {
                Ok(n) => Ok(Some(n)),
                Err(text) => Err(text),
            }
    } else {
        r == Ok::<Option<i32>, String>(None)
    }
}

/// The int that `params` has for `key`; nothing where it has none, or none that can
/// be read.
pub(crate) fn get_integer_method_parameter(
    env: &mut JNIEnv<'_>,
    params: &StringMap<JObject<'_>>,
    key: &str,
) -> (value: Option<i32>)
    ensures
        asking::only_asks(*old(env), *final(env)),
        gives_method_parameter(params@, key@, value),
{
    match params.get(key) {
        Some(object) => match java_object_to_int(env, object) {
            Ok(n) => Some(n),
            Err(_) => None,
        },
        None => None,
    }
}

fn int_parameter(env: &mut JNIEnv<'_>, params: &StringMap<JObject<'_>>, key: &str) -> (r: Result<
    Option<i32>,
    String,
>)
    ensures
        asking::only_asks(*old(env), *final(env)),
        gives_int_parameter(params@, key@, r),
        match r {
            Ok(value) => value is Some == params@.dom().contains(key@),
            Err(text) => params@.dom().contains(key@) && is_int_fault(text@),
        },
{
    match params.get(key) {
        Some(object) => {
            let n = java_object_to_int(env, object)?;
            Ok(Some(n))
        },
        None => Ok(None),
    }
}

/// How NMSLIB is to build or load an index: its space, as NMSLIB names it, and
/// parameters, as NMSLIB takes them.
pub struct IndexSettings {
    pub space_type: String,
    pub parameters: Vec<String>,
}

impl IndexSettings {
    /// The space is one that NMSLIB has.
    pub open spec fn has_known_space(&self) -> bool {
        exists|name: Seq<char>| #[trigger] nmslib_space(name) == Some(self.space_type@)
    }
}

/// What is said where the settings of an index cannot be had.
pub open spec fn is_settings_fault(text: Seq<char>) -> bool {
    ||| is_map_fault(text)
    ||| is_int_fault(text)
    ||| text == "spaceType not found in parameters"@
    ||| exists|name: Seq<char>|
        #[trigger] nmslib_space(name) is None && text == "Invalid spaceType: "@ + name
}

/// The name of a space that is asked for, or what is said of one that NMSLIB does not
/// have or that is not given.
pub open spec fn names_space(space_type: Option<Seq<char>>, r: Result<String, String>) -> bool {
    match r {
        Ok(name) => space_type matches Some(text) && nmslib_space(text) == Some(name@),
        Err(message) => match space_type {
            None => message@ == "spaceType not found in parameters"@,
            Some(text) => nmslib_space(text) is None && message@ == "Invalid spaceType: "@ + text,
        },
    }
}

/// What reading the space of an index may come to.
pub open spec fn gives_space(
    params: Map<Seq<char>, JObject<'_>>,
    r: Result<String, String>,
) -> bool {
    if params.dom().contains(SPACE_TYPE@) {
        exists|text: Result<String, String>| #[trigger]
            gives_string(&params[SPACE_TYPE@], text) && match text {
                Ok(name) => names_space(Some(name@), r),
                Err(message) => r == Err::<String, String>(message),
            }
    } else {
        names_space(None, r)
    }
}

/// What reading the parameters that stand in a map of their own may come to.
pub open spec fn gives_sub_parameters(
    params: Map<Seq<char>, JObject<'_>>,
    r: Result<(Option<i32>, Option<i32>), String>,
) -> bool {
    if params.dom().contains(PARAMETERS@) {
        exists|map: Result<StringMap<JObject<'_>>, String>| #[trigger]
            gives_map(&params[PARAMETERS@], map) && match map {
                Ok(sub_params) => reads_sub_parameters(sub_params@, r),
                Err(text) => r == Err::<(Option<i32>, Option<i32>), String>(text),
            }
    } else {
        r == Ok::<(Option<i32>, Option<i32>), String>((None, None))
    }
}

/// What reading the two parameters of the map of their own may come to.
pub open spec fn reads_sub_parameters(
    sub_params: Map<Seq<char>, JObject<'_>>,
    r: Result<(Option<i32>, Option<i32>), String>,
) -> bool {
    exists|ef: Result<Option<i32>, String>| #[trigger]
        gives_int_parameter(sub_params, EF_CONSTRUCTION@, ef) && match ef {
            Ok(ef_construction) => exists|m: Result<Option<i32>, String>| #[trigger]
                gives_int_parameter(sub_params, M@, m) && r == match m {
                    Ok(n) => Ok((ef_construction, n)),
                    Err(text) => Err(text),
                },
            Err(text) => r == Err::<(Option<i32>, Option<i32>), String>(text),
        }
}

/// What reading the settings of an index that is to be built may come to.
pub open spec fn gives_creation_settings(
    parameters: &JObject<'_>,
    r: Result<IndexSettings, String>,
) -> bool {
    exists|map: Result<StringMap<JObject<'_>>, String>| #[trigger]
        gives_map(parameters, map) && match map {
            Ok(params) => exists|sub: Result<(Option<i32>, Option<i32>), String>| #[trigger]
                gives_sub_parameters(params@, sub) && match sub {
                    Ok((ef, m)) => reads_creation_settings(params@, ef, m, r),
                    Err(text) => r == Err::<IndexSettings, String>(text),
                },
            Err(text) => r == Err::<IndexSettings, String>(text),
        }
}

/// What reading the other settings of an index that is to be built may come to.
pub open spec fn reads_creation_settings(
    params: Map<Seq<char>, JObject<'_>>,
    ef: Option<i32>,
    m: Option<i32>,
    r: Result<IndexSettings, String>,
) -> bool {
    exists|threads: Result<Option<i32>, String>| #[trigger]
        gives_int_parameter(params, INDEX_THREAD_QUANTITY@, threads) && match threads {
            Ok(n) => exists|space: Result<String, String>| #[trigger]
                gives_space(params, space) && match space {
                    Ok(name) => {
                        &&& r matches Ok(settings) && settings.space_type == name
                        &&& texts(r->Ok_0.parameters@) == creation_texts(ef, m, n)
                    },
                    Err(text) => r == Err::<IndexSettings, String>(text),
                },
            Err(text) => r == Err::<IndexSettings, String>(text),
        }
}

/// What reading the settings of an index that is to be loaded may come to.
pub open spec fn gives_loading_settings(
    parameters: &JObject<'_>,
    r: Result<IndexSettings, String>,
) -> bool {
    exists|map: Result<StringMap<JObject<'_>>, String>| #[trigger]
        gives_map(parameters, map) && match map {
            Ok(params) => exists|space: Result<String, String>| #[trigger]
                gives_space(params@, space) && match space {
                    Ok(name) => reads_loading_settings(params@, name, r),
                    Err(text) => r == Err::<IndexSettings, String>(text),
                },
            Err(text) => r == Err::<IndexSettings, String>(text),
        }
}

/// What reading the size of the candidate list of an index that is to be loaded may
/// come to.
pub open spec fn reads_loading_settings(
    params: Map<Seq<char>, JObject<'_>>,
    space_type: String,
    r: Result<IndexSettings, String>,
) -> bool {
    exists|ef: Result<Option<i32>, String>| #[trigger]
        gives_int_parameter(params, "efSearch"@, ef) && match ef {
            Ok(n) => {
                &&& r matches Ok(settings) && settings.space_type == space_type
                &&& texts(r->Ok_0.parameters@) == setting_if("efSearch"@, n)
            },
            Err(text) => r == Err::<IndexSettings, String>(text),
        }
}

fn read_space(env: &mut JNIEnv<'_>, params: &StringMap<JObject<'_>>) -> (r: Result<String, String>)
    ensures
        asking::only_asks(*old(env), *final(env)),
        gives_space(params@, r),
        match r {
            Ok(space) => exists|name: Seq<char>| #[trigger] nmslib_space(name) == Some(space@),
            Err(text) => is_settings_fault(text@),
        },
{
    let space = match params.get(SPACE_TYPE) {
        Some(object) => {
            let text = java_object_to_string(env, object)?;
            requested_space(Some(text.as_str()))
        },
        None => requested_space(None),
    };
    space
}

/// The two parameters that stand in a map of their own, where Java gives it.
fn sub_parameters(env: &mut JNIEnv<'_>, params: &StringMap<JObject<'_>>) -> (r: Result<
    (Option<i32>, Option<i32>),
    String,
>)
    ensures
        asking::only_asks(*old(env), *final(env)),
        gives_sub_parameters(params@, r),
        r matches Err(text) ==> is_settings_fault(text@),
{
    match params.get(PARAMETERS) {
        Some(object) => {
            let sub_params = java_map_to_hashmap(env, object)?;
            let ef_construction = int_parameter(env, &sub_params, EF_CONSTRUCTION)?;
            let m = int_parameter(env, &sub_params, M)?;
            Ok((ef_construction, m))
        },
        None => Ok((None, None)),
    }
}

/// The settings with which Java asks for an index to be built.
pub fn creation_settings(env: &mut JNIEnv<'_>, parameters: &JObject<'_>) -> (r: Result<
    IndexSettings,
    String,
>)
    ensures
        asking::only_asks(*old(env), *final(env)),
        gives_creation_settings(parameters, r),
        match r {
            Ok(settings) => {
                &&& settings.has_known_space()
                &&& exists|ef: Option<i32>, m: Option<i32>, threads: Option<i32>|
                    texts(settings.parameters@) == #[trigger] creation_texts(ef, m, threads)
            },
            Err(text) => is_settings_fault(text@),
        },
{
    let params = java_map_to_hashmap(env, parameters)?;
    let (ef_construction, m) = sub_parameters(env, &params)?;
    let threads = int_parameter(env, &params, INDEX_THREAD_QUANTITY)?;
    let space_type = read_space(env, &params)?;
    let parameters = index_parameters(ef_construction, m, INDEX_THREAD_QUANTITY, threads);
    assert(texts(parameters@) == creation_texts(ef_construction, m, threads));
    Ok(IndexSettings { space_type, parameters })
}

/// The parameters of an index that is to be built, as NMSLIB takes them.
pub open spec fn creation_texts(ef: Option<i32>, m: Option<i32>, threads: Option<i32>) -> Seq<
    Seq<char>,
> {
    setting_if(EF_CONSTRUCTION_NMSLIB@, ef) + setting_if(M_NMSLIB@, m) + setting_if(
        INDEX_THREAD_QUANTITY@,
        threads,
    )
}

/// The settings with which Java asks for an index to be loaded.
pub fn loading_settings(env: &mut JNIEnv<'_>, parameters: &JObject<'_>) -> (r: Result<
    IndexSettings,
    String,
>)
    ensures
        asking::only_asks(*old(env), *final(env)),
        gives_loading_settings(parameters, r),
        match r {
            Ok(settings) => {
                &&& settings.has_known_space()
                &&& exists|ef: Option<i32>|
                    texts(settings.parameters@) == #[trigger] setting_if("efSearch"@, ef)
            },
            Err(text) => is_settings_fault(text@),
        },
{
    let params = java_map_to_hashmap(env, parameters)?;
    let space_type = read_space(env, &params)?;
    let ef_search = int_parameter(env, &params, "efSearch")?;
    let parameters = query_parameters(ef_search);
    Ok(IndexSettings { space_type, parameters })
}

/// What reading the parameters of a query may come to.
pub open spec fn gives_query_plan(
    method_params: &JObject<'_>,
    r: Result<QueryPlan, String>,
) -> bool {
    ||| {
        &&& jvm::is_null_answers(method_params, true)
        &&& r matches Ok(plan) && plan.ef_search == -1
    }
    ||| jvm::is_null_answers(method_params, false)
        && exists|map: Result<StringMap<JObject<'_>>, String>| #[trigger]
        gives_map(method_params, map) && match map {
            Ok(params) => r matches Ok(plan) && exists|ef_search: Option<i32>| #[trigger]
                gives_method_parameter(params@, EF_SEARCH@, ef_search) && plan.ef_search
                    == match ef_search {
                    Some(n) => n as int,
                    None => -1int,
                },
            Err(text) => r == Err::<QueryPlan, String>(text),
        }
}

/// The plan of a query with the parameters that Java passes, which may be null.
pub fn query_plan(env: &mut JNIEnv<'_>, method_params: &JObject<'_>) -> (r: Result<
    QueryPlan,
    String,
>)
    ensures
        asking::only_asks(*old(env), *final(env)),
        gives_query_plan(method_params, r),
        r matches Err(text) ==> is_map_fault(text@),
{
    if jvm::is_null(method_params) {
        return Ok(query_index(None));
    }
    let params = java_map_to_hashmap(env, method_params)?;
    Ok(query_index(get_integer_method_parameter(env, &params, EF_SEARCH)))
}

/// The text of a Java string that holds a path.
pub fn index_path(env: &mut JNIEnv<'_>, path: &JObject<'_>) -> (r: Result<String, String>)
    ensures
        asking::only_asks(*old(env), *final(env)),
        exists|answer: jvm::JniResult<String>| #[trigger]
            jvm::get_string_answers(path, answer) && java_objects::told(
                answer,
                "Failed to get index path string: "@,
                r,
            ),
{
    let answer = asking::ask_string(env, path);
    assert(jvm::get_string_answers(path, answer));
    or_tell(answer, "Failed to get index path string: ")
}

/// The bit patterns of the numbers of a query.
pub fn query_vector(env: &mut JNIEnv<'_>, query: &JObject<'_>) -> (r: Result<Vec<u32>, String>)
    ensures
        asking::only_asks(*old(env), *final(env)),
        exists|length: jvm::JniResult<i32>| #[trigger]
            jvm::get_array_length_answers(query, length) && match length {
                Ok(n) => exists|numbers: jvm::JniResult<Vec<u32>>| #[trigger]
                    jvm::get_float_array_region_answers(
                        query,
                        java_objects::element_count(n),
                        numbers,
                    ) && java_objects::told(numbers, "Failed to get float array elements: "@, r),
                Err(e) => r matches Err(text) && java_objects::tells_of(
                    e,
                    "Failed to get query vector length: "@,
                    text@,
                ),
            },
{
    let length = asking::ask_length(env, query);
    assert(jvm::get_array_length_answers(query, length));
    let length = or_tell(length, "Failed to get query vector length: ")?;
    let numbers = jvm::get_float_array_region(env, query, buffer_size(length));
    assert(jvm::get_float_array_region_answers(query, java_objects::element_count(length), numbers));
    or_tell(numbers, "Failed to get float array elements: ")
}

/// What is said where results cannot be handed to Java; `no_set` is said where one
/// cannot be put into the array.
pub open spec fn is_result_fault(no_set: Seq<char>, text: Seq<char>) -> bool {
    ||| java_objects::tells_of_jvm("Failed to find KNNQueryResult class: "@, text)
    ||| java_objects::tells_of_jvm("Failed to find KNNQueryResult constructor: "@, text)
    ||| java_objects::tells_of_jvm("Failed to create result array: "@, text)
    ||| java_objects::tells_of_jvm("Failed to create KNNQueryResult object: "@, text)
    ||| java_objects::tells_of_jvm(no_set, text)
}

/// What making a query result and putting it at an index of a Java array may come to:
/// one object is made and put there, and nothing else is called.
pub open spec fn places_result<'local>(
    before: JNIEnv<'local>,
    class: &JObject<'_>,
    array: &JObject<'_>,
    index: i32,
    result: QueryResult<u32>,
    no_set: Seq<char>,
    r: Result<(), String>,
    after: JNIEnv<'local>,
) -> bool {
    exists|object: jvm::JniResult<JObject<'local>>, with_object: JNIEnv<'local>| #[trigger]
        jvm::makes_object_once(
            before,
            class,
            "(IF)V"@,
            result.id,
            result.distance,
            object,
            with_object,
        ) && match object {
            Ok(o) => exists|set: jvm::JniResult<()>| #[trigger]
                jvm::sets_element_once(with_object, array, index, &o, set, after)
                    && java_objects::told(set, no_set, r),
            Err(e) => {
                &&& r matches Err(text) && java_objects::tells_of(e, "Failed to create KNNQueryResult object: "@, text@)
                &&& with_object == after
            },
        }
}

/// The first results were put into a Java array one after the other, each at its index
/// and from one environment of `passed` to the next.
pub open spec fn placed_first<'local>(
    passed: Seq<JNIEnv<'local>>,
    class: &JObject<'_>,
    array: &JObject<'_>,
    results: Seq<QueryResult<u32>>,
    no_set: Seq<char>,
) -> bool {
    &&& 1 <= passed.len() <= results.len() + 1
    &&& forall|k: int|
        0 <= k < passed.len() - 1 ==> places_result(
            passed[k],
            class,
            array,
            k as i32,
            #[trigger] results[k],
            no_set, Ok(()),
            passed[k + 1],
        )
}

/// What putting the results of a query into a Java array may come to: each stands at
/// its index, or one cannot be put there once those before it are.
pub open spec fn places_results<'local>(
    before: JNIEnv<'local>,
    class: &JObject<'_>,
    array: &JObject<'_>,
    results: Seq<QueryResult<u32>>,
    no_set: Seq<char>,
    r: Result<(), String>,
    after: JNIEnv<'local>,
) -> bool {
    exists|passed: Seq<JNIEnv<'local>>|
        {
            &&& #[trigger] placed_first(passed, class, array, results, no_set)
            &&& passed.first() == before
            &&& match r {
                Ok(_) => passed.len() == results.len() + 1 && passed.last() == after,
                Err(text) => {
                    &&& passed.len() <= results.len()
                    &&& places_result(
                        passed.last(),
                        class,
                        array,
                        (passed.len() - 1) as i32,
                        results[passed.len() - 1],
                        no_set, Err(text),
                        after,
                    )
                },
            }
        }
}

/// What making a Java array of the results of a query may come to, where their class
/// is known: an array of their number is made, and they are put into it.
pub open spec fn makes_array<'local>(
    before: JNIEnv<'local>,
    class: &JObject<'_>,
    results: Seq<QueryResult<u32>>,
    no_set: Seq<char>,
    r: Result<JObject<'local>, String>,
    after: JNIEnv<'local>,
) -> bool {
    exists|
        initial: JObject<'static>,
        array: jvm::JniResult<JObject<'local>>,
        with_array: JNIEnv<'local>,
    |
        {
            &&& jvm::null_object_answers(initial)
            &&& #[trigger] jvm::makes_object_array_once(
                before,
                results.len() as i32,
                class,
                &initial,
                array,
                with_array,
            )
            &&& match array {
                Ok(a) => exists|placed: Result<(), String>| #[trigger]
                    places_results(with_array, class, &a, results, no_set, placed, after) && r
                        == match placed {
                        Ok(_) => Ok(a),
                        Err(text) => Err(text),
                    },
                Err(e) => {
                    &&& r matches Err(text) && java_objects::tells_of(e, "Failed to create result array: "@, text@)
                    &&& with_array == after
                },
            }
        }
}

/// What handing the results of a query to Java may come to: an array of objects of
/// their class, which has the constructor for them.
pub open spec fn makes_results<'local>(
    before: JNIEnv<'local>,
    results: Seq<QueryResult<u32>>,
    no_set: Seq<char>,
    r: Result<JObject<'local>, String>,
    after: JNIEnv<'local>,
) -> bool {
    exists|class: jvm::JniResult<JObject<'local>>, with_class: JNIEnv<'local>| #[trigger]
        jvm::finds_class_once(
            before,
            "org/opensearch/knn/index/query/KNNQueryResult"@,
            class,
            with_class,
        ) && match class {
            Ok(c) => exists|
                constructor: jvm::JniResult<jni::objects::JMethodID>,
                with_constructor: JNIEnv<'local>,
            | #[trigger]
                jvm::gets_method_id_once(
                    with_class,
                    &c,
                    "<init>"@,
                    "(IF)V"@,
                    constructor,
                    with_constructor,
                ) && match constructor {
                    Ok(_) => makes_array(with_constructor, &c, results, no_set, r, after),
                    Err(e) => {
                        &&& r matches Err(text) && java_objects::tells_of(e, "Failed to find KNNQueryResult constructor: "@, text@)
                        &&& with_constructor == after
                    },
                },
            Err(e) => {
                &&& r matches Err(text) && java_objects::tells_of(e, "Failed to find KNNQueryResult class: "@, text@)
                &&& with_class == after
            },
        }
}

/// The results of a query as a Java array; distances are bit patterns.
pub fn result_array<'local>(env: &mut JNIEnv<'local>, results: &Vec<QueryResult<u32>>) -> (r: Result<
    JObject<'local>,
    String,
>)
    ensures
        makes_results(*old(env), results@, "Failed to set array element: "@, r, *final(env)),
        r matches Err(text) ==> is_result_fault("Failed to set array element: "@, text@),
{
    tell_results(env, results, "Failed to set array element: ")
}

/// The results of a query as a Java array; `no_set` tells of one that cannot be put
/// into the array.
pub(crate) fn tell_results<'local>(
    env: &mut JNIEnv<'local>,
    results: &Vec<QueryResult<u32>>,
    no_set: &str,
) -> (r: Result<JObject<'local>, String>)
    ensures
        makes_results(*old(env), results@, no_set@, r, *final(env)),
        r matches Err(text) ==> is_result_fault(no_set@, text@),
{
    let (class, passage) = jvm::find_class_once(
        env,
        "org/opensearch/knn/index/query/KNNQueryResult",
    );
    let ghost with_class = *env;
    assert(jvm::finds_class_once(
        *old(env),
        "org/opensearch/knn/index/query/KNNQueryResult"@,
        class,
        with_class,
    ));
    let class = or_tell(class, "Failed to find KNNQueryResult class: ")?;
    let (constructor, passage) = jvm::get_method_id_once(env, &class, "<init>", "(IF)V");
    assert(jvm::gets_method_id_once(
        with_class,
        &class,
        "<init>"@,
        "(IF)V"@,
        constructor,
        *env,
    ));
    or_tell(constructor, "Failed to find KNNQueryResult constructor: ")?;
    make_array(env, &class, results, no_set)
}

fn make_array<'local>(
    env: &mut JNIEnv<'local>,
    class: &JObject<'_>,
    results: &Vec<QueryResult<u32>>,
    no_set: &str,
) -> (r: Result<JObject<'local>, String>)
    ensures
        makes_array(*old(env), class, results@, no_set@, r, *final(env)),
        r matches Err(text) ==> is_result_fault(no_set@, text@),
{
    let initial = jvm::null_object();
    let (array, passage) = jvm::new_object_array_once(
        env,
        #[verifier::truncate]
        (results.len() as i32),
        class,
        &initial,
    );
    let ghost with_array = *env;
    assert(jvm::makes_object_array_once(
        *old(env),
        results@.len() as i32,
        class,
        &initial,
        array,
        with_array,
    ));
    let array = or_tell(array, "Failed to create result array: ")?;
    let placed = place_results(env, class, &array, results, no_set);
    assert(places_results(with_array, class, &array, results@, no_set@, placed, *env));
    placed?;
    Ok(array)
}

/// Puts the results of a query into a Java array.
fn place_results<'local>(
    env: &mut JNIEnv<'local>,
    class: &JObject<'_>,
    array: &JObject<'_>,
    results: &Vec<QueryResult<u32>>,
    no_set: &str,
) -> (r: Result<(), String>)
    ensures
        places_results(*old(env), class, array, results@, no_set@, r, *final(env)),
        r matches Err(text) ==> is_result_fault(no_set@, text@),
{
    let ghost start = *env;
    let ghost mut passed: Seq<JNIEnv<'local>> = seq![*env];
    let mut i: usize = 0;
    while i < results.len()
        invariant
            i <= results@.len(),
            passed.len() == i + 1,
            placed_first(passed, class, array, results@, no_set@),
            passed.first() == start,
            passed.last() == *env,
            start == *old(env),
        decreases results.len() - i,
    {
        let index = #[verifier::truncate] (i as i32);
        match place_result(env, class, array, index, &results[i], no_set) {
            Ok(done) => {
                proof {
                    assert(done == ());
                    let next = passed.push(*env);
                    assert(places_result(
                        passed.last(),
                        class,
                        array,
                        i as i32,
                        results@[i as int],
                        no_set@, Ok(()),
                        *env,
                    ));
                    assert(placed_first(next, class, array, results@, no_set@));
                    passed = next;
                }
            },
            Err(text) => {
                let r = Err(text);
                assert(places_result(
                    passed.last(),
                    class,
                    array,
                    i as i32,
                    results@[i as int],
                    no_set@, Err(r->Err_0),
                    *env,
                ));
                assert(places_results(start, class, array, results@, no_set@, r, *env));
                return r;
            },
        }
        i += 1;
    }
    Ok(())
}

/// Makes a query result and puts it at an index of a Java array.
fn place_result(
    env: &mut JNIEnv<'_>,
    class: &JObject<'_>,
    array: &JObject<'_>,
    index: i32,
    result: &QueryResult<u32>,
    no_set: &str,
) -> (r: Result<(), String>)
    ensures
        places_result(*old(env), class, array, index, *result, no_set@, r, *final(env)),
        r matches Err(text) ==> is_result_fault(no_set@, text@),
{
    proof {
        jvm::lemma_signatures_plain();
    }
    let (object, passage) = jvm::new_object_once(
        env,
        class,
        "(IF)V",
        result.id,
        result.distance,
    );
    let ghost with_object = *env;
    assert(jvm::makes_object_once(
        *old(env),
        class,
        "(IF)V"@,
        result.id,
        result.distance,
        object,
        with_object,
    ));
    let object = or_tell(object, "Failed to create KNNQueryResult object: ")?;
    let (set, passage) = jvm::set_object_array_element_once(env, array, index, &object);
    assert(jvm::sets_element_once(with_object, array, index, &object, set, *env));
    or_tell(set, no_set)
}

/// An index is released before its space, and what there is none of is not released.
pub proof fn lemma_release_calls(wrapper: IndexWrapper, calls: Vec<NmslibCall>)
    requires
        call_ensures(IndexWrapper::release_calls, (wrapper,), calls),
    ensures
        forall|i: int|
            0 <= i < calls@.len() ==> (#[trigger] calls@[i] is FreeIndex || calls@[i] is FreeSpace),
        calls@.contains(NmslibCall::FreeIndex) <==> wrapper.index.address != 0,
        calls@.contains(NmslibCall::FreeSpace) <==> wrapper.space.address != 0,
        calls@.no_duplicates(),
        wrapper.index.address != 0 ==> calls@[0] == NmslibCall::FreeIndex,
{
    if wrapper.index.address != 0 {
        assert(calls@[0] == NmslibCall::FreeIndex);
    }
    if wrapper.space.address != 0 {
        assert(calls@[calls@.len() - 1] == NmslibCall::FreeSpace);
    }
}

/// NMSLIB has five of the spaces, all but the inner product under their own names. A space has
/// one name wherever it is named.
pub proof fn lemma_space_names(
    space_type: &str,
    known: Option<String>,
    translated: Result<String, String>,
    requested: Result<String, String>,
)
    requires
        call_ensures(known_space, (space_type,), known),
        call_ensures(translate_space_type, (space_type,), translated),
        call_ensures(requested_space, (Some(space_type),), requested),
    ensures
        known is Some <==> {
            ||| space_type@ == "l2"@
            ||| space_type@ == "l1"@
            ||| space_type@ == "linf"@
            ||| space_type@ == "cosinesimil"@
            ||| space_type@ == "innerproduct"@
        },
        known matches Some(name) ==> name@ == (if space_type@ == "innerproduct"@ {
            "negdotprod"@
        } else {
            space_type@
        }),
        translated is Ok <==> known is Some,
        requested is Ok <==> known is Some,
        translated matches Ok(name) ==> name@ == known->0@,
        requested matches Ok(name) ==> name@ == known->0@,
        translated matches Err(message) ==> message@ == "Invalid spaceType: "@ + space_type@,
        requested matches Err(message) ==> message@ == "Invalid spaceType: "@ + space_type@,
{
    reveal_strlit("l2");
    reveal_strlit("l1");
    reveal_strlit("linf");
    reveal_strlit("cosinesimil");
    reveal_strlit("innerproduct");
}

/// Settings that give one value are one setting, whatever the value is, and values of one name are
/// told apart by their settings.
pub proof fn lemma_settings_differ(key: Seq<char>, a: int, b: int)
    ensures
        setting(key, a) == setting(key, b) ==> a == b,
        setting(key, a).take(key.len() as int) == key,
        setting(key, a)[key.len() as int] == '=',
        setting(key, a).skip(key.len() as int + 1) == text::decimal(a),
{
    reveal_strlit("=");
    assert(setting(key, a).take(key.len() as int) =~= key);
    assert(setting(key, a).skip(key.len() as int + 1) =~= text::decimal(a));
    assert(setting(key, b).skip(key.len() as int + 1) =~= text::decimal(b));
    text::lemma_decimals_differ(a, b);
}

/// What an index is built and searched with is what is given: a setting for each number that is
/// given, in order, under NMSLIB's name for it, and none for others. Its value, in decimal,
/// stands behind the sign of equality.
pub proof fn lemma_parameters(
    ef_construction: Option<i32>,
    m: Option<i32>,
    thread_key: &str,
    threads: Option<i32>,
    settings: Vec<String>,
    ef_search: Option<i32>,
    query_settings: Vec<String>,
)
    requires
        call_ensures(index_parameters, (ef_construction, m, thread_key, threads), settings),
        call_ensures(query_parameters, (ef_search,), query_settings),
    ensures
        settings@.len() == given(ef_construction) + given(m) + given(threads),
        ef_construction matches Some(n) ==> settings@[0]@ == "efConstruction="@ + text::decimal(
            n as int,
        ),
        m matches Some(n) ==> settings@[given(ef_construction)]@ == "M="@ + text::decimal(n as int),
        threads matches Some(n) ==> settings@[given(ef_construction) + given(m)]@ == thread_key@
            + "="@ + text::decimal(n as int),
        query_settings@.len() == given(ef_search),
        ef_search matches Some(n) ==> query_settings@[0]@ == "efSearch="@ + text::decimal(n as int),
{
    let all = texts(settings@);
    let a = setting_if(EF_CONSTRUCTION_NMSLIB@, ef_construction);
    let b = setting_if(M_NMSLIB@, m);
    let c = setting_if(thread_key@, threads);
    assert(all == a + b + c);
    assert(settings@.len() == all.len());
    assert(forall|i: int| 0 <= i < settings@.len() ==> #[trigger] settings@[i]@ == all[i]);
    assert(forall|i: int|
        0 <= i < query_settings@.len() ==> #[trigger] query_settings@[i]@ == texts(
            query_settings@,
        )[i]);
    assert(query_settings@.len() == texts(query_settings@).len());
    reveal_strlit("=");
    reveal_strlit("efConstruction");
    reveal_strlit("efConstruction=");
    reveal_strlit("M");
    reveal_strlit("M=");
    reveal_strlit("efSearch");
    reveal_strlit("efSearch=");
    assert("efConstruction="@ =~= "efConstruction"@ + "="@);
    assert("M="@ =~= "M"@ + "="@);
    assert("efSearch="@ =~= "efSearch"@ + "="@);
    if ef_construction is Some {
        assert(settings@[0]@ == a[0]);
    }
    if m is Some {
        assert(settings@[given(ef_construction)]@ == b[0]);
    }
    if threads is Some {
        assert(settings@[given(ef_construction) + given(m)]@ == c[0]);
    }
    if ef_search is Some {
        assert(query_settings@[0]@ == setting_if("efSearch"@, ef_search)[0]);
    }
}

/// One where a number is given, and zero where none is.
pub open spec fn given(value: Option<i32>) -> int {
    if value is Some {
        1
    } else {
        0
    }
}

/// An index is made where nothing that it takes is missing, the dimension is positive, and there
/// are as many ids as the stored numbers make whole vectors, and at least one. The vectors are
/// as many as the ids.
pub proof fn lemma_vectors_counted(
    request: CreateRequest,
    vectors_len: usize,
    num_ids: usize,
    r: Result<usize, String>,
)
    requires
        call_ensures(CreateRequest::count_vectors, (request, vectors_len, num_ids), r),
    ensures
        r is Ok <==> {
            &&& !request.ids_are_null && !request.output_is_null && !request.parameters_are_null
            &&& request.vectors_address > 0
            &&& request.dim > 0
            &&& num_ids > 0
            &&& num_ids * request.dim <= vectors_len < (num_ids + 1) * request.dim
        },
        r matches Ok(n) ==> n == num_ids,
{
    let width = request.dim as int;
    if width > 0 {
        let n = vectors_len as int / width;
        let m = num_ids as int;
        assert(n * width <= vectors_len < (n + 1) * width) by (nonlinear_arith)
            requires
                width > 0,
                n == vectors_len as int / width,
        ;
        assert(m * width <= vectors_len && vectors_len < (m + 1) * width ==> m == n)
            by (nonlinear_arith)
            requires
                width > 0,
                n * width <= vectors_len < (n + 1) * width,
        ;
    }
}

/// The size of the candidate list that a query is made with is the one that is given; where none is
/// given, none is passed on.
pub proof fn lemma_query_size(ef_search: Option<i32>, plan: QueryPlan, p: int)
    requires
        ef_search != Some(-1i32),
        call_ensures(query_index, (ef_search,), plan),
        0 <= p < native_plan::NativePlan::steps(&plan).len(),
    ensures
        native_plan::NativePlan::steps(&plan)[p].call matches NmslibCall::CreateQuery {
            ef_search: size,
        } ==> size == ef_search,
{
}

/// What is loaded is what is asked for, and from where it is asked for; what is made has as many
/// vectors as are asked for.
pub proof fn lemma_plans(
    num_vectors: usize,
    space_type: String,
    path: String,
    create: CreatePlan,
    from_file: LoadPlan,
    from_stream: LoadPlan,
)
    requires
        call_ensures(create_index, (num_vectors, space_type), create),
        call_ensures(load_index, (space_type, path), from_file),
        call_ensures(load_index_with_stream, (space_type,), from_stream),
    ensures
        create.num_vectors == num_vectors,
        create.space_type@ == space_type@,
        from_file.space_type@ == space_type@,
        from_file.source matches LoadSource::Path(from) && from@ == path@,
        from_stream.space_type@ == space_type@,
        from_stream.source is Stream,
{
}

/// What a fault says is what the plan says of it.
pub proof fn lemma_fault_message(fault: Fault, message: String)
    requires
        !(fault is Java),
        call_ensures(message_of_fault, (fault,), message),
    ensures
        match fault {
            Fault::Runtime(text)
            | Fault::NullPointer(text)
            | Fault::Faiss(text)
            | Fault::Write(text)
            | Fault::InvalidArgument(text) => message@ == text@,
            _ => true,
        },
{
}

proof fn lemma_name_is_read<'local>(
    before: JNIEnv<'local>,
    key: &JObject<'_>,
    name: String,
    after: JNIEnv<'local>,
)
    requires
        gives_name(before, key, Ok(name), after),
    ensures
        jvm::get_string_answers(key, Ok(name)),
{
    let answer = choose|answer: jvm::JniResult<String>| #[trigger]
        jvm::gets_string_once(before, key, answer, after) && java_objects::told(
            answer,
            "get_string failed: "@,
            Ok(name),
        );
    assert(answer == Ok::<String, jni::errors::Error>(name));
}

proof fn lemma_entry_is_given<'local>(
    before: JNIEnv<'local>,
    iterator: &JObject<'_>,
    pair: Result<(String, JObject<'local>), String>,
    after: JNIEnv<'local>,
)
    requires
        gives_next(before, iterator, pair, after),
        pair is Ok,
    ensures
        java_objects::entry_given(iterator, pair->Ok_0.0, pair->Ok_0.1),
{
    let asked = choose|asked: JNIEnv<'local>| #[trigger]
        gives_more(before, iterator, Ok(true), asked) && gives_entry(asked, iterator, pair, after);
    let (entry, with_entry) = choose|
        entry: Result<JObject<'local>, String>,
        with_entry: JNIEnv<'local>,
    | #[trigger]
        java_objects::tells_object(
            asked,
            iterator,
            "next"@,
            "()Ljava/lang/Object;"@,
            "next failed: "@,
            "next not object: "@,
            entry,
            with_entry,
        ) && match entry {
            Ok(object) => reads_entry(with_entry, &object, pair, after),
            Err(_) => false,
        };
    let object = entry->Ok_0;
    java_objects::lemma_told_object(
        asked,
        iterator,
        "next"@,
        "()Ljava/lang/Object;"@,
        "next failed: "@,
        "next not object: "@,
        object,
        with_entry,
    );
    let (key, with_key) = choose|key: Result<JObject<'local>, String>, with_key: JNIEnv<'local>| #[trigger]
        gives_key(with_entry, &object, key, with_key) && match key {
            Ok(k) => exists|value: Result<JObject<'local>, String>, with_value: JNIEnv<'local>| #[trigger]
                gives_value(with_key, &object, value, with_value) && match value {
                    Ok(v) => exists|name: Result<String, String>| #[trigger]
                        gives_name(with_value, &k, name, after) && pair == match name {
                            Ok(n) => Ok((n, v)),
                            Err(text) => Err(text),
                        },
                    Err(_) => false,
                },
            Err(_) => false,
        };
    let k = key->Ok_0;
    java_objects::lemma_told_object(
        with_entry,
        &object,
        "getKey"@,
        "()Ljava/lang/Object;"@,
        "getKey failed: "@,
        "getKey not object: "@,
        k,
        with_key,
    );
    let (value, with_value) = choose|
        value: Result<JObject<'local>, String>,
        with_value: JNIEnv<'local>,
    | #[trigger]
        gives_value(with_key, &object, value, with_value) && match value {
            Ok(v) => exists|name: Result<String, String>| #[trigger]
                gives_name(with_value, &k, name, after) && pair == match name {
                    Ok(n) => Ok((n, v)),
                    Err(text) => Err(text),
                },
            Err(_) => false,
        };
    let v = value->Ok_0;
    java_objects::lemma_told_object(
        with_key,
        &object,
        "getValue"@,
        "()Ljava/lang/Object;"@,
        "getValue failed: "@,
        "getValue not object: "@,
        v,
        with_value,
    );
    let name = choose|name: Result<String, String>| #[trigger]
        gives_name(with_value, &k, name, after) && pair == match name {
            Ok(n) => Ok((n, v)),
            Err(text) => Err(text),
        };
    lemma_name_is_read(with_value, &k, name->Ok_0, after);
    assert(java_objects::object_of(iterator, "next"@, "()Ljava/lang/Object;"@, object));
    assert(java_objects::object_of(&object, "getKey"@, "()Ljava/lang/Object;"@, k));
}

proof fn lemma_walk_is_held<'local>(
    before: JNIEnv<'local>,
    map_obj: &JObject<'_>,
    set: JObject<'local>,
    iterator: JObject<'local>,
    r: Result<StringMap<JObject<'local>>, String>,
    after: JNIEnv<'local>,
)
    requires
        java_objects::object_of(map_obj, "entrySet"@, "()Ljava/util/Set;"@, set),
        java_objects::object_of(&set, "iterator"@, "()Ljava/util/Iterator;"@, iterator),
        walks(before, &iterator, r, after),
        r is Ok,
    ensures
        java_objects::holds_entries_of(map_obj, r->Ok_0@),
{
    let (passed, entries) = choose|
        passed: Seq<JNIEnv<'local>>,
        entries: Seq<(String, JObject<'local>)>,
    |
        {
            &&& #[trigger] gave_entries(passed, &iterator, entries)
            &&& passed.first() == before
            &&& r->Ok_0@ == jni_util::collected(entries)
            &&& {
                ||| gives_more(passed.last(), &iterator, Ok(false), after)
                ||| entries.len() == u64::MAX && passed.last() == after
            }
        };
    assert forall|k: int| 0 <= k < entries.len() implies java_objects::entry_given(
        &iterator,
        (#[trigger] entries[k]).0,
        entries[k].1,
    ) by {
        lemma_entry_is_given(passed[k], &iterator, Ok(entries[k]), passed[k + 1]);
    }
    if entries.len() != u64::MAX {
        java_objects::lemma_told_has_no_more(
            passed.last(),
            &iterator,
            "hasNext failed: "@,
            "hasNext not bool: "@,
            after,
        );
    }
    assert(java_objects::entries_of(map_obj, entries));
    java_objects::lemma_entries_are_held(map_obj, entries);
}

/// A Java map is read entry by entry: what comes of it has what the entries have, each key by its
/// text.
pub proof fn lemma_map_is_read<'local>(
    before: JNIEnv<'local>,
    map_obj: &JObject<'_>,
    r: Result<StringMap<JObject<'local>>, String>,
    after: JNIEnv<'local>,
)
    requires
        reads_map(before, map_obj, r, after),
        r is Ok,
    ensures
        java_objects::holds_entries_of(map_obj, r->Ok_0@),
{
    let (start, with_iterator) = choose|
        start: Result<JObject<'local>, String>,
        with_iterator: JNIEnv<'local>,
    | #[trigger]
        gives_iterator(before, map_obj, start, with_iterator) && match start {
            Ok(iterator) => walks(with_iterator, &iterator, r, after),
            Err(_) => false,
        };
    let iterator = start->Ok_0;
    let (entry_set, with_set) = choose|
        entry_set: Result<JObject<'local>, String>,
        with_set: JNIEnv<'local>,
    | #[trigger]
        java_objects::tells_object(
            before,
            map_obj,
            "entrySet"@,
            "()Ljava/util/Set;"@,
            "Failed to call entrySet: "@,
            "entrySet not an object: "@,
            entry_set,
            with_set,
        ) && match entry_set {
            Ok(set) => java_objects::tells_object(
                with_set,
                &set,
                "iterator"@,
                "()Ljava/util/Iterator;"@,
                "Failed to get iterator: "@,
                "iterator not an object: "@,
                start,
                with_iterator,
            ),
            Err(_) => false,
        };
    let set = entry_set->Ok_0;
    java_objects::lemma_told_object(
        before,
        map_obj,
        "entrySet"@,
        "()Ljava/util/Set;"@,
        "Failed to call entrySet: "@,
        "entrySet not an object: "@,
        set,
        with_set,
    );
    java_objects::lemma_told_object(
        with_set,
        &set,
        "iterator"@,
        "()Ljava/util/Iterator;"@,
        "Failed to get iterator: "@,
        "iterator not an object: "@,
        iterator,
        with_iterator,
    );
    lemma_walk_is_held(with_iterator, map_obj, set, iterator, r, after);
}

/// What was read from a map under a key: the number of the object that stands there, and nothing
/// where none stands there.
pub open spec fn read_under(
    map: Map<Seq<char>, JObject<'_>>,
    key: Seq<char>,
    value: Option<i32>,
) -> bool {
    match value {
        Some(n) => map.dom().contains(key) && java_objects::gave_int(&map[key], n),
        None => !map.dom().contains(key),
    }
}

/// The name of a space in NMSLIB, where a map has the space under its key.
pub open spec fn space_read(map: Map<Seq<char>, JObject<'_>>, space: Seq<char>) -> bool {
    &&& map.dom().contains("spaceType"@)
    &&& exists|name: String|
        {
            &&& #[trigger] jvm::get_string_answers(&map["spaceType"@], Ok(name))
            &&& name@ == "l2"@ || name@ == "l1"@ || name@ == "linf"@ || name@ == "cosinesimil"@
                || name@ == "innerproduct"@
            &&& space == if name@ == "innerproduct"@ {
                "negdotprod"@
            } else {
                name@
            }
        }
}

/// Settings for building an index hold these numbers, where they are given, each under NMSLIB's
/// name for it and in this order, and hold nothing else.
pub open spec fn are_creation_settings(
    settings: Seq<String>,
    ef_construction: Option<i32>,
    m: Option<i32>,
    thread_key: Seq<char>,
    threads: Option<i32>,
) -> bool {
    &&& settings.len() == given(ef_construction) + given(m) + given(threads)
    &&& ef_construction matches Some(n) ==> settings[0]@ == "efConstruction="@ + text::decimal(
        n as int,
    )
    &&& m matches Some(n) ==> settings[given(ef_construction)]@ == "M="@ + text::decimal(n as int)
    &&& threads matches Some(n) ==> settings[given(ef_construction) + given(m)]@ == thread_key
        + "="@ + text::decimal(n as int)
}

/// Settings for loading an index hold this number, where it is given, under NMSLIB's name for
/// it, and hold nothing else.
pub open spec fn are_loading_settings(settings: Seq<String>, ef_search: Option<i32>) -> bool {
    &&& settings.len() == given(ef_search)
    &&& ef_search matches Some(n) ==> settings[0]@ == "efSearch="@ + text::decimal(n as int)
}

/// Texts that are those of the numbers that are given are settings for building.
pub proof fn lemma_creation_texts(
    settings: Seq<String>,
    ef_construction: Option<i32>,
    m: Option<i32>,
    thread_key: Seq<char>,
    threads: Option<i32>,
)
    requires
        texts(settings) == setting_if("efConstruction"@, ef_construction) + setting_if("M"@, m)
            + setting_if(thread_key, threads),
    ensures
        are_creation_settings(settings, ef_construction, m, thread_key, threads),
{
    let all = texts(settings);
    assert(settings.len() == all.len());
    assert(forall|i: int| 0 <= i < settings.len() ==> #[trigger] settings[i]@ == all[i]);
    reveal_strlit("=");
    reveal_strlit("efConstruction");
    reveal_strlit("efConstruction=");
    reveal_strlit("M");
    reveal_strlit("M=");
    assert("efConstruction"@ + "="@ =~= "efConstruction="@);
    assert("M"@ + "="@ =~= "M="@);
}

/// Texts that are those of the number that is given are settings for loading.
pub proof fn lemma_loading_texts(settings: Seq<String>, ef_search: Option<i32>)
    requires
        texts(settings) == setting_if("efSearch"@, ef_search),
    ensures
        are_loading_settings(settings, ef_search),
{
    let all = texts(settings);
    assert(settings.len() == all.len());
    assert(forall|i: int| 0 <= i < settings.len() ==> #[trigger] settings[i]@ == all[i]);
    reveal_strlit("=");
    reveal_strlit("efSearch");
    reveal_strlit("efSearch=");
    assert("efSearch"@ + "="@ =~= "efSearch="@);
}

proof fn lemma_number_is_read(
    map: Map<Seq<char>, JObject<'_>>,
    key: Seq<char>,
    value: Option<i32>,
)
    requires
        gives_int_parameter(map, key, Ok(value)),
    ensures
        read_under(map, key, value),
{
    if map.dom().contains(key) {
        let answer = choose|answer: Result<i32, String>| #[trigger]
            gives_int(&map[key], answer) && Ok::<Option<i32>, String>(value) == match answer {
                Ok(n) => Ok::<Option<i32>, String>(Some(n)),
                Err(text) => Err(text),
            };
        lemma_int_is_read(&map[key], answer->Ok_0);
    }
}

proof fn lemma_int_is_read(object: &JObject<'_>, n: i32)
    requires
        gives_int(object, Ok(n)),
    ensures
        java_objects::gave_int(object, n),
{
    let value = choose|value: jvm::JniResult<jni::objects::JValueOwned<'_>>| #[trigger]
        java_objects::calls(object, "intValue"@, "()I"@, value) && match value {
            Ok(v) => exists|answer: jvm::JniResult<i32>| #[trigger]
                jvm::value_int_answers(v, answer) && java_objects::told(
                    answer,
                    "intValue not int: "@,
                    Ok(n),
                ),
            Err(_) => false,
        };
    let v = value->Ok_0;
    let answer = choose|answer: jvm::JniResult<i32>| #[trigger]
        jvm::value_int_answers(v, answer) && java_objects::told(
            answer,
            "intValue not int: "@,
            Ok(n),
        );
    assert(answer == Ok::<i32, jni::errors::Error>(n));
    assert(jvm::call_method_answers(object, "intValue"@, "()I"@, Seq::empty(), Ok(v)));
}

proof fn lemma_space_is_read(map: Map<Seq<char>, JObject<'_>>, space: String)
    requires
        gives_space(map, Ok(space)),
    ensures
        space_read(map, space@),
{
    let text = choose|text: Result<String, String>| #[trigger]
        gives_string(&map["spaceType"@], text) && match text {
            Ok(name) => names_space(Some(name@), Ok(space)),
            Err(_) => false,
        };
    let name = text->Ok_0;
    let answer = choose|answer: jvm::JniResult<String>| #[trigger]
        jvm::get_string_answers(&map["spaceType"@], answer) && java_objects::told(
            answer,
            "get_string failed: "@,
            text,
        );
    assert(answer == Ok::<String, jni::errors::Error>(name));
    assert(map.dom().contains("spaceType"@));
    assert(nmslib_space(name@) == Some(space@));
    assert(jvm::get_string_answers(&map["spaceType"@], Ok(name)));
    reveal_strlit("l2");
    reveal_strlit("l1");
    reveal_strlit("linf");
    reveal_strlit("cosinesimil");
    reveal_strlit("innerproduct");
    assert(name@ == "l2"@ || name@ == "l1"@ || name@ == "linf"@ || name@ == "cosinesimil"@
        || name@ == "innerproduct"@);
    assert(name@ == "innerproduct"@ ==> space@ == "negdotprod"@);
    assert(name@ != "innerproduct"@ ==> space@ == name@);
}

proof fn lemma_given_map<'local>(
    map_obj: &JObject<'_>,
    r: Result<StringMap<JObject<'local>>, String>,
)
    requires
        gives_map(map_obj, r),
        r is Ok,
    ensures
        java_objects::holds_entries_of(map_obj, r->Ok_0@),
{
    let (before, after) = choose|before: JNIEnv<'local>, after: JNIEnv<'local>| #[trigger]
        reads_map(before, map_obj, r, after);
    lemma_map_is_read(before, map_obj, r, after);
}

/// The two numbers that stand in a map of their own, which a map has under its key; neither where
/// it has none.
pub open spec fn pair_read(
    map: Map<Seq<char>, JObject<'_>>,
    ef_construction: Option<i32>,
    m: Option<i32>,
) -> bool {
    if map.dom().contains("parameters"@) {
        exists|own: Map<Seq<char>, JObject<'_>>|
            {
                &&& #[trigger] java_objects::holds_entries_of(&map["parameters"@], own)
                &&& read_under(own, "ef_construction"@, ef_construction)
                &&& read_under(own, "m"@, m)
            }
    } else {
        ef_construction is None && m is None
    }
}

proof fn lemma_pair_is_read(
    map: Map<Seq<char>, JObject<'_>>,
    ef_construction: Option<i32>,
    m: Option<i32>,
)
    requires
        gives_sub_parameters(map, Ok((ef_construction, m))),
    ensures
        pair_read(map, ef_construction, m),
{
    if map.dom().contains("parameters"@) {
        let own = choose|own: Result<StringMap<JObject<'_>>, String>| #[trigger]
            gives_map(&map["parameters"@], own) && match own {
                Ok(sub) => reads_sub_parameters(sub@, Ok((ef_construction, m))),
                Err(_) => false,
            };
        lemma_given_map(&map["parameters"@], own);
        let sub = own->Ok_0@;
        let ef = choose|ef: Result<Option<i32>, String>| #[trigger]
            gives_int_parameter(sub, EF_CONSTRUCTION@, ef) && match ef {
                Ok(e) => exists|n: Result<Option<i32>, String>| #[trigger]
                    gives_int_parameter(sub, M@, n) && Ok::<_, String>((ef_construction, m))
                        == match n {
                        Ok(found) => Ok((e, found)),
                        Err(text) => Err(text),
                    },
                Err(_) => false,
            };
        let e = ef->Ok_0;
        let n = choose|n: Result<Option<i32>, String>| #[trigger]
            gives_int_parameter(sub, M@, n) && Ok::<_, String>((ef_construction, m))
                == match n {
                Ok(found) => Ok((e, found)),
                Err(text) => Err(text),
            };
        lemma_number_is_read(sub, "ef_construction"@, ef_construction);
        lemma_number_is_read(sub, "m"@, m);
        assert(java_objects::holds_entries_of(&map["parameters"@], sub));
    }
}

/// What an index is built with is what the Java map has: the space under its key, the number of
/// threads under its own, and the two other numbers in the map that stands under its key.
pub proof fn lemma_creation_is_read(
    env: &mut JNIEnv<'_>,
    parameters: &JObject<'_>,
    r: Result<IndexSettings, String>,
)
    requires
        call_ensures(creation_settings, (env, parameters), r),
        r is Ok,
    ensures
        exists|map: Map<Seq<char>, JObject<'_>>|
            {
                &&& #[trigger] java_objects::holds_entries_of(parameters, map)
                &&& space_read(map, r->Ok_0.space_type@)
                &&& exists|ef_construction: Option<i32>, m: Option<i32>, threads: Option<i32>|
                    {
                        &&& #[trigger] pair_read(map, ef_construction, m)
                        &&& #[trigger] read_under(map, "indexThreadQty"@, threads)
                        &&& are_creation_settings(
                            r->Ok_0.parameters@,
                            ef_construction,
                            m,
                            "indexThreadQty"@,
                            threads,
                        )
                    }
            },
{
    let settings = r->Ok_0;
    let map = choose|map: Result<StringMap<JObject<'_>>, String>| #[trigger]
        gives_map(parameters, map) && match map {
            Ok(params) => exists|sub: Result<(Option<i32>, Option<i32>), String>| #[trigger]
                gives_sub_parameters(params@, sub) && match sub {
                    Ok((ef, m)) => reads_creation_settings(params@, ef, m, r),
                    Err(_) => false,
                },
            Err(_) => false,
        };
    lemma_given_map(parameters, map);
    let params = map->Ok_0@;
    let sub = choose|sub: Result<(Option<i32>, Option<i32>), String>| #[trigger]
        gives_sub_parameters(params, sub) && match sub {
            Ok((ef, m)) => reads_creation_settings(params, ef, m, r),
            Err(_) => false,
        };
    let (ef, m) = sub->Ok_0;
    lemma_pair_is_read(params, ef, m);
    let threads = choose|threads: Result<Option<i32>, String>| #[trigger]
        gives_int_parameter(params, INDEX_THREAD_QUANTITY@, threads) && match threads {
            Ok(n) => exists|space: Result<String, String>| #[trigger]
                gives_space(params, space) && match space {
                    Ok(name) => settings.space_type == name && texts(settings.parameters@)
                        == creation_texts(ef, m, n),
                    Err(_) => false,
                },
            Err(_) => false,
        };
    let n = threads->Ok_0;
    lemma_number_is_read(params, "indexThreadQty"@, n);
    let space = choose|space: Result<String, String>| #[trigger]
        gives_space(params, space) && match space {
            Ok(name) => settings.space_type == name && texts(settings.parameters@)
                == creation_texts(ef, m, n),
            Err(_) => false,
        };
    lemma_space_is_read(params, settings.space_type);
    lemma_creation_texts(settings.parameters@, ef, m, "indexThreadQty"@, n);
    assert(pair_read(params, ef, m));
    assert(read_under(params, "indexThreadQty"@, n));
    assert(java_objects::holds_entries_of(parameters, params));
}

/// What an index is loaded with is what the Java map has: the space under its key, and the size
/// of the candidate list under its own.
pub proof fn lemma_loading_is_read(
    env: &mut JNIEnv<'_>,
    parameters: &JObject<'_>,
    r: Result<IndexSettings, String>,
)
    requires
        call_ensures(loading_settings, (env, parameters), r),
        r is Ok,
    ensures
        exists|map: Map<Seq<char>, JObject<'_>>|
            {
                &&& #[trigger] java_objects::holds_entries_of(parameters, map)
                &&& space_read(map, r->Ok_0.space_type@)
                &&& exists|ef_search: Option<i32>|
                    {
                        &&& #[trigger] read_under(map, "efSearch"@, ef_search)
                        &&& are_loading_settings(r->Ok_0.parameters@, ef_search)
                    }
            },
{
    let settings = r->Ok_0;
    let map = choose|map: Result<StringMap<JObject<'_>>, String>| #[trigger]
        gives_map(parameters, map) && match map {
            Ok(params) => exists|space: Result<String, String>| #[trigger]
                gives_space(params@, space) && match space {
                    Ok(name) => reads_loading_settings(params@, name, r),
                    Err(_) => false,
                },
            Err(_) => false,
        };
    lemma_given_map(parameters, map);
    let params = map->Ok_0@;
    let space = choose|space: Result<String, String>| #[trigger]
        gives_space(params, space) && match space {
            Ok(name) => reads_loading_settings(params, name, r),
            Err(_) => false,
        };
    let ef = choose|ef: Result<Option<i32>, String>| #[trigger]
        gives_int_parameter(params, "efSearch"@, ef) && match ef {
            Ok(n) => settings.space_type == space->Ok_0 && texts(settings.parameters@)
                == setting_if("efSearch"@, n),
            Err(_) => false,
        };
    lemma_space_is_read(params, settings.space_type);
    lemma_number_is_read(params, "efSearch"@, ef->Ok_0);
    lemma_loading_texts(settings.parameters@, ef->Ok_0);
    assert(read_under(params, "efSearch"@, ef->Ok_0));
    assert(java_objects::holds_entries_of(parameters, params));
}

proof fn lemma_no_int_is_read(object: &JObject<'_>, r: Result<i32, String>)
    requires
        gives_int(object, r),
        r is Err,
    ensures
        java_objects::gave_no_int(object),
{
    let value = choose|value: jvm::JniResult<jni::objects::JValueOwned<'_>>| #[trigger]
        java_objects::calls(object, "intValue"@, "()I"@, value) && match value {
            Ok(v) => exists|answer: jvm::JniResult<i32>| #[trigger]
                jvm::value_int_answers(v, answer) && java_objects::told(
                    answer,
                    "intValue not int: "@,
                    r,
                ),
            Err(_) => true,
        };
    assert(jvm::call_method_answers(object, "intValue"@, "()I"@, Seq::empty(), value));
}

/// A query has the size of the candidate list that the Java map has under its key, as far as a
/// number can be read there, and the size of the index itself where the map is null or has none.
pub proof fn lemma_query_is_read(
    env: &mut JNIEnv<'_>,
    method_params: &JObject<'_>,
    r: Result<QueryPlan, String>,
)
    requires
        call_ensures(query_plan, (env, method_params), r),
        r is Ok,
    ensures
        jvm::is_null_answers(method_params, true) && r->Ok_0.ef_search == -1 || exists|
            map: Map<Seq<char>, JObject<'_>>,
        |
            {
                &&& jvm::is_null_answers(method_params, false)
                &&& #[trigger] java_objects::holds_entries_of(method_params, map)
                &&& if map.dom().contains("ef_search"@) {
                    ||| java_objects::gave_int(&map["ef_search"@], r->Ok_0.ef_search)
                    ||| java_objects::gave_no_int(&map["ef_search"@]) && r->Ok_0.ef_search == -1
                } else {
                    r->Ok_0.ef_search == -1
                }
            },
{
    let plan = r->Ok_0;
    if !(jvm::is_null_answers(method_params, true) && plan.ef_search == -1) {
        let map = choose|map: Result<StringMap<JObject<'_>>, String>| #[trigger]
            gives_map(method_params, map) && match map {
                Ok(params) => exists|ef_search: Option<i32>| #[trigger]
                    gives_method_parameter(params@, EF_SEARCH@, ef_search) && plan.ef_search
                        == match ef_search {
                        Some(n) => n as int,
                        None => -1int,
                    },
                Err(_) => false,
            };
        lemma_given_map(method_params, map);
        let params = map->Ok_0@;
        let ef_search = choose|ef_search: Option<i32>| #[trigger]
            gives_method_parameter(params, EF_SEARCH@, ef_search) && plan.ef_search
                == match ef_search {
                Some(n) => n as int,
                None => -1int,
            };
        if params.dom().contains("ef_search"@) {
            let answer = choose|answer: Result<i32, String>| #[trigger]
                gives_int(&params["ef_search"@], answer) && ef_search == match answer {
                    Ok(n) => Some(n),
                    Err(_) => None,
                };
            match answer {
                Ok(n) => lemma_int_is_read(&params["ef_search"@], n),
                Err(_) => lemma_no_int_is_read(&params["ef_search"@], answer),
            }
        }
        assert(java_objects::holds_entries_of(method_params, params));
    }
}

/// The path of an index is the text of the Java string, and the numbers of a query are those of
/// the whole Java array.
pub proof fn lemma_path_and_query_are_read(
    path_env: &mut JNIEnv<'_>,
    path: &JObject<'_>,
    path_text: Result<String, String>,
    query_env: &mut JNIEnv<'_>,
    query: &JObject<'_>,
    numbers: Result<Vec<u32>, String>,
)
    requires
        call_ensures(index_path, (path_env, path), path_text),
        call_ensures(query_vector, (query_env, query), numbers),
    ensures
        path_text matches Ok(text) ==> jvm::get_string_answers(path, Ok(text)),
        numbers matches Ok(found) ==> exists|n: i32|
            {
                &&& #[trigger] jvm::get_array_length_answers(query, Ok(n))
                &&& jvm::get_float_array_region_answers(
                    query,
                    if n < 0 {
                        0
                    } else {
                        n as int
                    },
                    Ok(found),
                )
            },
{
    let answer = choose|answer: jvm::JniResult<String>| #[trigger]
        jvm::get_string_answers(path, answer) && java_objects::told(
            answer,
            "Failed to get index path string: "@,
            path_text,
        );
    if path_text is Ok {
        assert(answer == Ok::<String, jni::errors::Error>(path_text->Ok_0));
    }
    if numbers is Ok {
        let length = choose|length: jvm::JniResult<i32>| #[trigger]
            jvm::get_array_length_answers(query, length) && match length {
                Ok(n) => exists|read: jvm::JniResult<Vec<u32>>| #[trigger]
                    jvm::get_float_array_region_answers(query, java_objects::element_count(n), read)
                        && java_objects::told(read, "Failed to get float array elements: "@, numbers),
                Err(_) => false,
            };
        let n = length->Ok_0;
        let read = choose|read: jvm::JniResult<Vec<u32>>| #[trigger]
            jvm::get_float_array_region_answers(query, java_objects::element_count(n), read)
                && java_objects::told(read, "Failed to get float array elements: "@, numbers);
        assert(read == Ok::<Vec<u32>, jni::errors::Error>(numbers->Ok_0));
        assert(jvm::get_array_length_answers(query, Ok(n)));
    }
}

/// A result was made as an object of the class, of its id and its distance, and was put into the
/// array at this place.
pub open spec fn is_placed(
    class: &JObject<'_>,
    array: &JObject<'_>,
    place: i32,
    result: QueryResult<u32>,
) -> bool {
    exists|object: JObject<'_>|
        {
            &&& #[trigger] jvm::new_object_answers(
                class,
                "(IF)V"@,
                result.id,
                result.distance,
                Ok(object),
            )
            &&& jvm::set_object_array_element_answers(array, place, &object, Ok(()))
        }
}

/// An array was made of as many objects of the class of query results as there are results, each
/// of which stands at the place that its result has among them.
pub open spec fn are_placed(results: Seq<QueryResult<u32>>, array: &JObject<'_>) -> bool {
    exists|class: JObject<'_>, initial: JObject<'static>, made: JObject<'_>|
        {
            &&& #[trigger] jvm::find_class_answers(
                "org/opensearch/knn/index/query/KNNQueryResult"@,
                Ok(class),
            )
            &&& #[trigger] jvm::new_object_array_answers(
                results.len() as i32,
                &class,
                &initial,
                Ok(made),
            )
            &&& made == *array
            &&& forall|k: int|
                0 <= k < results.len() ==> is_placed(&class, array, k as i32, #[trigger] results[k])
        }
}

/// The results of a query are handed over in an array of as many objects of their class, each of
/// which stands at the place that its result has among the results.
pub proof fn lemma_results_are_placed<'local>(
    env: &mut JNIEnv<'local>,
    results: &Vec<QueryResult<u32>>,
    r: Result<JObject<'local>, String>,
)
    requires
        call_ensures(result_array, (env, results), r),
        r is Ok,
    ensures
        are_placed(results@, &r->Ok_0),
{
    lemma_made_results(
        *old(env),
        results@,
        "Failed to set array element: "@,
        r,
        *final(env),
    );
}

/// What making an array of results comes to has each result at its place.
pub proof fn lemma_made_results<'local>(
    before: JNIEnv<'local>,
    results: Seq<QueryResult<u32>>,
    no_set: Seq<char>,
    answer: Result<JObject<'local>, String>,
    after: JNIEnv<'local>,
)
    requires
        makes_results(before, results, no_set, answer, after),
        answer is Ok,
    ensures
        are_placed(results, &answer->Ok_0),
{
    let array = answer->Ok_0;
    let (class, with_class) = choose|
        class: jvm::JniResult<JObject<'local>>,
        with_class: JNIEnv<'local>,
    | #[trigger]
        jvm::finds_class_once(
            before,
            "org/opensearch/knn/index/query/KNNQueryResult"@,
            class,
            with_class,
        ) && match class {
            Ok(c) => exists|
                constructor: jvm::JniResult<jni::objects::JMethodID>,
                with_constructor: JNIEnv<'local>,
            | #[trigger]
                jvm::gets_method_id_once(
                    with_class,
                    &c,
                    "<init>"@,
                    "(IF)V"@,
                    constructor,
                    with_constructor,
                ) && match constructor {
                    Ok(_) => makes_array(with_constructor, &c, results, no_set, answer, after),
                    Err(e) => false,
                },
            Err(e) => false,
        };
    let c = class->Ok_0;
    let (constructor, with_constructor) = choose|
        constructor: jvm::JniResult<jni::objects::JMethodID>,
        with_constructor: JNIEnv<'local>,
    | #[trigger]
        jvm::gets_method_id_once(
            with_class,
            &c,
            "<init>"@,
            "(IF)V"@,
            constructor,
            with_constructor,
        ) && match constructor {
            Ok(_) => makes_array(with_constructor, &c, results, no_set, answer, after),
            Err(e) => false,
        };
    assert(jvm::find_class_answers("org/opensearch/knn/index/query/KNNQueryResult"@, Ok(c)));
    let (initial, made, with_array) = choose|
        initial: JObject<'static>,
        made: jvm::JniResult<JObject<'local>>,
        with_array: JNIEnv<'local>,
    |
        {
            &&& jvm::null_object_answers(initial)
            &&& #[trigger] jvm::makes_object_array_once(
                with_constructor,
                results.len() as i32,
                &c,
                &initial,
                made,
                with_array,
            )
            &&& match made {
                Ok(a) => exists|placed: Result<(), String>| #[trigger]
                    places_results(with_array, &c, &a, results, no_set, placed, after) && answer
                        == match placed {
                        Ok(_) => Ok::<JObject<'local>, String>(a),
                        Err(text) => Err(text),
                    },
                Err(e) => false,
            }
        };
    let a = made->Ok_0;
    let placed = choose|placed: Result<(), String>| #[trigger]
        places_results(with_array, &c, &a, results, no_set, placed, after) && answer
            == match placed {
            Ok(_) => Ok::<JObject<'local>, String>(a),
            Err(text) => Err(text),
        };
    assert(a == array);
    assert(jvm::new_object_array_answers(results.len() as i32, &c, &initial, Ok(array)));
    let passed = choose|passed: Seq<JNIEnv<'local>>|
        {
            &&& #[trigger] placed_first(passed, &c, &a, results, no_set)
            &&& passed.first() == with_array
            &&& passed.len() == results.len() + 1
        };
    assert forall|k: int| 0 <= k < results.len() implies is_placed(
        &c,
        &array,
        k as i32,
        #[trigger] results[k],
    ) by {
        lemma_placed(passed[k], &c, &a, k as i32, results[k], no_set, passed[k + 1]);
    }
}

proof fn lemma_placed<'local>(
    before: JNIEnv<'local>,
    class: &JObject<'_>,
    array: &JObject<'_>,
    place: i32,
    result: QueryResult<u32>,
    no_set: Seq<char>,
    after: JNIEnv<'local>,
)
    requires
        places_result(before, class, array, place, result, no_set, Ok(()), after),
    ensures
        is_placed(class, array, place, result),
{
    let (object, with_object) = choose|
        object: jvm::JniResult<JObject<'local>>,
        with_object: JNIEnv<'local>,
    | #[trigger]
        jvm::makes_object_once(
            before,
            class,
            "(IF)V"@,
            result.id,
            result.distance,
            object,
            with_object,
        ) && match object {
            Ok(o) => exists|set: jvm::JniResult<()>| #[trigger]
                jvm::sets_element_once(with_object, array, place, &o, set, after)
                    && java_objects::told(set, no_set, Ok(())),
            Err(e) => false,
        };
    let o = object->Ok_0;
    let set = choose|set: jvm::JniResult<()>| #[trigger]
        jvm::sets_element_once(with_object, array, place, &o, set, after) && java_objects::told(
            set,
            no_set,
            Ok(()),
        );
    match set {
        Ok(done) => {
            assert(done == ());
        },
        Err(_) => {},
    }
    assert(jvm::new_object_answers(class, "(IF)V"@, result.id, result.distance, Ok(o)));
    assert(jvm::set_object_array_element_answers(array, place, &o, Ok(())));
}

/// A load needs what it reads from and parameters, and a query a vector and an index; what is missing
/// is told, and where both are, what comes first.
pub proof fn lemma_requests_checked(
    source_is_null: bool,
    parameters_are_null: bool,
    file: Result<(), String>,
    stream: Result<(), String>,
    address: i64,
    query: Result<(), String>,
)
    requires
        call_ensures(check_load, (source_is_null, parameters_are_null), file),
        call_ensures(check_load_with_stream, (source_is_null, parameters_are_null), stream),
        call_ensures(check_query, (source_is_null, address), query),
    ensures
        file is Ok <==> !source_is_null && !parameters_are_null,
        stream is Ok <==> !source_is_null && !parameters_are_null,
        query is Ok <==> !source_is_null && address != 0,
        source_is_null ==> {
            &&& file->Err_0@ == "Index path cannot be null"@
            &&& stream->Err_0@ == "Read stream cannot be null"@
            &&& query->Err_0@ == "Query Vector cannot be null"@
        },
        !source_is_null && parameters_are_null ==> {
            &&& file->Err_0@ == "Parameters cannot be null"@
            &&& stream->Err_0@ == "Parameters cannot be null"@
        },
        !source_is_null && address == 0 ==> query->Err_0@ == "Invalid pointer to index"@,
{
}

/// What is wrong with a request to make an index is told, the first thing that is.
pub proof fn lemma_refusals_are_told(
    request: CreateRequest,
    vectors_len: usize,
    num_ids: usize,
    r: Result<usize, String>,
    checked: Result<(), String>,
)
    requires
        call_ensures(CreateRequest::count_vectors, (request, vectors_len, num_ids), r),
        call_ensures(CreateRequest::check, (request,), checked),
    ensures
        checked is Ok <==> {
            &&& !request.ids_are_null && !request.output_is_null && !request.parameters_are_null
            &&& request.vectors_address >= 1
            &&& request.dim >= 1
        },
        checked is Err ==> r is Err && r->Err_0@ == checked->Err_0@,
        r is Err ==> r->Err_0@ == (if request.ids_are_null {
            "IDs cannot be null"@
        } else if request.vectors_address < 1 {
            "VectorsAddress cannot be less than 0"@
        } else if request.dim < 1 {
            "Vectors dimensions cannot be less than or equal to 0"@
        } else if request.output_is_null {
            "Index output stream cannot be null"@
        } else if request.parameters_are_null {
            "Parameters cannot be null"@
        } else if vectors_len < request.dim {
            "Number of vectors cannot be 0"@
        } else {
            "Number of IDs does not match number of vectors"@
        }),
{
    if request.dim >= 1 {
        let (len, dim) = (vectors_len as int, request.dim as int);
        assert(len < dim <==> len / dim == 0) by (nonlinear_arith)
            requires
                0 < dim,
                0 <= len,
        ;
    }
}

/// A space that is not given is told, and so is a panic without a text.
pub proof fn lemma_absence_is_told(
    absent: Result<String, String>,
    text: &str,
    panicked: String,
    unknown: String,
)
    requires
        call_ensures(requested_space, (None::<&str>,), absent),
        call_ensures(panic_text, (Some(text),), panicked),
        call_ensures(panic_text, (None::<&str>,), unknown),
    ensures
        absent is Err && absent->Err_0@ == "spaceType not found in parameters"@,
        panicked@ == text@,
        unknown@ == "Unknown panic in native code"@,
{
}

proof fn lemma_name_is_refused<'local>(
    before: JNIEnv<'local>,
    entry: &JObject<'_>,
    key: JObject<'local>,
    name: Result<String, String>,
    after: JNIEnv<'local>,
)
    requires
        java_objects::object_of(entry, "getKey"@, "()Ljava/lang/Object;"@, key),
        gives_name(before, &key, name, after),
        name is Err,
    ensures
        java_objects::refuses_entry(entry),
{
    let answer = choose|answer: jvm::JniResult<String>| #[trigger]
        jvm::gets_string_once(before, &key, answer, after) && java_objects::told(
            answer,
            "get_string failed: "@,
            name,
        );
    let e = answer->Err_0;
    assert(java_objects::object_of(entry, "getKey"@, "()Ljava/lang/Object;"@, key)
        && jvm::get_string_answers(&key, Err(e)));
}

proof fn lemma_entry_is_refused<'local>(
    before: JNIEnv<'local>,
    entry: &JObject<'_>,
    pair: Result<(String, JObject<'local>), String>,
    after: JNIEnv<'local>,
)
    requires
        reads_entry(before, entry, pair, after),
        pair is Err,
    ensures
        java_objects::refuses_entry(entry),
{
    let (key, with_key) = choose|key: Result<JObject<'local>, String>, with_key: JNIEnv<'local>| #[trigger]
        gives_key(before, entry, key, with_key) && match key {
            Ok(k) => exists|value: Result<JObject<'local>, String>, with_value: JNIEnv<'local>| #[trigger]
                gives_value(with_key, entry, value, with_value) && match value {
                    Ok(_) => exists|name: Result<String, String>| #[trigger]
                        gives_name(with_value, &k, name, after) && name is Err,
                    Err(_) => true,
                },
            Err(_) => true,
        };
    match key {
        Ok(k) => {
            java_objects::lemma_told_object(
                before,
                entry,
                "getKey"@,
                "()Ljava/lang/Object;"@,
                "getKey failed: "@,
                "getKey not object: "@,
                k,
                with_key,
            );
            let (value, with_value) = choose|
                value: Result<JObject<'local>, String>,
                with_value: JNIEnv<'local>,
            | #[trigger]
                gives_value(with_key, entry, value, with_value) && match value {
                    Ok(_) => exists|name: Result<String, String>| #[trigger]
                        gives_name(with_value, &k, name, after) && name is Err,
                    Err(_) => true,
                };
            match value {
                Ok(_) => {
                    let name = choose|name: Result<String, String>| #[trigger]
                        gives_name(with_value, &k, name, after) && name is Err;
                    lemma_name_is_refused(with_value, entry, k, name, after);
                },
                Err(_) => java_objects::lemma_told_refusal(
                    with_key,
                    entry,
                    "getValue"@,
                    "()Ljava/lang/Object;"@,
                    "getValue failed: "@,
                    "getValue not object: "@,
                    value,
                    with_value,
                ),
            }
        },
        Err(_) => java_objects::lemma_told_refusal(
            before,
            entry,
            "getKey"@,
            "()Ljava/lang/Object;"@,
            "getKey failed: "@,
            "getKey not object: "@,
            key,
            with_key,
        ),
    }
}

proof fn lemma_next_is_refused<'local>(
    before: JNIEnv<'local>,
    iterator: &JObject<'_>,
    pair: Result<(String, JObject<'local>), String>,
    after: JNIEnv<'local>,
)
    requires
        gives_next(before, iterator, pair, after),
        pair is Err,
    ensures
        java_objects::refuses_next(iterator),
{
    let asked = choose|asked: JNIEnv<'local>| #[trigger]
        gives_more(before, iterator, Ok(true), asked) && gives_entry(asked, iterator, pair, after);
    let (entry, with_entry) = choose|
        entry: Result<JObject<'local>, String>,
        with_entry: JNIEnv<'local>,
    | #[trigger]
        java_objects::tells_object(
            asked,
            iterator,
            "next"@,
            "()Ljava/lang/Object;"@,
            "next failed: "@,
            "next not object: "@,
            entry,
            with_entry,
        ) && match entry {
            Ok(object) => reads_entry(with_entry, &object, pair, after),
            Err(_) => true,
        };
    match entry {
        Ok(object) => {
            java_objects::lemma_told_object(
                asked,
                iterator,
                "next"@,
                "()Ljava/lang/Object;"@,
                "next failed: "@,
                "next not object: "@,
                object,
                with_entry,
            );
            lemma_entry_is_refused(with_entry, &object, pair, after);
            assert(java_objects::object_of(iterator, "next"@, "()Ljava/lang/Object;"@, object));
        },
        Err(_) => java_objects::lemma_told_refusal(
            asked,
            iterator,
            "next"@,
            "()Ljava/lang/Object;"@,
            "next failed: "@,
            "next not object: "@,
            entry,
            with_entry,
        ),
    }
}

proof fn lemma_walk_is_refused<'local>(
    before: JNIEnv<'local>,
    iterator: &JObject<'_>,
    r: Result<StringMap<JObject<'local>>, String>,
    after: JNIEnv<'local>,
)
    requires
        walks(before, iterator, r, after),
        r is Err,
    ensures
        java_objects::refuses_next(iterator),
{
    let text = r->Err_0;
    let (passed, entries) = choose|
        passed: Seq<JNIEnv<'local>>,
        entries: Seq<(String, JObject<'local>)>,
    |
        {
            &&& #[trigger] gave_entries(passed, iterator, entries)
            &&& {
                ||| gives_more(passed.last(), iterator, Err(text), after)
                ||| gives_next(
                    passed.last(),
                    iterator,
                    Err::<(String, JObject<'local>), String>(text),
                    after,
                )
            }
        };
    if gives_more(passed.last(), iterator, Err(text), after) {
        java_objects::lemma_told_no_answer(
            passed.last(),
            iterator,
            "hasNext failed: "@,
            "hasNext not bool: "@,
            Err(text),
            after,
        );
    } else {
        lemma_next_is_refused(passed.last(), iterator, Err(text), after);
    }
}

/// A Java map is not read only where it, its entries or their keys refuse.
pub proof fn lemma_map_is_refused<'local>(
    before: JNIEnv<'local>,
    map_obj: &JObject<'_>,
    r: Result<StringMap<JObject<'local>>, String>,
    after: JNIEnv<'local>,
)
    requires
        reads_map(before, map_obj, r, after),
        r is Err,
    ensures
        java_objects::refuses_walk(map_obj),
{
    let (start, with_iterator) = choose|
        start: Result<JObject<'local>, String>,
        with_iterator: JNIEnv<'local>,
    | #[trigger]
        gives_iterator(before, map_obj, start, with_iterator) && match start {
            Ok(iterator) => walks(with_iterator, &iterator, r, after),
            Err(_) => true,
        };
    let (entry_set, with_set) = choose|
        entry_set: Result<JObject<'local>, String>,
        with_set: JNIEnv<'local>,
    | #[trigger]
        java_objects::tells_object(
            before,
            map_obj,
            "entrySet"@,
            "()Ljava/util/Set;"@,
            "Failed to call entrySet: "@,
            "entrySet not an object: "@,
            entry_set,
            with_set,
        ) && match entry_set {
            Ok(set) => java_objects::tells_object(
                with_set,
                &set,
                "iterator"@,
                "()Ljava/util/Iterator;"@,
                "Failed to get iterator: "@,
                "iterator not an object: "@,
                start,
                with_iterator,
            ),
            Err(_) => true,
        };
    match entry_set {
        Ok(set) => {
            java_objects::lemma_told_object(
                before,
                map_obj,
                "entrySet"@,
                "()Ljava/util/Set;"@,
                "Failed to call entrySet: "@,
                "entrySet not an object: "@,
                set,
                with_set,
            );
            match start {
                Ok(iterator) => {
                    java_objects::lemma_told_object(
                        with_set,
                        &set,
                        "iterator"@,
                        "()Ljava/util/Iterator;"@,
                        "Failed to get iterator: "@,
                        "iterator not an object: "@,
                        iterator,
                        with_iterator,
                    );
                    lemma_walk_is_refused(with_iterator, &iterator, r, after);
                    assert(java_objects::object_of(
                        &set,
                        "iterator"@,
                        "()Ljava/util/Iterator;"@,
                        iterator,
                    ));
                },
                Err(_) => java_objects::lemma_told_refusal(
                    with_set,
                    &set,
                    "iterator"@,
                    "()Ljava/util/Iterator;"@,
                    "Failed to get iterator: "@,
                    "iterator not an object: "@,
                    start,
                    with_iterator,
                ),
            }
            assert(java_objects::object_of(map_obj, "entrySet"@, "()Ljava/util/Set;"@, set));
        },
        Err(_) => java_objects::lemma_told_refusal(
            before,
            map_obj,
            "entrySet"@,
            "()Ljava/util/Set;"@,
            "Failed to call entrySet: "@,
            "entrySet not an object: "@,
            entry_set,
            with_set,
        ),
    }
}

/// A map has an object for this key that gave no int.
pub open spec fn refuses_int(map: Map<Seq<char>, JObject<'_>>, key: Seq<char>) -> bool {
    map.dom().contains(key) && java_objects::gave_no_int(&map[key])
}

/// A map does not have a space that NMSLIB has: none at all, no string, or another name.
pub open spec fn refuses_space(map: Map<Seq<char>, JObject<'_>>) -> bool {
    ||| !map.dom().contains("spaceType"@)
    ||| exists|e: jni::errors::Error| #[trigger]
        jvm::get_string_answers(&map["spaceType"@], Err(e))
    ||| exists|name: String| #[trigger]
        jvm::get_string_answers(&map["spaceType"@], Ok(name)) && name@ != "l2"@ && name@ != "l1"@
            && name@ != "linf"@ && name@ != "cosinesimil"@ && name@ != "innerproduct"@
}

proof fn lemma_number_is_refused(
    map: Map<Seq<char>, JObject<'_>>,
    key: Seq<char>,
    r: Result<Option<i32>, String>,
)
    requires
        gives_int_parameter(map, key, r),
        r is Err,
    ensures
        refuses_int(map, key),
{
    let answer = choose|answer: Result<i32, String>| #[trigger]
        gives_int(&map[key], answer) && answer is Err;
    lemma_no_int_is_read(&map[key], answer);
}

proof fn lemma_space_is_refused(map: Map<Seq<char>, JObject<'_>>, r: Result<String, String>)
    requires
        gives_space(map, r),
        r is Err,
    ensures
        refuses_space(map),
{
    if map.dom().contains("spaceType"@) {
        let text = choose|text: Result<String, String>| #[trigger]
            gives_string(&map["spaceType"@], text) && match text {
                Ok(name) => names_space(Some(name@), r),
                Err(_) => true,
            };
        let answer = choose|answer: jvm::JniResult<String>| #[trigger]
            jvm::get_string_answers(&map["spaceType"@], answer) && java_objects::told(
                answer,
                "get_string failed: "@,
                text,
            );
        match answer {
            Ok(name) => {
                assert(jvm::get_string_answers(&map["spaceType"@], Ok(name)));
            },
            Err(e) => {
                assert(jvm::get_string_answers(&map["spaceType"@], Err(e)));
            },
        }
    }
}

proof fn lemma_given_refusal<'local>(
    map_obj: &JObject<'_>,
    r: Result<StringMap<JObject<'local>>, String>,
)
    requires
        gives_map(map_obj, r),
        r is Err,
    ensures
        java_objects::refuses_walk(map_obj),
{
    let (before, after) = choose|before: JNIEnv<'local>, after: JNIEnv<'local>| #[trigger]
        reads_map(before, map_obj, r, after);
    lemma_map_is_refused(before, map_obj, r, after);
}

/// The map that a map has for the two numbers of its own could not be walked, or one of the two gave
/// no int.
pub open spec fn refuses_pair(map: Map<Seq<char>, JObject<'_>>) -> bool {
    map.dom().contains("parameters"@) && {
        ||| java_objects::refuses_walk(&map["parameters"@])
        ||| exists|own: Map<Seq<char>, JObject<'_>>|
            #[trigger] java_objects::holds_entries_of(&map["parameters"@], own) && (refuses_int(
                own,
                "ef_construction"@,
            ) || refuses_int(own, "m"@))
    }
}

proof fn lemma_pair_is_refused(
    map: Map<Seq<char>, JObject<'_>>,
    r: Result<(Option<i32>, Option<i32>), String>,
)
    requires
        gives_sub_parameters(map, r),
        r is Err,
    ensures
        refuses_pair(map),
{
    let own = choose|own: Result<StringMap<JObject<'_>>, String>| #[trigger]
        gives_map(&map["parameters"@], own) && match own {
            Ok(sub) => reads_sub_parameters(sub@, r),
            Err(_) => true,
        };
    match own {
        Ok(found) => {
            lemma_given_map(&map["parameters"@], own);
            let sub = found@;
            let ef = choose|ef: Result<Option<i32>, String>| #[trigger]
                gives_int_parameter(sub, EF_CONSTRUCTION@, ef) && match ef {
                    Ok(_) => exists|n: Result<Option<i32>, String>| #[trigger]
                        gives_int_parameter(sub, M@, n) && n is Err,
                    Err(_) => true,
                };
            match ef {
                Ok(_) => {
                    let n = choose|n: Result<Option<i32>, String>| #[trigger]
                        gives_int_parameter(sub, M@, n) && n is Err;
                    lemma_number_is_refused(sub, "m"@, n);
                },
                Err(_) => lemma_number_is_refused(sub, "ef_construction"@, ef),
            }
            assert(java_objects::holds_entries_of(&map["parameters"@], sub));
        },
        Err(_) => lemma_given_refusal(&map["parameters"@], own),
    }
}

/// The settings of an index that is to be built are refused only where the Java map cannot be walked,
/// has a number that gives no int, or has no space that NMSLIB has.
pub proof fn lemma_creation_is_refused(
    env: &mut JNIEnv<'_>,
    parameters: &JObject<'_>,
    r: Result<IndexSettings, String>,
)
    requires
        call_ensures(creation_settings, (env, parameters), r),
        r is Err,
    ensures
        java_objects::refuses_walk(parameters) || exists|map: Map<Seq<char>, JObject<'_>>|
            #[trigger] java_objects::holds_entries_of(parameters, map) && (refuses_pair(map) || refuses_int(
                map,
                "indexThreadQty"@,
            ) || refuses_space(map)),
{
    let map = choose|map: Result<StringMap<JObject<'_>>, String>| #[trigger]
        gives_map(parameters, map) && match map {
            Ok(params) => exists|sub: Result<(Option<i32>, Option<i32>), String>| #[trigger]
                gives_sub_parameters(params@, sub) && match sub {
                    Ok((ef, m)) => reads_creation_settings(params@, ef, m, r),
                    Err(_) => true,
                },
            Err(_) => true,
        };
    match map {
        Ok(found) => {
            lemma_given_map(parameters, map);
            let params = found@;
            let sub = choose|sub: Result<(Option<i32>, Option<i32>), String>| #[trigger]
                gives_sub_parameters(params, sub) && match sub {
                    Ok((ef, m)) => reads_creation_settings(params, ef, m, r),
                    Err(_) => true,
                };
            match sub {
                Ok((ef, m)) => {
                    let threads = choose|threads: Result<Option<i32>, String>| #[trigger]
                        gives_int_parameter(params, INDEX_THREAD_QUANTITY@, threads)
                            && match threads {
                            Ok(_) => exists|space: Result<String, String>| #[trigger]
                                gives_space(params, space) && space is Err,
                            Err(_) => true,
                        };
                    match threads {
                        Ok(_) => {
                            let space = choose|space: Result<String, String>| #[trigger]
                                gives_space(params, space) && space is Err;
                            lemma_space_is_refused(params, space);
                        },
                        Err(_) => lemma_number_is_refused(params, "indexThreadQty"@, threads),
                    }
                },
                Err(_) => lemma_pair_is_refused(params, sub),
            }
            assert(java_objects::holds_entries_of(parameters, params));
        },
        Err(_) => lemma_given_refusal(parameters, map),
    }
}

/// The settings of an index that is to be loaded are refused only where the Java map cannot be walked,
/// has no space that NMSLIB has, or has a size of the candidate list that gives no int.
pub proof fn lemma_loading_is_refused(
    env: &mut JNIEnv<'_>,
    parameters: &JObject<'_>,
    r: Result<IndexSettings, String>,
)
    requires
        call_ensures(loading_settings, (env, parameters), r),
        r is Err,
    ensures
        java_objects::refuses_walk(parameters) || exists|map: Map<Seq<char>, JObject<'_>>|
            #[trigger] java_objects::holds_entries_of(parameters, map) && (refuses_int(map, "efSearch"@)
                || refuses_space(map)),
{
    let map = choose|map: Result<StringMap<JObject<'_>>, String>| #[trigger]
        gives_map(parameters, map) && match map {
            Ok(params) => exists|space: Result<String, String>| #[trigger]
                gives_space(params@, space) && match space {
                    Ok(name) => reads_loading_settings(params@, name, r),
                    Err(_) => true,
                },
            Err(_) => true,
        };
    match map {
        Ok(found) => {
            lemma_given_map(parameters, map);
            let params = found@;
            let space = choose|space: Result<String, String>| #[trigger]
                gives_space(params, space) && match space {
                    Ok(name) => reads_loading_settings(params, name, r),
                    Err(_) => true,
                };
            match space {
                Ok(_) => {
                    let ef = choose|ef: Result<Option<i32>, String>| #[trigger]
                        gives_int_parameter(params, "efSearch"@, ef) && ef is Err;
                    lemma_number_is_refused(params, "efSearch"@, ef);
                },
                Err(_) => lemma_space_is_refused(params, space),
            }
            assert(java_objects::holds_entries_of(parameters, params));
        },
        Err(_) => lemma_given_refusal(parameters, map),
    }
}

} // verus!
