//! Java objects as the library reads and makes them.
//!
//! What a Java object holds, and whether a call into the JVM succeeds, is up to
//! the JVM. The contracts say which calls a result comes from, and what is made of
//! each answer.

use crate::asking;
use crate::jni_util;
use crate::jni_util::{
    build_aborted, cache_step, check_created, check_pending, check_row_length, collect_entries,
    exception_of_error, exception_of_panic, integer_of, length_of, level_named, null_pointer, numbers_of,
    store_reading, store_unsigned_reading, text_of, BQQuantizationLevel, CacheStep, JNIUtil,
    JavaException, JniUtilError,
};
use crate::jvm;
use crate::jvm::JniResult;
use crate::string_map::StringMap;
use crate::text::join;
use jni::objects::{GlobalRef, JFieldID, JMethodID, JObject, JValueOwned};
use jni::{JNIEnv, JavaVM};
use vstd::prelude::*;
use vstd::string::*;

verus! {

broadcast use asking::group_asking;

/// What an answer of the JVM is to the conversion that asked for it.
pub open spec fn lifted<T>(answer: JniResult<T>) -> Result<T, JniUtilError> {
    match answer {
        Ok(value) => Ok(value),
        Err(e) => Err(JniUtilError::Jni(e)),
    }
}

/// A failed call into the JVM as an error of the conversion that made it.
fn from_jvm<T>(answer: JniResult<T>) -> (r: Result<T, JniUtilError>)
    ensures
        r == lifted(answer),
{
    match answer {
        Ok(value) => Ok(value),
        Err(e) => Err(JniUtilError::Jni(e)),
    }
}

/// How many elements an array of this length has.
pub open spec fn element_count(length: i32) -> int {
    if length < 0 {
        0
    } else {
        length as int
    }
}

/// The size of a buffer for an array of this length.
pub(crate) fn buffer_size(length: i32) -> (n: usize)
    ensures
        n == element_count(length),
{
    if length < 0 {
        0
    } else {
        length as usize
    }
}

/// What calling a method that takes nothing may come to.
pub open spec fn calls<'local>(
    object: &JObject<'_>,
    name: Seq<char>,
    signature: Seq<char>,
    value: JniResult<JValueOwned<'local>>,
) -> bool {
    jvm::call_method_answers(object, name, signature, Seq::empty(), value)
}

/// One call of a method that takes nothing leads from one environment to the other, with
/// this answer.
pub open spec fn calls_once<'local>(
    before: JNIEnv<'local>,
    object: &JObject<'_>,
    name: Seq<char>,
    signature: Seq<char>,
    value: JniResult<JValueOwned<'local>>,
    after: JNIEnv<'local>,
) -> bool {
    jvm::calls_method_once(before, object, name, signature, Seq::empty(), value, after)
}

/// Calls a method that takes nothing.
fn call<'local>(env: &mut JNIEnv<'local>, object: &JObject<'_>, name: &str, signature: &str) -> (r:
    JniResult<JValueOwned<'local>>)
    requires
        jvm::is_plain_signature(signature@),
        asking::is_getter(name@),
    ensures
        asking::only_asks(*old(env), *final(env)),
        calls(object, name@, signature@, r),
        calls_once(*old(env), object, name@, signature@, r, *final(env)),
{
    let arguments: Vec<&JObject<'_>> = Vec::new();
    let (value, passage) = jvm::call_method_once(
        env,
        object,
        name,
        signature,
        arguments.as_slice(),
    );
    assert(calls_once(*old(env), object, name@, signature@, value, *env));
    value
}

/// What calling a method that takes nothing and returns an object may come to: one call
/// leads from one environment to the other.
pub open spec fn calls_for_object<'local>(
    before: JNIEnv<'local>,
    object: &JObject<'_>,
    name: Seq<char>,
    signature: Seq<char>,
    r: JniResult<JObject<'local>>,
    after: JNIEnv<'local>,
) -> bool {
    exists|value: JniResult<JValueOwned<'local>>| #[trigger]
        calls_once(before, object, name, signature, value, after) && match value {
            Ok(v) => jvm::value_object_answers(v, r),
            Err(e) => r == Err::<JObject<'local>, jni::errors::Error>(e),
        }
}

/// Calls a method that takes nothing and returns an object.
fn call_for_object<'local>(
    env: &mut JNIEnv<'local>,
    object: &JObject<'_>,
    name: &str,
    signature: &str,
) -> (r: JniResult<JObject<'local>>)
    requires
        jvm::is_plain_signature(signature@),
        asking::is_getter(name@),
    ensures
        asking::only_asks(*old(env), *final(env)),
        calls_for_object(*old(env), object, name@, signature@, r, *final(env)),
{
    let value = call(env, object, name, signature)?;
    jvm::value_object(value)
}

/// What asking a Java number for its value as an int may come to.
pub open spec fn gives_int(number: &JObject<'_>, r: JniResult<i32>) -> bool {
    exists|value: JniResult<JValueOwned<'_>>| #[trigger]
        calls(number, "intValue"@, "()I"@, value) && match value {
            Ok(v) => jvm::value_int_answers(v, r),
            Err(e) => r == Err::<i32, jni::errors::Error>(e),
        }
}

/// What asking a Java number once for its value as an int may come to, with the
/// environment before and after.
pub open spec fn asks_int<'local>(
    before: JNIEnv<'local>,
    number: &JObject<'_>,
    r: JniResult<i32>,
    after: JNIEnv<'local>,
) -> bool {
    exists|value: JniResult<JValueOwned<'local>>| #[trigger]
        calls_once(before, number, "intValue"@, "()I"@, value, after) && match value {
            Ok(v) => jvm::value_int_answers(v, r),
            Err(e) => r == Err::<i32, jni::errors::Error>(e),
        }
}

/// What a Java number is as an int.
pub(crate) fn int_value(env: &mut JNIEnv<'_>, number: &JObject<'_>) -> (r: JniResult<i32>)
    ensures
        asking::only_asks(*old(env), *final(env)),
        gives_int(number, r),
        asks_int(*old(env), number, r, *final(env)),
{
    proof {
        jvm::lemma_signatures_plain();
    }
    let value = call(env, number, "intValue", "()I")?;
    jvm::value_int(value)
}

/// What asking a Java iterator whether it has more to give may come to.
pub open spec fn tells_more<'local>(
    before: JNIEnv<'local>,
    iterator: &JObject<'_>,
    r: JniResult<bool>,
    after: JNIEnv<'local>,
) -> bool {
    exists|value: JniResult<JValueOwned<'local>>| #[trigger]
        calls_once(before, iterator, "hasNext"@, "()Z"@, value, after) && match value {
            Ok(v) => jvm::value_bool_answers(v, r),
            Err(e) => r == Err::<bool, jni::errors::Error>(e),
        }
}

/// Whether a Java iterator has more to give.
fn has_next(env: &mut JNIEnv<'_>, iterator: &JObject<'_>) -> (r: JniResult<bool>)
    ensures
        asking::only_asks(*old(env), *final(env)),
        tells_more(*old(env), iterator, r, *final(env)),
{
    proof {
        jvm::lemma_signatures_plain();
    }
    let value = call(env, iterator, "hasNext", "()Z")?;
    jvm::value_bool(value)
}

/// `text` is `prefix`, followed by what some error of the JVM says of itself.
pub open spec fn tells_of_jvm(prefix: Seq<char>, text: Seq<char>) -> bool {
    exists|e: jni::errors::Error, shown: String| #[trigger]
        to_string_from_display_ensures(&e, shown) && text == prefix + shown@
}

/// `text` is `prefix`, followed by what this error of the JVM says of itself.
pub open spec fn tells_of(error: jni::errors::Error, prefix: Seq<char>, text: Seq<char>) -> bool {
    exists|shown: String| #[trigger]
        to_string_from_display_ensures(&error, shown) && text == prefix + shown@
}

/// `r` is what the JVM answered, or else `prefix` followed by what the error says of
/// itself.
pub open spec fn told<T>(answer: JniResult<T>, prefix: Seq<char>, r: Result<T, String>) -> bool {
    match answer {
        Ok(value) => r == Ok::<T, String>(value),
        Err(e) => r matches Err(text) && tells_of(e, prefix, text@),
    }
}

/// The answer of the JVM, or else `prefix` followed by what the error says of itself.
pub(crate) fn or_tell<T>(answer: JniResult<T>, prefix: &str) -> (r: Result<T, String>)
    ensures
        told(answer, prefix@, r),
        r matches Err(text) ==> tells_of_jvm(prefix@, text@),
{
    match answer {
        Ok(value) => Ok(value),
        Err(e) => {
            let shown = e.to_string();
            Err(join(prefix, shown.as_str()))
        },
    }
}

/// `text` is `prefix`, followed by what some error of the JVM is shown as.
pub open spec fn shows_of_jvm(prefix: Seq<char>, text: Seq<char>) -> bool {
    exists|e: jni::errors::Error| #[trigger] shows_of(e, prefix, text)
}

/// `text` is `prefix`, followed by what this error of the JVM is shown as.
pub open spec fn shows_of(error: jni::errors::Error, prefix: Seq<char>, text: Seq<char>) -> bool {
    exists|shown: String| #[trigger]
        jvm::debug_text_answers(&error, shown) && text == prefix + shown@
}

/// `r` is what the JVM answered, or else `prefix` followed by what the error is shown
/// as.
pub open spec fn shown<T>(answer: JniResult<T>, prefix: Seq<char>, r: Result<T, String>) -> bool {
    match answer {
        Ok(value) => r == Ok::<T, String>(value),
        Err(e) => r matches Err(text) && shows_of(e, prefix, text@),
    }
}

/// The answer of the JVM, or else `prefix` followed by what the error is shown as.
pub(crate) fn or_show<T>(answer: JniResult<T>, prefix: &str) -> (r: Result<T, String>)
    ensures
        shown(answer, prefix@, r),
        r matches Err(text) ==> shows_of_jvm(prefix@, text@),
{
    match answer {
        Ok(value) => Ok(value),
        Err(e) => {
            let text = jvm::debug_text(&e);
            assert(jvm::debug_text_answers(&e, text));
            let r = Err(join(prefix, text.as_str()));
            assert(shows_of(e, prefix@, r->Err_0@));
            r
        },
    }
}

/// What calling a method that takes nothing and returns an object may come to, where
/// `no_call` tells of a failed call, and `no_object` of a result that is no object.
pub open spec fn tells_object<'local>(
    before: JNIEnv<'local>,
    object: &JObject<'_>,
    name: Seq<char>,
    signature: Seq<char>,
    no_call: Seq<char>,
    no_object: Seq<char>,
    r: Result<JObject<'local>, String>,
    after: JNIEnv<'local>,
) -> bool {
    exists|value: JniResult<JValueOwned<'local>>| #[trigger]
        calls_once(before, object, name, signature, value, after) && match value {
            Ok(v) => exists|answer: JniResult<JObject<'local>>| #[trigger]
                jvm::value_object_answers(v, answer) && told(answer, no_object, r),
            Err(e) => r matches Err(text) && tells_of(e, no_call, text@),
        }
}

/// Calls a method that takes nothing and returns an object; the texts tell of a
/// failed call, and of a result that is no object.
pub(crate) fn tell_object<'local>(
    env: &mut JNIEnv<'local>,
    object: &JObject<'_>,
    name: &str,
    signature: &str,
    no_call: &str,
    no_object: &str,
) -> (r: Result<JObject<'local>, String>)
    requires
        jvm::is_plain_signature(signature@),
        asking::is_getter(name@),
    ensures
        asking::only_asks(*old(env), *final(env)),
        tells_object(
            *old(env),
            object,
            name@,
            signature@,
            no_call@,
            no_object@,
            r,
            *final(env),
        ),
        r matches Err(text) ==> tells_of_jvm(no_call@, text@) || tells_of_jvm(no_object@, text@),
{
    let value = or_tell(call(env, object, name, signature), no_call)?;
    let answer = jvm::value_object(value);
    assert(jvm::value_object_answers(value, answer));
    or_tell(answer, no_object)
}

/// What asking a Java iterator whether it has more to give may come to, where
/// `no_call` tells of a failed call, and `no_truth` of a result that is no truth
/// value.
pub open spec fn tells_has_next<'local>(
    before: JNIEnv<'local>,
    iterator: &JObject<'_>,
    no_call: Seq<char>,
    no_truth: Seq<char>,
    r: Result<bool, String>,
    after: JNIEnv<'local>,
) -> bool {
    exists|value: JniResult<JValueOwned<'local>>| #[trigger]
        calls_once(before, iterator, "hasNext"@, "()Z"@, value, after) && match value {
            Ok(v) => exists|answer: JniResult<bool>| #[trigger]
                jvm::value_bool_answers(v, answer) && told(answer, no_truth, r),
            Err(e) => r matches Err(text) && tells_of(e, no_call, text@),
        }
}

/// Whether a Java iterator has more to give; the texts tell of a failed call, and of
/// a result that is no truth value.
pub(crate) fn tell_has_next(
    env: &mut JNIEnv<'_>,
    iterator: &JObject<'_>,
    no_call: &str,
    no_truth: &str,
) -> (r: Result<bool, String>)
    ensures
        asking::only_asks(*old(env), *final(env)),
        tells_has_next(*old(env), iterator, no_call@, no_truth@, r, *final(env)),
        r matches Err(text) ==> tells_of_jvm(no_call@, text@) || tells_of_jvm(no_truth@, text@),
{
    proof {
        jvm::lemma_signatures_plain();
    }
    let value = or_tell(call(env, iterator, "hasNext", "()Z"), no_call)?;
    let answer = jvm::value_bool(value);
    assert(jvm::value_bool_answers(value, answer));
    or_tell(answer, no_truth)
}

/// What asking a Java number for its value as an int may come to, where `no_call`
/// tells of a failed call, and `no_int` of a result that is no int.
pub open spec fn tells_int(
    number: &JObject<'_>,
    no_call: Seq<char>,
    no_int: Seq<char>,
    r: Result<i32, String>,
) -> bool {
    exists|value: JniResult<JValueOwned<'_>>| #[trigger]
        calls(number, "intValue"@, "()I"@, value) && match value {
            Ok(v) => exists|answer: JniResult<i32>| #[trigger]
                jvm::value_int_answers(v, answer) && told(answer, no_int, r),
            Err(e) => r matches Err(text) && tells_of(e, no_call, text@),
        }
}

/// What a Java number is as an int; the texts tell of a failed call, and of a
/// result that is no int.
pub(crate) fn tell_int(env: &mut JNIEnv<'_>, number: &JObject<'_>, no_call: &str, no_int: &str)
    -> (r: Result<i32, String>)
    ensures
        asking::only_asks(*old(env), *final(env)),
        tells_int(number, no_call@, no_int@, r),
        r matches Err(text) ==> tells_of_jvm(no_call@, text@) || tells_of_jvm(no_int@, text@),
{
    proof {
        jvm::lemma_signatures_plain();
    }
    let value = or_tell(call(env, number, "intValue", "()I"), no_call)?;
    let answer = jvm::value_int(value);
    assert(jvm::value_int_answers(value, answer));
    or_tell(answer, no_int)
}

/// What asking a Java number for its value as an int may come to, where `no_call` stands
/// before what a failed call is shown as, and `no_int` before a result that is no int.
pub open spec fn shows_int(
    number: &JObject<'_>,
    no_call: Seq<char>,
    no_int: Seq<char>,
    r: Result<i32, String>,
) -> bool {
    exists|value: JniResult<JValueOwned<'_>>| #[trigger]
        calls(number, "intValue"@, "()I"@, value) && match value {
            Ok(v) => exists|answer: JniResult<i32>| #[trigger]
                jvm::value_int_answers(v, answer) && shown(answer, no_int, r),
            Err(e) => r matches Err(text) && shows_of(e, no_call, text@),
        }
}

/// What a Java number is as an int; the texts stand before what a failed call, or a
/// result that is no int, is shown as.
pub(crate) fn show_int(env: &mut JNIEnv<'_>, number: &JObject<'_>, no_call: &str, no_int: &str)
    -> (r: Result<i32, String>)
    ensures
        asking::only_asks(*old(env), *final(env)),
        shows_int(number, no_call@, no_int@, r),
        r matches Err(text) ==> shows_of_jvm(no_call@, text@) || shows_of_jvm(no_int@, text@),
{
    proof {
        jvm::lemma_signatures_plain();
    }
    let value = or_show(call(env, number, "intValue", "()I"), no_call)?;
    let answer = jvm::value_int(value);
    assert(jvm::value_int_answers(value, answer));
    or_show(answer, no_int)
}

/// What asking a Java map for what it has for a key may come to, where the key is a
/// text.
pub open spec fn gives_value<'local>(
    map: &JObject<'_>,
    key: Seq<char>,
    r: JniResult<JObject<'local>>,
) -> bool {
    exists|java_key: JniResult<JObject<'local>>| #[trigger]
        jvm::new_string_answers(key, java_key) && match java_key {
            Ok(k) => looks_up(map, &k, r),
            Err(e) => r == Err::<JObject<'local>, jni::errors::Error>(e),
        }
}

/// What a Java map has for a key, or a null reference.
pub(crate) fn get_map_value<'local>(env: &mut JNIEnv<'local>, map: &JObject<'_>, key: &str) -> (r:
    JniResult<JObject<'local>>)
    ensures
        asking::only_asks(*old(env), *final(env)),
        gives_value(map, key@, r),
{
    let java_key = jvm::new_string(env, key);
    assert(jvm::new_string_answers(key@, java_key));
    look_up(env, map, &java_key?)
}

/// What asking a Java map for what it has for a key may come to, where the key is an
/// object.
pub open spec fn looks_up<'local>(
    map: &JObject<'_>,
    key: &JObject<'_>,
    r: JniResult<JObject<'local>>,
) -> bool {
    exists|value: JniResult<JValueOwned<'local>>| #[trigger]
        jvm::call_method_answers(
            map,
            "get"@,
            "(Ljava/lang/Object;)Ljava/lang/Object;"@,
            seq![key],
            value,
        ) && match value {
            Ok(v) => jvm::value_object_answers(v, r),
            Err(e) => r == Err::<JObject<'local>, jni::errors::Error>(e),
        }
}

fn look_up<'local>(env: &mut JNIEnv<'local>, map: &JObject<'_>, key: &JObject<'_>) -> (r: JniResult<
    JObject<'local>,
>)
    ensures
        asking::only_asks(*old(env), *final(env)),
        looks_up(map, key, r),
{
    proof {
        jvm::lemma_signatures_plain();
    }
    let mut arguments: Vec<&JObject<'_>> = Vec::new();
    arguments.push(key);
    let value = asking::ask_getter(
        env,
        map,
        "get",
        "(Ljava/lang/Object;)Ljava/lang/Object;",
        arguments.as_slice(),
    );
    assert(jvm::call_method_answers(
        map,
        "get"@,
        "(Ljava/lang/Object;)Ljava/lang/Object;"@,
        seq![key],
        value,
    ));
    jvm::value_object(value?)
}

/// What asking a Java map for an int may come to, where an error counts as nothing.
pub open spec fn gives_int_or_none(map: &JObject<'_>, key: Seq<char>, n: Option<i32>) -> bool {
    exists|answer: JniResult<Option<i32>>| #[trigger]
        gives_int_setting(map, key, answer) && n == match answer {
            Ok(value) => value,
            Err(_) => None,
        }
}

/// The int that a Java map has for a key; nothing where it has none, or none that
/// can be read.
pub(crate) fn get_int_from_map(env: &mut JNIEnv<'_>, map: &JObject<'_>, key: &str) -> (n: Option<
    i32,
>)
    ensures
        asking::only_asks(*old(env), *final(env)),
        gives_int_or_none(map, key@, n),
{
    match int_setting(env, map, key) {
        Ok(n) => n,
        Err(_) => None,
    }
}

/// What asking a Java map for an object may come to: nothing where the map has a null
/// reference for the key or cannot be asked, and an error where the key cannot be
/// made.
pub open spec fn gives_object_setting<'local>(
    map: &JObject<'_>,
    key: Seq<char>,
    r: JniResult<Option<JObject<'local>>>,
) -> bool {
    exists|java_key: JniResult<JObject<'local>>| #[trigger]
        jvm::new_string_answers(key, java_key) && match java_key {
            Ok(k) => exists|value: JniResult<JObject<'local>>| #[trigger]
                looks_up(map, &k, value) && match value {
                    Ok(object) => exists|null: bool| #[trigger]
                        jvm::is_null_answers(&object, null) && r == Ok::<_, jni::errors::Error>(
                            if null {
                                None
                            } else {
                                Some(object)
                            },
                        ),
                    Err(_) => r == Ok::<_, jni::errors::Error>(None::<JObject<'local>>),
                },
            Err(e) => r == Err::<Option<JObject<'local>>, jni::errors::Error>(e),
        }
}

/// What a Java map has for a key; nothing where it has none, or where the map cannot
/// be asked. It is an error only where the key cannot be made.
pub(crate) fn object_setting<'local>(env: &mut JNIEnv<'local>, map: &JObject<'_>, key: &str) -> (r:
    JniResult<Option<JObject<'local>>>)
    ensures
        asking::only_asks(*old(env), *final(env)),
        gives_object_setting(map, key@, r),
{
    let java_key = jvm::new_string(env, key);
    assert(jvm::new_string_answers(key@, java_key));
    match look_up(env, map, &java_key?) {
        Ok(value) => {
            let null = jvm::is_null(&value);
            assert(jvm::is_null_answers(&value, null));
            if null {
                Ok(None)
            } else {
                Ok(Some(value))
            }
        },
        Err(_) => Ok(None),
    }
}

/// What asking a Java map for an int may come to: what the object that it has gives as
/// an int, and nothing where it gives none.
pub open spec fn gives_int_setting(
    map: &JObject<'_>,
    key: Seq<char>,
    r: JniResult<Option<i32>>,
) -> bool {
    exists|object: JniResult<Option<JObject<'_>>>| #[trigger]
        gives_object_setting(map, key, object) && match object {
            Ok(Some(number)) => exists|value: JniResult<i32>| #[trigger]
                gives_int(&number, value) && r == Ok::<_, jni::errors::Error>(
                    match value {
                        Ok(n) => Some(n),
                        Err(_) => None,
                    },
                ),
            Ok(None) => r == Ok::<_, jni::errors::Error>(None::<i32>),
            Err(e) => r == Err::<Option<i32>, jni::errors::Error>(e),
        }
}

/// The int that a Java map has for a key; nothing where it has none, or none that
/// can be read. It is an error only where the key cannot be made.
pub(crate) fn int_setting(env: &mut JNIEnv<'_>, map: &JObject<'_>, key: &str) -> (n: JniResult<
    Option<i32>,
>)
    ensures
        asking::only_asks(*old(env), *final(env)),
        gives_int_setting(map, key@, n),
{
    match object_setting(env, map, key)? {
        Some(value) => match int_value(env, &value) {
            Ok(n) => Ok(Some(n)),
            Err(_) => Ok(None),
        },
        None => Ok(None),
    }
}

/// What asking a Java map for a text may come to: what the object that it has gives as
/// a text, and nothing where it has a null reference.
pub open spec fn gives_string_setting(
    map: &JObject<'_>,
    key: Seq<char>,
    r: JniResult<Option<String>>,
) -> bool {
    exists|value: JniResult<JObject<'_>>| #[trigger]
        gives_value(map, key, value) && match value {
            Ok(object) => {
                ||| jvm::is_null_answers(&object, true) && r == Ok::<_, jni::errors::Error>(
                    None::<String>,
                )
                ||| jvm::is_null_answers(&object, false) && match r {
                    Ok(Some(text)) => jvm::get_string_answers(&object, Ok(text)),
                    Ok(None) => false,
                    Err(e) => jvm::get_string_answers(&object, Err(e)),
                }
            },
            Err(e) => r == Err::<Option<String>, jni::errors::Error>(e),
        }
}

/// The text that a Java map has for a key; nothing where it has none.
pub(crate) fn string_setting(env: &mut JNIEnv<'_>, map: &JObject<'_>, key: &str) -> (text: JniResult<
    Option<String>,
>)
    ensures
        asking::only_asks(*old(env), *final(env)),
        gives_string_setting(map, key@, text),
{
    let value = get_map_value(env, map, key)?;
    if jvm::is_null(&value) {
        return Ok(None);
    }
    let text = asking::ask_string(env, &value)?;
    Ok(Some(text))
}

/// What reading a Java array of bytes may come to: as many elements as its length says.
pub open spec fn reads_bytes(array: &JObject<'_>, r: JniResult<Vec<i8>>) -> bool {
    exists|length: JniResult<i32>| #[trigger]
        jvm::get_array_length_answers(array, length) && match length {
            Ok(n) => jvm::get_byte_array_region_answers(array, element_count(n), r),
            Err(e) => r == Err::<Vec<i8>, jni::errors::Error>(e),
        }
}

/// The bytes of a Java array.
pub fn bytes_of(env: &mut JNIEnv<'_>, array: &JObject<'_>) -> (r: JniResult<Vec<i8>>)
    ensures
        asking::only_asks(*old(env), *final(env)),
        reads_bytes(array, r),
        r matches Ok(bytes) ==> bytes@.len() <= i32::MAX,
{
    let length = asking::ask_length(env, array);
    assert(jvm::get_array_length_answers(array, length));
    jvm::get_byte_array_region(env, array, buffer_size(length?))
}

/// What reading a Java array of ints may come to: as many elements as its length says.
pub open spec fn reads_ints(array: &JObject<'_>, r: JniResult<Vec<i32>>) -> bool {
    exists|length: JniResult<i32>| #[trigger]
        jvm::get_array_length_answers(array, length) && match length {
            Ok(n) => jvm::get_int_array_region_answers(array, element_count(n), r),
            Err(e) => r == Err::<Vec<i32>, jni::errors::Error>(e),
        }
}

/// The numbers of a Java array of ints.
pub fn ints_of(env: &mut JNIEnv<'_>, array: &JObject<'_>) -> (r: JniResult<Vec<i32>>)
    ensures
        asking::only_asks(*old(env), *final(env)),
        reads_ints(array, r),
        r matches Ok(numbers) ==> numbers@.len() <= i32::MAX,
{
    let length = asking::ask_length(env, array);
    assert(jvm::get_array_length_answers(array, length));
    jvm::get_int_array_region(env, array, buffer_size(length?))
}

/// What reading a Java array of longs may come to: as many elements as its length says.
pub open spec fn reads_longs(array: &JObject<'_>, r: JniResult<Vec<i64>>) -> bool {
    exists|length: JniResult<i32>| #[trigger]
        jvm::get_array_length_answers(array, length) && match length {
            Ok(n) => jvm::get_long_array_region_answers(array, element_count(n), r),
            Err(e) => r == Err::<Vec<i64>, jni::errors::Error>(e),
        }
}

/// The numbers of a Java array of longs.
pub fn longs_of(env: &mut JNIEnv<'_>, array: &JObject<'_>) -> (r: JniResult<Vec<i64>>)
    ensures
        asking::only_asks(*old(env), *final(env)),
        reads_longs(array, r),
        r matches Ok(numbers) ==> numbers@.len() <= i32::MAX,
{
    let length = asking::ask_length(env, array);
    assert(jvm::get_array_length_answers(array, length));
    jvm::get_long_array_region(env, array, buffer_size(length?))
}

/// What reading a Java array of floats may come to: as many elements as its length says.
pub open spec fn reads_float_bits(array: &JObject<'_>, r: JniResult<Vec<u32>>) -> bool {
    exists|length: JniResult<i32>| #[trigger]
        jvm::get_array_length_answers(array, length) && match length {
            Ok(n) => jvm::get_float_array_region_answers(array, element_count(n), r),
            Err(e) => r == Err::<Vec<u32>, jni::errors::Error>(e),
        }
}

/// The bit patterns of the numbers of a Java array of floats.
pub fn float_bits_of(env: &mut JNIEnv<'_>, array: &JObject<'_>) -> (r: JniResult<Vec<u32>>)
    ensures
        asking::only_asks(*old(env), *final(env)),
        reads_float_bits(array, r),
        r matches Ok(numbers) ==> numbers@.len() <= i32::MAX,
{
    let length = asking::ask_length(env, array);
    assert(jvm::get_array_length_answers(array, length));
    jvm::get_float_array_region(env, array, buffer_size(length?))
}

/// What making a Java array with the given bytes may come to: a new array of that
/// length, into which the bytes are copied once. Nothing else is called.
pub open spec fn makes_byte_array<'local>(
    before: JNIEnv<'local>,
    bytes: Seq<i8>,
    r: JniResult<JObject<'local>>,
    after: JNIEnv<'local>,
) -> bool {
    exists|array: JniResult<JObject<'local>>, with_array: JNIEnv<'local>| #[trigger]
        jvm::makes_byte_array_once(before, bytes.len() as i32, array, with_array) && match array {
            Ok(a) => exists|copied: JniResult<()>| #[trigger]
                jvm::sets_bytes_once(with_array, &a, 0, bytes, copied, after) && match copied {
                    Ok(_) => r == Ok::<JObject<'local>, jni::errors::Error>(a),
                    Err(e) => r == Err::<JObject<'local>, jni::errors::Error>(e),
                },
            Err(e) => {
                &&& r == Err::<JObject<'local>, jni::errors::Error>(e)
                &&& with_array == after
            },
        }
}

/// A Java array with the given bytes.
pub fn byte_array<'local>(env: &mut JNIEnv<'local>, bytes: &[i8]) -> (r: JniResult<JObject<'local>>)
    ensures
        makes_byte_array(*old(env), bytes@, r, *final(env)),
{
    let (array, passage) = jvm::new_byte_array_once(
        env,
        #[verifier::truncate]
        (bytes.len() as i32),
    );
    let ghost with_array = *env;
    assert(jvm::makes_byte_array_once(*old(env), bytes@.len() as i32, array, with_array));
    let array = array?;
    let (copied, passage) = jvm::set_byte_array_region_once(env, &array, 0, bytes);
    assert(jvm::sets_bytes_once(with_array, &array, 0, bytes@, copied, *env));
    copied?;
    Ok(array)
}

/// What writing bytes to a Java output stream may come to: a Java array with these
/// bytes is handed to the stream once, and nothing else is called.
pub open spec fn writes_bytes<'local>(
    before: JNIEnv<'local>,
    output: &JObject<'_>,
    bytes: Seq<i8>,
    r: JniResult<()>,
    after: JNIEnv<'local>,
) -> bool {
    exists|array: JniResult<JObject<'local>>, filled: JNIEnv<'local>| #[trigger]
        makes_byte_array(before, bytes, array, filled) && match array {
            Ok(a) => exists|written: JniResult<JValueOwned<'local>>| #[trigger]
                jvm::calls_method_once(
                    filled,
                    output,
                    "write"@,
                    "([B)V"@,
                    seq![&a],
                    written,
                    after,
                ) && match written {
                    Ok(_) => r == Ok::<(), jni::errors::Error>(()),
                    Err(e) => r == Err::<(), jni::errors::Error>(e),
                },
            Err(e) => r == Err::<(), jni::errors::Error>(e) && filled == after,
        }
}

/// Writes bytes to a Java output stream.
pub fn write_to_stream(env: &mut JNIEnv<'_>, output: &JObject<'_>, bytes: &[i8]) -> (r: JniResult<()>)
    ensures
        writes_bytes(*old(env), output, bytes@, r, *final(env)),
{
    proof {
        jvm::lemma_signatures_plain();
    }
    let array = byte_array(env, bytes);
    let ghost filled = *env;
    assert(makes_byte_array(*old(env), bytes@, array, filled));
    let array = array?;
    let mut arguments: Vec<&JObject<'_>> = Vec::new();
    arguments.push(&array);
    let (written, passage) = jvm::call_method_once(
        env,
        output,
        "write",
        "([B)V",
        arguments.as_slice(),
    );
    assert(arguments@ =~= seq![&array]);
    assert(jvm::calls_method_once(
        filled,
        output,
        "write"@,
        "([B)V"@,
        seq![&array],
        written,
        *env,
    ));
    written?;
    Ok(())
}

/// `reference` is what looking up a class to keep it may have come to: a global
/// reference to the class of this name.
pub open spec fn refers_to_class(name: Seq<char>, reference: GlobalRef) -> bool {
    exists|class: JObject<'_>| #[trigger]
        jvm::find_class_answers(name, Ok(class)) && jvm::new_global_ref_answers(
            &class,
            Ok(reference),
        )
}

/// `error` is what looking up a class to keep it may have come to.
pub open spec fn refuses_class(name: Seq<char>, error: jni::errors::Error) -> bool {
    ||| jvm::find_class_answers(name, Err(error))
    ||| exists|class: JObject<'_>| #[trigger]
        jvm::find_class_answers(name, Ok(class)) && jvm::new_global_ref_answers(
            &class,
            Err(error),
        )
}

/// What looking up a method of a class that is kept may come to.
pub open spec fn finds_method(
    class: GlobalRef,
    name: Seq<char>,
    signature: Seq<char>,
    method: JniResult<JMethodID>,
) -> bool {
    exists|object: &JObject<'static>|
        {
            &&& jvm::as_object_answers(&class, object)
            &&& #[trigger] jvm::get_method_id_answers(object, name, signature, method)
        }
}

/// `error` is what a step may have come to.
pub open spec fn refuses_step(
    step: jni_util::CacheStepView,
    error: jni::errors::Error,
) -> bool {
    match step {
        jni_util::CacheStepView::Class { class } => refuses_class(class, error),
        jni_util::CacheStepView::Method { class, method, signature } => exists|
            reference: GlobalRef,
        | #[trigger]
            refers_to_class(class, reference) && finds_method(
                reference,
                method,
                signature,
                Err(error),
            ),
        jni_util::CacheStepView::StaticMethod { .. } => false,
    }
}

/// Entries under names that are not in `names` are the same.
pub open spec fn same_outside<V>(
    names: Set<Seq<char>>,
    before: Map<Seq<char>, V>,
    after: Map<Seq<char>, V>,
) -> bool {
    forall|name: Seq<char>|
        !names.contains(name) ==> {
            &&& #[trigger] after.dom().contains(name) == before.dom().contains(name)
            &&& before.dom().contains(name) ==> after[name] == before[name]
        }
}

proof fn lemma_same_outside<V>(
    earlier: Set<Seq<char>>,
    later: Set<Seq<char>>,
    first: Map<Seq<char>, V>,
    second: Map<Seq<char>, V>,
    third: Map<Seq<char>, V>,
)
    requires
        earlier.subset_of(later),
        same_outside(earlier, first, second),
        same_outside(later, second, third),
    ensures
        same_outside(later, first, third),
{
    assert forall|name: Seq<char>| !later.contains(name) implies {
        &&& #[trigger] third.dom().contains(name) == first.dom().contains(name)
        &&& first.dom().contains(name) ==> third[name] == first[name]
    } by {
        assert(third.dom().contains(name) == second.dom().contains(name));
        assert(second.dom().contains(name) == first.dom().contains(name));
    }
}

impl JNIUtil {
    /// What a step is about is at hand, as the JVM gave it: a reference to the class of
    /// that name, or the method of that class which has that name and signature. The id
    /// of a static method is the one that was found before.
    pub open spec fn keeps_step(
        &self,
        step: jni_util::CacheStepView,
        is_merge_aborted: JMethodID,
    ) -> bool {
        match step {
            jni_util::CacheStepView::Class { class } => {
                &&& self.cached_classes@.dom().contains(class)
                &&& refers_to_class(class, self.cached_classes@[class])
            },
            jni_util::CacheStepView::Method { class, method, signature } => {
                &&& self.cached_methods@.dom().contains(jni_util::method_key(class, method))
                &&& finds_method(
                    self.cached_classes@[class],
                    method,
                    signature,
                    Ok(self.cached_methods@[jni_util::method_key(class, method)]),
                )
            },
            jni_util::CacheStepView::StaticMethod { class, method, .. } => {
                self.cached_methods@.contains_pair(
                    jni_util::method_key(class, method),
                    is_merge_aborted,
                )
            },
        }
    }

    /// Looks a class up and keeps it at hand.
    fn cache_class(&mut self, env: &mut JNIEnv<'_>, class_name: &str) -> (r: Result<
        (),
        JniUtilError,
    >)
        ensures
            asking::only_asks(*old(env), *final(env)),
            final(self).vm == old(self).vm,
            final(self).cached_methods@ == old(self).cached_methods@,
            match r {
                Ok(_) => exists|reference: GlobalRef| #[trigger]
                    refers_to_class(class_name@, reference) && final(self).cached_classes@ == old(
                        self,
                    ).cached_classes@.insert(class_name@, reference),
                Err(JniUtilError::Jni(e)) => {
                    &&& refuses_class(class_name@, e)
                    &&& final(self).cached_classes@ == old(self).cached_classes@
                },
                Err(_) => false,
            },
    {
        let class = asking::ask_class(env, class_name);
        assert(jvm::find_class_answers(class_name@, class));
        let class = from_jvm(class)?;
        let reference = jvm::new_global_ref(env, &class);
        assert(jvm::new_global_ref_answers(&class, reference));
        let reference = from_jvm(reference)?;
        assert(refers_to_class(class_name@, reference));
        self.keep_class(class_name, reference);
        Ok(())
    }

    /// Looks a method up, whose class is at hand, and keeps it at hand.
    fn cache_method(
        &mut self,
        env: &mut JNIEnv<'_>,
        class_name: &str,
        method_name: &str,
        signature: &str,
    ) -> (r: Result<(), JniUtilError>)
        requires
            old(self).class_names().contains(class_name@),
        ensures
            asking::only_asks(*old(env), *final(env)),
            final(self).vm == old(self).vm,
            final(self).cached_classes@ == old(self).cached_classes@,
            match r {
                Ok(_) => exists|method: JMethodID| #[trigger]
                    finds_method(
                        old(self).cached_classes@[class_name@],
                        method_name@,
                        signature@,
                        Ok(method),
                    ) && final(self).cached_methods@ == old(self).cached_methods@.insert(
                        jni_util::method_key(class_name@, method_name@),
                        method,
                    ),
                Err(JniUtilError::Jni(e)) => {
                    &&& finds_method(
                        old(self).cached_classes@[class_name@],
                        method_name@,
                        signature@,
                        Err(e),
                    )
                    &&& final(self).cached_methods@ == old(self).cached_methods@
                },
                Err(_) => false,
            },
    {
        let class = self.class_to_search(class_name)?;
        let class_object = jvm::as_object(class);
        let method = asking::ask_method(env, class_object, method_name, signature);
        assert(jvm::get_method_id_answers(class_object, method_name@, signature@, method));
        assert(finds_method(*class, method_name@, signature@, method));
        let method = from_jvm(method)?;
        self.keep_method(class_name, method_name, method);
        Ok(())
    }

    /// Looks up everything that is kept at hand. The id of the one static method is
    /// found by the caller, as the JVM has another kind of id for these.
    pub fn initialize(
        &mut self,
        env: &mut JNIEnv<'_>,
        java_vm: JavaVM,
        is_merge_aborted: JMethodID,
    ) -> (r: Result<(), JniUtilError>)
        ensures
            asking::only_asks(*old(env), *final(env)),
            match r {
                Ok(_) => {
                    let (classes, methods) = jni_util::names_after(jni_util::cache_steps().len());
                    &&& final(self).vm == Some(java_vm)
                    &&& final(self).class_names() == old(self).class_names().union(classes)
                    &&& final(self).method_names() == old(self).method_names().union(methods)
                    &&& forall|k: int|
                        0 <= k < jni_util::cache_steps().len() ==> final(self).keeps_step(
                            #[trigger] jni_util::cache_steps()[k],
                            is_merge_aborted,
                        )
                    &&& same_outside(
                        classes,
                        old(self).cached_classes@,
                        final(self).cached_classes@,
                    )
                    &&& same_outside(
                        methods,
                        old(self).cached_methods@,
                        final(self).cached_methods@,
                    )
                },
                Err(JniUtilError::Jni(e)) => {
                    &&& final(self).vm == old(self).vm
                    &&& exists|k: int|
                        0 <= k < jni_util::cache_steps().len() && refuses_step(
                            #[trigger] jni_util::cache_steps()[k],
                            e,
                        )
                },
                Err(_) => false,
            },
    {
        let mut p: usize = 0;
        proof {
            jni_util::lemma_cache_steps_suffice();
            jni_util::lemma_cache_steps_differ();
            assert(self.class_names() =~= old(self).class_names().union(
                jni_util::names_after(0).0,
            ));
            assert(self.method_names() =~= old(self).method_names().union(
                jni_util::names_after(0).1,
            ));
        }
        loop
            invariant
                asking::only_asks(*old(env), *env),
                p <= jni_util::cache_steps().len(),
                self.vm == old(self).vm,
                self.class_names() == old(self).class_names().union(
                    jni_util::names_after(p as nat).0,
                ),
                self.method_names() == old(self).method_names().union(
                    jni_util::names_after(p as nat).1,
                ),
                forall|k: int|
                    0 <= k < p ==> {
                        &&& jni_util::names_step(
                            jni_util::names_after(p as nat),
                            #[trigger] jni_util::cache_steps()[k],
                        )
                        &&& self.keeps_step(jni_util::cache_steps()[k], is_merge_aborted)
                    },
                forall|name: Seq<char>| #[trigger]
                    jni_util::names_after(p as nat).0.contains(name) ==> refers_to_class(
                        name,
                        self.cached_classes@[name],
                    ),
                same_outside(
                    jni_util::names_after(p as nat).0,
                    old(self).cached_classes@,
                    self.cached_classes@,
                ),
                same_outside(
                    jni_util::names_after(p as nat).1,
                    old(self).cached_methods@,
                    self.cached_methods@,
                ),
                forall|n: nat|
                    #![trigger jni_util::names_after(n)]
                    n < jni_util::cache_steps().len() ==> match jni_util::cache_steps()[n as int] {
                        jni_util::CacheStepView::Class { class } => !jni_util::names_after(
                            n,
                        ).0.contains(class),
                        jni_util::CacheStepView::Method { class, method, .. } => {
                            &&& jni_util::names_after(n).0.contains(class)
                            &&& !jni_util::names_after(n).1.contains(
                                jni_util::method_key(class, method),
                            )
                        },
                        jni_util::CacheStepView::StaticMethod { class, method, .. } => {
                            &&& jni_util::names_after(n).0.contains(class)
                            &&& !jni_util::names_after(n).1.contains(
                                jni_util::method_key(class, method),
                            )
                        },
                    },
            ensures
                p == jni_util::cache_steps().len(),
            decreases jni_util::cache_steps().len() - p,
        {
            let step = match cache_step(p) {
                Some(step) => step,
                None => {
                    break;
                },
            };
            let ghost before = *self;
            let done = match step {
                CacheStep::Class { class } => self.cache_class(env, class),
                CacheStep::Method { class, method, signature } => {
                    self.cache_method(env, class, method, signature)
                },
                CacheStep::StaticMethod { class, method, .. } => {
                    self.keep_method(class, method, is_merge_aborted);
                    Ok(())
                },
            };
            if let Err(e) = done {
                assert(refuses_step(jni_util::cache_steps()[p as int], e->Jni_0));
                return Err(e);
            }
            p = p + 1;
            proof {
                assert(self.class_names() =~= old(self).class_names().union(
                    jni_util::names_after(p as nat).0,
                ));
                assert(self.method_names() =~= old(self).method_names().union(
                    jni_util::names_after(p as nat).1,
                ));
                assert forall|k: int| 0 <= k < p implies {
                    &&& jni_util::names_step(
                        jni_util::names_after(p as nat),
                        #[trigger] jni_util::cache_steps()[k],
                    )
                    &&& self.keeps_step(jni_util::cache_steps()[k], is_merge_aborted)
                } by {
                    if k < p - 1 {
                        assert(before.keeps_step(jni_util::cache_steps()[k], is_merge_aborted));
                    }
                }
                let earlier = jni_util::names_after((p - 1) as nat);
                let later = jni_util::names_after(p as nat);
                assert(same_outside(later.0, before.cached_classes@, self.cached_classes@));
                assert(same_outside(later.1, before.cached_methods@, self.cached_methods@));
                lemma_same_outside(
                    earlier.0,
                    later.0,
                    old(self).cached_classes@,
                    before.cached_classes@,
                    self.cached_classes@,
                );
                lemma_same_outside(
                    earlier.1,
                    later.1,
                    old(self).cached_methods@,
                    before.cached_methods@,
                    self.cached_methods@,
                );
            }
        }
        self.finish_initialization(java_vm);
        Ok(())
    }
}

/// An answer that, where it is an error of this library, has this message.
pub open spec fn errs_only_with<T>(r: Result<T, JniUtilError>, message: Seq<char>) -> bool {
    match r {
        Ok(_) => true,
        Err(JniUtilError::Jni(_)) => true,
        Err(JniUtilError::Runtime(text)) => text@ == message,
        Err(JniUtilError::NullPointer(_)) => false,
    }
}

/// The JVM was asked once to throw an exception of this class with this message, which
/// led from one environment to the other.
pub open spec fn throws<'local>(
    before: JNIEnv<'local>,
    class: Seq<char>,
    message: Seq<char>,
    after: JNIEnv<'local>,
) -> bool {
    exists|answer: JniResult<()>| #[trigger]
        jvm::throws_once(before, class, message, answer, after)
}

/// What is made of a value where a Java exception may be pending in this environment:
/// an error with this message where one is.
pub open spec fn checked<T>(
    env: JNIEnv<'_>,
    value: T,
    message: Seq<char>,
    r: Result<T, JniUtilError>,
) -> bool {
    exists|pending: JniResult<bool>| #[trigger]
        jvm::exception_check_answers(env, pending) && match pending {
            Ok(true) => r matches Err(JniUtilError::Runtime(text)) && text@ == message,
            Ok(false) => r == Ok::<T, JniUtilError>(value),
            Err(e) => r == Err::<T, JniUtilError>(JniUtilError::Jni(e)),
        }
}

/// What is made of an answer of the JVM where a Java exception may be pending in the
/// environment behind it.
pub open spec fn answer_checked<T>(
    after: JNIEnv<'_>,
    answer: JniResult<T>,
    message: Seq<char>,
    r: Result<T, JniUtilError>,
) -> bool {
    match answer {
        Ok(value) => checked(after, value, message, r),
        Err(e) => r == Err::<T, JniUtilError>(JniUtilError::Jni(e)),
    }
}

/// What reading a Java string may come to.
pub open spec fn gives_text(java_string: &JObject<'_>, r: Result<String, JniUtilError>) -> bool {
    match r {
        Ok(text) => {
            &&& jvm::is_null_answers(java_string, false)
            &&& jvm::get_string_answers(java_string, Ok(text))
        },
        Err(JniUtilError::Jni(e)) => {
            &&& jvm::is_null_answers(java_string, false)
            &&& jvm::get_string_answers(java_string, Err(e))
        },
        Err(JniUtilError::NullPointer(message)) => {
            &&& jvm::is_null_answers(java_string, true)
            &&& message@ == "String cannot be null"@
        },
        Err(JniUtilError::Runtime(_)) => false,
    }
}

/// What reading a Java string may come to, with the environment before and after: it is
/// read once, and where it is null not at all.
pub open spec fn reads_text<'local>(
    before: JNIEnv<'local>,
    java_string: &JObject<'_>,
    r: Result<String, JniUtilError>,
    after: JNIEnv<'local>,
) -> bool {
    &&& gives_text(java_string, r)
    &&& match r {
        Ok(text) => jvm::gets_string_once(before, java_string, Ok(text), after),
        Err(JniUtilError::Jni(e)) => jvm::gets_string_once(before, java_string, Err(e), after),
        Err(_) => before == after,
    }
}

/// What reading a Java integer may come to, where `class` is the class of integers: an
/// object of another class is an error, and is not asked for its value.
pub open spec fn gives_integer<'local>(
    before: JNIEnv<'local>,
    class: GlobalRef,
    object: &JObject<'_>,
    r: Result<i32, JniUtilError>,
    after: JNIEnv<'local>,
) -> bool {
    exists|
        class_object: &JObject<'static>,
        is_integer: JniResult<bool>,
        asked: JNIEnv<'local>,
    |
        {
            &&& jvm::as_object_answers(&class, class_object)
            &&& #[trigger] jvm::asks_instance_once(before, object, class_object, is_integer, asked)
            &&& match is_integer {
                Ok(true) => exists|value: JniResult<i32>| #[trigger]
                    asks_int(asked, object, value, after) && answer_checked(
                        after,
                        value,
                        "Could not call \"intValue\" method on Integer"@,
                        r,
                    ),
                Ok(false) => {
                    &&& asked == after
                    &&& r matches Err(JniUtilError::Runtime(message)) && message@
                        == "Cannot call IntMethod on non-integer class"@
                },
                Err(e) => {
                    &&& asked == after
                    &&& r == Err::<i32, JniUtilError>(JniUtilError::Jni(e))
                },
            }
        }
}

/// What calling a method that takes nothing and returns an object may come to, where
/// `message` is said of an exception that the call leaves pending: one call leads from
/// one environment to the other.
pub open spec fn calls_checked<'local>(
    before: JNIEnv<'local>,
    object: &JObject<'_>,
    name: Seq<char>,
    signature: Seq<char>,
    message: Seq<char>,
    r: Result<JObject<'local>, JniUtilError>,
    after: JNIEnv<'local>,
) -> bool {
    exists|answer: JniResult<JObject<'local>>| #[trigger]
        calls_for_object(before, object, name, signature, answer, after) && answer_checked(
            after,
            answer,
            message,
            r,
        )
}

/// What asking an entry of a Java map for its key may come to.
pub open spec fn gives_key<'local>(
    before: JNIEnv<'local>,
    entry: &JObject<'_>,
    r: Result<JObject<'local>, JniUtilError>,
    after: JNIEnv<'local>,
) -> bool {
    calls_checked(
        before,
        entry,
        "getKey"@,
        "()Ljava/lang/Object;"@,
        "Could not call \"getKey\" method"@,
        r,
        after,
    )
}

/// What asking an entry of a Java map for its value may come to.
pub open spec fn gives_entry_value<'local>(
    before: JNIEnv<'local>,
    entry: &JObject<'_>,
    r: Result<JObject<'local>, JniUtilError>,
    after: JNIEnv<'local>,
) -> bool {
    calls_checked(
        before,
        entry,
        "getValue"@,
        "()Ljava/lang/Object;"@,
        "Could not call \"getValue\" method"@,
        r,
        after,
    )
}

/// What reading an entry of a Java map may come to: its key, the text of the key, and
/// its value, each asked for once.
pub open spec fn reads_entry<'local>(
    before: JNIEnv<'local>,
    entry: &JObject<'_>,
    r: Result<(String, JObject<'local>), JniUtilError>,
    after: JNIEnv<'local>,
) -> bool {
    exists|key: Result<JObject<'local>, JniUtilError>, with_key: JNIEnv<'local>| #[trigger]
        gives_key(before, entry, key, with_key) && match key {
            Ok(k) => exists|name: Result<String, JniUtilError>, with_name: JNIEnv<'local>| #[trigger]
                reads_text(with_key, &k, name, with_name) && match name {
                    Ok(n) => exists|value: Result<JObject<'local>, JniUtilError>| #[trigger]
                        gives_entry_value(with_name, entry, value, after) && r == match value {
                            Ok(v) => Ok((n, v)),
                            Err(e) => Err(e),
                        },
                    Err(e) => {
                        &&& r == Err::<(String, JObject<'local>), JniUtilError>(e)
                        &&& with_name == after
                    },
                },
            Err(e) => {
                &&& r == Err::<(String, JObject<'local>), JniUtilError>(e)
                &&& with_key == after
            },
        }
}

/// What taking the next entry from an iterator over a Java map may come to: the iterator
/// is asked for one, and the entry itself is given up once it is read.
pub open spec fn takes_entry<'local>(
    before: JNIEnv<'local>,
    iterator: &JObject<'_>,
    r: Result<(String, JObject<'local>), JniUtilError>,
    after: JNIEnv<'local>,
) -> bool {
    exists|entry: Result<JObject<'local>, JniUtilError>, with_entry: JNIEnv<'local>| #[trigger]
        calls_checked(
            before,
            iterator,
            "next"@,
            "()Ljava/lang/Object;"@,
            "Could not call \"next\" method"@,
            entry,
            with_entry,
        ) && match entry {
            Ok(object) => exists|read: Result<(String, JObject<'local>), JniUtilError>| #[trigger]
                reads_entry(with_entry, &object, read, after) && match read {
                    Ok(pair) => exists|deleted: JniResult<()>| #[trigger]
                        jvm::delete_local_ref_answers(object, deleted) && r == match deleted {
                            Ok(_) => Ok(pair),
                            Err(e) => Err(JniUtilError::Jni(e)),
                        },
                    Err(e) => r == Err::<(String, JObject<'local>), JniUtilError>(e),
                },
            Err(e) => {
                &&& r == Err::<(String, JObject<'local>), JniUtilError>(e)
                &&& with_entry == after
            },
        }
}

/// The iterator says that it has more, and then gives this entry.
pub open spec fn gives_next<'local>(
    before: JNIEnv<'local>,
    iterator: &JObject<'_>,
    r: Result<(String, JObject<'local>), JniUtilError>,
    after: JNIEnv<'local>,
) -> bool {
    exists|asked: JNIEnv<'local>| #[trigger]
        tells_more(before, iterator, Ok(true), asked) && takes_entry(asked, iterator, r, after)
}

/// The iterator gave these entries one after the other, each from one environment of
/// `passed` to the next; nothing else was called between.
pub open spec fn gave_entries<'local>(
    passed: Seq<JNIEnv<'local>>,
    iterator: &JObject<'_>,
    entries: Seq<(String, JObject<'local>)>,
) -> bool {
    &&& passed.len() == entries.len() + 1
    &&& forall|k: int|
        0 <= k < entries.len() ==> gives_next(
            passed[k],
            iterator,
            Ok(#[trigger] entries[k]),
            passed[k + 1],
        )
}

/// What taking the entries from an iterator over a Java map may come to: all of them
/// once it has no more, or the error of one that cannot be had. The count of entries
/// has 64 bits.
pub open spec fn walks<'local>(
    before: JNIEnv<'local>,
    iterator: &JObject<'_>,
    r: Result<StringMap<JObject<'local>>, JniUtilError>,
    after: JNIEnv<'local>,
) -> bool {
    exists|passed: Seq<JNIEnv<'local>>, entries: Seq<(String, JObject<'local>)>|
        {
            &&& #[trigger] gave_entries(passed, iterator, entries)
            &&& passed.first() == before
            &&& match r {
                Ok(map) => {
                    &&& map@ == jni_util::collected(entries)
                    &&& {
                        ||| tells_more(passed.last(), iterator, Ok(false), after)
                        ||| entries.len() == u64::MAX && passed.last() == after
                    }
                },
                Err(error) => {
                    ||| error matches JniUtilError::Jni(e) && tells_more(
                        passed.last(),
                        iterator,
                        Err(e),
                        after,
                    )
                    ||| gives_next(
                        passed.last(),
                        iterator,
                        Err::<(String, JObject<'local>), JniUtilError>(error),
                        after,
                    )
                },
            }
        }
}

/// What is left of a walk over a Java map that came to `walked`: no exception may be
/// pending, and what it was made with is given up.
pub open spec fn ends_walk<'local>(
    env: JNIEnv<'local>,
    entry_set: JObject<'local>,
    iterator: JObject<'local>,
    walked: Result<StringMap<JObject<'local>>, JniUtilError>,
    r: Result<StringMap<JObject<'local>>, JniUtilError>,
) -> bool {
    match walked {
        Ok(map) => exists|seen: Result<(), JniUtilError>| #[trigger]
            checked(env, (), "Could not call \"hasNext\" method"@, seen) && match seen {
                Ok(_) => gives_up_both(entry_set, iterator, map, r),
                Err(e) => r == Err::<StringMap<JObject<'local>>, JniUtilError>(e),
            },
        Err(e) => r == Err::<StringMap<JObject<'local>>, JniUtilError>(e),
    }
}

/// What giving up the two objects that a walk was made with may come to.
pub open spec fn gives_up_both<'local>(
    entry_set: JObject<'local>,
    iterator: JObject<'local>,
    map: StringMap<JObject<'local>>,
    r: Result<StringMap<JObject<'local>>, JniUtilError>,
) -> bool {
    exists|first: JniResult<()>| #[trigger]
        jvm::delete_local_ref_answers(entry_set, first) && match first {
            Ok(_) => exists|second: JniResult<()>| #[trigger]
                jvm::delete_local_ref_answers(iterator, second) && r == match second {
                    Ok(_) => Ok(map),
                    Err(e) => Err(JniUtilError::Jni(e)),
                },
            Err(e) => r == Err::<StringMap<JObject<'local>>, JniUtilError>(JniUtilError::Jni(e)),
        }
}

/// What asking a Java map for its set of entries may come to.
pub open spec fn gives_entry_set<'local>(
    before: JNIEnv<'local>,
    map: &JObject<'_>,
    r: Result<JObject<'local>, JniUtilError>,
    after: JNIEnv<'local>,
) -> bool {
    calls_checked(
        before,
        map,
        "entrySet"@,
        "()Ljava/util/Set;"@,
        "Unable to call \"entrySet\" method on \"java/util/Map\""@,
        r,
        after,
    )
}

/// What asking a Java set for an iterator may come to.
pub open spec fn gives_iterator<'local>(
    before: JNIEnv<'local>,
    set: &JObject<'_>,
    r: Result<JObject<'local>, JniUtilError>,
    after: JNIEnv<'local>,
) -> bool {
    calls_checked(
        before,
        set,
        "iterator"@,
        "()Ljava/util/Iterator;"@,
        "Call to \"iterator\" method failed"@,
        r,
        after,
    )
}

/// What reading the entries of a Java map may come to: its set of entries and an
/// iterator over it are asked for once, and all entries are taken.
pub open spec fn gives_map<'local>(
    before: JNIEnv<'local>,
    map: &JObject<'_>,
    r: Result<StringMap<JObject<'local>>, JniUtilError>,
    after: JNIEnv<'local>,
) -> bool {
    exists|entry_set: Result<JObject<'local>, JniUtilError>, with_set: JNIEnv<'local>| #[trigger]
        gives_entry_set(before, map, entry_set, with_set) && match entry_set {
            Ok(set) => exists|
                iterator: Result<JObject<'local>, JniUtilError>,
                with_iterator: JNIEnv<'local>,
            | #[trigger]
                gives_iterator(with_set, &set, iterator, with_iterator) && match iterator {
                    Ok(i) => exists|walked: Result<StringMap<JObject<'local>>, JniUtilError>| #[trigger]
                        walks(with_iterator, &i, walked, after) && ends_walk(
                            after,
                            set,
                            i,
                            walked,
                            r,
                        ),
                    Err(e) => {
                        &&& r == Err::<StringMap<JObject<'local>>, JniUtilError>(e)
                        &&& with_iterator == after
                    },
                },
            Err(e) => {
                &&& r == Err::<StringMap<JObject<'local>>, JniUtilError>(e)
                &&& with_set == after
            },
        }
}

impl JNIUtil {
    /// Throws a Java exception. Where that fails there is nothing more to be done.
    pub fn throw_java_exception(&self, env: &mut JNIEnv<'_>, exception_type: &str, message: &str)
        ensures
            throws(*old(env), exception_type@, message@, *final(env)),
    {
        let (answer, passage) = jvm::throw_new_once(env, exception_type, message);
        assert(jvm::throws_once(*old(env), exception_type@, message@, answer, *env));
    }

    fn throw(&self, env: &mut JNIEnv<'_>, exception: JavaException)
        ensures
            throws(*old(env), exception.class@, exception.message@, *final(env)),
    {
        self.throw_java_exception(env, exception.class, exception.message.as_str());
    }

    /// Tells Java that an index build was aborted.
    pub fn catch_index_build_abort_exception_and_throw_java(&self, env: &mut JNIEnv<'_>)
        ensures
            throws(
                *old(env),
                "org/opensearch/knn/index/codec/nativeindex/IndexBuildAbortedException"@,
                "Faiss index build aborted"@,
                *final(env),
            ),
    {
        self.throw(env, build_aborted());
    }

    /// Tells Java of an error.
    pub fn catch_rust_error_and_throw_java(&self, env: &mut JNIEnv<'_>, error: &JniUtilError)
        ensures
            match error {
                JniUtilError::Runtime(message) => throws(
                    *old(env),
                    "java/lang/Exception"@,
                    message@,
                    *final(env),
                ),
                JniUtilError::Jni(e) => exists|shown: String| #[trigger]
                    to_string_from_display_ensures(e, shown) && throws(
                        *old(env),
                        "java/lang/Exception"@,
                        shown@,
                        *final(env),
                    ),
                JniUtilError::NullPointer(message) => throws(
                    *old(env),
                    "java/lang/Exception"@,
                    message@,
                    *final(env),
                ),
            },
    {
        self.throw(env, exception_of_error(error));
    }

    /// Tells Java of a panic with the given text, if it has one.
    pub fn catch_and_throw_java(&self, env: &mut JNIEnv<'_>, text: Option<&str>)
        ensures
            throws(
                *old(env),
                "java/lang/Exception"@,
                match text {
                    Some(t) => t@,
                    None => "Unknown exception occurred"@,
                },
                *final(env),
            ),
    {
        self.throw(env, exception_of_panic(text));
    }

    /// An error where a Java exception is pending.
    pub fn has_exception_in_stack(&self, env: &mut JNIEnv<'_>) -> (r: Result<(), JniUtilError>)
        ensures
            checked(*old(env), (), "Exception in jni occurred"@, r),
            *final(env) == *old(env),
            errs_only_with(r, "Exception in jni occurred"@),
    {
        self.has_exception_in_stack_with_message(env, "Exception in jni occurred")
    }

    /// An error with the given message where a Java exception is pending.
    pub fn has_exception_in_stack_with_message(&self, env: &mut JNIEnv<'_>, message: &str) -> (r:
        Result<(), JniUtilError>)
        ensures
            checked(*old(env), (), message@, r),
            *final(env) == *old(env),
            errs_only_with(r, message@),
    {
        let pending = jvm::exception_check(env);
        assert(jvm::exception_check_answers(*old(env), pending));
        let r = check_pending(from_jvm(pending)?, message);
        assert(r is Ok ==> r->Ok_0 == ());
        r
    }

    /// The text of a Java string.
    pub fn convert_java_string_to_rust_string(&self, env: &mut JNIEnv<'_>, java_string: &JObject<'_>)
        -> (r: Result<String, JniUtilError>)
        ensures
            asking::only_asks(*old(env), *final(env)),
            gives_text(java_string, r),
            reads_text(*old(env), java_string, r, *final(env)),
    {
        let text = if jvm::is_null(java_string) {
            None
        } else {
            let (answer, passage) = jvm::get_string_once(env, java_string);
            assert(jvm::gets_string_once(*old(env), java_string, answer, *env));
            Some(from_jvm(answer)?)
        };
        text_of(text)
    }

    /// The text of a Java object that is a string.
    pub fn convert_java_object_to_rust_string(&self, env: &mut JNIEnv<'_>, object: &JObject<'_>)
        -> (r: Result<String, JniUtilError>)
        ensures
            asking::only_asks(*old(env), *final(env)),
            gives_text(object, r),
    {
        self.convert_java_string_to_rust_string(env, object)
    }

    /// The quantization level that a Java string names.
    pub fn convert_java_string_to_quantization_level(
        &self,
        env: &mut JNIEnv<'_>,
        java_string: &JObject<'_>,
    ) -> (r: Result<BQQuantizationLevel, JniUtilError>)
        ensures
            asking::only_asks(*old(env), *final(env)),
            match r {
                Ok(level) => exists|text: String| #[trigger]
                    gives_text(java_string, Ok(text)) && jni_util::quantization_level(text@) == Some(
                        level,
                    ),
                Err(JniUtilError::Jni(e)) => gives_text(java_string, Err(JniUtilError::Jni(e))),
                Err(JniUtilError::NullPointer(message)) => {
                    &&& jvm::is_null_answers(java_string, true)
                    &&& message@ == "String cannot be null"@
                },
                Err(JniUtilError::Runtime(message)) => exists|text: String| #[trigger]
                    gives_text(java_string, Ok(text)) && jni_util::quantization_level(text@) is None
                        && message@ == "Unable to convert java string to quantization level"@,
            },
    {
        if jvm::is_null(java_string) {
            return level_named(None);
        }
        let text = self.convert_java_string_to_rust_string(env, java_string)?;
        level_named(Some(text.as_str()))
    }

    /// The value of a Java integer.
    pub fn convert_java_object_to_rust_integer(&self, env: &mut JNIEnv<'_>, object: &JObject<'_>)
        -> (r: Result<i32, JniUtilError>)
        ensures
            asking::only_asks(*old(env), *final(env)),
            match r {
                Ok(_) => self.can_read_integers(),
                Err(JniUtilError::Jni(_)) => self.can_read_integers(),
                Err(JniUtilError::NullPointer(message)) => message@ == "Object cannot be null"@,
                Err(JniUtilError::Runtime(message)) => if self.can_read_integers() {
                    ||| message@ == "Cannot call IntMethod on non-integer class"@
                    ||| message@ == "Could not call \"intValue\" method on Integer"@
                } else if !self.class_names().contains("java/lang/Integer"@) {
                    message@ == "Unable to load class \""@ + "java/lang/Integer"@ + "\""@
                } else {
                    message@ == jni_util::missing_method("intValue"@)
                },
            },
            if r matches Err(JniUtilError::NullPointer(_)) {
                &&& jvm::is_null_answers(object, true)
                &&& *final(env) == *old(env)
            } else {
                &&& jvm::is_null_answers(object, false)
                &&& if self.can_read_integers() {
                    gives_integer(
                        *old(env),
                        self.cached_classes@["java/lang/Integer"@],
                        object,
                        r,
                        *final(env),
                    )
                } else {
                    *final(env) == *old(env)
                }
            },
    {
        let (class, _) = self.integer_conversion(jvm::is_null(object))?;
        let class_object = jvm::as_object(class);
        let (is_integer, passage) = jvm::is_instance_of_once(env, object, class_object);
        let ghost asked = *env;
        assert(jvm::asks_instance_once(*old(env), object, class_object, is_integer, asked));
        if !from_jvm(is_integer)? {
            return integer_of(None, false);
        }
        let value = int_value(env, object);
        assert(asks_int(asked, object, value, *env));
        let value = from_jvm(value)?;
        let pending = jvm::exception_check(env);
        assert(jvm::exception_check_answers(*env, pending));
        integer_of(Some(value), from_jvm(pending)?)
    }

    /// What reading a Java integer takes is at hand.
    pub open spec fn can_read_integers(&self) -> bool {
        &&& self.class_names().contains("java/lang/Integer"@)
        &&& self.method_names().contains(jni_util::method_key("java/lang/Integer"@, "intValue"@))
    }

    /// Walking a Java map takes all the methods for it, and fails with one of these
    /// messages.
    pub open spec fn walks_map<T>(&self, r: Result<T, JniUtilError>) -> bool {
        let has_methods = forall|k: int| 0 <= k < 6 ==> #[trigger] self.has_map_method(k);
        match r {
            Ok(_) => has_methods,
            Err(JniUtilError::Jni(_)) => has_methods,
            Err(JniUtilError::NullPointer(message)) => {
                ||| message@ == "Parameters cannot be null"@
                ||| has_methods && message@ == "String cannot be null"@
            },
            Err(JniUtilError::Runtime(message)) => {
                ||| self.lacks_map_method(message@)
                ||| has_methods && is_map_fault(message@)
            },
        }
    }

    /// The entries of a Java map. Where a key occurs twice the later value counts.
    pub fn convert_java_map_to_rust_map<'local>(
        &self,
        env: &mut JNIEnv<'local>,
        parameters: &JObject<'_>,
    ) -> (r: Result<StringMap<JObject<'local>>, JniUtilError>)
        ensures
            asking::only_asks(*old(env), *final(env)),
            self.walks_map(r),
            ({
                ||| {
                    &&& jvm::is_null_answers(parameters, true)
                    &&& *final(env) == *old(env)
                    &&& r matches Err(JniUtilError::NullPointer(message)) && message@
                        == "Parameters cannot be null"@
                }
                ||| {
                    &&& jvm::is_null_answers(parameters, false)
                    &&& *final(env) == *old(env)
                    &&& r matches Err(JniUtilError::Runtime(message)) && self.lacks_map_method(
                        message@,
                    )
                }
                ||| {
                    &&& jvm::is_null_answers(parameters, false)
                    &&& forall|k: int| 0 <= k < 6 ==> #[trigger] self.has_map_method(k)
                    &&& gives_map(*old(env), parameters, r, *final(env))
                }
            }),
    {
        self.check_map_methods(jvm::is_null(parameters))?;
        proof {
            jvm::lemma_signatures_plain();
        }
        let entry_set = self.call_checked(
            env,
            parameters,
            "entrySet",
            "()Ljava/util/Set;",
            "Unable to call \"entrySet\" method on \"java/util/Map\"",
        );
        assert(gives_entry_set(*old(env), parameters, entry_set, *env));
        let ghost with_set = *env;
        let entry_set = entry_set?;
        let iterator = self.call_checked(
            env,
            &entry_set,
            "iterator",
            "()Ljava/util/Iterator;",
            "Call to \"iterator\" method failed",
        );
        assert(gives_iterator(with_set, &entry_set, iterator, *env));
        let iterator = iterator?;
        let map = self.walk(env, &iterator)?;
        self.has_exception_in_stack_with_message(env, "Could not call \"hasNext\" method")?;
        let first = jvm::delete_local_ref(env, entry_set);
        assert(jvm::delete_local_ref_answers(entry_set, first));
        from_jvm(first)?;
        let second = jvm::delete_local_ref(env, iterator);
        assert(jvm::delete_local_ref_answers(iterator, second));
        from_jvm(second)?;
        Ok(map)
    }

    /// Calls a method that takes nothing and returns an object; the message is said of
    /// an exception that the call leaves pending.
    fn call_checked<'local>(
        &self,
        env: &mut JNIEnv<'local>,
        object: &JObject<'_>,
        name: &str,
        signature: &str,
        message: &str,
    ) -> (r: Result<JObject<'local>, JniUtilError>)
        requires
            jvm::is_plain_signature(signature@),
            asking::is_getter(name@),
        ensures
            asking::only_asks(*old(env), *final(env)),
            calls_checked(*old(env), object, name@, signature@, message@, r, *final(env)),
            errs_only_with(r, message@),
    {
        let object = from_jvm(call_for_object(env, object, name, signature))?;
        self.has_exception_in_stack_with_message(env, message)?;
        Ok(object)
    }

    /// Takes the entries of a Java map from an iterator.
    fn walk<'local>(&self, env: &mut JNIEnv<'local>, iterator: &JObject<'_>) -> (r: Result<
        StringMap<JObject<'local>>,
        JniUtilError,
    >)
        requires
            forall|k: int| 0 <= k < 6 ==> #[trigger] self.has_map_method(k),
        ensures
            asking::only_asks(*old(env), *final(env)),
            self.walks_map(r),
            walks(*old(env), iterator, r, *final(env)),
    {
        let mut entries: Vec<(String, JObject<'local>)> = Vec::new();
        let mut entries_left: u64 = u64::MAX;
        let ghost start = *env;
        let ghost mut passed: Seq<JNIEnv<'local>> = seq![*env];
        while entries_left > 0
            invariant
                asking::only_asks(*old(env), *env),
                forall|k: int| 0 <= k < 6 ==> #[trigger] self.has_map_method(k),
                gave_entries(passed, iterator, entries@),
                passed.first() == start,
                passed.last() == *env,
                start == *old(env),
                entries@.len() == u64::MAX - entries_left,
            decreases entries_left,
        {
            let more = match has_next(env, iterator) {
                Ok(more) => more,
                Err(e) => {
                    assert(tells_more(passed.last(), iterator, Err(e), *env));
                    return Err(JniUtilError::Jni(e));
                },
            };
            if !more {
                assert(tells_more(passed.last(), iterator, Ok(false), *env));
                return Ok(collect_entries(entries));
            }
            assert(tells_more(passed.last(), iterator, Ok(true), *env));
            match self.take_entry(env, iterator) {
                Ok(entry) => {
                    proof {
                        let next = passed.push(*env);
                        assert(gives_next(passed.last(), iterator, Ok(entry), *env));
                        assert(gave_entries(next, iterator, entries@.push(entry)));
                        passed = next;
                    }
                    entries.push(entry);
                },
                Err(e) => {
                    let r = Err(e);
                    assert(gives_next(
                        passed.last(),
                        iterator,
                        Err::<(String, JObject<'local>), JniUtilError>(r->Err_0),
                        *env,
                    ));
                    assert(walks(start, iterator, r, *env));
                    return r;
                },
            }
            entries_left = entries_left - 1;
        }
        Ok(collect_entries(entries))
    }

    /// Takes the next entry of a Java map.
    fn take_entry<'local>(&self, env: &mut JNIEnv<'local>, iterator: &JObject<'_>) -> (r: Result<
        (String, JObject<'local>),
        JniUtilError,
    >)
        requires
            forall|k: int| 0 <= k < 6 ==> #[trigger] self.has_map_method(k),
        ensures
            asking::only_asks(*old(env), *final(env)),
            self.walks_map(r),
            takes_entry(*old(env), iterator, r, *final(env)),
    {
        proof {
            jvm::lemma_signatures_plain();
        }
        let entry = self.call_checked(
            env,
            iterator,
            "next",
            "()Ljava/lang/Object;",
            "Could not call \"next\" method",
        )?;
        let read = self.read_entry(env, &entry)?;
        let deleted = jvm::delete_local_ref(env, entry);
        assert(jvm::delete_local_ref_answers(entry, deleted));
        from_jvm(deleted)?;
        Ok(read)
    }

    fn read_entry<'local>(&self, env: &mut JNIEnv<'local>, entry: &JObject<'_>) -> (r: Result<
        (String, JObject<'local>),
        JniUtilError,
    >)
        requires
            forall|k: int| 0 <= k < 6 ==> #[trigger] self.has_map_method(k),
        ensures
            asking::only_asks(*old(env), *final(env)),
            self.walks_map(r),
            reads_entry(*old(env), entry, r, *final(env)),
    {
        proof {
            jvm::lemma_signatures_plain();
        }
        let key = self.call_checked(
            env,
            entry,
            "getKey",
            "()Ljava/lang/Object;",
            "Could not call \"getKey\" method",
        );
        assert(gives_key(*old(env), entry, key, *env));
        let ghost with_key = *env;
        let key = key?;
        let name = self.convert_java_string_to_rust_string(env, &key);
        assert(reads_text(with_key, &key, name, *env));
        let ghost with_name = *env;
        let name = name?;
        let value = self.call_checked(
            env,
            entry,
            "getValue",
            "()Ljava/lang/Object;",
            "Could not call \"getValue\" method",
        );
        assert(gives_entry_value(with_name, entry, value, *env));
        Ok((name, value?))
    }
}

/// What is said where walking a Java map left an exception pending.
pub open spec fn is_map_fault(message: Seq<char>) -> bool {
    ||| message == "Unable to call \"entrySet\" method on \"java/util/Map\""@
    ||| message == "Call to \"iterator\" method failed"@
    ||| message == "Could not call \"next\" method"@
    ||| message == "Could not call \"getKey\" method"@
    ||| message == "Could not call \"getValue\" method"@
    ||| message == "Could not call \"hasNext\" method"@
}

/// What is said where storing the rows of a Java array fails.
pub open spec fn is_row_fault(message: Seq<char>) -> bool {
    ||| message == "Exception in jni occurred"@
    ||| message == "Unable to get array length"@
    ||| message == "Unable to get object array element"@
    ||| message == "Dimension of vectors is inconsistent"@
}

/// Storing rows fails where there is no array, or with one of the messages above.
pub open spec fn stores_rows<T>(r: Result<T, JniUtilError>) -> bool {
    match r {
        Ok(_) => true,
        Err(JniUtilError::Jni(_)) => true,
        Err(JniUtilError::NullPointer(message)) => message@ == "Array cannot be null"@,
        Err(JniUtilError::Runtime(message)) => is_row_fault(message@),
    }
}

/// The rows of a Java array that were read, and what went wrong behind them.
struct Reading<T> {
    rows: Vec<Vec<T>>,
    fault: Option<JniUtilError>,
}

impl<T> Reading<T> {
    /// What went wrong is a fault that storing rows has.
    spec fn wf(&self) -> bool {
        self.fault matches Some(e) ==> stores_rows(Err::<(), JniUtilError>(e))
    }
}

/// `after` is what storing the rows behind `before` leads to, for some rows of the
/// Java array and some fault.
pub open spec fn stores_some_rows<T>(
    before: Seq<T>,
    dim: i32,
    after: Seq<T>,
    r: Result<(), JniUtilError>,
) -> bool {
    exists|rows: Option<&Vec<Vec<T>>>, fault: Option<JniUtilError>| #[trigger]
        jni_util::reading_stored(before, rows, fault, dim, after, r)
}

/// What asking a Java array for the number of its elements, which may be rows, may
/// come to.
pub open spec fn counts_rows<'local>(
    before: JNIEnv<'local>,
    array_2d: &JObject<'_>,
    message: Seq<char>,
    r: Result<i32, JniUtilError>,
    after: JNIEnv<'local>,
) -> bool {
    exists|count: JniResult<i32>| #[trigger]
        jvm::gets_length_once(before, array_2d, count, after) && answer_checked(
            after,
            count,
            message,
            r,
        )
}

/// What may be found wrong once all rows are read: an exception may be pending.
pub open spec fn ends_reading(env: JNIEnv<'_>, fault: Option<JniUtilError>) -> bool {
    exists|seen: Result<(), JniUtilError>| #[trigger]
        checked(env, (), "Exception in jni occurred"@, seen) && fault == match seen {
            Ok(_) => None,
            Err(e) => Some(e),
        }
}

/// What asking a two-dimensional Java array for a row and its length may come to.
pub open spec fn gives_row<'local>(
    before: JNIEnv<'local>,
    array_2d: &JObject<'_>,
    i: i32,
    r: Result<(JObject<'local>, i32), JniUtilError>,
    after: JNIEnv<'local>,
) -> bool {
    exists|row: JniResult<JObject<'local>>, with_row: JNIEnv<'local>| #[trigger]
        jvm::gets_element_once(before, array_2d, i, row, with_row) && match row {
            Ok(object) => exists|seen: Result<(), JniUtilError>| #[trigger]
                checked(with_row, (), "Unable to get object array element"@, seen) && match seen {
                    Ok(_) => exists|length: JniResult<i32>| #[trigger]
                        jvm::gets_length_once(with_row, &object, length, after) && r
                            == match length {
                            Ok(n) => Ok((object, n)),
                            Err(e) => Err(JniUtilError::Jni(e)),
                        },
                    Err(e) => {
                        &&& r == Err::<(JObject<'local>, i32), JniUtilError>(e)
                        &&& with_row == after
                    },
                },
            Err(e) => {
                &&& r == Err::<(JObject<'local>, i32), JniUtilError>(JniUtilError::Jni(e))
                &&& with_row == after
            },
        }
}

/// What reading a row of a Java `float[][]` may come to. One whose length is not `dim` is
/// an error, and its elements are not read.
pub open spec fn gives_float_row<'local>(
    before: JNIEnv<'local>,
    array_2d: &JObject<'_>,
    i: i32,
    dim: i32,
    r: Result<Vec<u32>, JniUtilError>,
    after: JNIEnv<'local>,
) -> bool {
    exists|row: Result<(JObject<'local>, i32), JniUtilError>| #[trigger]
        gives_row(before, array_2d, i, row, after) && match row {
            Ok((object, length)) => if length == dim {
                exists|numbers: JniResult<Vec<u32>>| #[trigger]
                    jvm::get_float_array_region_answers(&object, element_count(length), numbers)
                        && r == lifted(numbers)
            } else {
                r matches Err(JniUtilError::Runtime(message)) && message@
                    == "Dimension of vectors is inconsistent"@
            },
            Err(e) => r == Err::<Vec<u32>, JniUtilError>(e),
        }
}

/// What reading a row of a Java `byte[][]` may come to. One whose length is not `dim` is
/// an error, and its elements are not read.
pub open spec fn gives_byte_row<'local>(
    before: JNIEnv<'local>,
    array_2d: &JObject<'_>,
    i: i32,
    dim: i32,
    r: Result<Vec<i8>, JniUtilError>,
    after: JNIEnv<'local>,
) -> bool {
    exists|row: Result<(JObject<'local>, i32), JniUtilError>| #[trigger]
        gives_row(before, array_2d, i, row, after) && match row {
            Ok((object, length)) => if length == dim {
                exists|bytes: JniResult<Vec<i8>>| #[trigger]
                    jvm::get_byte_array_region_answers(&object, element_count(length), bytes)
                        && r == lifted(bytes)
            } else {
                r matches Err(JniUtilError::Runtime(message)) && message@
                    == "Dimension of vectors is inconsistent"@
            },
            Err(e) => r == Err::<Vec<i8>, JniUtilError>(e),
        }
}

/// A Java `float[][]` gave these rows one after the other, each from one environment of
/// `passed` to the next.
pub open spec fn gave_float_rows<'local>(
    passed: Seq<JNIEnv<'local>>,
    array_2d: &JObject<'_>,
    dim: i32,
    rows: Seq<Vec<u32>>,
) -> bool {
    &&& passed.len() == rows.len() + 1
    &&& forall|k: int|
        0 <= k < rows.len() ==> gives_float_row(
            passed[k],
            array_2d,
            k as i32,
            dim,
            Ok(#[trigger] rows[k]),
            passed[k + 1],
        )
}

/// What reading `count` rows of a Java `float[][]` may come to: all of them and what is
/// found wrong at the end, or those before the first one that cannot be had or whose
/// length is not `dim`.
pub open spec fn reads_float_rows<'local>(
    before: JNIEnv<'local>,
    array_2d: &JObject<'_>,
    count: i32,
    dim: i32,
    rows: Seq<Vec<u32>>,
    fault: Option<JniUtilError>,
    after: JNIEnv<'local>,
) -> bool {
    exists|passed: Seq<JNIEnv<'local>>|
        {
            &&& #[trigger] gave_float_rows(passed, array_2d, dim, rows)
            &&& passed.first() == before
            &&& {
                ||| {
                    &&& rows.len() == element_count(count)
                    &&& passed.last() == after
                    &&& ends_reading(after, fault)
                }
                ||| {
                    &&& rows.len() < count
                    &&& fault matches Some(e) && gives_float_row(
                        passed.last(),
                        array_2d,
                        rows.len() as i32,
                        dim,
                        Err(e),
                        after,
                    )
                }
            }
        }
}

/// What reading a Java `float[][]` may come to, where `message` is said of an exception
/// that its length leaves pending.
pub open spec fn reads_float_array<'local>(
    before: JNIEnv<'local>,
    array_2d: &JObject<'_>,
    dim: i32,
    message: Seq<char>,
    rows: Seq<Vec<u32>>,
    fault: Option<JniUtilError>,
    after: JNIEnv<'local>,
) -> bool {
    exists|count: Result<i32, JniUtilError>, counted: JNIEnv<'local>| #[trigger]
        counts_rows(before, array_2d, message, count, counted) && match count {
            Ok(n) => reads_float_rows(counted, array_2d, n, dim, rows, fault, after),
            Err(e) => rows.len() == 0 && fault == Some(e) && counted == after,
        }
}

/// `stored` is what storing the rows of a Java `float[][]` behind `kept` may lead to.
pub open spec fn stores_float_array<'local>(
    before: JNIEnv<'local>,
    array_2d: &JObject<'_>,
    dim: i32,
    message: Seq<char>,
    kept: Seq<u32>,
    stored: Seq<u32>,
    r: Result<(), JniUtilError>,
    after: JNIEnv<'local>,
) -> bool {
    ||| {
        &&& jvm::is_null_answers(array_2d, true)
        &&& before == after
        &&& jni_util::reading_stored(kept, None, None, dim, stored, r)
    }
    ||| jvm::is_null_answers(array_2d, false) && exists|
        rows: Vec<Vec<u32>>,
        fault: Option<JniUtilError>,
    | #[trigger]
        reads_float_array(before, array_2d, dim, message, rows@, fault, after)
            && jni_util::reading_stored(kept, Some(&rows), fault, dim, stored, r)
}

/// A Java `byte[][]` gave these rows one after the other, each from one environment of
/// `passed` to the next.
pub open spec fn gave_byte_rows<'local>(
    passed: Seq<JNIEnv<'local>>,
    array_2d: &JObject<'_>,
    dim: i32,
    rows: Seq<Vec<i8>>,
) -> bool {
    &&& passed.len() == rows.len() + 1
    &&& forall|k: int|
        0 <= k < rows.len() ==> gives_byte_row(
            passed[k],
            array_2d,
            k as i32,
            dim,
            Ok(#[trigger] rows[k]),
            passed[k + 1],
        )
}

/// What reading `count` rows of a Java `byte[][]` may come to: all of them and what is
/// found wrong at the end, or those before the first one that cannot be had or whose
/// length is not `dim`.
pub open spec fn reads_byte_rows<'local>(
    before: JNIEnv<'local>,
    array_2d: &JObject<'_>,
    count: i32,
    dim: i32,
    rows: Seq<Vec<i8>>,
    fault: Option<JniUtilError>,
    after: JNIEnv<'local>,
) -> bool {
    exists|passed: Seq<JNIEnv<'local>>|
        {
            &&& #[trigger] gave_byte_rows(passed, array_2d, dim, rows)
            &&& passed.first() == before
            &&& {
                ||| {
                    &&& rows.len() == element_count(count)
                    &&& passed.last() == after
                    &&& ends_reading(after, fault)
                }
                ||| {
                    &&& rows.len() < count
                    &&& fault matches Some(e) && gives_byte_row(
                        passed.last(),
                        array_2d,
                        rows.len() as i32,
                        dim,
                        Err(e),
                        after,
                    )
                }
            }
        }
}

/// What reading a Java `byte[][]` may come to, where `message` is said of an exception
/// that its length leaves pending.
pub open spec fn reads_byte_array<'local>(
    before: JNIEnv<'local>,
    array_2d: &JObject<'_>,
    dim: i32,
    message: Seq<char>,
    rows: Seq<Vec<i8>>,
    fault: Option<JniUtilError>,
    after: JNIEnv<'local>,
) -> bool {
    exists|count: Result<i32, JniUtilError>, counted: JNIEnv<'local>| #[trigger]
        counts_rows(before, array_2d, message, count, counted) && match count {
            Ok(n) => reads_byte_rows(counted, array_2d, n, dim, rows, fault, after),
            Err(e) => rows.len() == 0 && fault == Some(e) && counted == after,
        }
}

/// `stored` is what storing the rows of a Java `byte[][]` behind `kept` may lead to.
pub open spec fn stores_byte_array<'local>(
    before: JNIEnv<'local>,
    array_2d: &JObject<'_>,
    dim: i32,
    message: Seq<char>,
    kept: Seq<i8>,
    stored: Seq<i8>,
    r: Result<(), JniUtilError>,
    after: JNIEnv<'local>,
) -> bool {
    ||| {
        &&& jvm::is_null_answers(array_2d, true)
        &&& before == after
        &&& jni_util::reading_stored(kept, None, None, dim, stored, r)
    }
    ||| jvm::is_null_answers(array_2d, false) && exists|
        rows: Vec<Vec<i8>>,
        fault: Option<JniUtilError>,
    | #[trigger]
        reads_byte_array(before, array_2d, dim, message, rows@, fault, after)
            && jni_util::reading_stored(kept, Some(&rows), fault, dim, stored, r)
}

/// What reading the numbers of a Java `float[][]` one after the other may come to.
pub open spec fn gives_float_vector<'local>(
    before: JNIEnv<'local>,
    array_2d: &JObject<'_>,
    dim: i32,
    r: Result<Vec<u32>, JniUtilError>,
    after: JNIEnv<'local>,
) -> bool {
    exists|stored: Seq<u32>, done: Result<(), JniUtilError>| #[trigger]
        stores_float_array(
            before,
            array_2d,
            dim,
            "Exception in jni occurred"@,
            Seq::empty(),
            stored,
            done,
            after,
        ) && match r {
            Ok(vect) => done is Ok && vect@ == stored,
            Err(e) => done == Err::<(), JniUtilError>(e),
        }
}

/// What asking a two-dimensional Java array for the length of its first row may come
/// to: zero where it has no row.
pub open spec fn gives_first_row_length<'local>(
    before: JNIEnv<'local>,
    array_2d: &JObject<'_>,
    r: Result<i32, JniUtilError>,
    after: JNIEnv<'local>,
) -> bool {
    ||| {
        &&& jvm::is_null_answers(array_2d, true)
        &&& before == after
        &&& r matches Err(JniUtilError::NullPointer(message)) && message@ == "Array cannot be null"@
    }
    ||| {
        &&& jvm::is_null_answers(array_2d, false)
        &&& exists|count: JniResult<i32>, counted: JNIEnv<'local>| #[trigger]
            jvm::gets_length_once(before, array_2d, count, counted) && match count {
                Ok(n) => if n <= 0 {
                    r == Ok::<i32, JniUtilError>(0) && counted == after
                } else {
                    measures_first_row(counted, array_2d, r, after)
                },
                Err(e) => {
                    &&& r == Err::<i32, JniUtilError>(JniUtilError::Jni(e))
                    &&& counted == after
                },
            }
    }
}

/// What asking the first row of a two-dimensional Java array for its length may come
/// to, where there is one.
pub open spec fn measures_first_row<'local>(
    before: JNIEnv<'local>,
    array_2d: &JObject<'_>,
    r: Result<i32, JniUtilError>,
    after: JNIEnv<'local>,
) -> bool {
    exists|row: JniResult<JObject<'local>>, with_row: JNIEnv<'local>| #[trigger]
        jvm::gets_element_once(before, array_2d, 0, row, with_row) && match row {
            Ok(object) => exists|seen: Result<(), JniUtilError>| #[trigger]
                checked(with_row, (), "Exception in jni occurred"@, seen) && match seen {
                    Ok(_) => exists|length: JniResult<i32>| #[trigger]
                        jvm::gets_length_once(with_row, &object, length, after) && answer_checked(
                            after,
                            length,
                            "Exception in jni occurred"@,
                            r,
                        ),
                    Err(e) => r == Err::<i32, JniUtilError>(e) && with_row == after,
                },
            Err(e) => {
                &&& r == Err::<i32, JniUtilError>(JniUtilError::Jni(e))
                &&& with_row == after
            },
        }
}

impl JNIUtil {
    /// How many elements a Java array has; those of a two-dimensional one are its rows.
    fn count_rows(&self, env: &mut JNIEnv<'_>, array_2d: &JObject<'_>, message: &str) -> (r: Result<
        i32,
        JniUtilError,
    >)
        requires
            is_row_fault(message@),
        ensures
            asking::only_asks(*old(env), *final(env)),
            stores_rows(r),
            counts_rows(*old(env), array_2d, message@, r, *final(env)),
    {
        let (count, passage) = jvm::get_array_length_once(env, array_2d);
        assert(jvm::gets_length_once(*old(env), array_2d, count, *env));
        let count = from_jvm(count)?;
        self.has_exception_in_stack_with_message(env, message)?;
        Ok(count)
    }

    /// Row `i` of a two-dimensional Java array, and its length.
    fn get_row<'local>(&self, env: &mut JNIEnv<'local>, array_2d: &JObject<'_>, i: i32) -> (r: Result<
        (JObject<'local>, i32),
        JniUtilError,
    >)
        ensures
            asking::only_asks(*old(env), *final(env)),
            stores_rows(r),
            gives_row(*old(env), array_2d, i, r, *final(env)),
    {
        let (row, passage) = jvm::get_object_array_element_once(env, array_2d, i);
        let ghost with_row = *env;
        assert(jvm::gets_element_once(*old(env), array_2d, i, row, with_row));
        let row = from_jvm(row)?;
        self.has_exception_in_stack_with_message(env, "Unable to get object array element")?;
        let (length, passage) = jvm::get_array_length_once(env, &row);
        assert(jvm::gets_length_once(with_row, &row, length, *env));
        let length = from_jvm(length)?;
        Ok((row, length))
    }

    fn get_float_row(&self, env: &mut JNIEnv<'_>, array_2d: &JObject<'_>, i: i32, dim: i32) -> (r:
        Result<Vec<u32>, JniUtilError>)
        ensures
            asking::only_asks(*old(env), *final(env)),
            stores_rows(r),
            gives_float_row(*old(env), array_2d, i, dim, r, *final(env)),
    {
        let row = self.get_row(env, array_2d, i);
        assert(gives_row(*old(env), array_2d, i, row, *env));
        let (row, length) = row?;
        check_row_length(length, dim)?;
        let numbers = jvm::get_float_array_region(env, &row, buffer_size(length));
        assert(jvm::get_float_array_region_answers(&row, element_count(length), numbers));
        from_jvm(numbers)
    }

    fn get_byte_row(&self, env: &mut JNIEnv<'_>, array_2d: &JObject<'_>, i: i32, dim: i32) -> (r:
        Result<Vec<i8>, JniUtilError>)
        ensures
            asking::only_asks(*old(env), *final(env)),
            stores_rows(r),
            gives_byte_row(*old(env), array_2d, i, dim, r, *final(env)),
    {
        let row = self.get_row(env, array_2d, i);
        assert(gives_row(*old(env), array_2d, i, row, *env));
        let (row, length) = row?;
        check_row_length(length, dim)?;
        let bytes = jvm::get_byte_array_region(env, &row, buffer_size(length));
        assert(jvm::get_byte_array_region_answers(&row, element_count(length), bytes));
        from_jvm(bytes)
    }

    /// What is read at the end: an exception may be pending.
    fn last_fault(&self, env: &mut JNIEnv<'_>) -> (fault: Option<JniUtilError>)
        ensures
            fault matches Some(e) ==> stores_rows(Err::<(), JniUtilError>(e)),
            ends_reading(*old(env), fault),
            *final(env) == *old(env),
    {
        match self.has_exception_in_stack(env) {
            Ok(_) => None,
            Err(e) => Some(e),
        }
    }

    /// The rows of a Java `float[][]`, up to the first one whose length is not `dim`,
    /// as bit patterns.
    fn read_float_rows(&self, env: &mut JNIEnv<'_>, array_2d: &JObject<'_>, dim: i32) -> (reading:
        Reading<u32>)
        ensures
            asking::only_asks(*old(env), *final(env)),
            reading.wf(),
            reads_float_array(
                *old(env),
                array_2d,
                dim,
                "Exception in jni occurred"@,
                reading.rows@,
                reading.fault,
                *final(env),
            ),
    {
        let mut rows: Vec<Vec<u32>> = Vec::new();
        let count = self.count_rows(env, array_2d, "Exception in jni occurred");
        let ghost counted = *env;
        assert(counts_rows(*old(env), array_2d, "Exception in jni occurred"@, count, counted));
        let count = match count {
            Ok(count) => count,
            Err(e) => return Reading { rows, fault: Some(e) },
        };
        let ghost mut passed = seq![counted];
        let mut i: i32 = 0;
        while i < count
            invariant
                asking::only_asks(*old(env), *env),
                counts_rows(*old(env), array_2d, "Exception in jni occurred"@, Ok(count), counted),
                0 <= i <= element_count(count),
                rows@.len() == i,
                gave_float_rows(passed, array_2d, dim, rows@),
                passed.first() == counted,
                passed.last() == *env,
            decreases count - i,
        {
            match self.get_float_row(env, array_2d, i, dim) {
                Ok(row) => {
                    proof {
                        let next = passed.push(*env);
                        assert(gives_float_row(passed.last(), array_2d, i, dim, Ok(row), *env));
                        assert(gave_float_rows(next, array_2d, dim, rows@.push(row)));
                        passed = next;
                    }
                    rows.push(row);
                },
                Err(e) => {
                    let fault = Some(e);
                    assert(gives_float_row(passed.last(), array_2d, i, dim, Err(fault->0), *env));
                    assert(reads_float_rows(counted, array_2d, count, dim, rows@, fault, *env));
                    return Reading { rows, fault };
                },
            }
            i = i + 1;
        }
        let fault = self.last_fault(env);
        assert(reads_float_rows(counted, array_2d, count, dim, rows@, fault, *env));
        Reading { rows, fault }
    }

    /// The rows of a Java `byte[][]`, up to the first one whose length is not `dim`.
    fn read_byte_rows(
        &self,
        env: &mut JNIEnv<'_>,
        array_2d: &JObject<'_>,
        dim: i32,
        message: &str,
    ) -> (reading: Reading<i8>)
        requires
            is_row_fault(message@),
        ensures
            asking::only_asks(*old(env), *final(env)),
            reading.wf(),
            reads_byte_array(
                *old(env),
                array_2d,
                dim,
                message@,
                reading.rows@,
                reading.fault,
                *final(env),
            ),
    {
        let mut rows: Vec<Vec<i8>> = Vec::new();
        let count = self.count_rows(env, array_2d, message);
        let ghost counted = *env;
        assert(counts_rows(*old(env), array_2d, message@, count, counted));
        let count = match count {
            Ok(count) => count,
            Err(e) => return Reading { rows, fault: Some(e) },
        };
        let ghost mut passed = seq![counted];
        let mut i: i32 = 0;
        while i < count
            invariant
                asking::only_asks(*old(env), *env),
                counts_rows(*old(env), array_2d, message@, Ok(count), counted),
                0 <= i <= element_count(count),
                rows@.len() == i,
                gave_byte_rows(passed, array_2d, dim, rows@),
                passed.first() == counted,
                passed.last() == *env,
            decreases count - i,
        {
            match self.get_byte_row(env, array_2d, i, dim) {
                Ok(row) => {
                    proof {
                        let next = passed.push(*env);
                        assert(gives_byte_row(passed.last(), array_2d, i, dim, Ok(row), *env));
                        assert(gave_byte_rows(next, array_2d, dim, rows@.push(row)));
                        passed = next;
                    }
                    rows.push(row);
                },
                Err(e) => {
                    let fault = Some(e);
                    assert(gives_byte_row(passed.last(), array_2d, i, dim, Err(fault->0), *env));
                    assert(reads_byte_rows(counted, array_2d, count, dim, rows@, fault, *env));
                    return Reading { rows, fault };
                },
            }
            i = i + 1;
        }
        let fault = self.last_fault(env);
        assert(reads_byte_rows(counted, array_2d, count, dim, rows@, fault, *env));
        Reading { rows, fault }
    }

    /// The numbers of a Java `float[][]` one after the other, as bit patterns.
    pub fn convert_2d_java_object_array_to_float_vector(
        &self,
        env: &mut JNIEnv<'_>,
        array_2d: &JObject<'_>,
        dim: i32,
    ) -> (r: Result<Vec<u32>, JniUtilError>)
        ensures
            asking::only_asks(*old(env), *final(env)),
            stores_rows(r),
            gives_float_vector(*old(env), array_2d, dim, r, *final(env)),
            r matches Ok(vect) ==> stores_some_rows(Seq::empty(), dim, vect@, Ok(())),
    {
        let mut vect: Vec<u32> = Vec::new();
        let done = self.convert_2d_java_object_array_and_store_to_float_vector(
            env,
            array_2d,
            dim,
            &mut vect,
        );
        done?;
        Ok(vect)
    }

    /// Stores the rows of a Java `float[][]` behind `vect`, as bit patterns. On an
    /// error the rows before the one at fault are stored.
    pub fn convert_2d_java_object_array_and_store_to_float_vector(
        &self,
        env: &mut JNIEnv<'_>,
        array_2d: &JObject<'_>,
        dim: i32,
        vect: &mut Vec<u32>,
    ) -> (r: Result<(), JniUtilError>)
        ensures
            asking::only_asks(*old(env), *final(env)),
            stores_rows(r),
            stores_float_array(
                *old(env),
                array_2d,
                dim,
                "Exception in jni occurred"@,
                old(vect)@,
                final(vect)@,
                r,
                *final(env),
            ),
            stores_some_rows(old(vect)@, dim, final(vect)@, r),
    {
        if jvm::is_null(array_2d) {
            return store_reading(None, None, dim, vect);
        }
        let reading = self.read_float_rows(env, array_2d, dim);
        store_reading(Some(&reading.rows), reading.fault, dim, vect)
    }

    /// Stores the rows of a Java `byte[][]` behind `vect`. On an error the rows
    /// before the one at fault are stored.
    pub fn convert_2d_java_object_array_and_store_to_byte_vector(
        &self,
        env: &mut JNIEnv<'_>,
        array_2d: &JObject<'_>,
        dim: i32,
        vect: &mut Vec<i8>,
    ) -> (r: Result<(), JniUtilError>)
        ensures
            asking::only_asks(*old(env), *final(env)),
            stores_rows(r),
            stores_byte_array(
                *old(env),
                array_2d,
                dim,
                "Unable to get array length"@,
                old(vect)@,
                final(vect)@,
                r,
                *final(env),
            ),
            stores_some_rows(old(vect)@, dim, final(vect)@, r),
    {
        if jvm::is_null(array_2d) {
            return store_reading(None, None, dim, vect);
        }
        let reading = self.read_byte_rows(env, array_2d, dim, "Unable to get array length");
        store_reading(Some(&reading.rows), reading.fault, dim, vect)
    }

    /// Stores the rows of a Java `byte[][]` behind `vect`, each byte taken as a
    /// number from 0 to 255. On an error the rows before the one at fault are
    /// stored.
    pub fn convert_2d_java_object_array_and_store_to_binary_vector(
        &self,
        env: &mut JNIEnv<'_>,
        array_2d: &JObject<'_>,
        dim: i32,
        vect: &mut Vec<u8>,
    ) -> (r: Result<(), JniUtilError>)
        ensures
            asking::only_asks(*old(env), *final(env)),
            stores_rows(r),
            exists|stored: Seq<i8>|
                {
                    &&& stores_byte_array(
                        *old(env),
                        array_2d,
                        dim,
                        "Exception in jni occurred"@,
                        Seq::empty(),
                        stored,
                        r,
                        *final(env),
                    )
                    &&& stores_some_rows(Seq::empty(), dim, stored, r)
                    &&& final(vect)@ == old(vect)@ + #[trigger] jni_util::unsigned_bytes(stored)
                },
    {
        if jvm::is_null(array_2d) {
            return store_unsigned_reading(None, None, dim, vect);
        }
        let reading = self.read_byte_rows(env, array_2d, dim, "Exception in jni occurred");
        store_unsigned_reading(Some(&reading.rows), reading.fault, dim, vect)
    }

    /// The numbers of a Java array of ints in 64 bits.
    pub fn convert_java_int_array_to_i64_vector(&self, env: &mut JNIEnv<'_>, array: &JObject<'_>)
        -> (r: Result<Vec<i64>, JniUtilError>)
        ensures
            asking::only_asks(*old(env), *final(env)),
            reads_array(r),
            gives_wide_numbers(*old(env), array, r, *final(env)),
            r matches Ok(wide) ==> exists|numbers: Seq<i32>|
                wide@ == #[trigger] jni_util::widened(numbers),
    {
        if jvm::is_null(array) {
            return numbers_of(None);
        }
        let length = self.count_rows(env, array, "Unable to get array length");
        assert(counts_rows(*old(env), array, "Unable to get array length"@, length, *env));
        let length = length?;
        let numbers = jvm::get_int_array_region(env, array, buffer_size(length));
        assert(jvm::get_int_array_region_answers(array, element_count(length), numbers));
        let numbers = from_jvm(numbers)?;
        numbers_of(Some(&numbers))
    }

    /// The length of the first row of a Java `float[][]`; zero where it has no row.
    pub fn get_inner_dimension_of_2d_java_float_array(
        &self,
        env: &mut JNIEnv<'_>,
        array_2d: &JObject<'_>,
    ) -> (r: Result<i32, JniUtilError>)
        ensures
            asking::only_asks(*old(env), *final(env)),
            stores_rows(r),
            gives_first_row_length(*old(env), array_2d, r, *final(env)),
    {
        self.first_row_length(env, array_2d)
    }

    /// The length of the first row of a Java `byte[][]`; zero where it has no row.
    pub fn get_inner_dimension_of_2d_java_byte_array(
        &self,
        env: &mut JNIEnv<'_>,
        array_2d: &JObject<'_>,
    ) -> (r: Result<i32, JniUtilError>)
        ensures
            asking::only_asks(*old(env), *final(env)),
            stores_rows(r),
            gives_first_row_length(*old(env), array_2d, r, *final(env)),
    {
        self.first_row_length(env, array_2d)
    }

    fn first_row_length(&self, env: &mut JNIEnv<'_>, array_2d: &JObject<'_>) -> (r: Result<
        i32,
        JniUtilError,
    >)
        ensures
            asking::only_asks(*old(env), *final(env)),
            stores_rows(r),
            gives_first_row_length(*old(env), array_2d, r, *final(env)),
    {
        if jvm::is_null(array_2d) {
            return null_pointer("Array cannot be null");
        }
        let (count, passage) = jvm::get_array_length_once(env, array_2d);
        let ghost counted = *env;
        assert(jvm::gets_length_once(*old(env), array_2d, count, counted));
        if from_jvm(count)? <= 0 {
            return Ok(0);
        }
        let (row, passage) = jvm::get_object_array_element_once(env, array_2d, 0);
        let ghost with_row = *env;
        assert(jvm::gets_element_once(counted, array_2d, 0, row, with_row));
        let row = from_jvm(row)?;
        self.has_exception_in_stack(env)?;
        let (length, passage) = jvm::get_array_length_once(env, &row);
        assert(jvm::gets_length_once(with_row, &row, length, *env));
        let length = from_jvm(length)?;
        self.has_exception_in_stack(env)?;
        Ok(length)
    }
}

/// Reading an array fails where there is none, or where its length cannot be had.
pub open spec fn reads_array<T>(r: Result<T, JniUtilError>) -> bool {
    match r {
        Ok(_) => true,
        Err(JniUtilError::Jni(_)) => true,
        Err(JniUtilError::NullPointer(message)) => message@ == "Array cannot be null"@,
        Err(JniUtilError::Runtime(message)) => message@ == "Unable to get array length"@,
    }
}

/// What reading a Java array of ints in 64 bits may come to.
pub open spec fn gives_wide_numbers<'local>(
    before: JNIEnv<'local>,
    array: &JObject<'_>,
    r: Result<Vec<i64>, JniUtilError>,
    after: JNIEnv<'local>,
) -> bool {
    ||| {
        &&& jvm::is_null_answers(array, true)
        &&& before == after
        &&& r matches Err(JniUtilError::NullPointer(message)) && message@ == "Array cannot be null"@
    }
    ||| jvm::is_null_answers(array, false) && exists|count: Result<i32, JniUtilError>| #[trigger]
        counts_rows(before, array, "Unable to get array length"@, count, after) && match count {
            Ok(n) => exists|numbers: JniResult<Vec<i32>>| #[trigger]
                jvm::get_int_array_region_answers(array, element_count(n), numbers)
                    && match numbers {
                    Ok(narrow) => r matches Ok(wide) && wide@ == jni_util::widened(narrow@),
                    Err(e) => r == Err::<Vec<i64>, JniUtilError>(JniUtilError::Jni(e)),
                },
            Err(e) => r == Err::<Vec<i64>, JniUtilError>(e),
        }
}

/// What making a query result of this class may come to: one object is made. A null
/// reference is an error, whether or not an exception is pending.
pub open spec fn makes_query_result<'local>(
    before: JNIEnv<'local>,
    class: GlobalRef,
    id: i32,
    distance_bits: u32,
    r: Result<JObject<'local>, JniUtilError>,
    after: JNIEnv<'local>,
) -> bool {
    exists|class_object: &JObject<'static>, object: JniResult<JObject<'local>>|
        {
            &&& jvm::as_object_answers(&class, class_object)
            &&& #[trigger] jvm::makes_object_once(
                before,
                class_object,
                "(IF)V"@,
                id,
                distance_bits,
                object,
                after,
            )
            &&& match object {
                Ok(o) => match r {
                    Ok(made) => made == o && jvm::is_null_answers(&o, false),
                    Err(JniUtilError::Runtime(message)) => jvm::is_null_answers(&o, true)
                        && message@ == "Unable to create object"@,
                    Err(JniUtilError::Jni(e)) => jvm::is_null_answers(&o, true)
                        && jvm::exception_check_answers(after, Err(e)),
                    Err(JniUtilError::NullPointer(_)) => false,
                },
                Err(e) => r == Err::<JObject<'local>, JniUtilError>(JniUtilError::Jni(e)),
            }
        }
}

/// What asking a Java array for its length may come to.
pub open spec fn gives_length<'local>(
    before: JNIEnv<'local>,
    array: &JObject<'_>,
    r: Result<i32, JniUtilError>,
    after: JNIEnv<'local>,
) -> bool {
    ||| {
        &&& jvm::is_null_answers(array, true)
        &&& before == after
        &&& r matches Err(JniUtilError::NullPointer(message)) && message@ == "Array cannot be null"@
    }
    ||| {
        &&& jvm::is_null_answers(array, false)
        &&& exists|length: JniResult<i32>| #[trigger]
            jvm::gets_length_once(before, array, length, after) && answer_checked(
                after,
                length,
                "Unable to get array length"@,
                r,
            )
    }
}

impl JNIUtil {
    fn get_length(&self, env: &mut JNIEnv<'_>, array: &JObject<'_>) -> (r: Result<i32, JniUtilError>)
        ensures
            asking::only_asks(*old(env), *final(env)),
            reads_array(r),
            gives_length(*old(env), array, r, *final(env)),
    {
        if jvm::is_null(array) {
            return length_of(None, false);
        }
        let (length, passage) = jvm::get_array_length_once(env, array);
        assert(jvm::gets_length_once(*old(env), array, length, *env));
        let length = from_jvm(length)?;
        let pending = jvm::exception_check(env);
        assert(jvm::exception_check_answers(*env, pending));
        length_of(Some(length), from_jvm(pending)?)
    }

    /// The length of a Java array of objects.
    pub fn get_java_object_array_length(&self, env: &mut JNIEnv<'_>, array: &JObject<'_>) -> (r: Result<
        i32,
        JniUtilError,
    >)
        ensures
            asking::only_asks(*old(env), *final(env)),
            reads_array(r),
            gives_length(*old(env), array, r, *final(env)),
    {
        self.get_length(env, array)
    }

    /// The length of a Java array of ints.
    pub fn get_java_int_array_length(&self, env: &mut JNIEnv<'_>, array: &JObject<'_>) -> (r: Result<
        i32,
        JniUtilError,
    >)
        ensures
            asking::only_asks(*old(env), *final(env)),
            reads_array(r),
            gives_length(*old(env), array, r, *final(env)),
    {
        self.get_length(env, array)
    }

    /// The length of a Java array of longs.
    pub fn get_java_long_array_length(&self, env: &mut JNIEnv<'_>, array: &JObject<'_>) -> (r: Result<
        i32,
        JniUtilError,
    >)
        ensures
            asking::only_asks(*old(env), *final(env)),
            reads_array(r),
            gives_length(*old(env), array, r, *final(env)),
    {
        self.get_length(env, array)
    }

    /// The length of a Java array of bytes.
    pub fn get_java_bytes_array_length(&self, env: &mut JNIEnv<'_>, array: &JObject<'_>) -> (r: Result<
        i32,
        JniUtilError,
    >)
        ensures
            asking::only_asks(*old(env), *final(env)),
            reads_array(r),
            gives_length(*old(env), array, r, *final(env)),
    {
        self.get_length(env, array)
    }

    /// The length of a Java array of floats.
    pub fn get_java_float_array_length(&self, env: &mut JNIEnv<'_>, array: &JObject<'_>) -> (r: Result<
        i32,
        JniUtilError,
    >)
        ensures
            asking::only_asks(*old(env), *final(env)),
            reads_array(r),
            gives_length(*old(env), array, r, *final(env)),
    {
        self.get_length(env, array)
    }

    /// Gives a local reference up.
    pub fn delete_local_ref(&self, env: &mut JNIEnv<'_>, object: JObject<'_>) -> (r: Result<
        (),
        JniUtilError,
    >)
        ensures
            asking::only_asks(*old(env), *final(env)),
            exists|answer: JniResult<()>| #[trigger]
                jvm::delete_local_ref_answers(object, answer) && r == lifted(answer),
    {
        let answer = jvm::delete_local_ref(env, object);
        assert(jvm::delete_local_ref_answers(object, answer));
        from_jvm(answer)
    }

    /// The bytes of a Java array of bytes.
    pub fn get_byte_array_elements(&self, env: &mut JNIEnv<'_>, array: &JObject<'_>) -> (r: Result<
        Vec<i8>,
        JniUtilError,
    >)
        ensures
            asking::only_asks(*old(env), *final(env)),
            exists|answer: JniResult<Vec<i8>>| #[trigger]
                reads_bytes(array, answer) && r == lifted(answer),
    {
        from_jvm(bytes_of(env, array))
    }

    /// The numbers of a Java array of ints.
    pub fn get_int_array_elements(&self, env: &mut JNIEnv<'_>, array: &JObject<'_>) -> (r: Result<
        Vec<i32>,
        JniUtilError,
    >)
        ensures
            asking::only_asks(*old(env), *final(env)),
            exists|answer: JniResult<Vec<i32>>| #[trigger]
                reads_ints(array, answer) && r == lifted(answer),
    {
        from_jvm(ints_of(env, array))
    }

    /// The numbers of a Java array of longs.
    pub fn get_long_array_elements(&self, env: &mut JNIEnv<'_>, array: &JObject<'_>) -> (r: Result<
        Vec<i64>,
        JniUtilError,
    >)
        ensures
            asking::only_asks(*old(env), *final(env)),
            exists|answer: JniResult<Vec<i64>>| #[trigger]
                reads_longs(array, answer) && r == lifted(answer),
    {
        from_jvm(longs_of(env, array))
    }

    /// The bit patterns of the numbers of a Java array of floats.
    pub fn get_float_array_elements(&self, env: &mut JNIEnv<'_>, array: &JObject<'_>) -> (r: Result<
        Vec<u32>,
        JniUtilError,
    >)
        ensures
            asking::only_asks(*old(env), *final(env)),
            exists|answer: JniResult<Vec<u32>>| #[trigger]
                reads_float_bits(array, answer) && r == lifted(answer),
    {
        from_jvm(float_bits_of(env, array))
    }

    /// An element of a Java array of objects.
    pub fn get_object_array_element<'local>(
        &self,
        env: &mut JNIEnv<'local>,
        array: &JObject<'_>,
        index: i32,
    ) -> (r: Result<JObject<'local>, JniUtilError>)
        ensures
            asking::only_asks(*old(env), *final(env)),
            errs_only_with(r, "Unable to get object"@),
            exists|element: JniResult<JObject<'local>>| #[trigger]
                jvm::gets_element_once(
                    *old(env),
                    array,
                    index,
                    element,
                    *final(env),
                ) && answer_checked(
                    *final(env),
                    element,
                    "Unable to get object"@,
                    r,
                ),
    {
        let (element, passage) = jvm::get_object_array_element_once(env, array, index);
        assert(jvm::gets_element_once(*old(env), array, index, element, *env));
        let element = from_jvm(element)?;
        self.has_exception_in_stack_with_message(env, "Unable to get object")?;
        Ok(element)
    }

    /// A query result: an id and a distance, which is given by its bit pattern.
    pub fn new_knn_query_result<'local>(
        &self,
        env: &mut JNIEnv<'local>,
        id: i32,
        distance_bits: u32,
    ) -> (r: Result<JObject<'local>, JniUtilError>)
        ensures
            match r {
                Ok(_) => self.can_make_query_results(),
                Err(JniUtilError::Jni(_)) => self.can_make_query_results(),
                Err(JniUtilError::Runtime(message)) => if self.can_make_query_results() {
                    message@ == "Unable to create object"@
                } else if !self.class_names().contains(
                    "org/opensearch/knn/index/query/KNNQueryResult"@,
                ) {
                    message@ == "Unable to load class \""@
                        + "org/opensearch/knn/index/query/KNNQueryResult"@ + "\""@
                } else {
                    message@ == jni_util::missing_method("<init>"@)
                },
                Err(JniUtilError::NullPointer(_)) => false,
            },
            if self.can_make_query_results() {
                makes_query_result(
                    *old(env),
                    self.cached_classes@["org/opensearch/knn/index/query/KNNQueryResult"@],
                    id,
                    distance_bits,
                    r,
                    *final(env),
                )
            } else {
                *final(env) == *old(env)
            },
    {
        let (class, _) = self.query_result_construction()?;
        let class_object = jvm::as_object(class);
        proof {
            jvm::lemma_signatures_plain();
        }
        let (object, passage) = jvm::new_object_once(
            env,
            class_object,
            "(IF)V",
            id,
            distance_bits,
        );
        assert(jvm::makes_object_once(
            *old(env),
            class_object,
            "(IF)V"@,
            id,
            distance_bits,
            object,
            *env,
        ));
        let object = from_jvm(object)?;
        let null = jvm::is_null(&object);
        if null {
            self.has_exception_in_stack_with_message(env, "Unable to create object")?;
        }
        check_created(null)?;
        Ok(object)
    }

    /// What making a query result takes is at hand.
    pub open spec fn can_make_query_results(&self) -> bool {
        let name = "org/opensearch/knn/index/query/KNNQueryResult"@;
        &&& self.class_names().contains(name)
        &&& self.method_names().contains(jni_util::method_key(name, "<init>"@))
    }

    /// A Java array of `len` objects of a class, all of which are `init`.
    pub fn new_object_array<'local>(
        &self,
        env: &mut JNIEnv<'local>,
        len: i32,
        class: &JObject<'_>,
        init: &JObject<'_>,
    ) -> (r: Result<JObject<'local>, JniUtilError>)
        ensures
            errs_only_with(r, "Unable to allocate object array"@),
            exists|array: JniResult<JObject<'local>>| #[trigger]
                jvm::makes_object_array_once(
                    *old(env),
                    len,
                    class,
                    init,
                    array,
                    *final(env),
                ) && answer_checked(
                    *final(env),
                    array,
                    "Unable to allocate object array"@,
                    r,
                ),
    {
        let (array, passage) = jvm::new_object_array_once(env, len, class, init);
        assert(jvm::makes_object_array_once(*old(env), len, class, init, array, *env));
        let array = from_jvm(array)?;
        self.has_exception_in_stack_with_message(env, "Unable to allocate object array")?;
        Ok(array)
    }

    /// A Java array of `len` bytes.
    pub fn new_byte_array<'local>(&self, env: &mut JNIEnv<'local>, len: i32) -> (r: Result<
        JObject<'local>,
        JniUtilError,
    >)
        ensures
            errs_only_with(r, "Unable to allocate byte array"@),
            exists|array: JniResult<JObject<'local>>| #[trigger]
                jvm::makes_byte_array_once(*old(env), len, array, *final(env)) && answer_checked(
                    *final(env),
                    array,
                    "Unable to allocate byte array"@,
                    r,
                ),
    {
        let (array, passage) = jvm::new_byte_array_once(env, len);
        assert(jvm::makes_byte_array_once(*old(env), len, array, *env));
        let array = from_jvm(array)?;
        self.has_exception_in_stack_with_message(env, "Unable to allocate byte array")?;
        Ok(array)
    }

    /// Sets an element of a Java array of objects.
    pub fn set_object_array_element(
        &self,
        env: &mut JNIEnv<'_>,
        array: &JObject<'_>,
        index: i32,
        val: &JObject<'_>,
    ) -> (r: Result<(), JniUtilError>)
        ensures
            errs_only_with(r, "Unable to set object array element"@),
            exists|answer: JniResult<()>| #[trigger]
                jvm::sets_element_once(
                    *old(env),
                    array,
                    index,
                    val,
                    answer,
                    *final(env),
                ) && answer_checked(
                    *final(env),
                    answer,
                    "Unable to set object array element"@,
                    r,
                ),
    {
        let (answer, passage) = jvm::set_object_array_element_once(env, array, index, val);
        assert(jvm::sets_element_once(*old(env), array, index, val, answer, *env));
        from_jvm(answer)?;
        self.has_exception_in_stack_with_message(env, "Unable to set object array element")
    }

    /// Copies bytes into a Java array, from `start` on.
    pub fn set_byte_array_region(
        &self,
        env: &mut JNIEnv<'_>,
        array: &JObject<'_>,
        start: i32,
        buf: &[i8],
    ) -> (r: Result<(), JniUtilError>)
        ensures
            errs_only_with(r, "Unable to set byte array region"@),
            exists|answer: JniResult<()>| #[trigger]
                jvm::sets_bytes_once(
                    *old(env),
                    array,
                    start,
                    buf@,
                    answer,
                    *final(env),
                ) && answer_checked(
                    *final(env),
                    answer,
                    "Unable to set byte array region"@,
                    r,
                ),
    {
        let (answer, passage) = jvm::set_byte_array_region_once(env, array, start, buf);
        assert(jvm::sets_bytes_once(*old(env), array, start, buf@, answer, *env));
        from_jvm(answer)?;
        self.has_exception_in_stack_with_message(env, "Unable to set byte array region")
    }

    /// A global reference to the class of this name.
    pub fn find_class_from_jni_env(&self, env: &mut JNIEnv<'_>, name: &str) -> (r: Result<
        GlobalRef,
        JniUtilError,
    >)
        ensures
            asking::only_asks(*old(env), *final(env)),
            exists|class: JniResult<JObject<'_>>| #[trigger]
                jvm::find_class_answers(name@, class) && match class {
                    Ok(object) => exists|answer: JniResult<GlobalRef>| #[trigger]
                        jvm::new_global_ref_answers(&object, answer) && r == lifted(answer),
                    Err(e) => r == Err::<GlobalRef, JniUtilError>(JniUtilError::Jni(e)),
                },
    {
        let class = asking::ask_class(env, name);
        assert(jvm::find_class_answers(name@, class));
        let class = from_jvm(class)?;
        let answer = jvm::new_global_ref(env, &class);
        assert(jvm::new_global_ref_answers(&class, answer));
        from_jvm(answer)
    }

    /// The method of a class that has this name and signature.
    pub fn get_method_id(&self, env: &mut JNIEnv<'_>, class: &JObject<'_>, name: &str, sig: &str)
        -> (r: Result<JMethodID, JniUtilError>)
        ensures
            asking::only_asks(*old(env), *final(env)),
            exists|method: JniResult<JMethodID>| #[trigger]
                jvm::get_method_id_answers(class, name@, sig@, method) && r == lifted(method),
    {
        let method = asking::ask_method(env, class, name, sig);
        assert(jvm::get_method_id_answers(class, name@, sig@, method));
        from_jvm(method)
    }

    /// The field of a class that has this name and signature.
    pub fn get_field_id(&self, env: &mut JNIEnv<'_>, class: &JObject<'_>, name: &str, sig: &str)
        -> (r: Result<JFieldID, JniUtilError>)
        ensures
            asking::only_asks(*old(env), *final(env)),
            exists|field: JniResult<JFieldID>| #[trigger]
                jvm::get_field_id_answers(class, name@, sig@, field) && r == lifted(field),
    {
        let field = asking::ask_field(env, class, name, sig);
        assert(jvm::get_field_id_answers(class, name@, sig@, field));
        from_jvm(field)
    }
}

/// A Java map was asked by its method `get` for this key, as a Java string, and gave this object.
pub open spec fn got<'local>(map: &JObject<'_>, key: Seq<char>, object: JObject<'local>) -> bool {
    exists|java_key: JObject<'local>, value: JValueOwned<'local>|
        {
            &&& #[trigger] jvm::new_string_answers(key, Ok(java_key))
            &&& #[trigger] jvm::call_method_answers(
                map,
                "get"@,
                "(Ljava/lang/Object;)Ljava/lang/Object;"@,
                seq![&java_key],
                Ok(value),
            )
            &&& jvm::value_object_answers(value, Ok(object))
        }
}

/// A Java object was asked by its method `intValue` for an int, and gave this number.
pub open spec fn gave_int(object: &JObject<'_>, n: i32) -> bool {
    exists|value: JValueOwned<'_>|
        {
            &&& #[trigger] jvm::call_method_answers(
                object,
                "intValue"@,
                "()I"@,
                Seq::empty(),
                Ok(value),
            )
            &&& jvm::value_int_answers(value, Ok(n))
        }
}

/// A Java map gave an object for this key that is no null reference, and the object gave this
/// number.
pub open spec fn got_int(map: &JObject<'_>, key: Seq<char>, n: i32) -> bool {
    exists|object: JObject<'_>|
        {
            &&& #[trigger] got(map, key, object)
            &&& jvm::is_null_answers(&object, false)
            &&& gave_int(&object, n)
        }
}

/// A Java map gave a string for this key that is no null reference, with this text.
pub open spec fn got_text(map: &JObject<'_>, key: Seq<char>, text: String) -> bool {
    exists|object: JObject<'_>|
        {
            &&& #[trigger] got(map, key, object)
            &&& jvm::is_null_answers(&object, false)
            &&& jvm::get_string_answers(&object, Ok(text))
        }
}

/// What a map is found to have for a key is what its method `get` gave for that key.
pub proof fn lemma_value_is_got<'local>(map: &JObject<'_>, key: Seq<char>, object: JObject<'local>)
    requires
        gives_value(map, key, Ok(object)),
    ensures
        got(map, key, object),
{
    let java_key = choose|java_key: JniResult<JObject<'local>>| #[trigger]
        jvm::new_string_answers(key, java_key) && match java_key {
            Ok(k) => looks_up(map, &k, Ok(object)),
            Err(e) => false,
        };
    let k = java_key->Ok_0;
    let value = choose|value: JniResult<JValueOwned<'local>>| #[trigger]
        jvm::call_method_answers(
            map,
            "get"@,
            "(Ljava/lang/Object;)Ljava/lang/Object;"@,
            seq![&k],
            value,
        ) && match value {
            Ok(v) => jvm::value_object_answers(v, Ok(object)),
            Err(e) => false,
        };
    assert(jvm::new_string_answers(key, Ok(k)));
    assert(jvm::call_method_answers(
        map,
        "get"@,
        "(Ljava/lang/Object;)Ljava/lang/Object;"@,
        seq![&k],
        Ok(value->Ok_0),
    ));
}

/// An object that a map is found to have is what the map gave, and no null reference.
pub proof fn lemma_object_is_got<'local>(map: &JObject<'_>, key: Seq<char>, object: JObject<'local>)
    requires
        gives_object_setting(map, key, Ok(Some(object))),
    ensures
        got(map, key, object),
        jvm::is_null_answers(&object, false),
{
    let java_key = choose|java_key: JniResult<JObject<'local>>| #[trigger]
        jvm::new_string_answers(key, java_key) && match java_key {
            Ok(k) => exists|value: JniResult<JObject<'local>>| #[trigger]
                looks_up(map, &k, value) && match value {
                    Ok(o) => exists|null: bool| #[trigger]
                        jvm::is_null_answers(&o, null) && Ok::<_, jni::errors::Error>(Some(object))
                            == Ok::<_, jni::errors::Error>(
                            if null {
                                None
                            } else {
                                Some(o)
                            },
                        ),
                    Err(_) => false,
                },
            Err(e) => false,
        };
    let k = java_key->Ok_0;
    let value = choose|value: JniResult<JObject<'local>>| #[trigger]
        looks_up(map, &k, value) && match value {
            Ok(o) => exists|null: bool| #[trigger]
                jvm::is_null_answers(&o, null) && Ok::<_, jni::errors::Error>(Some(object)) == Ok::<
                    _,
                    jni::errors::Error,
                >(
                    if null {
                        None
                    } else {
                        Some(o)
                    },
                ),
            Err(_) => false,
        };
    assert(value == Ok::<JObject<'local>, jni::errors::Error>(object));
    assert(gives_value(map, key, Ok(object)));
    lemma_value_is_got(map, key, object);
}

/// A number that a map is found to have is the `intValue` of what the map gave for the key.
pub proof fn lemma_int_is_got(map: &JObject<'_>, key: Seq<char>, n: i32)
    requires
        gives_int_setting(map, key, Ok(Some(n))) || gives_int_or_none(map, key, Some(n)),
    ensures
        got_int(map, key, n),
{
    let object = choose|object: JniResult<Option<JObject<'_>>>| #[trigger]
        gives_object_setting(map, key, object) && match object {
            Ok(Some(number)) => exists|value: JniResult<i32>| #[trigger]
                gives_int(&number, value) && Ok::<_, jni::errors::Error>(Some(n)) == Ok::<
                    _,
                    jni::errors::Error,
                >(
                    match value {
                        Ok(n) => Some(n),
                        Err(_) => None,
                    },
                ),
            _ => false,
        };
    let number = object->Ok_0->Some_0;
    lemma_object_is_got(map, key, number);
    let value = choose|value: JniResult<i32>| #[trigger]
        gives_int(&number, value) && value == Ok::<i32, jni::errors::Error>(n);
    assert(gives_int(&number, Ok(n)));
    let v = choose|v: JniResult<JValueOwned<'_>>| #[trigger]
        calls(&number, "intValue"@, "()I"@, v) && match v {
            Ok(w) => jvm::value_int_answers(w, Ok(n)),
            Err(e) => false,
        };
    assert(jvm::call_method_answers(
        &number,
        "intValue"@,
        "()I"@,
        Seq::empty(),
        Ok(v->Ok_0),
    ));
    assert(gave_int(&number, n));
}

/// A text that a map is found to have is that of the string that the map gave for the key.
pub proof fn lemma_text_is_got(map: &JObject<'_>, key: Seq<char>, text: String)
    requires
        gives_string_setting(map, key, Ok(Some(text))),
    ensures
        got_text(map, key, text),
{
    let value = choose|value: JniResult<JObject<'_>>| #[trigger]
        gives_value(map, key, value) && match value {
            Ok(object) => jvm::is_null_answers(&object, false) && jvm::get_string_answers(
                &object,
                Ok(text),
            ),
            Err(e) => false,
        };
    lemma_value_is_got(map, key, value->Ok_0);
    assert(got(map, key, value->Ok_0));
}

/// What is read of a Java array of bytes is all of it: as many elements as its length says, from its
/// beginning on.
pub proof fn lemma_bytes_are_read_whole(
    env: &mut JNIEnv<'_>,
    array: &JObject<'_>,
    r: JniResult<Vec<i8>>,
)
    requires
        call_ensures(bytes_of, (env, array), r),
    ensures
        r matches Ok(v) ==> exists|n: i32| #[trigger]
            jvm::get_array_length_answers(array, Ok(n)) && jvm::get_byte_array_region_answers(
                array,
                if n < 0 {
                    0
                } else {
                    n as int
                },
                Ok(v),
            ),
        r matches Err(e) ==> {
            ||| jvm::get_array_length_answers(array, Err(e))
            ||| exists|n: i32| #[trigger]
                jvm::get_array_length_answers(array, Ok(n)) && jvm::get_byte_array_region_answers(
                    array,
                    if n < 0 {
                        0
                    } else {
                        n as int
                    },
                    Err(e),
                )
        },
{
    let length = choose|length: JniResult<i32>| #[trigger]
        jvm::get_array_length_answers(array, length) && match length {
            Ok(n) => jvm::get_byte_array_region_answers(array, element_count(n), r),
            Err(e) => r == Err::<Vec<i8>, jni::errors::Error>(e),
        };
    match length {
        Ok(n) => {
            assert(jvm::get_array_length_answers(array, Ok(n)));
        },
        Err(e) => {
            assert(jvm::get_array_length_answers(array, Err(e)));
        },
    }
}

/// What is read of a Java array of ints is all of it: as many elements as its length says, from its
/// beginning on.
pub proof fn lemma_ints_are_read_whole(
    env: &mut JNIEnv<'_>,
    array: &JObject<'_>,
    r: JniResult<Vec<i32>>,
)
    requires
        call_ensures(ints_of, (env, array), r),
    ensures
        r matches Ok(v) ==> exists|n: i32| #[trigger]
            jvm::get_array_length_answers(array, Ok(n)) && jvm::get_int_array_region_answers(
                array,
                if n < 0 {
                    0
                } else {
                    n as int
                },
                Ok(v),
            ),
        r matches Err(e) ==> {
            ||| jvm::get_array_length_answers(array, Err(e))
            ||| exists|n: i32| #[trigger]
                jvm::get_array_length_answers(array, Ok(n)) && jvm::get_int_array_region_answers(
                    array,
                    if n < 0 {
                        0
                    } else {
                        n as int
                    },
                    Err(e),
                )
        },
{
    let length = choose|length: JniResult<i32>| #[trigger]
        jvm::get_array_length_answers(array, length) && match length {
            Ok(n) => jvm::get_int_array_region_answers(array, element_count(n), r),
            Err(e) => r == Err::<Vec<i32>, jni::errors::Error>(e),
        };
    match length {
        Ok(n) => {
            assert(jvm::get_array_length_answers(array, Ok(n)));
        },
        Err(e) => {
            assert(jvm::get_array_length_answers(array, Err(e)));
        },
    }
}

/// What is read of a Java array of longs is all of it: as many elements as its length says, from its
/// beginning on.
pub proof fn lemma_longs_are_read_whole(
    env: &mut JNIEnv<'_>,
    array: &JObject<'_>,
    r: JniResult<Vec<i64>>,
)
    requires
        call_ensures(longs_of, (env, array), r),
    ensures
        r matches Ok(v) ==> exists|n: i32| #[trigger]
            jvm::get_array_length_answers(array, Ok(n)) && jvm::get_long_array_region_answers(
                array,
                if n < 0 {
                    0
                } else {
                    n as int
                },
                Ok(v),
            ),
        r matches Err(e) ==> {
            ||| jvm::get_array_length_answers(array, Err(e))
            ||| exists|n: i32| #[trigger]
                jvm::get_array_length_answers(array, Ok(n)) && jvm::get_long_array_region_answers(
                    array,
                    if n < 0 {
                        0
                    } else {
                        n as int
                    },
                    Err(e),
                )
        },
{
    let length = choose|length: JniResult<i32>| #[trigger]
        jvm::get_array_length_answers(array, length) && match length {
            Ok(n) => jvm::get_long_array_region_answers(array, element_count(n), r),
            Err(e) => r == Err::<Vec<i64>, jni::errors::Error>(e),
        };
    match length {
        Ok(n) => {
            assert(jvm::get_array_length_answers(array, Ok(n)));
        },
        Err(e) => {
            assert(jvm::get_array_length_answers(array, Err(e)));
        },
    }
}

/// What is read of a Java array of floats is all of it: as many elements as its length says, from its
/// beginning on.
pub proof fn lemma_floats_are_read_whole(
    env: &mut JNIEnv<'_>,
    array: &JObject<'_>,
    r: JniResult<Vec<u32>>,
)
    requires
        call_ensures(float_bits_of, (env, array), r),
    ensures
        r matches Ok(v) ==> exists|n: i32| #[trigger]
            jvm::get_array_length_answers(array, Ok(n)) && jvm::get_float_array_region_answers(
                array,
                if n < 0 {
                    0
                } else {
                    n as int
                },
                Ok(v),
            ),
        r matches Err(e) ==> {
            ||| jvm::get_array_length_answers(array, Err(e))
            ||| exists|n: i32| #[trigger]
                jvm::get_array_length_answers(array, Ok(n)) && jvm::get_float_array_region_answers(
                    array,
                    if n < 0 {
                        0
                    } else {
                        n as int
                    },
                    Err(e),
                )
        },
{
    let length = choose|length: JniResult<i32>| #[trigger]
        jvm::get_array_length_answers(array, length) && match length {
            Ok(n) => jvm::get_float_array_region_answers(array, element_count(n), r),
            Err(e) => r == Err::<Vec<u32>, jni::errors::Error>(e),
        };
    match length {
        Ok(n) => {
            assert(jvm::get_array_length_answers(array, Ok(n)));
        },
        Err(e) => {
            assert(jvm::get_array_length_answers(array, Err(e)));
        },
    }
}

/// A Java array was made of these bytes: one of their number, into which they were copied from
/// its beginning on.
pub open spec fn made_of_bytes<'local>(
    before: JNIEnv<'local>,
    bytes: Seq<i8>,
    array: JObject<'local>,
    after: JNIEnv<'local>,
) -> bool {
    exists|made: JNIEnv<'local>|
        {
            &&& #[trigger] jvm::makes_byte_array_once(before, bytes.len() as i32, Ok(array), made)
            &&& jvm::sets_bytes_once(made, &array, 0, bytes, Ok(()), after)
        }
}

/// The Java array that is made of some bytes has room for them and holds them.
pub proof fn lemma_bytes_are_copied<'local>(
    env: &mut JNIEnv<'local>,
    bytes: &[i8],
    array: JniResult<JObject<'local>>,
)
    requires
        call_ensures(byte_array, (env, bytes), array),
    ensures
        array matches Ok(a) ==> made_of_bytes(*old(env), bytes@, a, *final(env)),
{
    if array is Ok {
        lemma_made_of_bytes(*old(env), bytes@, array, *final(env));
    }
}

/// What is written to a stream is a Java array that was made of the bytes, by one call of `write`.
pub proof fn lemma_bytes_are_written<'local>(
    stream_env: &mut JNIEnv<'local>,
    output: &JObject<'_>,
    bytes: &[i8],
    written: JniResult<()>,
)
    requires
        call_ensures(write_to_stream, (stream_env, output, bytes), written),
    ensures
        written is Ok ==> exists|
            a: JObject<'local>,
            filled: JNIEnv<'local>,
            answer: JValueOwned<'local>,
        |
            {
                &&& #[trigger] made_of_bytes(*old(stream_env), bytes@, a, filled)
                &&& #[trigger] jvm::calls_method_once(
                    filled,
                    output,
                    "write"@,
                    "([B)V"@,
                    seq![&a],
                    Ok(answer),
                    *final(stream_env),
                )
            },
{
    if written is Ok {
        let (a, filled) = choose|a: JniResult<JObject<'local>>, filled: JNIEnv<'local>| #[trigger]
            makes_byte_array(*old(stream_env), bytes@, a, filled) && match a {
                Ok(x) => exists|w: JniResult<JValueOwned<'local>>| #[trigger]
                    jvm::calls_method_once(
                        filled,
                        output,
                        "write"@,
                        "([B)V"@,
                        seq![&x],
                        w,
                        *final(stream_env),
                    ) && match w {
                        Ok(_) => written == Ok::<(), jni::errors::Error>(()),
                        Err(e) => written == Err::<(), jni::errors::Error>(e),
                    },
                Err(e) => false,
            };
        lemma_made_of_bytes(*old(stream_env), bytes@, a, filled);
        let x = a->Ok_0;
        let w = choose|w: JniResult<JValueOwned<'local>>| #[trigger]
            jvm::calls_method_once(
                filled,
                output,
                "write"@,
                "([B)V"@,
                seq![&x],
                w,
                *final(stream_env),
            ) && w is Ok;
        assert(made_of_bytes(*old(stream_env), bytes@, x, filled));
        assert(jvm::calls_method_once(
            filled,
            output,
            "write"@,
            "([B)V"@,
            seq![&x],
            Ok(w->Ok_0),
            *final(stream_env),
        ));
    }
}

proof fn lemma_made_of_bytes<'local>(
    before: JNIEnv<'local>,
    bytes: Seq<i8>,
    r: JniResult<JObject<'local>>,
    after: JNIEnv<'local>,
)
    requires
        makes_byte_array(before, bytes, r, after),
        r is Ok,
    ensures
        made_of_bytes(before, bytes, r->Ok_0, after),
{
    let (array, made) = choose|array: JniResult<JObject<'local>>, made: JNIEnv<'local>| #[trigger]
        jvm::makes_byte_array_once(before, bytes.len() as i32, array, made) && match array {
            Ok(a) => exists|copied: JniResult<()>| #[trigger]
                jvm::sets_bytes_once(made, &a, 0, bytes, copied, after) && match copied {
                    Ok(_) => r == Ok::<JObject<'local>, jni::errors::Error>(a),
                    Err(e) => r == Err::<JObject<'local>, jni::errors::Error>(e),
                },
            Err(e) => false,
        };
    let a = array->Ok_0;
    let copied = choose|copied: JniResult<()>| #[trigger]
        jvm::sets_bytes_once(made, &a, 0, bytes, copied, after) && match copied {
            Ok(_) => r == Ok::<JObject<'local>, jni::errors::Error>(a),
            Err(e) => r == Err::<JObject<'local>, jni::errors::Error>(e),
        };
    match copied {
        Ok(done) => {
            assert(done == ());
        },
        Err(_) => {},
    }
    assert(jvm::makes_byte_array_once(before, bytes.len() as i32, Ok(r->Ok_0), made));
}

/// A method of this name, which takes nothing, was called on an object and gave this result.
pub open spec fn object_of<'local>(
    object: &JObject<'_>,
    name: Seq<char>,
    signature: Seq<char>,
    result: JObject<'local>,
) -> bool {
    exists|value: JValueOwned<'local>|
        {
            &&& #[trigger] jvm::call_method_answers(
                object,
                name,
                signature,
                Seq::empty(),
                Ok(value),
            )
            &&& jvm::value_object_answers(value, Ok(result))
        }
}

/// An iterator gave an entry by its method `next`, the key of the entry has this text, and this is
/// the value of the entry.
pub open spec fn entry_given<'local>(
    iterator: &JObject<'_>,
    name: String,
    value: JObject<'local>,
) -> bool {
    exists|entry: JObject<'local>, key: JObject<'local>|
        {
            &&& #[trigger] object_of(iterator, "next"@, "()Ljava/lang/Object;"@, entry)
            &&& #[trigger] object_of(&entry, "getKey"@, "()Ljava/lang/Object;"@, key)
            &&& jvm::get_string_answers(&key, Ok(name))
            &&& object_of(&entry, "getValue"@, "()Ljava/lang/Object;"@, value)
        }
}

/// An iterator was asked by its method `hasNext`, and said that it has no more.
pub open spec fn has_no_more(iterator: &JObject<'_>) -> bool {
    exists|value: JValueOwned<'_>|
        {
            &&& #[trigger] jvm::call_method_answers(
                iterator,
                "hasNext"@,
                "()Z"@,
                Seq::empty(),
                Ok(value),
            )
            &&& jvm::value_bool_answers(value, Ok(false))
        }
}

/// These entries came from an iterator over a Java map, until it had no more, or until there were
/// as many as can be counted.
pub open spec fn entries_of<'local>(
    map_obj: &JObject<'_>,
    entries: Seq<(String, JObject<'local>)>,
) -> bool {
    exists|set: JObject<'local>, iterator: JObject<'local>|
        {
            &&& #[trigger] object_of(map_obj, "entrySet"@, "()Ljava/util/Set;"@, set)
            &&& #[trigger] object_of(&set, "iterator"@, "()Ljava/util/Iterator;"@, iterator)
            &&& forall|k: int|
                0 <= k < entries.len() ==> entry_given(
                    &iterator,
                    (#[trigger] entries[k]).0,
                    entries[k].1,
                )
            &&& has_no_more(&iterator) || entries.len() == u64::MAX
        }
}

/// A map has what the entries of a Java map have: their keys and no others, and for each key the
/// value of the last entry that has it.
pub open spec fn holds_entries_of<'local>(
    map_obj: &JObject<'_>,
    map: Map<Seq<char>, JObject<'local>>,
) -> bool {
    exists|entries: Seq<(String, JObject<'local>)>|
        {
            &&& #[trigger] entries_of(map_obj, entries)
            &&& forall|key: Seq<char>| #[trigger]
                map.dom().contains(key) <==> exists|i: int|
                    0 <= i < entries.len() && (#[trigger] entries[i]).0@ == key
            &&& forall|key: Seq<char>, i: int| #[trigger]
                jni_util::is_last_entry(entries, key, i) ==> map[key] == entries[i].1
        }
}

/// Entries that came from a Java map make a map that has what they have.
pub proof fn lemma_entries_are_held<'local>(
    map_obj: &JObject<'_>,
    entries: Seq<(String, JObject<'local>)>,
)
    requires
        entries_of(map_obj, entries),
    ensures
        holds_entries_of(map_obj, jni_util::collected(entries)),
{
    let map = jni_util::collected(entries);
    assert forall|key: Seq<char>| #[trigger]
        map.dom().contains(key) <==> exists|i: int|
            0 <= i < entries.len() && (#[trigger] entries[i]).0@ == key by {
        jni_util::lemma_collected_by_key(entries, key);
    }
    assert forall|key: Seq<char>, i: int| #[trigger]
        jni_util::is_last_entry(entries, key, i) implies map[key] == entries[i].1 by {
        jni_util::lemma_collected_by_key(entries, key);
    }
}

/// What one call of a method answers is what the method may answer.
pub proof fn lemma_once_answers<'local>(
    before: JNIEnv<'local>,
    object: &JObject<'_>,
    name: Seq<char>,
    signature: Seq<char>,
    value: JniResult<JValueOwned<'local>>,
    after: JNIEnv<'local>,
)
    requires
        calls_once(before, object, name, signature, value, after),
    ensures
        jvm::call_method_answers(object, name, signature, Seq::empty(), value),
{
}

proof fn lemma_checked_object<'local>(
    before: JNIEnv<'local>,
    object: &JObject<'_>,
    name: Seq<char>,
    signature: Seq<char>,
    message: Seq<char>,
    result: JObject<'local>,
    after: JNIEnv<'local>,
)
    requires
        calls_checked(before, object, name, signature, message, Ok(result), after),
    ensures
        object_of(object, name, signature, result),
{
    let answer = choose|answer: JniResult<JObject<'local>>| #[trigger]
        calls_for_object(before, object, name, signature, answer, after) && answer_checked(
            after,
            answer,
            message,
            Ok(result),
        );
    assert(answer == Ok::<JObject<'local>, jni::errors::Error>(result));
    let value = choose|value: JniResult<JValueOwned<'local>>| #[trigger]
        calls_once(before, object, name, signature, value, after) && match value {
            Ok(v) => jvm::value_object_answers(v, answer),
            Err(e) => answer == Err::<JObject<'local>, jni::errors::Error>(e),
        };
    lemma_once_answers(before, object, name, signature, value, after);
    assert(jvm::call_method_answers(object, name, signature, Seq::empty(), Ok(value->Ok_0)));
}

proof fn lemma_entry_given<'local>(
    before: JNIEnv<'local>,
    iterator: &JObject<'_>,
    name: String,
    value: JObject<'local>,
    after: JNIEnv<'local>,
)
    requires
        takes_entry(before, iterator, Ok((name, value)), after),
    ensures
        entry_given(iterator, name, value),
{
    let pair: Result<(String, JObject<'local>), JniUtilError> = Ok((name, value));
    let (entry, with_entry) = choose|
        entry: Result<JObject<'local>, JniUtilError>,
        with_entry: JNIEnv<'local>,
    | #[trigger]
        calls_checked(
            before,
            iterator,
            "next"@,
            "()Ljava/lang/Object;"@,
            "Could not call \"next\" method"@,
            entry,
            with_entry,
        ) && match entry {
            Ok(object) => exists|read: Result<(String, JObject<'local>), JniUtilError>| #[trigger]
                reads_entry(with_entry, &object, read, after) && match read {
                    Ok(p) => exists|deleted: JniResult<()>| #[trigger]
                        jvm::delete_local_ref_answers(object, deleted) && pair == match deleted {
                            Ok(_) => Ok(p),
                            Err(e) => Err(JniUtilError::Jni(e)),
                        },
                    Err(e) => pair == Err::<(String, JObject<'local>), JniUtilError>(e),
                },
            Err(e) => false,
        };
    let object = entry->Ok_0;
    lemma_checked_object(
        before,
        iterator,
        "next"@,
        "()Ljava/lang/Object;"@,
        "Could not call \"next\" method"@,
        object,
        with_entry,
    );
    assert(reads_entry(with_entry, &object, pair, after));
    let (key, with_key) = choose|
        key: Result<JObject<'local>, JniUtilError>,
        with_key: JNIEnv<'local>,
    | #[trigger]
        gives_key(with_entry, &object, key, with_key) && match key {
            Ok(k) => exists|n: Result<String, JniUtilError>, with_name: JNIEnv<'local>| #[trigger]
                reads_text(with_key, &k, n, with_name) && match n {
                    Ok(t) => exists|v: Result<JObject<'local>, JniUtilError>| #[trigger]
                        gives_entry_value(with_name, &object, v, after) && pair == match v {
                            Ok(w) => Ok((t, w)),
                            Err(e) => Err(e),
                        },
                    Err(e) => false,
                },
            Err(e) => false,
        };
    let k = key->Ok_0;
    lemma_checked_object(
        with_entry,
        &object,
        "getKey"@,
        "()Ljava/lang/Object;"@,
        "Could not call \"getKey\" method"@,
        k,
        with_key,
    );
    let (n, with_name) = choose|n: Result<String, JniUtilError>, with_name: JNIEnv<'local>| #[trigger]
        reads_text(with_key, &k, n, with_name) && match n {
            Ok(t) => exists|v: Result<JObject<'local>, JniUtilError>| #[trigger]
                gives_entry_value(with_name, &object, v, after) && pair == match v {
                    Ok(w) => Ok((t, w)),
                    Err(e) => Err(e),
                },
            Err(e) => false,
        };
    assert(gives_entry_value(with_name, &object, Ok(value), after));
    lemma_checked_object(
        with_name,
        &object,
        "getValue"@,
        "()Ljava/lang/Object;"@,
        "Could not call \"getValue\" method"@,
        value,
        after,
    );
    assert(object_of(iterator, "next"@, "()Ljava/lang/Object;"@, object));
    assert(object_of(&object, "getKey"@, "()Ljava/lang/Object;"@, k));
}

/// A Java map is read entry by entry: what comes of it has what the entries have, each key by its
/// text.
pub proof fn lemma_map_is_read<'local>(
    util: &JNIUtil,
    env: &mut JNIEnv<'local>,
    map_obj: &JObject<'_>,
    r: Result<StringMap<JObject<'local>>, JniUtilError>,
)
    requires
        call_ensures(JNIUtil::convert_java_map_to_rust_map, (util, env, map_obj), r),
    ensures
        r matches Ok(map) ==> holds_entries_of(map_obj, map@),
{
    if r is Ok {
        lemma_map_of_walk(*old(env), map_obj, r, *final(env));
    }
}

proof fn lemma_map_of_walk<'local>(
    before: JNIEnv<'local>,
    map_obj: &JObject<'_>,
    r: Result<StringMap<JObject<'local>>, JniUtilError>,
    after: JNIEnv<'local>,
)
    requires
        gives_map(before, map_obj, r, after),
        r is Ok,
    ensures
        holds_entries_of(map_obj, r->Ok_0@),
{
    let (entry_set, with_set) = choose|
        entry_set: Result<JObject<'local>, JniUtilError>,
        with_set: JNIEnv<'local>,
    | #[trigger]
        gives_entry_set(before, map_obj, entry_set, with_set) && match entry_set {
            Ok(set) => exists|
                iterator: Result<JObject<'local>, JniUtilError>,
                with_iterator: JNIEnv<'local>,
            | #[trigger]
                gives_iterator(with_set, &set, iterator, with_iterator) && match iterator {
                    Ok(i) => exists|walked: Result<StringMap<JObject<'local>>, JniUtilError>| #[trigger]
                        walks(with_iterator, &i, walked, after) && ends_walk(
                            after,
                            set,
                            i,
                            walked,
                            r,
                        ),
                    Err(e) => false,
                },
            Err(e) => false,
        };
    let set = entry_set->Ok_0;
    let (iterator, with_iterator) = choose|
        iterator: Result<JObject<'local>, JniUtilError>,
        with_iterator: JNIEnv<'local>,
    | #[trigger]
        gives_iterator(with_set, &set, iterator, with_iterator) && match iterator {
            Ok(i) => exists|walked: Result<StringMap<JObject<'local>>, JniUtilError>| #[trigger]
                walks(with_iterator, &i, walked, after) && ends_walk(after, set, i, walked, r),
            Err(e) => false,
        };
    let i = iterator->Ok_0;
    let walked = choose|walked: Result<StringMap<JObject<'local>>, JniUtilError>| #[trigger]
        walks(with_iterator, &i, walked, after) && ends_walk(after, set, i, walked, r);
    lemma_checked_object(
        before,
        map_obj,
        "entrySet"@,
        "()Ljava/util/Set;"@,
        "Unable to call \"entrySet\" method on \"java/util/Map\""@,
        set,
        with_set,
    );
    lemma_checked_object(
        with_set,
        &set,
        "iterator"@,
        "()Ljava/util/Iterator;"@,
        "Call to \"iterator\" method failed"@,
        i,
        with_iterator,
    );
    assert(walked == r);
    let (passed, entries) = choose|
        passed: Seq<JNIEnv<'local>>,
        entries: Seq<(String, JObject<'local>)>,
    |
        {
            &&& #[trigger] gave_entries(passed, &i, entries)
            &&& passed.first() == with_iterator
            &&& r->Ok_0@ == jni_util::collected(entries)
            &&& {
                ||| tells_more(passed.last(), &i, Ok(false), after)
                ||| entries.len() == u64::MAX && passed.last() == after
            }
        };
    assert forall|k: int| 0 <= k < entries.len() implies entry_given(
        &i,
        (#[trigger] entries[k]).0,
        entries[k].1,
    ) by {
        let asked = choose|asked: JNIEnv<'local>| #[trigger]
            tells_more(passed[k], &i, Ok(true), asked) && takes_entry(
                asked,
                &i,
                Ok(entries[k]),
                passed[k + 1],
            );
        lemma_entry_given(asked, &i, entries[k].0, entries[k].1, passed[k + 1]);
    }
    if tells_more(passed.last(), &i, Ok(false), after) {
        lemma_told_no_more(passed.last(), &i, after);
    }
    assert(object_of(map_obj, "entrySet"@, "()Ljava/util/Set;"@, set));
    assert(object_of(&set, "iterator"@, "()Ljava/util/Iterator;"@, i));
    assert(entries_of(map_obj, entries));
    lemma_entries_are_held(map_obj, entries);
}

proof fn lemma_told_no_more<'local>(
    before: JNIEnv<'local>,
    iterator: &JObject<'_>,
    after: JNIEnv<'local>,
)
    requires
        tells_more(before, iterator, Ok(false), after),
    ensures
        has_no_more(iterator),
{
    let value = choose|value: JniResult<JValueOwned<'local>>| #[trigger]
        calls_once(before, iterator, "hasNext"@, "()Z"@, value, after) && match value {
            Ok(v) => jvm::value_bool_answers(v, Ok(false)),
            Err(e) => false,
        };
    lemma_once_answers(before, iterator, "hasNext"@, "()Z"@, value, after);
    assert(jvm::call_method_answers(
        iterator,
        "hasNext"@,
        "()Z"@,
        Seq::empty(),
        Ok(value->Ok_0),
    ));
}

/// What a call that tells of its failure gave is what the method gave.
pub proof fn lemma_told_object<'local>(
    before: JNIEnv<'local>,
    object: &JObject<'_>,
    name: Seq<char>,
    signature: Seq<char>,
    no_call: Seq<char>,
    no_object: Seq<char>,
    result: JObject<'local>,
    after: JNIEnv<'local>,
)
    requires
        tells_object(
            before,
            object,
            name,
            signature,
            no_call,
            no_object,
            Ok(result),
            after,
        ),
    ensures
        object_of(object, name, signature, result),
{
    let value = choose|value: JniResult<JValueOwned<'local>>| #[trigger]
        calls_once(before, object, name, signature, value, after) && match value {
            Ok(v) => exists|answer: JniResult<JObject<'local>>| #[trigger]
                jvm::value_object_answers(v, answer) && told(answer, no_object, Ok(result)),
            Err(e) => false,
        };
    lemma_once_answers(before, object, name, signature, value, after);
    let v = value->Ok_0;
    let answer = choose|answer: JniResult<JObject<'local>>| #[trigger]
        jvm::value_object_answers(v, answer) && told(answer, no_object, Ok(result));
    assert(answer == Ok::<JObject<'local>, jni::errors::Error>(result));
    assert(jvm::call_method_answers(object, name, signature, Seq::empty(), Ok(v)));
}

/// An iterator that tells that it has no more has said so.
pub proof fn lemma_told_has_no_more<'local>(
    before: JNIEnv<'local>,
    iterator: &JObject<'_>,
    no_call: Seq<char>,
    no_truth: Seq<char>,
    after: JNIEnv<'local>,
)
    requires
        tells_has_next(before, iterator, no_call, no_truth, Ok(false), after),
    ensures
        has_no_more(iterator),
{
    let value = choose|value: JniResult<JValueOwned<'local>>| #[trigger]
        calls_once(before, iterator, "hasNext"@, "()Z"@, value, after) && match value {
            Ok(v) => exists|answer: JniResult<bool>| #[trigger]
                jvm::value_bool_answers(v, answer) && told(answer, no_truth, Ok(false)),
            Err(e) => false,
        };
    lemma_once_answers(before, iterator, "hasNext"@, "()Z"@, value, after);
    let v = value->Ok_0;
    let answer = choose|answer: JniResult<bool>| #[trigger]
        jvm::value_bool_answers(v, answer) && told(answer, no_truth, Ok(false));
    assert(answer == Ok::<bool, jni::errors::Error>(false));
    assert(jvm::call_method_answers(iterator, "hasNext"@, "()Z"@, Seq::empty(), Ok(v)));
}

/// Row `i` of a two-dimensional Java array was asked for, has this length, and is this one.
pub open spec fn is_float_row(array_2d: &JObject<'_>, i: i32, length: i32, row: Vec<u32>) -> bool {
    exists|object: JObject<'_>|
        {
            &&& #[trigger] jvm::get_object_array_element_answers(array_2d, i, Ok(object))
            &&& jvm::get_array_length_answers(&object, Ok(length))
            &&& jvm::get_float_array_region_answers(
                &object,
                if length < 0 {
                    0
                } else {
                    length as int
                },
                Ok(row),
            )
        }
}

/// Row `i` of a two-dimensional Java array was asked for, has this length, and is this one.
pub open spec fn is_byte_row(array_2d: &JObject<'_>, i: i32, length: i32, row: Vec<i8>) -> bool {
    exists|object: JObject<'_>|
        {
            &&& #[trigger] jvm::get_object_array_element_answers(array_2d, i, Ok(object))
            &&& jvm::get_array_length_answers(&object, Ok(length))
            &&& jvm::get_byte_array_region_answers(
                &object,
                if length < 0 {
                    0
                } else {
                    length as int
                },
                Ok(row),
            )
        }
}

/// These are the rows of a Java `float[][]`, all of them and in their order, each of length `dim`.
pub open spec fn are_float_rows(array_2d: &JObject<'_>, dim: i32, rows: Seq<Vec<u32>>) -> bool {
    &&& exists|n: i32| #[trigger]
        jvm::get_array_length_answers(array_2d, Ok(n)) && rows.len() == if n < 0 {
            0
        } else {
            n as int
        }
    &&& forall|k: int|
        0 <= k < rows.len() ==> is_float_row(array_2d, k as i32, dim, #[trigger] rows[k])
}

/// These are the rows of a Java `byte[][]`, all of them and in their order, each of length `dim`.
pub open spec fn are_byte_rows(array_2d: &JObject<'_>, dim: i32, rows: Seq<Vec<i8>>) -> bool {
    &&& exists|n: i32| #[trigger]
        jvm::get_array_length_answers(array_2d, Ok(n)) && rows.len() == if n < 0 {
            0
        } else {
            n as int
        }
    &&& forall|k: int|
        0 <= k < rows.len() ==> is_byte_row(array_2d, k as i32, dim, #[trigger] rows[k])
}

proof fn lemma_counted<'local>(
    before: JNIEnv<'local>,
    array: &JObject<'_>,
    message: Seq<char>,
    n: i32,
    after: JNIEnv<'local>,
)
    requires
        counts_rows(before, array, message, Ok(n), after),
    ensures
        jvm::get_array_length_answers(array, Ok(n)),
{
    let count = choose|count: JniResult<i32>| #[trigger]
        jvm::gets_length_once(before, array, count, after) && answer_checked(
            after,
            count,
            message,
            Ok(n),
        );
    assert(count == Ok::<i32, jni::errors::Error>(n));
}

proof fn lemma_float_row<'local>(
    before: JNIEnv<'local>,
    array_2d: &JObject<'_>,
    i: i32,
    dim: i32,
    row: Vec<u32>,
    after: JNIEnv<'local>,
)
    requires
        gives_float_row(before, array_2d, i, dim, Ok(row), after),
    ensures
        is_float_row(array_2d, i, dim, row),
{
    let got_row = choose|got_row: Result<(JObject<'local>, i32), JniUtilError>| #[trigger]
        gives_row(before, array_2d, i, got_row, after) && match got_row {
            Ok((object, length)) => length == dim && exists|numbers: JniResult<Vec<u32>>| #[trigger]
                jvm::get_float_array_region_answers(&object, element_count(length), numbers)
                    && Ok::<Vec<u32>, JniUtilError>(row) == lifted(numbers),
            Err(e) => false,
        };
    let (object, length) = got_row->Ok_0;
    let numbers = choose|numbers: JniResult<Vec<u32>>| #[trigger]
        jvm::get_float_array_region_answers(&object, element_count(length), numbers) && Ok::<
            Vec<u32>,
            JniUtilError,
        >(row) == lifted(numbers);
    assert(numbers == Ok::<Vec<u32>, jni::errors::Error>(row));
    let (answer, with_row) = choose|answer: JniResult<JObject<'local>>, with_row: JNIEnv<'local>| #[trigger]
        jvm::gets_element_once(before, array_2d, i, answer, with_row) && match answer {
            Ok(o) => exists|seen: Result<(), JniUtilError>| #[trigger]
                checked(with_row, (), "Unable to get object array element"@, seen) && match seen {
                    Ok(_) => exists|len: JniResult<i32>| #[trigger]
                        jvm::gets_length_once(with_row, &o, len, after) && got_row == match len {
                            Ok(n) => Ok::<(JObject<'local>, i32), JniUtilError>((o, n)),
                            Err(e) => Err(JniUtilError::Jni(e)),
                        },
                    Err(e) => false,
                },
            Err(e) => false,
        };
    let o = answer->Ok_0;
    let len = choose|len: JniResult<i32>| #[trigger]
        jvm::gets_length_once(with_row, &o, len, after) && got_row == match len {
            Ok(n) => Ok::<(JObject<'local>, i32), JniUtilError>((o, n)),
            Err(e) => Err(JniUtilError::Jni(e)),
        };
    assert(o == object && len == Ok::<i32, jni::errors::Error>(length));
    assert(jvm::get_object_array_element_answers(array_2d, i, Ok(object)));
}

proof fn lemma_float_rows_stored<'local>(
    before: JNIEnv<'local>,
    array_2d: &JObject<'_>,
    dim: i32,
    message: Seq<char>,
    kept: Seq<u32>,
    stored: Seq<u32>,
    after: JNIEnv<'local>,
)
    requires
        stores_float_array(before, array_2d, dim, message, kept, stored, Ok(()), after),
    ensures
        exists|rows: Seq<Vec<u32>>|
            {
                &&& #[trigger] are_float_rows(array_2d, dim, rows)
                &&& kept.is_prefix_of(stored)
                &&& rows.len() == 0 ==> stored == kept
                &&& rows.len() > 0 ==> jni_util::holds_rows(
                    stored.skip(kept.len() as int),
                    rows,
                    rows.len() as int,
                    dim as int,
                )
            },
{
    let (rows, fault) = choose|rows: Vec<Vec<u32>>, fault: Option<JniUtilError>| #[trigger]
        reads_float_array(before, array_2d, dim, message, rows@, fault, after)
            && jni_util::reading_stored(kept, Some(&rows), fault, dim, stored, Ok(()));
    assert(jni_util::rows_fit(rows@, dim, rows@.len() as int));
    assert(fault is None);
    let (count, counted) = choose|count: Result<i32, JniUtilError>, counted: JNIEnv<'local>| #[trigger]
        counts_rows(before, array_2d, message, count, counted) && match count {
            Ok(n) => reads_float_rows(counted, array_2d, n, dim, rows@, fault, after),
            Err(e) => false,
        };
    let n = count->Ok_0;
    lemma_counted(before, array_2d, message, n, counted);
    let passed = choose|passed: Seq<JNIEnv<'local>>|
        {
            &&& #[trigger] gave_float_rows(passed, array_2d, dim, rows@)
            &&& passed.first() == counted
            &&& {
                ||| {
                    &&& rows@.len() == element_count(n)
                    &&& passed.last() == after
                    &&& ends_reading(after, fault)
                }
                ||| {
                    &&& rows@.len() < n
                    &&& fault matches Some(e) && gives_float_row(
                        passed.last(),
                        array_2d,
                        rows@.len() as i32,
                        dim,
                        Err(e),
                        after,
                    )
                }
            }
        };
    assert(rows@.len() == element_count(n));
    assert forall|k: int| 0 <= k < rows@.len() implies is_float_row(
        array_2d,
        k as i32,
        dim,
        #[trigger] rows@[k],
    ) by {
        lemma_float_row(passed[k], array_2d, k as i32, dim, rows@[k], passed[k + 1]);
    }
    assert(jvm::get_array_length_answers(array_2d, Ok(n)));
    assert(are_float_rows(array_2d, dim, rows@));
    jni_util::lemma_stored_rows_held(kept, rows@, dim, stored);
}

proof fn lemma_byte_row<'local>(
    before: JNIEnv<'local>,
    array_2d: &JObject<'_>,
    i: i32,
    dim: i32,
    row: Vec<i8>,
    after: JNIEnv<'local>,
)
    requires
        gives_byte_row(before, array_2d, i, dim, Ok(row), after),
    ensures
        is_byte_row(array_2d, i, dim, row),
{
    let got_row = choose|got_row: Result<(JObject<'local>, i32), JniUtilError>| #[trigger]
        gives_row(before, array_2d, i, got_row, after) && match got_row {
            Ok((object, length)) => length == dim && exists|bytes: JniResult<Vec<i8>>| #[trigger]
                jvm::get_byte_array_region_answers(&object, element_count(length), bytes)
                    && Ok::<Vec<i8>, JniUtilError>(row) == lifted(bytes),
            Err(e) => false,
        };
    let (object, length) = got_row->Ok_0;
    let bytes = choose|bytes: JniResult<Vec<i8>>| #[trigger]
        jvm::get_byte_array_region_answers(&object, element_count(length), bytes) && Ok::<
            Vec<i8>,
            JniUtilError,
        >(row) == lifted(bytes);
    assert(bytes == Ok::<Vec<i8>, jni::errors::Error>(row));
    let (answer, with_row) = choose|answer: JniResult<JObject<'local>>, with_row: JNIEnv<'local>| #[trigger]
        jvm::gets_element_once(before, array_2d, i, answer, with_row) && match answer {
            Ok(o) => exists|seen: Result<(), JniUtilError>| #[trigger]
                checked(with_row, (), "Unable to get object array element"@, seen) && match seen {
                    Ok(_) => exists|len: JniResult<i32>| #[trigger]
                        jvm::gets_length_once(with_row, &o, len, after) && got_row == match len {
                            Ok(n) => Ok::<(JObject<'local>, i32), JniUtilError>((o, n)),
                            Err(e) => Err(JniUtilError::Jni(e)),
                        },
                    Err(e) => false,
                },
            Err(e) => false,
        };
    let o = answer->Ok_0;
    let len = choose|len: JniResult<i32>| #[trigger]
        jvm::gets_length_once(with_row, &o, len, after) && got_row == match len {
            Ok(n) => Ok::<(JObject<'local>, i32), JniUtilError>((o, n)),
            Err(e) => Err(JniUtilError::Jni(e)),
        };
    assert(o == object && len == Ok::<i32, jni::errors::Error>(length));
    assert(jvm::get_object_array_element_answers(array_2d, i, Ok(object)));
}

proof fn lemma_byte_rows_stored<'local>(
    before: JNIEnv<'local>,
    array_2d: &JObject<'_>,
    dim: i32,
    message: Seq<char>,
    kept: Seq<i8>,
    stored: Seq<i8>,
    after: JNIEnv<'local>,
)
    requires
        stores_byte_array(before, array_2d, dim, message, kept, stored, Ok(()), after),
    ensures
        exists|rows: Seq<Vec<i8>>|
            {
                &&& #[trigger] are_byte_rows(array_2d, dim, rows)
                &&& kept.is_prefix_of(stored)
                &&& rows.len() == 0 ==> stored == kept
                &&& rows.len() > 0 ==> jni_util::holds_rows(
                    stored.skip(kept.len() as int),
                    rows,
                    rows.len() as int,
                    dim as int,
                )
            },
{
    let (rows, fault) = choose|rows: Vec<Vec<i8>>, fault: Option<JniUtilError>| #[trigger]
        reads_byte_array(before, array_2d, dim, message, rows@, fault, after)
            && jni_util::reading_stored(kept, Some(&rows), fault, dim, stored, Ok(()));
    assert(jni_util::rows_fit(rows@, dim, rows@.len() as int));
    assert(fault is None);
    let (count, counted) = choose|count: Result<i32, JniUtilError>, counted: JNIEnv<'local>| #[trigger]
        counts_rows(before, array_2d, message, count, counted) && match count {
            Ok(n) => reads_byte_rows(counted, array_2d, n, dim, rows@, fault, after),
            Err(e) => false,
        };
    let n = count->Ok_0;
    lemma_counted(before, array_2d, message, n, counted);
    let passed = choose|passed: Seq<JNIEnv<'local>>|
        {
            &&& #[trigger] gave_byte_rows(passed, array_2d, dim, rows@)
            &&& passed.first() == counted
            &&& {
                ||| {
                    &&& rows@.len() == element_count(n)
                    &&& passed.last() == after
                    &&& ends_reading(after, fault)
                }
                ||| {
                    &&& rows@.len() < n
                    &&& fault matches Some(e) && gives_byte_row(
                        passed.last(),
                        array_2d,
                        rows@.len() as i32,
                        dim,
                        Err(e),
                        after,
                    )
                }
            }
        };
    assert(rows@.len() == element_count(n));
    assert forall|k: int| 0 <= k < rows@.len() implies is_byte_row(
        array_2d,
        k as i32,
        dim,
        #[trigger] rows@[k],
    ) by {
        lemma_byte_row(passed[k], array_2d, k as i32, dim, rows@[k], passed[k + 1]);
    }
    assert(jvm::get_array_length_answers(array_2d, Ok(n)));
    assert(are_byte_rows(array_2d, dim, rows@));
    jni_util::lemma_stored_rows_held(kept, rows@, dim, stored);
}

/// A Java `float[][]` is stored row after row behind what is stored: all its rows, in their order,
/// each of them whole and of the asked length.
pub proof fn lemma_float_array_is_stored(
    util: &JNIUtil,
    env: &mut JNIEnv<'_>,
    array_2d: &JObject<'_>,
    dim: i32,
    vect: &mut Vec<u32>,
    r: Result<(), JniUtilError>,
)
    requires
        call_ensures(
            JNIUtil::convert_2d_java_object_array_and_store_to_float_vector,
            (util, env, array_2d, dim, vect),
            r,
        ),
        r is Ok,
    ensures
        exists|rows: Seq<Vec<u32>>|
            {
                &&& #[trigger] are_float_rows(array_2d, dim, rows)
                &&& old(vect)@.is_prefix_of(final(vect)@)
                &&& rows.len() == 0 ==> final(vect)@ == old(vect)@
                &&& rows.len() > 0 ==> jni_util::holds_rows(
                    final(vect)@.skip(old(vect)@.len() as int),
                    rows,
                    rows.len() as int,
                    dim as int,
                )
            },
{
    match r {
        Ok(done) => {
            assert(done == ());
        },
        Err(_) => {},
    }
    lemma_float_rows_stored(
        *old(env),
        array_2d,
        dim,
        "Exception in jni occurred"@,
        old(vect)@,
        final(vect)@,
        *final(env),
    );
}

/// A Java `float[][]` that is read is its rows one after the other: all of them, in their order,
/// each of them whole and of the asked length.
pub proof fn lemma_float_array_is_read(
    util: &JNIUtil,
    env: &mut JNIEnv<'_>,
    array_2d: &JObject<'_>,
    dim: i32,
    r: Result<Vec<u32>, JniUtilError>,
)
    requires
        call_ensures(
            JNIUtil::convert_2d_java_object_array_to_float_vector,
            (util, env, array_2d, dim),
            r,
        ),
        r is Ok,
    ensures
        exists|rows: Seq<Vec<u32>>|
            {
                &&& #[trigger] are_float_rows(array_2d, dim, rows)
                &&& rows.len() == 0 ==> r->Ok_0@.len() == 0
                &&& rows.len() > 0 ==> jni_util::holds_rows(
                    r->Ok_0@,
                    rows,
                    rows.len() as int,
                    dim as int,
                )
            },
{
    lemma_float_vector_given(*old(env), array_2d, dim, r, *final(env));
}

/// What reading a Java `float[][]` gives is its rows one after the other: all of them, in their
/// order, each of them whole and of the asked length.
pub proof fn lemma_float_vector_given<'local>(
    before: JNIEnv<'local>,
    array_2d: &JObject<'_>,
    dim: i32,
    r: Result<Vec<u32>, JniUtilError>,
    after: JNIEnv<'local>,
)
    requires
        gives_float_vector(before, array_2d, dim, r, after),
        r is Ok,
    ensures
        exists|rows: Seq<Vec<u32>>|
            {
                &&& #[trigger] are_float_rows(array_2d, dim, rows)
                &&& rows.len() == 0 ==> r->Ok_0@.len() == 0
                &&& rows.len() > 0 ==> jni_util::holds_rows(
                    r->Ok_0@,
                    rows,
                    rows.len() as int,
                    dim as int,
                )
            },
{
    let (stored, done) = choose|stored: Seq<u32>, done: Result<(), JniUtilError>| #[trigger]
        stores_float_array(
            before,
            array_2d,
            dim,
            "Exception in jni occurred"@,
            Seq::empty(),
            stored,
            done,
            after,
        ) && done is Ok && r->Ok_0@ == stored;
    match done {
        Ok(unit) => {
            assert(unit == ());
        },
        Err(_) => {},
    }
    lemma_float_rows_stored(
        before,
        array_2d,
        dim,
        "Exception in jni occurred"@,
        Seq::empty(),
        stored,
        after,
    );
    assert(stored.skip(0) =~= stored);
}

/// A Java `byte[][]` is stored row after row behind what is stored: all its rows, in their order,
/// each of them whole and of the asked length.
pub proof fn lemma_byte_array_is_stored(
    util: &JNIUtil,
    env: &mut JNIEnv<'_>,
    array_2d: &JObject<'_>,
    dim: i32,
    vect: &mut Vec<i8>,
    r: Result<(), JniUtilError>,
)
    requires
        call_ensures(
            JNIUtil::convert_2d_java_object_array_and_store_to_byte_vector,
            (util, env, array_2d, dim, vect),
            r,
        ),
        r is Ok,
    ensures
        exists|rows: Seq<Vec<i8>>|
            {
                &&& #[trigger] are_byte_rows(array_2d, dim, rows)
                &&& old(vect)@.is_prefix_of(final(vect)@)
                &&& rows.len() == 0 ==> final(vect)@ == old(vect)@
                &&& rows.len() > 0 ==> jni_util::holds_rows(
                    final(vect)@.skip(old(vect)@.len() as int),
                    rows,
                    rows.len() as int,
                    dim as int,
                )
            },
{
    match r {
        Ok(done) => {
            assert(done == ());
        },
        Err(_) => {},
    }
    lemma_byte_rows_stored(
        *old(env),
        array_2d,
        dim,
        "Unable to get array length"@,
        old(vect)@,
        final(vect)@,
        *final(env),
    );
}

/// A Java `byte[][]` of binary vectors is stored as `lemma_byte_array_is_stored` says, each byte as
/// the number from 0 to 255 that has its bits.
pub proof fn lemma_binary_array_is_stored(
    util: &JNIUtil,
    env: &mut JNIEnv<'_>,
    array_2d: &JObject<'_>,
    dim: i32,
    vect: &mut Vec<u8>,
    r: Result<(), JniUtilError>,
)
    requires
        call_ensures(
            JNIUtil::convert_2d_java_object_array_and_store_to_binary_vector,
            (util, env, array_2d, dim, vect),
            r,
        ),
        r is Ok,
    ensures
        exists|rows: Seq<Vec<i8>>|
            {
                &&& #[trigger] are_byte_rows(array_2d, dim, rows)
                &&& old(vect)@.is_prefix_of(final(vect)@)
                &&& rows.len() == 0 ==> final(vect)@ == old(vect)@
                &&& rows.len() > 0 ==> jni_util::holds_unsigned_rows(
                    final(vect)@.skip(old(vect)@.len() as int),
                    rows,
                    rows.len() as int,
                    dim as int,
                )
            },
{
    match r {
        Ok(done) => {
            assert(done == ());
        },
        Err(_) => {},
    }
    let stored = choose|stored: Seq<i8>|
        {
            &&& stores_byte_array(
                *old(env),
                array_2d,
                dim,
                "Exception in jni occurred"@,
                Seq::empty(),
                stored,
                r,
                *final(env),
            )
            &&& stores_some_rows(Seq::empty(), dim, stored, r)
            &&& final(vect)@ == old(vect)@ + #[trigger] jni_util::unsigned_bytes(stored)
        };
    lemma_byte_rows_stored(
        *old(env),
        array_2d,
        dim,
        "Exception in jni occurred"@,
        Seq::empty(),
        stored,
        *final(env),
    );
    let rows = choose|rows: Seq<Vec<i8>>|
        {
            &&& #[trigger] are_byte_rows(array_2d, dim, rows)
            &&& rows.len() == 0 ==> stored == Seq::<i8>::empty()
            &&& rows.len() > 0 ==> jni_util::holds_rows(
                stored.skip(0),
                rows,
                rows.len() as int,
                dim as int,
            )
        };
    assert(stored.skip(0) =~= stored);
    assert(final(vect)@.skip(old(vect)@.len() as int) =~= jni_util::unsigned_bytes(stored));
    if rows.len() > 0 {
        assert(is_byte_row(array_2d, 0, dim, rows[0]));
        jni_util::lemma_held_rows_have_width(stored, rows, rows.len() as int, dim as int);
        jni_util::lemma_unsigned_rows_held(stored, rows, rows.len() as int, dim as int);
    } else {
        assert(final(vect)@ =~= old(vect)@);
    }
    assert(are_byte_rows(array_2d, dim, rows));
}

/// The numbers of a Java array of ints are all of them, in their order and unchanged.
pub proof fn lemma_wide_numbers_are_read(
    util: &JNIUtil,
    env: &mut JNIEnv<'_>,
    array: &JObject<'_>,
    r: Result<Vec<i64>, JniUtilError>,
)
    requires
        call_ensures(JNIUtil::convert_java_int_array_to_i64_vector, (util, env, array), r),
        r is Ok,
    ensures
        exists|n: i32, count: int, numbers: Vec<i32>|
            {
                &&& #[trigger] jvm::get_array_length_answers(array, Ok(n))
                &&& count == if n < 0 {
                    0
                } else {
                    n as int
                }
                &&& #[trigger] jvm::get_int_array_region_answers(array, count, Ok(numbers))
                &&& r->Ok_0@.len() == numbers@.len()
                &&& forall|i: int|
                    0 <= i < numbers@.len() ==> #[trigger] r->Ok_0@[i] == numbers@[i] as int
            },
{
    lemma_wide_numbers_given(*old(env), array, r, *final(env));
}

/// What reading a Java `int[]` into wide numbers gives is what the array has.
pub proof fn lemma_wide_numbers_given<'local>(
    before: JNIEnv<'local>,
    array: &JObject<'_>,
    r: Result<Vec<i64>, JniUtilError>,
    after: JNIEnv<'local>,
)
    requires
        gives_wide_numbers(before, array, r, after),
        r is Ok,
    ensures
        exists|n: i32, count: int, numbers: Vec<i32>|
            {
                &&& #[trigger] jvm::get_array_length_answers(array, Ok(n))
                &&& count == if n < 0 {
                    0
                } else {
                    n as int
                }
                &&& #[trigger] jvm::get_int_array_region_answers(array, count, Ok(numbers))
                &&& r->Ok_0@.len() == numbers@.len()
                &&& forall|i: int|
                    0 <= i < numbers@.len() ==> #[trigger] r->Ok_0@[i] == numbers@[i] as int
            },
{
    let count = choose|count: Result<i32, JniUtilError>| #[trigger]
        counts_rows(before, array, "Unable to get array length"@, count, after)
            && match count {
            Ok(n) => exists|numbers: JniResult<Vec<i32>>| #[trigger]
                jvm::get_int_array_region_answers(array, element_count(n), numbers)
                    && match numbers {
                    Ok(narrow) => r matches Ok(wide) && wide@ == jni_util::widened(narrow@),
                    Err(e) => false,
                },
            Err(e) => false,
        };
    let n = count->Ok_0;
    lemma_counted(before, array, "Unable to get array length"@, n, after);
    let numbers = choose|numbers: JniResult<Vec<i32>>| #[trigger]
        jvm::get_int_array_region_answers(array, element_count(n), numbers) && match numbers {
            Ok(narrow) => r matches Ok(wide) && wide@ == jni_util::widened(narrow@),
            Err(e) => false,
        };
    assert(jvm::get_array_length_answers(array, Ok(n)));
    assert(jvm::get_int_array_region_answers(array, element_count(n), Ok(numbers->Ok_0)));
}

/// The value of a Java integer is what its method `intValue` gave, and the object is no null
/// reference and of the class that is kept for integers.
pub proof fn lemma_integer_is_read(
    util: &JNIUtil,
    env: &mut JNIEnv<'_>,
    object: &JObject<'_>,
    r: Result<i32, JniUtilError>,
)
    requires
        call_ensures(JNIUtil::convert_java_object_to_rust_integer, (util, env, object), r),
        r is Ok,
    ensures
        gave_int(object, r->Ok_0),
        jvm::is_null_answers(object, false),
        exists|class: &JObject<'static>|
            {
                &&& jvm::as_object_answers(&util.cached_classes@["java/lang/Integer"@], class)
                &&& #[trigger] jvm::is_instance_of_answers(object, class, Ok(true))
            },
{
    lemma_integer_given(
        *old(env),
        util.cached_classes@["java/lang/Integer"@],
        object,
        r,
        *final(env),
    );
}

proof fn lemma_integer_given<'local>(
    before: JNIEnv<'local>,
    class: GlobalRef,
    object: &JObject<'_>,
    r: Result<i32, JniUtilError>,
    after: JNIEnv<'local>,
)
    requires
        gives_integer(before, class, object, r, after),
        r is Ok,
    ensures
        gave_int(object, r->Ok_0),
        exists|class_object: &JObject<'static>|
            {
                &&& jvm::as_object_answers(&class, class_object)
                &&& #[trigger] jvm::is_instance_of_answers(object, class_object, Ok(true))
            },
{
    let (class_object, is_integer, asked) = choose|
        class_object: &JObject<'static>,
        is_integer: JniResult<bool>,
        asked: JNIEnv<'local>,
    |
        {
            &&& jvm::as_object_answers(&class, class_object)
            &&& #[trigger] jvm::asks_instance_once(before, object, class_object, is_integer, asked)
            &&& match is_integer {
                Ok(true) => exists|value: JniResult<i32>| #[trigger]
                    asks_int(asked, object, value, after) && answer_checked(
                        after,
                        value,
                        "Could not call \"intValue\" method on Integer"@,
                        r,
                    ),
                _ => false,
            }
        };
    assert(jvm::is_instance_of_answers(object, class_object, Ok(true)));
    let value = choose|value: JniResult<i32>| #[trigger]
        asks_int(asked, object, value, after) && answer_checked(
            after,
            value,
            "Could not call \"intValue\" method on Integer"@,
            r,
        );
    assert(value == Ok::<i32, jni::errors::Error>(r->Ok_0));
    let answer = choose|answer: JniResult<JValueOwned<'local>>| #[trigger]
        calls_once(asked, object, "intValue"@, "()I"@, answer, after) && match answer {
            Ok(v) => jvm::value_int_answers(v, value),
            Err(e) => value == Err::<i32, jni::errors::Error>(e),
        };
    lemma_once_answers(asked, object, "intValue"@, "()I"@, answer, after);
    assert(jvm::call_method_answers(
        object,
        "intValue"@,
        "()I"@,
        Seq::empty(),
        Ok(answer->Ok_0),
    ));
}

/// The text of a Java string is what the string holds, and the string is no null reference; a
/// quantization level is the one that this text names.
pub proof fn lemma_text_is_read(
    util: &JNIUtil,
    env: &mut JNIEnv<'_>,
    java_string: &JObject<'_>,
    r: Result<String, JniUtilError>,
    other_env: &mut JNIEnv<'_>,
    level: Result<BQQuantizationLevel, JniUtilError>,
)
    requires
        call_ensures(JNIUtil::convert_java_string_to_rust_string, (util, env, java_string), r),
        call_ensures(
            JNIUtil::convert_java_string_to_quantization_level,
            (util, other_env, java_string),
            level,
        ),
    ensures
        r matches Ok(text) ==> {
            &&& jvm::is_null_answers(java_string, false)
            &&& jvm::get_string_answers(java_string, Ok(text))
        },
        level matches Ok(l) ==> exists|text: String| #[trigger]
            jvm::get_string_answers(java_string, Ok(text)) && {
                &&& l is OneBit ==> text@ == "ScalarQuantizationParams_1"@
                &&& l is TwoBit ==> text@ == "ScalarQuantizationParams_2"@
                &&& l is FourBit ==> text@ == "ScalarQuantizationParams_4"@
                &&& !(l is Unquantized)
            },
{
    if let Ok(l) = level {
        let text = choose|text: String| #[trigger]
            gives_text(java_string, Ok(text)) && jni_util::quantization_level(text@) == Some(l);
        assert(jvm::get_string_answers(java_string, Ok(text)));
    }
}

/// The length of a Java array is what the array says, and that of the first row what the first row
/// says; it is zero where there is no row.
pub proof fn lemma_lengths_are_read(
    util: &JNIUtil,
    env: &mut JNIEnv<'_>,
    array: &JObject<'_>,
    length: Result<i32, JniUtilError>,
    row_env: &mut JNIEnv<'_>,
    row_length: Result<i32, JniUtilError>,
)
    requires
        call_ensures(JNIUtil::get_java_object_array_length, (util, env, array), length),
        call_ensures(
            JNIUtil::get_inner_dimension_of_2d_java_float_array,
            (util, row_env, array),
            row_length,
        ),
    ensures
        length matches Ok(n) ==> jvm::get_array_length_answers(array, Ok(n)),
        row_length matches Ok(n) ==> {
            ||| n == 0 && exists|count: i32| #[trigger]
                jvm::get_array_length_answers(array, Ok(count)) && count <= 0
            ||| exists|row: JObject<'_>| #[trigger]
                jvm::get_object_array_element_answers(array, 0, Ok(row))
                    && jvm::get_array_length_answers(&row, Ok(n))
        },
{
    if let Ok(n) = length {
        lemma_length_given(*old(env), array, length, *final(env));
    }
    if let Ok(n) = row_length {
        lemma_first_row_given(*old(row_env), array, row_length, *final(row_env));
    }
}

proof fn lemma_length_given<'local>(
    before: JNIEnv<'local>,
    array: &JObject<'_>,
    r: Result<i32, JniUtilError>,
    after: JNIEnv<'local>,
)
    requires
        gives_length(before, array, r, after),
        r is Ok,
    ensures
        jvm::get_array_length_answers(array, Ok(r->Ok_0)),
{
    let length = choose|length: JniResult<i32>| #[trigger]
        jvm::gets_length_once(before, array, length, after) && answer_checked(
            after,
            length,
            "Unable to get array length"@,
            r,
        );
    assert(length == Ok::<i32, jni::errors::Error>(r->Ok_0));
}

/// The length of the first row is what that row has, and zero where there are no rows.
pub proof fn lemma_first_row_given<'local>(
    before: JNIEnv<'local>,
    array: &JObject<'_>,
    r: Result<i32, JniUtilError>,
    after: JNIEnv<'local>,
)
    requires
        gives_first_row_length(before, array, r, after),
        r is Ok,
    ensures
        ({
            ||| r->Ok_0 == 0 && exists|count: i32| #[trigger]
                jvm::get_array_length_answers(array, Ok(count)) && count <= 0
            ||| exists|row: JObject<'_>| #[trigger]
                jvm::get_object_array_element_answers(array, 0, Ok(row))
                    && jvm::get_array_length_answers(&row, Ok(r->Ok_0))
        }),
{
    let (count, counted) = choose|count: JniResult<i32>, counted: JNIEnv<'local>| #[trigger]
        jvm::gets_length_once(before, array, count, counted) && match count {
            Ok(n) => if n <= 0 {
                r == Ok::<i32, JniUtilError>(0) && counted == after
            } else {
                measures_first_row(counted, array, r, after)
            },
            Err(e) => false,
        };
    let n = count->Ok_0;
    assert(jvm::get_array_length_answers(array, Ok(n)));
    if n > 0 {
        let (row, with_row) = choose|row: JniResult<JObject<'local>>, with_row: JNIEnv<'local>| #[trigger]
            jvm::gets_element_once(counted, array, 0, row, with_row) && match row {
                Ok(object) => exists|seen: Result<(), JniUtilError>| #[trigger]
                    checked(with_row, (), "Exception in jni occurred"@, seen) && match seen {
                        Ok(_) => exists|length: JniResult<i32>| #[trigger]
                            jvm::gets_length_once(with_row, &object, length, after)
                                && answer_checked(
                                after,
                                length,
                                "Exception in jni occurred"@,
                                r,
                            ),
                        Err(e) => false,
                    },
                Err(e) => false,
            };
        let object = row->Ok_0;
        let length = choose|length: JniResult<i32>| #[trigger]
            jvm::gets_length_once(with_row, &object, length, after) && answer_checked(
                after,
                length,
                "Exception in jni occurred"@,
                r,
            );
        assert(length == Ok::<i32, jni::errors::Error>(r->Ok_0));
        assert(jvm::get_object_array_element_answers(array, 0, Ok(object)));
    }
}

/// An element that is read is the one at the asked place, and one that is set is set there, to what
/// was asked; bytes are copied to where it was asked.
pub proof fn lemma_elements_have_places<'local>(
    util: &JNIUtil,
    array: &JObject<'_>,
    index: i32,
    get_env: &mut JNIEnv<'local>,
    element: Result<JObject<'local>, JniUtilError>,
    val: &JObject<'_>,
    set_env: &mut JNIEnv<'_>,
    set: Result<(), JniUtilError>,
    bytes: &[i8],
    copy_env: &mut JNIEnv<'_>,
    copied: Result<(), JniUtilError>,
)
    requires
        call_ensures(JNIUtil::get_object_array_element, (util, get_env, array, index), element),
        call_ensures(JNIUtil::set_object_array_element, (util, set_env, array, index, val), set),
        call_ensures(JNIUtil::set_byte_array_region, (util, copy_env, array, index, bytes), copied),
    ensures
        element matches Ok(object) ==> jvm::get_object_array_element_answers(
            array,
            index,
            Ok(object),
        ),
        set is Ok ==> jvm::set_object_array_element_answers(array, index, val, Ok(())),
        copied is Ok ==> jvm::set_byte_array_region_answers(array, index, bytes@, Ok(())),
{
    if let Ok(object) = element {
        let answer = choose|answer: JniResult<JObject<'local>>| #[trigger]
            jvm::gets_element_once(*old(get_env), array, index, answer, *final(get_env))
                && answer_checked(*final(get_env), answer, "Unable to get object"@, element);
        assert(answer == Ok::<JObject<'local>, jni::errors::Error>(object));
    }
    if set is Ok {
        let answer = choose|answer: JniResult<()>| #[trigger]
            jvm::sets_element_once(*old(set_env), array, index, val, answer, *final(set_env))
                && answer_checked(
                *final(set_env),
                answer,
                "Unable to set object array element"@,
                set,
            );
        match answer {
            Ok(done) => {
                assert(done == ());
            },
            Err(_) => {},
        }
    }
    if copied is Ok {
        let answer = choose|answer: JniResult<()>| #[trigger]
            jvm::sets_bytes_once(*old(copy_env), array, index, bytes@, answer, *final(copy_env))
                && answer_checked(
                *final(copy_env),
                answer,
                "Unable to set byte array region"@,
                copied,
            );
        match answer {
            Ok(done) => {
                assert(done == ());
            },
            Err(_) => {},
        }
    }
}

/// A query result is made of its id and its distance, which is a bit pattern, as an object of the
/// class that is kept for query results, and is no null reference.
pub proof fn lemma_query_result_is_made<'local>(
    util: &JNIUtil,
    env: &mut JNIEnv<'local>,
    id: i32,
    distance_bits: u32,
    r: Result<JObject<'local>, JniUtilError>,
)
    requires
        call_ensures(JNIUtil::new_knn_query_result, (util, env, id, distance_bits), r),
        r is Ok,
    ensures
        jvm::is_null_answers(&r->Ok_0, false),
        exists|class: &JObject<'static>|
            {
                &&& jvm::as_object_answers(
                    &util.cached_classes@["org/opensearch/knn/index/query/KNNQueryResult"@],
                    class,
                )
                &&& #[trigger] jvm::makes_object_once(
                    *old(env),
                    class,
                    "(IF)V"@,
                    id,
                    distance_bits,
                    Ok(r->Ok_0),
                    *final(env),
                )
            },
{
    lemma_query_result_given(
        *old(env),
        util.cached_classes@["org/opensearch/knn/index/query/KNNQueryResult"@],
        id,
        distance_bits,
        r,
        *final(env),
    );
}

proof fn lemma_query_result_given<'local>(
    before: JNIEnv<'local>,
    class: GlobalRef,
    id: i32,
    distance_bits: u32,
    r: Result<JObject<'local>, JniUtilError>,
    after: JNIEnv<'local>,
)
    requires
        makes_query_result(before, class, id, distance_bits, r, after),
        r is Ok,
    ensures
        jvm::is_null_answers(&r->Ok_0, false),
        exists|class_object: &JObject<'static>|
            {
                &&& jvm::as_object_answers(&class, class_object)
                &&& #[trigger] jvm::makes_object_once(
                    before,
                    class_object,
                    "(IF)V"@,
                    id,
                    distance_bits,
                    Ok(r->Ok_0),
                    after,
                )
            },
{
    let (class_object, object) = choose|
        class_object: &JObject<'static>,
        object: JniResult<JObject<'local>>,
    |
        {
            &&& jvm::as_object_answers(&class, class_object)
            &&& #[trigger] jvm::makes_object_once(
                before,
                class_object,
                "(IF)V"@,
                id,
                distance_bits,
                object,
                after,
            )
            &&& match object {
                Ok(o) => r->Ok_0 == o && jvm::is_null_answers(&o, false),
                Err(e) => false,
            }
        };
    assert(jvm::makes_object_once(
        before,
        class_object,
        "(IF)V"@,
        id,
        distance_bits,
        Ok(r->Ok_0),
        after,
    ));
}

/// A Java map was asked by its method `get` for this key, and gave no object: the key could not be
/// made, the map could not be asked, or what it gave is a null reference or no object.
pub open spec fn got_nothing(map: &JObject<'_>, key: Seq<char>) -> bool {
    exists|java_key: JniResult<JObject<'_>>| #[trigger]
        jvm::new_string_answers(key, java_key) && match java_key {
            Ok(k) => refused(map, &k),
            Err(_) => true,
        }
}

/// A Java map was asked for this Java string, and gave no object.
pub open spec fn refused(map: &JObject<'_>, key: &JObject<'_>) -> bool {
    exists|value: JniResult<JValueOwned<'_>>| #[trigger]
        jvm::call_method_answers(
            map,
            "get"@,
            "(Ljava/lang/Object;)Ljava/lang/Object;"@,
            seq![key],
            value,
        ) && match value {
            Ok(v) => exists|object: JniResult<JObject<'_>>| #[trigger]
                jvm::value_object_answers(v, object) && match object {
                    Ok(o) => jvm::is_null_answers(&o, true),
                    Err(_) => true,
                },
            Err(_) => true,
        }
}

/// A Java object was asked by its method `intValue` for an int, and gave none.
pub open spec fn gave_no_int(object: &JObject<'_>) -> bool {
    exists|value: JniResult<JValueOwned<'_>>| #[trigger]
        jvm::call_method_answers(object, "intValue"@, "()I"@, Seq::empty(), value) && match value {
            Ok(v) => exists|answer: JniResult<i32>| #[trigger]
                jvm::value_int_answers(v, answer) && answer is Err,
            Err(_) => true,
        }
}

/// A Java map gave no object for this key, or one that gave no int.
pub open spec fn got_no_int(map: &JObject<'_>, key: Seq<char>) -> bool {
    ||| got_nothing(map, key)
    ||| exists|object: JObject<'_>| #[trigger] got(map, key, object) && gave_no_int(&object)
}

/// A Java map gave no object for this key, or one that is no string that can be read.
pub open spec fn got_no_text(map: &JObject<'_>, key: Seq<char>) -> bool {
    ||| got_nothing(map, key)
    ||| exists|object: JObject<'_>, e: jni::errors::Error| #[trigger]
        got(map, key, object) && #[trigger] jvm::get_string_answers(&object, Err(e))
}

/// A value that a map is not found to have is one that the map did not give.
pub proof fn lemma_no_value_is_got<'local>(
    map: &JObject<'_>,
    key: Seq<char>,
    r: JniResult<JObject<'local>>,
)
    requires
        gives_value(map, key, r),
        match r {
            Ok(object) => jvm::is_null_answers(&object, true),
            Err(_) => true,
        },
    ensures
        got_nothing(map, key),
{
    let java_key = choose|java_key: JniResult<JObject<'local>>| #[trigger]
        jvm::new_string_answers(key, java_key) && match java_key {
            Ok(k) => looks_up(map, &k, r),
            Err(e) => r == Err::<JObject<'local>, jni::errors::Error>(e),
        };
    if let Ok(k) = java_key {
        lemma_refused(map, &k, r);
    }
}

proof fn lemma_refused<'local>(map: &JObject<'_>, key: &JObject<'_>, r: JniResult<JObject<'local>>)
    requires
        looks_up(map, key, r),
        match r {
            Ok(object) => jvm::is_null_answers(&object, true),
            Err(_) => true,
        },
    ensures
        refused(map, key),
{
    let value = choose|value: JniResult<JValueOwned<'local>>| #[trigger]
        jvm::call_method_answers(
            map,
            "get"@,
            "(Ljava/lang/Object;)Ljava/lang/Object;"@,
            seq![key],
            value,
        ) && match value {
            Ok(v) => jvm::value_object_answers(v, r),
            Err(e) => r == Err::<JObject<'local>, jni::errors::Error>(e),
        };
    assert(jvm::call_method_answers(
        map,
        "get"@,
        "(Ljava/lang/Object;)Ljava/lang/Object;"@,
        seq![key],
        value,
    ));
}

/// An object that a map is not found to have is one that the map did not give.
pub proof fn lemma_no_object_is_got<'local>(
    map: &JObject<'_>,
    key: Seq<char>,
    r: JniResult<Option<JObject<'local>>>,
)
    requires
        gives_object_setting(map, key, r),
        !(r matches Ok(Some(_))),
    ensures
        got_nothing(map, key),
{
    let java_key = choose|java_key: JniResult<JObject<'local>>| #[trigger]
        jvm::new_string_answers(key, java_key) && match java_key {
            Ok(k) => exists|value: JniResult<JObject<'local>>| #[trigger]
                looks_up(map, &k, value) && match value {
                    Ok(o) => jvm::is_null_answers(&o, true),
                    Err(_) => true,
                },
            Err(_) => true,
        };
    if let Ok(k) = java_key {
        let value = choose|value: JniResult<JObject<'local>>| #[trigger]
            looks_up(map, &k, value) && match value {
                Ok(o) => jvm::is_null_answers(&o, true),
                Err(_) => true,
            };
        lemma_refused(map, &k, value);
    }
}

/// A number that a map is not found to have is one that the map did not give, or that the object
/// which it gave did not.
pub proof fn lemma_no_int_is_got(map: &JObject<'_>, key: Seq<char>, r: JniResult<Option<i32>>)
    requires
        gives_int_setting(map, key, r),
        !(r matches Ok(Some(_))),
    ensures
        got_no_int(map, key),
{
    let object = choose|object: JniResult<Option<JObject<'_>>>| #[trigger]
        gives_object_setting(map, key, object) && match object {
            Ok(Some(number)) => exists|value: JniResult<i32>| #[trigger]
                gives_int(&number, value) && value is Err,
            _ => true,
        };
    match object {
        Ok(Some(number)) => {
            lemma_object_is_got(map, key, number);
            let value = choose|value: JniResult<i32>| #[trigger]
                gives_int(&number, value) && value is Err;
            lemma_no_int_is_given(&number, value);
            assert(got(map, key, number) && gave_no_int(&number));
        },
        _ => {
            lemma_no_object_is_got(map, key, object);
        },
    }
}

proof fn lemma_no_int_is_given(object: &JObject<'_>, r: JniResult<i32>)
    requires
        gives_int(object, r),
        r is Err,
    ensures
        gave_no_int(object),
{
    let value = choose|value: JniResult<JValueOwned<'_>>| #[trigger]
        calls(object, "intValue"@, "()I"@, value) && match value {
            Ok(v) => jvm::value_int_answers(v, r),
            Err(_) => true,
        };
    assert(jvm::call_method_answers(object, "intValue"@, "()I"@, Seq::empty(), value));
}

/// A number that a map is found without is one that the map did not give, or that the object which
/// it gave did not.
pub proof fn lemma_none_is_got(map: &JObject<'_>, key: Seq<char>)
    requires
        gives_int_or_none(map, key, None),
    ensures
        got_no_int(map, key),
{
    let answer = choose|answer: JniResult<Option<i32>>| #[trigger]
        gives_int_setting(map, key, answer) && match answer {
            Ok(value) => value is None,
            Err(_) => true,
        };
    lemma_no_int_is_got(map, key, answer);
}

/// A text that a map is not found to have is one that the map did not give, or that could not be
/// read.
pub proof fn lemma_no_text_is_got(map: &JObject<'_>, key: Seq<char>, r: JniResult<Option<String>>)
    requires
        gives_string_setting(map, key, r),
        !(r matches Ok(Some(_))),
    ensures
        got_no_text(map, key),
{
    let value = choose|value: JniResult<JObject<'_>>| #[trigger]
        gives_value(map, key, value) && match value {
            Ok(object) => {
                ||| jvm::is_null_answers(&object, true)
                ||| r is Err && jvm::get_string_answers(&object, Err(r->Err_0))
            },
            Err(e) => true,
        };
    match value {
        Ok(object) => {
            lemma_value_is_got(map, key, object);
            if jvm::is_null_answers(&object, true) {
                lemma_no_value_is_got(map, key, value);
            } else {
                assert(got(map, key, object) && jvm::get_string_answers(&object, Err(r->Err_0)));
            }
        },
        Err(_) => {
            lemma_no_value_is_got(map, key, value);
        },
    }
}

/// What is thrown is thrown once, of the class and with the message that it is of: what was asked for,
/// an aborted build, what an error says, or the text of a panic.
pub proof fn lemma_thrown(
    util: &JNIUtil,
    env: &mut JNIEnv<'_>,
    class: &str,
    message: &str,
    abort_env: &mut JNIEnv<'_>,
    error_env: &mut JNIEnv<'_>,
    text: String,
    panic_env: &mut JNIEnv<'_>,
    other_env: &mut JNIEnv<'_>,
)
    requires
        call_ensures(JNIUtil::throw_java_exception, (util, env, class, message), ()),
        call_ensures(
            JNIUtil::catch_index_build_abort_exception_and_throw_java,
            (util, abort_env),
            (),
        ),
        call_ensures(
            JNIUtil::catch_rust_error_and_throw_java,
            (util, error_env, &JniUtilError::Runtime(text)),
            (),
        ),
        call_ensures(JNIUtil::catch_and_throw_java, (util, panic_env, Some(message)), ()),
        call_ensures(JNIUtil::catch_and_throw_java, (util, other_env, None::<&str>), ()),
    ensures
        exists|answer: JniResult<()>| #[trigger]
            jvm::throws_once(*old(env), class@, message@, answer, *final(env)),
        exists|answer: JniResult<()>| #[trigger]
            jvm::throws_once(
                *old(abort_env),
                "org/opensearch/knn/index/codec/nativeindex/IndexBuildAbortedException"@,
                "Faiss index build aborted"@,
                answer,
                *final(abort_env),
            ),
        exists|answer: JniResult<()>| #[trigger]
            jvm::throws_once(
                *old(error_env),
                "java/lang/Exception"@,
                text@,
                answer,
                *final(error_env),
            ),
        exists|answer: JniResult<()>| #[trigger]
            jvm::throws_once(
                *old(panic_env),
                "java/lang/Exception"@,
                message@,
                answer,
                *final(panic_env),
            ),
        exists|answer: JniResult<()>| #[trigger]
            jvm::throws_once(
                *old(other_env),
                "java/lang/Exception"@,
                "Unknown exception occurred"@,
                answer,
                *final(other_env),
            ),
{
}

/// A check fails where the JVM says that an exception is pending, with the message that was asked for,
/// and passes where it says that none is; it leaves the environment as it is.
pub proof fn lemma_pending_is_checked(
    util: &JNIUtil,
    env: &mut JNIEnv<'_>,
    message: &str,
    r: Result<(), JniUtilError>,
    other_env: &mut JNIEnv<'_>,
    plain: Result<(), JniUtilError>,
)
    requires
        call_ensures(JNIUtil::has_exception_in_stack_with_message, (util, env, message), r),
        call_ensures(JNIUtil::has_exception_in_stack, (util, other_env), plain),
    ensures
        r is Ok ==> jvm::exception_check_answers(*old(env), Ok(false)),
        plain is Ok ==> jvm::exception_check_answers(*old(other_env), Ok(false)),
        r matches Err(JniUtilError::Runtime(text)) ==> text@ == message@
            && jvm::exception_check_answers(*old(env), Ok(true)),
        plain matches Err(JniUtilError::Runtime(text)) ==> text@ == "Exception in jni occurred"@
            && jvm::exception_check_answers(*old(other_env), Ok(true)),
        r matches Err(JniUtilError::Jni(e)) ==> jvm::exception_check_answers(*old(env), Err(e)),
        plain matches Err(JniUtilError::Jni(e)) ==> jvm::exception_check_answers(
            *old(other_env),
            Err(e),
        ),
        *final(env) == *old(env),
        *final(other_env) == *old(other_env),
{
}

/// The lengths of arrays of every kind are those that the JVM tells.
pub proof fn lemma_array_lengths(
    util: &JNIUtil,
    array: &JObject<'_>,
    ints_env: &mut JNIEnv<'_>,
    ints: Result<i32, JniUtilError>,
    longs_env: &mut JNIEnv<'_>,
    longs: Result<i32, JniUtilError>,
    bytes_env: &mut JNIEnv<'_>,
    bytes: Result<i32, JniUtilError>,
    floats_env: &mut JNIEnv<'_>,
    floats: Result<i32, JniUtilError>,
    rows_env: &mut JNIEnv<'_>,
    row_length: Result<i32, JniUtilError>,
)
    requires
        call_ensures(JNIUtil::get_java_int_array_length, (util, ints_env, array), ints),
        call_ensures(JNIUtil::get_java_long_array_length, (util, longs_env, array), longs),
        call_ensures(JNIUtil::get_java_bytes_array_length, (util, bytes_env, array), bytes),
        call_ensures(JNIUtil::get_java_float_array_length, (util, floats_env, array), floats),
        call_ensures(
            JNIUtil::get_inner_dimension_of_2d_java_byte_array,
            (util, rows_env, array),
            row_length,
        ),
    ensures
        ints matches Ok(n) ==> jvm::get_array_length_answers(array, Ok(n)),
        longs matches Ok(n) ==> jvm::get_array_length_answers(array, Ok(n)),
        bytes matches Ok(n) ==> jvm::get_array_length_answers(array, Ok(n)),
        floats matches Ok(n) ==> jvm::get_array_length_answers(array, Ok(n)),
        row_length matches Ok(n) ==> {
            ||| n == 0 && exists|count: i32| #[trigger]
                jvm::get_array_length_answers(array, Ok(count)) && count <= 0
            ||| exists|row: JObject<'_>| #[trigger]
                jvm::get_object_array_element_answers(array, 0, Ok(row))
                    && jvm::get_array_length_answers(&row, Ok(n))
        },
{
    if ints is Ok {
        lemma_length_given(*old(ints_env), array, ints, *final(ints_env));
    }
    if longs is Ok {
        lemma_length_given(*old(longs_env), array, longs, *final(longs_env));
    }
    if bytes is Ok {
        lemma_length_given(*old(bytes_env), array, bytes, *final(bytes_env));
    }
    if floats is Ok {
        lemma_length_given(*old(floats_env), array, floats, *final(floats_env));
    }
    if row_length is Ok {
        lemma_first_row_given(*old(rows_env), array, row_length, *final(rows_env));
    }
}

/// The elements of arrays of every kind are those of the whole array.
pub proof fn lemma_array_elements(
    util: &JNIUtil,
    array: &JObject<'_>,
    bytes_env: &mut JNIEnv<'_>,
    bytes: Result<Vec<i8>, JniUtilError>,
    ints_env: &mut JNIEnv<'_>,
    ints: Result<Vec<i32>, JniUtilError>,
    longs_env: &mut JNIEnv<'_>,
    longs: Result<Vec<i64>, JniUtilError>,
    floats_env: &mut JNIEnv<'_>,
    floats: Result<Vec<u32>, JniUtilError>,
)
    requires
        call_ensures(JNIUtil::get_byte_array_elements, (util, bytes_env, array), bytes),
        call_ensures(JNIUtil::get_int_array_elements, (util, ints_env, array), ints),
        call_ensures(JNIUtil::get_long_array_elements, (util, longs_env, array), longs),
        call_ensures(JNIUtil::get_float_array_elements, (util, floats_env, array), floats),
    ensures
        bytes matches Ok(v) ==> exists|n: i32| #[trigger]
            jvm::get_array_length_answers(array, Ok(n)) && jvm::get_byte_array_region_answers(
                array,
                if n < 0 {
                    0
                } else {
                    n as int
                },
                Ok(v),
            ),
        ints matches Ok(v) ==> exists|n: i32| #[trigger]
            jvm::get_array_length_answers(array, Ok(n)) && jvm::get_int_array_region_answers(
                array,
                if n < 0 {
                    0
                } else {
                    n as int
                },
                Ok(v),
            ),
        longs matches Ok(v) ==> exists|n: i32| #[trigger]
            jvm::get_array_length_answers(array, Ok(n)) && jvm::get_long_array_region_answers(
                array,
                if n < 0 {
                    0
                } else {
                    n as int
                },
                Ok(v),
            ),
        floats matches Ok(v) ==> exists|n: i32| #[trigger]
            jvm::get_array_length_answers(array, Ok(n)) && jvm::get_float_array_region_answers(
                array,
                if n < 0 {
                    0
                } else {
                    n as int
                },
                Ok(v),
            ),
        bytes matches Err(e) ==> e is Jni,
        ints matches Err(e) ==> e is Jni,
        longs matches Err(e) ==> e is Jni,
        floats matches Err(e) ==> e is Jni,
{
    if let Ok(v) = bytes {
        assert(reads_bytes(array, Ok(v)));
    }
    if let Ok(v) = ints {
        assert(reads_ints(array, Ok(v)));
    }
    if let Ok(v) = longs {
        assert(reads_longs(array, Ok(v)));
    }
    if let Ok(v) = floats {
        assert(reads_float_bits(array, Ok(v)));
    }
}

/// What is kept at hand once everything was looked up is what the JVM has under the names: the class
/// of each name, and each method of its class, name and signature. The machine is kept, and the one
/// static method is the one that was given.
pub proof fn lemma_initialized(
    util: &mut JNIUtil,
    env: &mut JNIEnv<'_>,
    java_vm: JavaVM,
    is_merge_aborted: JMethodID,
    r: Result<(), JniUtilError>,
    p: usize,
    step: Option<CacheStep>,
)
    requires
        call_ensures(JNIUtil::initialize, (util, env, java_vm, is_merge_aborted), r),
        r is Ok,
        call_ensures(cache_step, (p,), step),
    ensures
        final(util).vm == Some(java_vm),
        step matches Some(CacheStep::Class { class }) ==> {
            &&& final(util).cached_classes@.dom().contains(class@)
            &&& exists|found: JObject<'_>| #[trigger]
                jvm::find_class_answers(class@, Ok(found)) && jvm::new_global_ref_answers(
                    &found,
                    Ok(final(util).cached_classes@[class@]),
                )
        },
        step matches Some(CacheStep::Method { class, method, signature }) ==> {
            &&& final(util).cached_methods@.dom().contains(class@ + ":"@ + method@)
            &&& exists|found: &JObject<'static>| #[trigger]
                jvm::get_method_id_answers(
                    found,
                    method@,
                    signature@,
                    Ok(final(util).cached_methods@[class@ + ":"@ + method@]),
                ) && jvm::as_object_answers(&final(util).cached_classes@[class@], found)
        },
        step matches Some(CacheStep::StaticMethod { class, method, .. }) ==> final(util).cached_methods@.contains_pair(class@ + ":"@ + method@, is_merge_aborted),
{
    if let Some(s) = step {
        assert(s@ == jni_util::cache_steps()[p as int]);
        assert(final(util).keeps_step(jni_util::cache_steps()[p as int], is_merge_aborted));
    }
}

/// A reference to a class is one to the class that the JVM has under its name, and the text of an
/// object is that of the string.
pub proof fn lemma_class_is_found(
    util: &JNIUtil,
    env: &mut JNIEnv<'_>,
    name: &str,
    r: Result<GlobalRef, JniUtilError>,
    object: &JObject<'_>,
    text_env: &mut JNIEnv<'_>,
    text: Result<String, JniUtilError>,
)
    requires
        call_ensures(JNIUtil::find_class_from_jni_env, (util, env, name), r),
        call_ensures(JNIUtil::convert_java_object_to_rust_string, (util, text_env, object), text),
    ensures
        r matches Ok(reference) ==> exists|class: JObject<'_>| #[trigger]
            jvm::find_class_answers(name@, Ok(class)) && jvm::new_global_ref_answers(
                &class,
                Ok(reference),
            ),
        r matches Err(e) ==> e is Jni,
        text matches Ok(t) ==> jvm::is_null_answers(object, false) && jvm::get_string_answers(
            object,
            Ok(t),
        ),
{
    if let Ok(reference) = r {
        let class = choose|class: JniResult<JObject<'_>>| #[trigger]
            jvm::find_class_answers(name@, class) && match class {
                Ok(found) => exists|answer: JniResult<GlobalRef>| #[trigger]
                    jvm::new_global_ref_answers(&found, answer) && r == lifted(answer),
                Err(_) => false,
            };
        let found = class->Ok_0;
        let answer = choose|answer: JniResult<GlobalRef>| #[trigger]
            jvm::new_global_ref_answers(&found, answer) && r == lifted(answer);
        assert(answer == Ok::<GlobalRef, jni::errors::Error>(reference));
        assert(jvm::find_class_answers(name@, Ok(found)));
    }
}

/// A method of this name, which takes nothing, was called on an object and gave no object.
pub open spec fn refuses_object(object: &JObject<'_>, name: Seq<char>, signature: Seq<char>) -> bool {
    exists|value: JniResult<JValueOwned<'_>>| #[trigger]
        jvm::call_method_answers(object, name, signature, Seq::empty(), value) && match value {
            Ok(v) => exists|answer: JniResult<JObject<'_>>| #[trigger]
                jvm::value_object_answers(v, answer) && answer is Err,
            Err(_) => true,
        }
}

/// An iterator was asked by its method `hasNext`, and did not say whether it has more.
pub open spec fn refuses_has_next(iterator: &JObject<'_>) -> bool {
    exists|value: JniResult<JValueOwned<'_>>| #[trigger]
        jvm::call_method_answers(iterator, "hasNext"@, "()Z"@, Seq::empty(), value) && match value {
            Ok(v) => exists|answer: JniResult<bool>| #[trigger]
                jvm::value_bool_answers(v, answer) && answer is Err,
            Err(_) => true,
        }
}

/// An entry of a map did not give its key, its value or the text of its key.
pub open spec fn refuses_entry(entry: &JObject<'_>) -> bool {
    ||| refuses_object(entry, "getKey"@, "()Ljava/lang/Object;"@)
    ||| refuses_object(entry, "getValue"@, "()Ljava/lang/Object;"@)
    ||| exists|key: JObject<'_>, e: jni::errors::Error|
        #[trigger] object_of(entry, "getKey"@, "()Ljava/lang/Object;"@, key)
            && #[trigger] jvm::get_string_answers(&key, Err(e))
}

/// An iterator did not say whether it has more, did not give an entry, or gave one that refused.
pub open spec fn refuses_next(iterator: &JObject<'_>) -> bool {
    ||| refuses_has_next(iterator)
    ||| refuses_object(iterator, "next"@, "()Ljava/lang/Object;"@)
    ||| exists|entry: JObject<'_>| #[trigger]
        object_of(iterator, "next"@, "()Ljava/lang/Object;"@, entry) && refuses_entry(&entry)
}

/// A Java map could not be walked: it did not give its entries, or an iterator over them, or that
/// iterator refused.
pub open spec fn refuses_walk(map_obj: &JObject<'_>) -> bool {
    ||| refuses_object(map_obj, "entrySet"@, "()Ljava/util/Set;"@)
    ||| exists|set: JObject<'_>| #[trigger]
        object_of(map_obj, "entrySet"@, "()Ljava/util/Set;"@, set) && {
            ||| refuses_object(&set, "iterator"@, "()Ljava/util/Iterator;"@)
            ||| exists|iterator: JObject<'_>| #[trigger]
                object_of(&set, "iterator"@, "()Ljava/util/Iterator;"@, iterator) && refuses_next(
                    &iterator,
                )
        }
}

/// What is told of an object that was not given is told only where it was not.
pub proof fn lemma_told_refusal<'local>(
    before: JNIEnv<'local>,
    object: &JObject<'_>,
    name: Seq<char>,
    signature: Seq<char>,
    no_call: Seq<char>,
    no_object: Seq<char>,
    r: Result<JObject<'local>, String>,
    after: JNIEnv<'local>,
)
    requires
        tells_object(before, object, name, signature, no_call, no_object, r, after),
        r is Err,
    ensures
        refuses_object(object, name, signature),
{
    let value = choose|value: JniResult<JValueOwned<'local>>| #[trigger]
        calls_once(before, object, name, signature, value, after) && match value {
            Ok(v) => exists|answer: JniResult<JObject<'local>>| #[trigger]
                jvm::value_object_answers(v, answer) && told(answer, no_object, r),
            Err(_) => true,
        };
    lemma_once_answers(before, object, name, signature, value, after);
    assert(jvm::call_method_answers(object, name, signature, Seq::empty(), value));
}

/// What is told of an iterator that did not answer is told only where it did not.
pub proof fn lemma_told_no_answer<'local>(
    before: JNIEnv<'local>,
    iterator: &JObject<'_>,
    no_call: Seq<char>,
    no_truth: Seq<char>,
    r: Result<bool, String>,
    after: JNIEnv<'local>,
)
    requires
        tells_has_next(before, iterator, no_call, no_truth, r, after),
        r is Err,
    ensures
        refuses_has_next(iterator),
{
    let value = choose|value: JniResult<JValueOwned<'local>>| #[trigger]
        calls_once(before, iterator, "hasNext"@, "()Z"@, value, after) && match value {
            Ok(v) => exists|answer: JniResult<bool>| #[trigger]
                jvm::value_bool_answers(v, answer) && told(answer, no_truth, r),
            Err(_) => true,
        };
    lemma_once_answers(before, iterator, "hasNext"@, "()Z"@, value, after);
    assert(jvm::call_method_answers(iterator, "hasNext"@, "()Z"@, Seq::empty(), value));
}

} // verus!
