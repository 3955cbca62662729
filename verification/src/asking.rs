//! Calls into the JVM that only ask.
//!
//! Reading what Java passes takes looking things up and calling getters. The relation
//! `only_asks` says of two environments that nothing else was called between them. An
//! iterator that is asked for its next entry moves on. Making a string or a global
//! reference, and giving a local reference up, leave the environment as it is.

use crate::jvm;
use crate::jvm::JniResult;
use jni::objects::{JFieldID, JMethodID, JObject, JValueOwned};
use jni::JNIEnv;
use vstd::prelude::*;

verus! {

/// The methods that only ask: those of maps, entries, iterators and numbers that the
/// library reads with.
pub open spec fn is_getter(name: Seq<char>) -> bool {
    ||| name == "get"@
    ||| name == "intValue"@
    ||| name == "entrySet"@
    ||| name == "iterator"@
    ||| name == "hasNext"@
    ||| name == "next"@
    ||| name == "getKey"@
    ||| name == "getValue"@
}

/// One call leads from one environment to the other that only asks: it looks something
/// up, or calls a getter.
spec fn asks_once<'local>(before: JNIEnv<'local>, after: JNIEnv<'local>) -> bool {
    ||| exists|
        object: &JObject<'_>,
        name: Seq<char>,
        signature: Seq<char>,
        arguments: Seq<&JObject<'_>>,
        value: JniResult<JValueOwned<'local>>,
    | #[trigger]
        jvm::calls_method_once(before, object, name, signature, arguments, value, after)
            && is_getter(name)
    ||| exists|class_name: Seq<char>, class: JniResult<JObject<'local>>| #[trigger]
        jvm::finds_class_once(before, class_name, class, after)
    ||| exists|
        class: &JObject<'_>,
        name: Seq<char>,
        signature: Seq<char>,
        method: JniResult<JMethodID>,
    | #[trigger]
        jvm::gets_method_id_once(before, class, name, signature, method, after)
    ||| exists|
        class: &JObject<'_>,
        name: Seq<char>,
        signature: Seq<char>,
        field: JniResult<JFieldID>,
    | #[trigger]
        jvm::gets_field_id_once(before, class, name, signature, field, after)
    ||| exists|object: &JObject<'_>, class: &JObject<'_>, truth: JniResult<bool>| #[trigger]
        jvm::asks_instance_once(before, object, class, truth, after)
    ||| exists|string: &JObject<'_>, text: JniResult<String>| #[trigger]
        jvm::gets_string_once(before, string, text, after)
    ||| exists|array: &JObject<'_>, length: JniResult<i32>| #[trigger]
        jvm::gets_length_once(before, array, length, after)
    ||| exists|array: &JObject<'_>, index: i32, element: JniResult<JObject<'local>>| #[trigger]
        jvm::gets_element_once(before, array, index, element, after)
}

/// Each environment leads to the next by a call that only asks.
spec fn asks_in_turn<'local>(passed: Seq<JNIEnv<'local>>) -> bool {
    &&& passed.len() > 0
    &&& forall|k: int| #[trigger] asks_at(passed, k)
}

spec fn asks_at<'local>(passed: Seq<JNIEnv<'local>>, k: int) -> bool {
    0 <= k < passed.len() - 1 ==> asks_once(passed[k], passed[k + 1])
}

/// From one environment to the other the JVM was only asked: whatever was called looked
/// something up, or was a getter. Nothing was written into a Java object and nothing
/// was thrown.
pub closed spec fn only_asks<'local>(before: JNIEnv<'local>, after: JNIEnv<'local>) -> bool {
    exists|passed: Seq<JNIEnv<'local>>| #[trigger]
        asks_in_turn(passed) && passed.first() == before && passed.last() == after
}

/// Where nothing is called the JVM is only asked.
pub broadcast proof fn lemma_asks_nothing<'local>(env: JNIEnv<'local>)
    ensures
        #[trigger] only_asks(env, env),
{
    let passed = seq![env];
    assert(asks_in_turn(passed));
    assert(passed.first() == env && passed.last() == env);
}

/// Where the JVM is only asked, and then only asked again, it is only asked.
pub broadcast proof fn lemma_asks_on<'local>(
    before: JNIEnv<'local>,
    between: JNIEnv<'local>,
    after: JNIEnv<'local>,
)
    requires
        #[trigger] only_asks(before, between),
        #[trigger] only_asks(between, after),
    ensures
        only_asks(before, after),
{
    let first = choose|passed: Seq<JNIEnv<'local>>| #[trigger]
        asks_in_turn(passed) && passed.first() == before && passed.last() == between;
    let second = choose|passed: Seq<JNIEnv<'local>>| #[trigger]
        asks_in_turn(passed) && passed.first() == between && passed.last() == after;
    let joined = first + second.drop_first();
    assert forall|k: int| #[trigger] asks_at(joined, k) by {
        if 0 <= k < first.len() - 1 {
            assert(asks_at(first, k));
        } else if first.len() - 1 <= k < joined.len() - 1 {
            assert(asks_at(second, k - (first.len() - 1)));
        }
    }
    assert(asks_in_turn(joined));
    assert(joined.first() == before && joined.last() == after);
}

proof fn lemma_asks_once<'local>(before: JNIEnv<'local>, after: JNIEnv<'local>)
    requires
        asks_once(before, after),
    ensures
        only_asks(before, after),
{
    let passed = seq![before, after];
    assert forall|k: int| #[trigger] asks_at(passed, k) by {}
    assert(asks_in_turn(passed));
    assert(passed.first() == before && passed.last() == after);
}

/// Calling a getter only asks.
pub broadcast proof fn lemma_getter_asks<'local>(
    before: JNIEnv<'local>,
    object: &JObject<'_>,
    name: Seq<char>,
    signature: Seq<char>,
    arguments: Seq<&JObject<'_>>,
    value: JniResult<JValueOwned<'local>>,
    after: JNIEnv<'local>,
)
    requires
        #[trigger] jvm::calls_method_once(before, object, name, signature, arguments, value, after),
        is_getter(name),
    ensures
        only_asks(before, after),
{
    lemma_asks_once(before, after);
}

/// Looking up a class only asks.
pub broadcast proof fn lemma_class_asks<'local>(
    before: JNIEnv<'local>,
    class_name: Seq<char>,
    class: JniResult<JObject<'local>>,
    after: JNIEnv<'local>,
)
    requires
        #[trigger] jvm::finds_class_once(before, class_name, class, after),
    ensures
        only_asks(before, after),
{
    lemma_asks_once(before, after);
}

/// Looking up a method only asks.
pub broadcast proof fn lemma_method_asks<'local>(
    before: JNIEnv<'local>,
    class: &JObject<'_>,
    name: Seq<char>,
    signature: Seq<char>,
    method: JniResult<JMethodID>,
    after: JNIEnv<'local>,
)
    requires
        #[trigger] jvm::gets_method_id_once(before, class, name, signature, method, after),
    ensures
        only_asks(before, after),
{
    lemma_asks_once(before, after);
}

/// Looking up a field only asks.
pub broadcast proof fn lemma_field_asks<'local>(
    before: JNIEnv<'local>,
    class: &JObject<'_>,
    name: Seq<char>,
    signature: Seq<char>,
    field: JniResult<JFieldID>,
    after: JNIEnv<'local>,
)
    requires
        #[trigger] jvm::gets_field_id_once(before, class, name, signature, field, after),
    ensures
        only_asks(before, after),
{
    lemma_asks_once(before, after);
}

/// Asking for the class of an object only asks.
pub broadcast proof fn lemma_instance_asks<'local>(
    before: JNIEnv<'local>,
    object: &JObject<'_>,
    class: &JObject<'_>,
    truth: JniResult<bool>,
    after: JNIEnv<'local>,
)
    requires
        #[trigger] jvm::asks_instance_once(before, object, class, truth, after),
    ensures
        only_asks(before, after),
{
    lemma_asks_once(before, after);
}

/// Reading a string only asks.
pub broadcast proof fn lemma_string_asks<'local>(
    before: JNIEnv<'local>,
    string: &JObject<'_>,
    text: JniResult<String>,
    after: JNIEnv<'local>,
)
    requires
        #[trigger] jvm::gets_string_once(before, string, text, after),
    ensures
        only_asks(before, after),
{
    lemma_asks_once(before, after);
}

/// Asking for the length of an array only asks.
pub broadcast proof fn lemma_length_asks<'local>(
    before: JNIEnv<'local>,
    array: &JObject<'_>,
    length: JniResult<i32>,
    after: JNIEnv<'local>,
)
    requires
        #[trigger] jvm::gets_length_once(before, array, length, after),
    ensures
        only_asks(before, after),
{
    lemma_asks_once(before, after);
}

/// Reading an element of an array only asks.
pub broadcast proof fn lemma_element_asks<'local>(
    before: JNIEnv<'local>,
    array: &JObject<'_>,
    index: i32,
    element: JniResult<JObject<'local>>,
    after: JNIEnv<'local>,
)
    requires
        #[trigger] jvm::gets_element_once(before, array, index, element, after),
    ensures
        only_asks(before, after),
{
    lemma_asks_once(before, after);
}

/// What it takes to see that the JVM is only asked.
pub broadcast group group_asking {
    lemma_asks_nothing,
    lemma_asks_on,
    lemma_getter_asks,
    lemma_class_asks,
    lemma_method_asks,
    lemma_field_asks,
    lemma_instance_asks,
    lemma_string_asks,
    lemma_length_asks,
    lemma_element_asks,
}

/// `find_class`, which only asks.
pub(crate) fn ask_class<'local>(
    env: &mut JNIEnv<'local>,
    name: &str,
) -> (class: JniResult<JObject<'local>>)
    ensures
        jvm::find_class_answers(name@, class),
        only_asks(*old(env), *final(env)),
{
    broadcast use group_asking;

    let (class, passage) = jvm::find_class_once(env, name);
    assert(jvm::finds_class_once(*old(env), name@, class, *env));
    class
}

/// `get_method_id`, which only asks.
pub(crate) fn ask_method<'local>(
    env: &mut JNIEnv<'local>,
    class: &JObject<'_>,
    name: &str,
    signature: &str,
) -> (method: JniResult<JMethodID>)
    ensures
        jvm::get_method_id_answers(class, name@, signature@, method),
        only_asks(*old(env), *final(env)),
{
    broadcast use group_asking;

    let (method, passage) = jvm::get_method_id_once(env, class, name, signature);
    assert(jvm::gets_method_id_once(*old(env), class, name@, signature@, method, *env));
    method
}

/// `get_field_id`, which only asks.
pub(crate) fn ask_field<'local>(
    env: &mut JNIEnv<'local>,
    class: &JObject<'_>,
    name: &str,
    signature: &str,
) -> (field: JniResult<JFieldID>)
    ensures
        jvm::get_field_id_answers(class, name@, signature@, field),
        only_asks(*old(env), *final(env)),
{
    broadcast use group_asking;

    let (field, passage) = jvm::get_field_id_once(env, class, name, signature);
    assert(jvm::gets_field_id_once(*old(env), class, name@, signature@, field, *env));
    field
}

/// `get_string`, which only asks.
pub(crate) fn ask_string<'local>(
    env: &mut JNIEnv<'local>,
    string: &JObject<'_>,
) -> (text: JniResult<String>)
    ensures
        jvm::get_string_answers(string, text),
        only_asks(*old(env), *final(env)),
{
    broadcast use group_asking;

    let (text, passage) = jvm::get_string_once(env, string);
    assert(jvm::gets_string_once(*old(env), string, text, *env));
    text
}

/// `get_array_length`, which only asks.
pub(crate) fn ask_length<'local>(
    env: &mut JNIEnv<'local>,
    array: &JObject<'_>,
) -> (length: JniResult<i32>)
    ensures
        jvm::get_array_length_answers(array, length),
        only_asks(*old(env), *final(env)),
{
    broadcast use group_asking;

    let (length, passage) = jvm::get_array_length_once(env, array);
    assert(jvm::gets_length_once(*old(env), array, length, *env));
    length
}

/// `get_object_array_element`, which only asks.
pub(crate) fn ask_element<'local>(
    env: &mut JNIEnv<'local>,
    array: &JObject<'_>,
    index: i32,
) -> (element: JniResult<JObject<'local>>)
    ensures
        jvm::get_object_array_element_answers(array, index, element),
        only_asks(*old(env), *final(env)),
{
    broadcast use group_asking;

    let (element, passage) = jvm::get_object_array_element_once(env, array, index);
    assert(jvm::gets_element_once(*old(env), array, index, element, *env));
    element
}

/// `call_method` on a getter, which only asks.
pub(crate) fn ask_getter<'local>(
    env: &mut JNIEnv<'local>,
    object: &JObject<'_>,
    name: &str,
    signature: &str,
    arguments: &[&JObject<'_>],
) -> (value: JniResult<JValueOwned<'local>>)
    requires
        jvm::is_plain_signature(signature@),
        is_getter(name@),
    ensures
        jvm::call_method_answers(object, name@, signature@, arguments@, value),
        only_asks(*old(env), *final(env)),
{
    broadcast use group_asking;

    let (value, passage) = jvm::call_method_once(env, object, name, signature, arguments);
    assert(jvm::calls_method_once(*old(env), object, name@, signature@, arguments@, value, *env));
    value
}

} // verus!
