//! The `jni` crate as the library uses it: its types, and the calls into the JVM.
//!
//! What a call answers is up to the JVM: nothing is claimed of it beyond what is
//! stated below. Java arrays and strings are handed over as the objects that they
//! are.
//!
//! Beside a call `f` stands a relation `f_answers`: it holds of the arguments and a
//! result where the JVM may answer a call of `f` with these arguments so, in some
//! environment of a thread. It is known to hold of what a call returned, and of
//! nothing else: through it a contract says which call a result comes from.
//!
//! Where it matters that nothing else was called, `f_once` makes the call, and its
//! relation also holds the environment before and after: calls made in turn lead from
//! one environment to the next, and one more call would break the chain.

use jni::objects::{
    GlobalRef, JByteArray, JClass, JFieldID, JFloatArray, JIntArray, JLongArray, JMethodID,
    JObject, JObjectArray, JString, JValue, JValueOwned,
};
use jni::{JNIEnv, JavaVM};
use vstd::prelude::*;

verus! {

/// `jni::errors::Error`: why a call into the JVM failed.
#[verifier::external_type_specification]
#[verifier::external_body]
pub struct ExJniError(jni::errors::Error);

/// `jni::JavaVM`: the virtual machine.
#[verifier::external_type_specification]
#[verifier::external_body]
pub struct ExJavaVm(jni::JavaVM);

/// `jni::JNIEnv`: the environment in which the current thread calls the JVM.
#[verifier::external_type_specification]
#[verifier::external_body]
pub struct ExJniEnv<'local>(jni::JNIEnv<'local>);

/// `jni::sys::_jobject`: what a reference to a Java object points to.
#[verifier::external_type_specification]
#[verifier::external_body]
pub struct ExRawObject(jni::sys::_jobject);

/// `jni::objects::JObject`: a reference to a Java object, which may be null.
#[verifier::external_type_specification]
#[verifier::external_body]
pub struct ExJObject<'local>(jni::objects::JObject<'local>);

/// `jni::objects::JValueGen`: what a Java method returned.
#[verifier::external_type_specification]
#[verifier::external_body]
#[verifier::reject_recursive_types(O)]
pub struct ExJValue<O>(jni::objects::JValueGen<O>);

/// `jni::objects::GlobalRef`: a reference to a Java object that outlives the call
/// in which it was made.
#[verifier::external_type_specification]
#[verifier::external_body]
pub struct ExGlobalRef(jni::objects::GlobalRef);

/// `jni::objects::JMethodID`: a method of a Java class.
#[verifier::external_type_specification]
#[verifier::external_body]
pub struct ExMethodId(jni::objects::JMethodID);

/// `jni::objects::JFieldID`: a field of a Java class.
#[verifier::external_type_specification]
#[verifier::external_body]
pub struct ExFieldId(jni::objects::JFieldID);

/// `std::io::Error`: why reading or writing failed.
#[verifier::external_type_specification]
#[verifier::external_body]
pub struct ExIoError(std::io::Error);

/// What a call into the JVM comes to.
pub type JniResult<T> = Result<T, jni::errors::Error>;

/// Calls `JavaVM::get_env`: the environment of the current thread, where it is
/// attached to the JVM. Whether it is depends on the thread.
#[verifier::external_body]
pub(crate) fn get_env(vm: &JavaVM) -> (env: JniResult<JNIEnv<'_>>) {
    vm.get_env()
}

/// What `get_env` may answer.
pub open(crate) spec fn get_env_answers<'a>(vm: &'a JavaVM, env: JniResult<JNIEnv<'a>>) -> bool {
    call_ensures(get_env, (vm,), env)
}

/// Asks a reference, as a raw pointer, whether it is null.
#[verifier::external_body]
pub(crate) fn is_null(object: &JObject<'_>) -> (null: bool) {
    object.is_null()
}

/// What `is_null` may answer.
pub open(crate) spec fn is_null_answers(object: &JObject<'_>, null: bool) -> bool {
    call_ensures(is_null, (object,), null)
}

/// Calls `JObject::null`: a reference that is null.
#[verifier::external_body]
pub(crate) fn null_object() -> (object: JObject<'static>) {
    JObject::null()
}

/// What `null_object` may answer.
pub open(crate) spec fn null_object_answers(object: JObject<'static>) -> bool {
    call_ensures(null_object, (), object)
}

/// Calls `JNIEnv::exception_check`: whether a Java exception is pending.
#[verifier::external_body]
pub(crate) fn exception_check(env: &JNIEnv<'_>) -> (pending: JniResult<bool>) {
    env.exception_check()
}

/// What `exception_check` may answer in this environment.
pub open(crate) spec fn exception_check_answers(
    env: JNIEnv<'_>,
    pending: JniResult<bool>,
) -> bool {
    call_ensures(exception_check, (&env,), pending)
}

/// Shows an error as the `Debug` implementation of `jni::errors::Error` does.
#[verifier::external_body]
pub(crate) fn debug_text(error: &jni::errors::Error) -> (text: String) {
    format!("{:?}", error)
}

/// What `debug_text` may answer.
pub open(crate) spec fn debug_text_answers(error: &jni::errors::Error, text: String) -> bool {
    call_ensures(debug_text, (error,), text)
}

/// Calls `JNIEnv::throw_new`: throws a Java exception of the named class.
#[verifier::external_body]
pub(crate) fn throw_new(env: &mut JNIEnv<'_>, class: &str, message: &str) -> (r: JniResult<()>) {
    env.throw_new(class, message)
}

/// What `throw_new` may answer.
pub open(crate) spec fn throw_new_answers(
    class: Seq<char>,
    message: Seq<char>,
    r: JniResult<()>,
) -> bool {
    exists|e: &mut JNIEnv<'_>, c: &str, m: &str|
        {
            &&& #[trigger] call_ensures(throw_new, (e, c, m), r)
            &&& c@ == class
            &&& m@ == message
        }
}

/// `throw_new`, called once, with the environment before and after the call.
pub(crate) fn throw_new_once<'local>(env: &mut JNIEnv<'local>, class: &str, message: &str) -> (r: (
    JniResult<()>,
    Ghost<(JNIEnv<'local>, JNIEnv<'local>)>,
))
    ensures
        throw_new_answers(class@, message@, r.0),
        exists|e: &mut JNIEnv<'local>|
            {
                &&& #[trigger] call_ensures(throw_new, (e, class, message), r.0)
                &&& *e == *old(env)
                &&& *final(e) == *final(env)
            },
        r.1@ == (*old(env), *final(env)),
{
    let ghost before = *env;
    let answer = throw_new(env, class, message);
    assert(throw_new_answers(class@, message@, answer));
    (answer, Ghost((before, *env)))
}

/// One call of `throw_new` leads from one environment to the other, with this answer.
pub open(crate) spec fn throws_once<'local>(
    before: JNIEnv<'local>,
    class: Seq<char>,
    message: Seq<char>,
    r: JniResult<()>,
    after: JNIEnv<'local>,
) -> bool {
    exists|
        e: &mut JNIEnv<'local>,
        c: &str,
        m: &str,
        passage: Ghost<(JNIEnv<'local>, JNIEnv<'local>)>,
    |
        {
            &&& #[trigger] call_ensures(throw_new_once, (e, c, m), (r, passage))
            &&& c@ == class
            &&& m@ == message
            &&& passage@ == (before, after)
        }
}

/// Calls `JNIEnv::find_class`: the class of this name.
#[verifier::external_body]
pub(crate) fn find_class<'local>(env: &mut JNIEnv<'local>, name: &str) -> (class: JniResult<
    JObject<'local>,
>) {
    Ok(env.find_class(name)?.into())
}

/// What `find_class` may answer.
pub open(crate) spec fn find_class_answers<'local>(
    name: Seq<char>,
    class: JniResult<JObject<'local>>,
) -> bool {
    exists|e: &mut JNIEnv<'local>, n: &str| #[trigger]
        call_ensures(find_class, (e, n), class) && n@ == name
}

/// `find_class`, called once, with the environment before and after the call.
pub(crate) fn find_class_once<'local>(
    env: &mut JNIEnv<'local>,
    name: &str,
) -> (r: (JniResult<JObject<'local>>, Ghost<(JNIEnv<'local>, JNIEnv<'local>)>))
    ensures
        find_class_answers(name@, r.0),
        exists|e: &mut JNIEnv<'local>|
            {
                &&& #[trigger] call_ensures(find_class, (e, name), r.0)
                &&& *e == *old(env)
                &&& *final(e) == *final(env)
            },
        r.1@ == (*old(env), *final(env)),
{
    let ghost before = *env;
    let class = find_class(env, name);
    assert(find_class_answers(name@, class));
    (class, Ghost((before, *env)))
}

/// One call of `find_class` leads from one environment to the other, with this
/// answer.
pub open(crate) spec fn finds_class_once<'local>(
    before: JNIEnv<'local>,
    name: Seq<char>,
    class: JniResult<JObject<'local>>,
    after: JNIEnv<'local>,
) -> bool {
    exists|
        e: &mut JNIEnv<'local>,
        n: &str,
        passage: Ghost<(JNIEnv<'local>, JNIEnv<'local>)>,
    |
        {
            &&& #[trigger] call_ensures(
                find_class_once,
                (e, n),
                (class, passage),
            )
            &&& n@ == name
            &&& passage@ == (before, after)
        }
}

/// Calls `JNIEnv::new_global_ref`: a global reference to the same object.
#[verifier::external_body]
pub(crate) fn new_global_ref(env: &JNIEnv<'_>, object: &JObject<'_>) -> (r: JniResult<GlobalRef>) {
    env.new_global_ref(object)
}

/// What `new_global_ref` may answer.
pub open(crate) spec fn new_global_ref_answers(
    object: &JObject<'_>,
    r: JniResult<GlobalRef>,
) -> bool {
    exists|e: &JNIEnv<'_>| #[trigger] call_ensures(new_global_ref, (e, object), r)
}

/// Calls `GlobalRef::as_obj`: the object that a global reference refers to.
#[verifier::external_body]
pub(crate) fn as_object(reference: &GlobalRef) -> (object: &JObject<'static>) {
    reference.as_obj()
}

/// What `as_object` may answer.
pub open(crate) spec fn as_object_answers(reference: &GlobalRef, object: &JObject<'static>) -> bool {
    call_ensures(as_object, (reference,), object)
}

/// Calls `JNIEnv::delete_local_ref`: gives a local reference up.
#[verifier::external_body]
pub(crate) fn delete_local_ref(env: &JNIEnv<'_>, object: JObject<'_>) -> (r: JniResult<()>) {
    env.delete_local_ref(object)
}

/// What `delete_local_ref` may answer.
pub open(crate) spec fn delete_local_ref_answers(object: JObject<'_>, r: JniResult<()>) -> bool {
    exists|e: &JNIEnv<'_>| #[trigger] call_ensures(delete_local_ref, (e, object), r)
}

/// Calls `JNIEnv::get_method_id`: the method of a class that has this name and
/// signature.
#[verifier::external_body]
pub(crate) fn get_method_id(
    env: &mut JNIEnv<'_>,
    class: &JObject<'_>,
    name: &str,
    signature: &str,
) -> (method: JniResult<JMethodID>) {
    env.get_method_id(<&JClass>::from(class), name, signature)
}

/// What `get_method_id` may answer.
pub open(crate) spec fn get_method_id_answers(
    class: &JObject<'_>,
    name: Seq<char>,
    signature: Seq<char>,
    method: JniResult<JMethodID>,
) -> bool {
    exists|e: &mut JNIEnv<'_>, n: &str, s: &str|
        {
            &&& #[trigger] call_ensures(get_method_id, (e, class, n, s), method)
            &&& n@ == name
            &&& s@ == signature
        }
}

/// `get_method_id`, called once, with the environment before and after the call.
pub(crate) fn get_method_id_once<'local>(
    env: &mut JNIEnv<'local>,
    class: &JObject<'_>,
    name: &str,
    signature: &str,
) -> (r: (JniResult<JMethodID>, Ghost<(JNIEnv<'local>, JNIEnv<'local>)>))
    ensures
        get_method_id_answers(class, name@, signature@, r.0),
        exists|e: &mut JNIEnv<'local>|
            {
                &&& #[trigger] call_ensures(get_method_id, (e, class, name, signature), r.0)
                &&& *e == *old(env)
                &&& *final(e) == *final(env)
            },
        r.1@ == (*old(env), *final(env)),
{
    let ghost before = *env;
    let method = get_method_id(env, class, name, signature);
    assert(get_method_id_answers(class, name@, signature@, method));
    (method, Ghost((before, *env)))
}

/// One call of `get_method_id` leads from one environment to the other, with this
/// answer.
pub open(crate) spec fn gets_method_id_once<'local>(
    before: JNIEnv<'local>,
    class: &JObject<'_>,
    name: Seq<char>,
    signature: Seq<char>,
    method: JniResult<JMethodID>,
    after: JNIEnv<'local>,
) -> bool {
    exists|
        e: &mut JNIEnv<'local>,
        n: &str,
        s: &str,
        passage: Ghost<(JNIEnv<'local>, JNIEnv<'local>)>,
    |
        {
            &&& #[trigger] call_ensures(
                get_method_id_once,
                (e, class, n, s),
                (method, passage),
            )
            &&& n@ == name
            &&& s@ == signature
            &&& passage@ == (before, after)
        }
}

/// Calls `JNIEnv::get_field_id`: the field of a class that has this name and
/// signature.
#[verifier::external_body]
pub(crate) fn get_field_id(
    env: &mut JNIEnv<'_>,
    class: &JObject<'_>,
    name: &str,
    signature: &str,
) -> (field: JniResult<JFieldID>) {
    env.get_field_id(<&JClass>::from(class), name, signature)
}

/// What `get_field_id` may answer.
pub open(crate) spec fn get_field_id_answers(
    class: &JObject<'_>,
    name: Seq<char>,
    signature: Seq<char>,
    field: JniResult<JFieldID>,
) -> bool {
    exists|e: &mut JNIEnv<'_>, n: &str, s: &str|
        {
            &&& #[trigger] call_ensures(get_field_id, (e, class, n, s), field)
            &&& n@ == name
            &&& s@ == signature
        }
}

/// `get_field_id`, called once, with the environment before and after the call.
pub(crate) fn get_field_id_once<'local>(
    env: &mut JNIEnv<'local>,
    class: &JObject<'_>,
    name: &str,
    signature: &str,
) -> (r: (JniResult<JFieldID>, Ghost<(JNIEnv<'local>, JNIEnv<'local>)>))
    ensures
        get_field_id_answers(class, name@, signature@, r.0),
        exists|e: &mut JNIEnv<'local>|
            {
                &&& #[trigger] call_ensures(get_field_id, (e, class, name, signature), r.0)
                &&& *e == *old(env)
                &&& *final(e) == *final(env)
            },
        r.1@ == (*old(env), *final(env)),
{
    let ghost before = *env;
    let field = get_field_id(env, class, name, signature);
    assert(get_field_id_answers(class, name@, signature@, field));
    (field, Ghost((before, *env)))
}

/// One call of `get_field_id` leads from one environment to the other, with this
/// answer.
pub open(crate) spec fn gets_field_id_once<'local>(
    before: JNIEnv<'local>,
    class: &JObject<'_>,
    name: Seq<char>,
    signature: Seq<char>,
    field: JniResult<JFieldID>,
    after: JNIEnv<'local>,
) -> bool {
    exists|
        e: &mut JNIEnv<'local>,
        n: &str,
        s: &str,
        passage: Ghost<(JNIEnv<'local>, JNIEnv<'local>)>,
    |
        {
            &&& #[trigger] call_ensures(
                get_field_id_once,
                (e, class, n, s),
                (field, passage),
            )
            &&& n@ == name
            &&& s@ == signature
            &&& passage@ == (before, after)
        }
}

/// Calls `JNIEnv::is_instance_of`: whether an object is an instance of a class.
#[verifier::external_body]
pub(crate) fn is_instance_of(env: &mut JNIEnv<'_>, object: &JObject<'_>, class: &JObject<'_>) -> (r:
    JniResult<bool>) {
    env.is_instance_of(object, <&JClass>::from(class))
}

/// What `is_instance_of` may answer.
pub open(crate) spec fn is_instance_of_answers(
    object: &JObject<'_>,
    class: &JObject<'_>,
    r: JniResult<bool>,
) -> bool {
    exists|e: &mut JNIEnv<'_>| #[trigger] call_ensures(is_instance_of, (e, object, class), r)
}

/// `is_instance_of`, called once, with the environment before and after the call.
pub(crate) fn is_instance_of_once<'local>(
    env: &mut JNIEnv<'local>,
    object: &JObject<'_>,
    class: &JObject<'_>,
) -> (r: (JniResult<bool>, Ghost<(JNIEnv<'local>, JNIEnv<'local>)>))
    ensures
        is_instance_of_answers(object, class, r.0),
        exists|e: &mut JNIEnv<'local>|
            {
                &&& #[trigger] call_ensures(is_instance_of, (e, object, class), r.0)
                &&& *e == *old(env)
                &&& *final(e) == *final(env)
            },
        r.1@ == (*old(env), *final(env)),
{
    let ghost before = *env;
    let truth = is_instance_of(env, object, class);
    assert(is_instance_of_answers(object, class, truth));
    (truth, Ghost((before, *env)))
}

/// One call of `is_instance_of` leads from one environment to the other, with this
/// answer.
pub open(crate) spec fn asks_instance_once<'local>(
    before: JNIEnv<'local>,
    object: &JObject<'_>,
    class: &JObject<'_>,
    truth: JniResult<bool>,
    after: JNIEnv<'local>,
) -> bool {
    exists|
        e: &mut JNIEnv<'local>,
        passage: Ghost<(JNIEnv<'local>, JNIEnv<'local>)>,
    |
        {
            &&& #[trigger] call_ensures(
                is_instance_of_once,
                (e, object, class),
                (truth, passage),
            )
            &&& passage@ == (before, after)
        }
}

/// A signature that holds no other signature, and no type that is nested too deep to
/// be parsed: a round bracket opens at its front alone, and it is short.
pub open spec fn is_plain_signature(signature: Seq<char>) -> bool {
    &&& signature.len() <= 255
    &&& forall|i: int| 0 < i < signature.len() ==> #[trigger] signature[i] != '('
}

/// No round bracket opens from position `from` on.
spec fn opens_no_more(signature: Seq<char>, from: nat) -> bool
    decreases signature.len() - from,
{
    if from >= signature.len() {
        true
    } else {
        signature[from as int] != '(' && opens_no_more(signature, from + 1)
    }
}

proof fn lemma_opens_no_more(signature: Seq<char>, from: nat)
    requires
        opens_no_more(signature, from),
    ensures
        forall|i: int| from <= i < signature.len() ==> #[trigger] signature[i] != '(',
    decreases signature.len() - from,
{
    if from < signature.len() {
        lemma_opens_no_more(signature, from + 1);
    }
}

/// The signatures of the methods and constructors that the library calls are plain.
pub proof fn lemma_signatures_plain()
    ensures
        is_plain_signature("()I"@),
        is_plain_signature("()Z"@),
        is_plain_signature("(IF)V"@),
        is_plain_signature("([B)V"@),
        is_plain_signature("()Ljava/util/Set;"@),
        is_plain_signature("()Ljava/util/Iterator;"@),
        is_plain_signature("()Ljava/lang/Object;"@),
        is_plain_signature("(Ljava/lang/Object;)Ljava/lang/Object;"@),
{
    reveal_strlit("()I");
    reveal_strlit("()Z");
    reveal_strlit("(IF)V");
    reveal_strlit("([B)V");
    reveal_strlit("()Ljava/util/Set;");
    reveal_strlit("()Ljava/util/Iterator;");
    reveal_strlit("()Ljava/lang/Object;");
    reveal_strlit("(Ljava/lang/Object;)Ljava/lang/Object;");
    reveal_with_fuel(opens_no_more, 40);
    lemma_opens_no_more("()I"@, 1);
    lemma_opens_no_more("()Z"@, 1);
    lemma_opens_no_more("(IF)V"@, 1);
    lemma_opens_no_more("([B)V"@, 1);
    lemma_opens_no_more("()Ljava/util/Set;"@, 1);
    lemma_opens_no_more("()Ljava/util/Iterator;"@, 1);
    lemma_opens_no_more("()Ljava/lang/Object;"@, 1);
    lemma_opens_no_more("(Ljava/lang/Object;)Ljava/lang/Object;"@, 1);
}

/// Calls `JNIEnv::call_method`: calls the method of this name and signature with
/// objects as arguments. It panics where a type that it parses in the signature is
/// itself a signature.
#[verifier::external_body]
pub(crate) fn call_method<'local>(
    env: &mut JNIEnv<'local>,
    object: &JObject<'_>,
    name: &str,
    signature: &str,
    arguments: &[&JObject<'_>],
) -> (value: JniResult<JValueOwned<'local>>)
    requires
        is_plain_signature(signature@),
{
    let values: Vec<JValue> = arguments.iter().map(|o| JValue::Object(*o)).collect();
    env.call_method(object, name, signature, &values)
}

/// What `call_method` may answer.
pub open(crate) spec fn call_method_answers<'local>(
    object: &JObject<'_>,
    name: Seq<char>,
    signature: Seq<char>,
    arguments: Seq<&JObject<'_>>,
    value: JniResult<JValueOwned<'local>>,
) -> bool {
    exists|e: &mut JNIEnv<'local>, n: &str, s: &str, a: &[&JObject<'_>]|
        {
            &&& #[trigger] call_ensures(call_method, (e, object, n, s, a), value)
            &&& n@ == name
            &&& s@ == signature
            &&& a@ == arguments
        }
}

/// `call_method`, called once, with the environment before and after the call.
pub(crate) fn call_method_once<'local>(
    env: &mut JNIEnv<'local>,
    object: &JObject<'_>,
    name: &str,
    signature: &str,
    arguments: &[&JObject<'_>],
) -> (r: (JniResult<JValueOwned<'local>>, Ghost<(JNIEnv<'local>, JNIEnv<'local>)>))
    requires
        is_plain_signature(signature@),
    ensures
        call_method_answers(object, name@, signature@, arguments@, r.0),
        exists|e: &mut JNIEnv<'local>|
            {
                &&& #[trigger] call_ensures(
                    call_method,
                    (e, object, name, signature, arguments),
                    r.0,
                )
                &&& *e == *old(env)
                &&& *final(e) == *final(env)
            },
        r.1@ == (*old(env), *final(env)),
{
    let ghost before = *env;
    let value = call_method(env, object, name, signature, arguments);
    assert(call_method_answers(object, name@, signature@, arguments@, value));
    (value, Ghost((before, *env)))
}

/// One call of `call_method` leads from one environment to the other, with this answer.
pub open(crate) spec fn calls_method_once<'local>(
    before: JNIEnv<'local>,
    object: &JObject<'_>,
    name: Seq<char>,
    signature: Seq<char>,
    arguments: Seq<&JObject<'_>>,
    value: JniResult<JValueOwned<'local>>,
    after: JNIEnv<'local>,
) -> bool {
    exists|
        e: &mut JNIEnv<'local>,
        n: &str,
        s: &str,
        a: &[&JObject<'_>],
        passage: Ghost<(JNIEnv<'local>, JNIEnv<'local>)>,
    |
        {
            &&& #[trigger] call_ensures(call_method_once, (e, object, n, s, a), (value, passage))
            &&& n@ == name
            &&& s@ == signature
            &&& a@ == arguments
            &&& passage@ == (before, after)
        }
}

/// Calls `JValueGen::l`: the object that a method returned; an error where it
/// returned something else.
#[verifier::external_body]
pub(crate) fn value_object<'local>(value: JValueOwned<'local>) -> (object: JniResult<
    JObject<'local>,
>) {
    value.l()
}

/// What `value_object` may answer.
pub open(crate) spec fn value_object_answers<'local>(
    value: JValueOwned<'local>,
    object: JniResult<JObject<'local>>,
) -> bool {
    call_ensures(value_object, (value,), object)
}

/// Calls `JValueGen::i`: the int that a method returned; an error where it
/// returned something else.
#[verifier::external_body]
pub(crate) fn value_int(value: JValueOwned<'_>) -> (number: JniResult<i32>) {
    value.i()
}

/// What `value_int` may answer.
pub open(crate) spec fn value_int_answers(value: JValueOwned<'_>, number: JniResult<i32>) -> bool {
    call_ensures(value_int, (value,), number)
}

/// Calls `JValueGen::z`: the boolean that a method returned; an error where it
/// returned something else.
#[verifier::external_body]
pub(crate) fn value_bool(value: JValueOwned<'_>) -> (truth: JniResult<bool>) {
    value.z()
}

/// What `value_bool` may answer.
pub open(crate) spec fn value_bool_answers(value: JValueOwned<'_>, truth: JniResult<bool>) -> bool {
    call_ensures(value_bool, (value,), truth)
}

/// Calls `JNIEnv::get_string`: the text of a Java string.
#[verifier::external_body]
pub(crate) fn get_string(env: &mut JNIEnv<'_>, string: &JObject<'_>) -> (text: JniResult<String>) {
    Ok(env.get_string(<&JString>::from(string))?.into())
}

/// What `get_string` may answer.
pub open(crate) spec fn get_string_answers(string: &JObject<'_>, text: JniResult<String>) -> bool {
    exists|e: &mut JNIEnv<'_>| #[trigger] call_ensures(get_string, (e, string), text)
}

/// `get_string`, called once, with the environment before and after the call.
pub(crate) fn get_string_once<'local>(env: &mut JNIEnv<'local>, string: &JObject<'_>) -> (r: (
    JniResult<String>,
    Ghost<(JNIEnv<'local>, JNIEnv<'local>)>,
))
    ensures
        get_string_answers(string, r.0),
        exists|e: &mut JNIEnv<'local>|
            {
                &&& #[trigger] call_ensures(get_string, (e, string), r.0)
                &&& *e == *old(env)
                &&& *final(e) == *final(env)
            },
        r.1@ == (*old(env), *final(env)),
{
    let ghost before = *env;
    let text = get_string(env, string);
    assert(get_string_answers(string, text));
    (text, Ghost((before, *env)))
}

/// One call of `get_string` leads from one environment to the other, with this answer.
pub open(crate) spec fn gets_string_once<'local>(
    before: JNIEnv<'local>,
    string: &JObject<'_>,
    text: JniResult<String>,
    after: JNIEnv<'local>,
) -> bool {
    exists|e: &mut JNIEnv<'local>, passage: Ghost<(JNIEnv<'local>, JNIEnv<'local>)>|
        {
            &&& #[trigger] call_ensures(get_string_once, (e, string), (text, passage))
            &&& passage@ == (before, after)
        }
}

/// Calls `JNIEnv::new_string`: a Java string with this text.
#[verifier::external_body]
pub(crate) fn new_string<'local>(env: &JNIEnv<'local>, text: &str) -> (string: JniResult<
    JObject<'local>,
>) {
    Ok(env.new_string(text)?.into())
}

/// What `new_string` may answer.
pub open(crate) spec fn new_string_answers<'local>(
    text: Seq<char>,
    string: JniResult<JObject<'local>>,
) -> bool {
    exists|e: &JNIEnv<'local>, t: &str| #[trigger]
        call_ensures(new_string, (e, t), string) && t@ == text
}

/// Calls `JNIEnv::get_array_length`: the length of a Java array.
#[verifier::external_body]
pub(crate) fn get_array_length(env: &mut JNIEnv<'_>, array: &JObject<'_>) -> (length: JniResult<
    i32,
>) {
    env.get_array_length(<&JObjectArray>::from(array))
}

/// What `get_array_length` may answer.
pub open(crate) spec fn get_array_length_answers(array: &JObject<'_>, length: JniResult<i32>) -> bool {
    exists|e: &mut JNIEnv<'_>| #[trigger] call_ensures(get_array_length, (e, array), length)
}

/// `get_array_length`, called once, with the environment before and after the call.
pub(crate) fn get_array_length_once<'local>(
    env: &mut JNIEnv<'local>,
    array: &JObject<'_>,
) -> (r: (JniResult<i32>, Ghost<(JNIEnv<'local>, JNIEnv<'local>)>))
    ensures
        get_array_length_answers(array, r.0),
        exists|e: &mut JNIEnv<'local>|
            {
                &&& #[trigger] call_ensures(get_array_length, (e, array), r.0)
                &&& *e == *old(env)
                &&& *final(e) == *final(env)
            },
        r.1@ == (*old(env), *final(env)),
{
    let ghost before = *env;
    let length = get_array_length(env, array);
    assert(get_array_length_answers(array, length));
    (length, Ghost((before, *env)))
}

/// One call of `get_array_length` leads from one environment to the other, with this
/// answer.
pub open(crate) spec fn gets_length_once<'local>(
    before: JNIEnv<'local>,
    array: &JObject<'_>,
    length: JniResult<i32>,
    after: JNIEnv<'local>,
) -> bool {
    exists|
        e: &mut JNIEnv<'local>,
        passage: Ghost<(JNIEnv<'local>, JNIEnv<'local>)>,
    |
        {
            &&& #[trigger] call_ensures(
                get_array_length_once,
                (e, array),
                (length, passage),
            )
            &&& passage@ == (before, after)
        }
}

/// Calls `JNIEnv::get_object_array_element`: an element of a Java array of
/// objects.
#[verifier::external_body]
pub(crate) fn get_object_array_element<'local>(
    env: &mut JNIEnv<'local>,
    array: &JObject<'_>,
    index: i32,
) -> (element: JniResult<JObject<'local>>) {
    env.get_object_array_element(<&JObjectArray>::from(array), index)
}

/// What `get_object_array_element` may answer.
pub open(crate) spec fn get_object_array_element_answers<'local>(
    array: &JObject<'_>,
    index: i32,
    element: JniResult<JObject<'local>>,
) -> bool {
    exists|e: &mut JNIEnv<'local>| #[trigger]
        call_ensures(get_object_array_element, (e, array, index), element)
}

/// `get_object_array_element`, called once, with the environment before and after the call.
pub(crate) fn get_object_array_element_once<'local>(
    env: &mut JNIEnv<'local>,
    array: &JObject<'_>,
    index: i32,
) -> (r: (JniResult<JObject<'local>>, Ghost<(JNIEnv<'local>, JNIEnv<'local>)>))
    ensures
        get_object_array_element_answers(array, index, r.0),
        exists|e: &mut JNIEnv<'local>|
            {
                &&& #[trigger] call_ensures(get_object_array_element, (e, array, index), r.0)
                &&& *e == *old(env)
                &&& *final(e) == *final(env)
            },
        r.1@ == (*old(env), *final(env)),
{
    let ghost before = *env;
    let element = get_object_array_element(env, array, index);
    assert(get_object_array_element_answers(array, index, element));
    (element, Ghost((before, *env)))
}

/// One call of `get_object_array_element` leads from one environment to the other, with this
/// answer.
pub open(crate) spec fn gets_element_once<'local>(
    before: JNIEnv<'local>,
    array: &JObject<'_>,
    index: i32,
    element: JniResult<JObject<'local>>,
    after: JNIEnv<'local>,
) -> bool {
    exists|
        e: &mut JNIEnv<'local>,
        passage: Ghost<(JNIEnv<'local>, JNIEnv<'local>)>,
    |
        {
            &&& #[trigger] call_ensures(
                get_object_array_element_once,
                (e, array, index),
                (element, passage),
            )
            &&& passage@ == (before, after)
        }
}

/// Calls `JNIEnv::set_object_array_element`: sets an element of a Java array of
/// objects.
#[verifier::external_body]
pub(crate) fn set_object_array_element(
    env: &mut JNIEnv<'_>,
    array: &JObject<'_>,
    index: i32,
    value: &JObject<'_>,
) -> (r: JniResult<()>) {
    env.set_object_array_element(<&JObjectArray>::from(array), index, value)
}

/// What `set_object_array_element` may answer.
pub open(crate) spec fn set_object_array_element_answers(
    array: &JObject<'_>,
    index: i32,
    value: &JObject<'_>,
    r: JniResult<()>,
) -> bool {
    exists|e: &mut JNIEnv<'_>| #[trigger]
        call_ensures(set_object_array_element, (e, array, index, value), r)
}

/// `set_object_array_element`, called once, with the environment before and after the call.
pub(crate) fn set_object_array_element_once<'local>(
    env: &mut JNIEnv<'local>,
    array: &JObject<'_>,
    index: i32,
    value: &JObject<'_>,
) -> (r: (JniResult<()>, Ghost<(JNIEnv<'local>, JNIEnv<'local>)>))
    ensures
        set_object_array_element_answers(array, index, value, r.0),
        exists|e: &mut JNIEnv<'local>|
            {
                &&& #[trigger] call_ensures(set_object_array_element, (e, array, index, value), r.0)
                &&& *e == *old(env)
                &&& *final(e) == *final(env)
            },
        r.1@ == (*old(env), *final(env)),
{
    let ghost before = *env;
    let set = set_object_array_element(env, array, index, value);
    assert(set_object_array_element_answers(array, index, value, set));
    (set, Ghost((before, *env)))
}

/// One call of `set_object_array_element` leads from one environment to the other, with this
/// answer.
pub open(crate) spec fn sets_element_once<'local>(
    before: JNIEnv<'local>,
    array: &JObject<'_>,
    index: i32,
    value: &JObject<'_>,
    set: JniResult<()>,
    after: JNIEnv<'local>,
) -> bool {
    exists|
        e: &mut JNIEnv<'local>,
        passage: Ghost<(JNIEnv<'local>, JNIEnv<'local>)>,
    |
        {
            &&& #[trigger] call_ensures(
                set_object_array_element_once,
                (e, array, index, value),
                (set, passage),
            )
            &&& passage@ == (before, after)
        }
}

/// Calls `JNIEnv::new_object_array`: a Java array of `length` objects of a class,
/// all of which are `initial`.
#[verifier::external_body]
pub(crate) fn new_object_array<'local>(
    env: &mut JNIEnv<'local>,
    length: i32,
    class: &JObject<'_>,
    initial: &JObject<'_>,
) -> (array: JniResult<JObject<'local>>) {
    Ok(env.new_object_array(length, <&JClass>::from(class), initial)?.into())
}

/// What `new_object_array` may answer.
pub open(crate) spec fn new_object_array_answers<'local>(
    length: i32,
    class: &JObject<'_>,
    initial: &JObject<'_>,
    array: JniResult<JObject<'local>>,
) -> bool {
    exists|e: &mut JNIEnv<'local>| #[trigger]
        call_ensures(new_object_array, (e, length, class, initial), array)
}

/// `new_object_array`, called once, with the environment before and after the call.
pub(crate) fn new_object_array_once<'local>(
    env: &mut JNIEnv<'local>,
    length: i32,
    class: &JObject<'_>,
    initial: &JObject<'_>,
) -> (r: (JniResult<JObject<'local>>, Ghost<(JNIEnv<'local>, JNIEnv<'local>)>))
    ensures
        new_object_array_answers(length, class, initial, r.0),
        exists|e: &mut JNIEnv<'local>|
            {
                &&& #[trigger] call_ensures(new_object_array, (e, length, class, initial), r.0)
                &&& *e == *old(env)
                &&& *final(e) == *final(env)
            },
        r.1@ == (*old(env), *final(env)),
{
    let ghost before = *env;
    let array = new_object_array(env, length, class, initial);
    assert(new_object_array_answers(length, class, initial, array));
    (array, Ghost((before, *env)))
}

/// One call of `new_object_array` leads from one environment to the other, with this
/// answer.
pub open(crate) spec fn makes_object_array_once<'local>(
    before: JNIEnv<'local>,
    length: i32,
    class: &JObject<'_>,
    initial: &JObject<'_>,
    array: JniResult<JObject<'local>>,
    after: JNIEnv<'local>,
) -> bool {
    exists|
        e: &mut JNIEnv<'local>,
        passage: Ghost<(JNIEnv<'local>, JNIEnv<'local>)>,
    |
        {
            &&& #[trigger] call_ensures(
                new_object_array_once,
                (e, length, class, initial),
                (array, passage),
            )
            &&& passage@ == (before, after)
        }
}

/// Calls `JNIEnv::get_byte_array_region`: the first `length` bytes of a Java array,
/// read into a buffer of that length.
#[verifier::external_body]
pub(crate) fn get_byte_array_region(env: &JNIEnv<'_>, array: &JObject<'_>, length: usize) -> (r:
    JniResult<Vec<i8>>)
    ensures
        r matches Ok(bytes) ==> bytes@.len() == length,
{
    let mut buffer = vec![0; length];
    env.get_byte_array_region(<&JByteArray>::from(array), 0, &mut buffer)?;
    Ok(buffer)
}

/// What `get_byte_array_region` may answer.
pub open(crate) spec fn get_byte_array_region_answers(
    array: &JObject<'_>,
    length: int,
    r: JniResult<Vec<i8>>,
) -> bool {
    exists|e: &JNIEnv<'_>, n: usize| #[trigger]
        call_ensures(get_byte_array_region, (e, array, n), r) && n == length
}

/// Calls `JNIEnv::get_int_array_region`: the first `length` numbers of a Java array,
/// read into a buffer of that length.
#[verifier::external_body]
pub(crate) fn get_int_array_region(env: &JNIEnv<'_>, array: &JObject<'_>, length: usize) -> (r:
    JniResult<Vec<i32>>)
    ensures
        r matches Ok(numbers) ==> numbers@.len() == length,
{
    let mut buffer = vec![0; length];
    env.get_int_array_region(<&JIntArray>::from(array), 0, &mut buffer)?;
    Ok(buffer)
}

/// What `get_int_array_region` may answer.
pub open(crate) spec fn get_int_array_region_answers(
    array: &JObject<'_>,
    length: int,
    r: JniResult<Vec<i32>>,
) -> bool {
    exists|e: &JNIEnv<'_>, n: usize| #[trigger]
        call_ensures(get_int_array_region, (e, array, n), r) && n == length
}

/// Calls `JNIEnv::get_long_array_region`: the first `length` numbers of a Java array,
/// read into a buffer of that length.
#[verifier::external_body]
pub(crate) fn get_long_array_region(env: &JNIEnv<'_>, array: &JObject<'_>, length: usize) -> (r:
    JniResult<Vec<i64>>)
    ensures
        r matches Ok(numbers) ==> numbers@.len() == length,
{
    let mut buffer = vec![0; length];
    env.get_long_array_region(<&JLongArray>::from(array), 0, &mut buffer)?;
    Ok(buffer)
}

/// What `get_long_array_region` may answer.
pub open(crate) spec fn get_long_array_region_answers(
    array: &JObject<'_>,
    length: int,
    r: JniResult<Vec<i64>>,
) -> bool {
    exists|e: &JNIEnv<'_>, n: usize| #[trigger]
        call_ensures(get_long_array_region, (e, array, n), r) && n == length
}

/// Calls `JNIEnv::get_float_array_region`: the bit patterns of the first `length`
/// numbers of a Java array, read into a buffer of that length.
#[verifier::external_body]
pub(crate) fn get_float_array_region(env: &JNIEnv<'_>, array: &JObject<'_>, length: usize) -> (r:
    JniResult<Vec<u32>>)
    ensures
        r matches Ok(numbers) ==> numbers@.len() == length,
{
    let mut buffer = vec![Default::default(); length];
    env.get_float_array_region(<&JFloatArray>::from(array), 0, &mut buffer)?;
    Ok(buffer.into_iter().map(|x| x.to_bits()).collect())
}

/// What `get_float_array_region` may answer.
pub open(crate) spec fn get_float_array_region_answers(
    array: &JObject<'_>,
    length: int,
    r: JniResult<Vec<u32>>,
) -> bool {
    exists|e: &JNIEnv<'_>, n: usize| #[trigger]
        call_ensures(get_float_array_region, (e, array, n), r) && n == length
}

/// Calls `JNIEnv::new_byte_array`: a Java array of `length` bytes.
#[verifier::external_body]
pub(crate) fn new_byte_array<'local>(env: &mut JNIEnv<'local>, length: i32) -> (array: JniResult<
    JObject<'local>,
>) {
    Ok(env.new_byte_array(length)?.into())
}

/// What `new_byte_array` may answer.
pub open(crate) spec fn new_byte_array_answers<'local>(
    length: i32,
    array: JniResult<JObject<'local>>,
) -> bool {
    exists|e: &mut JNIEnv<'local>| #[trigger] call_ensures(new_byte_array, (e, length), array)
}

/// `new_byte_array`, called once, with the environment before and after the call.
pub(crate) fn new_byte_array_once<'local>(
    env: &mut JNIEnv<'local>,
    length: i32,
) -> (r: (JniResult<JObject<'local>>, Ghost<(JNIEnv<'local>, JNIEnv<'local>)>))
    ensures
        new_byte_array_answers(length, r.0),
        exists|e: &mut JNIEnv<'local>|
            {
                &&& #[trigger] call_ensures(new_byte_array, (e, length), r.0)
                &&& *e == *old(env)
                &&& *final(e) == *final(env)
            },
        r.1@ == (*old(env), *final(env)),
{
    let ghost before = *env;
    let array = new_byte_array(env, length);
    assert(new_byte_array_answers(length, array));
    (array, Ghost((before, *env)))
}

/// One call of `new_byte_array` leads from one environment to the other, with this
/// answer.
pub open(crate) spec fn makes_byte_array_once<'local>(
    before: JNIEnv<'local>,
    length: i32,
    array: JniResult<JObject<'local>>,
    after: JNIEnv<'local>,
) -> bool {
    exists|
        e: &mut JNIEnv<'local>,
        passage: Ghost<(JNIEnv<'local>, JNIEnv<'local>)>,
    |
        {
            &&& #[trigger] call_ensures(
                new_byte_array_once,
                (e, length),
                (array, passage),
            )
            &&& passage@ == (before, after)
        }
}

/// Calls `JNIEnv::set_byte_array_region`: copies bytes into a Java array, from
/// `start` on.
#[verifier::external_body]
pub(crate) fn set_byte_array_region(
    env: &mut JNIEnv<'_>,
    array: &JObject<'_>,
    start: i32,
    bytes: &[i8],
) -> (r: JniResult<()>) {
    env.set_byte_array_region(<&JByteArray>::from(array), start, bytes)
}

/// What `set_byte_array_region` may answer.
pub open(crate) spec fn set_byte_array_region_answers(
    array: &JObject<'_>,
    start: i32,
    bytes: Seq<i8>,
    r: JniResult<()>,
) -> bool {
    exists|e: &mut JNIEnv<'_>, b: &[i8]| #[trigger]
        call_ensures(set_byte_array_region, (e, array, start, b), r) && b@ == bytes
}

/// `set_byte_array_region`, called once, with the environment before and after the call.
pub(crate) fn set_byte_array_region_once<'local>(
    env: &mut JNIEnv<'local>,
    array: &JObject<'_>,
    start: i32,
    bytes: &[i8],
) -> (r: (JniResult<()>, Ghost<(JNIEnv<'local>, JNIEnv<'local>)>))
    ensures
        set_byte_array_region_answers(array, start, bytes@, r.0),
        exists|e: &mut JNIEnv<'local>|
            {
                &&& #[trigger] call_ensures(set_byte_array_region, (e, array, start, bytes), r.0)
                &&& *e == *old(env)
                &&& *final(e) == *final(env)
            },
        r.1@ == (*old(env), *final(env)),
{
    let ghost before = *env;
    let set = set_byte_array_region(env, array, start, bytes);
    assert(set_byte_array_region_answers(array, start, bytes@, set));
    (set, Ghost((before, *env)))
}

/// One call of `set_byte_array_region` leads from one environment to the other, with this
/// answer.
pub open(crate) spec fn sets_bytes_once<'local>(
    before: JNIEnv<'local>,
    array: &JObject<'_>,
    start: i32,
    bytes: Seq<i8>,
    set: JniResult<()>,
    after: JNIEnv<'local>,
) -> bool {
    exists|
        e: &mut JNIEnv<'local>,
        b: &[i8],
        passage: Ghost<(JNIEnv<'local>, JNIEnv<'local>)>,
    |
        {
            &&& #[trigger] call_ensures(
                set_byte_array_region_once,
                (e, array, start, b),
                (set, passage),
            )
            &&& b@ == bytes
            &&& passage@ == (before, after)
        }
}

/// Calls `JNIEnv::new_object`: an object of a class whose constructor has this
/// signature and takes an int and a float, which is given by its bit pattern. It
/// panics where a type that it parses in the signature is itself a signature.
#[verifier::external_body]
pub(crate) fn new_object<'local>(
    env: &mut JNIEnv<'local>,
    class: &JObject<'_>,
    signature: &str,
    number: i32,
    float_bits: u32,
) -> (object: JniResult<JObject<'local>>)
    requires
        is_plain_signature(signature@),
{
    let arguments = [JValue::Int(number), JValue::Float(jni::sys::jfloat::from_bits(float_bits))];
    env.new_object(<&JClass>::from(class), signature, &arguments)
}

/// What `new_object` may answer.
pub open(crate) spec fn new_object_answers<'local>(
    class: &JObject<'_>,
    signature: Seq<char>,
    number: i32,
    float_bits: u32,
    object: JniResult<JObject<'local>>,
) -> bool {
    exists|e: &mut JNIEnv<'local>, s: &str| #[trigger]
        call_ensures(new_object, (e, class, s, number, float_bits), object) && s@ == signature
}

/// `new_object`, called once, with the environment before and after the call.
pub(crate) fn new_object_once<'local>(
    env: &mut JNIEnv<'local>,
    class: &JObject<'_>,
    signature: &str,
    number: i32,
    float_bits: u32,
) -> (r: (JniResult<JObject<'local>>, Ghost<(JNIEnv<'local>, JNIEnv<'local>)>))
    requires
        is_plain_signature(signature@),
    ensures
        new_object_answers(class, signature@, number, float_bits, r.0),
        exists|e: &mut JNIEnv<'local>|
            {
                &&& #[trigger] call_ensures(new_object, (e, class, signature, number, float_bits), r.0)
                &&& *e == *old(env)
                &&& *final(e) == *final(env)
            },
        r.1@ == (*old(env), *final(env)),
{
    let ghost before = *env;
    let object = new_object(env, class, signature, number, float_bits);
    assert(new_object_answers(class, signature@, number, float_bits, object));
    (object, Ghost((before, *env)))
}

/// One call of `new_object` leads from one environment to the other, with this
/// answer.
pub open(crate) spec fn makes_object_once<'local>(
    before: JNIEnv<'local>,
    class: &JObject<'_>,
    signature: Seq<char>,
    number: i32,
    float_bits: u32,
    object: JniResult<JObject<'local>>,
    after: JNIEnv<'local>,
) -> bool {
    exists|
        e: &mut JNIEnv<'local>,
        s: &str,
        passage: Ghost<(JNIEnv<'local>, JNIEnv<'local>)>,
    |
        {
            &&& #[trigger] call_ensures(
                new_object_once,
                (e, class, s, number, float_bits),
                (object, passage),
            )
            &&& s@ == signature
            &&& passage@ == (before, after)
        }
}

} // verus!
