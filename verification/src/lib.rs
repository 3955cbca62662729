//! Native side of the k-NN plugin: vector search over Faiss and NMSLIB for Java.
//!
//! The crate decides what is done: which requests are refused and how, which native
//! calls are made in which order and what is cleaned up where one fails, how
//! vectors are stored, found in mapped memory and scored, how bytes pass to and from
//! Java streams, and which Java exception an error becomes. It reads what Java
//! passes through the `jni` crate; calls into the native libraries are made around
//! it.

pub mod asking;
pub mod batches;
pub mod bits;
pub mod commons;
pub mod faiss_index_service;
pub mod faiss_methods;
pub mod faiss_plan;
pub mod faiss_requests;
pub mod faiss_service_jni;
pub mod faiss_util;
pub mod faiss_wrapper;
pub mod ffi;
pub mod id_bitmap;
pub mod java_objects;
pub mod jni_commons;
pub mod jni_util;
pub mod jvm;
pub mod native_plan;
pub mod nmslib_plan;
pub mod nmslib_service_jni;
pub mod nmslib_wrapper;
pub mod simd;
pub mod simd_service_jni;
pub mod stream_support;
pub mod string_map;
pub mod text;

use crate::faiss_index_service::IndexServiceError;
use crate::faiss_wrapper::FaissWrapperError;
use crate::jni_util::{JNIUtil, JavaException};
use crate::text::join;
use jni::JNIEnv;
use vstd::prelude::*;
use vstd::string::*;

verus! {

/// What can go wrong on the native side.
#[derive(Debug)]
pub enum KnnError {
    /// The JVM refused a call.
    Jni(jni::errors::Error),
    /// A native library failed.
    NativeLibrary(String),
    /// A pointer was null.
    NullPointer(String),
    /// An argument cannot be used.
    InvalidArgument(String),
    /// Reading or writing failed.
    Io(std::io::Error),
    /// The operation was called off.
    Aborted(String),
    /// Anything else.
    Internal(String),
}

/// What the native side returns.
pub type KnnResult<T> = Result<T, KnnError>;

impl KnnError {
    /// `text` describes the error.
    pub open spec fn describes(&self, text: Seq<char>) -> bool {
        match self {
            KnnError::Jni(e) => exists|shown: String| #[trigger]
                to_string_from_display_ensures(e, shown) && text == "JNI error: "@ + shown@,
            KnnError::NativeLibrary(message) => text == "Native library error: "@ + message@,
            KnnError::NullPointer(message) => text == "Null pointer: "@ + message@,
            KnnError::InvalidArgument(message) => text == "Invalid argument: "@ + message@,
            KnnError::Io(e) => exists|shown: String| #[trigger]
                to_string_from_display_ensures(e, shown) && text == "I/O error: "@ + shown@,
            KnnError::Aborted(message) => text == "Operation aborted: "@ + message@,
            KnnError::Internal(message) => text == "Internal error: "@ + message@,
        }
    }

    /// The description of the error.
    pub fn message(&self) -> (text: String)
        ensures
            self.describes(text@),
    {
        match self {
            KnnError::Jni(e) => {
                let shown = e.to_string();
                join("JNI error: ", shown.as_str())
            },
            KnnError::NativeLibrary(message) => join("Native library error: ", message.as_str()),
            KnnError::NullPointer(message) => join("Null pointer: ", message.as_str()),
            KnnError::InvalidArgument(message) => join("Invalid argument: ", message.as_str()),
            KnnError::Io(e) => {
                let shown = e.to_string();
                join("I/O error: ", shown.as_str())
            },
            KnnError::Aborted(message) => join("Operation aborted: ", message.as_str()),
            KnnError::Internal(message) => join("Internal error: ", message.as_str()),
        }
    }

    /// The class of the Java exception that the error becomes.
    pub open spec fn exception_class(&self) -> Seq<char> {
        match self {
            KnnError::InvalidArgument(_) => "java/lang/IllegalArgumentException"@,
            KnnError::NullPointer(_) => "java/lang/NullPointerException"@,
            KnnError::Io(_) => "java/io/IOException"@,
            KnnError::Aborted(_) => {
                "org/opensearch/knn/index/codec/nativeindex/IndexBuildAbortedException"@
            },
            KnnError::Jni(_) => "java/lang/RuntimeException"@,
            KnnError::NativeLibrary(_) => "java/lang/Exception"@,
            KnnError::Internal(_) => "java/lang/Exception"@,
        }
    }

    /// `text` is the message of the Java exception that the error becomes.
    pub open spec fn exception_says(&self, text: Seq<char>) -> bool {
        match self {
            KnnError::InvalidArgument(message) => text == message@,
            KnnError::NullPointer(message) => text == message@,
            KnnError::Io(e) => exists|shown: String| #[trigger]
                to_string_from_display_ensures(e, shown) && text == shown@,
            KnnError::Aborted(message) => text == message@,
            KnnError::Jni(e) => exists|shown: String| #[trigger]
                to_string_from_display_ensures(e, shown) && text == "JNI error: "@ + shown@,
            KnnError::NativeLibrary(message) => text == message@,
            KnnError::Internal(message) => text == message@,
        }
    }

    /// The Java exception that the error becomes.
    pub fn java_exception(&self) -> (exception: JavaException)
        ensures
            exception.class@ == self.exception_class(),
            self.exception_says(exception.message@),
    {
        match self {
            KnnError::InvalidArgument(message) => JavaException {
                class: "java/lang/IllegalArgumentException",
                message: message.as_str().to_owned(),
            },
            KnnError::NullPointer(message) => JavaException {
                class: "java/lang/NullPointerException",
                message: message.as_str().to_owned(),
            },
            KnnError::Io(e) => JavaException { class: "java/io/IOException", message: e.to_string() },
            KnnError::Aborted(message) => JavaException {
                class: "org/opensearch/knn/index/codec/nativeindex/IndexBuildAbortedException",
                message: message.as_str().to_owned(),
            },
            KnnError::Jni(e) => {
                let shown = e.to_string();
                JavaException {
                    class: "java/lang/RuntimeException",
                    message: join("JNI error: ", shown.as_str()),
                }
            },
            KnnError::NativeLibrary(message) => JavaException {
                class: "java/lang/Exception",
                message: message.as_str().to_owned(),
            },
            KnnError::Internal(message) => JavaException {
                class: "java/lang/Exception",
                message: message.as_str().to_owned(),
            },
        }
    }
}

impl From<jni::errors::Error> for KnnError {
    fn from(e: jni::errors::Error) -> (r: Self) {
        KnnError::Jni(e)
    }
}

impl vstd::std_specs::convert::FromSpecImpl<jni::errors::Error> for KnnError {
    open spec fn obeys_from_spec() -> bool {
        true
    }

    open spec fn from_spec(e: jni::errors::Error) -> Self {
        KnnError::Jni(e)
    }
}

impl From<std::io::Error> for KnnError {
    fn from(e: std::io::Error) -> (r: Self) {
        KnnError::Io(e)
    }
}

impl vstd::std_specs::convert::FromSpecImpl<std::io::Error> for KnnError {
    open spec fn obeys_from_spec() -> bool {
        true
    }

    open spec fn from_spec(e: std::io::Error) -> Self {
        KnnError::Io(e)
    }
}

impl From<FaissWrapperError> for KnnError {
    fn from(e: FaissWrapperError) -> (r: Self) {
        match e {
            FaissWrapperError::Runtime(message) => KnnError::NativeLibrary(message),
            FaissWrapperError::Jni(e) => KnnError::Jni(e),
            FaissWrapperError::NullPointer(message) => KnnError::NullPointer(message),
        }
    }
}

impl vstd::std_specs::convert::FromSpecImpl<FaissWrapperError> for KnnError {
    open spec fn obeys_from_spec() -> bool {
        true
    }

    open spec fn from_spec(e: FaissWrapperError) -> Self {
        match e {
            FaissWrapperError::Runtime(message) => KnnError::NativeLibrary(message),
            FaissWrapperError::Jni(e) => KnnError::Jni(e),
            FaissWrapperError::NullPointer(message) => KnnError::NullPointer(message),
        }
    }
}

/// An error of an index service as an error of the native side.
pub fn error_of_service(error: IndexServiceError) -> (r: KnnError)
    ensures
        match error {
            IndexServiceError::IndexNotTrained => {
                r matches KnnError::NativeLibrary(message) && message@ == "Index is not trained"@
            },
            IndexServiceError::FaissError(text) => r == KnnError::NativeLibrary(text),
            IndexServiceError::InvalidArgument(text) => r == KnnError::NativeLibrary(text),
            IndexServiceError::WriteError(text) => r == KnnError::NativeLibrary(text),
        },
{
    match error {
        IndexServiceError::IndexNotTrained => KnnError::NativeLibrary(
            "Index is not trained".to_owned(),
        ),
        IndexServiceError::FaissError(text) => KnnError::NativeLibrary(text),
        IndexServiceError::InvalidArgument(text) => KnnError::NativeLibrary(text),
        IndexServiceError::WriteError(text) => KnnError::NativeLibrary(text),
    }
}

/// The exception that tells Java of a panic with the given text, if it has one.
pub fn panic_exception(text: Option<&str>) -> (exception: JavaException)
    ensures
        exception.class@ == "java/lang/RuntimeException"@,
        exception.message@ == match text {
            Some(t) => "Native code panicked: "@ + t@,
            None => "Native code panicked (unknown payload)"@,
        },
{
    JavaException {
        class: "java/lang/RuntimeException",
        message: match text {
            Some(t) => join("Native code panicked: ", t),
            None => "Native code panicked (unknown payload)".to_owned(),
        },
    }
}

/// Whether an exception may be thrown: none may be pending. `pending` is nothing
/// where the JVM cannot tell.
pub fn may_throw(pending: Option<bool>) -> (may: bool)
    ensures
        may == (pending == Some(false)),
{
    match pending {
        Some(p) => !p,
        None => false,
    }
}

/// Tells Java of an error, unless it has been told of another: then, and where the JVM
/// cannot tell, the environment is left as it is.
pub fn throw_knn_error(env: &mut JNIEnv<'_>, error: &KnnError)
    ensures
        exists|pending: jvm::JniResult<bool>| #[trigger]
            jvm::exception_check_answers(*old(env), pending) && if pending == Ok::<bool, jni::errors::Error>(
                false,
            ) {
                exists|message: Seq<char>| #[trigger]
                    error.exception_says(message) && java_objects::throws(
                        *old(env),
                        error.exception_class(),
                        message,
                        *final(env),
                    )
            } else {
                *final(env) == *old(env)
            },
{
    let answer = jvm::exception_check(env);
    assert(jvm::exception_check_answers(*old(env), answer));
    let pending = match answer {
        Ok(pending) => Some(pending),
        Err(_) => None,
    };
    if may_throw(pending) {
        let exception = error.java_exception();
        let (answer, passage) = jvm::throw_new_once(
            env,
            exception.class,
            exception.message.as_str(),
        );
        assert(jvm::throws_once(*old(env), exception.class@, exception.message@, answer, *env));
        assert(error.exception_says(exception.message@));
    }
}

/// The version of the interface to Java that the native side is written for.
pub const KNN_JNI_VERSION: i32 = 0x0001_0001;

/// Tells the JVM that the native side cannot be loaded.
pub const LOAD_FAILED: i32 = -1;

/// What the JVM is told when it loads the native side.
pub fn on_load(initialized: bool) -> (answer: i32)
    ensures
        answer == if initialized {
            KNN_JNI_VERSION
        } else {
            LOAD_FAILED
        },
{
    if initialized {
        KNN_JNI_VERSION
    } else {
        LOAD_FAILED
    }
}

/// A place that keeps what is stored in it first.
pub struct FirstStored<T> {
    held: Option<T>,
}

/// What a place that holds `held` holds once these values were offered to it in turn.
pub open spec fn held_after<T>(held: Option<T>, offers: Seq<T>) -> Option<T>
    decreases offers.len(),
{
    if offers.len() == 0 {
        held
    } else {
        match held_after(held, offers.drop_last()) {
            Some(value) => Some(value),
            None => Some(offers.last()),
        }
    }
}

/// What was stored first stays, whatever is offered later: an empty place holds the first
/// value that it is offered, and nothing before that.
pub proof fn lemma_first_stays<T>(offers: Seq<T>)
    ensures
        held_after(None::<T>, offers) == if offers.len() == 0 {
            None
        } else {
            Some(offers[0])
        },
    decreases offers.len(),
{
    if offers.len() > 0 {
        lemma_first_stays(offers.drop_last());
    }
}

/// Offering one more value is offering it to what the others led to.
pub proof fn lemma_offers_continue<T>(held: Option<T>, offers: Seq<T>, value: T)
    ensures
        held_after(held, offers.push(value)) == held_after(
            held_after(held, offers),
            seq![value],
        ),
{
    reveal_with_fuel(held_after, 2);
    assert(offers.push(value).drop_last() =~= offers);
    assert(seq![value].drop_last() =~= Seq::<T>::empty());
}

impl<T> FirstStored<T> {
    /// What is held.
    pub closed spec fn view(&self) -> Option<T> {
        self.held
    }

    /// An empty place.
    pub fn new() -> (place: Self)
        ensures
            place@ is None,
    {
        FirstStored { held: None }
    }

    /// Stores a value where none is held; says whether it did.
    pub fn offer(&mut self, value: T) -> (stored: bool)
        ensures
            final(self)@ == held_after(old(self)@, seq![value]),
            stored == (old(self)@ is None),
    {
        proof {
            reveal_with_fuel(held_after, 2);
            assert(seq![value].drop_last() =~= Seq::<T>::empty());
        }
        if self.held.is_some() {
            return false;
        }
        self.held = Some(value);
        true
    }

    /// What is held, if anything is.
    pub fn get(&self) -> (value: Option<&T>)
        ensures
            match value {
                Some(v) => self@ == Some(*v),
                None => self@ is None,
            },
    {
        match &self.held {
            Some(value) => Some(value),
            None => None,
        }
    }
}

/// The classes and methods that were put at hand when the native side was loaded.
pub fn global_jni_util<'a>(instance: Option<&'a JNIUtil>) -> (util: &'a JNIUtil)
    requires
        instance is Some,
    ensures
        instance == Some(util),
{
    match instance {
        Some(util) => util,
        None => vstd::pervasive::unreached(),
    }
}

/// What Java is told of an error is what the error says, in an exception of a class that fits: only
/// an argument that cannot be used, a null pointer, an I/O error and an aborted build have
/// classes of their own.
pub proof fn lemma_exceptions(error: KnnError, exception: JavaException)
    requires
        call_ensures(KnnError::java_exception, (&error,), exception),
    ensures
        match error {
            KnnError::InvalidArgument(text) => exception.class@
                == "java/lang/IllegalArgumentException"@ && exception.message@ == text@,
            KnnError::NullPointer(text) => exception.class@ == "java/lang/NullPointerException"@
                && exception.message@ == text@,
            KnnError::Io(e) => exception.class@ == "java/io/IOException"@,
            KnnError::Aborted(text) => exception.class@
                == "org/opensearch/knn/index/codec/nativeindex/IndexBuildAbortedException"@
                && exception.message@ == text@,
            KnnError::Jni(e) => exception.class@ == "java/lang/RuntimeException"@,
            KnnError::NativeLibrary(text) => exception.class@ == "java/lang/Exception"@
                && exception.message@ == text@,
            KnnError::Internal(text) => exception.class@ == "java/lang/Exception"@
                && exception.message@ == text@,
        },
{
}

/// What an index service says is said on as it is, as an error of the native library.
pub proof fn lemma_service_errors(error: IndexServiceError, r: KnnError)
    requires
        call_ensures(error_of_service, (error,), r),
    ensures
        r matches KnnError::NativeLibrary(text) && match error {
            IndexServiceError::FaissError(message)
            | IndexServiceError::InvalidArgument(message)
            | IndexServiceError::WriteError(message) => text@ == message@,
            IndexServiceError::IndexNotTrained => text@ == "Index is not trained"@,
        },
{
}

/// A place keeps what it is offered first, however often it is offered more, and says of each offer
/// whether it was kept.
pub proof fn lemma_offer<T>(place: &mut FirstStored<T>, value: T, stored: bool)
    requires
        call_ensures(FirstStored::<T>::offer, (place, value), stored),
    ensures
        old(place)@ is Some ==> final(place)@ == old(place)@ && !stored,
        old(place)@ is None ==> final(place)@ == Some(value) && stored,
{
    reveal_with_fuel(held_after, 2);
    assert(seq![value].drop_last() =~= Seq::<T>::empty());
}

/// An exception is thrown only where the JVM says that none is pending.
pub proof fn lemma_may_throw(pending: Option<bool>, may: bool)
    requires
        call_ensures(may_throw, (pending,), may),
    ensures
        pending is None ==> !may,
        pending matches Some(p) ==> may != p,
{
}

/// An error is told to Java once, by an exception of the class that fits it and with what it says,
/// where no exception is pending; where one is, or the JVM cannot tell, nothing is thrown.
pub proof fn lemma_error_is_thrown(env: &mut JNIEnv<'_>, error: KnnError)
    requires
        call_ensures(throw_knn_error, (env, &error), ()),
    ensures
        exists|pending: jvm::JniResult<bool>| #[trigger]
            jvm::exception_check_answers(*old(env), pending) && {
                &&& pending != Ok::<bool, jni::errors::Error>(false) ==> *final(env) == *old(env)
                &&& pending == Ok::<bool, jni::errors::Error>(false) ==> match error {
                    KnnError::InvalidArgument(text) => is_thrown(
                        *old(env),
                        "java/lang/IllegalArgumentException"@,
                        text@,
                        *final(env),
                    ),
                    KnnError::NullPointer(text) => is_thrown(
                        *old(env),
                        "java/lang/NullPointerException"@,
                        text@,
                        *final(env),
                    ),
                    KnnError::Aborted(text) => is_thrown(
                        *old(env),
                        "org/opensearch/knn/index/codec/nativeindex/IndexBuildAbortedException"@,
                        text@,
                        *final(env),
                    ),
                    KnnError::NativeLibrary(text) | KnnError::Internal(text) => is_thrown(
                        *old(env),
                        "java/lang/Exception"@,
                        text@,
                        *final(env),
                    ),
                    KnnError::Io(e) => tells_of_io(*old(env), e, *final(env)),
                    KnnError::Jni(e) => tells_of_jni(*old(env), e, *final(env)),
                }
            },
{
    let pending = choose|pending: jvm::JniResult<bool>| #[trigger]
        jvm::exception_check_answers(*old(env), pending) && if pending == Ok::<bool, jni::errors::Error>(
            false,
        ) {
            exists|message: Seq<char>| #[trigger]
                error.exception_says(message) && java_objects::throws(
                    *old(env),
                    error.exception_class(),
                    message,
                    *final(env),
                )
        } else {
            *final(env) == *old(env)
        };
    if pending == Ok::<bool, jni::errors::Error>(false) {
        let message = choose|message: Seq<char>| #[trigger]
            error.exception_says(message) && java_objects::throws(
                *old(env),
                error.exception_class(),
                message,
                *final(env),
            );
        let answer = choose|answer: jvm::JniResult<()>| #[trigger]
            jvm::throws_once(*old(env), error.exception_class(), message, answer, *final(env));
        assert(is_thrown(*old(env), error.exception_class(), message, *final(env)));
    }
}

/// An exception of this class and with this message was asked for once, and nothing else was.
pub open spec fn is_thrown(
    before: JNIEnv<'_>,
    class: Seq<char>,
    message: Seq<char>,
    after: JNIEnv<'_>,
) -> bool {
    exists|answer: jvm::JniResult<()>| #[trigger]
        jvm::throws_once(before, class, message, answer, after)
}

/// An exception was asked for that says what an I/O error says of itself.
pub open spec fn tells_of_io(before: JNIEnv<'_>, e: std::io::Error, after: JNIEnv<'_>) -> bool {
    exists|shown: String| #[trigger]
        to_string_from_display_ensures(&e, shown) && is_thrown(
            before,
            "java/io/IOException"@,
            shown@,
            after,
        )
}

/// An exception was asked for that says what an error of the JVM says of itself, and that it is one.
pub open spec fn tells_of_jni(
    before: JNIEnv<'_>,
    e: jni::errors::Error,
    after: JNIEnv<'_>,
) -> bool {
    exists|shown: String| #[trigger]
        to_string_from_display_ensures(&e, shown) && is_thrown(
            before,
            "java/lang/RuntimeException"@,
            "JNI error: "@ + shown@,
            after,
        )
}

/// Each error says what it is of, before what it says.
pub proof fn lemma_messages(error: KnnError, text: String)
    requires
        call_ensures(KnnError::message, (&error,), text),
    ensures
        match error {
            KnnError::NativeLibrary(message) => text@ == "Native library error: "@ + message@,
            KnnError::NullPointer(message) => text@ == "Null pointer: "@ + message@,
            KnnError::InvalidArgument(message) => text@ == "Invalid argument: "@ + message@,
            KnnError::Aborted(message) => text@ == "Operation aborted: "@ + message@,
            KnnError::Internal(message) => text@ == "Internal error: "@ + message@,
            KnnError::Jni(e) => exists|shown: String| #[trigger]
                to_string_from_display_ensures(&e, shown) && text@ == "JNI error: "@ + shown@,
            KnnError::Io(e) => exists|shown: String| #[trigger]
                to_string_from_display_ensures(&e, shown) && text@ == "I/O error: "@ + shown@,
        },
{
}

/// Errors keep their kind and their text on their way to Java: one of the native library stays one,
/// and so does a null pointer and what the JVM said.
pub proof fn lemma_errors_kept(e: FaissWrapperError, r: KnnError)
    requires
        call_ensures(<KnnError as From<FaissWrapperError>>::from, (e,), r),
    ensures
        e matches FaissWrapperError::Runtime(text) ==> r == KnnError::NativeLibrary(text),
        e matches FaissWrapperError::NullPointer(text) ==> r == KnnError::NullPointer(text),
        e matches FaissWrapperError::Jni(error) ==> r == KnnError::Jni(error),
{
}

/// The JVM is told the version that the native side is written for where it is ready, and else that
/// it is not; a panic is told with its text; and what is held is given out.
pub proof fn lemma_loading<T>(
    ready: i32,
    unready: i32,
    text: &str,
    panicked: JavaException,
    place: &FirstStored<T>,
    value: Option<&T>,
)
    requires
        call_ensures(on_load, (true,), ready),
        call_ensures(on_load, (false,), unready),
        call_ensures(panic_exception, (Some(text),), panicked),
        call_ensures(FirstStored::<T>::get, (place,), value),
    ensures
        ready == 0x10001,
        unready == -1,
        panicked.class@ == "java/lang/RuntimeException"@,
        panicked.message@ == "Native code panicked: "@ + text@,
        value is Some <==> place@ is Some,
        value matches Some(v) ==> place@ == Some(*v),
{
}

} // verus!
