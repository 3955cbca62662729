//! What Java asks of the common vector storage.

use crate::jni_util::JavaException;
use vstd::prelude::*;
use vstd::string::*;

verus! {

/// The exception that tells Java of a panic with the given text, if it has one.
pub fn panic_exception(text: Option<&str>) -> (exception: JavaException)
    ensures
        exception.class@ == "java/lang/RuntimeException"@,
        exception.message@ == match text {
            Some(t) => t@,
            None => "Unknown panic in Rust JNI code"@,
        },
{
    JavaException {
        class: "java/lang/RuntimeException",
        message: match text {
            Some(t) => t.to_owned(),
            None => "Unknown panic in Rust JNI code".to_owned(),
        },
    }
}

/// Java is told of a panic by an exception that holds the text of the panic.
pub proof fn lemma_panic_is_told(text: &str, told: JavaException, untold: JavaException)
    requires
        call_ensures(panic_exception, (Some(text),), told),
        call_ensures(panic_exception, (None::<&str>,), untold),
    ensures
        told.class@ == "java/lang/RuntimeException"@,
        untold.class@ == told.class@,
        told.message@ == text@,
        untold.message@ == "Unknown panic in Rust JNI code"@,
{
}

} // verus!
