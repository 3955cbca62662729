//! Conversions from Java values, and the Java classes and methods that are kept
//! at hand.

use crate::jvm;
use crate::string_map::StringMap;
use crate::text::{join, same_text};
use jni::objects::{GlobalRef, JMethodID};
use jni::{JNIEnv, JavaVM};
use vstd::prelude::*;
use vstd::string::*;

verus! {

pub const FAISS_NAME: &'static str = "faiss";
pub const NMSLIB_NAME: &'static str = "nmslib";

pub const ILLEGAL_ARGUMENT_PATH: &'static str = "java/lang/IllegalArgumentException";

pub const SPACE_TYPE: &'static str = "spaceType";
pub const METHOD: &'static str = "method";
pub const INDEX_DESCRIPTION: &'static str = "index_description";
pub const PARAMETERS: &'static str = "parameters";
pub const TRAINING_DATASET_SIZE_LIMIT: &'static str = "training_dataset_size_limit";
pub const INDEX_THREAD_QUANTITY: &'static str = "indexThreadQty";

pub const L2: &'static str = "l2";
pub const L1: &'static str = "l1";
pub const LINF: &'static str = "linf";
pub const COSINESIMIL: &'static str = "cosinesimil";
pub const INNER_PRODUCT: &'static str = "innerproduct";
pub const NEG_DOT_PRODUCT: &'static str = "negdotprod";
pub const HAMMING: &'static str = "hamming";

pub const NPROBES: &'static str = "nprobes";
pub const COARSE_QUANTIZER: &'static str = "coarse_quantizer";
pub const M: &'static str = "m";
pub const M_NMSLIB: &'static str = "M";
pub const EF_CONSTRUCTION: &'static str = "ef_construction";
pub const EF_CONSTRUCTION_NMSLIB: &'static str = "efConstruction";
pub const EF_SEARCH: &'static str = "ef_search";

pub const SPACE_TYPE_FAISS_INDEX_JAVA_KNN_CONSTANTS: &'static str = "space_type";
pub const QUANTIZATION_LEVEL_FAISS_INDEX_LOAD_PARAMETER_JAVA_KNN_CONSTANTS: &'static str =
    "quantization_level";

/// How many bits binary quantization keeps of each dimension.
#[derive(Debug, Clone, Copy, PartialEq, Eq, Structural)]
pub enum BQQuantizationLevel {
    OneBit,
    TwoBit,
    FourBit,
    /// No quantization.
    Unquantized,
}

impl BQQuantizationLevel {
    /// The name of the level.
    pub open spec fn spec_name(self) -> Seq<char> {
        match self {
            BQQuantizationLevel::OneBit => "OneBit"@,
            BQQuantizationLevel::TwoBit => "TwoBit"@,
            BQQuantizationLevel::FourBit => "FourBit"@,
            BQQuantizationLevel::Unquantized => "None"@,
        }
    }

    /// The name of the level.
    pub fn name(self) -> (text: String)
        ensures
            text@ == self.spec_name(),
    {
        match self {
            BQQuantizationLevel::OneBit => "OneBit".to_owned(),
            BQQuantizationLevel::TwoBit => "TwoBit".to_owned(),
            BQQuantizationLevel::FourBit => "FourBit".to_owned(),
            BQQuantizationLevel::Unquantized => "None".to_owned(),
        }
    }
}

/// What can go wrong while values are exchanged with Java.
#[derive(Debug)]
pub enum JniUtilError {
    Runtime(String),
    Jni(jni::errors::Error),
    NullPointer(String),
}

impl JniUtilError {
    /// `text` describes the error.
    pub open spec fn describes(&self, text: Seq<char>) -> bool {
        match self {
            JniUtilError::Runtime(message) => text == message@,
            JniUtilError::Jni(e) => exists|shown: String| #[trigger]
                to_string_from_display_ensures(e, shown) && text == "JNI error: "@ + shown@,
            JniUtilError::NullPointer(message) => text == "Null pointer: "@ + message@,
        }
    }

    /// The description of the error.
    pub fn message(&self) -> (text: String)
        ensures
            self.describes(text@),
    {
        match self {
            JniUtilError::Runtime(message) => message.as_str().to_owned(),
            JniUtilError::Jni(e) => {
                let shown = e.to_string();
                join("JNI error: ", shown.as_str())
            },
            JniUtilError::NullPointer(message) => join("Null pointer: ", message.as_str()),
        }
    }
}

pub(crate) fn runtime<T>(text: &str) -> (r: Result<T, JniUtilError>)
    ensures
        r matches Err(JniUtilError::Runtime(message)) && message@ == text@,
{
    Err(JniUtilError::Runtime(text.to_owned()))
}

pub(crate) fn null_pointer<T>(text: &str) -> (r: Result<T, JniUtilError>)
    ensures
        r matches Err(JniUtilError::NullPointer(message)) && message@ == text@,
{
    Err(JniUtilError::NullPointer(text.to_owned()))
}

/// A function that is to be called once, when what it guards is no longer needed.
pub struct JniReleaseGuard<F: FnOnce()> {
    release_func: Option<F>,
}

impl<F: FnOnce()> JniReleaseGuard<F> {
    /// The function, as long as it is not taken out.
    pub closed spec fn pending(&self) -> Option<F> {
        self.release_func
    }

    /// Guards something by `f`.
    pub fn new(f: F) -> (guard: Self)
        ensures
            guard.pending() == Some(f),
    {
        JniReleaseGuard { release_func: Some(f) }
    }

    /// Takes the function out, so that it is called once.
    pub fn take(&mut self) -> (f: Option<F>)
        ensures
            f == old(self).pending(),
            final(self).pending() is None,
    {
        self.release_func.take()
    }
}

/// The Java classes and methods that are kept at hand.
pub struct JNIUtil {
    pub vm: Option<JavaVM>,
    pub cached_classes: StringMap<GlobalRef>,
    pub cached_methods: StringMap<JMethodID>,
}

impl JNIUtil {
    /// Nothing is kept at hand.
    pub open spec fn is_blank(&self) -> bool {
        &&& self.vm is None
        &&& self.cached_classes@ == Map::<Seq<char>, GlobalRef>::empty()
        &&& self.cached_methods@ == Map::<Seq<char>, JMethodID>::empty()
    }

    /// Keeps nothing at hand.
    pub fn new() -> (util: Self)
        ensures
            util.is_blank(),
    {
        JNIUtil { vm: None, cached_classes: StringMap::new(), cached_methods: StringMap::new() }
    }

    /// Lets go of everything that is kept at hand.
    pub fn uninitialize(&mut self)
        ensures
            final(self).is_blank(),
    {
        self.cached_classes.clear();
        self.cached_methods.clear();
        self.vm = None;
    }

    /// The environment of the current thread; there is none before the virtual
    /// machine is known. Whether the thread is attached is up to the machine.
    pub fn get_jni_current_env(&self) -> (env: Option<JNIEnv<'_>>)
        ensures
            match self.vm {
                Some(vm) => exists|answer: jvm::JniResult<JNIEnv<'_>>| #[trigger]
                    jvm::get_env_answers(&vm, answer) && env == match answer {
                        Ok(e) => Some(e),
                        Err(_) => None,
                    },
                None => env is None,
            },
    {
        match &self.vm {
            Some(vm) => {
                let answer = jvm::get_env(vm);
                assert(jvm::get_env_answers(vm, answer));
                match answer {
                    Ok(env) => Some(env),
                    Err(_) => None,
                }
            },
            None => None,
        }
    }
}

impl Default for JNIUtil {
    fn default() -> (util: Self)
        ensures
            util.is_blank(),
    {
        JNIUtil::new()
    }
}

/// The name under which method `method` of class `class` is kept.
pub open spec fn method_key(class: Seq<char>, method: Seq<char>) -> Seq<char> {
    class + ":"@ + method
}

fn key_of_method(class: &str, method: &str) -> (key: String)
    ensures
        key@ == method_key(class@, method@),
{
    let mut key = join(class, ":");
    key.append(method);
    key
}

/// One thing that is looked up in the JVM and kept at hand.
#[derive(Debug, Clone, Copy)]
pub enum CacheStep {
    Class { class: &'static str },
    Method { class: &'static str, method: &'static str, signature: &'static str },
    StaticMethod { class: &'static str, method: &'static str, signature: &'static str },
}

/// A step in terms of text.
pub enum CacheStepView {
    Class { class: Seq<char> },
    Method { class: Seq<char>, method: Seq<char>, signature: Seq<char> },
    StaticMethod { class: Seq<char>, method: Seq<char>, signature: Seq<char> },
}

impl View for CacheStep {
    type V = CacheStepView;

    open spec fn view(&self) -> CacheStepView {
        match self {
            CacheStep::Class { class } => CacheStepView::Class { class: class@ },
            CacheStep::Method { class, method, signature } => CacheStepView::Method {
                class: class@,
                method: method@,
                signature: signature@,
            },
            CacheStep::StaticMethod { class, method, signature } => CacheStepView::StaticMethod {
                class: class@,
                method: method@,
                signature: signature@,
            },
        }
    }
}

/// What is looked up at the start, in order.
pub open spec fn cache_steps() -> Seq<CacheStepView> {
    seq![
        CacheStepView::Class { class: "java/io/IOException"@ },
        CacheStepView::Class { class: "java/lang/Exception"@ },
        CacheStepView::Class { class: "java/util/Map"@ },
        CacheStepView::Method {
            class: "java/util/Map"@,
            method: "entrySet"@,
            signature: "()Ljava/util/Set;"@,
        },
        CacheStepView::Class { class: "java/util/Set"@ },
        CacheStepView::Method {
            class: "java/util/Set"@,
            method: "iterator"@,
            signature: "()Ljava/util/Iterator;"@,
        },
        CacheStepView::Class { class: "java/util/Iterator"@ },
        CacheStepView::Method {
            class: "java/util/Iterator"@,
            method: "hasNext"@,
            signature: "()Z"@,
        },
        CacheStepView::Method {
            class: "java/util/Iterator"@,
            method: "next"@,
            signature: "()Ljava/lang/Object;"@,
        },
        CacheStepView::Class { class: "java/lang/Object"@ },
        CacheStepView::Class { class: "java/util/Map$Entry"@ },
        CacheStepView::Method {
            class: "java/util/Map$Entry"@,
            method: "getKey"@,
            signature: "()Ljava/lang/Object;"@,
        },
        CacheStepView::Method {
            class: "java/util/Map$Entry"@,
            method: "getValue"@,
            signature: "()Ljava/lang/Object;"@,
        },
        CacheStepView::Class { class: "java/lang/Integer"@ },
        CacheStepView::Method {
            class: "java/lang/Integer"@,
            method: "intValue"@,
            signature: "()I"@,
        },
        CacheStepView::Class { class: "org/opensearch/knn/index/query/KNNQueryResult"@ },
        CacheStepView::Method {
            class: "org/opensearch/knn/index/query/KNNQueryResult"@,
            method: "<init>"@,
            signature: "(IF)V"@,
        },
        CacheStepView::Class { class: "org/apache/lucene/index/MergeAbortChecker"@ },
        CacheStepView::StaticMethod {
            class: "org/apache/lucene/index/MergeAbortChecker"@,
            method: "isMergeAborted"@,
            signature: "()Z"@,
        },
    ]
}

/// Step `p` of what is looked up at the start; nothing past the last one.
pub fn cache_step(p: usize) -> (step: Option<CacheStep>)
    ensures
        match step {
            Some(s) => p < cache_steps().len() && s@ == cache_steps()[p as int],
            None => p >= cache_steps().len(),
        },
{
    let step = if p == 0 {
        CacheStep::Class { class: "java/io/IOException" }
    } else if p == 1 {
        CacheStep::Class { class: "java/lang/Exception" }
    } else if p == 2 {
        CacheStep::Class { class: "java/util/Map" }
    } else if p == 3 {
        CacheStep::Method {
            class: "java/util/Map",
            method: "entrySet",
            signature: "()Ljava/util/Set;",
        }
    } else if p == 4 {
        CacheStep::Class { class: "java/util/Set" }
    } else if p == 5 {
        CacheStep::Method {
            class: "java/util/Set",
            method: "iterator",
            signature: "()Ljava/util/Iterator;",
        }
    } else if p == 6 {
        CacheStep::Class { class: "java/util/Iterator" }
    } else if p == 7 {
        CacheStep::Method { class: "java/util/Iterator", method: "hasNext", signature: "()Z" }
    } else if p == 8 {
        CacheStep::Method {
            class: "java/util/Iterator",
            method: "next",
            signature: "()Ljava/lang/Object;",
        }
    } else if p == 9 {
        CacheStep::Class { class: "java/lang/Object" }
    } else if p == 10 {
        CacheStep::Class { class: "java/util/Map$Entry" }
    } else if p == 11 {
        CacheStep::Method {
            class: "java/util/Map$Entry",
            method: "getKey",
            signature: "()Ljava/lang/Object;",
        }
    } else if p == 12 {
        CacheStep::Method {
            class: "java/util/Map$Entry",
            method: "getValue",
            signature: "()Ljava/lang/Object;",
        }
    } else if p == 13 {
        CacheStep::Class { class: "java/lang/Integer" }
    } else if p == 14 {
        CacheStep::Method { class: "java/lang/Integer", method: "intValue", signature: "()I" }
    } else if p == 15 {
        CacheStep::Class { class: "org/opensearch/knn/index/query/KNNQueryResult" }
    } else if p == 16 {
        CacheStep::Method {
            class: "org/opensearch/knn/index/query/KNNQueryResult",
            method: "<init>",
            signature: "(IF)V",
        }
    } else if p == 17 {
        CacheStep::Class { class: "org/apache/lucene/index/MergeAbortChecker" }
    } else if p == 18 {
        CacheStep::StaticMethod {
            class: "org/apache/lucene/index/MergeAbortChecker",
            method: "isMergeAborted",
            signature: "()Z",
        }
    } else {
        return None;
    };
    Some(step)
}

/// The names of the classes and methods that are at hand after the first `n`
/// steps.
pub open spec fn names_after(n: nat) -> (Set<Seq<char>>, Set<Seq<char>>)
    decreases n,
{
    if n == 0 {
        (Set::empty(), Set::empty())
    } else {
        let (classes, methods) = names_after((n - 1) as nat);
        match cache_steps()[n - 1] {
            CacheStepView::Class { class } => (classes.insert(class), methods),
            CacheStepView::Method { class, method, .. } => (
                classes,
                methods.insert(method_key(class, method)),
            ),
            CacheStepView::StaticMethod { class, method, .. } => (
                classes,
                methods.insert(method_key(class, method)),
            ),
        }
    }
}

/// Each method is looked up after its class, and once every step is done the
/// methods that conversions use are at hand.
pub proof fn lemma_cache_steps_suffice()
    ensures
        forall|n: nat|
            #![trigger names_after(n)]
            n < cache_steps().len() ==> match cache_steps()[n as int] {
                CacheStepView::Class { .. } => true,
                CacheStepView::Method { class, .. } => names_after(n).0.contains(class),
                CacheStepView::StaticMethod { class, .. } => names_after(n).0.contains(class),
            },
        ({
            let (classes, methods) = names_after(cache_steps().len());
            &&& classes.contains("java/lang/Integer"@)
            &&& classes.contains("org/opensearch/knn/index/query/KNNQueryResult"@)
            &&& methods.contains(method_key("java/util/Map"@, "entrySet"@))
            &&& methods.contains(method_key("java/util/Set"@, "iterator"@))
            &&& methods.contains(method_key("java/util/Iterator"@, "hasNext"@))
            &&& methods.contains(method_key("java/util/Iterator"@, "next"@))
            &&& methods.contains(method_key("java/util/Map$Entry"@, "getKey"@))
            &&& methods.contains(method_key("java/util/Map$Entry"@, "getValue"@))
            &&& methods.contains(method_key("java/lang/Integer"@, "intValue"@))
            &&& methods.contains(
                method_key("org/opensearch/knn/index/query/KNNQueryResult"@, "<init>"@),
            )
        }),
{
    reveal_with_fuel(names_after, 20);
    assert forall|n: nat| #![trigger names_after(n)] n < cache_steps().len() implies match cache_steps()[n as int] {
        CacheStepView::Class { .. } => true,
        CacheStepView::Method { class, .. } => names_after(n).0.contains(class),
        CacheStepView::StaticMethod { class, .. } => names_after(n).0.contains(class),
    } by {
        assert(n == 0 || n == 1 || n == 2 || n == 3 || n == 4 || n == 5 || n == 6 || n == 7 || n
            == 8 || n == 9 || n == 10 || n == 11 || n == 12 || n == 13 || n == 14 || n == 15 || n
            == 16 || n == 17 || n == 18);
    }
}

/// The names that a step is about are among `names`.
pub open spec fn names_step(
    names: (Set<Seq<char>>, Set<Seq<char>>),
    step: CacheStepView,
) -> bool {
    match step {
        CacheStepView::Class { class } => names.0.contains(class),
        CacheStepView::Method { class, method, .. } => {
            &&& names.0.contains(class)
            &&& names.1.contains(method_key(class, method))
        },
        CacheStepView::StaticMethod { class, method, .. } => {
            &&& names.0.contains(class)
            &&& names.1.contains(method_key(class, method))
        },
    }
}

/// No step looks up what an earlier one did.
pub proof fn lemma_cache_steps_differ()
    ensures
        forall|n: nat|
            #![trigger names_after(n)]
            n < cache_steps().len() ==> match cache_steps()[n as int] {
                CacheStepView::Class { class } => !names_after(n).0.contains(class),
                CacheStepView::Method { class, method, .. } => !names_after(n).1.contains(
                    method_key(class, method),
                ),
                CacheStepView::StaticMethod { class, method, .. } => !names_after(n).1.contains(
                    method_key(class, method),
                ),
            },
{
    reveal_with_fuel(names_after, 20);
    lemma_class_names_differ();
    lemma_method_keys_differ();
    assert forall|n: nat| #![trigger names_after(n)] n < cache_steps().len() implies match cache_steps()[n as int] {
        CacheStepView::Class { class } => !names_after(n).0.contains(class),
        CacheStepView::Method { class, method, .. } => !names_after(n).1.contains(
            method_key(class, method),
        ),
        CacheStepView::StaticMethod { class, method, .. } => !names_after(n).1.contains(
            method_key(class, method),
        ),
    } by {
        assert(n == 0 || n == 1 || n == 2 || n == 3 || n == 4 || n == 5 || n == 6 || n == 7 || n
            == 8 || n == 9 || n == 10 || n == 11 || n == 12 || n == 13 || n == 14 || n == 15 || n
            == 16 || n == 17 || n == 18);
    }
}

/// The lengths of the names of the classes, and what tells those of one length apart.
proof fn lemma_class_names()
    ensures
        "java/io/IOException"@.len() == 19 && "java/io/IOException"@[5] == 'i',
        "java/lang/Exception"@.len() == 19 && "java/lang/Exception"@[5] == 'l',
        "java/util/Map$Entry"@.len() == 19 && "java/util/Map$Entry"@[5] == 'u',
        "java/util/Map"@.len() == 13 && "java/util/Map"@[10] == 'M',
        "java/util/Set"@.len() == 13 && "java/util/Set"@[10] == 'S',
        "java/util/Iterator"@.len() == 18 && "java/util/Iterator"@[10] == 'I',
        "java/util/Map$Entry"@[10] == 'M',
        "java/lang/Object"@.len() == 16,
        "java/lang/Integer"@.len() == 17 && "java/lang/Integer"@[5] == 'l',
        "java/util/Iterator"@[5] == 'u',
        "org/opensearch/knn/index/query/KNNQueryResult"@.len() == 45,
        "org/apache/lucene/index/MergeAbortChecker"@.len() == 41,
{
    reveal_strlit("java/io/IOException");
    reveal_strlit("java/lang/Exception");
    reveal_strlit("java/util/Map");
    reveal_strlit("java/util/Set");
    reveal_strlit("java/util/Iterator");
    reveal_strlit("java/lang/Object");
    reveal_strlit("java/util/Map$Entry");
    reveal_strlit("java/lang/Integer");
    reveal_strlit("org/opensearch/knn/index/query/KNNQueryResult");
    reveal_strlit("org/apache/lucene/index/MergeAbortChecker");
}

proof fn lemma_class_names_differ()
    ensures
        "java/io/IOException"@ != "java/lang/Exception"@,
        "java/io/IOException"@ != "java/util/Map$Entry"@,
        "java/lang/Exception"@ != "java/util/Map$Entry"@,
        "java/util/Map"@ != "java/util/Set"@,
        "java/io/IOException"@.len() == 19,
        "java/lang/Exception"@.len() == 19,
        "java/util/Map$Entry"@.len() == 19,
        "java/util/Map"@.len() == 13,
        "java/util/Set"@.len() == 13,
        "java/util/Iterator"@.len() == 18,
        "java/lang/Object"@.len() == 16,
        "java/lang/Integer"@.len() == 17,
        "org/opensearch/knn/index/query/KNNQueryResult"@.len() == 45,
        "org/apache/lucene/index/MergeAbortChecker"@.len() == 41,
{
    lemma_class_names();
}

proof fn lemma_method_keys_differ()
    ensures
        method_key("java/util/Map"@, "entrySet"@).len() == 22,
        method_key("java/util/Set"@, "iterator"@).len() == 22,
        method_key("java/util/Iterator"@, "hasNext"@).len() == 26,
        method_key("java/util/Iterator"@, "next"@).len() == 23,
        method_key("java/util/Map$Entry"@, "getKey"@).len() == 26,
        method_key("java/util/Map$Entry"@, "getValue"@).len() == 28,
        method_key("java/lang/Integer"@, "intValue"@).len() == 26,
        method_key("org/opensearch/knn/index/query/KNNQueryResult"@, "<init>"@).len() == 52,
        method_key("org/apache/lucene/index/MergeAbortChecker"@, "isMergeAborted"@).len() == 56,
        method_key("java/util/Map"@, "entrySet"@) != method_key("java/util/Set"@, "iterator"@),
        method_key("java/util/Iterator"@, "hasNext"@) != method_key(
            "java/util/Map$Entry"@,
            "getKey"@,
        ),
        method_key("java/util/Iterator"@, "hasNext"@) != method_key(
            "java/lang/Integer"@,
            "intValue"@,
        ),
        method_key("java/util/Map$Entry"@, "getKey"@) != method_key(
            "java/lang/Integer"@,
            "intValue"@,
        ),
{
    lemma_class_names();
    reveal_strlit(":");
    reveal_strlit("entrySet");
    reveal_strlit("iterator");
    reveal_strlit("hasNext");
    reveal_strlit("next");
    reveal_strlit("getKey");
    reveal_strlit("getValue");
    reveal_strlit("intValue");
    reveal_strlit("<init>");
    reveal_strlit("isMergeAborted");
    assert(method_key("java/util/Map"@, "entrySet"@)[10] == 'M');
    assert(method_key("java/util/Set"@, "iterator"@)[10] == 'S');
    assert(method_key("java/util/Iterator"@, "hasNext"@)[10] == 'I');
    assert(method_key("java/util/Map$Entry"@, "getKey"@)[10] == 'M');
    assert(method_key("java/util/Iterator"@, "hasNext"@)[5] == 'u');
    assert(method_key("java/util/Map$Entry"@, "getKey"@)[5] == 'u');
    assert(method_key("java/lang/Integer"@, "intValue"@)[5] == 'l');
}

impl JNIUtil {
    /// The names of the classes that are at hand.
    pub open spec fn class_names(&self) -> Set<Seq<char>> {
        self.cached_classes@.dom()
    }

    /// The names of the methods that are at hand.
    pub open spec fn method_names(&self) -> Set<Seq<char>> {
        self.cached_methods@.dom()
    }

    /// Keeps a class at hand.
    pub fn keep_class(&mut self, class_name: &str, class: GlobalRef)
        ensures
            final(self).cached_classes@ == old(self).cached_classes@.insert(class_name@, class),
            final(self).cached_methods == old(self).cached_methods,
            final(self).vm == old(self).vm,
    {
        self.cached_classes.insert(class_name.to_owned(), class);
    }

    /// The class of a method that is about to be looked up.
    pub fn class_to_search(&self, class_name: &str) -> (r: Result<&GlobalRef, JniUtilError>)
        ensures
            match r {
                Ok(class) => self.cached_classes@.contains_pair(class_name@, *class),
                Err(JniUtilError::Runtime(message)) => {
                    &&& !self.cached_classes@.dom().contains(class_name@)
                    &&& message@ == "Class "@ + class_name@ + " not cached"@
                },
                Err(_) => false,
            },
    {
        match self.cached_classes.get(class_name) {
            Some(class) => Ok(class),
            None => {
                let mut text = join("Class ", class_name);
                text.append(" not cached");
                runtime(text.as_str())
            },
        }
    }

    /// Keeps a method at hand, static or not.
    pub fn keep_method(&mut self, class_name: &str, method_name: &str, method: JMethodID)
        ensures
            final(self).cached_methods@ == old(self).cached_methods@.insert(
                method_key(class_name@, method_name@),
                method,
            ),
            final(self).cached_classes == old(self).cached_classes,
            final(self).vm == old(self).vm,
    {
        self.cached_methods.insert(key_of_method(class_name, method_name), method);
    }

    /// Keeps the virtual machine at hand, once everything else is.
    pub fn finish_initialization(&mut self, java_vm: JavaVM)
        ensures
            final(self).vm == Some(java_vm),
            final(self).cached_classes == old(self).cached_classes,
            final(self).cached_methods == old(self).cached_methods,
    {
        self.vm = Some(java_vm);
    }

    /// A class that is at hand.
    pub fn find_class(&self, class_name: &str) -> (r: Result<&GlobalRef, JniUtilError>)
        ensures
            match r {
                Ok(class) => self.cached_classes@.contains_pair(class_name@, *class),
                Err(JniUtilError::Runtime(message)) => {
                    &&& !self.cached_classes@.dom().contains(class_name@)
                    &&& message@ == "Unable to load class \""@ + class_name@ + "\""@
                },
                Err(_) => false,
            },
    {
        match self.cached_classes.get(class_name) {
            Some(class) => Ok(class),
            None => {
                let mut text = join("Unable to load class \"", class_name);
                text.append("\"");
                runtime(text.as_str())
            },
        }
    }

    /// A method that is at hand.
    pub fn find_method(&self, class_name: &str, method_name: &str) -> (r: Result<
        JMethodID,
        JniUtilError,
    >)
        ensures
            match r {
                Ok(method) => self.cached_methods@.contains_pair(
                    method_key(class_name@, method_name@),
                    method,
                ),
                Err(JniUtilError::Runtime(message)) => {
                    &&& !self.cached_methods@.dom().contains(method_key(class_name@, method_name@))
                    &&& message@ == missing_method(method_name@)
                },
                Err(_) => false,
            },
    {
        let key = key_of_method(class_name, method_name);
        match self.cached_methods.get(key.as_str()) {
            Some(method) => Ok(*method),
            None => {
                let mut text = join("Unable to find \"", method_name);
                text.append("\" method");
                runtime(text.as_str())
            },
        }
    }
}

/// What is said of a method that is not at hand.
pub open spec fn missing_method(method_name: Seq<char>) -> Seq<char> {
    "Unable to find \""@ + method_name + "\" method"@
}

/// A Java exception: its class and its message.
pub struct JavaException {
    pub class: &'static str,
    pub message: String,
}

/// An error with the given message where a Java exception is pending.
pub fn check_pending(pending: bool, message: &str) -> (r: Result<
    (),
    JniUtilError,
>)
    ensures
        r is Ok == !pending,
        r matches Err(e) ==> e matches JniUtilError::Runtime(text) && text@ == message@,
{
    if pending {
        runtime(message)
    } else {
        Ok(())
    }
}

/// The exception that tells Java that an index build was aborted.
pub fn build_aborted() -> (exception: JavaException)
    ensures
        exception.class@
            == "org/opensearch/knn/index/codec/nativeindex/IndexBuildAbortedException"@,
        exception.message@ == "Faiss index build aborted"@,
{
    JavaException {
        class: "org/opensearch/knn/index/codec/nativeindex/IndexBuildAbortedException",
        message: "Faiss index build aborted".to_owned(),
    }
}

/// The exception that tells Java of an error.
pub fn exception_of_error(error: &JniUtilError) -> (exception: JavaException)
    ensures
        exception.class@ == "java/lang/Exception"@,
        match error {
            JniUtilError::Runtime(message) => exception.message@ == message@,
            JniUtilError::Jni(e) => to_string_from_display_ensures(e, exception.message),
            JniUtilError::NullPointer(message) => exception.message@ == message@,
        },
{
    JavaException {
        class: "java/lang/Exception",
        message: match error {
            JniUtilError::Runtime(message) => message.as_str().to_owned(),
            JniUtilError::Jni(e) => e.to_string(),
            JniUtilError::NullPointer(message) => message.as_str().to_owned(),
        },
    }
}

/// The exception that tells Java of a panic with the given text, if it has one.
pub fn exception_of_panic(text: Option<&str>) -> (exception: JavaException)
    ensures
        exception.class@ == "java/lang/Exception"@,
        exception.message@ == match text {
            Some(t) => t@,
            None => "Unknown exception occurred"@,
        },
{
    JavaException {
        class: "java/lang/Exception",
        message: match text {
            Some(t) => t.to_owned(),
            None => "Unknown exception occurred".to_owned(),
        },
    }
}

/// A Java string, unless it is null.
pub fn text_of(java_string: Option<String>) -> (r: Result<
    String,
    JniUtilError,
>)
    ensures
        match r {
            Ok(text) => java_string == Some(text),
            Err(JniUtilError::NullPointer(message)) => java_string is None && message@
                == "String cannot be null"@,
            Err(_) => false,
        },
{
    match java_string {
        Some(text) => Ok(text),
        None => null_pointer("String cannot be null"),
    }
}

/// The quantization level that a Java string names, unless it is null.
pub fn level_named(java_string: Option<&str>) -> (r: Result<
    BQQuantizationLevel,
    JniUtilError,
>)
    ensures
        match r {
            Ok(level) => java_string matches Some(text) && quantization_level(text@) == Some(
                level,
            ),
            Err(JniUtilError::NullPointer(message)) => java_string is None && message@
                == "String cannot be null"@,
            Err(JniUtilError::Runtime(message)) => {
                &&& java_string matches Some(text) && quantization_level(text@) is None
                &&& message@ == "Unable to convert java string to quantization level"@
            },
            Err(_) => false,
        },
{
    match java_string {
        Some(text) => match level_of(text) {
            Some(level) => Ok(level),
            None => runtime("Unable to convert java string to quantization level"),
        },
        None => null_pointer("String cannot be null"),
    }
}

/// The value of a Java object that was asked for its integer value: `value` is
/// nothing where the object is no integer.
pub fn integer_of(value: Option<i32>, pending: bool) -> (r: Result<
    i32,
    JniUtilError,
>)
    ensures
        match r {
            Ok(n) => value == Some(n) && !pending,
            Err(JniUtilError::Runtime(message)) => if value is None {
                message@ == "Cannot call IntMethod on non-integer class"@
            } else {
                pending && message@ == "Could not call \"intValue\" method on Integer"@
            },
            Err(_) => false,
        },
{
    match value {
        None => runtime("Cannot call IntMethod on non-integer class"),
        Some(n) => if pending {
            runtime("Could not call \"intValue\" method on Integer")
        } else {
            Ok(n)
        },
    }
}

impl JNIUtil {
    /// What it takes to read a Java integer: its class and its `intValue` method.
    pub fn integer_conversion(&self, object_is_null: bool) -> (r: Result<
        (&GlobalRef, JMethodID),
        JniUtilError,
    >)
        ensures
            match r {
                Ok((class, method)) => {
                    &&& !object_is_null
                    &&& self.cached_classes@.contains_pair("java/lang/Integer"@, *class)
                    &&& self.cached_methods@.contains_pair(
                        method_key("java/lang/Integer"@, "intValue"@),
                        method,
                    )
                },
                Err(JniUtilError::NullPointer(message)) => object_is_null && message@
                    == "Object cannot be null"@,
                Err(JniUtilError::Runtime(message)) => {
                    &&& !object_is_null
                    &&& if !self.class_names().contains("java/lang/Integer"@) {
                        message@ == "Unable to load class \""@ + "java/lang/Integer"@ + "\""@
                    } else {
                        &&& !self.method_names().contains(
                            method_key("java/lang/Integer"@, "intValue"@),
                        )
                        &&& message@ == missing_method("intValue"@)
                    }
                },
                Err(_) => false,
            },
    {
        if object_is_null {
            return null_pointer("Object cannot be null");
        }
        let class = match self.find_class("java/lang/Integer") {
            Ok(class) => class,
            Err(e) => return Err(e),
        };
        match self.find_method("java/lang/Integer", "intValue") {
            Ok(method) => Ok((class, method)),
            Err(e) => Err(e),
        }
    }
}

/// The quantization level that `text` names.
pub open spec fn quantization_level(text: Seq<char>) -> Option<BQQuantizationLevel> {
    if text == "ScalarQuantizationParams_1"@ {
        Some(BQQuantizationLevel::OneBit)
    } else if text == "ScalarQuantizationParams_2"@ {
        Some(BQQuantizationLevel::TwoBit)
    } else if text == "ScalarQuantizationParams_4"@ {
        Some(BQQuantizationLevel::FourBit)
    } else {
        None
    }
}

/// The quantization level that `text` names.
pub fn level_of(text: &str) -> (level: Option<BQQuantizationLevel>)
    ensures
        level == quantization_level(text@),
{
    if same_text(text, "ScalarQuantizationParams_1") {
        Some(BQQuantizationLevel::OneBit)
    } else if same_text(text, "ScalarQuantizationParams_2") {
        Some(BQQuantizationLevel::TwoBit)
    } else if same_text(text, "ScalarQuantizationParams_4") {
        Some(BQQuantizationLevel::FourBit)
    } else {
        None
    }
}

/// The methods that walking a Java map takes, in the order in which they are
/// sought: class and method.
pub open spec fn map_methods() -> Seq<(Seq<char>, Seq<char>)> {
    seq![
        ("java/util/Map"@, "entrySet"@),
        ("java/util/Set"@, "iterator"@),
        ("java/util/Iterator"@, "hasNext"@),
        ("java/util/Iterator"@, "next"@),
        ("java/util/Map$Entry"@, "getKey"@),
        ("java/util/Map$Entry"@, "getValue"@),
    ]
}

impl JNIUtil {
    /// Method `k` of those that walking a Java map takes is at hand.
    pub open spec fn has_map_method(&self, k: int) -> bool {
        self.method_names().contains(method_key(map_methods()[k].0, map_methods()[k].1))
    }

    /// `message` names the first method that walking a Java map takes and that is not
    /// at hand.
    pub open spec fn lacks_map_method(&self, message: Seq<char>) -> bool {
        exists|k: int|
            0 <= k < 6 && !#[trigger] self.has_map_method(k) && message == missing_method(
                map_methods()[k].1,
            ) && forall|j: int| 0 <= j < k ==> #[trigger] self.has_map_method(j)
    }

    /// A Java map can be walked: it is not null, and the methods that it takes are
    /// at hand.
    pub fn check_map_methods(&self, parameters_are_null: bool) -> (r: Result<(), JniUtilError>)
        ensures
            match r {
                Ok(_) => !parameters_are_null && forall|k: int|
                    0 <= k < 6 ==> #[trigger] self.has_map_method(k),
                Err(JniUtilError::NullPointer(message)) => parameters_are_null && message@
                    == "Parameters cannot be null"@,
                Err(JniUtilError::Runtime(message)) => !parameters_are_null
                    && self.lacks_map_method(message@),
                Err(_) => false,
            },
    {
        if parameters_are_null {
            return null_pointer("Parameters cannot be null");
        }
        if let Err(e) = self.find_method("java/util/Map", "entrySet") {
            assert(!self.has_map_method(0));
            return Err(e);
        }
        assert(self.has_map_method(0));
        if let Err(e) = self.find_method("java/util/Set", "iterator") {
            assert(!self.has_map_method(1));
            return Err(e);
        }
        assert(self.has_map_method(1));
        if let Err(e) = self.find_method("java/util/Iterator", "hasNext") {
            assert(!self.has_map_method(2));
            return Err(e);
        }
        assert(self.has_map_method(2));
        if let Err(e) = self.find_method("java/util/Iterator", "next") {
            assert(!self.has_map_method(3));
            return Err(e);
        }
        assert(self.has_map_method(3));
        if let Err(e) = self.find_method("java/util/Map$Entry", "getKey") {
            assert(!self.has_map_method(4));
            return Err(e);
        }
        assert(self.has_map_method(4));
        if let Err(e) = self.find_method("java/util/Map$Entry", "getValue") {
            assert(!self.has_map_method(5));
            return Err(e);
        }
        assert(self.has_map_method(5));
        Ok(())
    }

    /// What it takes to make a query result: its class and its constructor.
    pub fn query_result_construction(&self) -> (r: Result<(&GlobalRef, JMethodID), JniUtilError>)
        ensures
            ({
                let name = "org/opensearch/knn/index/query/KNNQueryResult"@;
                match r {
                    Ok((class, method)) => {
                        &&& self.cached_classes@.contains_pair(name, *class)
                        &&& self.cached_methods@.contains_pair(method_key(name, "<init>"@), method)
                    },
                    Err(JniUtilError::Runtime(message)) => {
                        if !self.class_names().contains(name) {
                            message@ == "Unable to load class \""@ + name + "\""@
                        } else {
                            &&& !self.method_names().contains(method_key(name, "<init>"@))
                            &&& message@ == missing_method("<init>"@)
                        }
                    },
                    Err(_) => false,
                }
            }),
    {
        let class = match self.find_class("org/opensearch/knn/index/query/KNNQueryResult") {
            Ok(class) => class,
            Err(e) => return Err(e),
        };
        match self.find_method("org/opensearch/knn/index/query/KNNQueryResult", "<init>") {
            Ok(method) => Ok((class, method)),
            Err(e) => Err(e),
        }
    }
}

/// An error where Java made no object.
pub fn check_created(object_is_null: bool) -> (r: Result<(), JniUtilError>)
    ensures
        r is Ok == !object_is_null,
        r matches Err(e) ==> e matches JniUtilError::Runtime(message) && message@
            == "Unable to create object"@,
{
    if object_is_null {
        runtime("Unable to create object")
    } else {
        Ok(())
    }
}

/// The value of `key`, or an error that names it.
pub fn get_jobject_from_map_or_throw<'a, V>(map: &'a StringMap<V>, key: &str) -> (r: Result<
    &'a V,
    JniUtilError,
>)
    ensures
        match r {
            Ok(value) => map@.contains_pair(key@, *value),
            Err(JniUtilError::Runtime(message)) => !map@.dom().contains(key@) && message@ == key@
                + " not found"@,
            Err(_) => false,
        },
{
    match map.get(key) {
        Some(value) => Ok(value),
        None => {
            let text = join(key, " not found");
            runtime(text.as_str())
        },
    }
}

/// The rows one after the other.
pub open spec fn joined_rows<T>(rows: Seq<Vec<T>>) -> Seq<T>
    decreases rows.len(),
{
    if rows.len() == 0 {
        Seq::empty()
    } else {
        joined_rows(rows.drop_last()) + rows.last()@
    }
}

/// The first `k` rows have length `dim`.
pub open spec fn rows_fit<T>(rows: Seq<Vec<T>>, dim: i32, k: int) -> bool {
    forall|i: int| 0 <= i < k ==> (#[trigger] rows[i])@.len() == dim
}

/// Row `k` is the first one whose length is not `dim`.
pub open spec fn first_misfit<T>(rows: Seq<Vec<T>>, dim: i32, k: int) -> bool {
    0 <= k < rows.len() && rows[k]@.len() != dim && rows_fit(rows, dim, k)
}

/// What storing rows of length `dim` behind `before` leads to: with no rows an
/// error, and with a row of another length an error too, once the rows before it
/// are stored.
pub open spec fn rows_stored<T>(
    before: Seq<T>,
    rows: Option<&Vec<Vec<T>>>,
    dim: i32,
    after: Seq<T>,
    r: Result<(), JniUtilError>,
) -> bool {
    match rows {
        None => {
            &&& after == before
            &&& r matches Err(JniUtilError::NullPointer(message)) && message@
                == "Array cannot be null"@
        },
        Some(all) => match r {
            Ok(_) => rows_fit(all@, dim, all@.len() as int) && after == before + joined_rows(all@),
            Err(JniUtilError::Runtime(message)) => {
                &&& message@ == "Dimension of vectors is inconsistent"@
                &&& exists|k: int| #[trigger]
                    first_misfit(all@, dim, k) && after == before + joined_rows(all@.take(k))
            },
            Err(_) => false,
        },
    }
}

proof fn lemma_joined_rows_push<T>(rows: Seq<Vec<T>>, k: int)
    requires
        0 <= k < rows.len(),
    ensures
        joined_rows(rows.take(k + 1)) == joined_rows(rows.take(k)) + rows[k]@,
{
    assert(rows.take(k + 1).drop_last() =~= rows.take(k));
}

fn append_row<T: Copy>(vect: &mut Vec<T>, row: &Vec<T>)
    ensures
        final(vect)@ == old(vect)@ + row@,
{
    let mut j: usize = 0;
    while j < row.len()
        invariant
            j <= row@.len(),
            vect@ == old(vect)@ + row@.take(j as int),
        decreases row@.len() - j,
    {
        vect.push(row[j]);
        j += 1;
        assert(row@.take(j as int) =~= row@.take(j - 1).push(row@[j - 1]));
    }
    assert(row@.take(j as int) =~= row@);
}

/// Stores the rows of a two-dimensional array behind `vect`.
pub fn store_rows<T: Copy>(rows: Option<&Vec<Vec<T>>>, dim: i32, vect: &mut Vec<T>) -> (r: Result<
    (),
    JniUtilError,
>)
    ensures
        rows_stored(old(vect)@, rows, dim, final(vect)@, r),
{
    let all = match rows {
        Some(all) => all,
        None => return null_pointer("Array cannot be null"),
    };
    let mut k: usize = 0;
    assert(joined_rows(all@.take(0)) =~= Seq::empty());
    while k < all.len() && has_length(&all[k], dim)
        invariant
            k <= all@.len(),
            rows_fit(all@, dim, k as int),
            vect@ =~= old(vect)@ + joined_rows(all@.take(k as int)),
        decreases all@.len() - k,
    {
        append_row(vect, &all[k]);
        proof {
            lemma_joined_rows_push(all@, k as int);
        }
        k += 1;
    }
    if k < all.len() {
        assert(first_misfit(all@, dim, k as int));
        runtime("Dimension of vectors is inconsistent")
    } else {
        assert(all@.take(k as int) =~= all@);
        Ok(())
    }
}

/// An error where the length of a row is not `dim`.
pub fn check_row_length(length: i32, dim: i32) -> (r: Result<(), JniUtilError>)
    ensures
        match r {
            Ok(_) => length == dim,
            Err(JniUtilError::Runtime(message)) => length != dim && message@
                == "Dimension of vectors is inconsistent"@,
            Err(_) => false,
        },
{
    if length == dim {
        Ok(())
    } else {
        runtime("Dimension of vectors is inconsistent")
    }
}

/// Whether a row has length `dim`.
fn has_length<T>(row: &Vec<T>, dim: i32) -> (fits: bool)
    ensures
        fits == (row@.len() == dim),
{
    dim >= 0 && row.len() == dim as usize
}

/// What storing rows that were read leads to, where `fault` is what went wrong with
/// the reading behind them: the rows are stored, and then the fault comes up. A row of
/// another length comes up first.
pub open spec fn reading_stored<T>(
    before: Seq<T>,
    rows: Option<&Vec<Vec<T>>>,
    fault: Option<JniUtilError>,
    dim: i32,
    after: Seq<T>,
    r: Result<(), JniUtilError>,
) -> bool {
    if rows matches Some(all) && rows_fit(all@, dim, all@.len() as int) {
        &&& after == before + joined_rows(rows->0@)
        &&& r == match fault {
            Some(e) => Err::<(), JniUtilError>(e),
            None => Ok(()),
        }
    } else {
        rows_stored(before, rows, dim, after, r)
    }
}

/// Stores the rows that were read of a two-dimensional array behind `vect`.
pub fn store_reading<T: Copy>(
    rows: Option<&Vec<Vec<T>>>,
    fault: Option<JniUtilError>,
    dim: i32,
    vect: &mut Vec<T>,
) -> (r: Result<(), JniUtilError>)
    ensures
        reading_stored(old(vect)@, rows, fault, dim, final(vect)@, r),
{
    store_rows(rows, dim, vect)?;
    match fault {
        Some(e) => Err(e),
        None => Ok(()),
    }
}

/// Stores the rows that were read of a two-dimensional array of bytes behind `vect`,
/// each byte taken as a number from 0 to 255.
pub fn store_unsigned_reading(
    rows: Option<&Vec<Vec<i8>>>,
    fault: Option<JniUtilError>,
    dim: i32,
    vect: &mut Vec<u8>,
) -> (r: Result<(), JniUtilError>)
    ensures
        exists|stored: Seq<i8>|
            {
                &&& final(vect)@ == old(vect)@ + #[trigger] unsigned_bytes(stored)
                &&& reading_stored(Seq::empty(), rows, fault, dim, stored, r)
            },
{
    let mut signed: Vec<i8> = Vec::new();
    let r = store_reading(rows, fault, dim, &mut signed);
    append_unsigned(vect, &signed);
    assert(final(vect)@ == old(vect)@ + unsigned_bytes(signed@));
    r
}

/// The numbers of an array of 32-bit integers, widened.
pub fn numbers_of(array: Option<&Vec<i32>>) -> (r: Result<
    Vec<i64>,
    JniUtilError,
>)
    ensures
        match r {
            Ok(wide) => array matches Some(numbers) && wide@ == widened(numbers@),
            Err(JniUtilError::NullPointer(message)) => array is None && message@
                == "Array cannot be null"@,
            Err(_) => false,
        },
{
    match array {
        Some(numbers) => Ok(widen(numbers)),
        None => null_pointer("Array cannot be null"),
    }
}

/// The length of an array of any kind.
pub fn length_of(length: Option<i32>, pending: bool) -> (r: Result<i32, JniUtilError>)
    ensures
        match r {
            Ok(n) => length == Some(n) && !pending,
            Err(JniUtilError::NullPointer(message)) => length is None && message@
                == "Array cannot be null"@,
            Err(JniUtilError::Runtime(message)) => length is Some && pending && message@
                == "Unable to get array length"@,
            Err(_) => false,
        },
{
    match length {
        None => null_pointer("Array cannot be null"),
        Some(n) => if pending {
            runtime("Unable to get array length")
        } else {
            Ok(n)
        },
    }
}

/// Takes in one entry of a Java map.
pub fn add_map_entry<V>(map: &mut StringMap<V>, key: Option<String>, value: V) -> (r: Result<
    (),
    JniUtilError,
>)
    ensures
        match r {
            Ok(_) => key matches Some(name) && final(map)@ == old(map)@.insert(name@, value),
            Err(JniUtilError::NullPointer(message)) => {
                &&& key is None
                &&& final(map)@ == old(map)@
                &&& message@ == "String cannot be null"@
            },
            Err(_) => false,
        },
{
    match text_of(key) {
        Ok(name) => {
            map.insert(name, value);
            Ok(())
        },
        Err(e) => Err(e),
    }
}

/// The entries of a map one after the other: where a key occurs twice the later value
/// counts.
pub open spec fn collected<V>(entries: Seq<(String, V)>) -> Map<Seq<char>, V>
    decreases entries.len(),
{
    if entries.len() == 0 {
        Map::empty()
    } else {
        collected(entries.drop_last()).insert(entries.last().0@, entries.last().1)
    }
}

/// The map that these entries make, taken in one after the other.
pub fn collect_entries<V>(entries: Vec<(String, V)>) -> (map: StringMap<V>)
    ensures
        map@ == collected(entries@),
{
    let mut map: StringMap<V> = StringMap::new();
    let ghost all = entries@;
    for entry in taken: entries
        invariant
            taken.seq() == all,
            map@ == collected(taken.seq().take(taken.index() as int)),
    {
        let (name, value) = entry;
        let ghost so_far = taken.seq().take(taken.index() + 1);
        assert(so_far.drop_last() == taken.seq().take(taken.index() as int));
        let added = add_map_entry(&mut map, Some(name), value);
    }
    assert(all.take(all.len() as int) == all);
    map
}

/// Bytes taken as numbers from 0 to 255.
pub open spec fn unsigned_bytes(bytes: Seq<i8>) -> Seq<u8> {
    bytes.map_values(|b: i8| b as u8)
}

/// Appends bytes taken as numbers from 0 to 255.
pub fn append_unsigned(vect: &mut Vec<u8>, bytes: &Vec<i8>)
    ensures
        final(vect)@ == old(vect)@ + unsigned_bytes(bytes@),
{
    let mut j: usize = 0;
    while j < bytes.len()
        invariant
            j <= bytes@.len(),
            vect@ =~= old(vect)@ + unsigned_bytes(bytes@.take(j as int)),
        decreases bytes@.len() - j,
    {
        vect.push(
            #[verifier::truncate]
            (bytes[j] as u8),
        );
        j += 1;
        assert(unsigned_bytes(bytes@.take(j as int)) =~= unsigned_bytes(bytes@.take(j - 1)).push(
            bytes@[j - 1] as u8,
        ));
    }
    assert(bytes@.take(j as int) =~= bytes@);
}

/// The same numbers in 64 bits.
pub open spec fn widened(numbers: Seq<i32>) -> Seq<i64> {
    numbers.map_values(|n: i32| n as i64)
}

/// The same numbers in 64 bits.
pub fn widen(numbers: &Vec<i32>) -> (wide: Vec<i64>)
    ensures
        wide@ == widened(numbers@),
{
    let mut wide: Vec<i64> = Vec::with_capacity(numbers.len());
    let mut j: usize = 0;
    while j < numbers.len()
        invariant
            j <= numbers@.len(),
            wide@ =~= widened(numbers@.take(j as int)),
        decreases numbers@.len() - j,
    {
        wide.push(numbers[j] as i64);
        j += 1;
    }
    assert(numbers@.take(j as int) =~= numbers@);
    wide
}

/// `s` holds the first `k` rows one after the other, `dim` elements of each: element `j` of
/// row `i` stands at `i * dim + j`.
pub open spec fn holds_rows<T>(s: Seq<T>, rows: Seq<Vec<T>>, k: int, dim: int) -> bool {
    &&& s.len() == k * dim
    &&& forall|i: int, j: int|
        0 <= i < k && 0 <= j < dim ==> s[i * dim + j] == #[trigger] rows[i]@[j]
}

/// A byte as the number from 0 to 255 that has its bits.
pub open spec fn number_of_byte(b: i8) -> int {
    if b < 0 {
        b + 256
    } else {
        b as int
    }
}

/// `s` holds the first `k` rows of bytes as `holds_rows` says, each byte as the number from 0
/// to 255 that has its bits.
pub open spec fn holds_unsigned_rows(s: Seq<u8>, rows: Seq<Vec<i8>>, k: int, dim: int) -> bool {
    &&& s.len() == k * dim
    &&& forall|i: int, j: int|
        0 <= i < k && 0 <= j < dim ==> s[i * dim + j] == number_of_byte(#[trigger] rows[i]@[j])
}

/// One more row behind those that are held.
pub proof fn lemma_holds_one_more_row<T>(s: Seq<T>, rows: Seq<Vec<T>>, k: int, dim: int)
    requires
        0 <= k < rows.len(),
        0 <= dim <= rows[k]@.len(),
        holds_rows(s, rows, k, dim),
    ensures
        holds_rows(s + rows[k]@.take(dim), rows, k + 1, dim),
{
    let more = s + rows[k]@.take(dim);
    assert((k + 1) * dim == k * dim + dim) by (nonlinear_arith);
    assert forall|i: int, j: int| 0 <= i < k + 1 && 0 <= j < dim implies more[i * dim + j]
        == #[trigger] rows[i]@[j] by {
        if i < k {
            assert(0 <= i * dim && i * dim + j < k * dim) by (nonlinear_arith)
                requires
                    0 <= i < k,
                    0 <= j < dim,
            ;
        }
    }
}

proof fn lemma_joined_rows_held<T>(rows: Seq<Vec<T>>, k: int, dim: int)
    requires
        0 <= k <= rows.len(),
        0 <= dim,
        forall|i: int| 0 <= i < k ==> (#[trigger] rows[i])@.len() == dim,
    ensures
        holds_rows(joined_rows(rows.take(k)), rows, k, dim),
    decreases k,
{
    if k == 0 {
        assert(0 * dim == 0) by (nonlinear_arith);
    } else {
        lemma_joined_rows_held(rows, k - 1, dim);
        lemma_joined_rows_push(rows, k - 1);
        lemma_holds_one_more_row(joined_rows(rows.take(k - 1)), rows, k - 1, dim);
        assert(rows[k - 1]@.take(dim) =~= rows[k - 1]@);
    }
}

/// Rows that are stored one after the other are held where they were put.
pub proof fn lemma_stored_rows_held<T>(kept: Seq<T>, rows: Seq<Vec<T>>, dim: i32, stored: Seq<T>)
    requires
        rows_fit(rows, dim, rows.len() as int),
        stored == kept + joined_rows(rows),
    ensures
        kept.is_prefix_of(stored),
        rows.len() == 0 ==> stored == kept,
        rows.len() > 0 ==> holds_rows(
            stored.skip(kept.len() as int),
            rows,
            rows.len() as int,
            dim as int,
        ),
{
    let n = rows.len() as int;
    assert(rows.take(n) =~= rows);
    assert(stored.skip(kept.len() as int) =~= joined_rows(rows));
    if n > 0 {
        assert(rows[0]@.len() == dim);
        lemma_joined_rows_held(rows, n, dim as int);
    } else {
        assert(stored =~= kept);
    }
}

/// Rows that are held have a length.
pub proof fn lemma_held_rows_have_width<T>(s: Seq<T>, rows: Seq<Vec<T>>, k: int, dim: int)
    requires
        0 < k,
        holds_rows(s, rows, k, dim),
    ensures
        0 <= dim,
{
    assert(k * dim >= 0);
    assert(dim >= 0) by (nonlinear_arith)
        requires
            0 < k,
            k * dim >= 0,
    ;
}

/// Storing rows keeps what is stored and puts the rows behind it, row after row and element
/// after element: all of them where each has `dim` elements, and else those before the
/// first that has not, and then it is an error. Nothing is stored where there is no array.
pub proof fn lemma_rows_are_stored<T: Copy>(
    rows: Option<&Vec<Vec<T>>>,
    dim: i32,
    vect: &mut Vec<T>,
    r: Result<(), JniUtilError>,
)
    requires
        call_ensures(store_rows::<T>, (rows, dim, vect), r),
    ensures
        old(vect)@.is_prefix_of(final(vect)@),
        rows is None ==> {
            &&& final(vect)@ == old(vect)@
            &&& r matches Err(JniUtilError::NullPointer(message)) && message@
                == "Array cannot be null"@
        },
        rows matches Some(all) ==> {
            &&& r is Ok <==> forall|i: int|
                0 <= i < all@.len() ==> (#[trigger] all@[i])@.len() == dim
            &&& r matches Err(e) ==> (e matches JniUtilError::Runtime(message) && message@
                == "Dimension of vectors is inconsistent"@)
            &&& r is Ok && all@.len() > 0 ==> holds_rows(
                final(vect)@.skip(old(vect)@.len() as int),
                all@,
                all@.len() as int,
                dim as int,
            )
            &&& r is Ok && all@.len() == 0 ==> final(vect)@ == old(vect)@
            &&& r is Err ==> exists|k: int|
                {
                    &&& 0 <= k < all@.len()
                    &&& all@[k]@.len() != dim
                    &&& forall|i: int| 0 <= i < k ==> (#[trigger] all@[i])@.len() == dim
                    &&& k == 0 ==> final(vect)@ == old(vect)@
                    &&& k > 0 ==> #[trigger] holds_rows(
                        final(vect)@.skip(old(vect)@.len() as int),
                        all@,
                        k,
                        dim as int,
                    )
                }
        },
{
    let before = old(vect)@;
    if let Some(all) = rows {
        if r is Ok {
            let n = all@.len() as int;
            assert(all@.take(n) =~= all@);
            assert(final(vect)@.skip(before.len() as int) =~= joined_rows(all@));
            if n > 0 {
                assert(all@[0]@.len() == dim);
                lemma_joined_rows_held(all@, n, dim as int);
            }
        } else {
            let k = choose|k: int| #[trigger]
                first_misfit(all@, dim, k) && final(vect)@ == before + joined_rows(all@.take(k));
            assert(all@[k]@.len() != dim);
            assert(final(vect)@.skip(before.len() as int) =~= joined_rows(all@.take(k)));
            if k > 0 {
                assert(all@[0]@.len() == dim);
                lemma_joined_rows_held(all@, k, dim as int);
            } else {
                assert(all@.take(0) =~= Seq::empty());
                assert(final(vect)@ =~= before);
            }
            assert(k > 0 ==> holds_rows(
                final(vect)@.skip(before.len() as int),
                all@,
                k,
                dim as int,
            ));
            if k == 0 {
                assert(0 * dim == 0) by (nonlinear_arith);
                assert(holds_rows(final(vect)@.skip(before.len() as int), all@, k, dim as int));
            }
        }
    }
}

/// A fault of the reading comes up where every row that was read is stored, and a row that does
/// not fit comes up before it.
pub proof fn lemma_reading_is_stored<T: Copy>(
    rows: Option<&Vec<Vec<T>>>,
    fault: Option<JniUtilError>,
    dim: i32,
    vect: &mut Vec<T>,
    r: Result<(), JniUtilError>,
)
    requires
        call_ensures(store_reading::<T>, (rows, fault, dim, vect), r),
    ensures
        old(vect)@.is_prefix_of(final(vect)@),
        r is Ok <==> {
            &&& rows matches Some(all) && forall|i: int|
                0 <= i < all@.len() ==> (#[trigger] all@[i])@.len() == dim
            &&& fault is None
        },
        rows is None ==> final(vect)@ == old(vect)@ && (r matches Err(JniUtilError::NullPointer(_))),
        rows matches Some(all) ==> {
            &&& (forall|i: int| 0 <= i < all@.len() ==> (#[trigger] all@[i])@.len() == dim) ==> {
                &&& all@.len() > 0 ==> holds_rows(
                    final(vect)@.skip(old(vect)@.len() as int),
                    all@,
                    all@.len() as int,
                    dim as int,
                )
                &&& all@.len() == 0 ==> final(vect)@ == old(vect)@
                &&& fault matches Some(e) ==> r == Err::<(), JniUtilError>(e)
            }
            &&& !(forall|i: int| 0 <= i < all@.len() ==> (#[trigger] all@[i])@.len() == dim)
                ==> (r matches Err(JniUtilError::Runtime(message)) && message@
                == "Dimension of vectors is inconsistent"@)
        },
{
    let before = old(vect)@;
    if let Some(all) = rows {
        let n = all@.len() as int;
        if rows_fit(all@, dim, n) {
            assert(all@.take(n) =~= all@);
            assert(final(vect)@.skip(before.len() as int) =~= joined_rows(all@));
            if n > 0 {
                assert(all@[0]@.len() == dim);
                lemma_joined_rows_held(all@, n, dim as int);
            }
        } else {
            let k = choose|k: int| #[trigger]
                first_misfit(all@, dim, k) && final(vect)@ == before + joined_rows(all@.take(k));
            assert(all@[k]@.len() != dim);
        }
    }
}

/// Rows of bytes that all fit are stored as numbers from 0 to 255 behind what is stored.
pub proof fn lemma_unsigned_reading_is_stored(
    rows: Option<&Vec<Vec<i8>>>,
    fault: Option<JniUtilError>,
    dim: i32,
    vect: &mut Vec<u8>,
    r: Result<(), JniUtilError>,
)
    requires
        call_ensures(store_unsigned_reading, (rows, fault, dim, vect), r),
    ensures
        old(vect)@.is_prefix_of(final(vect)@),
        rows matches Some(all) ==> all@.len() > 0 ==> (forall|i: int|
            0 <= i < all@.len() ==> (#[trigger] all@[i])@.len() == dim) ==> {
            &&& holds_unsigned_rows(
                final(vect)@.skip(old(vect)@.len() as int),
                all@,
                all@.len() as int,
                dim as int,
            )
            &&& r is Ok <==> fault is None
            &&& fault matches Some(e) ==> r == Err::<(), JniUtilError>(e)
        },
{
    let before = old(vect)@;
    let stored = choose|stored: Seq<i8>|
        {
            &&& final(vect)@ == before + #[trigger] unsigned_bytes(stored)
            &&& reading_stored(Seq::empty(), rows, fault, dim, stored, r)
        };
    if let Some(all) = rows {
        let n = all@.len() as int;
        if n > 0 && rows_fit(all@, dim, n) {
            assert(all@.take(n) =~= all@);
            assert(all@[0]@.len() == dim);
            assert(stored =~= joined_rows(all@));
            lemma_joined_rows_held(all@, n, dim as int);
            lemma_unsigned_rows_held(stored, all@, n, dim as int);
            assert(final(vect)@.skip(before.len() as int) =~= unsigned_bytes(stored));
        }
    }
}

/// Rows of bytes that are held are held as numbers once they are taken as such.
pub proof fn lemma_unsigned_rows_held(s: Seq<i8>, rows: Seq<Vec<i8>>, k: int, dim: int)
    requires
        0 <= k <= rows.len(),
        0 <= dim,
        holds_rows(s, rows, k, dim),
    ensures
        holds_unsigned_rows(unsigned_bytes(s), rows, k, dim),
{
    lemma_unsigned_bytes(s);
    assert forall|i: int, j: int| 0 <= i < k && 0 <= j < dim implies unsigned_bytes(s)[i * dim + j]
        == number_of_byte(#[trigger] rows[i]@[j]) by {
        assert(0 <= i * dim && i * dim + j < k * dim) by (nonlinear_arith)
            requires
                0 <= i < k,
                0 <= j < dim,
        ;
        assert(s[i * dim + j] == rows[i]@[j]);
    }
}

/// Bytes keep their places and their bits where they are taken as numbers from 0 to 255.
pub proof fn lemma_unsigned_bytes(bytes: Seq<i8>)
    ensures
        unsigned_bytes(bytes).len() == bytes.len(),
        forall|i: int|
            0 <= i < bytes.len() ==> #[trigger] unsigned_bytes(bytes)[i] == number_of_byte(
                bytes[i],
            ),
{
    assert forall|i: int| 0 <= i < bytes.len() implies #[trigger] unsigned_bytes(bytes)[i]
        == number_of_byte(bytes[i]) by {
        let b = bytes[i];
        assert(b >= 0 ==> b as u8 == b) by (bit_vector);
        assert(b < 0 ==> b as u8 == b + 256) by (bit_vector);
    }
}

/// Appending bytes keeps what is there and puts each byte behind it as the number from 0 to
/// 255 that has its bits.
pub proof fn lemma_append_unsigned(vect: &mut Vec<u8>, bytes: &Vec<i8>)
    requires
        call_ensures(append_unsigned, (vect, bytes), ()),
    ensures
        old(vect)@.is_prefix_of(final(vect)@),
        final(vect)@.len() == old(vect)@.len() + bytes@.len(),
        forall|i: int|
            0 <= i < bytes@.len() ==> final(vect)@[old(vect)@.len() + i] == number_of_byte(
                #[trigger] bytes@[i],
            ),
{
    lemma_unsigned_bytes(bytes@);
    assert forall|i: int| 0 <= i < bytes@.len() implies final(vect)@[old(vect)@.len() + i]
        == number_of_byte(#[trigger] bytes@[i]) by {
        assert(final(vect)@[old(vect)@.len() + i] == unsigned_bytes(bytes@)[i]);
    }
}

/// Widening keeps the numbers and their places, and it is an error where there is no array.
pub proof fn lemma_numbers_of(array: Option<&Vec<i32>>, r: Result<Vec<i64>, JniUtilError>)
    requires
        call_ensures(numbers_of, (array,), r),
    ensures
        r is Err <==> array is None,
        r matches Ok(wide) ==> array matches Some(numbers) && {
            &&& wide@.len() == numbers@.len()
            &&& forall|i: int| 0 <= i < numbers@.len() ==> #[trigger] wide@[i] == numbers@[i] as int
        },
{
}

/// Entry `i` is the last one with this key.
pub open spec fn is_last_entry<V>(entries: Seq<(String, V)>, key: Seq<char>, i: int) -> bool {
    &&& 0 <= i < entries.len()
    &&& entries[i].0@ == key
    &&& forall|j: int| i < j < entries.len() ==> (#[trigger] entries[j]).0@ != key
}

proof fn lemma_collected<V>(entries: Seq<(String, V)>, key: Seq<char>)
    ensures
        collected(entries).dom().contains(key) ==> exists|i: int| #[trigger]
            is_last_entry(entries, key, i) && collected(entries)[key] == entries[i].1,
        !collected(entries).dom().contains(key) ==> forall|i: int|
            0 <= i < entries.len() ==> (#[trigger] entries[i]).0@ != key,
    decreases entries.len(),
{
    if entries.len() > 0 {
        let rest = entries.drop_last();
        let last = entries.len() - 1;
        lemma_collected(rest, key);
        if entries[last].0@ == key {
            assert(is_last_entry(entries, key, last));
        } else if collected(rest).dom().contains(key) {
            let i = choose|i: int| #[trigger]
                is_last_entry(rest, key, i) && collected(rest)[key] == rest[i].1;
            assert forall|j: int| i < j < entries.len() implies (#[trigger] entries[j]).0@ != key by {
                if j < last {
                    assert(rest[j].0@ != key);
                }
            }
            assert(is_last_entry(entries, key, i));
        } else {
            assert forall|i: int| 0 <= i < entries.len() implies (#[trigger] entries[i]).0@
                != key by {
                if i < last {
                    assert(rest[i].0@ != key);
                }
            }
        }
    }
}

/// What entries are collected to has their keys and no others, and for each key the value of the
/// last entry that has it.
pub proof fn lemma_collected_by_key<V>(entries: Seq<(String, V)>, key: Seq<char>)
    ensures
        collected(entries).dom().contains(key) <==> exists|i: int|
            0 <= i < entries.len() && (#[trigger] entries[i]).0@ == key,
        forall|i: int| #[trigger]
            is_last_entry(entries, key, i) ==> collected(entries).contains_pair(key, entries[i].1),
{
    lemma_collected(entries, key);
    let map = collected(entries);
    if map.dom().contains(key) {
        let last = choose|i: int| #[trigger]
            is_last_entry(entries, key, i) && map[key] == entries[i].1;
        assert forall|i: int| #[trigger] is_last_entry(entries, key, i) implies i == last by {
            assert(entries[i].0@ == key);
            assert(entries[last].0@ == key);
        }
    }
}

/// The map of some entries has the keys of the entries and no others, and for each key the value
/// of the last entry that has it.
pub proof fn lemma_collected_entries<V>(
    entries: Vec<(String, V)>,
    map: StringMap<V>,
    key: Seq<char>,
)
    requires
        call_ensures(collect_entries::<V>, (entries,), map),
    ensures
        map@.dom().contains(key) <==> exists|i: int|
            0 <= i < entries@.len() && (#[trigger] entries@[i]).0@ == key,
        forall|i: int| #[trigger]
            is_last_entry(entries@, key, i) ==> map@.contains_pair(key, entries@[i].1),
{
    lemma_collected_by_key(entries@, key);
}

/// The levels that have a name: it ends with how many bits each dimension has.
pub proof fn lemma_levels_named(text: &str, level: Option<BQQuantizationLevel>)
    requires
        call_ensures(level_of, (text,), level),
    ensures
        level is Some <==> {
            &&& text@.len() == "ScalarQuantizationParams_"@.len() + 1
            &&& text@.drop_last() == "ScalarQuantizationParams_"@
            &&& text@.last() == '1' || text@.last() == '2' || text@.last() == '4'
        },
        level == Some(BQQuantizationLevel::OneBit) ==> text@.last() == '1',
        level == Some(BQQuantizationLevel::TwoBit) ==> text@.last() == '2',
        level == Some(BQQuantizationLevel::FourBit) ==> text@.last() == '4',
        level != Some(BQQuantizationLevel::Unquantized),
{
    reveal_strlit("ScalarQuantizationParams_");
    reveal_strlit("ScalarQuantizationParams_1");
    reveal_strlit("ScalarQuantizationParams_2");
    reveal_strlit("ScalarQuantizationParams_4");
    let prefix = "ScalarQuantizationParams_"@;
    assert("ScalarQuantizationParams_1"@ =~= prefix.push('1'));
    assert("ScalarQuantizationParams_2"@ =~= prefix.push('2'));
    assert("ScalarQuantizationParams_4"@ =~= prefix.push('4'));
    assert(prefix.push('1').drop_last() =~= prefix);
    assert(prefix.push('2').drop_last() =~= prefix);
    assert(prefix.push('4').drop_last() =~= prefix);
    if text@.len() == prefix.len() + 1 && text@.drop_last() == prefix {
        assert(text@ =~= prefix.push(text@.last()));
    }
}

/// Methods are told apart by their names: no two of them are kept under one key, whatever their
/// classes are, where no method's name has a colon.
pub proof fn lemma_method_keys(
    class: Seq<char>,
    method: Seq<char>,
    other_class: Seq<char>,
    other_method: Seq<char>,
)
    requires
        !method.contains(':'),
        !other_method.contains(':'),
        method_key(class, method) == method_key(other_class, other_method),
    ensures
        class == other_class,
        method == other_method,
{
    reveal_strlit(":");
    let key = method_key(class, method);
    assert(key.len() == class.len() + 1 + method.len());
    assert(key.len() == other_class.len() + 1 + other_method.len());
    assert(key[class.len() as int] == ':');
    assert(key == method_key(other_class, other_method));
    assert(key[other_class.len() as int] == ':');
    if class.len() < other_class.len() {
        assert(key[other_class.len() as int] == method[other_class.len() - class.len() - 1]);
        assert(method.contains(':'));
    }
    if other_class.len() < class.len() {
        assert(key[class.len() as int] == other_method[class.len() - other_class.len() - 1]);
        assert(other_method.contains(':'));
    }
    assert(class =~= key.take(class.len() as int));
    assert(other_class =~= key.take(class.len() as int));
    assert(method =~= key.skip(class.len() as int + 1));
    assert(other_method =~= key.skip(class.len() as int + 1));
}

/// What is kept under a name is found under that name, and what is kept under other names stays as it
/// is.
pub proof fn lemma_kept_is_found(
    util: &mut JNIUtil,
    name: &str,
    class: GlobalRef,
    method_util: &mut JNIUtil,
    method_name: &str,
    method: JMethodID,
    other: Seq<char>,
    found: Result<&GlobalRef, JniUtilError>,
    searched: Result<&GlobalRef, JniUtilError>,
    found_method: Result<JMethodID, JniUtilError>,
)
    requires
        call_ensures(JNIUtil::keep_class, (util, name, class), ()),
        call_ensures(JNIUtil::find_class, (&*final(util), name), found),
        call_ensures(JNIUtil::class_to_search, (&*final(util), name), searched),
        call_ensures(JNIUtil::keep_method, (method_util, name, method_name, method), ()),
        call_ensures(JNIUtil::find_method, (&*final(method_util), name, method_name), found_method),
    ensures
        found == Ok::<&GlobalRef, JniUtilError>(&class),
        searched == Ok::<&GlobalRef, JniUtilError>(&class),
        found_method == Ok::<JMethodID, JniUtilError>(method),
        other != name@ ==> {
            &&& final(util).cached_classes@.dom().contains(other) == old(util).cached_classes@.dom().contains(other)
            &&& final(util).cached_classes@[other] == old(util).cached_classes@[other]
        },
        other != name@ + ":"@ + method_name@ ==> {
            &&& final(method_util).cached_methods@.dom().contains(other) == old(method_util).cached_methods@.dom().contains(other)
            &&& final(method_util).cached_methods@[other] == old(method_util).cached_methods@[other]
        },
        final(util).vm == old(util).vm,
        final(method_util).vm == old(method_util).vm,
        final(util).cached_methods@ == old(util).cached_methods@,
        final(method_util).cached_classes@ == old(method_util).cached_classes@,
{
}

/// What is not kept at hand is not found, and what is said names it.
pub proof fn lemma_unkept_is_not_found(
    util: &JNIUtil,
    name: &str,
    method_name: &str,
    found: Result<&GlobalRef, JniUtilError>,
    searched: Result<&GlobalRef, JniUtilError>,
    found_method: Result<JMethodID, JniUtilError>,
)
    requires
        call_ensures(JNIUtil::find_class, (util, name), found),
        call_ensures(JNIUtil::class_to_search, (util, name), searched),
        call_ensures(JNIUtil::find_method, (util, name, method_name), found_method),
    ensures
        found is Ok <==> util.cached_classes@.dom().contains(name@),
        searched is Ok <==> util.cached_classes@.dom().contains(name@),
        found_method is Ok <==> util.cached_methods@.dom().contains(
            name@ + ":"@ + method_name@,
        ),
        found is Err ==> (found matches Err(JniUtilError::Runtime(text)) && text@
            == "Unable to load class \""@ + name@ + "\""@),
        searched is Err ==> (searched matches Err(JniUtilError::Runtime(text)) && text@ == "Class "@
            + name@ + " not cached"@),
        found_method is Err ==> (found_method matches Err(JniUtilError::Runtime(text)) && text@
            == "Unable to find \""@ + method_name@ + "\" method"@),
{
}

/// Nothing is at hand at first, nor once all is let go; the machine is at hand once it is kept, and
/// keeping it leaves the rest as it is.
pub proof fn lemma_let_go(
    new: JNIUtil,
    util: &mut JNIUtil,
    kept: &mut JNIUtil,
    java_vm: JavaVM,
    name: Seq<char>,
)
    requires
        call_ensures(JNIUtil::new, (), new),
        call_ensures(JNIUtil::uninitialize, (util,), ()),
        call_ensures(JNIUtil::finish_initialization, (kept, java_vm), ()),
    ensures
        new.vm is None && !new.cached_classes@.dom().contains(name)
            && !new.cached_methods@.dom().contains(name),
        final(util).vm is None && !final(util).cached_classes@.dom().contains(name) && !final(util).cached_methods@.dom().contains(name),
        final(kept).vm == Some(java_vm),
        final(kept).cached_classes@ == old(kept).cached_classes@,
        final(kept).cached_methods@ == old(kept).cached_methods@,
{
}

/// The environment of a thread is what the machine gives, and there is none without a machine.
pub proof fn lemma_current_env(util: &JNIUtil, env: Option<JNIEnv<'_>>)
    requires
        call_ensures(JNIUtil::get_jni_current_env, (util,), env),
    ensures
        util.vm is None ==> env is None,
        env matches Some(e) ==> util.vm matches Some(vm) && jvm::get_env_answers(&vm, Ok(e)),
{
}

/// Classes and methods are looked up at the start, each method behind its class and in it, and each
/// once.
pub proof fn lemma_looked_up(p: usize, step: Option<CacheStep>)
    requires
        call_ensures(cache_step, (p,), step),
    ensures
        step is Some <==> p < 19,
        p == 0 ==> (step matches Some(CacheStep::Class { class }) && class@
            == "java/io/IOException"@),
        p == 1 ==> (step matches Some(CacheStep::Class { class }) && class@
            == "java/lang/Exception"@),
        p == 2 ==> (step matches Some(CacheStep::Class { class }) && class@ == "java/util/Map"@),
        p == 3 ==> is_method_step(step, "java/util/Map"@, "entrySet"@, "()Ljava/util/Set;"@),
        p == 4 ==> (step matches Some(CacheStep::Class { class }) && class@ == "java/util/Set"@),
        p == 5 ==> is_method_step(step, "java/util/Set"@, "iterator"@, "()Ljava/util/Iterator;"@),
        p == 6 ==> (step matches Some(CacheStep::Class { class }) && class@
            == "java/util/Iterator"@),
        p == 7 ==> is_method_step(step, "java/util/Iterator"@, "hasNext"@, "()Z"@),
        p == 8 ==> is_method_step(step, "java/util/Iterator"@, "next"@, "()Ljava/lang/Object;"@),
        p == 9 ==> (step matches Some(CacheStep::Class { class }) && class@ == "java/lang/Object"@),
        p == 10 ==> (step matches Some(CacheStep::Class { class }) && class@
            == "java/util/Map$Entry"@),
        p == 11 ==> is_method_step(step, "java/util/Map$Entry"@, "getKey"@, "()Ljava/lang/Object;"@),
        p == 12 ==> is_method_step(
            step,
            "java/util/Map$Entry"@,
            "getValue"@,
            "()Ljava/lang/Object;"@,
        ),
        p == 13 ==> (step matches Some(CacheStep::Class { class }) && class@
            == "java/lang/Integer"@),
        p == 14 ==> is_method_step(step, "java/lang/Integer"@, "intValue"@, "()I"@),
        p == 15 ==> (step matches Some(CacheStep::Class { class }) && class@
            == "org/opensearch/knn/index/query/KNNQueryResult"@),
        p == 16 ==> is_method_step(
            step,
            "org/opensearch/knn/index/query/KNNQueryResult"@,
            "<init>"@,
            "(IF)V"@,
        ),
        p == 17 ==> (step matches Some(CacheStep::Class { class }) && class@
            == "org/apache/lucene/index/MergeAbortChecker"@),
        p == 18 ==> (step matches Some(CacheStep::StaticMethod { class, method, signature })
            && class@ == "org/apache/lucene/index/MergeAbortChecker"@ && method@
            == "isMergeAborted"@ && signature@ == "()Z"@),
{
}

/// A method of this class, name and signature is looked up.
pub open spec fn is_method_step(
    step: Option<CacheStep>,
    class: Seq<char>,
    method: Seq<char>,
    signature: Seq<char>,
) -> bool {
    match step {
        Some(CacheStep::Method { class: c, method: m, signature: s }) => c@ == class && m@ == method
            && s@ == signature,
        _ => false,
    }
}

/// What Java is told of an error is what the error says, and of a panic the text of the panic; an
/// aborted build is told by its own exception.
pub proof fn lemma_exceptions_tell(
    aborted: JavaException,
    error: JniUtilError,
    exception: JavaException,
    text: &str,
    panicked: JavaException,
    unknown: JavaException,
)
    requires
        call_ensures(build_aborted, (), aborted),
        call_ensures(exception_of_error, (&error,), exception),
        call_ensures(exception_of_panic, (Some(text),), panicked),
        call_ensures(exception_of_panic, (None::<&str>,), unknown),
    ensures
        aborted.class@ == "org/opensearch/knn/index/codec/nativeindex/IndexBuildAbortedException"@,
        aborted.message@ == "Faiss index build aborted"@,
        exception.class@ == "java/lang/Exception"@,
        error matches JniUtilError::Runtime(message) ==> exception.message@ == message@,
        error matches JniUtilError::NullPointer(message) ==> exception.message@ == message@,
        error matches JniUtilError::Jni(e) ==> to_string_from_display_ensures(
            &e,
            exception.message,
        ),
        panicked.class@ == "java/lang/Exception"@,
        panicked.message@ == text@,
        unknown.class@ == "java/lang/Exception"@,
        unknown.message@ == "Unknown exception occurred"@,
{
}

/// A value is what it was read as, where there was one and no exception is pending; an exception that
/// is pending is an error.
pub proof fn lemma_values_checked(
    pending: bool,
    message: &str,
    r: Result<(), JniUtilError>,
    value: Option<i32>,
    n: Result<i32, JniUtilError>,
    length: Result<i32, JniUtilError>,
    object_is_null: bool,
    created: Result<(), JniUtilError>,
    row: i32,
    dim: i32,
    fits: Result<(), JniUtilError>,
    java_string: Option<String>,
    text: Result<String, JniUtilError>,
)
    requires
        call_ensures(check_pending, (pending, message), r),
        call_ensures(integer_of, (value, pending), n),
        call_ensures(length_of, (value, pending), length),
        call_ensures(check_created, (object_is_null,), created),
        call_ensures(check_row_length, (row, dim), fits),
        call_ensures(text_of, (java_string,), text),
    ensures
        r is Ok <==> !pending,
        r is Err ==> (r matches Err(JniUtilError::Runtime(t)) && t@ == message@),
        n is Ok <==> value is Some && !pending,
        n matches Ok(k) ==> value == Some(k),
        length is Ok <==> value is Some && !pending,
        length matches Ok(k) ==> value == Some(k),
        value is None ==> length->Err_0 is NullPointer,
        created is Ok <==> !object_is_null,
        fits is Ok <==> row == dim,
        text is Ok <==> java_string is Some,
        text matches Ok(t) ==> java_string == Some(t),
        java_string is None ==> text->Err_0 is NullPointer,
{
}

/// What it takes to read an integer, to walk a map and to make a result is what is kept under the
/// names of these, and an error where any of it is missing.
pub proof fn lemma_conversions_find(
    util: &JNIUtil,
    is_null: bool,
    integer: Result<(&GlobalRef, JMethodID), JniUtilError>,
    map: Result<(), JniUtilError>,
    result: Result<(&GlobalRef, JMethodID), JniUtilError>,
)
    requires
        call_ensures(JNIUtil::integer_conversion, (util, is_null), integer),
        call_ensures(JNIUtil::check_map_methods, (util, is_null), map),
        call_ensures(JNIUtil::query_result_construction, (util,), result),
    ensures
        integer is Ok <==> {
            &&& !is_null
            &&& util.cached_classes@.dom().contains("java/lang/Integer"@)
            &&& util.cached_methods@.dom().contains("java/lang/Integer"@ + ":"@ + "intValue"@)
        },
        integer matches Ok((class, method)) ==> {
            &&& util.cached_classes@["java/lang/Integer"@] == *class
            &&& util.cached_methods@["java/lang/Integer"@ + ":"@ + "intValue"@] == method
        },
        result is Ok <==> {
            &&& util.cached_classes@.dom().contains("org/opensearch/knn/index/query/KNNQueryResult"@)
            &&& util.cached_methods@.dom().contains(
                "org/opensearch/knn/index/query/KNNQueryResult"@ + ":"@ + "<init>"@,
            )
        },
        result matches Ok((class, method)) ==> {
            &&& util.cached_classes@["org/opensearch/knn/index/query/KNNQueryResult"@] == *class
            &&& util.cached_methods@["org/opensearch/knn/index/query/KNNQueryResult"@ + ":"@
                + "<init>"@] == method
        },
        map is Ok <==> {
            &&& !is_null
            &&& util.cached_methods@.dom().contains("java/util/Map"@ + ":"@ + "entrySet"@)
            &&& util.cached_methods@.dom().contains("java/util/Set"@ + ":"@ + "iterator"@)
            &&& util.cached_methods@.dom().contains("java/util/Iterator"@ + ":"@ + "hasNext"@)
            &&& util.cached_methods@.dom().contains("java/util/Iterator"@ + ":"@ + "next"@)
            &&& util.cached_methods@.dom().contains("java/util/Map$Entry"@ + ":"@ + "getKey"@)
            &&& util.cached_methods@.dom().contains("java/util/Map$Entry"@ + ":"@ + "getValue"@)
        },
{
    assert(map is Ok ==> util.has_map_method(0) && util.has_map_method(1) && util.has_map_method(2)
        && util.has_map_method(3) && util.has_map_method(4) && util.has_map_method(5));
    if let Err(JniUtilError::Runtime(message)) = map {
        assert(util.lacks_map_method(message@));
        let k = choose|k: int| 0 <= k < 6 && !#[trigger] util.has_map_method(k);
        assert(k == 0 || k == 1 || k == 2 || k == 3 || k == 4 || k == 5);
    }
}

/// A map gives what it has under a key, and what is said of a missing key names it; an entry that is
/// taken in is found under its key, and the others stay.
pub proof fn lemma_entries_taken_in<V>(
    map: &mut StringMap<V>,
    key: Option<String>,
    value: V,
    r: Result<(), JniUtilError>,
    other: Seq<char>,
    source: &StringMap<V>,
    name: &str,
    found: Result<&V, JniUtilError>,
)
    requires
        call_ensures(add_map_entry::<V>, (map, key, value), r),
        call_ensures(get_jobject_from_map_or_throw::<V>, (source, name), found),
    ensures
        r is Ok <==> key is Some,
        key matches Some(k) ==> final(map)@.contains_pair(k@, value),
        (key matches Some(k) ==> other != k@) ==> {
            &&& final(map)@.dom().contains(other) == old(map)@.dom().contains(other)
            &&& final(map)@[other] == old(map)@[other]
        },
        found is Ok <==> source@.dom().contains(name@),
        found matches Ok(v) ==> source@[name@] == *v,
        found is Err ==> (found matches Err(JniUtilError::Runtime(text)) && text@ == name@
            + " not found"@),
{
}

/// Numbers keep their values and their order in 64 bits.
pub proof fn lemma_widened(numbers: Vec<i32>, wide: Vec<i64>)
    requires
        call_ensures(widen, (&numbers,), wide),
    ensures
        wide@.len() == numbers@.len(),
        forall|i: int| 0 <= i < numbers@.len() ==> #[trigger] wide@[i] == numbers@[i] as int,
{
}

/// A guard gives out its function once.
pub proof fn lemma_released_once<F: FnOnce()>(
    f: F,
    guard: JniReleaseGuard<F>,
    taken: &mut JniReleaseGuard<F>,
    first: Option<F>,
    again: &mut JniReleaseGuard<F>,
    second: Option<F>,
)
    requires
        call_ensures(JniReleaseGuard::<F>::new, (f,), guard),
        *old(taken) == guard,
        call_ensures(JniReleaseGuard::<F>::take, (taken,), first),
        *old(again) == *final(taken),
        call_ensures(JniReleaseGuard::<F>::take, (again,), second),
    ensures
        first == Some(f),
        second is None,
{
}

/// Levels have names of their own, and a level that a Java string names is the one of that name.
pub proof fn lemma_level_names(
    level: BQQuantizationLevel,
    name: String,
    text: &str,
    r: Result<BQQuantizationLevel, JniUtilError>,
    absent: Result<BQQuantizationLevel, JniUtilError>,
)
    requires
        call_ensures(BQQuantizationLevel::name, (level,), name),
        call_ensures(level_named, (Some(text),), r),
        call_ensures(level_named, (None::<&str>,), absent),
    ensures
        level is OneBit ==> name@ == "OneBit"@,
        level is TwoBit ==> name@ == "TwoBit"@,
        level is FourBit ==> name@ == "FourBit"@,
        level is Unquantized ==> name@ == "None"@,
        r is Ok ==> {
            &&& r->Ok_0 is OneBit <==> text@ == "ScalarQuantizationParams_1"@
            &&& r->Ok_0 is TwoBit <==> text@ == "ScalarQuantizationParams_2"@
            &&& r->Ok_0 is FourBit <==> text@ == "ScalarQuantizationParams_4"@
            &&& !(r->Ok_0 is Unquantized)
        },
        r is Err ==> text@ != "ScalarQuantizationParams_1"@ && text@
            != "ScalarQuantizationParams_2"@ && text@ != "ScalarQuantizationParams_4"@,
        absent is Err && absent->Err_0 is NullPointer,
{
    reveal_strlit("ScalarQuantizationParams_1");
    reveal_strlit("ScalarQuantizationParams_2");
    reveal_strlit("ScalarQuantizationParams_4");
    assert("ScalarQuantizationParams_1"@[25] == '1');
    assert("ScalarQuantizationParams_2"@[25] == '2');
    assert("ScalarQuantizationParams_4"@[25] == '4');
}

/// What is missing or wrong is told.
pub proof fn lemma_faults_are_told(
    text: Result<String, JniUtilError>,
    name: &str,
    level: Result<BQQuantizationLevel, JniUtilError>,
    pending: bool,
    n: Result<i32, JniUtilError>,
    failed: Result<i32, JniUtilError>,
    k: i32,
    created: Result<(), JniUtilError>,
    util: &JNIUtil,
    integer: Result<(&GlobalRef, JMethodID), JniUtilError>,
    map: Result<(), JniUtilError>,
)
    requires
        call_ensures(text_of, (None::<String>,), text),
        call_ensures(level_named, (Some(name),), level),
        call_ensures(integer_of, (None::<i32>, pending), n),
        call_ensures(integer_of, (Some(k), true), failed),
        call_ensures(check_created, (true,), created),
        call_ensures(JNIUtil::integer_conversion, (util, true), integer),
        call_ensures(JNIUtil::check_map_methods, (util, true), map),
    ensures
        text matches Err(JniUtilError::NullPointer(message)) && message@ == "String cannot be null"@,
        level is Err ==> (level matches Err(JniUtilError::Runtime(message)) && message@
            == "Unable to convert java string to quantization level"@),
        n matches Err(JniUtilError::Runtime(message)) && message@
            == "Cannot call IntMethod on non-integer class"@,
        failed matches Err(JniUtilError::Runtime(message)) && message@
            == "Could not call \"intValue\" method on Integer"@,
        created matches Err(JniUtilError::Runtime(message)) && message@ == "Unable to create object"@,
        integer matches Err(JniUtilError::NullPointer(message)) && message@
            == "Object cannot be null"@,
        map matches Err(JniUtilError::NullPointer(message)) && message@
            == "Parameters cannot be null"@,
{
}

} // verus!
