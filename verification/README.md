# knn-jni-rs

The native side of the OpenSearch k-NN plugin: what Java calls to build, load, search
and score vector indices with Faiss and NMSLIB.

The decisions are a Verus library. Java objects, errors, plans of native calls, id
filters, bitmaps, byte streams, page lookup and the integer part of scoring are written
with contracts and proved. Floating-point scores, the calls into C and C++ and the
entry points that the JVM looks up stand around it in ordinary Rust.

## Layout

- `src/` is the verified library.
  - `jvm` holds the `jni` types and calls that the proofs rest on, and `asking` those of
    them that only ask; `java_objects`, `faiss_requests` and the `*_service_jni` modules
    read and write Java objects through them.
  - `native_plan` runs plans of native calls; `faiss_plan` and `nmslib_plan` hold the
    plans, with proofs of what they leave behind whatever the calls answer.
  - `faiss_wrapper`, `faiss_index_service`, `faiss_methods`, `faiss_util`,
    `nmslib_wrapper`: what is checked, planned and returned.
  - `stream_support` exchanges bytes with Java streams; `simd` locates vectors in mapped
    memory and computes the integer terms of their scores.
  - `commons`, `jni_util`, `string_map`, `text`, `bits`, `id_bitmap`, `batches`: what the
    others share.
- `app/` is the shared library that Java loads: entry points, native declarations, the
  loops that make the calls of a plan, and the floating-point formulas.
- `tests/` runs the library on concrete values.

Floats cross the library as bit patterns, and native objects as addresses.
