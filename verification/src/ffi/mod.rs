//! What the native libraries are seen as: handles of their objects, and constants.

pub mod faiss_sys;
