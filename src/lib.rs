//! Retrieval-augmented answering: context assembly, prompt rendering, the
//! incremental decode loop and the per-request decisions around it.

pub mod context;
pub mod prompt;
pub mod decode;
pub mod generation;
pub mod rag;
pub mod index;
