//! An append-only registry of content identifiers, exchanged with callers as
//! raw UTF-8 bytes and reported through integer status codes, plus a small
//! integer-addition export.

pub mod arith;
pub mod lemmas;
pub mod registry;

pub use arith::add;
pub use registry::{
    get_memory_by_index, get_memory_count, memory_registry_version, submit_memory,
    wasm_test_ping, MemoryRegistry,
};
