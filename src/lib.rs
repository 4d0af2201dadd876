//! A scriptable content scanner: the item queue, the engine registry and
//! the scan orchestration that drains one into the other.
//!
//! Every type here is plain state with synchronous operations. The
//! components that run them concurrently, the scripting host and the file
//! system stay outside this library and feed it the outcomes of their work.

pub mod outside;
pub mod item;
pub mod queue;
pub mod engine;
pub mod scan;
pub mod host;
pub mod process;
