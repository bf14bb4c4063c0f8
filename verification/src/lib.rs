//! Activity provenance engine: bounded capture buffers, a decaying registry of
//! active sources, the linking of committed content to those sources, and the
//! coalescing of an event stream into work blocks.

pub mod ring;
pub mod text;
pub mod vecs;
pub mod tables;
pub mod types;
pub mod host;
pub mod relevance;
pub mod tracker;
pub mod linker;
pub mod workstream;
pub mod summary;
pub mod events;
pub mod capture_buffer;
pub mod database;
pub mod link_store;
pub mod content_store;
pub mod capture_store;
pub mod workblock;
pub mod work_store;
pub mod sampler;
pub mod config;
pub mod intake;
pub mod summarizer;
