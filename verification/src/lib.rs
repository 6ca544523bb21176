//! Indexing and search over structured conversation logs: per-project
//! directories of append-only JSONL files, one line per turn of a session.
//!
//! The crate parses heterogeneous log records into a normalized message
//! model, builds and incrementally refreshes a persistent searchable index
//! over a directory tree of such logs, and answers two kinds of queries: a
//! per-project fuzzy filter and a cross-project substring search with match
//! highlighting. Every rule of the wire format, of the incremental build and
//! of the search engines is stated as a specification and the executable code
//! is verified against it; calls into outside crates (JSON parsing, SQLite,
//! the fuzzy matcher, timestamps, Unicode lowercasing) stand behind small
//! trusted wrappers whose contracts name what they rely on.
pub mod indexer;
pub mod json;
pub mod models;
pub mod parser;
pub mod search;
pub mod state;
pub mod store;
pub mod strutil;
pub mod time;
