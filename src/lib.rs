//! A terminal assistant library that augments an LLM conversation with
//! context drawn from local files: pattern filtering, a file catalog,
//! keyword search, a conversation store with provisional turns, and the
//! retrieval protocol that ties them together.

pub mod config;
pub mod conversation;
pub mod filesystem;
pub mod pattern;
pub mod prompt;
pub mod rag;
pub mod search;
pub mod session;
pub mod text;
pub mod types;
pub mod ui;

