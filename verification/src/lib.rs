//! Evaluation engine for declarative pass/fail gates.
//!
//! The crate models an evaluation harness for command-line tools: a closed
//! set of gate assertions (shell commands, file checks, a small JSON-path
//! query language, transcript analysis), an efficiency analyzer over raw
//! interaction transcripts, a composite scorer, and a content-addressed
//! cache key. All decision logic is verified; calls into outside crates
//! (regular expressions, JSON parsing, hashing) go through small trusted
//! wrappers whose contracts name their results.

pub mod assertion;
pub mod cache_key;
pub mod eval_helpers;
pub mod gates;
pub mod json;
pub mod json_path;
pub mod mock;
pub mod regex_ops;
pub mod scenario;
pub mod score;
pub mod script;
pub mod text;
pub mod transcript;
