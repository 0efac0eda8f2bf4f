//! Dead code detection for JavaScript / TypeScript source trees.
//!
//! The crate builds a project-wide reference graph from per-file fact
//! sheets (exports, imports, referenced names), resolves relative import
//! specifiers to concrete files, and runs liveness passes that flag
//! unused exports, unused imports and files nobody imports, each with a
//! heuristic confidence score.

pub mod analyzer;
pub mod cli;
pub mod fixer;
pub mod graph;
pub mod laws;
pub mod mapper;
pub mod paths;
pub mod scanner;
pub mod strutil;
pub mod text;
pub mod types;
pub mod walker;
