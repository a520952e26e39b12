//! Heuristic discovery and assembly of serialized books from web pages:
//! ordering keys, identifiers, document heuristics, per-host pacing and the
//! book store, with every rule stated as a contract.

pub mod assembler;
pub mod book;
pub mod delay;
pub mod dom;
pub mod error;
pub mod heuristics;
pub mod ids;
pub mod label;
pub mod library;
pub mod location;
pub mod num;
pub mod page;
pub mod retriever;
pub mod text;
