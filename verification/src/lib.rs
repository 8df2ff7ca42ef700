//! Find-up search: walk the ancestor chain of a starting directory and, at
//! each ancestor level, resolve a set of relative sub-path patterns against
//! that level's filesystem contents.
//!
//! Paths are raw byte sequences throughout: a name on disk is not
//! guaranteed to be valid text. The ancestor walk is pure byte
//! manipulation; per-level work is either handed back as a request
//! (literal and prefix matching, resolved from a caller-supplied directory
//! listing) or delegated to the glob engine, whose raw results are
//! post-filtered here.

pub mod engine;
pub mod globbing;
pub mod level;
pub mod matching;
pub mod paths;
