//! Rewrites the command lines of a compilation database so that records
//! produced for a GCC cross-toolchain can be consumed by clang-based tooling.
//!
//! The core is a pure, deterministic text pipeline of three ordered rules
//! applied to each record's `command` string: compiler/target substitution,
//! removal of GCC-only flags, and removal of one ABI flag.

pub mod laws;
pub mod rewrite;
pub mod search;

pub use rewrite::BuildCommand;
pub use rewrite::rewrite_spec;
