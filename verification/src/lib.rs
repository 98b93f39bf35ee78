//! Sentinel-delimited template substitution.
//!
//! A run is configured by a list of `key=value` replacements and two
//! sentinel strings. Every key is wrapped in the sentinels to form a literal
//! pattern, the patterns are compiled once into a leftmost-first matcher, and
//! the matcher rewrites any number of texts, each in a single pass.

pub mod automaton;
pub mod driver;
pub mod file_task;
pub mod matcher;
pub mod replacement;
pub mod semantics;
