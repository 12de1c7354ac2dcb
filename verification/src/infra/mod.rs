//! The edges of the library: the repository interface and the cache store.

pub mod cache;
pub mod command;
pub mod git;
pub mod paths;
