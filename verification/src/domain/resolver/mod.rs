//! The resolvers: from a commit, or from a file, to a coordinate.

pub mod file;
pub mod mark;
