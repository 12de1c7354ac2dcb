//! What the library hands to a command line: the text of its results.

pub mod output;
