//! Deterministic `x.y.z` version coordinates for the commits of a Git
//! repository, anchored to its release tags.

pub mod config;
pub mod domain;
pub mod error;
pub mod infra;
pub mod interface;
pub mod ops;
