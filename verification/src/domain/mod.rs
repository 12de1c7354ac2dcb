//! The coordinate rules: model, time policy, release index and resolvers.

pub mod model;
pub mod release;
pub mod resolver;
pub mod time;
pub mod text;
