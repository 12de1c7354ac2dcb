//! Operations around the resolver: the periodic run as a user service.

pub mod service;
