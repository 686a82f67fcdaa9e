//! The typed form of a configuration.

pub mod handler;
pub mod log;
pub mod matcher;
pub mod options;
pub mod proxy;
pub mod server;
pub mod tree;
