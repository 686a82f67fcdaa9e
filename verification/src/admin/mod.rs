//! The admin interface: who may use it, what a request asks for, and what it is answered.

pub mod auth;
pub mod body;
pub mod commit;
pub mod config_tree;
pub mod json;
pub mod request_laws;
pub mod requests;
pub mod tree_laws;
