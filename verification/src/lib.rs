//! Configuration of a reverse proxy, verified.
//!
//! A configuration file is read as a list of generic directives ([`syntax`]). [`adapter`] turns
//! that list into a typed tree ([`ast`]) or names the first mistake in it ([`error`]): a directive
//! or an option that is not implemented is refused. Where a value or a reference is read leniently
//! instead, the contract of the function that reads it says so. [`admin`] is the interface through
//! which a running proxy is inspected and given another configuration.
//!
//! Each type has a mathematical value, its deep view, and each function that reads directives
//! states over these values what it returns, errors included. What holds of several functions
//! together stands in public proof functions beside them.

pub mod adapter;
pub mod admin;
pub mod arrange;
pub mod ast;
pub mod decimal;
pub mod duplicate;
pub mod duration;
pub mod duration_laws;
pub mod error;
pub mod fold;
pub mod ip;
pub mod piece_laws;
pub mod syntax;
pub mod table;
pub mod text;
