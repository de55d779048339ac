//! The core of a small static file server that is driven by a declarative
//! configuration: content types, the route table and its lookup, the order in
//! which listening addresses are tried, the command line, and the responses.
//!
//! The logic here is verified with Verus. What it takes from `camino`, `mime`
//! and `std::path` stands behind contracts that are trusted, and that say so.
//! Reading files, resolving and binding addresses and speaking HTTP are left
//! to the program around this library, which hands over plain values and gets
//! plain values back.

pub mod bind;
pub mod cli;
pub mod config;
pub mod http;
pub mod log;
pub mod mime_types;
pub mod paths;
pub mod routes;
pub mod text;
