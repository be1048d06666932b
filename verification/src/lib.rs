//! A small user-record service, modelled and verified.
//!
//! The library holds the service's logic: the `User` entity, a model of the
//! backing table with its freshness invariant on ids, the route table,
//! decimal and JSON text handling, and the request handlers. The process
//! around it (HTTP listener, database driver, configuration) lives outside
//! and exchanges plain values with these functions.

pub mod json;
pub mod numtext;
pub mod routes;
pub mod service;
pub mod strutil;
pub mod table;
pub mod user;
