//! Structured model data in a strict relational store.
//!
//! The crate derives a relational schema from a JSON-Schema description of a
//! model ([`json_schema_to_sql`]), decodes collections of model elements
//! ([`util`]), and synchronises them into a store of three tables: elements,
//! relations and extended properties ([`import`], [`store`],
//! [`synchronizer`]). It also holds the decisions of a paginated retrieval
//! of elements from a remote service ([`fetch`]).
//!
//! Nothing here reads files, talks to a network or runs SQL: the functions
//! take and give plain values, and say in their contracts what they compute.

pub mod cli;
pub mod config;
pub mod diagnostics;
pub mod fetch;
pub mod import;
pub mod json;
pub mod json_schema_to_sql;
pub mod statements;
pub mod store;
pub mod synchronizer;
pub mod tweaks;
pub mod util;
