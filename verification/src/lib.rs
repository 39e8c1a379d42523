//! A history indexer and query service for Antelope chains: the chain's
//! binary formats, the state-history protocol, the documents that are indexed
//! and the queries that are answered from them.

pub mod antelope;
pub mod api;
pub mod bytes;
pub mod chain;
pub mod config;
pub mod elastic;
pub mod foreign;
pub mod indexing;
pub mod json;
pub mod lists;
pub mod models;
pub mod services;
pub mod ship;
pub mod text;
