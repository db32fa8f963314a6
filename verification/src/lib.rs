//! A typed client library for the Algolia hosted-search HTTP API.
//!
//! The heart of the crate is the parameter model: polymorphic
//! configuration fields with shape-directed wire encodings, the two
//! large optional-field aggregates ([`SearchQuery`](index::SearchQuery)
//! and [`IndexSettings`](index::settings::IndexSettings)), and the
//! request payloads built from them. All of that logic is verified;
//! the HTTP transport itself is left to the caller.

pub mod client;
pub mod error;
pub mod index;
pub mod json;
pub mod strutil;
pub mod time;
pub mod urlenc;
pub mod wire;

pub use client::Client;
pub use error::DecodeError;
pub use index::SearchQuery;
pub use index::settings;
