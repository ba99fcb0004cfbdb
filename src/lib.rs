//! Aggregation and search of Nix ecosystem documentation: the kinds of documents,
//! the extraction and stitching of code examples, the refresh rules that decide what
//! to sync and what to delete, the batching of provider events into writes, and the
//! turning of search requests into queries.

pub mod kind;
pub mod text;
pub mod examples;
pub mod refresh;
pub mod channel;
pub mod query;
pub mod entities;
pub mod providers;
pub mod nixpkgs;
pub mod extract;
pub mod integrity;
pub mod index;
pub mod roundtrip;
pub mod fetch;
