//! Document model and schema mapping for a full-text index of version-control
//! activity records, built on the tantivy search engine.

pub mod codec;
pub mod document;
pub mod engine;
pub mod fields;
pub mod laws;
pub mod schema;
pub mod session;
