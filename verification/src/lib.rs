//! An embedding-backed document store: documents mapped to fixed-length
//! vectors, ranked against a query by cosine similarity.

pub mod embedding_model;
pub mod error;
pub mod index;
pub mod mapping;
pub mod persistence;
pub mod provider;
pub mod ranking;
pub mod similarity;
pub mod vector_store;
