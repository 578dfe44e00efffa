//! Retrieval-augmented question answering over tabular exports: rows become
//! provenance-tagged documents, documents become an index, and answers cite
//! the rows they rest on.

pub mod csv_loader;
pub mod document;
pub mod embeddings;
pub mod ingest;
pub mod lifecycle;
pub mod models;
pub mod query;
pub mod ranking;
pub mod state;
pub mod table;
pub mod text;
pub mod workbook;
