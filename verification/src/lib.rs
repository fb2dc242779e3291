//! Edit-history extraction for knowledge-base dumps.
//!
//! The crate reconstructs, from the markup events of an archival dump, every
//! tracked item together with its revisions, and attaches to each revision the
//! structural patch that leads from the previous payload to its own. Completed
//! items are grouped into bounded batches for an external sink.

pub mod batch;
pub mod document;
pub mod dump;
pub mod filter;
pub mod indexer;
pub mod markup;
pub mod model;
pub mod parser;
pub mod pipeline;
pub mod text;
