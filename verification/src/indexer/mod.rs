//! Preparing stored batches for a document store or a search index.

pub mod classes;
pub mod loads;
pub mod model;
pub mod mongo;
pub mod sink;


