//! Turning text into embeddings.

pub mod specter;
