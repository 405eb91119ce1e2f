//! Graphon: the verified core of a Gmail sorting, cleanup and RAG indexing tool.
pub mod entities;
pub mod error;
pub mod text;
pub mod label_organizer;
pub mod rag_indexer;
pub mod gmail_client;
pub mod qdrant;
pub mod database;
pub mod sort_pipeline;
pub mod classifier;
pub mod server;
