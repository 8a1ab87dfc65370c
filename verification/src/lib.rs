//! Ingestion and retrieval pipeline for retrieval-augmented generation.

pub mod api;
pub mod data;
pub mod embedding;
pub mod error;
pub mod ollama;
pub mod progress_tracker;
pub mod qdrant;
pub mod retriever;
pub mod state;
pub mod text;
pub mod variants;
