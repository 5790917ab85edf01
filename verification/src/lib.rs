//! The core of a retrieval-augmented generation pipeline: chunking of
//! documents, ingestion into a vector store, relevance-filtered retrieval and
//! prompt assembly for a generative model.
//!
//! The embedding model, the vector store and the generator are reached over a
//! network by the program around this library. The library itself performs no
//! I/O: each operation is a small state machine that hands out the request to
//! perform next and takes back the outcome.

pub mod chunker;
pub mod config;
pub mod errors;
pub mod handlers;
pub mod models;
pub mod payload;
pub mod retrieval;
pub mod score;
pub mod setting;
pub mod stamp;
pub mod text;
pub mod usecases;
