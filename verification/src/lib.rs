//! Verified core of a retrieval-augmented document pipeline.
//!
//! The library covers the computational heart of the system: decoding and
//! classifying ingestion events, deriving deterministic point identifiers,
//! chunking document text, driving a task record through its lifecycle, and
//! assembling search and chat requests and responses. Network transports
//! (event bus, embedding API, vector store, database) live outside the
//! library and hand it plain values.

pub mod bus;
pub mod chunk;
pub mod encoding;
pub mod event;
pub mod index;
pub mod ingest;
pub mod openai;
pub mod point;
pub mod postgres;
pub mod query;
pub mod store;
pub mod task;
