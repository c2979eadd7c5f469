//! A personal retrieval-augmented knowledge base: the rules of its
//! ingestion pipeline, hybrid retriever, answer engine and capture
//! scheduler, stated with contracts and proved.

pub mod cancel;
pub mod capture;
pub mod categories;
pub mod chunker;
pub mod citations;
pub mod clock;
pub mod error;
pub mod extractor;
pub mod filter;
pub mod fts_query;
pub mod fusion;
pub mod hashing;
pub mod ident;
pub mod ingestion;
pub mod json;
pub mod key_check;
pub mod license;
pub mod lines;
pub mod llm;
pub mod media;
pub mod mime;
pub mod models;
pub mod notifications;
pub mod ocr;
pub mod ocr_cleanup;
pub mod paths;
pub mod patterns;
pub mod pipeline;
pub mod progress;
pub mod prompts;
pub mod queue;
pub mod rate_limiter;
pub mod rag;
pub mod related;
pub mod retriever;
pub mod scheduler;
pub mod settings;
pub mod shell;
pub mod store;
pub mod string_set;
pub mod text;
pub mod titles;
pub mod tokenizer;
pub mod watcher;
