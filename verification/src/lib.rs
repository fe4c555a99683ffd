//! AZ: a local-first personal memory.
//!
//! This crate holds the decisions of the assistant: session modes and the
//! sensitivity filter, key derivation, the JSON prompts handed to the local
//! model, how model answers become segmentation blocks, fact drafts and
//! derived links, and the small text utilities of the command-line tools.
//! Storage (SQLCipher), HTTP and terminal input/output live around it.
pub mod text;
pub mod session;
pub mod filter;
pub mod l0;
pub mod l1;
pub mod l2;
pub mod l3;
pub mod hex;
pub mod db;
pub mod auth;
pub mod llm;
pub mod stamp;
pub mod json;
pub mod segmenter;
pub mod extractor;
pub mod derivation;
pub mod embeddings;
pub mod stt;
pub mod cli;
pub mod backup;
pub mod export;
pub mod links;
pub mod facts;
pub mod chat;
pub mod order;
pub mod markdown;

