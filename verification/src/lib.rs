//! Verified core of a self-hosted bookmark manager: request validation,
//! bookmark identity, tag handling, text chunking, retrieval budgeting and
//! the rate limiting of the authentication endpoints.
pub mod rate_limit;
pub mod tags;
pub mod text;
pub mod error;
pub mod model;
pub mod bookmark;
pub mod rag;
pub mod config;
pub mod daemon;
pub mod identity;
pub mod text_ai;
pub mod chunking;
pub mod embeddings;
pub mod sql;
pub mod mcp;
pub mod profile;
pub mod readability;
pub mod chrome;
pub mod images;
pub mod auth;
pub mod prompts;
