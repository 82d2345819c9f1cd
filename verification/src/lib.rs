//! Verified core of a multi-tenant runtime for sandboxed scripts.
//!
//! The crate holds the rules of the system as functions on plain values:
//! how a request is routed to a script, how a bundle is stored and handed
//! back, how typed pairs are written, read and listed page by page, and what
//! the sandbox allows. Every function states what it returns, and the
//! statements are proved.

pub mod bundle;
pub mod cli;
pub mod codec;
pub mod config;
pub mod crypto;
pub mod decimal;
pub mod error;
pub mod headers;
pub mod http;
pub mod ids;
pub mod kv;
pub mod ordering;
pub mod paging;
pub mod ranking;
pub mod rows;
pub mod runtime;
pub mod script_service;
pub mod text;
pub mod worker;
