//! The key/value service: typed pairs in namespaces, listed page by page.

pub mod config;
pub mod database;
pub mod kv_service;
pub mod model;
pub mod namespace;
pub mod value;
