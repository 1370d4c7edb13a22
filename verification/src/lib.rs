//! Core logic of a small password-storage web server: the API key store
//! and its key-file format, user authentication, server configuration
//! defaults, log-line composition and the text of route responses.

pub mod text;
pub mod api_keys;
pub mod config;
pub mod logs;
pub mod routes;
pub mod jobs;
