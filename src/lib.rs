//! A small HTTP/1.1 static file server: request parsing, path containment,
//! directory listings, response framing and the per-connection decisions.
pub mod status;
pub mod text;
pub mod request;
pub mod response;
pub mod path;
pub mod listing;
pub mod config;
pub mod connection;
