//! A static HTTP file server: request parsing, routing decisions, path
//! confinement, directory listings and response serialisation.
pub mod args;
pub mod client;
pub mod http;
pub mod listing;
pub mod mime;
pub mod paths;
pub mod server;
pub mod text;
