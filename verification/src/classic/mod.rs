//! The first form of the server: capturers that fold the captures of a
//! query into named details, the completion decisions built on them, its
//! configuration and its list of filters.
pub mod capturer;
pub mod config;
pub mod files;
pub mod filters;
pub mod queries;
pub mod query_helper;
pub mod server;
