//! A verified core for a directory-browsing HTTP server: request paths are
//! resolved below a base directory and classified, directories are
//! snapshotted with their children's metadata and percent-encoded URL paths,
//! a registry of named templates is built once at startup, and each directory
//! request negotiates a template and renders the snapshot into one response.
//! The transport, the filesystem reads and the process bootstrap live outside
//! this crate and hand plain values in.

pub mod finfo;
pub mod json;
pub mod pct;
pub mod resolve;
pub mod response;
pub mod router;
pub mod strutil;
pub mod template;
