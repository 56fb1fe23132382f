//! Core library of a command-line client for a microblogging service.
//!
//! The library holds everything the client decides or computes: extracting a
//! metadata block from a markdown file, resolving a post title, encoding and
//! decoding the local configuration file, building request payloads and
//! endpoint paths, and classifying HTTP responses.  File, network and
//! terminal I/O stay outside, in the binary that drives this library.

pub mod api;
pub mod client;
pub mod config;
pub mod err;
pub mod frontmatter;
pub mod json;
pub mod text;
pub mod title;
pub mod yaml;
