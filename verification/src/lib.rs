//! Bitchains: JSON manifests that list, for each file, the content-addressed
//! blocks it is made of and the URIs at which each block can be fetched.
//!
//! This crate holds the rules of the bitchain tool: how a file is cut into
//! blocks, how a block is named and at which URI it is placed, how a manifest
//! is checked and upgraded, how a download source is chosen, and how a block's
//! URIs are tried until one gives bytes of the block's hash.

pub mod chunk;
pub mod config;
pub mod digest;
pub mod ingest;
pub mod model;
pub mod rebuild;
pub mod schema;
pub mod text;
pub mod uri;
pub mod validate;

