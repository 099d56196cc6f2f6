//! The data a bitchain manifest and the tool's configuration hold.

use vstd::prelude::*;

verus! {

/// One content-addressed block: its hash and the URIs it can be fetched from, tried in order.
#[derive(Debug, Clone, PartialEq, Eq)]
pub struct Block {
    pub hash: String,
    pub uris: Vec<String>,
}

/// One file of a bitchain: its path relative to the ingested root and its blocks, in order.
#[derive(Debug, Clone, PartialEq, Eq)]
pub struct BitchainFile {
    pub path: String,
    pub blocks: Vec<Block>,
}

/// A bitchain manifest (the current schema, with a list of files).
#[derive(Debug, Clone, PartialEq, Eq)]
pub struct Bitchain {
    pub version: String,
    pub files: Vec<BitchainFile>,
}

/// A manifest of the earlier schema: a single, unnamed file's blocks.
#[derive(Debug, Clone, PartialEq, Eq)]
pub struct OldBitchain {
    pub version: String,
    pub blocks: Vec<Block>,
}

/// AWS credentials and region used for `s3://` URIs.
#[derive(Debug, Clone, PartialEq, Eq)]
pub struct AwsConfig {
    pub access_key_id: String,
    pub secret_access_key: String,
    pub session_token: Option<String>,
    pub region: String,
}

/// The tool's configuration file.
#[derive(Debug, Clone, PartialEq, Eq)]
pub struct Config {
    pub aws: Option<AwsConfig>,
}

} // verus!
