//! Reading manifests of either schema: the current one (a list of files) and the earlier
//! one (the blocks of a single file).

use vstd::prelude::*;

use crate::model::{BitchainFile, Bitchain, OldBitchain};

verus! {

/// Which schema a parsed manifest follows.
#[derive(Debug, Clone, Copy, PartialEq, Eq)]
pub enum Schema {
    /// It has a `files` field.
    Current,
    /// It has no `files` field but a `blocks` field.
    Old,
}

/// Why a manifest cannot be read.
#[derive(Debug, Clone, PartialEq, Eq)]
pub enum LoadError {
    /// The manifest has neither a `files` nor a `blocks` field.
    UnsupportedSchema,
}

impl LoadError {
    /// The message the tool prints for this problem.
    pub fn message(&self) -> (m: String)
        ensures
            m@ == "Unsupported bitchain schema: missing files or blocks"@,
    {
        "Unsupported bitchain schema: missing files or blocks".to_owned()
    }
}

/// Picks the schema of a manifest from the top-level fields it has: `files` wins, then
/// `blocks`; with neither the manifest is refused.
pub fn select_schema(has_files: bool, has_blocks: bool) -> (r: Result<Schema, LoadError>)
    ensures
        has_files ==> r == Ok::<Schema, LoadError>(Schema::Current),
        !has_files && has_blocks ==> r == Ok::<Schema, LoadError>(Schema::Old),
        !has_files && !has_blocks ==> r == Err::<Schema, LoadError>(LoadError::UnsupportedSchema),
{
    if has_files {
        Ok(Schema::Current)
    } else if has_blocks {
        Ok(Schema::Old)
    } else {
        Err(LoadError::UnsupportedSchema)
    }
}

/// Turns an earlier-schema manifest into a current one with a single file, named after the
/// manifest file's stem (`restored.bin` when it has none), holding the same blocks, and
/// keeping the version.
pub fn upgrade_old_bitchain(old: OldBitchain, file_stem: Option<String>) -> (b: Bitchain)
    ensures
        b.version == old.version,
        b.files@.len() == 1,
        b.files@[0].blocks == old.blocks,
        b.files@[0].path@ == match file_stem {
            Some(s) => s@,
            None => "restored.bin"@,
        },
{
    let path = match file_stem {
        Some(s) => s,
        None => "restored.bin".to_owned(),
    };
    let mut files: Vec<BitchainFile> = Vec::new();
    files.push(BitchainFile { path, blocks: old.blocks });
    Bitchain { version: old.version, files }
}

} // verus!
