//! The structural check of a bitchain manifest.

use vstd::prelude::*;
use vstd::string::StringExecFns;

use crate::model::{Bitchain, BitchainFile, Block};

verus! {

/// Why a manifest is not well formed.
#[derive(Debug, Clone, PartialEq, Eq)]
pub enum ValidationError {
    /// The manifest lists no files.
    NoFiles,
    /// A file entry has an empty path.
    EmptyPath,
    /// The file with this path has no blocks.
    NoBlocks(String),
    /// The block with this hash has no URIs.
    NoUris(String),
}

/// The first block of `blocks` that has no URI, reported by its hash.
pub open spec fn blocks_problem(blocks: Seq<Block>) -> Option<ValidationError>
    decreases blocks.len(),
{
    if blocks.len() == 0 {
        None
    } else if blocks_problem(blocks.drop_last()) is Some {
        blocks_problem(blocks.drop_last())
    } else if blocks.last().uris@.len() == 0 {
        Some(ValidationError::NoUris(blocks.last().hash))
    } else {
        None
    }
}

/// The first problem of one file entry: its path, then its block list, then its blocks.
pub open spec fn file_problem(f: BitchainFile) -> Option<ValidationError> {
    if f.path@.len() == 0 {
        Some(ValidationError::EmptyPath)
    } else if f.blocks@.len() == 0 {
        Some(ValidationError::NoBlocks(f.path))
    } else {
        blocks_problem(f.blocks@)
    }
}

/// The first problem among `files`, in order.
pub open spec fn files_problem(files: Seq<BitchainFile>) -> Option<ValidationError>
    decreases files.len(),
{
    if files.len() == 0 {
        None
    } else if files_problem(files.drop_last()) is Some {
        files_problem(files.drop_last())
    } else {
        file_problem(files.last())
    }
}

/// What checking `b` yields: the first problem found, walking the manifest in order.
pub open spec fn validation_result(b: Bitchain) -> Result<(), ValidationError> {
    if b.files@.len() == 0 {
        Err(ValidationError::NoFiles)
    } else {
        match files_problem(b.files@) {
            Some(e) => Err(e),
            None => Ok(()),
        }
    }
}

/// A block is usable when it has at least one URI.
pub open spec fn block_ok(b: Block) -> bool {
    b.uris@.len() > 0
}

/// A file entry is usable when it has a path and blocks, each of them usable.
pub open spec fn file_ok(f: BitchainFile) -> bool {
    &&& f.path@.len() > 0
    &&& f.blocks@.len() > 0
    &&& forall|j: int| 0 <= j < f.blocks@.len() ==> #[trigger] block_ok(f.blocks@[j])
}

/// A manifest is well formed when it lists files, each of them usable.
pub open spec fn bitchain_ok(b: Bitchain) -> bool {
    &&& b.files@.len() > 0
    &&& forall|i: int| 0 <= i < b.files@.len() ==> #[trigger] file_ok(b.files@[i])
}

proof fn lemma_blocks_problem_none(blocks: Seq<Block>)
    ensures
        blocks_problem(blocks) is None <==> forall|j: int|
            0 <= j < blocks.len() ==> #[trigger] block_ok(blocks[j]),
    decreases blocks.len(),
{
    if blocks.len() > 0 {
        lemma_blocks_problem_none(blocks.drop_last());
        if blocks_problem(blocks) is None {
            assert forall|j: int| 0 <= j < blocks.len() implies #[trigger] block_ok(blocks[j]) by {
                if j < blocks.len() - 1 {
                    assert(blocks.drop_last()[j] == blocks[j]);
                }
            }
        } else if forall|j: int| 0 <= j < blocks.len() ==> #[trigger] block_ok(blocks[j]) {
            assert forall|j: int| 0 <= j < blocks.drop_last().len() implies #[trigger] block_ok(
                blocks.drop_last()[j],
            ) by {
                assert(blocks.drop_last()[j] == blocks[j]);
            }
            assert(block_ok(blocks[blocks.len() - 1]));
        }
    }
}

proof fn lemma_files_problem_none(files: Seq<BitchainFile>)
    ensures
        files_problem(files) is None <==> forall|i: int|
            0 <= i < files.len() ==> #[trigger] file_ok(files[i]),
    decreases files.len(),
{
    if files.len() > 0 {
        lemma_files_problem_none(files.drop_last());
        lemma_blocks_problem_none(files.last().blocks@);
        if files_problem(files) is None {
            assert forall|i: int| 0 <= i < files.len() implies #[trigger] file_ok(files[i]) by {
                if i < files.len() - 1 {
                    assert(files.drop_last()[i] == files[i]);
                }
            }
        } else if forall|i: int| 0 <= i < files.len() ==> #[trigger] file_ok(files[i]) {
            assert forall|i: int| 0 <= i < files.drop_last().len() implies #[trigger] file_ok(
                files.drop_last()[i],
            ) by {
                assert(files.drop_last()[i] == files[i]);
            }
            assert(file_ok(files[files.len() - 1]));
        }
    }
}

/// A manifest passes the check exactly when it is well formed: it lists at least one
/// file, every file has a path and at least one block, and every block has a URI.
pub proof fn lemma_valid_iff_well_formed(b: Bitchain)
    ensures
        validation_result(b) is Ok <==> bitchain_ok(b),
{
    lemma_files_problem_none(b.files@);
}

fn check_blocks(blocks: &Vec<Block>) -> (res: Option<ValidationError>)
    ensures
        res == blocks_problem(blocks@),
{
    let n = blocks.len();
    assert(blocks@.take(0) == Seq::<Block>::empty());
    for j in 0..n
        invariant
            n == blocks@.len(),
            blocks_problem(blocks@.take(j as int)) is None,
    {
        assert(blocks@.take(j + 1).drop_last() == blocks@.take(j as int));
        if blocks[j].uris.len() == 0 {
            let err = ValidationError::NoUris(blocks[j].hash.clone());
            proof { lemma_blocks_problem_prefix(blocks@, j + 1); }
            return Some(err);
        }
    }
    assert(blocks@.take(n as int) == blocks@);
    None
}

proof fn lemma_blocks_problem_prefix(blocks: Seq<Block>, k: int)
    requires
        0 <= k <= blocks.len(),
        blocks_problem(blocks.take(k)) is Some,
    ensures
        blocks_problem(blocks) == blocks_problem(blocks.take(k)),
    decreases blocks.len() - k,
{
    if k < blocks.len() {
        assert(blocks.take(k + 1).drop_last() == blocks.take(k));
        lemma_blocks_problem_prefix(blocks, k + 1);
    } else {
        assert(blocks.take(k) == blocks);
    }
}

proof fn lemma_files_problem_prefix(files: Seq<BitchainFile>, k: int)
    requires
        0 <= k <= files.len(),
        files_problem(files.take(k)) is Some,
    ensures
        files_problem(files) == files_problem(files.take(k)),
    decreases files.len() - k,
{
    if k < files.len() {
        assert(files.take(k + 1).drop_last() == files.take(k));
        lemma_files_problem_prefix(files, k + 1);
    } else {
        assert(files.take(k) == files);
    }
}

fn check_file(f: &BitchainFile) -> (res: Option<ValidationError>)
    ensures
        res == file_problem(*f),
{
    if f.path.as_str().is_empty() {
        return Some(ValidationError::EmptyPath);
    }
    if f.blocks.len() == 0 {
        return Some(ValidationError::NoBlocks(f.path.clone()));
    }
    check_blocks(&f.blocks)
}

/// Checks the structure of a bitchain: it must list files; each file needs a path and
/// blocks; each block needs a URI. The first problem found, in manifest order, is returned.
pub fn validate_bitchain(bitchain: &Bitchain) -> (res: Result<(), ValidationError>)
    ensures
        res == validation_result(*bitchain),
{
    let files = &bitchain.files;
    let n = files.len();
    if n == 0 {
        return Err(ValidationError::NoFiles);
    }
    assert(files@.take(0) == Seq::<BitchainFile>::empty());
    for i in 0..n
        invariant
            n == files@.len(),
            files == bitchain.files,
            files_problem(files@.take(i as int)) is None,
    {
        assert(files@.take(i + 1).drop_last() == files@.take(i as int));
        match check_file(&files[i]) {
            Some(err) => {
                proof { lemma_files_problem_prefix(files@, i + 1); }
                return Err(err);
            },
            None => {},
        }
    }
    assert(files@.take(n as int) == files@);
    Ok(())
}

} // verus!
verus! {

impl ValidationError {
    /// The message the tool prints for this problem.
    pub fn message(&self) -> (m: String)
        ensures
            m@ == match self {
                ValidationError::NoFiles => "Bitchain contains no files"@,
                ValidationError::EmptyPath => "Bitchain file entry has no path"@,
                ValidationError::NoBlocks(path) => "File "@ + path@ + " contains no blocks"@,
                ValidationError::NoUris(hash) => "Block "@ + hash@ + " has no URIs"@,
            },
    {
        match self {
            ValidationError::NoFiles => "Bitchain contains no files".to_owned(),
            ValidationError::EmptyPath => "Bitchain file entry has no path".to_owned(),
            ValidationError::NoBlocks(path) => {
                let mut m = "File ".to_owned();
                m.append(path.as_str());
                m.append(" contains no blocks");
                m
            },
            ValidationError::NoUris(hash) => {
                let mut m = "Block ".to_owned();
                m.append(hash.as_str());
                m.append(" has no URIs");
                m
            },
        }
    }
}

} // verus!
