//! Fetching a block back: its URIs are tried in order until one download both succeeds and
//! yields bytes whose hash is the block's hash.

use vstd::prelude::*;
use vstd::string::StringExecFns;

use crate::digest::{block_matches, spec_block_hash};
use crate::chunk::{file_blocks, lemma_blocks_rebuild_bytes};
use crate::model::Block;

verus! {

/// What to do next while fetching one block.
#[derive(Debug, Clone, Copy, PartialEq, Eq)]
pub enum FetchAction {
    /// Download the block from the URI at this index.
    Download(usize),
    /// The bytes downloaded from the URI at this index are the block: write them.
    Use(usize),
    /// No URI gave the block's bytes (or there were none): the block cannot be rebuilt.
    Fail,
}

/// The progress of fetching one block: its hash, how many URIs it lists, which one is
/// being tried.
#[derive(Debug, Clone, PartialEq, Eq)]
pub struct BlockFetch {
    hash: String,
    uri_count: usize,
    next: usize,
    finished: bool,
}

impl BlockFetch {
    /// The hash the downloaded bytes must have.
    pub closed spec fn hash(&self) -> Seq<char> {
        self.hash@
    }

    /// Number of URIs the block lists.
    pub closed spec fn uri_count(&self) -> nat {
        self.uri_count as nat
    }

    /// Index of the URI being downloaded (or, once finished, where the search stopped).
    pub closed spec fn next(&self) -> nat {
        self.next as nat
    }

    /// Whether the block was found or given up on.
    pub closed spec fn finished(&self) -> bool {
        self.finished
    }

    /// Whether a download is awaited: the fetch is not finished and the URI exists.
    pub open spec fn awaiting(&self) -> bool {
        !self.finished() && self.next() < self.uri_count()
    }
}

/// Whether a download result gives the block named `hash`: the download succeeded and the
/// bytes hash to `hash`.
pub open spec fn accepted(downloaded: Option<Seq<u8>>, hash: Seq<char>) -> bool {
    match downloaded {
        Some(d) => spec_block_hash(d) == hash,
        None => false,
    }
}

/// The first fetch state and action for `block`.
pub closed spec fn fetch_start(block: Block) -> (BlockFetch, FetchAction) {
    let uri_count = block.uris@.len() as usize;
    if uri_count == 0 {
        (BlockFetch { hash: block.hash, uri_count, next: 0, finished: true }, FetchAction::Fail)
    } else {
        (
            BlockFetch { hash: block.hash, uri_count, next: 0, finished: false },
            FetchAction::Download(0),
        )
    }
}

/// The fetch state and action after the awaited download of `s` gave `downloaded`
/// (`None` for a failed download).
pub closed spec fn fetch_step(s: BlockFetch, downloaded: Option<Seq<u8>>) -> (
    BlockFetch,
    FetchAction,
) {
    if accepted(downloaded, s.hash@) {
        (BlockFetch { finished: true, ..s }, FetchAction::Use(s.next))
    } else if s.next + 1 < s.uri_count {
        (
            BlockFetch { next: (s.next + 1) as usize, ..s },
            FetchAction::Download((s.next + 1) as usize),
        )
    } else {
        (BlockFetch { next: (s.next + 1) as usize, finished: true, ..s }, FetchAction::Fail)
    }
}

/// The action a fetch ends with when its downloads give `outcomes`, in order.
pub open spec fn fetch_outcome(s: BlockFetch, a: FetchAction, outcomes: Seq<Option<Seq<u8>>>) -> FetchAction
    decreases outcomes.len(),
{
    if a is Download && outcomes.len() > 0 {
        let (s2, a2) = fetch_step(s, outcomes[0]);
        fetch_outcome(s2, a2, outcomes.drop_first())
    } else {
        a
    }
}

/// The index of the first URI, from `from` on, whose download gives the block named `hash`.
pub open spec fn first_match(outcomes: Seq<Option<Seq<u8>>>, hash: Seq<char>, from: int, count: int) -> Option<int>
    decreases count - from,
{
    if from >= count || from >= outcomes.len() {
        None
    } else if accepted(outcomes[from], hash) {
        Some(from)
    } else {
        first_match(outcomes, hash, from + 1, count)
    }
}

impl BlockFetch {
    /// Starts fetching `block`: download its first URI, or fail at once when it lists none.
    pub fn start(block: &Block) -> (r: (BlockFetch, FetchAction))
        ensures
            r == fetch_start(*block),
            r.0.hash() == block.hash@,
            r.0.uri_count() == block.uris@.len(),
            r.0.next() == 0,
            block.uris@.len() == 0 ==> r.1 == FetchAction::Fail && r.0.finished(),
            block.uris@.len() > 0 ==> r.1 == FetchAction::Download(0) && r.0.awaiting(),
    {
        let uri_count = block.uris.len();
        let hash = block.hash.clone();
        if uri_count == 0 {
            (BlockFetch { hash, uri_count, next: 0, finished: true }, FetchAction::Fail)
        } else {
            (BlockFetch { hash, uri_count, next: 0, finished: false }, FetchAction::Download(0))
        }
    }

    /// Takes the result of the awaited download (`None` when it failed). Bytes whose hash
    /// is the block's end the fetch with that URI; a failed download or bytes of another
    /// hash move on to the next URI, or fail the block after the last one.
    pub fn on_download(&mut self, downloaded: Option<&[u8]>) -> (a: FetchAction)
        requires
            old(self).awaiting(),
        ensures
            (*final(self), a) == fetch_step(
                *old(self),
                match downloaded {
                    Some(d) => Some(d@),
                    None => None,
                },
            ),
            final(self).hash() == old(self).hash(),
            final(self).uri_count() == old(self).uri_count(),
            ({
                let ok = downloaded matches Some(d) && spec_block_hash(d@) == old(self).hash();
                &&& ok ==> a == FetchAction::Use(old(self).next() as usize) && final(self).finished()
                &&& !ok && old(self).next() + 1 < old(self).uri_count() ==> a
                    == FetchAction::Download((old(self).next() + 1) as usize)
                    && final(self).awaiting() && final(self).next() == old(self).next() + 1
                &&& !ok && old(self).next() + 1 >= old(self).uri_count() ==> a
                    == FetchAction::Fail && final(self).finished()
            }),
    {
        let ok = match downloaded {
            Some(d) => block_matches(d, self.hash.as_str()),
            None => false,
        };
        if ok {
            self.finished = true;
            FetchAction::Use(self.next)
        } else if self.next + 1 < self.uri_count {
            self.next = self.next + 1;
            FetchAction::Download(self.next)
        } else {
            self.next = self.next + 1;
            self.finished = true;
            FetchAction::Fail
        }
    }
}

/// The action a search that stopped at `found` ends with.
pub open spec fn fetch_result(found: Option<int>) -> FetchAction {
    match found {
        Some(k) => FetchAction::Use(k as usize),
        None => FetchAction::Fail,
    }
}

proof fn lemma_fetch_from(s: BlockFetch, outcomes: Seq<Option<Seq<u8>>>)
    requires
        !s.finished,
        s.next < s.uri_count,
        outcomes.len() >= s.uri_count,
    ensures
        fetch_outcome(s, FetchAction::Download(s.next), outcomes.skip(s.next as int))
            == fetch_result(first_match(outcomes, s.hash@, s.next as int, s.uri_count as int)),
    decreases s.uri_count - s.next,
{
    let k = s.next as int;
    let (s2, a2) = fetch_step(s, outcomes[k]);
    assert(outcomes.skip(k)[0] == outcomes[k]);
    assert(outcomes.skip(k).drop_first() == outcomes.skip(k + 1));
    if !accepted(outcomes[k], s.hash@) && k + 1 < s.uri_count {
        lemma_fetch_from(s2, outcomes);
    }
}

/// Block hashes are verified on fetch: when the downloads of a block's URIs would give
/// `outcomes` (`None` for a failed download), in order, the fetch uses the first URI whose
/// download succeeds with bytes that hash to the block's hash, and fails when no URI does.
/// Bytes of another hash are never used.
pub proof fn lemma_fetch_uses_first_matching_download(block: Block, outcomes: Seq<Option<Seq<u8>>>)
    requires
        outcomes.len() >= block.uris@.len(),
        block.uris@.len() <= usize::MAX,
    ensures
        fetch_outcome(fetch_start(block).0, fetch_start(block).1, outcomes) == fetch_result(
            first_match(outcomes, block.hash@, 0, block.uris@.len() as int),
        ),
        fetch_outcome(fetch_start(block).0, fetch_start(block).1, outcomes) matches FetchAction::Use(k)
            ==> outcomes[k as int] matches Some(d) && spec_block_hash(d) == block.hash@,
{
    let s = fetch_start(block).0;
    if block.uris@.len() > 0 {
        assert(outcomes.skip(0) == outcomes);
        lemma_fetch_from(s, outcomes);
    }
    lemma_first_match_accepted(outcomes, block.hash@, 0, block.uris@.len() as int);
}

proof fn lemma_first_match_accepted(outcomes: Seq<Option<Seq<u8>>>, hash: Seq<char>, from: int, count: int)
    requires
        0 <= from,
    ensures
        first_match(outcomes, hash, from, count) matches Some(k) ==> 0 <= from <= k < outcomes.len()
            && k < count && accepted(outcomes[k], hash),
    decreases count - from,
{
    if from < count && from < outcomes.len() && !accepted(outcomes[from], hash) {
        lemma_first_match_accepted(outcomes, hash, from + 1, count);
    }
}

/// Rebuilding gives back the ingested file: take the blocks of contents `data` cut at
/// `block_size`, and a manifest entry for each that names it by its hash and lists at
/// least one URI. When the store gives back, at every URI of a block, the bytes stored for
/// it, the fetch of each block uses its first URI, the bytes it uses are that block, and
/// the blocks, written one after another in manifest order, are `data`.
pub proof fn lemma_rebuild_round_trip(data: Seq<u8>, block_size: nat, manifest: Seq<Block>)
    requires
        block_size > 0,
        manifest.len() == file_blocks(data, block_size).len(),
        forall|i: int|
            0 <= i < manifest.len() ==> {
                &&& (#[trigger] manifest[i]).hash@ == spec_block_hash(
                    file_blocks(data, block_size)[i],
                )
                &&& 0 < manifest[i].uris@.len() <= usize::MAX
            },
    ensures
        forall|i: int|
            0 <= i < manifest.len() ==> fetch_outcome(
                fetch_start(#[trigger] manifest[i]).0,
                fetch_start(manifest[i]).1,
                stored(file_blocks(data, block_size)[i], manifest[i].uris@.len()),
            ) == FetchAction::Use(0),
        file_blocks(data, block_size).flatten() == data,
{
    lemma_blocks_rebuild_bytes(data, block_size);
    assert forall|i: int| 0 <= i < manifest.len() implies fetch_outcome(
        fetch_start(#[trigger] manifest[i]).0,
        fetch_start(manifest[i]).1,
        stored(file_blocks(data, block_size)[i], manifest[i].uris@.len()),
    ) == FetchAction::Use(0) by {
        let b = file_blocks(data, block_size)[i];
        let outcomes = stored(b, manifest[i].uris@.len());
        lemma_fetch_uses_first_matching_download(manifest[i], outcomes);
        assert(accepted(outcomes[0], manifest[i].hash@));
    }
}

/// A store that gives back `bytes` at each of `uri_count` URIs.
pub open spec fn stored(bytes: Seq<u8>, uri_count: nat) -> Seq<Option<Seq<u8>>> {
    Seq::new(uri_count, |k: int| Some(bytes))
}

/// Why a block could not be taken from a URI, or a file cannot be rebuilt.
#[derive(Debug, Clone, PartialEq, Eq)]
pub enum RebuildError {
    /// No URI of the block with this hash gave its bytes.
    AllUrisFailed(String),
    /// The bytes downloaded from this URI do not hash to this block hash.
    HashMismatch(String, String),
}

impl RebuildError {
    /// The message the tool prints for this problem.
    pub fn message(&self) -> (m: String)
        ensures
            m@ == match self {
                RebuildError::AllUrisFailed(hash) => "All URIs failed for block "@ + hash@,
                RebuildError::HashMismatch(hash, uri) => "Data from "@ + uri@
                    + " does not match block hash "@ + hash@,
            },
    {
        match self {
            RebuildError::AllUrisFailed(hash) => {
                let mut m = "All URIs failed for block ".to_owned();
                m.append(hash.as_str());
                m
            },
            RebuildError::HashMismatch(hash, uri) => {
                let mut m = "Data from ".to_owned();
                m.append(uri.as_str());
                m.append(" does not match block hash ");
                m.append(hash.as_str());
                m
            },
        }
    }
}

} // verus!
