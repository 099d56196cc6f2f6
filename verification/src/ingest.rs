//! Turning a file's chunks into blocks: naming, placing and recording each block.

use vstd::prelude::*;
use vstd::string::StringExecFns;

use crate::chunk::{file_blocks, lemma_blocks_rebuild_bytes};
use crate::config::{aws_credentials, spec_aws_credentials};
use crate::digest::{block_hash, spec_block_hash};
use crate::model::{BitchainFile, Bitchain, Block, Config};
use crate::validate::{block_ok, file_ok, lemma_valid_iff_well_formed, validation_result};
use crate::text::{chars_of, has_prefix, starts_with_chars, trim_start_char, trim_start_char_chars};
use crate::uri::{block_uri, file_uri, is_s3_uri, spec_block_uri, spec_is_s3_uri};

verus! {

/// Why an ingest cannot go on.
#[derive(Debug, Clone, PartialEq, Eq)]
pub enum IngestError {
    /// Blocks are to go to S3 but the configuration holds no AWS credentials.
    MissingS3Credentials,
}

impl IngestError {
    /// The message the tool prints for this problem.
    pub fn message(&self) -> (m: String)
        ensures
            m@
                == "S3 uri_base requires AWS credentials in config; run --setup-config and provide AWS credentials"@,
    {
        "S3 uri_base requires AWS credentials in config; run --setup-config and provide AWS credentials".to_owned()
    }
}

/// Whether a URI base, ignoring leading spaces, points into S3.
pub open spec fn base_is_s3(base: Seq<char>) -> bool {
    has_prefix(trim_start_char(base, ' '), "s3://"@)
}

/// The check made before anything is read: an S3 URI base (leading spaces ignored) needs
/// AWS credentials in the configuration.
pub fn check_uri_base(uri_base: Option<&str>, config: &Option<Config>) -> (r: Result<
    (),
    IngestError,
>)
    ensures
        r is Err <==> (uri_base matches Some(b) && base_is_s3(b@) && spec_aws_credentials(
            *config,
        ) is None),
        r matches Err(e) ==> e == IngestError::MissingS3Credentials,
        r is Err ==> (uri_base matches Some(b) && has_prefix(trim_start_char(b@, ' '), "s3://"@)),
{
    match uri_base {
        Some(base) => {
            let b = chars_of(base);
            let t = trim_start_char_chars(&b, ' ');
            let s3 = chars_of("s3://");
            if starts_with_chars(t, &s3) && aws_credentials(config).is_none() {
                Err(IngestError::MissingS3Credentials)
            } else {
                Ok(())
            }
        },
        None => Ok(()),
    }
}

/// The relative path recorded for a single ingested file: its file name, or `output.bin`
/// when it has none that is valid Unicode.
pub fn single_file_path(file_name: Option<String>) -> (p: String)
    ensures
        p@ == match file_name {
            Some(n) => n@,
            None => "output.bin"@,
        },
{
    match file_name {
        Some(n) => n,
        None => "output.bin".to_owned(),
    }
}

/// The manifest version this tool writes.
pub open spec fn current_version() -> Seq<char> {
    "1.0"@
}

/// A new manifest of the current version listing `files`.
pub fn new_bitchain(files: Vec<BitchainFile>) -> (b: Bitchain)
    ensures
        b.version@ == current_version(),
        b.files == files,
{
    Bitchain { version: "1.0".to_owned(), files }
}

/// What to do with one block once it is named.
#[derive(Debug, Clone, PartialEq, Eq)]
pub enum BlockAction {
    /// Upload the block's bytes to this `s3://` URI, then record it there.
    Upload(String),
    /// Dry run: report that the block would be uploaded to this `s3://` URI, and record it.
    ReportUpload(String),
    /// Dry run: report that this (non-S3) URI would be created, and record it.
    ReportUri(String),
    /// Record the block at this (non-S3) URI; nothing is sent.
    Record(String),
    /// No URI base: write the block's bytes to this file name (`{hash}.bin`) in the
    /// file's block directory, and record it at that file's `file://` URI.
    StoreLocal(String),
    /// No URI base, dry run: nothing is written; the block is recorded at the `file://`
    /// URI this file name (`{hash}.bin`) would have in the file's block directory.
    PlanLocal(String),
}

/// A named block and what to do with it.
#[derive(Debug, Clone, PartialEq, Eq)]
pub struct BlockPlan {
    pub hash: String,
    pub action: BlockAction,
}

/// The URI a remote action records the block at.
pub open spec fn action_uri(a: BlockAction) -> Option<String> {
    match a {
        BlockAction::Upload(u) => Some(u),
        BlockAction::ReportUpload(u) => Some(u),
        BlockAction::ReportUri(u) => Some(u),
        BlockAction::Record(u) => Some(u),
        BlockAction::StoreLocal(_) => None,
        BlockAction::PlanLocal(_) => None,
    }
}

/// Whether `a` is what a block whose URI would be `uri` calls for.
pub open spec fn action_fits(a: BlockAction, uri: Seq<char>, dry_run: bool) -> bool {
    match a {
        BlockAction::Upload(u) => u@ == uri && spec_is_s3_uri(uri) && !dry_run,
        BlockAction::ReportUpload(u) => u@ == uri && spec_is_s3_uri(uri) && dry_run,
        BlockAction::ReportUri(u) => u@ == uri && !spec_is_s3_uri(uri) && dry_run,
        BlockAction::Record(u) => u@ == uri && !spec_is_s3_uri(uri) && !dry_run,
        _ => false,
    }
}

/// The file name a locally stored block with this hash gets.
pub open spec fn block_file_name(hash: Seq<char>) -> Seq<char> {
    hash + ".bin"@
}

/// Whether `a` is what a block named `hash` calls for when there is no URI base.
pub open spec fn local_action_fits(a: BlockAction, hash: Seq<char>, dry_run: bool) -> bool {
    match a {
        BlockAction::StoreLocal(f) => f@ == block_file_name(hash) && !dry_run,
        BlockAction::PlanLocal(f) => f@ == block_file_name(hash) && dry_run,
        _ => false,
    }
}

/// Whether `b` has exactly one URI, where an ingest places it: under a URI base, the
/// block URI built from the base, the file's relative path and the block's hash; without
/// one, a `file://` URI.
pub open spec fn placed(b: Block, uri_base: Option<Seq<char>>, relative_path: Seq<char>) -> bool {
    &&& b.uris@.len() == 1
    &&& match uri_base {
        Some(base) => b.uris@[0]@ == spec_block_uri(base, relative_path, b.hash@),
        None => has_prefix(b.uris@[0]@, "file://"@),
    }
}

/// The blocks of one file being ingested, in the order its chunks were read.
pub struct FileIngest {
    relative_path: String,
    uri_base: Option<String>,
    dry_run: bool,
    has_credentials: bool,
    blocks: Vec<Block>,
}

impl FileIngest {
    pub closed spec fn relative_path(&self) -> Seq<char> {
        self.relative_path@
    }

    pub closed spec fn uri_base(&self) -> Option<Seq<char>> {
        match self.uri_base {
            Some(b) => Some(b@),
            None => None,
        }
    }

    pub closed spec fn dry_run(&self) -> bool {
        self.dry_run
    }

    pub closed spec fn has_credentials(&self) -> bool {
        self.has_credentials
    }

    /// The blocks recorded so far.
    pub closed spec fn blocks(&self) -> Seq<Block> {
        self.blocks@
    }

    /// Every recorded block has exactly one URI, placed where the ingest places it.
    pub closed spec fn wf(&self) -> bool {
        forall|j: int|
            0 <= j < self.blocks@.len() ==> #[trigger] placed(
                self.blocks@[j],
                self.uri_base(),
                self.relative_path(),
            )
    }

    /// The URI a block with this hash is placed at, when there is a URI base.
    pub open spec fn remote_uri(&self, hash: Seq<char>) -> Option<Seq<char>> {
        match self.uri_base() {
            Some(b) => Some(spec_block_uri(b, self.relative_path(), hash)),
            None => None,
        }
    }

    /// Whether `p` is a plan this ingest makes for a block named `p.hash`.
    pub open spec fn plan_fits(&self, p: BlockPlan) -> bool {
        match self.remote_uri(p.hash@) {
            None => local_action_fits(p.action, p.hash@, self.dry_run()),
            Some(uri) => action_fits(p.action, uri, self.dry_run()),
        }
    }

    /// Starts ingesting the file recorded at `relative_path`.
    pub fn new(
        relative_path: String,
        uri_base: Option<String>,
        dry_run: bool,
        config: &Option<Config>,
    ) -> (s: Self)
        ensures
            s.relative_path() == relative_path@,
            s.uri_base() == match uri_base {
                Some(b) => Some(b@),
                None => None::<Seq<char>>,
            },
            s.dry_run() == dry_run,
            s.has_credentials() == spec_aws_credentials(*config) is Some,
            s.blocks() == Seq::<Block>::empty(),
            s.wf(),
    {
        let has_credentials = aws_credentials(config).is_some();
        FileIngest { relative_path, uri_base, dry_run, has_credentials, blocks: Vec::new() }
    }

    /// Names a chunk of the file and decides where it goes. The name is the lower-case hex
    /// SHA-256 of the bytes. With a URI base the block goes to `{base}/{path}/{hash}`: an
    /// `s3://` URI is uploaded (reported only, in a dry run), which needs credentials; any
    /// other URI is only recorded (and reported, in a dry run). Without one the block is
    /// stored locally.
    pub fn plan_block(&self, data: &[u8]) -> (r: Result<BlockPlan, IngestError>)
        ensures
            r is Err <==> ({
                let u = self.remote_uri(spec_block_hash(data@));
                &&& u matches Some(uri) && spec_is_s3_uri(uri)
                &&& !self.dry_run()
                &&& !self.has_credentials()
            }),
            r matches Err(e) ==> e == IngestError::MissingS3Credentials,
            r matches Ok(p) ==> p.hash@ == spec_block_hash(data@) && self.plan_fits(p),
            r matches Ok(p) ==> (self.dry_run() <==> p.action is ReportUpload || p.action is ReportUri
                || p.action is PlanLocal),
    {
        let hash = block_hash(data);
        match &self.uri_base {
            None => {
                let mut name = hash.clone();
                name.append(".bin");
                if self.dry_run {
                    Ok(BlockPlan { hash, action: BlockAction::PlanLocal(name) })
                } else {
                    Ok(BlockPlan { hash, action: BlockAction::StoreLocal(name) })
                }
            },
            Some(base) => {
                let uri = block_uri(base.as_str(), self.relative_path.as_str(), hash.as_str());
                if is_s3_uri(uri.as_str()) {
                    if self.dry_run {
                        Ok(BlockPlan { hash, action: BlockAction::ReportUpload(uri) })
                    } else if self.has_credentials {
                        Ok(BlockPlan { hash, action: BlockAction::Upload(uri) })
                    } else {
                        Err(IngestError::MissingS3Credentials)
                    }
                } else if self.dry_run {
                    Ok(BlockPlan { hash, action: BlockAction::ReportUri(uri) })
                } else {
                    Ok(BlockPlan { hash, action: BlockAction::Record(uri) })
                }
            },
        }
    }

    /// Records a planned block once its action is done: at the action's URI, or, for a
    /// block kept locally, at the `file://` URI of `local_path`, the block file's absolute
    /// path.
    pub fn record(&mut self, plan: BlockPlan, local_path: Option<String>)
        requires
            old(self).wf(),
            old(self).plan_fits(plan),
            action_uri(plan.action) is None ==> local_path is Some,
        ensures
            final(self).wf(),
            final(self).relative_path() == old(self).relative_path(),
            final(self).uri_base() == old(self).uri_base(),
            final(self).dry_run() == old(self).dry_run(),
            final(self).has_credentials() == old(self).has_credentials(),
            final(self).blocks().len() == old(self).blocks().len() + 1,
            final(self).blocks().take(old(self).blocks().len() as int) == old(self).blocks(),
            final(self).blocks().last().hash == plan.hash,
            final(self).blocks().last().uris@.len() == 1,
            final(self).blocks().last().uris@[0]@ == match action_uri(plan.action) {
                Some(u) => u@,
                None => "file://"@ + local_path.unwrap()@,
            },
    {
        let uri = match plan.action {
            BlockAction::Upload(u) => u,
            BlockAction::ReportUpload(u) => u,
            BlockAction::ReportUri(u) => u,
            BlockAction::Record(u) => u,
            BlockAction::StoreLocal(_) => file_uri(local_path.unwrap().as_str()),
            BlockAction::PlanLocal(_) => file_uri(local_path.unwrap().as_str()),
        };
        let ghost u = uri@;
        let mut uris: Vec<String> = Vec::new();
        uris.push(uri);
        let ghost before = self.blocks@;
        let block = Block { hash: plan.hash, uris };
        proof {
            if self.uri_base() is None {
                assert(u.subrange(0, "file://"@.len() as int) =~= "file://"@);
            }
            assert(placed(block, self.uri_base(), self.relative_path()));
        }
        self.blocks.push(block);
        assert(self.blocks@.take(before.len() as int) == before);
        assert forall|j: int| 0 <= j < self.blocks@.len() implies #[trigger] placed(
            self.blocks@[j],
            self.uri_base(),
            self.relative_path(),
        ) by {
            if j < before.len() {
                assert(self.blocks@[j] == before[j]);
            }
        }
    }

    /// The file entry: its relative path and the recorded blocks, in order.
    pub fn finish(self) -> (f: BitchainFile)
        requires
            self.wf(),
        ensures
            f.path@ == self.relative_path(),
            f.blocks@ == self.blocks(),
            forall|j: int|
                0 <= j < f.blocks@.len() ==> #[trigger] placed(
                    f.blocks@[j],
                    self.uri_base(),
                    self.relative_path(),
                ),
    {
        BitchainFile { path: self.relative_path, blocks: self.blocks }
    }
}

/// Only an S3 base is refused for want of credentials: a base counts as S3 only when,
/// leading spaces dropped, it begins with `s3://`, so a base beginning with `http://` or
/// `https://` is never one.
pub proof fn lemma_only_s3_bases_need_credentials(base: Seq<char>)
    ensures
        base_is_s3(base) ==> has_prefix(trim_start_char(base, ' '), "s3://"@),
        has_prefix(base, "http://"@) || has_prefix(base, "https://"@) ==> !base_is_s3(base),
{
    reveal_strlit("s3://");
    reveal_strlit("http://");
    reveal_strlit("https://");
    if has_prefix(base, "http://"@) || has_prefix(base, "https://"@) {
        if has_prefix(base, "http://"@) {
            assert(base.subrange(0, 7)[0] == base[0]);
            assert("http://"@[0] == 'h');
        } else {
            assert(base.subrange(0, 8)[0] == base[0]);
            assert("https://"@[0] == 'h');
        }
        assert(base[0] == 'h');
        assert(trim_start_char(base, ' ') == base);
        if base_is_s3(base) {
            assert(base.subrange(0, 5)[0] == base[0]);
            assert("s3://"@[0] == 's');
        }
    }
}

/// A dry run never sends or writes anything, and a real run never only reports: every plan
/// an ingest makes in a dry run reports an upload or a URI, or plans a local file, and
/// every plan it makes otherwise uploads, records or stores, whether or not AWS
/// credentials are present.
pub proof fn lemma_dry_run_only_reports(ingest: FileIngest, plan: BlockPlan)
    requires
        ingest.plan_fits(plan),
    ensures
        ingest.dry_run() ==> !(plan.action is Upload) && !(plan.action is StoreLocal)
            && !(plan.action is Record),
        !ingest.dry_run() ==> !(plan.action is ReportUpload) && !(plan.action is ReportUri)
            && !(plan.action is PlanLocal),
{
}

/// An upload is planned exactly for blocks whose URI is an S3 URI, in a real run.
pub proof fn lemma_upload_only_to_s3(ingest: FileIngest, plan: BlockPlan)
    requires
        ingest.plan_fits(plan),
    ensures
        plan.action matches BlockAction::Upload(u) ==> spec_is_s3_uri(u@) && !ingest.dry_run()
            && ingest.uri_base() is Some,
{
}

/// A manifest written by an ingest passes the check: when it lists files, each with a
/// path and at least one block (an ingested file that is not empty has one, see
/// `chunk::lemma_blocks_rebuild_bytes`), and every block is placed as the ingest places it,
/// the manifest is well formed. (An empty input file gives a file entry without blocks,
/// which the check refuses.)
pub proof fn lemma_ingested_bitchain_valid(b: Bitchain, uri_base: Option<Seq<char>>)
    requires
        b.files@.len() > 0,
        forall|i: int|
            0 <= i < b.files@.len() ==> {
                let f = #[trigger] b.files@[i];
                &&& f.path@.len() > 0
                &&& f.blocks@.len() > 0
                &&& forall|j: int|
                    0 <= j < f.blocks@.len() ==> #[trigger] placed(f.blocks@[j], uri_base, f.path@)
            },
    ensures
        validation_result(b) is Ok,
{
    lemma_valid_iff_well_formed(b);
    assert forall|i: int| 0 <= i < b.files@.len() implies #[trigger] file_ok(b.files@[i]) by {
        let f = b.files@[i];
        assert forall|j: int| 0 <= j < f.blocks@.len() implies #[trigger] block_ok(f.blocks@[j]) by {
            assert(placed(f.blocks@[j], uri_base, f.path@));
        }
    }
}

/// The manifest of ingested files that are not empty passes the check: when every file
/// entry has a path and one placed block per block of its contents cut at `block_size`
/// (contents that are not empty, so there is at least one block), the manifest is well
/// formed.
pub proof fn lemma_ingested_nonempty_files_valid(
    b: Bitchain,
    contents: Seq<Seq<u8>>,
    block_size: nat,
    uri_base: Option<Seq<char>>,
)
    requires
        block_size > 0,
        b.files@.len() > 0,
        contents.len() == b.files@.len(),
        forall|i: int|
            0 <= i < b.files@.len() ==> {
                let f = #[trigger] b.files@[i];
                &&& f.path@.len() > 0
                &&& contents[i].len() > 0
                &&& f.blocks@.len() == file_blocks(contents[i], block_size).len()
                &&& forall|j: int|
                    0 <= j < f.blocks@.len() ==> #[trigger] placed(f.blocks@[j], uri_base, f.path@)
            },
    ensures
        validation_result(b) is Ok,
{
    assert forall|i: int| 0 <= i < b.files@.len() implies (#[trigger] b.files@[i]).blocks@.len()
        > 0 by {
        lemma_blocks_rebuild_bytes(contents[i], block_size);
    }
    lemma_ingested_bitchain_valid(b, uri_base);
}

} // verus!
