//! Block URIs: how they are built, which source serves one, and how an `s3://` URI splits.

use vstd::prelude::*;
use vstd::string::StringExecFns;

use crate::config::{aws_credentials, spec_aws_credentials};
use crate::digest::{lemma_hex_lower_injective, sha256, spec_block_hash};
use crate::model::Config;
use crate::text::{
    chars_of, has_prefix, is_char, lemma_trim_end_prefix_by, push_all, starts_with_chars,
    string_of, trim_end_char, trim_end_char_chars, trim_start_char, trim_start_char_chars,
    trim_start_str, trim_start_str_chars,
};

verus! {

/// The URI of a block stored under `base`: the base without trailing slashes, the file's
/// relative path without leading slashes, and the block's hash, joined by slashes.
pub open spec fn spec_block_uri(base: Seq<char>, relative_path: Seq<char>, hash: Seq<char>) -> Seq<
    char,
> {
    trim_end_char(base, '/') + seq!['/'] + trim_start_char(relative_path, '/') + seq!['/'] + hash
}

/// Builds the URI of a block: `{base without trailing '/'}/{path without leading '/'}/{hash}`.
pub fn block_uri(base: &str, relative_path: &str, hash: &str) -> (uri: String)
    ensures
        uri@ == spec_block_uri(base@, relative_path@, hash@),
{
    let b = chars_of(base);
    let r = chars_of(relative_path);
    let h = chars_of(hash);
    let b = trim_end_char_chars(&b, '/');
    let r = trim_start_char_chars(&r, '/');
    let mut out: Vec<char> = Vec::new();
    push_all(&mut out, b);
    out.push('/');
    push_all(&mut out, r);
    out.push('/');
    push_all(&mut out, &h);
    string_of(&out)
}

/// Slashes between the parts never change a block URI, whatever the scheme: a trailing
/// `/` on the base, or a leading `/` on the relative path, gives the same URI.
pub proof fn lemma_block_uri_ignores_extra_slashes(
    base: Seq<char>,
    relative_path: Seq<char>,
    hash: Seq<char>,
)
    ensures
        spec_block_uri(base + seq!['/'], relative_path, hash) == spec_block_uri(
            base,
            relative_path,
            hash,
        ),
        spec_block_uri(base, seq!['/'] + relative_path, hash) == spec_block_uri(
            base,
            relative_path,
            hash,
        ),
{
    let b = base + seq!['/'];
    assert(b.len() > 0 && b.last() == '/');
    assert(b.drop_last() == base);
    assert(trim_end_char(b, '/') == trim_end_char(base, '/'));
    let r = seq!['/'] + relative_path;
    assert(r.len() > 0 && r[0] == '/');
    assert(r.drop_first() == relative_path);
    assert(trim_start_char(r, '/') == trim_start_char(relative_path, '/'));
}

/// When the base does not end with `/` and the relative path does not begin with one,
/// the block URI is exactly `{base}/{relative path}/{hash}`.
pub proof fn lemma_block_uri_plain_join(base: Seq<char>, relative_path: Seq<char>, hash: Seq<char>)
    requires
        base.len() == 0 || base.last() != '/',
        relative_path.len() == 0 || relative_path[0] != '/',
    ensures
        spec_block_uri(base, relative_path, hash) == base + seq!['/'] + relative_path + seq!['/']
            + hash,
{
}

/// Blocks placed under an S3 base go to S3: when the base begins with `s3://` and names
/// something after it (a character past the scheme that is not `/`), every block URI built
/// from it begins with `s3://` too. (A bare `s3://` base, or one of slashes only after the
/// scheme, loses its trailing slashes and with them the scheme.)
pub proof fn lemma_s3_base_gives_s3_uri(
    base: Seq<char>,
    relative_path: Seq<char>,
    hash: Seq<char>,
    k: int,
)
    requires
        has_prefix(base, "s3://"@),
        5 <= k < base.len(),
        base[k] != '/',
    ensures
        spec_is_s3_uri(spec_block_uri(base, relative_path, hash)),
{
    reveal_strlit("s3://");
    lemma_trim_end_prefix_by(base, is_char('/'));
    let t = trim_end_char(base, '/');
    let u = spec_block_uri(base, relative_path, hash);
    assert(t.len() > k);
    assert(u.subrange(0, 5) == base.subrange(0, 5));
}

/// Identical blocks share storage, and only they do: under one base and one file path, two
/// blocks get the same URI exactly when their SHA-256 digests are equal.
pub proof fn lemma_shared_uri_iff_same_digest(
    base: Seq<char>,
    relative_path: Seq<char>,
    data1: Seq<u8>,
    data2: Seq<u8>,
)
    ensures
        spec_block_uri(base, relative_path, spec_block_hash(data1)) == spec_block_uri(
            base,
            relative_path,
            spec_block_hash(data2),
        ) <==> sha256(data1) == sha256(data2),
{
    let pre = trim_end_char(base, '/') + seq!['/'] + trim_start_char(relative_path, '/') + seq![
        '/',
    ];
    let h1 = spec_block_hash(data1);
    let h2 = spec_block_hash(data2);
    assert(spec_block_uri(base, relative_path, h1) == pre + h1);
    assert(spec_block_uri(base, relative_path, h2) == pre + h2);
    if pre + h1 == pre + h2 {
        assert(h1 == (pre + h1).skip(pre.len() as int));
        assert(h2 == (pre + h2).skip(pre.len() as int));
        lemma_hex_lower_injective(sha256(data1), sha256(data2));
    }
}

/// A block URI determines the block's hash: two URIs of hashes of one length (every block
/// hash has 64 characters) are equal only when the hashes are.
pub proof fn lemma_uri_determines_hash(
    base1: Seq<char>,
    path1: Seq<char>,
    hash1: Seq<char>,
    base2: Seq<char>,
    path2: Seq<char>,
    hash2: Seq<char>,
)
    requires
        hash1.len() == hash2.len(),
        spec_block_uri(base1, path1, hash1) == spec_block_uri(base2, path2, hash2),
    ensures
        hash1 == hash2,
{
    lemma_block_uri_ends_with_hash(base1, path1, hash1);
    lemma_block_uri_ends_with_hash(base2, path2, hash2);
}

/// A block URI ends with `/` and the block's hash, so the hash can be read back from it.
pub proof fn lemma_block_uri_ends_with_hash(
    base: Seq<char>,
    relative_path: Seq<char>,
    hash: Seq<char>,
)
    ensures
        ({
            let u = spec_block_uri(base, relative_path, hash);
            &&& u.len() > hash.len()
            &&& u.subrange(u.len() - hash.len(), u.len() as int) == hash
            &&& u[u.len() - hash.len() - 1] == '/'
        }),
{
    let u = spec_block_uri(base, relative_path, hash);
    let pre = trim_end_char(base, '/') + seq!['/'] + trim_start_char(relative_path, '/') + seq![
        '/',
    ];
    assert(u == pre + hash);
    assert(u.subrange(u.len() - hash.len(), u.len() as int) == hash);
    assert(u[pre.len() - 1] == '/');
}

/// Whether `uri` names an object in S3.
pub open spec fn spec_is_s3_uri(uri: Seq<char>) -> bool {
    has_prefix(uri, "s3://"@)
}

/// Whether `uri` begins with `s3://`.
pub fn is_s3_uri(uri: &str) -> (b: bool)
    ensures
        b == spec_is_s3_uri(uri@),
{
    let u = chars_of(uri);
    let p = chars_of("s3://");
    starts_with_chars(&u, &p)
}

/// The `file://` URI of a stored block, given the block file's absolute path as displayed.
pub fn file_uri(path: &str) -> (uri: String)
    ensures
        uri@ == "file://"@ + path@,
{
    let mut u = "file://".to_owned();
    u.append(path);
    u
}

/// Where a block URI is downloaded from.
#[derive(Debug, Clone, PartialEq, Eq)]
pub enum DownloadSource {
    /// An `s3://bucket/key` object, fetched with the configured credentials.
    S3,
    /// An `http://` or `https://` URL.
    Http,
    /// A local file at this path.
    LocalFile(String),
}

/// Why a block URI cannot be downloaded.
#[derive(Debug, Clone, PartialEq, Eq)]
pub enum DownloadError {
    /// An `s3://` URI was met but the configuration holds no AWS credentials.
    MissingS3Credentials,
}

impl DownloadError {
    /// The message the tool prints for this problem.
    pub fn message(&self) -> (m: String)
        ensures
            m@ == "S3 download requires AWS credentials in config"@,
    {
        "S3 download requires AWS credentials in config".to_owned()
    }
}

/// The local path a URI is read from, when it is neither an S3 nor an HTTP URI.
pub open spec fn spec_local_path(uri: Seq<char>) -> Seq<char> {
    if has_prefix(uri, "file://"@) {
        trim_start_str(uri, "file://"@)
    } else {
        uri
    }
}

/// A stored block's `file://` URI leads back to the block file: for a path that does not
/// itself begin with `file://` (an absolute path begins with `/`), the URI `file_uri`
/// builds from it is neither an S3 nor an HTTP URI, and the local path `download_source`
/// reads for it is the path again.
pub proof fn lemma_file_uri_reads_back_path(path: Seq<char>)
    requires
        !has_prefix(path, "file://"@),
    ensures
        !has_prefix("file://"@ + path, "s3://"@),
        !has_prefix("file://"@ + path, "http://"@),
        !has_prefix("file://"@ + path, "https://"@),
        spec_local_path("file://"@ + path) == path,
{
    reveal_strlit("file://");
    reveal_strlit("s3://");
    reveal_strlit("http://");
    reveal_strlit("https://");
    let u = "file://"@ + path;
    assert(u[0] == 'f');
    assert(u.subrange(0, 7) == "file://"@);
    assert(u.subrange(7, u.len() as int) == path);
    assert(trim_start_str(path, "file://"@) == path);
}

/// Chooses how to download `uri`: S3 for `s3://` (only with credentials), HTTP for
/// `http://` and `https://`, else a local file, whose path is the URI with every leading
/// `file://` removed.
pub fn download_source(uri: &str, config: &Option<Config>) -> (r: Result<
    DownloadSource,
    DownloadError,
>)
    ensures
        has_prefix(uri@, "s3://"@) ==> r == if spec_aws_credentials(*config) is Some {
            Ok::<DownloadSource, DownloadError>(DownloadSource::S3)
        } else {
            Err(DownloadError::MissingS3Credentials)
        },
        !has_prefix(uri@, "s3://"@) && (has_prefix(uri@, "http://"@) || has_prefix(
            uri@,
            "https://"@,
        )) ==> r == Ok::<DownloadSource, DownloadError>(DownloadSource::Http),
        !has_prefix(uri@, "s3://"@) && !has_prefix(uri@, "http://"@) && !has_prefix(
            uri@,
            "https://"@,
        ) ==> (r matches Ok(DownloadSource::LocalFile(p)) && p@ == spec_local_path(uri@)),
{
    let u = chars_of(uri);
    let s3 = chars_of("s3://");
    let http = chars_of("http://");
    let https = chars_of("https://");
    let file = chars_of("file://");
    if starts_with_chars(&u, &s3) {
        match aws_credentials(config) {
            Some(_) => Ok(DownloadSource::S3),
            None => Err(DownloadError::MissingS3Credentials),
        }
    } else if starts_with_chars(&u, &http) || starts_with_chars(&u, &https) {
        Ok(DownloadSource::Http)
    } else if starts_with_chars(&u, &file) {
        proof { reveal_strlit("file://"); }
        let p = trim_start_str_chars(&u, &file);
        Ok(DownloadSource::LocalFile(string_of(p)))
    } else {
        Ok(DownloadSource::LocalFile(uri.to_owned()))
    }
}

/// Calls `reqwest::StatusCode::from_u16` on a code in range and then
/// `StatusCode::is_success`, which the `http` crate documents (and implements) as
/// "the code is within 200-299".
#[verifier::external_body]
fn status_is_success(code: u16) -> (ok: bool)
    requires
        100 <= code <= 999,
    ensures
        ok == (200 <= code < 300),
{
    match reqwest::StatusCode::from_u16(code) {
        Ok(status) => status.is_success(),
        Err(_) => false,
    }
}

/// An HTTP download answered with a status other than success.
#[derive(Debug, Clone, Copy, PartialEq, Eq)]
pub struct HttpStatusError {
    pub code: u16,
}

/// Accepts the body of an HTTP download only when its status code is a success (2xx).
pub fn check_http_status(code: u16) -> (r: Result<(), HttpStatusError>)
    requires
        100 <= code <= 999,
    ensures
        r is Ok <==> 200 <= code < 300,
        r matches Err(e) ==> e.code == code,
{
    if status_is_success(code) {
        Ok(())
    } else {
        Err(HttpStatusError { code })
    }
}

/// The bucket and key of an `s3://bucket/key` URI.
#[derive(Debug, Clone, PartialEq, Eq)]
pub struct S3Location {
    pub bucket: String,
    pub key: String,
}

/// Why an `s3://` URI cannot be split.
#[derive(Debug, Clone, PartialEq, Eq)]
pub enum S3UriError {
    /// The URI does not begin with `s3://`.
    InvalidUri,
    /// After `s3://` there is no `/` between bucket and key.
    InvalidFormat,
}

impl S3UriError {
    /// The message the tool prints for this problem.
    pub fn message(&self) -> (m: String)
        ensures
            m@ == match self {
                S3UriError::InvalidUri => "Invalid S3 URI"@,
                S3UriError::InvalidFormat => "Invalid S3 URI format"@,
            },
    {
        match self {
            S3UriError::InvalidUri => "Invalid S3 URI".to_owned(),
            S3UriError::InvalidFormat => "Invalid S3 URI format".to_owned(),
        }
    }
}

/// Splits `s3://bucket/key` at the first `/` after the scheme: the bucket holds no `/`,
/// the key is everything after it (possibly empty, possibly with more slashes).
pub fn parse_s3_uri(uri: &str) -> (r: Result<S3Location, S3UriError>)
    ensures
        !has_prefix(uri@, "s3://"@) <==> r == Err::<S3Location, S3UriError>(
            S3UriError::InvalidUri,
        ),
        r == Err::<S3Location, S3UriError>(S3UriError::InvalidFormat) <==> has_prefix(
            uri@,
            "s3://"@,
        ) && !uri@.subrange(5, uri@.len() as int).contains('/'),
        r matches Ok(loc) ==> {
            &&& uri@ == "s3://"@ + loc.bucket@ + seq!['/'] + loc.key@
            &&& !loc.bucket@.contains('/')
        },
{
    proof { reveal_strlit("s3://"); }
    let u = chars_of(uri);
    let s3 = chars_of("s3://");
    if !starts_with_chars(&u, &s3) {
        return Err(S3UriError::InvalidUri);
    }
    let n = u.len();
    let mut i: usize = 5;
    while i < n && u[i] != '/'
        invariant
            5 <= i <= n,
            n == u@.len(),
            forall|k: int| 5 <= k < i ==> u@[k] != '/',
        decreases n - i,
    {
        i = i + 1;
    }
    let ghost rest = u@.subrange(5, n as int);
    if i == n {
        assert forall|k: int| 0 <= k < rest.len() implies rest[k] != '/' by {
            assert(rest[k] == u@[k + 5]);
        }
        return Err(S3UriError::InvalidFormat);
    }
    assert(rest[i - 5] == '/');
    let bucket = string_of(&u[5..i]);
    let key = string_of(&u[i + 1..n]);
    assert(u@ == u@.subrange(0, 5) + u@.subrange(5, i as int) + seq!['/'] + u@.subrange(
        i + 1,
        n as int,
    ));
    assert forall|k: int| 0 <= k < bucket@.len() implies bucket@[k] != '/' by {
        assert(bucket@[k] == u@[k + 5]);
    }
    Ok(S3Location { bucket, key })
}

} // verus!
