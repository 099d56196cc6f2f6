use bitchain::digest::block_hash;
use bitchain::model::{AwsConfig, Block, Config};
use bitchain::rebuild::{BlockFetch, FetchAction, RebuildError};
use bitchain::uri::{
    check_http_status, download_source, file_uri, HttpStatusError, parse_s3_uri, DownloadError, DownloadSource, S3Location, S3UriError,
};

fn with_aws() -> Option<Config> {
    Some(Config {
        aws: Some(AwsConfig {
            access_key_id: "id".to_string(),
            secret_access_key: "secret".to_string(),
            session_token: None,
            region: "us-east-1".to_string(),
        }),
    })
}

#[test]
fn s3_download_needs_credentials() {
    assert_eq!(download_source("s3://b/k", &with_aws()), Ok(DownloadSource::S3));
    assert_eq!(
        download_source("s3://b/k", &None),
        Err(DownloadError::MissingS3Credentials)
    );
    assert_eq!(
        download_source("s3://b/k", &Some(Config { aws: None })),
        Err(DownloadError::MissingS3Credentials)
    );
    assert_eq!(
        DownloadError::MissingS3Credentials.message(),
        "S3 download requires AWS credentials in config"
    );
}

#[test]
fn http_and_https_download_over_http() {
    assert_eq!(download_source("http://h/x", &None), Ok(DownloadSource::Http));
    assert_eq!(download_source("https://h/x", &None), Ok(DownloadSource::Http));
}

#[test]
fn file_uris_read_local_paths() {
    assert_eq!(
        download_source("file:///tmp/a.bin", &None),
        Ok(DownloadSource::LocalFile("/tmp/a.bin".to_string()))
    );
    assert_eq!(
        download_source("file://file://rel", &None),
        Ok(DownloadSource::LocalFile("rel".to_string()))
    );
    assert_eq!(
        download_source("blocks/h.bin", &with_aws()),
        Ok(DownloadSource::LocalFile("blocks/h.bin".to_string()))
    );
}

#[test]
fn s3_uri_splits_at_first_slash() {
    assert_eq!(
        parse_s3_uri("s3://bucket/dir/file.bin/abc"),
        Ok(S3Location {
            bucket: "bucket".to_string(),
            key: "dir/file.bin/abc".to_string()
        })
    );
    assert_eq!(
        parse_s3_uri("s3://bucket/"),
        Ok(S3Location {
            bucket: "bucket".to_string(),
            key: "".to_string()
        })
    );
}

#[test]
fn malformed_s3_uris_are_refused() {
    assert_eq!(parse_s3_uri("s3://bucket"), Err(S3UriError::InvalidFormat));
    assert_eq!(parse_s3_uri("http://bucket/key"), Err(S3UriError::InvalidUri));
    assert_eq!(S3UriError::InvalidUri.message(), "Invalid S3 URI");
    assert_eq!(S3UriError::InvalidFormat.message(), "Invalid S3 URI format");
}

fn block_of(data: &[u8], uri_count: usize) -> Block {
    Block {
        hash: block_hash(data),
        uris: (0..uri_count).map(|i| format!("u{}", i)).collect(),
    }
}

#[test]
fn fetch_uses_first_successful_uri() {
    let block = block_of(b"payload", 3);
    let (mut f, a) = BlockFetch::start(&block);
    assert_eq!(a, FetchAction::Download(0));
    assert_eq!(f.on_download(None), FetchAction::Download(1));
    assert_eq!(f.on_download(Some(b"payload")), FetchAction::Use(1));
}

#[test]
fn fetch_skips_bytes_of_another_hash() {
    let block = block_of(b"payload", 3);
    let (mut f, _) = BlockFetch::start(&block);
    assert_eq!(f.on_download(Some(b"tampered")), FetchAction::Download(1));
    assert_eq!(f.on_download(Some(b"")), FetchAction::Download(2));
    assert_eq!(f.on_download(Some(b"payload")), FetchAction::Use(2));
    assert_eq!(
        RebuildError::HashMismatch("abc".to_string(), "s3://b/k".to_string()).message(),
        "Data from s3://b/k does not match block hash abc"
    );
}

#[test]
fn fetch_fails_when_no_uri_gives_the_block() {
    let block = block_of(b"payload", 2);
    let (mut f, a) = BlockFetch::start(&block);
    assert_eq!(a, FetchAction::Download(0));
    assert_eq!(f.on_download(Some(b"other")), FetchAction::Download(1));
    assert_eq!(f.on_download(None), FetchAction::Fail);
    assert_eq!(
        RebuildError::AllUrisFailed("h9".to_string()).message(),
        "All URIs failed for block h9"
    );
}

#[test]
fn fetch_without_uris_fails_at_once() {
    let block = block_of(b"payload", 0);
    let (_f, a) = BlockFetch::start(&block);
    assert_eq!(a, FetchAction::Fail);
}

#[test]
fn only_2xx_statuses_are_accepted() {
    assert_eq!(check_http_status(200), Ok(()));
    assert_eq!(check_http_status(204), Ok(()));
    assert_eq!(check_http_status(299), Ok(()));
    assert_eq!(check_http_status(199), Err(HttpStatusError { code: 199 }));
    assert_eq!(check_http_status(300), Err(HttpStatusError { code: 300 }));
    assert_eq!(check_http_status(404), Err(HttpStatusError { code: 404 }));
}

#[test]
fn stored_block_uri_reads_back_its_path() {
    let uri = file_uri("/out/a.blocks/h.bin");
    assert_eq!(
        download_source(&uri, &None),
        Ok(DownloadSource::LocalFile("/out/a.blocks/h.bin".to_string()))
    );
}
