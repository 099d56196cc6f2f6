use bitchain::model::{Bitchain, BitchainFile, Block, OldBitchain};
use bitchain::schema::{select_schema, upgrade_old_bitchain, LoadError, Schema};
use bitchain::validate::{validate_bitchain, ValidationError};

fn block(hash: &str, uris: &[&str]) -> Block {
    Block {
        hash: hash.to_string(),
        uris: uris.iter().map(|u| u.to_string()).collect(),
    }
}

fn file(path: &str, blocks: Vec<Block>) -> BitchainFile {
    BitchainFile {
        path: path.to_string(),
        blocks,
    }
}

fn chain(files: Vec<BitchainFile>) -> Bitchain {
    Bitchain {
        version: "1.0".to_string(),
        files,
    }
}

#[test]
fn valid_bitchain_passes() {
    let b = chain(vec![
        file("a.bin", vec![block("h1", &["s3://b/a.bin/h1"]), block("h2", &["x", "y"])]),
        file("b.bin", vec![block("h3", &["file:///tmp/h3.bin"])]),
    ]);
    assert_eq!(validate_bitchain(&b), Ok(()));
}

#[test]
fn empty_bitchain_has_no_files() {
    let b = chain(vec![]);
    assert_eq!(validate_bitchain(&b), Err(ValidationError::NoFiles));
    assert_eq!(ValidationError::NoFiles.message(), "Bitchain contains no files");
}

#[test]
fn file_without_path_is_refused() {
    let b = chain(vec![file("", vec![block("h1", &["u"])])]);
    assert_eq!(validate_bitchain(&b), Err(ValidationError::EmptyPath));
    assert_eq!(
        ValidationError::EmptyPath.message(),
        "Bitchain file entry has no path"
    );
}

#[test]
fn file_without_blocks_is_refused() {
    let b = chain(vec![file("a.bin", vec![block("h1", &["u"])]), file("empty.bin", vec![])]);
    let err = validate_bitchain(&b).unwrap_err();
    assert_eq!(err, ValidationError::NoBlocks("empty.bin".to_string()));
    assert_eq!(err.message(), "File empty.bin contains no blocks");
}

#[test]
fn block_without_uris_is_refused() {
    let b = chain(vec![file(
        "a.bin",
        vec![block("h1", &["u"]), block("h2", &[]), block("h3", &[])],
    )]);
    let err = validate_bitchain(&b).unwrap_err();
    assert_eq!(err, ValidationError::NoUris("h2".to_string()));
    assert_eq!(err.message(), "Block h2 has no URIs");
}

#[test]
fn first_problem_in_order_is_reported() {
    let b = chain(vec![
        file("a.bin", vec![block("h1", &[])]),
        file("", vec![block("h2", &["u"])]),
    ]);
    assert_eq!(
        validate_bitchain(&b),
        Err(ValidationError::NoUris("h1".to_string()))
    );
}

#[test]
fn schema_is_chosen_by_fields() {
    assert_eq!(select_schema(true, true), Ok(Schema::Current));
    assert_eq!(select_schema(true, false), Ok(Schema::Current));
    assert_eq!(select_schema(false, true), Ok(Schema::Old));
    assert_eq!(select_schema(false, false), Err(LoadError::UnsupportedSchema));
    assert_eq!(
        LoadError::UnsupportedSchema.message(),
        "Unsupported bitchain schema: missing files or blocks"
    );
}

#[test]
fn old_bitchain_becomes_one_file() {
    let old = OldBitchain {
        version: "0.9".to_string(),
        blocks: vec![block("h1", &["u1"]), block("h2", &["u2"])],
    };
    let b = upgrade_old_bitchain(old.clone(), Some("movie".to_string()));
    assert_eq!(b.version, "0.9");
    assert_eq!(b.files.len(), 1);
    assert_eq!(b.files[0].path, "movie");
    assert_eq!(b.files[0].blocks, old.blocks);
    assert_eq!(validate_bitchain(&b), Ok(()));
}

#[test]
fn old_bitchain_without_stem_is_restored_bin() {
    let old = OldBitchain {
        version: "1.0".to_string(),
        blocks: vec![],
    };
    let b = upgrade_old_bitchain(old, None);
    assert_eq!(b.files[0].path, "restored.bin");
    assert_eq!(
        validate_bitchain(&b),
        Err(ValidationError::NoBlocks("restored.bin".to_string()))
    );
}
