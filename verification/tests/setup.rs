use bitchain::config::{aws_credentials, confirm, session_token_from_answer, trim_answer};
use bitchain::digest::block_hash;
use bitchain::ingest::{
    check_uri_base, new_bitchain, single_file_path, BlockAction, FileIngest, IngestError,
};
use bitchain::model::{AwsConfig, Config};
use bitchain::validate::validate_bitchain;

fn aws() -> AwsConfig {
    AwsConfig {
        access_key_id: "id".to_string(),
        secret_access_key: "secret".to_string(),
        session_token: Some("tok".to_string()),
        region: "eu-west-1".to_string(),
    }
}

#[test]
fn confirm_accepts_y_and_yes_in_any_case() {
    assert!(confirm("y"));
    assert!(confirm("Y"));
    assert!(confirm("yes"));
    assert!(confirm("YeS"));
    assert!(confirm("  yes \n"));
}

#[test]
fn confirm_refuses_everything_else() {
    assert!(!confirm(""));
    assert!(!confirm("n"));
    assert!(!confirm("no"));
    assert!(!confirm("ye"));
    assert!(!confirm("yess"));
    assert!(!confirm("y es"));
}

#[test]
fn empty_session_token_is_none() {
    assert_eq!(session_token_from_answer(String::new()), None);
    assert_eq!(
        session_token_from_answer("abc".to_string()),
        Some("abc".to_string())
    );
}

#[test]
fn credentials_come_from_loaded_config() {
    assert_eq!(aws_credentials(&None), None);
    assert_eq!(aws_credentials(&Some(Config { aws: None })), None);
    let c = Some(Config { aws: Some(aws()) });
    assert_eq!(aws_credentials(&c), Some(&aws()));
}

#[test]
fn s3_base_needs_credentials() {
    assert_eq!(
        check_uri_base(Some("  s3://bucket"), &None),
        Err(IngestError::MissingS3Credentials)
    );
    assert_eq!(
        check_uri_base(Some("s3://bucket"), &Some(Config { aws: Some(aws()) })),
        Ok(())
    );
    assert_eq!(check_uri_base(Some("https://host"), &None), Ok(()));
    assert_eq!(check_uri_base(None, &None), Ok(()));
    assert_eq!(
        IngestError::MissingS3Credentials.message(),
        "S3 uri_base requires AWS credentials in config; run --setup-config and provide AWS credentials"
    );
}

#[test]
fn single_file_named_or_output_bin() {
    assert_eq!(single_file_path(Some("a.iso".to_string())), "a.iso");
    assert_eq!(single_file_path(None), "output.bin");
}

#[test]
fn local_ingest_records_file_uris() {
    let mut ing = FileIngest::new("a.bin".to_string(), None, false, &None);
    let plan = ing.plan_block(b"abc").unwrap();
    assert_eq!(plan.hash, block_hash(b"abc"));
    assert_eq!(
        plan.action,
        BlockAction::StoreLocal(format!("{}.bin", block_hash(b"abc")))
    );
    let hash = plan.hash.clone();
    ing.record(plan, Some("/out/a.blocks/x.bin".to_string()));
    let f = ing.finish();
    assert_eq!(f.path, "a.bin");
    assert_eq!(f.blocks.len(), 1);
    assert_eq!(f.blocks[0].hash, hash);
    assert_eq!(f.blocks[0].uris, vec!["file:///out/a.blocks/x.bin".to_string()]);
    let b = new_bitchain(vec![f]);
    assert_eq!(b.version, "1.0");
    assert_eq!(validate_bitchain(&b), Ok(()));
}

#[test]
fn local_dry_run_only_plans() {
    let ing = FileIngest::new("a.bin".to_string(), None, true, &None);
    let plan = ing.plan_block(b"abc").unwrap();
    assert_eq!(
        plan.action,
        BlockAction::PlanLocal(format!("{}.bin", block_hash(b"abc")))
    );
}

#[test]
fn answers_are_trimmed() {
    assert_eq!(trim_answer("  eu-west-1 \r\n"), "eu-west-1");
    assert_eq!(trim_answer("\t"), "");
    assert_eq!(trim_answer("a b"), "a b");
}

#[test]
fn s3_ingest_uploads_with_credentials() {
    let cfg = Some(Config { aws: Some(aws()) });
    let mut ing = FileIngest::new("dir/a.bin".to_string(), Some("s3://bkt/".to_string()), false, &cfg);
    let plan = ing.plan_block(b"abc").unwrap();
    let uri = format!("s3://bkt/dir/a.bin/{}", block_hash(b"abc"));
    assert_eq!(plan.action, BlockAction::Upload(uri.clone()));
    ing.record(plan, None);
    let plan2 = ing.plan_block(b"def").unwrap();
    ing.record(plan2, None);
    let f = ing.finish();
    assert_eq!(f.blocks.len(), 2);
    assert_eq!(f.blocks[0].uris, vec![uri]);
    assert_eq!(f.blocks[1].hash, block_hash(b"def"));
}

#[test]
fn s3_ingest_without_credentials_fails_unless_dry_run() {
    let mut ing = FileIngest::new("a".to_string(), Some("s3://bkt".to_string()), false, &None);
    assert_eq!(ing.plan_block(b"x"), Err(IngestError::MissingS3Credentials));
    ing = FileIngest::new("a".to_string(), Some("s3://bkt".to_string()), true, &None);
    let uri = format!("s3://bkt/a/{}", block_hash(b"x"));
    assert_eq!(ing.plan_block(b"x").unwrap().action, BlockAction::ReportUpload(uri));
}

#[test]
fn non_s3_ingest_records_or_reports() {
    let ing = FileIngest::new("a".to_string(), Some("https://h".to_string()), false, &None);
    let uri = format!("https://h/a/{}", block_hash(b"x"));
    assert_eq!(ing.plan_block(b"x").unwrap().action, BlockAction::Record(uri.clone()));
    let ing = FileIngest::new("a".to_string(), Some("https://h".to_string()), true, &None);
    assert_eq!(ing.plan_block(b"x").unwrap().action, BlockAction::ReportUri(uri));
}

#[test]
fn trimming_twice_reads_the_same() {
    for answer in ["  yes  ", "\tY\n", " no ", "", "  "] {
        assert_eq!(confirm(answer.trim()), confirm(answer));
    }
}

#[test]
fn s3_base_places_blocks_in_s3() {
    let cfg = Some(Config { aws: Some(aws()) });
    let ing = FileIngest::new("f".to_string(), Some("s3://bkt///".to_string()), false, &cfg);
    match ing.plan_block(b"data").unwrap().action {
        BlockAction::Upload(uri) => {
            assert!(uri.starts_with("s3://"));
            assert!(uri.ends_with(&format!("/{}", block_hash(b"data"))));
        }
        other => panic!("unexpected action {:?}", other),
    }
}
