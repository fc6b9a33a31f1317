use restic_backup_service::config::Config;
use restic_backup_service::errors::BackupServiceError;
use restic_backup_service::workflow::{
    backup_saved, backup_skipped_files, repository_presence, restored_path, stats_total_size, summarize_batch, BackupWorkflow, BatchOutcome,
    BatchTally,
    CommandExecutor, ResticCommandExecutor, RestoreWorkflow, S3CommandExecutor,
};

fn test_config(repo_base: &str) -> Config {
    Config {
        restic_password: "pw".to_string(),
        restic_repo_base: repo_base.to_string(),
        aws_access_key_id: "id".to_string(),
        aws_secret_access_key: "secret".to_string(),
        aws_default_region: "auto".to_string(),
        aws_s3_endpoint: "https://fallback.example.com".to_string(),
        backup_paths: vec!["/home/tim/docs".to_string()],
        hostname: "pc".to_string(),
    }
}

#[test]
fn endpoint_arguments() -> Result<(), BackupServiceError> {
    let exec = CommandExecutor::new(test_config("s3:https://minio.example.com/bucket/restic"))?;
    assert_eq!(
        exec.get_s3_endpoint_args()?,
        vec!["--endpoint-url".to_string(), "https://minio.example.com".to_string()]
    );
    Ok(())
}

#[test]
fn listing_urls() -> Result<(), BackupServiceError> {
    let s3 = S3CommandExecutor::new(test_config("s3:https://minio.example.com/bucket/restic"))?;
    assert_eq!(s3.listing_url("restic/pc/user_home")?, "s3://bucket/restic/pc/user_home/");
    assert_eq!(s3.listing_url("")?, "s3://bucket/");
    let bad = S3CommandExecutor::new(test_config("nowhere"))?;
    assert!(matches!(bad.listing_url("x"), Err(BackupServiceError::ConfigurationError(_))));
    Ok(())
}

#[test]
fn restic_executor_keeps_repository() -> Result<(), BackupServiceError> {
    let r = ResticCommandExecutor::new(test_config("s3:https://h/b"), "s3:https://h/b/pc/system/etc".to_string())?;
    assert_eq!(r.repo_url(), "s3:https://h/b/pc/system/etc");
    assert_eq!(r.executor().config().hostname, "pc");
    Ok(())
}

#[test]
fn backup_output_reading() -> Result<(), BackupServiceError> {
    let wf = BackupWorkflow::new(test_config("s3:https://h/b"), vec![])?;
    let output = "open repository\nprocessed 10 files\nsnapshot 1a2b3c4d saved\n";
    assert!(backup_saved(output));
    assert!(!backup_skipped_files(output));
    assert_eq!(wf.extract_snapshot_id(output), Some("1a2b3c4d".to_string()));

    let warned = "Warning: at least one source file could not be read\nsnapshot  ff00  saved\r\n";
    assert!(backup_skipped_files(warned));
    assert_eq!(wf.extract_snapshot_id(warned), Some("ff00".to_string()));

    assert!(!backup_saved("Fatal: unable to open config file"));
    assert_eq!(wf.extract_snapshot_id("Fatal: unable to open config file"), None);
    assert_eq!(wf.extract_snapshot_id("snapshot saved"), Some("saved".to_string()));
    assert_eq!(wf.extract_snapshot_id("snapshot\nsaved"), None);
    Ok(())
}

#[test]
fn candidate_paths_in_order() -> Result<(), BackupServiceError> {
    let wf = BackupWorkflow::new(test_config("s3:https://h/b"), vec!["/etc".to_string()])?;
    let all = wf.candidate_paths(vec!["/mnt/docker-data/volumes/db".to_string()]);
    assert_eq!(
        all,
        vec![
            "/home/tim/docs".to_string(),
            "/etc".to_string(),
            "/mnt/docker-data/volumes/db".to_string(),
        ]
    );
    Ok(())
}

#[test]
fn batch_summaries() {
    assert_eq!(summarize_batch(0, 2), BatchOutcome::Failed);
    assert_eq!(summarize_batch(3, 1), BatchOutcome::Partial);
    assert_eq!(summarize_batch(3, 0), BatchOutcome::Completed);
    assert_eq!(summarize_batch(0, 0), BatchOutcome::Completed);
}

#[test]
fn restore_options_are_kept() -> Result<(), BackupServiceError> {
    let wf = RestoreWorkflow::new(
        test_config("s3:https://h/b"),
        Some("pc".to_string()),
        None,
        Some("2025-01-15T10:30:00Z".to_string()),
    )?;
    assert_eq!(wf.host_opt(), &Some("pc".to_string()));
    assert_eq!(wf.path_opt(), &None);
    assert_eq!(wf.timestamp_opt(), &Some("2025-01-15T10:30:00Z".to_string()));
    Ok(())
}

#[test]
fn batch_tally_aborts_only_on_fatal_failures() {
    let mut tally = BatchTally::new();
    assert!(tally.record(Ok(())).is_ok());
    assert!(tally.record(Err(BackupServiceError::CommandFailed("disk full".to_string()))).is_ok());
    tally.skip();
    assert_eq!((tally.done, tally.skipped), (1, 2));
    assert_eq!(tally.outcome(), BatchOutcome::Partial);
    assert!(matches!(
        tally.record(Err(BackupServiceError::NetworkError)),
        Err(BackupServiceError::NetworkError)
    ));
    assert_eq!((tally.done, tally.skipped), (1, 2));

    let mut none_done = BatchTally::new();
    none_done.skip();
    assert_eq!(none_done.outcome(), BatchOutcome::Failed);
}

#[test]
fn restored_locations() {
    assert_eq!(
        restored_path("/tmp/restic/interactive", "/home/tim/My Docs"),
        "/tmp/restic/interactive/home/tim/My Docs"
    );
    assert_eq!(restored_path("/tmp/r", "relative/x"), "/tmp/r/relative/x");
    assert_eq!(restored_path("/tmp/r", "//etc"), "/tmp/r/etc");
}

#[test]
fn restic_stats_total_size() {
    assert_eq!(stats_total_size(r#"{"total_size":123456,"total_file_count":3}"#), 123456);
    assert_eq!(stats_total_size(r#"{"total_file_count":3}"#), 0);
    assert_eq!(stats_total_size("Fatal: no snapshot"), 0);
}

#[test]
fn repository_presence_from_listing() {
    assert!(matches!(repository_presence(Ok("[]".to_string())), Ok(true)));
    assert!(matches!(
        repository_presence(Err(BackupServiceError::RepositoryNotFound("r".to_string()))),
        Ok(false)
    ));
    assert!(matches!(
        repository_presence(Err(BackupServiceError::NetworkError)),
        Err(BackupServiceError::NetworkError)
    ));
}
