use restic_backup_service::config::Config;
use restic_backup_service::errors::BackupServiceError;

fn create_test_config(repo_base: &str) -> Config {
    Config {
        restic_password: "test_password".to_string(),
        restic_repo_base: repo_base.to_string(),
        aws_access_key_id: "test_key".to_string(),
        aws_secret_access_key: "test_secret".to_string(),
        aws_default_region: "auto".to_string(),
        aws_s3_endpoint: "https://fallback.example.com".to_string(),
        backup_paths: vec![],
        hostname: "test-host".to_string(),
    }
}

#[test]
fn test_s3_endpoint_extraction() -> Result<(), BackupServiceError> {
    let config = create_test_config("s3:https://bucket.s3.amazonaws.com/restic");
    assert_eq!(config.s3_endpoint()?, "https://bucket.s3.amazonaws.com");

    let config = create_test_config("s3:https://abc123.r2.cloudflarestorage.com/my-bucket/restic");
    assert_eq!(config.s3_endpoint()?, "https://abc123.r2.cloudflarestorage.com");

    let config = create_test_config("s3:https://minio.example.com/bucket");
    assert_eq!(config.s3_endpoint()?, "https://minio.example.com");

    let config = create_test_config("s3:http://localhost:9000/bucket");
    assert_eq!(config.s3_endpoint()?, "http://localhost:9000");

    let config = create_test_config("invalid_format");
    assert_eq!(config.s3_endpoint()?, "https://fallback.example.com");

    let config = create_test_config("s3:https-no-slashes");
    assert_eq!(config.s3_endpoint()?, "https://fallback.example.com");

    Ok(())
}

#[test]
fn test_s3_bucket_extraction() -> Result<(), BackupServiceError> {
    let config = create_test_config("s3:https://s3.amazonaws.com/my-bucket/restic");
    assert_eq!(config.s3_bucket()?, "my-bucket");

    let config = create_test_config("s3:https://s3.amazonaws.com/my-bucket");
    assert_eq!(config.s3_bucket()?, "my-bucket");

    let config = create_test_config("s3:https://minio.example.com/my-bucket/deep/path");
    assert_eq!(config.s3_bucket()?, "my-bucket");

    let config = create_test_config("s3:https://abc123.r2.cloudflarestorage.com/bucket-name/restic");
    assert_eq!(config.s3_bucket()?, "bucket-name");

    let config = create_test_config("s3:https://s3.amazonaws.com/my-bucket-123/path");
    assert_eq!(config.s3_bucket()?, "my-bucket-123");

    Ok(())
}

#[test]
fn test_s3_bucket_extraction_errors() {
    let config = create_test_config("invalid_format");
    assert!(config.s3_bucket().is_err());

    let config = create_test_config("s3:invalid");
    assert!(config.s3_bucket().is_err());

    let config = create_test_config("s3:https://example.com");
    assert!(config.s3_bucket().is_err());
}

#[test]
fn test_s3_bucket_error_message() {
    let config = create_test_config("s3:invalid");
    match config.s3_bucket() {
        Err(BackupServiceError::ConfigurationError(m)) => {
            assert_eq!(m, "Could not extract bucket name from repo base: s3:invalid")
        }
        other => panic!("unexpected: {:?}", other),
    }
}

#[test]
fn test_s3_base_path_extraction() -> Result<(), BackupServiceError> {
    let config = create_test_config("s3:https://s3.amazonaws.com/my-bucket/restic");
    assert_eq!(config.s3_base_path()?, "restic");

    let config = create_test_config("s3:https://s3.amazonaws.com/my-bucket/path/to/restic");
    assert_eq!(config.s3_base_path()?, "path/to/restic");

    let config = create_test_config("s3:https://s3.amazonaws.com/my-bucket");
    assert_eq!(config.s3_base_path()?, "");

    let config = create_test_config("s3:https://s3.amazonaws.com/my-bucket/");
    assert_eq!(config.s3_base_path()?, "");

    let config = create_test_config("invalid_format");
    assert_eq!(config.s3_base_path()?, "");

    Ok(())
}

#[test]
fn test_get_repo_url_construction() -> Result<(), BackupServiceError> {
    let config = create_test_config("s3:https://s3.amazonaws.com/my-bucket/restic");

    assert_eq!(
        config.get_repo_url("user_home/tim/documents")?,
        "s3:https://s3.amazonaws.com/my-bucket/restic/test-host/user_home/tim/documents"
    );
    assert_eq!(
        config.get_repo_url("docker_volume/myapp")?,
        "s3:https://s3.amazonaws.com/my-bucket/restic/test-host/docker_volume/myapp"
    );
    assert_eq!(
        config.get_repo_url("system/etc_nginx")?,
        "s3:https://s3.amazonaws.com/my-bucket/restic/test-host/system/etc_nginx"
    );
    assert_eq!(
        config.get_repo_url("")?,
        "s3:https://s3.amazonaws.com/my-bucket/restic/test-host/"
    );
    assert_eq!(
        config.get_repo_url("user_home/gamer/.local/share/Paradox Interactive")?,
        "s3:https://s3.amazonaws.com/my-bucket/restic/test-host/user_home/gamer/.local/share/Paradox Interactive"
    );
    assert_eq!(
        config.get_repo_url("user_home/user/Documents/My Games")?,
        "s3:https://s3.amazonaws.com/my-bucket/restic/test-host/user_home/user/Documents/My Games"
    );
    assert_eq!(
        config.get_repo_url("docker_volume/my app data")?,
        "s3:https://s3.amazonaws.com/my-bucket/restic/test-host/docker_volume/my app data"
    );
    assert_eq!(
        config.get_repo_url("system/usr_share_applications_My Application")?,
        "s3:https://s3.amazonaws.com/my-bucket/restic/test-host/system/usr_share_applications_My Application"
    );

    Ok(())
}

#[test]
fn test_get_repo_url_whitespace_edge_cases() -> Result<(), BackupServiceError> {
    let config = create_test_config("s3:https://s3.amazonaws.com/my-bucket/restic");

    assert_eq!(
        config.get_repo_url("user_home/user/My   Project   Files")?,
        "s3:https://s3.amazonaws.com/my-bucket/restic/test-host/user_home/user/My   Project   Files"
    );
    assert_eq!(
        config.get_repo_url("user_home/user/ leading space")?,
        "s3:https://s3.amazonaws.com/my-bucket/restic/test-host/user_home/user/ leading space"
    );
    assert_eq!(
        config.get_repo_url("docker_volume/trailing space ")?,
        "s3:https://s3.amazonaws.com/my-bucket/restic/test-host/docker_volume/trailing space "
    );
    assert_eq!(
        config.get_repo_url("user_home/developer/Cool App-Name v2.0")?,
        "s3:https://s3.amazonaws.com/my-bucket/restic/test-host/user_home/developer/Cool App-Name v2.0"
    );
    assert_eq!(
        config.get_repo_url("user_home/gamer/.steam/steam/steamapps/common/Counter Strike")?,
        "s3:https://s3.amazonaws.com/my-bucket/restic/test-host/user_home/gamer/.steam/steam/steamapps/common/Counter Strike"
    );

    Ok(())
}

#[test]
fn test_real_world_s3_urls() -> Result<(), BackupServiceError> {
    let config = create_test_config(
        "s3:https://0338e2011591dfc360150a909e7c2e1c.r2.cloudflarestorage.com/restic",
    );
    assert_eq!(
        config.s3_endpoint()?,
        "https://0338e2011591dfc360150a909e7c2e1c.r2.cloudflarestorage.com"
    );
    assert_eq!(config.s3_bucket()?, "restic");
    assert_eq!(config.s3_base_path()?, "");

    let config =
        create_test_config("s3:https://s3.us-west-2.amazonaws.com/my-backup-bucket/restic-backups");
    assert_eq!(config.s3_endpoint()?, "https://s3.us-west-2.amazonaws.com");
    assert_eq!(config.s3_bucket()?, "my-backup-bucket");
    assert_eq!(config.s3_base_path()?, "restic-backups");

    let config = create_test_config("s3:https://minio.company.com/backups/restic/prod");
    assert_eq!(config.s3_endpoint()?, "https://minio.company.com");
    assert_eq!(config.s3_bucket()?, "backups");
    assert_eq!(config.s3_base_path()?, "restic/prod");

    Ok(())
}

#[test]
fn test_edge_cases_and_malformed_urls() -> Result<(), BackupServiceError> {
    let config = create_test_config("s3:https://minio.example.com:9000/bucket/path");
    assert_eq!(config.s3_endpoint()?, "https://minio.example.com:9000");
    assert_eq!(config.s3_bucket()?, "bucket");
    assert_eq!(config.s3_base_path()?, "path");

    let config = create_test_config("s3:http://localhost:9000/test-bucket");
    assert_eq!(config.s3_endpoint()?, "http://localhost:9000");
    assert_eq!(config.s3_bucket()?, "test-bucket");

    let config = create_test_config("s3:https://s3.amazonaws.com/bucket/path?region=us-east-1");
    assert_eq!(config.s3_endpoint()?, "https://s3.amazonaws.com");
    assert_eq!(config.s3_bucket()?, "bucket");
    assert_eq!(config.s3_base_path()?, "path?region=us-east-1");

    Ok(())
}
