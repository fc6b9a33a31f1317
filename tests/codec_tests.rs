use restic_backup_service::category::{classify, Category};
use restic_backup_service::codec::PathMapper;
use restic_backup_service::errors::BackupServiceError;

#[test]
fn test_path_to_repo_subpath() -> Result<(), BackupServiceError> {
    assert_eq!(PathMapper::path_to_repo_subpath("/home/tim")?, "user_home/tim");
    assert_eq!(
        PathMapper::path_to_repo_subpath("/home/user/.local/share/My Documents")?,
        "user_home/user/.local_share_My Documents"
    );
    assert_eq!(
        PathMapper::path_to_repo_subpath("/home/tim/my/deep/path")?,
        "user_home/tim/my_deep_path"
    );
    assert_eq!(
        PathMapper::path_to_repo_subpath("/mnt/docker-data/volumes/my app data")?,
        "docker_volume/my app data"
    );
    assert_eq!(
        PathMapper::path_to_repo_subpath("/usr/share/applications/Google Chrome")?,
        "system/usr_share_applications_Google Chrome"
    );
    Ok(())
}

#[test]
fn test_comprehensive_path_conversion() -> Result<(), BackupServiceError> {
    let test_cases = vec![
        ("/mnt/docker-data/volumes/complex/nested/volume", "docker_volume/complex_nested_volume"),
        ("/var/log/nginx/access", "system/var_log_nginx_access"),
        ("/home/user/Projects/rust/my-project", "user_home/user/Projects_rust_my-project"),
    ];

    for (native_path, expected_repo_path) in test_cases {
        let result = PathMapper::path_to_repo_subpath(native_path)?;
        assert_eq!(result, expected_repo_path, "Failed for path: {}", native_path);
    }
    Ok(())
}

#[test]
fn known_encodings() -> Result<(), BackupServiceError> {
    assert_eq!(PathMapper::path_to_repo_subpath("/home/tim")?, "user_home/tim");
    assert_eq!(
        PathMapper::path_to_repo_subpath("/home/tim/my/deep/path")?,
        "user_home/tim/my_deep_path"
    );
    assert_eq!(
        PathMapper::path_to_repo_subpath("/mnt/docker-data/volumes/myapp")?,
        "docker_volume/myapp"
    );
    assert_eq!(PathMapper::path_to_repo_subpath("/etc/nginx")?, "system/etc_nginx");
    Ok(())
}

#[test]
fn encoding_edge_cases() -> Result<(), BackupServiceError> {
    assert_eq!(PathMapper::path_to_repo_subpath("")?, "system");
    assert_eq!(PathMapper::path_to_repo_subpath("/")?, "system");
    assert_eq!(PathMapper::path_to_repo_subpath("///etc//x")?, "system/etc__x");
    assert_eq!(PathMapper::path_to_repo_subpath("/home/")?, "system/home_");
    assert_eq!(PathMapper::path_to_repo_subpath("/home/tim/")?, "user_home/tim/");
    assert_eq!(
        PathMapper::path_to_repo_subpath("/mnt/docker-data/volumes/")?,
        "system/mnt_docker-data_volumes_"
    );
    assert_eq!(PathMapper::path_to_repo_subpath("relative/path")?, "system/relative_path");
    Ok(())
}

#[test]
fn encoding_is_lossy_with_underscores() -> Result<(), BackupServiceError> {
    let a = PathMapper::path_to_repo_subpath("/etc/my_app")?;
    let b = PathMapper::path_to_repo_subpath("/etc/my/app")?;
    assert_eq!(a, b);
    Ok(())
}

#[test]
fn encode_determinism_and_category_agreement() -> Result<(), BackupServiceError> {
    let paths = vec![
        "/home/tim",
        "/home/tim/docs/a b",
        "/mnt/docker-data/volumes/db",
        "/mnt/docker-data/volumes/db/inner",
        "/etc/nginx",
        "/",
        "/home",
        "/home/",
        "/mnt/docker-data/volumes",
        "/mnt/docker-data/volumes/",
    ];
    for p in paths {
        let k1 = PathMapper::path_to_repo_subpath(p)?;
        let k2 = PathMapper::path_to_repo_subpath(p)?;
        assert_eq!(k1, k2);
        assert_eq!(PathMapper::key_category(&k1), classify(p), "for {}", p);
    }
    Ok(())
}

#[test]
fn key_category_of_first_segment() {
    assert_eq!(PathMapper::key_category("user_home/tim"), Category::UserHome);
    assert_eq!(PathMapper::key_category("user_home"), Category::UserHome);
    assert_eq!(PathMapper::key_category("docker_volume/db"), Category::DockerVolume);
    assert_eq!(PathMapper::key_category("docker_volume"), Category::DockerVolume);
    assert_eq!(PathMapper::key_category("system/etc"), Category::System);
    assert_eq!(PathMapper::key_category("user_homes/x"), Category::System);
}

#[test]
fn decode_heuristic() {
    assert_eq!(PathMapper::s3_to_native_path("single"), "single");
    assert_eq!(PathMapper::s3_to_native_path("my_deep_path"), "my/deep/path");
    assert_eq!(PathMapper::s3_to_native_path("my_file"), "my_file");
    assert_eq!(PathMapper::s3_to_native_path(""), "");
    assert_eq!(PathMapper::s3_to_native_path("a__b"), "a//b");
    assert_eq!(
        PathMapper::s3_to_native_path(".local_share_Paradox Interactive"),
        ".local/share/Paradox Interactive"
    );
}
