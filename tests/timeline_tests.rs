use restic_backup_service::errors::BackupServiceError;
use restic_backup_service::selection::DisplayFormatter;
use restic_backup_service::snapshots::SnapshotInfo;

fn nanos(time_str: &str) -> i64 {
    chrono::DateTime::parse_from_rfc3339(time_str).unwrap().timestamp_nanos_opt().unwrap()
}

fn create_test_snapshot(time_str: &str, path: &str, id: &str) -> SnapshotInfo {
    SnapshotInfo { time: nanos(time_str), path: path.to_string(), id: id.to_string() }
}

fn group_of(groups: &[restic_backup_service::selection::TimeGroup], minute: &str) -> Option<Vec<usize>> {
    groups.iter().find(|g| g.minute == nanos(minute)).map(|g| g.snapshots.clone())
}

#[test]
fn test_group_snapshots_by_time() -> Result<(), BackupServiceError> {
    let snapshots = vec![
        create_test_snapshot("2025-01-15T10:30:00Z", "/home/tim/docs", "abc123"),
        create_test_snapshot("2025-01-15T10:30:30Z", "/home/tim/projects", "def456"),
        create_test_snapshot("2025-01-15T11:45:00Z", "/var/log", "ghi789"),
        create_test_snapshot("2025-01-16T10:30:00Z", "/etc/nginx", "jkl012"),
    ];

    let timeline = DisplayFormatter::group_snapshots_by_time(&snapshots)?;

    assert_eq!(group_of(&timeline, "2025-01-15T10:30:00Z").unwrap().len(), 2);
    assert_eq!(group_of(&timeline, "2025-01-15T11:45:00Z").unwrap().len(), 1);
    assert_eq!(group_of(&timeline, "2025-01-16T10:30:00Z").unwrap().len(), 1);
    // Newest minute first.
    assert_eq!(timeline[0].minute, nanos("2025-01-16T10:30:00Z"));
    Ok(())
}

#[test]
fn test_group_snapshots_by_time_edge_cases() -> Result<(), BackupServiceError> {
    let empty_snapshots: Vec<SnapshotInfo> = vec![];
    assert!(DisplayFormatter::group_snapshots_by_time(&empty_snapshots)?.is_empty());

    let boundary_snapshots = vec![
        create_test_snapshot("2025-01-15T10:29:59Z", "/path1", "id1"),
        create_test_snapshot("2025-01-15T10:30:00Z", "/path2", "id2"),
        create_test_snapshot("2025-01-15T10:30:01Z", "/path3", "id3"),
        create_test_snapshot("2025-01-15T10:31:00Z", "/path4", "id4"),
    ];
    let timeline = DisplayFormatter::group_snapshots_by_time(&boundary_snapshots)?;
    assert_eq!(timeline.len(), 3);
    assert_eq!(group_of(&timeline, "2025-01-15T10:29:00Z").unwrap(), vec![0]);
    assert_eq!(group_of(&timeline, "2025-01-15T10:30:00Z").unwrap(), vec![1, 2]);
    assert_eq!(group_of(&timeline, "2025-01-15T10:31:00Z").unwrap(), vec![3]);
    Ok(())
}

#[test]
fn test_snapshot_time_formatting_precision() -> Result<(), BackupServiceError> {
    let snapshots = vec![
        create_test_snapshot("2025-01-15T10:30:00.000Z", "/path1", "id1"),
        create_test_snapshot("2025-01-15T10:30:15.500Z", "/path2", "id2"),
        create_test_snapshot("2025-01-15T10:30:45.999Z", "/path3", "id3"),
        create_test_snapshot("2025-01-15T10:31:00.001Z", "/path4", "id4"),
    ];
    let timeline = DisplayFormatter::group_snapshots_by_time(&snapshots)?;
    assert_eq!(group_of(&timeline, "2025-01-15T10:30:00Z").unwrap().len(), 3);
    assert_eq!(group_of(&timeline, "2025-01-15T10:31:00Z").unwrap().len(), 1);
    Ok(())
}

#[test]
fn test_mixed_timezone_handling() -> Result<(), BackupServiceError> {
    let snapshots = vec![
        create_test_snapshot("2025-01-15T10:30:00Z", "/path1", "id1"),
        create_test_snapshot("2025-01-15T05:30:00-05:00", "/path2", "id2"),
        create_test_snapshot("2025-01-15T15:30:00+05:00", "/path3", "id3"),
    ];
    let timeline = DisplayFormatter::group_snapshots_by_time(&snapshots)?;
    assert_eq!(timeline.len(), 1);
    assert_eq!(group_of(&timeline, "2025-01-15T10:30:00Z").unwrap().len(), 3);
    Ok(())
}
