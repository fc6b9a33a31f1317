use restic_backup_service::snapshots::SnapshotInfo;
use restic_backup_service::errors::BackupServiceError;
use restic_backup_service::windows::{
    bucket, distinct_times, distinct_window_count, restore_windows, select_best, window_count,
    window_start, WINDOW_NANOS,
};

fn secs(rfc3339: &str) -> i64 {
    chrono::DateTime::parse_from_rfc3339(rfc3339).unwrap().timestamp_nanos_opt().unwrap()
}

fn snap(time: &str, id: &str) -> SnapshotInfo {
    SnapshotInfo { time: secs(time), path: "/home/tim/docs".to_string(), id: id.to_string() }
}

#[test]
fn test_time_window_calculation() {
    let times: Vec<i64> = vec![
        secs("2025-01-15T10:30:00Z"),
        secs("2025-01-15T10:32:30Z"),
        secs("2025-01-15T10:35:15Z"),
        secs("2025-01-15T10:37:45Z"),
    ];
    let windows = bucket(&times);
    assert_eq!(windows.len(), 2);
    assert_eq!(windows[0], secs("2025-01-15T10:35:00Z"));
    assert_eq!(windows[1], secs("2025-01-15T10:30:00Z"));
}

#[test]
fn test_time_window_counting() {
    let times: Vec<i64> = vec![
        secs("2025-01-15T10:30:00Z"),
        secs("2025-01-15T10:31:00Z"),
        secs("2025-01-15T10:32:30Z"),
        secs("2025-01-15T10:35:00Z"),
        secs("2025-01-15T10:36:00Z"),
    ];
    assert_eq!(window_count(&times, secs("2025-01-15T10:30:00Z")), 3);
    assert_eq!(window_count(&times, secs("2025-01-15T10:35:00Z")), 2);
}

#[test]
fn test_time_window_deduplication() {
    let times: Vec<i64> = vec![
        secs("2025-01-15T10:30:00Z"),
        secs("2025-01-15T10:30:00Z"),
        secs("2025-01-15T10:30:30Z"),
    ];
    let distinct = distinct_times(&times);
    assert_eq!(distinct.len(), 2);
    assert_eq!(distinct, vec![secs("2025-01-15T10:30:30Z"), secs("2025-01-15T10:30:00Z")]);

    let windows = bucket(&distinct);
    assert_eq!(windows.len(), 1);
    assert_eq!(windows[0], secs("2025-01-15T10:30:00Z"));
    assert_eq!(bucket(&times), windows);
    assert_eq!(distinct_window_count(&times, windows[0]), 2);
    assert_eq!(window_count(&times, windows[0]), 3);
}

#[test]
fn test_time_window_edge_cases() {
    let times: Vec<i64> = vec![
        secs("2025-01-15T10:29:59Z"),
        secs("2025-01-15T10:30:00Z"),
        secs("2025-01-15T10:34:59Z"),
        secs("2025-01-15T10:35:00Z"),
    ];
    assert_eq!(window_count(&times, secs("2025-01-15T10:25:00Z")), 1);
    assert_eq!(window_count(&times, secs("2025-01-15T10:30:00Z")), 2);
    assert_eq!(window_count(&times, secs("2025-01-15T10:35:00Z")), 1);
    assert_eq!(
        bucket(&times),
        vec![
            secs("2025-01-15T10:35:00Z"),
            secs("2025-01-15T10:30:00Z"),
            secs("2025-01-15T10:25:00Z"),
        ]
    );
}

#[test]
fn window_start_floors_to_five_minutes() {
    let w = WINDOW_NANOS;
    assert_eq!(w, 300_000_000_000);
    assert_eq!(window_start(0), 0);
    assert_eq!(window_start(w - 1), 0);
    assert_eq!(window_start(w), w);
    assert_eq!(window_start(3 * w + 7), 3 * w);
    assert_eq!(window_start(-1), -w);
    assert_eq!(window_start(-w), -w);
    assert_eq!(window_start(secs("2025-01-15T10:34:59Z")), secs("2025-01-15T10:30:00Z"));
}

#[test]
fn sub_second_order_is_kept() {
    let snaps = vec![
        snap("2025-01-15T10:31:00.700Z", "late"),
        snap("2025-01-15T10:31:00.200Z", "early"),
    ];
    assert_eq!(select_best(&snaps, secs("2025-01-15T10:30:00Z")), Some(0));
    let times: Vec<i64> = snaps.iter().map(|s| s.time).collect();
    assert_eq!(distinct_window_count(&times, secs("2025-01-15T10:30:00Z")), 2);
}

#[test]
fn distinct_counts_each_instant_once() {
    let t = secs("2025-01-15T10:31:00Z");
    let times = vec![t, t, secs("2025-01-15T10:32:00Z"), secs("2025-01-15T10:40:00Z"), t];
    assert_eq!(distinct_window_count(&times, secs("2025-01-15T10:30:00Z")), 2);
    assert_eq!(distinct_window_count(&times, secs("2025-01-15T10:40:00Z")), 1);
    assert_eq!(distinct_window_count(&Vec::new(), 0), 0);
    assert!(distinct_times(&Vec::new()).is_empty());
}

#[test]
fn restore_windows_need_a_snapshot() {
    match restore_windows(&Vec::new()) {
        Err(BackupServiceError::ConfigurationError(m)) => {
            assert_eq!(m, "No snapshots found for selected repositories")
        }
        other => panic!("unexpected: {:?}", other),
    }
    let times = vec![secs("2025-01-15T10:31:00Z"), secs("2025-01-15T10:41:00Z")];
    assert_eq!(
        restore_windows(&times).unwrap(),
        vec![secs("2025-01-15T10:40:00Z"), secs("2025-01-15T10:30:00Z")]
    );
}

#[test]
fn bucket_of_nothing_is_empty() {
    assert!(bucket(&Vec::new()).is_empty());
    assert_eq!(window_count(&Vec::new(), 0), 0);
}

#[test]
fn best_snapshot_selection() {
    let snaps = vec![
        snap("2025-01-15T10:28:00Z", "a"),
        snap("2025-01-15T10:31:00Z", "b"),
        snap("2025-01-15T10:36:00Z", "c"),
    ];
    assert_eq!(select_best(&snaps, secs("2025-01-15T10:30:00Z")), Some(1));
    // [10:33, 10:38) holds 10:36.
    assert_eq!(select_best(&snaps, secs("2025-01-15T10:33:00Z")), Some(2));
    assert_eq!(select_best(&snaps, secs("2025-01-15T10:35:00Z")), Some(2));
    assert_eq!(select_best(&snaps, secs("2025-01-15T10:20:00Z")), None);
    assert_eq!(select_best(&Vec::new(), secs("2025-01-15T10:20:00Z")), None);
}

#[test]
fn best_snapshot_falls_back_to_latest_before() {
    let snaps = vec![
        snap("2025-01-15T10:28:00Z", "a"),
        snap("2025-01-15T10:31:00Z", "b"),
        snap("2025-01-15T10:40:00Z", "c"),
    ];
    // Nothing in [10:33, 10:38): the latest before 10:33 is 10:31.
    assert_eq!(select_best(&snaps, secs("2025-01-15T10:33:00Z")), Some(1));
    assert_eq!(select_best(&snaps, secs("2025-01-15T10:29:00Z")), Some(1));
    assert_eq!(select_best(&snaps, secs("2025-01-15T10:50:00Z")), Some(2));
}

#[test]
fn best_snapshot_takes_latest_in_window() {
    let snaps = vec![
        snap("2025-01-15T10:34:00Z", "late"),
        snap("2025-01-15T10:30:00Z", "start"),
        snap("2025-01-15T10:35:00Z", "outside"),
    ];
    assert_eq!(select_best(&snaps, secs("2025-01-15T10:30:00Z")), Some(0));
    // Of equally late snapshots the last listed is taken.
    let tied = vec![snap("2025-01-15T10:31:00Z", "x"), snap("2025-01-15T10:31:00Z", "y")];
    assert_eq!(select_best(&tied, secs("2025-01-15T10:30:00Z")), Some(1));
}

#[test]
fn test_snapshot_info_creation() {
    let time = secs("2025-01-15T10:30:00Z");
    let path = "/home/gamer/.local/share/Paradox Interactive".to_string();
    let id = "abc123def456".to_string();

    let snapshot_info = SnapshotInfo { time, path: path.clone(), id: id.clone() };

    assert_eq!(snapshot_info.time, time);
    assert_eq!(snapshot_info.path, path);
    assert_eq!(snapshot_info.id, id);
}

#[test]
fn test_snapshot_info_equality() {
    let time = secs("2025-01-15T10:30:00Z");
    let snapshot1 = SnapshotInfo { time, path: "/home/tim/docs".to_string(), id: "snap123".to_string() };
    let snapshot2 = SnapshotInfo { time, path: "/home/tim/docs".to_string(), id: "snap123".to_string() };
    let snapshot3 =
        SnapshotInfo { time, path: "/home/tim/projects".to_string(), id: "snap123".to_string() };

    assert_eq!(snapshot1, snapshot2);
    assert_ne!(snapshot1, snapshot3);
}

#[test]
fn test_snapshot_info_different_times() {
    let snapshot1 = SnapshotInfo {
        time: secs("2025-01-15T10:30:00Z"),
        path: "/home/tim/docs".to_string(),
        id: "snap123".to_string(),
    };
    let snapshot2 = SnapshotInfo {
        time: secs("2025-01-15T11:00:00Z"),
        path: "/home/tim/docs".to_string(),
        id: "snap123".to_string(),
    };
    assert_ne!(snapshot1, snapshot2);
}

#[test]
fn test_snapshot_info_clone() {
    let original = SnapshotInfo {
        time: secs("2025-01-15T10:30:00Z"),
        path: "/home/tim/documents".to_string(),
        id: "snap123".to_string(),
    };
    let cloned = original.clone();
    assert_eq!(original, cloned);
    assert_eq!(original.time, cloned.time);
    assert_eq!(original.path, cloned.path);
    assert_eq!(original.id, cloned.id);
}

#[test]
fn test_snapshot_info_with_various_ids() {
    let time = secs("2025-01-15T10:30:00Z");
    let path = "/home/tim/docs".to_string();
    let id_formats = vec![
        "abc123def456",
        "12345678",
        "short",
        "very-long-id-with-dashes-and-numbers-123",
        "mixed_123-ABC_def",
    ];
    for id in id_formats {
        let snapshot = SnapshotInfo { time, path: path.clone(), id: id.to_string() };
        assert_eq!(snapshot.id, id);
        assert_eq!(snapshot.time, time);
        assert_eq!(snapshot.path, path);
    }
}
