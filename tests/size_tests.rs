use restic_backup_service::errors::BackupServiceError;
use restic_backup_service::size::format_bytes;

#[test]
fn test_format_bytes_basic_units() -> Result<(), BackupServiceError> {
    assert_eq!(format_bytes(0)?, "0 B");
    assert_eq!(format_bytes(1)?, "1 B");
    assert_eq!(format_bytes(512)?, "512 B");
    assert_eq!(format_bytes(1023)?, "1023 B");
    Ok(())
}

#[test]
fn test_format_bytes_kilobytes() -> Result<(), BackupServiceError> {
    assert_eq!(format_bytes(1024)?, "1.00 KB");
    assert_eq!(format_bytes(1536)?, "1.50 KB");
    assert_eq!(format_bytes(2048)?, "2.00 KB");
    assert_eq!(format_bytes(1048575)?, "1024.00 KB");
    Ok(())
}

#[test]
fn test_format_bytes_megabytes() -> Result<(), BackupServiceError> {
    assert_eq!(format_bytes(1048576)?, "1.00 MB");
    assert_eq!(format_bytes(1572864)?, "1.50 MB");
    assert_eq!(format_bytes(10485760)?, "10.00 MB");
    assert_eq!(format_bytes(1073741823)?, "1024.00 MB");
    Ok(())
}

#[test]
fn test_format_bytes_gigabytes() -> Result<(), BackupServiceError> {
    assert_eq!(format_bytes(1073741824)?, "1.00 GB");
    assert_eq!(format_bytes(2147483648)?, "2.00 GB");
    assert_eq!(format_bytes(5368709120)?, "5.00 GB");
    Ok(())
}

#[test]
fn test_format_bytes_terabytes() -> Result<(), BackupServiceError> {
    assert_eq!(format_bytes(1099511627776)?, "1.00 TB");
    assert_eq!(format_bytes(2199023255552)?, "2.00 TB");
    assert_eq!(format_bytes(10995116277760)?, "10.00 TB");
    assert_eq!(format_bytes(u64::MAX)?, "16777216.00 TB");
    Ok(())
}

#[test]
fn test_format_bytes_precision() -> Result<(), BackupServiceError> {
    assert_eq!(format_bytes(1024 + 102)?, "1.10 KB");
    assert_eq!(format_bytes(1024 + 205)?, "1.20 KB");
    assert_eq!(format_bytes(1048576 + 52428)?, "1.05 MB");
    assert_eq!(format_bytes(1073741824 + 107374182)?, "1.10 GB");
    Ok(())
}

#[test]
fn test_format_bytes_edge_cases() -> Result<(), BackupServiceError> {
    assert_eq!(format_bytes(1024 - 1)?, "1023 B");
    assert_eq!(format_bytes(1024)?, "1.00 KB");
    assert_eq!(format_bytes(1048576 - 1)?, "1024.00 KB");
    assert_eq!(format_bytes(1048576)?, "1.00 MB");
    assert_eq!(format_bytes(1073741824 - 1)?, "1024.00 MB");
    assert_eq!(format_bytes(1073741824)?, "1.00 GB");
    Ok(())
}

#[test]
fn test_format_bytes_realistic_sizes() -> Result<(), BackupServiceError> {
    assert_eq!(format_bytes(4096)?, "4.00 KB");
    assert_eq!(format_bytes(65536)?, "64.00 KB");
    assert_eq!(format_bytes(1048576)?, "1.00 MB");
    assert_eq!(format_bytes(104857600)?, "100.00 MB");
    assert_eq!(format_bytes(1073741824)?, "1.00 GB");
    assert_eq!(format_bytes(107374182400)?, "100.00 GB");
    Ok(())
}

fn float_formatted(bytes: u64) -> String {
    let units = ["B", "KB", "MB", "GB", "TB"];
    let mut size = bytes as f64;
    let mut unit = 0;
    while size >= 1024.0 && unit < units.len() - 1 {
        size /= 1024.0;
        unit += 1;
    }
    if unit == 0 {
        format!("{} {}", size as u64, units[unit])
    } else {
        format!("{:.2} {}", size, units[unit])
    }
}

#[test]
fn integer_formatting_matches_float_formatting() -> Result<(), BackupServiceError> {
    let mut samples: Vec<u64> = vec![
        1029, 1034, 1126, 5120 + 5, 1 << 53, (1 << 53) + 1, (1 << 53) + 3, (1 << 60) + 12345,
        u64::MAX - 1, 9007199254740993, 18446744073709549568,
    ];
    let mut x: u64 = 0x9E37_79B9_7F4A_7C15;
    for _ in 0..2000 {
        x ^= x << 13;
        x ^= x >> 7;
        x ^= x << 17;
        samples.push(x >> (x % 64));
    }
    for b in samples {
        assert_eq!(format_bytes(b)?, float_formatted(b), "for {}", b);
    }
    Ok(())
}
