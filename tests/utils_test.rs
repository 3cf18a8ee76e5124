use clean_files::utils::{format_size, should_skip_directory};

#[test]
fn utils_test_format_size() {
    assert_eq!(format_size(0), "0 B");
    assert_eq!(format_size(100), "100 B");
    assert_eq!(format_size(1024), "1.00 KB");
    assert_eq!(format_size(1024 * 1024), "1.00 MB");
    assert_eq!(format_size(1536 * 1024), "1.50 MB");
    assert_eq!(format_size(1024 * 1024 * 1024), "1.00 GB");
    assert_eq!(format_size(1024_u64.pow(4)), "1.00 TB");
}

#[test]
fn main_test_format_size() {
    assert_eq!(format_size(0), "0 B");
    assert_eq!(format_size(1024), "1.00 KB");
    assert_eq!(format_size(1048576), "1.00 MB");
}

#[test]
fn test_should_skip_directory() {
    assert!(should_skip_directory(".git"));
    assert!(should_skip_directory("node_modules"));
    assert!(should_skip_directory("target"));
    assert!(should_skip_directory("__pycache__"));
    assert!(!should_skip_directory("src"));
    assert!(!should_skip_directory("test"));
}

#[test]
fn format_size_unit_edges() {
    assert_eq!(format_size(1), "1 B");
    assert_eq!(format_size(1023), "1023 B");
    assert_eq!(format_size(1536), "1.50 KB");
    assert_eq!(format_size(1024 * 1024 - 1), "1024.00 KB");
    assert_eq!(format_size(1024_u64.pow(5)), "1024.00 TB");
}

#[test]
fn format_size_matches_two_decimal_float_formatting() {
    for bytes in [1025_u64, 1100, 1152, 1408, 2047, 5000, 123456, 999999, 7654321, 3_000_000_000, 12_345_678_901_234] {
        let mut e = 0;
        let mut p = 1_u64;
        while e < 4 && bytes >= p * 1024 {
            p *= 1024;
            e += 1;
        }
        let units = ["B", "KB", "MB", "GB", "TB"];
        let expected = format!("{:.2} {}", bytes as f64 / p as f64, units[e]);
        assert_eq!(format_size(bytes), expected);
    }
}

#[test]
fn format_size_largest_value() {
    assert_eq!(format_size(u64::MAX), "16777216.00 TB");
}

#[test]
fn skip_names_cover_vcs_and_artifact_roots() {
    for name in [".svn", ".hg", ".bzr", ".darcs", "build", ".pytest_cache", ".tox", ".mypy_cache"] {
        assert!(should_skip_directory(name));
    }
    assert!(!should_skip_directory(""));
    assert!(!should_skip_directory(".gitx"));
}
