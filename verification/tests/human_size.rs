use dartup::util::display_path;
use dartup::util::home_relative_display;
use dartup::util::human_size;

/// The size text computed with doubles, as the tool has always shown it.
fn with_doubles(bytes: u64) -> String {
    let units = ["B", "KB", "MB", "GB"];
    let mut size = bytes as f64;
    let mut unit_idx = 0;
    while size > 1024.0 && unit_idx < units.len() - 1 {
        size /= 1024.0;
        unit_idx += 1;
    }
    format!("{:.1} {}", size, units[unit_idx])
}

#[test]
fn human_size_exact_values() {
    assert_eq!(human_size(0), "0.0 B");
    assert_eq!(human_size(1), "1.0 B");
    assert_eq!(human_size(512), "512.0 B");
    assert_eq!(human_size(1024), "1024.0 B");
    assert_eq!(human_size(1025), "1.0 KB");
    assert_eq!(human_size(1536), "1.5 KB");
    assert_eq!(human_size(1048576), "1024.0 KB");
    assert_eq!(human_size(1048577), "1.0 MB");
    assert_eq!(human_size(5 * 1024 * 1024 * 1024), "5.0 GB");
    assert_eq!(human_size(2048 * 1024 * 1024 * 1024), "2048.0 GB");
}

#[test]
fn human_size_ties_round_to_even() {
    // 1.25 KB and 1.75 KB lie exactly between two tenths.
    assert_eq!(human_size(1280), with_doubles(1280));
    assert_eq!(human_size(1792), with_doubles(1792));
    assert_eq!(human_size(1280), "1.2 KB");
    assert_eq!(human_size(1792), "1.8 KB");
}

#[test]
fn human_size_agrees_with_doubles_on_boundaries() {
    let mut values: Vec<u64> = vec![
        0, 1, 9, 10, 99, 100, 1023, 1024, 1025, 1075, 1076, 1126, 1127, 10239, 10240, 10241,
        1048575, 1048576, 1048577, 1073741823, 1073741824, 1073741825,
    ];
    let big: [u64; 8] = [
        (1u64 << 53) - 1,
        1u64 << 53,
        (1u64 << 53) + 1,
        (1u64 << 53) + 3,
        (1u64 << 54) + 2,
        (1u64 << 54) + 6,
        u64::MAX - 1,
        u64::MAX,
    ];
    values.extend_from_slice(&big);
    for k in 0..64u32 {
        let p = 1u64 << k;
        values.push(p);
        values.push(p.wrapping_sub(1));
        values.push(p.wrapping_add(1));
        values.push(p / 4 * 5);
    }
    for v in values {
        assert_eq!(human_size(v), with_doubles(v), "bytes = {}", v);
    }
}

#[test]
fn human_size_agrees_with_doubles_on_many_values() {
    let mut x: u64 = 0x9E37_79B9_7F4A_7C15;
    for i in 0..20000u32 {
        x = x.wrapping_mul(6364136223846793005).wrapping_add(1442695040888963407);
        let shift = i % 64;
        let v = x >> shift;
        assert_eq!(human_size(v), with_doubles(v), "bytes = {}", v);
        let w = (v >> 20) << 20;
        assert_eq!(human_size(w), with_doubles(w), "bytes = {}", w);
    }
}

#[test]
fn display_path_replaces_home() {
    assert_eq!(display_path("/home/u/a/b", Some("/home/u")), "~/a/b");
    assert_eq!(display_path("/home/u", Some("/home/u")), "~/");
    assert_eq!(display_path("/home/user2/x", Some("/home/u")), "/home/user2/x");
    assert_eq!(display_path("/etc/x", Some("/home/u")), "/etc/x");
    assert_eq!(display_path("/home/u/a", None), "/home/u/a");
}

#[test]
fn home_relative_display_cases() {
    assert_eq!(home_relative_display("/home/u/x/y", Some("x/y")), "~/x/y");
    assert_eq!(home_relative_display("/opt/sdk", None), "/opt/sdk");
}
