use rebar::format::{format_bytes, format_gpu_budget, truncate};

/// The byte formatting done with floating point, as a reference.
fn reference_format_bytes(bytes: u64) -> String {
    const UNITS: [&str; 5] = ["B", "KB", "MB", "GB", "TB"];
    let mut value = bytes as f64;
    let mut unit = 0;
    while value >= 1024.0 && unit < UNITS.len() - 1 {
        value /= 1024.0;
        unit += 1;
    }
    if unit == 0 {
        format!("{} {}", bytes, UNITS[unit])
    } else {
        format!("{value:.1} {}", UNITS[unit])
    }
}

#[test]
fn bytes_below_a_kilobyte() {
    assert_eq!(format_bytes(0), "0 B");
    assert_eq!(format_bytes(1), "1 B");
    assert_eq!(format_bytes(1023), "1023 B");
}

#[test]
fn bytes_in_larger_units() {
    assert_eq!(format_bytes(1024), "1.0 KB");
    assert_eq!(format_bytes(1536), "1.5 KB");
    assert_eq!(format_bytes(1048575), "1024.0 KB");
    assert_eq!(format_bytes(1048576), "1.0 MB");
    assert_eq!(format_bytes(5 * 1073741824), "5.0 GB");
    assert_eq!(format_bytes(1099511627776), "1.0 TB");
    assert_eq!(format_bytes(1125899906842624), "1024.0 TB");
}

#[test]
fn ties_round_to_even() {
    // 1280 bytes are exactly 1.25 KB
    assert_eq!(format_bytes(1280), "1.2 KB");
    // 1408 bytes are exactly 1.375 KB, no tie
    assert_eq!(format_bytes(1408), "1.4 KB");
    // 3712 bytes are exactly 3.625 KB
    assert_eq!(format_bytes(3712), "3.6 KB");
}

#[test]
fn largest_counts() {
    assert_eq!(format_bytes(u64::MAX), reference_format_bytes(u64::MAX));
    assert_eq!(format_bytes(u64::MAX), "16777216.0 TB");
}

#[test]
fn matches_floating_point_formatting() {
    let mut samples: Vec<u64> = Vec::new();
    for k in 0..64 {
        let p = 1u64 << k;
        for d in [0u64, 1, 3, 51, 52, 100, 511, 512, 513, 1000] {
            samples.push(p.wrapping_add(d));
            samples.push(p.wrapping_sub(d));
        }
    }
    let mut x: u64 = 0x9e37_79b9_7f4a_7c15;
    for _ in 0..20000 {
        x ^= x << 13;
        x ^= x >> 7;
        x ^= x << 17;
        samples.push(x >> (x % 64));
    }
    for q in 0..2000u64 {
        // values whose tenths fall exactly halfway in each unit
        samples.push((1024 * (10 * q + 5) + 5) / 10);
        samples.push(((1u64 << 20) * (2 * q + 1)) / 20);
    }
    for bytes in samples {
        assert_eq!(format_bytes(bytes), reference_format_bytes(bytes), "{bytes}");
    }
}

#[test]
fn truncation() {
    assert_eq!(truncate("short", 10), "short");
    assert_eq!(truncate("exactly10!", 10), "exactly10!");
    assert_eq!(truncate("eleven chars", 10), "eleven ...");
    assert_eq!(truncate("ünïcödé wörds", 8), "ünïcö...");
    assert_eq!(truncate("abcdef", 2), "...");
    assert_eq!(truncate("", 0), "");
}

#[test]
fn gpu_budget() {
    assert_eq!(format_gpu_budget(512, 0), "512 B");
    assert_eq!(format_gpu_budget(1073741824, 4294967296), "1.0 GB / 4.0 GB");
}
