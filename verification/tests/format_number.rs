use kourain_media::format_number::FormatNumber;

/// The size text computed with `f64` arithmetic, the reference for the
/// integer computation of the library.
fn size_with_floats(n: u64) -> String {
    let mut size = n as f64;
    for suffix in ["B", "KB", "MB", "GB", "TB", "PB", "EB", "ZB", "YB"] {
        if size < 1024.0 {
            return format!("{:.2} {}", size, suffix);
        }
        size /= 1024.0;
    }
    format!("{:.2} B", size)
}

#[test]
fn file_size_small_values() {
    assert_eq!(0u64.format_file_size(), "0.00 B");
    assert_eq!(1u64.format_file_size(), "1.00 B");
    assert_eq!(1023u64.format_file_size(), "1023.00 B");
    assert_eq!(1024u64.format_file_size(), "1.00 KB");
    assert_eq!(1536u64.format_file_size(), "1.50 KB");
    assert_eq!(103_809_024u64.format_file_size(), "99.00 MB");
    assert_eq!(1_073_741_824u64.format_file_size(), "1.00 GB");
}

#[test]
fn file_size_largest_value() {
    assert_eq!(u64::MAX.format_file_size(), "16.00 EB");
}

#[test]
fn file_size_matches_float_formatting() {
    let mut values: Vec<u64> = Vec::new();
    for n in 0..5000u64 {
        values.push(n);
    }
    for k in 0..7u32 {
        let base = 1u64.checked_shl(10 * k).unwrap();
        for m in [1u64, 3, 5, 7, 9, 1023, 1024, 1025, 100, 999, 128, 1152, 640, 5248] {
            values.push(base.saturating_mul(m));
            values.push(base.saturating_mul(m).saturating_add(1));
            values.push(base.saturating_mul(m).saturating_sub(1));
        }
    }
    let mut x: u64 = 0x9E37_79B9_7F4A_7C15;
    for _ in 0..20000 {
        x ^= x << 13;
        x ^= x >> 7;
        x ^= x << 17;
        values.push(x);
        values.push(x >> (x % 64));
    }
    for shift in 50..64u32 {
        let top = 1u64 << shift;
        for d in 0..64u64 {
            values.push(top + d);
            values.push(top - d);
            values.push(top + (1u64 << (shift - 53)) * d / 2);
        }
    }
    for v in values {
        assert_eq!(v.format_file_size(), size_with_floats(v), "size {}", v);
    }
}

#[test]
fn duration_minutes_and_seconds() {
    assert_eq!(0u64.format_duration(), "00:00");
    assert_eq!(999u64.format_duration(), "00:00");
    assert_eq!(61_000u64.format_duration(), "01:01");
    assert_eq!(3_599_999u64.format_duration(), "59:59");
}

#[test]
fn duration_with_hours() {
    assert_eq!(3_600_000u64.format_duration(), "01:00:00");
    assert_eq!(36_610_000u64.format_duration(), "10:10:10");
    assert_eq!(360_000_000u64.format_duration(), "100:00:00");
}

#[test]
fn duration_text_reads_back() {
    for ms in [0u64, 999, 1_000, 59_999, 61_001, 3_599_999, 3_600_000, 36_610_123, 360_000_000, u64::MAX] {
        let text = ms.format_duration();
        let fields: Vec<u64> = text.split(':').map(|f| {
            assert!(f.len() >= 2, "{}", text);
            f.parse().unwrap()
        }).collect();
        assert_eq!(fields.len() == 3, ms >= 3_600_000, "{}", text);
        let (h, m, s) = if fields.len() == 3 { (fields[0], fields[1], fields[2]) } else { (0, fields[0], fields[1]) };
        assert!(m < 60 && s < 60, "{}", text);
        assert_eq!(h as u128 * 3_600_000 + m as u128 * 60_000 + s as u128 * 1000, (ms - ms % 1000) as u128);
    }
}
