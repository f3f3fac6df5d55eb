use depot::text::{join, join_with, padded_left, padded_right};
use depot::text::PathStyle;
use depot::util::{age_label, human_size, newest, relative_age, unix_secs, Timestamp};

/// What `{:.1}` of the size divided down by 1024 prints, with floats.
fn float_size(bytes: u64) -> String {
    const UNITS: [&str; 6] = ["B", "KB", "MB", "GB", "TB", "PB"];
    if bytes == 0 {
        return "0 B".to_string();
    }
    let mut size = bytes as f64;
    let mut unit = 0;
    while size >= 1024.0 && unit < UNITS.len() - 1 {
        size /= 1024.0;
        unit += 1;
    }
    if unit == 0 {
        format!("{} {}", bytes, UNITS[unit])
    } else {
        format!("{:.1} {}", size, UNITS[unit])
    }
}

#[test]
fn human_size_examples() {
    assert_eq!(human_size(0), "0 B");
    assert_eq!(human_size(1), "1 B");
    assert_eq!(human_size(1023), "1023 B");
    assert_eq!(human_size(1024), "1.0 KB");
    assert_eq!(human_size(1536), "1.5 KB");
    assert_eq!(human_size(1280), "1.2 KB");
    assert_eq!(human_size(1_048_576), "1.0 MB");
    assert_eq!(human_size(1_073_741_824), "1.0 GB");
    assert_eq!(human_size(u64::MAX), "16384.0 PB");
}

#[test]
fn human_size_agrees_with_float_formatting() {
    let mut probes: Vec<u64> = vec![u64::MAX, u64::MAX - 1, 1 << 63, (1 << 53) + 1, (1 << 60) + 12345];
    for e in 0..64u32 {
        let p = 1u64 << e;
        for d in [0u64, 1, 2, 3, 51, 52, 102, 103, 512] {
            probes.push(p.saturating_add(d));
            probes.push(p.saturating_sub(d));
            probes.push(p.saturating_add(p / 20).saturating_add(d));
            probes.push(p.saturating_add(p / 40).saturating_sub(d));
        }
    }
    let mut x: u64 = 0x9e37_79b9_7f4a_7c15;
    for _ in 0..20000 {
        x ^= x << 13;
        x ^= x >> 7;
        x ^= x << 17;
        probes.push(x >> (x % 64));
    }
    for b in probes {
        assert_eq!(human_size(b), float_size(b), "bytes = {b}");
    }
}

fn at(secs: u64) -> Timestamp {
    Timestamp { before_epoch: false, secs, nanos: 0 }
}

#[test]
fn newest_prefers_the_later_known_time() {
    assert_eq!(newest(Some(at(5)), Some(at(9))), Some(at(9)));
    assert_eq!(newest(Some(at(9)), Some(at(5))), Some(at(9)));
    assert_eq!(newest(None, Some(at(5))), Some(at(5)));
    assert_eq!(newest(Some(at(5)), None), Some(at(5)));
    assert_eq!(newest(None, None), None);
    let before = Timestamp { before_epoch: true, secs: 3, nanos: 0 };
    assert_eq!(newest(Some(before), Some(at(0))), Some(at(0)));
}

#[test]
fn unix_secs_counts_whole_seconds_after_the_epoch() {
    assert_eq!(unix_secs(Timestamp { before_epoch: false, secs: 42, nanos: 999_999_999 }), Some(42));
    assert_eq!(unix_secs(Timestamp { before_epoch: true, secs: 1, nanos: 0 }), None);
    assert_eq!(unix_secs(Timestamp { before_epoch: true, secs: 0, nanos: 0 }), Some(0));
}

#[test]
fn ages_are_coarse() {
    let now = at(1_000_000);
    assert_eq!(age_label(None, now), "\u{2014}");
    assert_eq!(age_label(Some(at(1_000_000 - 2 * 86_400 - 5)), now), "2d ago");
    assert_eq!(age_label(Some(at(1_000_000 - 3 * 3_600)), now), "3h ago");
    assert_eq!(age_label(Some(at(1_000_000 - 59)), now), "today");
    assert_eq!(age_label(Some(at(1_000_000 + 10)), now), "\u{2014}");
    assert_eq!(relative_age(None), "\u{2014}");
}

#[test]
fn relative_age_of_an_old_time() {
    assert_eq!(relative_age(Some(at(0))).ends_with("d ago"), true);
}

#[test]
fn text_helpers() {
    assert_eq!(join("/a", "b", PathStyle::Unix), "/a/b");
    assert_eq!(join("/a/", "b", PathStyle::Unix), "/a/b");
    assert_eq!(join("", "b", PathStyle::Unix), "b");
    assert_eq!(join("/a", "/b", PathStyle::Unix), "/b");
    assert_eq!(join("/a", "b\\c", PathStyle::Unix), "/a/b\\c");
    assert_eq!(join("C:\\a", "b", PathStyle::Windows), "C:\\a\\b");
    assert_eq!(join("C:\\a\\", "b", PathStyle::Windows), "C:\\a\\b");
    assert_eq!(join("C:/a/", "b", PathStyle::Windows), "C:/a/b");
    assert_eq!(join("C:", "b", PathStyle::Windows), "C:b");
    assert_eq!(join("C:\\a", "\\b", PathStyle::Windows), "C:\\b");
    assert_eq!(join("x", "/b", PathStyle::Windows), "/b");
    assert_eq!(padded_left("ab", 4), "  ab");
    assert_eq!(padded_left("abcde", 4), "abcde");
    assert_eq!(padded_right("ab", 4), "ab  ");
    let parts = vec!["a".to_string(), "b".to_string(), "c".to_string()];
    assert_eq!(join_with(&parts, ", "), "a, b, c");
    assert_eq!(join_with(&Vec::new(), ", "), "");
}
