use siori::input::normalize_fullwidth;
use siori::log::remote_label;
use siori::timefmt::{format_relative_age, format_relative_time};

#[test]
fn test_format_relative_time() {
    let now = std::time::SystemTime::now()
        .duration_since(std::time::UNIX_EPOCH)
        .unwrap()
        .as_secs() as i64;
    assert_eq!(format_relative_time(now), "just now");
    assert_eq!(format_relative_time(now - 120), "2 min ago");
    assert_eq!(format_relative_time(now - 7200), "2 hours ago");
    assert_eq!(format_relative_time(now - 172800), "2 days ago");
}

#[test]
fn main_test_format_relative_time() {
    let now = std::time::SystemTime::now()
        .duration_since(std::time::UNIX_EPOCH)
        .unwrap()
        .as_secs() as i64;

    assert_eq!(format_relative_time(now), "just now");
    assert_eq!(format_relative_time(now - 120), "2 min ago");
    assert_eq!(format_relative_time(now - 7200), "2 hours ago");
    assert_eq!(format_relative_time(now - 172800), "2 days ago");
}

#[test]
fn test_format_relative_age_exact() {
    assert_eq!(format_relative_age(1000, 1000), "just now");
    assert_eq!(format_relative_age(1059, 1000), "just now");
    assert_eq!(format_relative_age(1060, 1000), "1 min ago");
    assert_eq!(format_relative_age(1000 + 3599, 1000), "59 min ago");
    assert_eq!(format_relative_age(1000 + 3600, 1000), "1 hours ago");
    assert_eq!(format_relative_age(1000 + 86399, 1000), "23 hours ago");
    assert_eq!(format_relative_age(1000 + 86400, 1000), "1 days ago");
    assert_eq!(format_relative_age(1000 + 10 * 86400, 1000), "10 days ago");
    // a commit timestamp in the future reads as fresh
    assert_eq!(format_relative_age(1000, 5000), "just now");
}

#[test]
fn test_normalize_fullwidth() {
    assert_eq!(normalize_fullwidth('ａ'), 'a');
    assert_eq!(normalize_fullwidth('ｚ'), 'z');
    assert_eq!(normalize_fullwidth('ｃ'), 'c');
    assert_eq!(normalize_fullwidth('Ｐ'), 'P');
    assert_eq!(normalize_fullwidth('０'), '0');
    assert_eq!(normalize_fullwidth('９'), '9');
    assert_eq!(normalize_fullwidth('\u{3000}'), ' ');
    assert_eq!(normalize_fullwidth('a'), 'a');
    assert_eq!(normalize_fullwidth('あ'), 'あ');
}

#[test]
fn main_test_normalize_fullwidth() {
    // Full-width lowercase -> ASCII lowercase
    assert_eq!(normalize_fullwidth('ａ'), 'a');
    assert_eq!(normalize_fullwidth('ｚ'), 'z');
    assert_eq!(normalize_fullwidth('ｃ'), 'c');
    assert_eq!(normalize_fullwidth('ｑ'), 'q');

    // Full-width uppercase -> ASCII uppercase
    assert_eq!(normalize_fullwidth('Ａ'), 'A');
    assert_eq!(normalize_fullwidth('Ｚ'), 'Z');
    assert_eq!(normalize_fullwidth('Ｐ'), 'P');

    // Full-width digits -> ASCII digits
    assert_eq!(normalize_fullwidth('０'), '0');
    assert_eq!(normalize_fullwidth('９'), '9');

    // Full-width space -> ASCII space
    assert_eq!(normalize_fullwidth('\u{3000}'), ' ');

    // ASCII characters should remain unchanged
    assert_eq!(normalize_fullwidth('a'), 'a');
    assert_eq!(normalize_fullwidth(' '), ' ');

    // Japanese characters should remain unchanged
    assert_eq!(normalize_fullwidth('あ'), 'あ');
}

#[test]
fn test_remote_label() {
    assert_eq!(remote_label("origin/main"), "[origin/main]");
    assert_eq!(remote_label(""), "[]");
}
