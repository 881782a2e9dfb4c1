use rlg::scanner::RevScanner;
use rlg::timestamp::Timestamp;
use rlg::writer::{append_entry, compose_entry, entry_line};

fn ts(year: u32, month: u32, day: u32, hour: u32, minute: u32, second: u32) -> Timestamp {
    Timestamp::new(year, month, day, hour, minute, second).unwrap()
}

#[test]
fn first_entry_builds_the_whole_file() {
    let t = ts(2024, 1, 15, 10, 0, 0);
    let written = append_entry(&Vec::new(), &t, &b"hello".to_vec());
    assert_eq!(
        written,
        b"# Lab Log\n\n## 2024\n\n### 2024-01-15\n- 2024-01-15 10:00:00: hello\n".to_vec()
    );
}

#[test]
fn same_day_appends_entry_line_only() {
    let t = ts(2024, 1, 15, 10, 0, 0);
    let content = b"- 2024-01-15 09:00:00: first\n".to_vec();
    assert_eq!(
        compose_entry(&content, &t, &b"second".to_vec()),
        b"- 2024-01-15 10:00:00: second\n".to_vec()
    );
    assert_eq!(
        append_entry(&content, &t, &b"second".to_vec()),
        b"- 2024-01-15 09:00:00: first\n- 2024-01-15 10:00:00: second\n".to_vec()
    );
}

#[test]
fn new_day_entry_carries_day_header() {
    let t = ts(2024, 1, 16, 8, 30, 5);
    let content = b"# Lab Log\n\n## 2024\n\n### 2024-01-15\n- 2024-01-15 09:00:00: first\n"
        .to_vec();
    assert_eq!(
        compose_entry(&content, &t, &b"next day".to_vec()),
        b"\n\n### 2024-01-16\n- 2024-01-16 08:30:05: next day\n".to_vec()
    );
}

#[test]
fn new_year_entry_carries_both_headers() {
    let t = ts(2025, 1, 1, 0, 0, 1);
    let content = b"- 2024-12-31 23:59:59: countdown\n".to_vec();
    assert_eq!(
        compose_entry(&content, &t, &b"new year".to_vec()),
        b"\n## 2025\n\n### 2025-01-01\n- 2025-01-01 00:00:01: new year\n".to_vec()
    );
}

#[test]
fn entry_line_format_is_exact() {
    let t = ts(2024, 1, 15, 10, 0, 0);
    assert_eq!(entry_line(&t, &b"hi".to_vec()), b"- 2024-01-15 10:00:00: hi".to_vec());
}

#[test]
fn appended_entry_is_recovered_by_rescan() {
    let t = ts(2024, 1, 15, 10, 0, 0);
    let content = b"- 2024-01-10 09:00:00: old\n".to_vec();
    let written = append_entry(&content, &t, &b"a note".to_vec());
    let mut sc = RevScanner::new(written);
    assert_eq!(sc.next(), Some(b"- 2024-01-15 10:00:00: a note".to_vec()));
}

#[test]
fn timestamp_rejects_out_of_range_fields() {
    assert!(Timestamp::new(2024, 13, 1, 0, 0, 0).is_none());
    assert!(Timestamp::new(2024, 0, 1, 0, 0, 0).is_none());
    assert!(Timestamp::new(2024, 1, 32, 0, 0, 0).is_none());
    assert!(Timestamp::new(10000, 1, 1, 0, 0, 0).is_none());
    assert!(Timestamp::new(2024, 1, 1, 24, 0, 0).is_none());
    assert!(Timestamp::new(2024, 1, 1, 0, 60, 0).is_none());
    assert!(Timestamp::new(2024, 1, 1, 0, 0, 60).is_none());
    assert!(Timestamp::new(2024, 2, 29, 23, 59, 59).is_some());
}
