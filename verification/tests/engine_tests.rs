use rlg::engine::{
    day_header, decide_for_content, decide_from_scan, determine_headers, year_header,
    HeaderDecision, ScanItem,
};
use rlg::timestamp::Timestamp;

fn ts(year: u32, month: u32, day: u32, hour: u32, minute: u32, second: u32) -> Timestamp {
    Timestamp::new(year, month, day, hour, minute, second).unwrap()
}

#[test]
fn empty_file_gets_title_year_and_day() {
    let t = ts(2024, 1, 15, 10, 0, 0);
    assert_eq!(decide_for_content(&Vec::new(), &t), HeaderDecision::TitleYearAndDay);
    assert_eq!(
        determine_headers(&Vec::new(), &t),
        b"# Lab Log\n\n## 2024\n\n### 2024-01-15\n".to_vec()
    );
}

#[test]
fn same_day_needs_no_headers() {
    let t = ts(2024, 1, 15, 10, 0, 0);
    let content = b"- 2024-01-15 09:00:00: first\n".to_vec();
    assert_eq!(decide_for_content(&content, &t), HeaderDecision::NoHeaders);
    assert_eq!(determine_headers(&content, &t), Vec::new());
}

#[test]
fn prior_day_same_year_needs_day_header_only() {
    let t = ts(2024, 1, 15, 10, 0, 0);
    let content = b"- 2024-01-10 22:11:00: older\n".to_vec();
    assert_eq!(decide_for_content(&content, &t), HeaderDecision::DayOnly);
    assert_eq!(determine_headers(&content, &t), b"\n\n### 2024-01-15\n".to_vec());
}

#[test]
fn prior_year_needs_year_then_day_header() {
    let t = ts(2024, 1, 15, 10, 0, 0);
    let content = b"- 2023-12-31 23:59:59: last year\n".to_vec();
    assert_eq!(decide_for_content(&content, &t), HeaderDecision::YearAndDay);
    assert_eq!(determine_headers(&content, &t), b"\n## 2024\n\n### 2024-01-15\n".to_vec());
}

#[test]
fn blank_tail_lines_are_skipped() {
    let t = ts(2024, 1, 15, 10, 0, 0);
    let content = b"- 2024-01-15 09:00:00: first\n\n \t \n".to_vec();
    assert_eq!(decide_for_content(&content, &t), HeaderDecision::NoHeaders);
}

#[test]
fn all_blank_file_counts_as_fresh() {
    let t = ts(2024, 1, 15, 10, 0, 0);
    let content = b" \n\t\n\n".to_vec();
    assert_eq!(decide_for_content(&content, &t), HeaderDecision::TitleYearAndDay);
}

#[test]
fn non_entry_tail_line_gets_both_headers() {
    let t = ts(2024, 1, 15, 10, 0, 0);
    let content = b"### 2024-01-15\n".to_vec();
    assert_eq!(decide_for_content(&content, &t), HeaderDecision::YearAndDay);
}

#[test]
fn unreadable_first_element_counts_as_fresh() {
    let t = ts(2024, 1, 15, 10, 0, 0);
    let items = vec![ScanItem::Unreadable, ScanItem::Line(b"- 2024-01-15 09:00:00: x".to_vec())];
    assert_eq!(decide_from_scan(&items, &t), HeaderDecision::TitleYearAndDay);
}

#[test]
fn scan_items_skip_blanks_then_decide() {
    let t = ts(2024, 1, 15, 10, 0, 0);
    let items = vec![
        ScanItem::Line(b"   ".to_vec()),
        ScanItem::Line(b"- 2024-01-15 09:00:00: x".to_vec()),
    ];
    assert_eq!(decide_from_scan(&items, &t), HeaderDecision::NoHeaders);
}

#[test]
fn exhausted_scan_counts_as_fresh() {
    let t = ts(2024, 1, 15, 10, 0, 0);
    assert_eq!(decide_from_scan(&Vec::new(), &t), HeaderDecision::TitleYearAndDay);
}

#[test]
fn header_formats_are_exact() {
    let t = ts(2024, 1, 15, 10, 0, 0);
    assert_eq!(year_header(&t), b"\n## 2024".to_vec());
    assert_eq!(day_header(&t), b"\n\n### 2024-01-15\n".to_vec());
}

#[test]
fn headers_zero_pad_every_field() {
    let t = ts(987, 3, 5, 0, 0, 0);
    assert_eq!(year_header(&t), b"\n## 0987".to_vec());
    assert_eq!(day_header(&t), b"\n\n### 0987-03-05\n".to_vec());
}
