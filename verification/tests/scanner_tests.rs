use rlg::scanner::RevScanner;

#[test]
fn rev_scan_yields_lines_backward() {
    let mut sc = RevScanner::new(b"A\nB\nC\n".to_vec());
    assert_eq!(sc.next(), Some(b"C".to_vec()));
    assert_eq!(sc.next(), Some(b"B".to_vec()));
    assert_eq!(sc.next(), Some(b"A".to_vec()));
    assert_eq!(sc.next(), None);
}

#[test]
fn rev_scan_empty_yields_nothing() {
    let mut sc = RevScanner::new(Vec::new());
    assert_eq!(sc.next(), None);
}

#[test]
fn rev_scan_final_line_without_terminator() {
    let mut sc = RevScanner::new(b"A\nB".to_vec());
    assert_eq!(sc.next(), Some(b"B".to_vec()));
    assert_eq!(sc.next(), Some(b"A".to_vec()));
    assert_eq!(sc.next(), None);
}

#[test]
fn rev_scan_strips_carriage_return_before_terminator() {
    let mut sc = RevScanner::new(b"A\r\nB\r\n".to_vec());
    assert_eq!(sc.next(), Some(b"B".to_vec()));
    assert_eq!(sc.next(), Some(b"A".to_vec()));
    assert_eq!(sc.next(), None);
}

#[test]
fn rev_scan_lone_terminator_is_one_empty_line() {
    let mut sc = RevScanner::new(b"\n".to_vec());
    assert_eq!(sc.next(), Some(Vec::new()));
    assert_eq!(sc.next(), None);
}

#[test]
fn rev_scan_trailing_blank_line() {
    let mut sc = RevScanner::new(b"A\n\n".to_vec());
    assert_eq!(sc.next(), Some(Vec::new()));
    assert_eq!(sc.next(), Some(b"A".to_vec()));
    assert_eq!(sc.next(), None);
}

#[test]
fn rev_scan_is_single_pass() {
    let mut sc = RevScanner::new(b"A\nB\n".to_vec());
    assert_eq!(sc.next(), Some(b"B".to_vec()));
    let mut fresh = RevScanner::new(b"A\nB\n".to_vec());
    assert_eq!(fresh.next(), Some(b"B".to_vec()));
    assert_eq!(sc.next(), Some(b"A".to_vec()));
    assert_eq!(sc.next(), None);
}
