use rlg::preview::last_n_lines;

#[test]
fn tail_two_of_three_in_forward_order() {
    let content = b"A\nB\nC\n".to_vec();
    assert_eq!(last_n_lines(&content, 2), vec![b"B".to_vec(), b"C".to_vec()]);
}

#[test]
fn tail_larger_than_file_gives_every_line() {
    let content = b"A\nB\nC\n".to_vec();
    assert_eq!(last_n_lines(&content, 10), vec![b"A".to_vec(), b"B".to_vec(), b"C".to_vec()]);
}

#[test]
fn tail_of_zero_lines_is_empty() {
    let content = b"A\nB\nC\n".to_vec();
    assert_eq!(last_n_lines(&content, 0), Vec::<Vec<u8>>::new());
}

#[test]
fn tail_of_empty_file_is_empty() {
    assert_eq!(last_n_lines(&Vec::new(), 6), Vec::<Vec<u8>>::new());
}

#[test]
fn tail_keeps_blank_and_partial_lines() {
    let content = b"A\n\nB".to_vec();
    assert_eq!(last_n_lines(&content, 2), vec![Vec::new(), b"B".to_vec()]);
}
