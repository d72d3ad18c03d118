use forth_compiler::console::{collect, echo, to_upper};

#[test]
fn only_lower_case_letters_are_folded() {
    assert_eq!(to_upper(b'a'), b'A');
    assert_eq!(to_upper(b'z'), b'Z');
    assert_eq!(to_upper(b'm'), b'M');
    assert_eq!(to_upper(b'A'), b'A');
    assert_eq!(to_upper(96), 96);
    assert_eq!(to_upper(123), 123);
    assert_eq!(to_upper(b'1'), b'1');
    assert_eq!(to_upper(0xe4), 0xe4);
}

#[test]
fn echo_stores_and_returns_the_folded_byte() {
    let mut buffer = Vec::new();
    assert_eq!(echo(&mut buffer, b'd'), vec![b'D']);
    assert_eq!(echo(&mut buffer, b'u'), vec![b'U']);
    assert_eq!(echo(&mut buffer, b'P'), vec![b'P']);
    assert_eq!(buffer, b"DUP".to_vec());
}

#[test]
fn echo_answers_a_line_feed_with_the_line_reversed() {
    let mut buffer = b"DUP".to_vec();
    assert_eq!(echo(&mut buffer, 10), b"PUD\n".to_vec());
    assert!(buffer.is_empty());
    assert_eq!(echo(&mut buffer, 10), vec![10]);
    assert!(buffer.is_empty());
}

#[test]
fn collect_stores_bytes_as_they_are() {
    let mut buffer = Vec::new();
    assert!(!collect(&mut buffer, b'd'));
    assert!(!collect(&mut buffer, b' '));
    assert!(!collect(&mut buffer, 13));
    assert_eq!(buffer, vec![b'd', b' ', 13]);
}

#[test]
fn collect_reports_the_end_of_the_line() {
    let mut buffer = b"1 2 +".to_vec();
    assert!(collect(&mut buffer, 10));
    assert_eq!(buffer, b"1 2 +".to_vec());
}
