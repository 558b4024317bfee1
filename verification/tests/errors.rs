//! Status codes, the diagnostic callback and the queue.

use std::collections::VecDeque;

use yara2::errors::take_errors;
use yara2::{error_callback, get_last_error, Error};

#[test]
fn zero_is_success() {
    assert!(Error::from_code(0).is_ok());
}

#[test]
fn nonzero_status_is_kept() {
    assert!(matches!(Error::from_code(1), Err(Error::UnknownEngineError(1))));
    assert!(matches!(Error::from_code(-3), Err(Error::UnknownEngineError(-3))));
    assert!(matches!(Error::from_code(i32::MIN), Err(Error::UnknownEngineError(i32::MIN))));
}

#[test]
fn error_from_a_status() {
    assert!(matches!(Error::from(5), Error::UnknownEngineError(5)));
    assert!(matches!(Error::from(0), Error::UnknownEngineError(0)));
}

#[test]
fn diagnostic_is_queued_with_its_line() {
    let mut queue = VecDeque::new();
    error_callback(0, b"", 3, b"syntax error, unexpected identifier\0", &mut queue);
    assert_eq!(queue.len(), 1);
    assert_eq!(queue[0], format!("Line {}: {}", 3, "syntax error, unexpected identifier"));
    assert_eq!(queue[0], "Line 3: syntax error, unexpected identifier");
}

#[test]
fn diagnostics_are_queued_in_order() {
    let mut queue = VecDeque::new();
    error_callback(0, b"a.yar\0", 1, b"first\0", &mut queue);
    error_callback(1, b"a.yar\0", 20, b"second\0trailing", &mut queue);
    error_callback(1, b"", 0, b"third", &mut queue);
    assert_eq!(get_last_error(&mut queue), Some("Line 1: first".to_string()));
    assert_eq!(get_last_error(&mut queue), Some("Line 20: second".to_string()));
    assert_eq!(get_last_error(&mut queue), Some("Line 0: third".to_string()));
    assert_eq!(get_last_error(&mut queue), None);
    assert_eq!(get_last_error(&mut queue), None);
}

#[test]
fn line_numbers_are_written_in_decimal() {
    for line in [0, 7, 10, 99, 100, 12345, i32::MAX, -1, -10, -2147483647, i32::MIN] {
        let mut queue = VecDeque::new();
        error_callback(0, b"", line, b"m\0", &mut queue);
        assert_eq!(queue[0], format!("Line {}: {}", line, "m"));
    }
}

#[test]
fn message_that_is_no_text_is_queued_empty() {
    let mut queue = VecDeque::new();
    error_callback(0, b"", 4, b"\xff\xfe\0", &mut queue);
    assert_eq!(queue[0], "Line 4: ");
    error_callback(0, b"", 5, b"\0", &mut queue);
    assert_eq!(queue[1], "Line 5: ");
}

#[test]
fn message_keeps_text_beyond_ascii() {
    let mut queue = VecDeque::new();
    error_callback(0, b"", 2, "d\u{e9}j\u{e0} vu \u{1f600}\0".as_bytes(), &mut queue);
    assert_eq!(queue[0], "Line 2: d\u{e9}j\u{e0} vu \u{1f600}");
}

#[test]
fn take_errors_takes_from_the_front() {
    let mut queue: VecDeque<String> = ["a", "b", "c"].iter().map(|s| s.to_string()).collect();
    assert_eq!(take_errors(&mut queue, 1), vec!["a"]);
    assert_eq!(queue.len(), 2);
    assert!(take_errors(&mut queue, 0).is_empty());
    assert!(take_errors(&mut queue, -1).is_empty());
    assert_eq!(queue.len(), 2);
    assert_eq!(take_errors(&mut queue, 5), vec!["b", "c"]);
    assert!(take_errors(&mut queue, 3).is_empty());
}
