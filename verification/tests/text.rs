//! C strings and their text.

use yara2::text::{has_nul, holds_text, push_decimal, read_text, strlen, to_text};

#[test]
fn strlen_stops_at_the_first_nul() {
    assert_eq!(strlen(b"abc\0def\0"), 3);
    assert_eq!(strlen(b"\0abc"), 0);
    assert_eq!(strlen(b""), 0);
}

#[test]
fn strlen_of_memory_without_a_nul_is_its_length() {
    assert_eq!(strlen(b"abc"), 3);
}

#[test]
fn has_nul_finds_a_nul_anywhere() {
    assert!(!has_nul(b""));
    assert!(!has_nul(b"abc"));
    assert!(has_nul(b"\0"));
    assert!(has_nul(b"abc\0"));
    assert!(has_nul(b"a\0bc"));
}

#[test]
fn read_text_decodes_up_to_the_nul() {
    assert_eq!(read_text(b"tag1\0tag2\0\0"), Some("tag1".to_string()));
    assert_eq!(read_text(b"\0"), Some(String::new()));
    assert_eq!(read_text(b""), Some(String::new()));
    assert_eq!(read_text("z\u{fc}rich\0".as_bytes()), Some("z\u{fc}rich".to_string()));
}

#[test]
fn read_text_refuses_what_is_not_utf8() {
    assert_eq!(read_text(b"\xc3\x28\0"), None);
    assert_eq!(read_text(b"ok\xff"), None);
    assert!(!holds_text(b"\x80\0"));
}

#[test]
fn bytes_after_the_nul_do_not_count() {
    assert_eq!(read_text(b"fine\0\xff\xff"), Some("fine".to_string()));
    assert!(holds_text(b"fine\0\xff\xff"));
    assert_eq!(to_text(b"fine\0\xff\xff"), "fine");
}

#[test]
fn decimal_of_integers() {
    for n in [0, 1, 9, 10, 11, 100, 4096, i32::MAX, -1, -9, -10, -4096, i32::MIN] {
        let mut out = String::from("n=");
        push_decimal(&mut out, n);
        assert_eq!(out, format!("n={}", n));
    }
}
