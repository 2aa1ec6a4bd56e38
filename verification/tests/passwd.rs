use pam_tpm_gnome_keyring::decimal::{parse_u32, push_decimal, push_signed_decimal};
use pam_tpm_gnome_keyring::passwd::get_uid;

const FILE: &[u8] = b"root:x:0:0:root:/root:/bin/bash\n\
alice:x:1000:1000:Alice:/home/alice:/bin/bash\n\
bob:x:1001:1001::/home/bob:/bin/sh\n\
alice:x:2000:2000::/nowhere:/bin/false\n";

#[test]
fn entry_is_found() {
    assert_eq!(get_uid(FILE, "root"), Some(0));
    assert_eq!(get_uid(FILE, "bob"), Some(1001));
}

#[test]
fn first_entry_decides() {
    assert_eq!(get_uid(FILE, "alice"), Some(1000));
}

#[test]
fn unknown_user_has_no_uid() {
    assert_eq!(get_uid(FILE, "carol"), None);
    assert_eq!(get_uid(FILE, "ali"), None);
    assert_eq!(get_uid(FILE, ""), None);
    assert_eq!(get_uid(b"", "root"), None);
}

#[test]
fn short_line_ends_the_search() {
    assert_eq!(get_uid(b"a:x:1\nbroken:x\nb:x:2\n", "a"), Some(1));
    assert_eq!(get_uid(b"a:x:1\nbroken:x\nb:x:2\n", "b"), None);
    assert_eq!(get_uid(b"a:x:1\n\nb:x:2\n", "b"), None);
}

#[test]
fn three_fields_are_enough() {
    assert_eq!(get_uid(b"a:x:1", "a"), Some(1));
    assert_eq!(get_uid(b"a::7", "a"), Some(7));
}

#[test]
fn line_endings() {
    assert_eq!(get_uid(b"a:x:1\r\nb:x:2\r\n", "b"), Some(2));
    assert_eq!(get_uid(b"a:x:1\r\nb:x:2", "b"), Some(2));
    // Without its newline a line keeps its carriage return.
    assert_eq!(get_uid(b"a:x:1\nb:x:2\r", "b"), None);
    assert_eq!(get_uid(b"a:x:1\nb:x:2\r:", "b"), None);
}

#[test]
fn entry_without_a_number_has_no_uid() {
    assert_eq!(get_uid(b"a:x:one:\na:x:1:\n", "a"), None);
    assert_eq!(get_uid(b"a:x::\n", "a"), None);
    assert_eq!(get_uid(b"a:x:4294967296:\n", "a"), None);
    assert_eq!(get_uid(b"a:x:4294967295:\n", "a"), Some(4294967295));
}

#[test]
fn names_are_text() {
    assert_eq!(get_uid("jürgen:x:5:5\n".as_bytes(), "jürgen"), Some(5));
    assert_eq!(get_uid(b"a:x:1:\n\xff\n", "a"), None);
}

#[test]
fn numbers() {
    assert_eq!(parse_u32(b"0"), Some(0));
    assert_eq!(parse_u32(b"007"), Some(7));
    assert_eq!(parse_u32(b"+12"), Some(12));
    assert_eq!(parse_u32(b"+"), None);
    assert_eq!(parse_u32(b""), None);
    assert_eq!(parse_u32(b"-1"), None);
    assert_eq!(parse_u32(b"++1"), None);
    assert_eq!(parse_u32(b" 1"), None);
    assert_eq!(parse_u32(b"1_000"), None);
    assert_eq!(parse_u32(b"99999999999999999999"), None);
    for text in ["0", "+0", "42", "+", "", "-5", "4294967295", "4294967296", "1 ", "x"] {
        assert_eq!(parse_u32(text.as_bytes()), text.parse::<u32>().ok());
    }
}

#[test]
fn number_round_trip() {
    for n in [0u32, 9, 10, 99, 1000, 1234567890, u32::MAX] {
        let mut text = String::from("=");
        push_decimal(&mut text, n as u64);
        assert_eq!(text, format!("={n}"));
        assert_eq!(parse_u32(text[1..].as_bytes()), Some(n));
    }
}

#[test]
fn large_and_negative_numbers() {
    let mut text = String::new();
    push_decimal(&mut text, u64::MAX);
    assert_eq!(text, "18446744073709551615");
    for n in [0i32, 7, -1, -10, i32::MAX, i32::MIN] {
        let mut text = String::from("rc=");
        push_signed_decimal(&mut text, n);
        assert_eq!(text, format!("rc={n}"));
    }
}
