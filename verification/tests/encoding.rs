use rlogg::encoding::{encoding_for_contents, TextEncoding};

#[test]
fn byte_order_marks_decide() {
    assert_eq!(encoding_for_contents(Some(b"\xEF\xBB\xBFhello")), TextEncoding::Utf8);
    assert_eq!(encoding_for_contents(Some(b"\xFF\xFEh\0")), TextEncoding::Utf16Le);
    assert_eq!(encoding_for_contents(Some(b"\xFE\xFF\0h")), TextEncoding::Utf16Be);
    assert_eq!(encoding_for_contents(Some(b"\xEF\xBB\xBF\xFF\xFF")), TextEncoding::Utf8);
}

#[test]
fn valid_utf8_is_utf8_and_the_rest_is_windows_1252() {
    assert_eq!(encoding_for_contents(Some(b"hello")), TextEncoding::Utf8);
    assert_eq!(encoding_for_contents(Some(b"")), TextEncoding::Utf8);
    assert_eq!(encoding_for_contents(Some("\u{20ac}".as_bytes())), TextEncoding::Utf8);
    assert_eq!(encoding_for_contents(Some(b"caf\xE9")), TextEncoding::Windows1252);
    assert_eq!(encoding_for_contents(Some(b"\xFF\xFF\xFF")), TextEncoding::Windows1252);
}

#[test]
fn an_unreadable_file_counts_as_utf8() {
    assert_eq!(encoding_for_contents(None), TextEncoding::Utf8);
}

#[test]
fn only_the_front_of_the_file_is_looked_at() {
    let mut contents = vec![b'a'; 4096];
    contents.push(0xE9);
    assert_eq!(encoding_for_contents(Some(&contents)), TextEncoding::Utf8);
    contents[4095] = 0xE9;
    assert_eq!(encoding_for_contents(Some(&contents)), TextEncoding::Windows1252);
}
