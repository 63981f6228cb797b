use kunai::text::{bytes_to_string, num_to_hex, to_ascii, with_count};

#[test]
fn utf8_values_show_as_text() {
    assert_eq!(bytes_to_string(b"hello".to_vec()), "hello");
    assert_eq!(bytes_to_string("h\u{e9}".as_bytes().to_vec()), "h\u{e9}");
    assert_eq!(bytes_to_string(b"".to_vec()), "");
}

#[test]
fn other_values_show_byte_by_byte() {
    assert_eq!(bytes_to_string(b"\x00A \xff\x7f".to_vec()), "NULASPACE\0DEL");
    assert_eq!(bytes_to_string(b"\x09\x0a\x1f\x80".to_vec()), "TABLFUS\0");
}

#[test]
fn single_byte_names() {
    assert_eq!(to_ascii(0), "NUL");
    assert_eq!(to_ascii(13), "CR");
    assert_eq!(to_ascii(32), "SPACE");
    assert_eq!(to_ascii(33), "!");
    assert_eq!(to_ascii(126), "~");
    assert_eq!(to_ascii(127), "DEL");
    assert_eq!(to_ascii(200), "\0");
}

#[test]
fn addresses_in_hex() {
    assert_eq!(num_to_hex(0), "0");
    assert_eq!(num_to_hex(255), "ff");
    assert_eq!(num_to_hex(0x7ffffe15a000), "7ffffe15a000");
}

#[test]
fn counts_in_decimal() {
    assert_eq!(with_count("Found ", 0, "!"), "Found 0!");
    assert_eq!(with_count("", 1203, " x"), "1203 x");
}
