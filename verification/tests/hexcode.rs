use nautilus_oracle::hexcode::{from_hex, to_hex};

#[test]
fn bytes_become_lowercase_digits() {
    assert_eq!(to_hex(&[]), "");
    assert_eq!(to_hex(&[1, 2, 3, 15, 16]), "0102030f10");
    assert_eq!(to_hex(&[0x00, 0xff, 0xa5]), "00ffa5");
    assert_eq!(to_hex("Hello world!".as_bytes()), "48656c6c6f20776f726c6421");
}

#[test]
fn digits_of_either_case_become_bytes() {
    assert_eq!(from_hex(""), Some(vec![]));
    assert_eq!(from_hex("0102030f10"), Some(vec![1, 2, 3, 15, 16]));
    assert_eq!(from_hex("f9b4ca"), Some(vec![0xf9, 0xb4, 0xca]));
    assert_eq!(from_hex("F9B4CA"), Some(vec![0xf9, 0xb4, 0xca]));
    assert_eq!(from_hex("f9B4Ca"), Some(vec![0xf9, 0xb4, 0xca]));
}

#[test]
fn anything_else_is_refused() {
    assert_eq!(from_hex("123"), None);
    assert_eq!(from_hex("foo"), None);
    assert_eq!(from_hex("0g"), None);
    assert_eq!(from_hex(" 00"), None);
    assert_eq!(from_hex("0x00"), None);
    // two bytes in UTF-8, one character
    assert_eq!(from_hex("é"), None);
    assert_eq!(from_hex("éé"), None);
    assert_eq!(from_hex("0é0"), None);
}

#[test]
fn hex_text_reads_back() {
    let all: Vec<u8> = (0..=255).collect();
    let text = to_hex(&all);
    assert_eq!(text.len(), 512);
    assert_eq!(from_hex(&text), Some(all));
}
