use sdaa_ctrl::text::parse_byte;

#[test]
fn decimal_bytes() {
    assert_eq!(parse_byte("0"), Some(0));
    assert_eq!(parse_byte("255"), Some(255));
    assert_eq!(parse_byte("+17"), Some(17));
    assert_eq!(parse_byte("007"), Some(7));
    assert_eq!(parse_byte("256"), None);
    assert_eq!(parse_byte("99999999999999999999999"), None);
}

#[test]
fn hexadecimal_bytes() {
    assert_eq!(parse_byte("0x00"), Some(0));
    assert_eq!(parse_byte("0xff"), Some(255));
    assert_eq!(parse_byte("0XeE"), Some(0xee));
    assert_eq!(parse_byte("0x5e"), Some(0x5e));
    assert_eq!(parse_byte("0x100"), None);
    assert_eq!(parse_byte("0x"), None);
}

#[test]
fn malformed_bytes() {
    assert_eq!(parse_byte(""), None);
    assert_eq!(parse_byte("+"), None);
    assert_eq!(parse_byte("ff"), None);
    assert_eq!(parse_byte("1 2"), None);
    assert_eq!(parse_byte("-1"), None);
    assert_eq!(parse_byte("999x"), None);
}
