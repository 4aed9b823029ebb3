use claim_core::address::validate_address;

#[test]
fn accepts_prefixed_lowercase_address() {
    assert!(validate_address("0x0123456789abcdef0123456789abcdef01234567"));
}

#[test]
fn accepts_prefixed_mixed_case_address() {
    assert!(validate_address("0x0123456789ABCDEF0123456789abcdef01234567"));
}

#[test]
fn accepts_bare_forty_hex_digits() {
    assert!(validate_address("0123456789abcdef0123456789abcdef01234567"));
}

#[test]
fn rejects_plain_words() {
    assert!(!validate_address("not-an-address"));
}

#[test]
fn rejects_empty_string() {
    assert!(!validate_address(""));
}

#[test]
fn rejects_too_short_address() {
    assert!(!validate_address("0x0123456789abcdef"));
}

#[test]
fn rejects_too_long_address() {
    assert!(!validate_address("0x0123456789abcdef0123456789abcdef012345678"));
}

#[test]
fn rejects_non_hex_character() {
    assert!(!validate_address("0x0123456789abcdef0123456789abcdef0123456g"));
}

#[test]
fn rejects_wrong_prefix_of_right_length() {
    assert!(!validate_address("1x0123456789abcdef0123456789abcdef01234567"));
    assert!(!validate_address("0y0123456789abcdef0123456789abcdef01234567"));
}

#[test]
fn rejects_non_ascii_text() {
    assert!(!validate_address("0x0123456789abcdef0123456789abcdef0123456\u{00e9}"));
}
