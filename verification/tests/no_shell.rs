//! Whole identifiers are searched for, and not parts of them.

#[test]
fn identifier_matching_does_not_fire_on_substrings() {
    assert!(contains_identifier("unsafe { CreateProcessW(...) }", "CreateProcessW"));
    assert!(!contains_identifier("CreateProcessAsUserW(token, ...)", "CreateProcessA"));
    assert!(!contains_identifier("MyCreateProcessW()", "CreateProcessW"));
    assert!(contains_identifier("CreateProcessW", "CreateProcessW"));
    assert!(!contains_identifier("", "CreateProcessW"));
}

fn contains_identifier(haystack: &str, pattern: &str) -> bool {
    let bytes = haystack.as_bytes();
    let mut from = 0;
    while let Some(offset) = haystack[from..].find(pattern) {
        let start = from + offset;
        let end = start + pattern.len();
        let before_ok = start == 0 || !is_identifier_byte(bytes[start - 1]);
        let after_ok = end == bytes.len() || !is_identifier_byte(bytes[end]);
        if before_ok && after_ok {
            return true;
        }
        from = start + 1;
    }
    false
}

fn is_identifier_byte(byte: u8) -> bool {
    byte.is_ascii_alphanumeric() || byte == b'_'
}
