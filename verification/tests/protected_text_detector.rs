use core1_etb::core2::protected_text_detector::is_protected_transport_text;

#[test]
fn detects_transport_tokens() {
    assert!(is_protected_transport_text("http://example.com/東京/沖縄"));
    assert!(is_protected_transport_text("https://example.com"));
    assert!(is_protected_transport_text("ftp://server/path"));
    assert!(is_protected_transport_text("file://server/share"));
    assert!(is_protected_transport_text("mailto:test@example.com"));
    assert!(is_protected_transport_text("www.example.com/東京"));
    assert!(is_protected_transport_text("test+東京@example.com"));
    assert!(is_protected_transport_text("C:\\案件\\東京\\file.xlsx"));
    assert!(is_protected_transport_text("\\\\server\\share\\東京"));
    assert!(is_protected_transport_text("#Sheet1!A1"));
    assert!(is_protected_transport_text("=HYPERLINK(\"http://example.com/東京\",\"東京\")"));
}

#[test]
fn does_not_detect_normal_text() {
    assert!(!is_protected_transport_text("東京設備"));
    assert!(!is_protected_transport_text("ABC東京DEF"));
    assert!(!is_protected_transport_text("=IF(A1>0,\"東京\",\"大阪\")"));
}

#[test]
fn blank_text_is_not_protected() {
    assert!(!is_protected_transport_text(""));
    assert!(!is_protected_transport_text("   \u{3000}"));
}

#[test]
fn email_edge_cases() {
    assert!(is_protected_transport_text("  a@b.c  "));
    assert!(!is_protected_transport_text("@b.c"));
    assert!(!is_protected_transport_text("a@"));
    assert!(!is_protected_transport_text("a@.bc"));
    assert!(!is_protected_transport_text("a@bc."));
    assert!(!is_protected_transport_text("a@bc"));
    assert!(!is_protected_transport_text("a b@c.d"));
}

#[test]
fn scheme_match_ignores_ascii_case() {
    assert!(is_protected_transport_text("HTTP://EXAMPLE.COM"));
    assert!(is_protected_transport_text("WWW.example.com"));
    assert!(is_protected_transport_text("=hyperlink(A1)"));
    assert!(is_protected_transport_text("d:/data"));
    assert!(!is_protected_transport_text("1:/data"));
}
