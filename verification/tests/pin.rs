use station_shell::pin::{digest_matches, matches_pin};

const LINES: &str = "911169ddaaf146aff539f58c26c489af3b892dff0fe283c1c264c65ae5aa59a2";

#[test]
fn a_pinned_file_is_recognized_whatever_its_line_ends() {
    assert!(matches_pin("a\nb\n", LINES));
    assert!(matches_pin("a\r\nb\r\n", LINES));
    assert!(matches_pin("a\r\nb\n", LINES));
    assert!(matches_pin(
        "é",
        "4a99557e4033c3539de2eb65472017cad5f9557f7a0625a09f1c3f6e2ba69c4c"
    ));
}

#[test]
fn a_drifted_file_is_not() {
    assert!(!matches_pin("a\nb", LINES));
    assert!(!matches_pin("a\rb\n", LINES));
    assert!(!matches_pin("a\nb\n", &LINES.to_uppercase()));
    assert!(!matches_pin("a\nb\n", &LINES[..63]));
}

#[test]
fn a_digest_is_compared_as_hex() {
    assert!(digest_matches(&[0x00, 0xff, 0x1a], "00ff1a"));
    assert!(!digest_matches(&[0x00, 0xff, 0x1a], "00ff1A"));
    assert!(digest_matches(&[], ""));
}
