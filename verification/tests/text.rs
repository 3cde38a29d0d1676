use live_ocr_translator::text::{clean_text, is_whitespace_char};

#[test]
fn clean_text_joins_lines() {
    assert_eq!(clean_text("first line\nsecond line"), "first line second line");
}

#[test]
fn clean_text_collapses_and_trims_whitespace() {
    assert_eq!(clean_text("  a \t\t b\n\n c  "), "a b c");
    assert_eq!(clean_text("x\u{00a0}y\u{2003}z\u{3000}"), "x y z");
}

#[test]
fn clean_text_escapes_quotes() {
    assert_eq!(clean_text("he said \"hi\""), "he said \\\"hi\\\"");
    assert_eq!(clean_text("\""), "\\\"");
}

#[test]
fn clean_text_of_blank_text_is_empty() {
    assert_eq!(clean_text(""), "");
    assert_eq!(clean_text(" \n\t \r "), "");
}

#[test]
fn clean_text_keeps_non_ascii_words() {
    assert_eq!(clean_text("Übersetzung\nmöchte  日本語"), "Übersetzung möchte 日本語");
}

#[test]
fn clean_text_is_idempotent_without_quotes() {
    let once = clean_text("  some\n\tOCR   output \u{2028} here ");
    assert_eq!(once, "some OCR output here");
    assert_eq!(clean_text(&once), once);
}

#[test]
fn clean_text_is_single_spaced() {
    let out = clean_text("\n a\n\n\nb \u{85} c\u{1680}d ");
    assert!(!out.starts_with(' ') && !out.ends_with(' '));
    assert!(!out.contains("  "));
    assert!(out.chars().all(|c| c == ' ' || !c.is_whitespace()));
}

#[test]
fn clean_text_quotes_are_always_escaped() {
    let out = clean_text("\"a\" \\\" \"\"");
    let chars: Vec<char> = out.chars().collect();
    for (i, c) in chars.iter().enumerate() {
        if *c == '"' {
            assert!(i > 0 && chars[i - 1] == '\\');
        }
    }
}

#[test]
fn whitespace_set_matches_std() {
    for u in 0u32..0x3100 {
        if let Some(c) = char::from_u32(u) {
            assert_eq!(is_whitespace_char(c), c.is_whitespace(), "code point {:x}", u);
        }
    }
}
