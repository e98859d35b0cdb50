use pytui_native::utf8;

#[test]
fn is_ascii_only_empty_string() {
    assert!(!utf8::is_ascii_only(b""));
}

#[test]
fn is_ascii_only_simple_ascii() {
    assert!(utf8::is_ascii_only(b"Hello, World!"));
    assert!(utf8::is_ascii_only(b"The quick brown fox"));
    assert!(utf8::is_ascii_only(b"0123456789"));
}

#[test]
fn is_ascii_only_control_chars_rejected() {
    assert!(!utf8::is_ascii_only(b"Hello\tWorld"));
    assert!(!utf8::is_ascii_only(b"Hello\nWorld"));
    assert!(!utf8::is_ascii_only(b"\x00"));
}

#[test]
fn is_ascii_only_unicode_rejected() {
    assert!(!utf8::is_ascii_only("Hello 👋".as_bytes()));
    assert!(!utf8::is_ascii_only("café".as_bytes()));
}

#[test]
fn find_line_breaks_lf() {
    let breaks = utf8::find_line_breaks(b"a\nb\nc");
    assert_eq!(breaks.len(), 2);
    assert_eq!(breaks[0].pos, 1);
    assert!(matches!(breaks[0].kind, utf8::LineBreakKind::Lf));
    assert_eq!(breaks[1].pos, 3);
}

#[test]
fn get_width_at_ascii() {
    let w = utf8::get_width_at(b"x", 0, 8, utf8::WidthMethod::Wcwidth);
    assert_eq!(w, 1);
}

#[test]
fn find_line_breaks_mixed() {
    let breaks = utf8::find_line_breaks(b"a\r\nb\rc\n\r");
    let got: Vec<(usize, utf8::LineBreakKind)> = breaks.iter().map(|b| (b.pos, b.kind)).collect();
    assert_eq!(
        got,
        vec![
            (2, utf8::LineBreakKind::Crlf),
            (4, utf8::LineBreakKind::Cr),
            (6, utf8::LineBreakKind::Lf),
            (7, utf8::LineBreakKind::Cr),
        ]
    );
}

#[test]
fn decode_code_points() {
    assert_eq!(utf8::decode_utf8_unchecked(b"A", 0), (65, 1));
    assert_eq!(utf8::decode_utf8_unchecked("é".as_bytes(), 0), (0xE9, 2));
    assert_eq!(utf8::decode_utf8_unchecked("€".as_bytes(), 0), (0x20AC, 3));
    assert_eq!(utf8::decode_utf8_unchecked("👋".as_bytes(), 0), (0x1F44B, 4));
    assert_eq!(utf8::decode_utf8_unchecked(&[0xE2, 0x82], 0), (0xFFFD, 1));
    assert_eq!(utf8::decode_utf8_unchecked(b"A", 3), (0xFFFD, 1));
}

#[test]
fn text_width_counts_tabs_and_wide_chars() {
    assert_eq!(utf8::calculate_text_width(b"a\tb", 4, false, utf8::WidthMethod::Wcwidth), 6);
    assert_eq!(utf8::calculate_text_width("日本".as_bytes(), 4, false, utf8::WidthMethod::Unicode), 4);
    assert_eq!(utf8::calculate_text_width(b"", 4, true, utf8::WidthMethod::NoZwj), 0);
    assert_eq!(utf8::get_width_at("日".as_bytes(), 0, 8, utf8::WidthMethod::Wcwidth), 2);
    assert_eq!(utf8::get_width_at(b"\x07", 0, 8, utf8::WidthMethod::Wcwidth), 1);
    assert_eq!(utf8::get_width_at(b"x", 5, 8, utf8::WidthMethod::Wcwidth), 0);
}

#[test]
fn text_width_is_additive_and_ascii_is_length() {
    let a = "日a\t".as_bytes();
    let b = b"xyz";
    let mut ab = a.to_vec();
    ab.extend_from_slice(b);
    let w = |t: &[u8]| utf8::calculate_text_width(t, 3, false, utf8::WidthMethod::Wcwidth);
    assert_eq!(w(&ab), w(a) + w(b));
    assert_eq!(w(a), 6);
    assert_eq!(w(b"Hello, World!"), 13);
}
