use core_x::frontend::ast::Span;
use core_x::frontend::source::{FileId, SourceFile};
use core_x::lsp::convert::{
    hex_value, is_ident_byte, offset_to_position, path_to_uri, percent_decode, percent_encode, position_to_offset,
    span_to_lsp_range, uri_to_path, word_span_at_position, LspPosition, LspRange,
};

fn file(text: &str) -> SourceFile {
    SourceFile::new(FileId::new(0), "mem.cx".to_string(), text.to_string())
}

fn pos(line: u32, character: u32) -> LspPosition {
    LspPosition { line, character }
}

#[test]
fn hex_value_reads_both_cases() {
    assert_eq!(hex_value(b'0'), Some(0));
    assert_eq!(hex_value(b'9'), Some(9));
    assert_eq!(hex_value(b'a'), Some(10));
    assert_eq!(hex_value(b'F'), Some(15));
    assert_eq!(hex_value(b'g'), None);
    assert_eq!(hex_value(b'%'), None);
}

#[test]
fn percent_encode_escapes_reserved_and_non_ascii_bytes() {
    assert_eq!(percent_encode("a-b_c.d/e"), "a-b_c.d/e");
    assert_eq!(percent_encode("a b"), "a%20b");
    assert_eq!(percent_encode("\u{fc}"), "%C3%BC");
    assert_eq!(percent_encode("100%"), "100%25");
}

#[test]
fn percent_decode_reads_escapes_and_rejects_bad_input() {
    assert_eq!(percent_decode("a%20b%2f").as_deref(), Some("a b/"));
    assert_eq!(percent_decode("%C3%BC").as_deref(), Some("\u{fc}"));
    assert_eq!(percent_decode("plain").as_deref(), Some("plain"));
    assert_eq!(percent_decode("%2"), None);
    assert_eq!(percent_decode("%zz"), None);
    assert_eq!(percent_decode("%FF"), None);
}

#[test]
fn percent_encoding_round_trips() {
    for text in ["", "/tmp/x y/\u{1f600}.cx", "%25 and %", "C:/dir/f\u{e9}"] {
        assert_eq!(percent_decode(&percent_encode(text)).as_deref(), Some(text));
    }
}

#[test]
fn uri_to_path_requires_file_scheme() {
    assert_eq!(uri_to_path("file:///tmp/a%20b.cx").as_deref(), Some("/tmp/a b.cx"));
    assert_eq!(uri_to_path("file://"), Some(String::new()));
    assert_eq!(uri_to_path("http://host/x"), None);
    assert_eq!(uri_to_path("file:///bad%"), None);
}

#[test]
fn path_to_uri_encodes_and_turns_backslashes_into_slashes() {
    assert_eq!(path_to_uri("/tmp/a b.cx"), "file:///tmp/a%20b.cx");
    assert_eq!(path_to_uri("C:\\work\\main.cx"), "file://C%3A/work/main.cx");
    assert_eq!(uri_to_path(&path_to_uri("/home/u/\u{e9}t\u{e9}.cx")).as_deref(), Some("/home/u/\u{e9}t\u{e9}.cx"));
}

#[test]
fn position_to_offset_counts_utf16_units() {
    let f = file("ab\ncd\u{1f600}e\n");
    assert_eq!(position_to_offset(&f, pos(0, 0)), Some(0));
    assert_eq!(position_to_offset(&f, pos(1, 2)), Some(5));
    assert_eq!(position_to_offset(&f, pos(1, 3)), Some(9));
    assert_eq!(position_to_offset(&f, pos(1, 4)), Some(9));
    assert_eq!(position_to_offset(&f, pos(1, 5)), Some(10));
    assert_eq!(position_to_offset(&f, pos(1, 100)), Some(11));
    assert_eq!(position_to_offset(&f, pos(2, 0)), Some(11));
    assert_eq!(position_to_offset(&f, pos(3, 0)), None);
}

#[test]
fn offset_to_position_counts_utf16_units_and_clamps() {
    let f = file("ab\ncd\u{1f600}e\n");
    assert_eq!(offset_to_position(&f, 0), pos(0, 0));
    assert_eq!(offset_to_position(&f, 2), pos(0, 2));
    assert_eq!(offset_to_position(&f, 3), pos(1, 0));
    assert_eq!(offset_to_position(&f, 9), pos(1, 4));
    assert_eq!(offset_to_position(&f, 100), pos(2, 0));
}

#[test]
fn span_to_lsp_range_converts_both_ends() {
    let f = file("fn main() {\n  x\n}\n");
    let r = span_to_lsp_range(&f, Span::new(3, 14));
    assert_eq!(r, LspRange { start: pos(0, 3), end: pos(1, 2) });
}

#[test]
fn word_span_finds_identifier_around_position() {
    let f = file("let value = 1;\n");
    let (word, span) = word_span_at_position(&f, pos(0, 6)).unwrap();
    assert_eq!(word, "value");
    assert_eq!(span, Span::new(4, 9));
    let (first, first_span) = word_span_at_position(&f, pos(0, 0)).unwrap();
    assert_eq!(first, "let");
    assert_eq!(first_span, Span::new(0, 3));
    assert!(word_span_at_position(&f, pos(0, 3)).is_none());
    assert!(word_span_at_position(&f, pos(5, 0)).is_none());
}

#[test]
fn word_span_past_end_uses_last_byte() {
    let f = file("abc");
    let (word, span) = word_span_at_position(&f, pos(0, 10)).unwrap();
    assert_eq!(word, "abc");
    assert_eq!(span, Span::new(0, 3));
    assert!(word_span_at_position(&file(""), pos(0, 0)).is_none());
    assert!(is_ident_byte(b'_'));
    assert!(!is_ident_byte(b'-'));
}

#[test]
fn offset_position_round_trip_on_character_boundaries() {
    let text = "fn a() {\n  \u{1f600}x = \u{e9};\n}\n";
    let f = file(text);
    for (offset, _) in text.char_indices() {
        let p = offset_to_position(&f, offset);
        assert_eq!(position_to_offset(&f, p), Some(offset));
    }
    let end = offset_to_position(&f, text.len());
    assert_eq!(position_to_offset(&f, end), Some(text.len()));
}
