use core_x::frontend::ast::Span;
use core_x::frontend::source::{FileId, LineCol, LineIndex, SourceDb, SourceFile};

#[test]
fn line_index_maps_offsets_to_lines() {
    let index = LineIndex::new("ab\ncd\n\nx");
    assert_eq!(index.line_starts(), &[0, 3, 6, 7]);
    assert_eq!(index.line_count(), 4);
    assert_eq!(index.line_start(2), Some(6));
    assert_eq!(index.line_start(4), None);
    assert_eq!(index.line_col(0), Some(LineCol { line: 0, column: 0 }));
    assert_eq!(index.line_col(2), Some(LineCol { line: 0, column: 2 }));
    assert_eq!(index.line_col(3), Some(LineCol { line: 1, column: 0 }));
    assert_eq!(index.line_col(6), Some(LineCol { line: 2, column: 0 }));
    assert_eq!(index.line_col(8), Some(LineCol { line: 3, column: 1 }));
    assert_eq!(index.line_col(9), None);
}

#[test]
fn empty_source_has_one_line() {
    let index = LineIndex::new("");
    assert_eq!(index.line_count(), 1);
    assert_eq!(index.line_col(0), Some(LineCol { line: 0, column: 0 }));
    assert_eq!(index.line_col(1), None);
}

#[test]
fn source_file_slices_on_char_boundaries() {
    let file = SourceFile::new(FileId::new(3), "a.cx".to_string(), "héllo\nworld".to_string());
    assert_eq!(file.id(), FileId::new(3));
    assert_eq!(file.path(), "a.cx");
    assert_eq!(file.len(), 12);
    assert!(!file.is_empty());
    assert_eq!(file.slice(Span::new(0, 1)), Some("h"));
    assert_eq!(file.slice(Span::new(1, 3)), Some("é"));
    assert_eq!(file.slice(Span::new(1, 2)), None);
    assert_eq!(file.slice(Span::new(3, 2)), None);
    assert_eq!(file.slice(Span::new(7, 13)), None);
    assert_eq!(file.slice(Span::new(7, 12)), Some("world"));
    assert_eq!(file.line_col(8), Some(LineCol { line: 1, column: 1 }));
    assert_eq!(file.line_index().line_count(), 2);
}

#[test]
fn source_db_assigns_sequential_ids_and_updates_in_place() {
    let mut db = SourceDb::new();
    assert!(db.is_empty());
    let a = db.add_file("a.cx".to_string(), "fn a() {}".to_string());
    let b = db.add_file("b.cx".to_string(), "fn b() {}".to_string());
    assert_eq!(a.raw(), 0);
    assert_eq!(b.raw(), 1);
    assert_eq!(db.len(), 2);
    assert_eq!(db.file(b).unwrap().source(), "fn b() {}");
    assert!(db.file(FileId::new(2)).is_none());
    assert!(db.update_file_source(a, "fn c() {}\n".to_string()));
    assert_eq!(db.file(a).unwrap().source(), "fn c() {}\n");
    assert_eq!(db.file(a).unwrap().path(), "a.cx");
    assert_eq!(db.file(a).unwrap().line_index().line_count(), 2);
    assert!(!db.update_file_source(FileId::new(9), String::new()));
    assert_eq!(db.files().len(), 2);
    assert!(db.file_mut(b).is_some());
    assert!(db.file_mut(FileId::new(5)).is_none());
}

#[test]
fn file_ids_stay_their_positions_across_adds_and_updates() {
    let mut db = SourceDb::new();
    let a = db.add_file("/a.cx".to_string(), "one".to_string());
    let b = db.add_file("/b.cx".to_string(), "two".to_string());
    assert!(db.update_file_source(a, "uno".to_string()));
    assert!(!db.update_file_source(FileId::new(9), "x".to_string()));
    for (i, f) in db.files().iter().enumerate() {
        assert_eq!(f.id(), FileId::new(i as u32));
        assert_eq!(db.file(FileId::new(i as u32)).map(|g| g.id()), Some(FileId::new(i as u32)));
    }
    assert_eq!(db.file(a).map(|f| f.source()), Some("uno"));
    assert_eq!(db.file(b).map(|f| f.source()), Some("two"));
    assert!(db.file(FileId::new(2)).is_none());
}
