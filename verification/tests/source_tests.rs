use preview_sync::geom::ByteRange;
use preview_sync::source::SourceBuffer;

fn buf(text: &str) -> SourceBuffer {
    SourceBuffer::new(text.as_bytes().to_vec(), 1)
}

#[test]
fn byte_to_line_counts_line_feeds() {
    let s = buf("ab\ncd\nef");
    assert_eq!(s.byte_to_line(0), Some(0));
    assert_eq!(s.byte_to_line(2), Some(0));
    assert_eq!(s.byte_to_line(3), Some(1));
    assert_eq!(s.byte_to_line(5), Some(1));
    assert_eq!(s.byte_to_line(6), Some(2));
    assert_eq!(s.byte_to_line(8), Some(2));
    assert_eq!(s.byte_to_line(9), None);
}

#[test]
fn byte_to_column_resets_at_line_feed() {
    let s = buf("ab\ncd");
    assert_eq!(s.byte_to_column(0), Some(0));
    assert_eq!(s.byte_to_column(1), Some(1));
    assert_eq!(s.byte_to_column(2), Some(2));
    assert_eq!(s.byte_to_column(3), Some(0));
    assert_eq!(s.byte_to_column(5), Some(2));
    assert_eq!(s.byte_to_column(6), None);
}

#[test]
fn line_column_to_byte_exact() {
    let s = buf("ab\ncd\nef");
    assert_eq!(s.line_column_to_byte(0, 0), Some(0));
    assert_eq!(s.line_column_to_byte(0, 1), Some(1));
    assert_eq!(s.line_column_to_byte(1, 0), Some(3));
    assert_eq!(s.line_column_to_byte(1, 1), Some(4));
    assert_eq!(s.line_column_to_byte(2, 1), Some(7));
}

#[test]
fn line_column_to_byte_clamps_to_line_end() {
    let s = buf("ab\ncd");
    // column past the end of a line stops at the line feed
    assert_eq!(s.line_column_to_byte(0, 10), Some(2));
    // and at the end of the text on the last line
    assert_eq!(s.line_column_to_byte(1, 10), Some(5));
}

#[test]
fn line_column_to_byte_rejects_missing_line() {
    let s = buf("ab\ncd");
    assert_eq!(s.line_column_to_byte(2, 0), None);
    assert_eq!(s.line_column_to_byte(9, 0), None);
}

#[test]
fn empty_text_has_one_line() {
    let s = buf("");
    assert_eq!(s.len_bytes(), 0);
    assert_eq!(s.byte_to_line(0), Some(0));
    assert_eq!(s.line_column_to_byte(0, 0), Some(0));
    assert_eq!(s.line_column_to_byte(1, 0), None);
}

#[test]
fn edited_range_covers_the_cursor_byte() {
    let s = buf("ab\ncd\nef");
    assert_eq!(s.edited_range_for_position(1, 1), ByteRange::new(4, 5));
    assert_eq!(s.edited_range_for_position(0, 0), ByteRange::new(0, 1));
    // column clamped to the line end lands on the line feed
    assert_eq!(s.edited_range_for_position(0, 99), ByteRange::new(2, 3));
}

#[test]
fn edited_range_falls_back_to_last_byte() {
    let s = buf("ab\ncd");
    // a line past the end of the text anchors at the last byte
    assert_eq!(s.edited_range_for_position(9, 0), ByteRange::new(4, 5));
    // empty text yields an empty range
    let empty = buf("");
    assert_eq!(empty.edited_range_for_position(9, 0), ByteRange::new(0, 0));
}

#[test]
fn byte_range_overlap_is_partial_overlap() {
    let a = ByteRange::new(2, 6);
    assert!(a.overlaps(&ByteRange::new(5, 9)));
    assert!(a.overlaps(&ByteRange::new(0, 3)));
    assert!(a.overlaps(&ByteRange::new(3, 4)));
    assert!(!a.overlaps(&ByteRange::new(6, 9)));
    assert!(!a.overlaps(&ByteRange::new(0, 2)));
    // empty ranges overlap nothing
    assert!(!a.overlaps(&ByteRange::new(4, 4)));
}

#[test]
fn byte_range_containment() {
    let a = ByteRange::new(2, 6);
    assert!(a.contains_range(&ByteRange::new(2, 6)));
    assert!(a.contains_range(&ByteRange::new(3, 4)));
    assert!(!a.contains_range(&ByteRange::new(1, 4)));
    assert!(!a.contains_range(&ByteRange::new(5, 7)));
}
