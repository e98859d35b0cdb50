use pytui_native::error::TuiError;
use pytui_native::rope::{Rope, TextBuffer};

#[test]
fn init_empty() {
    let rope = Rope::new();
    assert_eq!(rope.count(), 0);
}

#[test]
fn from_str_creates_rope() {
    let rope = Rope::from_str("abc");
    assert_eq!(rope.count(), 3);
    assert_eq!(rope.slice(0, 3), "abc");
}

#[test]
fn insert_at_beginning() {
    let mut rope = Rope::from_str("bc");
    rope.insert(0, "a");
    assert_eq!(rope.to_string(), "abc");
}

#[test]
fn delete_range() {
    let mut rope = Rope::from_str("hello");
    rope.delete_range(1, 4);
    assert_eq!(rope.to_string(), "ho");
}

#[test]
fn get_out_of_bounds_returns_none() {
    let rope = Rope::from_str("x");
    assert!(rope.get(100).is_none());
}

#[test]
fn rope_edges_are_ignored() {
    let mut rope = Rope::from_str("héllo");
    rope.insert(9, "zz");
    rope.delete_range(3, 3);
    rope.delete_range(2, 9);
    assert_eq!(rope.to_string(), "héllo");
    assert_eq!(rope.get(1), Some("é".to_string()));
    assert_eq!(rope.slice(3, 99), "lo");
    assert_eq!(rope.slice(4, 2), "");
}

#[test]
fn text_buffer_edits_and_lines() {
    let mut tb = TextBuffer::new(Some("one\ntwo"));
    assert_eq!(tb.len_chars(), 7);
    assert_eq!(tb.len_lines(), 2);
    assert_eq!(tb.line(0).unwrap(), "one\n");
    assert_eq!(tb.line(1).unwrap(), "two");
    assert_eq!(tb.line(2), Err(TuiError::Bounds));
    tb.insert(3, "!").unwrap();
    assert_eq!(tb.to_string(), "one!\ntwo");
    assert_eq!(tb.insert(99, "x"), Err(TuiError::Bounds));
    tb.delete(0, 4).unwrap();
    assert_eq!(tb.to_string(), "\ntwo");
    assert_eq!(tb.delete(3, 2), Err(TuiError::Bounds));
    let empty = TextBuffer::new(None);
    assert_eq!(empty.len_chars(), 0);
}
