use pytui_native::buffer::Buffer;
use pytui_native::cell::{cell_eq, cell_to_ansi_sgr, Cell};
use pytui_native::error::TuiError;

#[test]
fn init_and_dimensions() {
    let buf = Buffer::new(10, 10);
    assert_eq!(buf.get_width(), 10);
    assert_eq!(buf.get_height(), 10);
}

#[test]
fn clear_fills_with_default() {
    let mut buf = Buffer::new(5, 5);
    buf.clear();
    for y in 0..5 {
        for x in 0..5 {
            let cell = buf.get_cell(x, y).unwrap();
            assert_eq!(cell.char, " ");
        }
    }
}

#[test]
fn set_cell_get_cell() {
    let mut buf = Buffer::new(5, 5);
    let mut cell = Cell::new();
    cell.char = "H".to_string();
    cell.fg = (255, 0, 0, 255);
    buf.set_cell(0, 0, cell).unwrap();
    let got = buf.get_cell(0, 0).unwrap();
    assert_eq!(got.char, "H");
    assert_eq!(got.fg, (255, 0, 0, 255));
}

#[test]
fn draw_text_ascii() {
    let mut buf = Buffer::new(20, 5);
    buf.clear();
    buf.draw_text("Hello", 0, 0, (255, 255, 255, 255));
    assert_eq!(buf.get_cell(0, 0).unwrap().char, "H");
    assert_eq!(buf.get_cell(1, 0).unwrap().char, "e");
    assert_eq!(buf.get_cell(4, 0).unwrap().char, "o");
}

#[test]
fn fill_rect() {
    let mut buf = Buffer::new(10, 10);
    let mut cell = Cell::new();
    cell.char = "x".to_string();
    buf.fill_rect(2, 2, 3, 3, cell).unwrap();
    for dy in 0..3 {
        for dx in 0..3 {
            assert_eq!(buf.get_cell(2 + dx, 2 + dy).unwrap().char, "x");
        }
    }
}

#[test]
fn resize() {
    let mut buf = Buffer::new(5, 5);
    let mut cell = Cell::new();
    cell.char = "a".to_string();
    buf.set_cell(0, 0, cell).unwrap();
    buf.resize(10, 10).unwrap();
    assert_eq!(buf.get_width(), 10);
    assert_eq!(buf.get_height(), 10);
    assert_eq!(buf.get_cell(0, 0).unwrap().char, "a");
}

#[test]
fn diff_and_output_ansi_full_repaint() {
    let back = Buffer::new(3, 3);
    let front = Buffer::new(3, 3);
    let out = back.diff_and_output_ansi(&front, true).unwrap();
    assert!(out.contains("\x1b[H"));
    assert!(out.contains("\x1b[2J"));
}

#[test]
fn diff_and_output_ansi_differing_cell() {
    let mut back = Buffer::new(4, 4);
    let front = Buffer::new(4, 4);
    let mut cell = Cell::new();
    cell.char = "X".to_string();
    back.set_cell(1, 1, cell).unwrap();
    let out = back.diff_and_output_ansi(&front, false).unwrap();
    assert!(!out.is_empty());
    assert!(out.contains("X"));
}

#[test]
fn clear_with_bg() {
    let mut buf = Buffer::new(3, 3);
    buf.clear_with_bg(10, 20, 30, 255);
    let c = buf.get_cell(0, 0).unwrap();
    assert_eq!(c.bg, (10, 20, 30, 255));
    assert_eq!(c.char, " ");
}

#[test]
fn diff_of_equal_buffers_is_empty() {
    let mut a = Buffer::new(4, 3);
    let mut b = Buffer::new(4, 3);
    a.draw_text("abc", 1, 1, (1, 2, 3, 255));
    b.draw_text("abc", 1, 1, (1, 2, 3, 255));
    assert_eq!(a.diff_and_output_ansi(&b, false).unwrap(), "");
    b.draw_text("x", 3, 2, (1, 2, 3, 255));
    assert!(!a.diff_and_output_ansi(&b, false).unwrap().is_empty());
}

#[test]
fn full_repaint_writes_every_cell_even_when_equal() {
    let a = Buffer::new(2, 1);
    let b = Buffer::new(2, 1);
    let out = a.diff_and_output_ansi(&b, true).unwrap();
    assert_eq!(out, "\x1b[H\x1b[2J\x1b[1;1H\x1b[38;2;255;255;255m \x1b[1;2H ");
}

#[test]
fn diff_exact_bytes_with_style_accumulator() {
    let mut next = Buffer::new(3, 2);
    let cur = Buffer::new(3, 2);
    let mut red = Cell::new();
    red.char = "R".to_string();
    red.fg = (255, 0, 0, 255);
    red.bg = (0, 0, 255, 128);
    red.bold = true;
    next.set_cell(0, 0, red.clone()).unwrap();
    next.set_cell(2, 1, red).unwrap();
    let out = next.diff_and_output_ansi(&cur, false).unwrap();
    assert_eq!(out, "\x1b[1;1H\x1b[1;38;2;255;0;0;48;2;0;0;255mR\x1b[2;3HR");
}

#[test]
fn sgr_reset_when_no_parameters() {
    let mut c = Cell::new();
    c.fg = (9, 9, 9, 0);
    let mut out = String::new();
    cell_to_ansi_sgr(&c, &mut out);
    assert_eq!(out, "\x1b[0m");
    c.italic = true;
    c.underline = true;
    let mut out2 = String::new();
    cell_to_ansi_sgr(&c, &mut out2);
    assert_eq!(out2, "\x1b[3;4m");
}

#[test]
fn diff_dimension_mismatch() {
    let a = Buffer::new(2, 2);
    let b = Buffer::new(3, 2);
    assert_eq!(a.diff_and_output_ansi(&b, false), Err(TuiError::Dimension));
}

#[test]
fn get_and_set_out_of_bounds() {
    let mut buf = Buffer::new(2, 2);
    assert_eq!(buf.get_cell(2, 0).err(), Some(TuiError::Bounds));
    assert_eq!(buf.set_cell(0, 2, Cell::new()), Err(TuiError::Bounds));
}

#[test]
fn resize_keeps_overlap_and_defaults_rest() {
    let mut buf = Buffer::new(3, 3);
    buf.draw_text("abc", 0, 0, (1, 1, 1, 255));
    buf.draw_text("def", 0, 2, (1, 1, 1, 255));
    buf.resize(2, 4).unwrap();
    assert_eq!(buf.get_cell(1, 0).unwrap().char, "b");
    assert_eq!(buf.get_cell(1, 2).unwrap().char, "e");
    let fresh = buf.get_cell(1, 3).unwrap();
    assert!(cell_eq(&fresh, &Cell::new()));
    assert_eq!(buf.resize(0, 3), Err(TuiError::Dimension));
    assert_eq!(buf.get_width(), 2);
}

#[test]
fn draw_text_truncates_at_right_edge() {
    let mut buf = Buffer::new(4, 2);
    buf.draw_text("abcdef", 2, 1, (7, 7, 7, 255));
    assert_eq!(buf.get_cell(2, 1).unwrap().char, "a");
    assert_eq!(buf.get_cell(3, 1).unwrap().char, "b");
    assert_eq!(buf.get_cell(3, 1).unwrap().fg, (7, 7, 7, 255));
    assert_eq!(buf.get_cell(1, 1).unwrap().char, " ");
}

#[test]
fn fill_rect_clamps_and_ignores_outside() {
    let mut buf = Buffer::new(4, 4);
    let mut cell = Cell::new();
    cell.char = "#".to_string();
    buf.fill_rect(3, 3, 10, 10, cell.clone()).unwrap();
    assert_eq!(buf.get_cell(3, 3).unwrap().char, "#");
    assert_eq!(buf.get_cell(2, 3).unwrap().char, " ");
    buf.fill_rect(9, 9, 2, 2, cell).unwrap();
}
