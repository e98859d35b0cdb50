use pytui_native::error::TuiError;
use pytui_native::renderer::CliRenderer;

#[test]
fn create_and_dimensions() {
    let r = CliRenderer::new(80, 24).unwrap();
    assert_eq!(r.get_width(), 80);
    assert_eq!(r.get_height(), 24);
}

#[test]
fn get_next_buffer_draw_then_render() {
    let mut r = CliRenderer::new(80, 24).unwrap();
    r.get_next_buffer().draw_text("Hi", 0, 0, (255, 255, 255, 255));
    let out = r.render(false).unwrap();
    assert!(!out.is_empty());
    let cell = r.get_current_buffer().get_cell(0, 0).unwrap();
    assert_eq!(cell.char, "H");
    let cell1 = r.get_current_buffer().get_cell(1, 0).unwrap();
    assert_eq!(cell1.char, "i");
}

#[test]
fn multi_line_rendering() {
    let mut r = CliRenderer::new(80, 24).unwrap();
    r.get_next_buffer().draw_text("L1", 0, 0, (255, 255, 255, 255));
    r.get_next_buffer().draw_text("L2", 0, 1, (255, 255, 255, 255));
    r.get_next_buffer().draw_text("L3", 0, 2, (255, 255, 255, 255));
    r.render(false).unwrap();
    let current = r.get_current_buffer();
    assert_eq!(current.get_cell(0, 0).unwrap().char, "L");
    assert_eq!(current.get_cell(0, 1).unwrap().char, "L");
    assert_eq!(current.get_cell(0, 2).unwrap().char, "L");
}

#[test]
fn hit_grid_add_and_check_hit() {
    let mut r = CliRenderer::new(20, 10).unwrap();
    r.add_to_hit_grid(2, 1, 5, 3, 42);
    r.render(false).unwrap();
    assert_eq!(r.check_hit(3, 2), 42);
    assert_eq!(r.check_hit(2, 1), 42);
    assert_eq!(r.check_hit(0, 0), 0);
    assert_eq!(r.check_hit(100, 100), 0);
}

#[test]
fn hit_grid_later_overwrites_earlier() {
    let mut r = CliRenderer::new(20, 10).unwrap();
    r.add_to_hit_grid(0, 0, 10, 5, 1);
    r.add_to_hit_grid(3, 2, 4, 2, 2);
    r.render(false).unwrap();
    assert_eq!(r.check_hit(1, 1), 1);
    assert_eq!(r.check_hit(4, 3), 2);
    assert_eq!(r.check_hit(5, 3), 2);
}

#[test]
fn hit_grid_clear_current() {
    let mut r = CliRenderer::new(10, 10).unwrap();
    r.add_to_hit_grid(0, 0, 5, 5, 7);
    r.render(false).unwrap();
    assert_eq!(r.check_hit(2, 2), 7);
    r.clear_current_hit_grid();
    assert_eq!(r.check_hit(2, 2), 0);
}

#[test]
fn hit_grid_scissor_clips() {
    let mut r = CliRenderer::new(20, 10).unwrap();
    r.hit_grid_push_scissor_rect(2, 1, 8, 5);
    r.add_to_hit_grid(0, 0, 20, 10, 1);
    r.render(false).unwrap();
    assert_eq!(r.check_hit(0, 0), 0);
    assert_eq!(r.check_hit(5, 3), 1);
    r.hit_grid_pop_scissor_rect();
}

#[test]
fn hit_grid_clear_scissor_rects() {
    let mut r = CliRenderer::new(10, 10).unwrap();
    r.hit_grid_push_scissor_rect(0, 0, 5, 5);
    r.hit_grid_clear_scissor_rects();
    r.add_to_hit_grid(0, 0, 10, 10, 1);
    r.render(false).unwrap();
    assert_eq!(r.check_hit(7, 7), 1);
}

#[test]
fn tests_resize() {
    let mut r = CliRenderer::new(10, 10).unwrap();
    r.resize(20, 15).unwrap();
    assert_eq!(r.get_width(), 20);
    assert_eq!(r.get_height(), 15);
}

#[test]
fn debug_overlay_set_and_get() {
    let mut r = CliRenderer::new(80, 24).unwrap();
    let (enabled, corner) = r.get_debug_overlay();
    assert!(!enabled);
    assert_eq!(corner, 3);
    r.set_debug_overlay(true, 0).unwrap();
    let (enabled, corner) = r.get_debug_overlay();
    assert!(enabled);
    assert_eq!(corner, 0);
    r.set_debug_overlay(false, 2).unwrap();
    let (enabled, corner) = r.get_debug_overlay();
    assert!(!enabled);
    assert_eq!(corner, 2);
}

#[test]
fn debug_overlay_rejects_unknown_corner() {
    let mut r = CliRenderer::new(4, 4).unwrap();
    assert_eq!(r.set_debug_overlay(true, 4), Err(TuiError::InvalidArgument));
    assert_eq!(r.get_debug_overlay(), (false, 3));
}

#[test]
fn zero_dimensions_are_rejected() {
    assert!(matches!(CliRenderer::new(0, 5), Err(TuiError::Dimension)));
    let mut r = CliRenderer::new(3, 3).unwrap();
    assert_eq!(r.resize(3, 0), Err(TuiError::Dimension));
    assert_eq!(r.get_height(), 3);
}

#[test]
fn first_render_is_full_repaint_then_incremental() {
    let mut r = CliRenderer::new(2, 1).unwrap();
    let first = r.render(false).unwrap();
    assert!(first.starts_with("\x1b[H\x1b[2J"));
    assert_eq!(first, "\x1b[H\x1b[2J\x1b[1;1H\x1b[38;2;255;255;255m \x1b[1;2H ");
    let second = r.render(true).unwrap();
    assert_eq!(second, "");
}

#[test]
fn hit_overlap_overwrites_only_overlap() {
    let mut r = CliRenderer::new(20, 10).unwrap();
    r.add_to_hit_grid(2, 1, 5, 3, 42);
    r.add_to_hit_grid(5, 2, 5, 5, 9);
    r.render(false).unwrap();
    assert_eq!(r.check_hit(2, 1), 42);
    assert_eq!(r.check_hit(4, 3), 42);
    assert_eq!(r.check_hit(5, 2), 9);
    assert_eq!(r.check_hit(9, 6), 9);
    assert_eq!(r.check_hit(1, 1), 0);
}

#[test]
fn scissor_inside_and_outside() {
    let mut r = CliRenderer::new(20, 10).unwrap();
    r.hit_grid_push_scissor_rect(2, 1, 8, 5);
    r.add_to_hit_grid(0, 0, 20, 10, 1);
    r.render(false).unwrap();
    assert_eq!(r.check_hit(2, 1), 1);
    assert_eq!(r.check_hit(9, 5), 1);
    assert_eq!(r.check_hit(10, 5), 0);
    assert_eq!(r.check_hit(9, 6), 0);
    assert_eq!(r.check_hit(1, 3), 0);
}

#[test]
fn nested_scissors_intersect_and_reset_each_frame() {
    let mut r = CliRenderer::new(10, 10).unwrap();
    r.hit_grid_push_scissor_rect(0, 0, 5, 5);
    r.hit_grid_push_scissor_rect(3, 3, 5, 5);
    r.add_to_hit_grid(0, 0, 10, 10, 4);
    r.render(false).unwrap();
    assert_eq!(r.check_hit(3, 3), 4);
    assert_eq!(r.check_hit(4, 4), 4);
    assert_eq!(r.check_hit(5, 5), 0);
    assert_eq!(r.check_hit(2, 2), 0);
    r.add_to_hit_grid(0, 0, 10, 10, 6);
    r.render(false).unwrap();
    assert_eq!(r.check_hit(8, 8), 6);
}

#[test]
fn disjoint_scissor_blocks_everything() {
    let mut r = CliRenderer::new(10, 10).unwrap();
    r.hit_grid_push_scissor_rect(0, 0, 2, 2);
    r.hit_grid_push_scissor_rect(5, 5, 2, 2);
    r.add_to_hit_grid(0, 0, 10, 10, 3);
    r.render(false).unwrap();
    assert_eq!(r.check_hit(0, 0), 0);
    assert_eq!(r.check_hit(5, 5), 0);
}

#[test]
fn negative_hit_rect_is_clipped() {
    let mut r = CliRenderer::new(5, 5).unwrap();
    r.add_to_hit_grid(-3, -3, 5, 5, 8);
    r.render(false).unwrap();
    assert_eq!(r.check_hit(0, 0), 8);
    assert_eq!(r.check_hit(1, 1), 8);
    assert_eq!(r.check_hit(2, 2), 0);
}

#[test]
fn render_clears_next_to_background() {
    let mut r = CliRenderer::new(3, 2).unwrap();
    r.set_background_color(1, 2, 3, 4);
    r.get_next_buffer().draw_text("ab", 0, 0, (9, 9, 9, 255));
    r.render(false).unwrap();
    let c = r.get_next_buffer().get_cell(0, 0).unwrap();
    assert_eq!(c.char, " ");
    assert_eq!(c.bg, (1, 2, 3, 4));
}

#[test]
fn render_offset_round_trip() {
    let mut r = CliRenderer::new(3, 2).unwrap();
    assert_eq!(r.get_render_offset(), 0);
    r.set_render_offset(7);
    assert_eq!(r.get_render_offset(), 7);
}

#[test]
fn stdout_dump_text_before_and_after_render() {
    let mut r = CliRenderer::new(10, 5).unwrap();
    assert_eq!(
        r.stdout_dump_text(-3),
        "Stdout Buffer Output (timestamp: -3):\nLast Rendered ANSI Output:\n================\n(no output rendered yet)\n\n================\nBuffer size: 0 bytes\n"
    );
    r.get_next_buffer().draw_text("X", 0, 0, (255, 255, 255, 255));
    let out = r.render(false).unwrap();
    let text = r.stdout_dump_text(12345);
    assert!(text.contains("Stdout Buffer Output (timestamp: 12345)"));
    assert!(text.contains("Last Rendered ANSI Output"));
    assert!(text.contains("1;1H"));
    assert!(text.ends_with(&format!("Buffer size: {} bytes\n", out.len())));
}

#[test]
fn buffer_dump_text_shows_first_characters() {
    let mut r = CliRenderer::new(3, 2).unwrap();
    r.get_next_buffer().draw_text("A", 0, 0, (255, 255, 255, 255));
    r.render(false).unwrap();
    assert_eq!(r.buffer_dump_text(true), "current Buffer (3x2):\nCharacters:\nA  \n   \n");
    assert!(r.buffer_dump_text(false).starts_with("next Buffer (3x2):\n"));
}
