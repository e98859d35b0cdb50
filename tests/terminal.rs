use pytui_native::renderer::CliRenderer;
use pytui_native::terminal::{CursorStyle, Terminal};

#[test]
fn parse_xtversion_kitty_format() {
    let mut r = CliRenderer::new(80, 24).unwrap();
    r.process_capability_response("\x1bP>|kitty(0.40.1)\x1b\\");
    assert_eq!(r.get_terminal_name(), "kitty");
    assert_eq!(r.get_terminal_version(), "0.40.1");
    assert!(r.get_from_xtversion());
}

#[test]
fn parse_xtversion_ghostty_format() {
    let mut r = CliRenderer::new(80, 24).unwrap();
    r.process_capability_response("\x1bP>|ghostty 1.1.3\x1b\\");
    assert_eq!(r.get_terminal_name(), "ghostty");
    assert_eq!(r.get_terminal_version(), "1.1.3");
    assert!(r.get_from_xtversion());
}

#[test]
fn parse_xtversion_tmux_format() {
    let mut r = CliRenderer::new(80, 24).unwrap();
    r.process_capability_response("\x1bP>|tmux 3.5a\x1b\\");
    assert_eq!(r.get_terminal_name(), "tmux");
    assert_eq!(r.get_terminal_version(), "3.5a");
    assert!(r.get_from_xtversion());
}

#[test]
fn parse_xtversion_with_prefix_data() {
    let mut r = CliRenderer::new(80, 24).unwrap();
    r.process_capability_response("\x1b[1;1R\x1bP>|tmux 3.5a\x1b\\");
    assert_eq!(r.get_terminal_name(), "tmux");
    assert_eq!(r.get_terminal_version(), "3.5a");
    assert!(r.get_from_xtversion());
}

#[test]
fn parse_xtversion_full_kitty_response() {
    let mut r = CliRenderer::new(80, 24).unwrap();
    r.process_capability_response("\x1b[?1016;2$y\x1b[?2027;0$y\x1b[?2031;2$y\x1b[?1004;1$y\x1b[?2026;2$y\x1b[1;2R\x1b[1;3R\x1bP>|kitty(0.40.1)\x1b\\\x1b[?0u\x1b_Gi=1;EINVAL:Zero width/height not allowed\x1b\\\x1b[?62;c");
    assert_eq!(r.get_terminal_name(), "kitty");
    assert_eq!(r.get_terminal_version(), "0.40.1");
    assert!(r.get_from_xtversion());
    assert!(r.get_kitty_keyboard());
    assert!(r.get_kitty_graphics());
}

#[test]
fn parse_xtversion_full_ghostty_response() {
    let mut r = CliRenderer::new(80, 24).unwrap();
    r.process_capability_response("\x1b[?1016;1$y\x1b[?2027;1$y\x1b[?2031;2$y\x1b[?1004;1$y\x1b[?2004;2$y\x1b[?2026;2$y\x1b[1;1R\x1b[1;1R\x1bP>|ghostty 1.1.3\x1b\\\x1b[?0u\x1b_Gi=1;OK\x1b\\\x1b[?62;22c");
    assert_eq!(r.get_terminal_name(), "ghostty");
    assert_eq!(r.get_terminal_version(), "1.1.3");
    assert!(r.get_from_xtversion());
}

#[test]
fn environment_overridden_by_xtversion() {
    let mut r = CliRenderer::new(80, 24).unwrap();
    r.set_terminal_info_for_test("vscode", "1.0.0");
    assert_eq!(r.get_terminal_name(), "vscode");
    assert_eq!(r.get_terminal_version(), "1.0.0");
    assert!(!r.get_from_xtversion());
    r.process_capability_response("\x1bP>|kitty(0.40.1)\x1b\\");
    assert_eq!(r.get_terminal_name(), "kitty");
    assert_eq!(r.get_terminal_version(), "0.40.1");
    assert!(r.get_from_xtversion());
}

#[test]
fn parse_xtversion_name_only() {
    let mut r = CliRenderer::new(80, 24).unwrap();
    r.process_capability_response("\x1bP>|wezterm\x1b\\");
    assert_eq!(r.get_terminal_name(), "wezterm");
    assert_eq!(r.get_terminal_version(), "");
    assert!(r.get_from_xtversion());
}

#[test]
fn parse_xtversion_empty_response() {
    let mut r = CliRenderer::new(80, 24).unwrap();
    r.process_capability_response("\x1bP>|\x1b\\");
    assert!(r.get_terminal_name().is_empty());
    assert!(r.get_terminal_version().is_empty());
    assert!(!r.get_from_xtversion());
}

#[test]
fn cursor_position() {
    let mut r = CliRenderer::new(80, 24).unwrap();
    r.set_cursor_position(10, 5, true);
    let (x, y, visible) = r.get_cursor_position();
    assert_eq!(x, 10);
    assert_eq!(y, 5);
    assert!(visible);
    r.set_cursor_position(1, 1, false);
    let (x, y, visible) = r.get_cursor_position();
    assert_eq!(x, 1);
    assert_eq!(y, 1);
    assert!(!visible);
}

#[test]
fn cursor_style() {
    let mut r = CliRenderer::new(80, 24).unwrap();
    r.set_cursor_style("block", false).unwrap();
    let (style, blink) = r.get_cursor_style();
    assert_eq!(style, "block");
    assert!(!blink);
    r.set_cursor_style("line", true).unwrap();
    let (style, blink) = r.get_cursor_style();
    assert_eq!(style, "line");
    assert!(blink);
    r.set_cursor_style("underline", false).unwrap();
    let (style, _) = r.get_cursor_style();
    assert_eq!(style, "underline");
}

#[test]
fn cursor_position_ansi() {
    let r = CliRenderer::new(80, 24).unwrap();
    let ansi = r.cursor_position_ansi();
    assert!(ansi.contains("\x1b[?25h"));
    assert!(ansi.contains("\x1b[1;1H"));
}

#[test]
fn cursor_style_ansi() {
    let mut r = CliRenderer::new(80, 24).unwrap();
    r.set_cursor_style("block", false).unwrap();
    assert!(r.cursor_style_ansi().contains("2 q"));
    r.set_cursor_style("line", true).unwrap();
    assert!(r.cursor_style_ansi().contains("5 q"));
}

#[test]
fn set_title_ansi() {
    let r = CliRenderer::new(80, 24).unwrap();
    let ansi = r.set_terminal_title_ansi("My App");
    assert_eq!(ansi, "\x1b]0;My App\x07");
}

#[test]
fn clear_terminal_ansi() {
    let r = CliRenderer::new(80, 24).unwrap();
    let ansi = r.clear_terminal_ansi();
    assert_eq!(ansi, "\x1b[H\x1b[2J");
}

#[test]
fn capability_flags_are_detected() {
    let mut t = Terminal::new();
    t.process_capability_response("\x1b[?1016;2$y\x1b[?2026;1$y\x1b[?1004;2$y\x1b[?2004;1$y\x1b[1;2R");
    assert!(t.sgr_pixels && t.sync && t.focus_tracking && t.bracketed_paste);
    assert!(t.explicit_width);
    assert!(!t.scaled_text);
    assert!(!t.kitty_keyboard && !t.kitty_graphics);
    t.process_capability_response("\x1b[1;3R");
    assert!(t.scaled_text);
}

#[test]
fn flags_never_clear() {
    let mut t = Terminal::new();
    t.process_capability_response("kitty");
    assert!(t.kitty_keyboard && t.kitty_graphics && t.bracketed_paste);
    t.process_capability_response("nothing here");
    assert!(t.kitty_keyboard && t.kitty_graphics && t.bracketed_paste);
    t.process_capability_response("\x1bP>|foot\x1b\\");
    assert!(t.from_xtversion);
    t.process_capability_response("\x1bP>|  \x1b\\");
    assert!(t.from_xtversion);
    assert_eq!(t.get_terminal_name(), "foot");
}

#[test]
fn keyboard_status_report_alone() {
    let mut t = Terminal::new();
    t.process_capability_response("\x1b[?15u");
    assert!(t.kitty_keyboard);
    assert!(!t.kitty_graphics);
    let mut u = Terminal::new();
    u.process_capability_response("\x1b[?u \x1b[?1x");
    assert!(!u.kitty_keyboard);
}

#[test]
fn last_version_reply_wins_and_is_trimmed() {
    let mut t = Terminal::new();
    t.process_capability_response("\x1bP>|alpha 1\x1b\\junk\x1bP>|  beta(2.0)  \x1b\\");
    assert_eq!(t.get_terminal_name(), "beta");
    assert_eq!(t.get_terminal_version(), "2.0");
}

#[test]
fn malformed_replies_are_ignored() {
    let mut t = Terminal::new();
    t.process_capability_response("\x1bP>|noterminator \x1b[1;R \x1b[1;xR");
    assert!(!t.from_xtversion);
    assert!(!t.explicit_width);
    assert_eq!(t.get_terminal_name(), "");
}

#[test]
fn cursor_sequences_exact() {
    let mut t = Terminal::new();
    t.set_cursor_position(0, 12, false);
    assert_eq!(t.get_cursor_x(), 1);
    assert_eq!(t.cursor_position_ansi(), "\x1b[?25l\x1b[12;1H");
    t.set_cursor_style(CursorStyle::Underline, true);
    assert_eq!(t.cursor_style_ansi(), "\x1b[3 q");
    t.set_cursor_color((255, 128, 10, 255));
    assert_eq!(t.cursor_color_ansi(), "\x1b]12;#ff800a\x07");
}

#[test]
fn unknown_cursor_style_name_is_rejected() {
    let mut r = CliRenderer::new(4, 4).unwrap();
    assert!(r.set_cursor_style("beam", true).is_err());
    assert_eq!(r.get_cursor_style(), ("block".to_string(), false));
}
