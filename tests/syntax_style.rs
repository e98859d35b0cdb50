use pytui_native::syntax_style::SyntaxStyle;

#[test]
fn tests_init_and_deinit() {
    let style: SyntaxStyle<[f32; 4]> = SyntaxStyle::new();
    assert_eq!(style.get_style_count(), 0);
}

#[test]
fn register_simple_style() {
    let mut style = SyntaxStyle::new();
    let fg: [f32; 4] = [1.0, 0.0, 0.0, 1.0];
    let id = style.register_style("keyword", Some(fg), None, 0);
    assert!(id > 0);
    assert_eq!(style.get_style_count(), 1);
}

#[test]
fn register_style_with_fg_and_bg() {
    let mut style = SyntaxStyle::new();
    let fg: [f32; 4] = [1.0, 0.0, 0.0, 1.0];
    let bg: [f32; 4] = [0.0, 0.0, 0.0, 1.0];
    let id = style.register_style("string", Some(fg), Some(bg), 0);
    assert!(id > 0);
    let def = style.resolve_by_id(id).unwrap();
    assert!(def.fg.is_some());
    assert!(def.bg.is_some());
}

#[test]
fn resolve_by_name() {
    let mut style = SyntaxStyle::new();
    let fg: [f32; 4] = [0.0, 1.0, 0.0, 1.0];
    let id = style.register_style("comment", Some(fg), None, 0);
    assert_eq!(style.resolve_by_name("comment"), Some(id));
    assert!(style.get_style_by_name("comment").is_some());
}

#[test]
fn merge_styles() {
    let mut style = SyntaxStyle::new();
    let fg1: [f32; 4] = [1.0, 0.0, 0.0, 1.0];
    let fg2: [f32; 4] = [0.0, 0.0, 1.0, 1.0];
    let id1 = style.register_style("a", Some(fg1), None, 1);
    let id2 = style.register_style("b", Some(fg2), None, 2);
    let merged = style.merge_styles(&[id1, id2]);
    assert_eq!(merged.attributes, 3);
    assert!(merged.fg.is_some());
}

#[test]
fn reregistering_keeps_the_id() {
    let mut style: SyntaxStyle<u8> = SyntaxStyle::new();
    let a = style.register_style("a", Some(1), None, 4);
    let b = style.register_style("b", None, Some(2), 0);
    assert_eq!((a, b), (1, 2));
    assert_eq!(style.register_style("a", None, None, 8), 1);
    assert_eq!(style.get_style_count(), 2);
    assert_eq!(style.resolve_by_id(1).unwrap().attributes, 8);
    assert!(style.resolve_by_id(0).is_none());
    assert!(style.resolve_by_id(3).is_none());
    assert!(style.resolve_by_name("c").is_none());
    let m = style.merge_styles(&[2, 9, 1]);
    assert_eq!(m.bg, Some(2));
    assert_eq!(m.fg, None);
    assert_eq!(m.attributes, 8);
}
