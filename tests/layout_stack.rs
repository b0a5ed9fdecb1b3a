use todo_rs::{GlyphRun, Layout, LayoutKind, Style, Ui, UiError, Vec2};

fn parts(runs: &[GlyphRun]) -> Vec<(i32, i32, String, Style)> {
    runs.iter().map(|r| (r.pos.x, r.pos.y, r.text.clone(), r.style)).collect()
}

#[test]
fn vec2_add_and_mul_are_component_wise() {
    let a = Vec2::new(3, -4);
    let b = Vec2::new(10, 7);
    assert_eq!(a.add(b), Vec2::new(13, 3));
    assert_eq!(a.mul(b), Vec2::new(30, -28));
    assert_eq!(b.mul(Vec2::new(1, 0)), Vec2::new(10, 0));
}

#[test]
fn horizontal_layout_sums_widths_and_keeps_tallest() {
    let mut l = Layout { kind: LayoutKind::Horz, pos: Vec2::new(2, 5), size: Vec2::new(0, 0) };
    l.add_widget(Vec2::new(4, 1));
    l.add_widget(Vec2::new(6, 3));
    l.add_widget(Vec2::new(1, 2));
    assert_eq!(l.size, Vec2::new(11, 3));
    assert_eq!(l.available_pos(), Vec2::new(13, 5));
}

#[test]
fn vertical_layout_sums_heights_and_keeps_widest() {
    let mut l = Layout { kind: LayoutKind::Vert, pos: Vec2::new(2, 5), size: Vec2::new(0, 0) };
    l.add_widget(Vec2::new(4, 1));
    l.add_widget(Vec2::new(9, 2));
    l.add_widget(Vec2::new(1, 1));
    assert_eq!(l.size, Vec2::new(9, 4));
    assert_eq!(l.available_pos(), Vec2::new(2, 9));
}

#[test]
fn balanced_frame_never_raises() {
    let mut ui = Ui::new();
    assert_eq!(ui.begin(Vec2::new(0, 0), LayoutKind::Vert), Ok(()));
    for _ in 0..3 {
        assert_eq!(ui.begin_layout(LayoutKind::Horz), Ok(()));
    }
    for _ in 0..4 {
        assert_eq!(ui.label_fixed_width("x", 2, Style::Regular), Ok(()));
    }
    for _ in 0..3 {
        assert_eq!(ui.end_layout(), Ok(()));
    }
    assert_eq!(ui.end(), Ok(()));
    assert_eq!(ui.take_runs().len(), 4);
}

#[test]
fn extra_end_raises_invalid_state() {
    let mut ui = Ui::new();
    assert_eq!(ui.begin(Vec2::new(0, 0), LayoutKind::Vert), Ok(()));
    assert_eq!(ui.end(), Ok(()));
    assert_eq!(ui.end(), Err(UiError::InvalidState));
}

#[test]
fn calls_without_begin_raise_invalid_state() {
    let mut ui = Ui::new();
    assert_eq!(ui.begin_layout(LayoutKind::Vert), Err(UiError::InvalidState));
    assert_eq!(ui.label_fixed_width("a", 1, Style::Regular), Err(UiError::InvalidState));
    assert_eq!(ui.end_layout(), Err(UiError::InvalidState));
    assert_eq!(ui.end(), Err(UiError::InvalidState));
    assert!(ui.take_runs().is_empty());
}

#[test]
fn unbalanced_nesting_raises_invalid_state() {
    let mut ui = Ui::new();
    assert_eq!(ui.begin(Vec2::new(0, 0), LayoutKind::Vert), Ok(()));
    assert_eq!(ui.begin(Vec2::new(0, 0), LayoutKind::Vert), Err(UiError::InvalidState));
    assert_eq!(ui.end_layout(), Err(UiError::InvalidState));
    assert_eq!(ui.begin_layout(LayoutKind::Horz), Ok(()));
    assert_eq!(ui.end(), Err(UiError::InvalidState));
    assert_eq!(ui.end_layout(), Ok(()));
    assert_eq!(ui.end(), Ok(()));
}

#[test]
fn labels_are_placed_by_the_layout_stack() {
    let mut ui = Ui::new();
    ui.begin(Vec2::new(1, 1), LayoutKind::Vert).unwrap();
    ui.label_fixed_width("top", 10, Style::Regular).unwrap();
    ui.begin_layout(LayoutKind::Horz).unwrap();
    ui.label_fixed_width("a", 4, Style::Highlight).unwrap();
    ui.label_fixed_width("b", 3, Style::Regular).unwrap();
    ui.end_layout().unwrap();
    ui.label_fixed_width("bottom", 2, Style::Regular).unwrap();
    ui.end().unwrap();
    let runs = ui.take_runs();
    assert_eq!(
        parts(&runs),
        vec![
            (1, 1, "top".to_string(), Style::Regular),
            (1, 2, "a".to_string(), Style::Highlight),
            (5, 2, "b".to_string(), Style::Regular),
            (1, 3, "bottom".to_string(), Style::Regular),
        ]
    );
}

#[test]
fn label_longer_than_its_width_is_not_cut() {
    let mut ui = Ui::new();
    ui.begin(Vec2::new(0, 0), LayoutKind::Horz).unwrap();
    ui.label_fixed_width("overflowing", 3, Style::Regular).unwrap();
    ui.label_fixed_width("next", 4, Style::Regular).unwrap();
    ui.end().unwrap();
    let runs = ui.take_runs();
    assert_eq!(
        parts(&runs),
        vec![(0, 0, "overflowing".to_string(), Style::Regular), (3, 0, "next".to_string(), Style::Regular)]
    );
}

#[test]
fn label_takes_the_width_of_its_text() {
    let mut ui = Ui::new();
    ui.begin(Vec2::new(0, 0), LayoutKind::Horz).unwrap();
    ui.label("hello", Style::Regular).unwrap();
    ui.label("!", Style::Regular).unwrap();
    ui.end().unwrap();
    let runs = ui.take_runs();
    assert_eq!(runs[1].pos, Vec2::new(5, 0));
}

#[test]
fn available_pos_follows_the_current_layout() {
    let mut ui = Ui::new();
    assert_eq!(ui.available_pos(), Err(UiError::InvalidState));
    ui.begin(Vec2::new(4, 7), LayoutKind::Vert).unwrap();
    ui.label_fixed_width("x", 1, Style::Regular).unwrap();
    assert_eq!(ui.available_pos(), Ok(Vec2::new(4, 8)));
}
