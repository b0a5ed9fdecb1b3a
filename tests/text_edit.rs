use todo_rs::{Key, LayoutKind, Style, TextEditState, Ui, Vec2};

fn state(text: &str, cursor: usize) -> TextEditState {
    TextEditState::new(text.chars().collect(), cursor)
}

#[test]
fn printable_keys_insert_at_the_cursor() {
    let mut e = state("ac", 1);
    assert_eq!(e.apply_key(Key::Char('b')), None);
    assert_eq!(e.text(), "abc");
    assert_eq!(e.cursor(), 2);
    assert_eq!(e.apply_key(Key::Char(' ')), None);
    assert_eq!(e.apply_key(Key::Char('~')), None);
    assert_eq!(e.text(), "ab ~c");
    assert_eq!(e.cursor(), 4);
}

#[test]
fn arrows_move_within_bounds() {
    let mut e = state("ab", 0);
    e.apply_key(Key::Left);
    assert_eq!(e.cursor(), 0);
    e.apply_key(Key::Right);
    e.apply_key(Key::Right);
    e.apply_key(Key::Right);
    assert_eq!(e.cursor(), 2);
    e.apply_key(Key::Left);
    assert_eq!(e.cursor(), 1);
    assert_eq!(e.text(), "ab");
}

#[test]
fn backspace_deletes_before_the_cursor() {
    let mut e = state("abc", 2);
    e.apply_key(Key::Backspace);
    assert_eq!(e.text(), "ac");
    assert_eq!(e.cursor(), 1);
    let mut start = state("abc", 0);
    start.apply_key(Key::Backspace);
    assert_eq!(start.text(), "abc");
    assert_eq!(start.cursor(), 0);
}

#[test]
fn delete_removes_under_the_cursor() {
    let mut e = state("abc", 1);
    e.apply_key(Key::Delete);
    assert_eq!(e.text(), "ac");
    assert_eq!(e.cursor(), 1);
    let mut end = state("abc", 3);
    end.apply_key(Key::Delete);
    assert_eq!(end.text(), "abc");
}

#[test]
fn other_keys_are_handed_back() {
    let mut e = state("abc", 1);
    assert_eq!(e.apply_key(Key::Char('\n')), Some(Key::Char('\n')));
    assert_eq!(e.apply_key(Key::Char('\u{7f}')), Some(Key::Char('\u{7f}')));
    assert_eq!(e.apply_key(Key::Other(410)), Some(Key::Other(410)));
    assert_eq!(e.text(), "abc");
    assert_eq!(e.cursor(), 1);
}

#[test]
fn typing_then_erasing_restores_the_text() {
    let mut e = state("hello", 2);
    for c in "xyz".chars() {
        e.apply_key(Key::Char(c));
    }
    assert_eq!(e.text(), "hexyzllo");
    for _ in 0..3 {
        e.apply_key(Key::Backspace);
    }
    assert_eq!(e.text(), "hello");
    assert_eq!(e.cursor(), 2);
}

#[test]
fn cursor_is_clamped_into_the_text() {
    let e = state("ab", 9);
    assert_eq!(e.cursor(), 2);
    let f = TextEditState::from_text("héllo");
    assert_eq!(f.cursor(), 5);
    assert_eq!(f.buffer().len(), 5);
    assert_eq!(f.text(), "héllo");
}

#[test]
fn cursor_cell_shows_a_blank_at_the_end() {
    assert_eq!(state("ab", 1).cursor_cell(), "b");
    assert_eq!(state("ab", 2).cursor_cell(), " ");
}

#[test]
fn edit_field_draws_text_and_highlighted_cursor() {
    let mut ui = Ui::new();
    ui.begin(Vec2::new(3, 4), LayoutKind::Vert).unwrap();
    ui.edit_field(&state("abc", 1), 10).unwrap();
    ui.edit_field(&state("xy", 2), 10).unwrap();
    ui.end().unwrap();
    let runs = ui.take_runs();
    let got: Vec<(i32, i32, String, Style)> = runs.iter().map(|r| (r.pos.x, r.pos.y, r.text.clone(), r.style)).collect();
    assert_eq!(
        got,
        vec![
            (3, 4, "abc".to_string(), Style::Regular),
            (4, 4, "b".to_string(), Style::Highlight),
            (3, 5, "xy".to_string(), Style::Regular),
            (5, 5, " ".to_string(), Style::Highlight),
        ]
    );
}
