use todo_rs::ctrlc::poll;
use todo_rs::{parse_items, GlyphRun, Key, Status, Style, TaskManager, Ui};

use std::sync::atomic::AtomicBool;

fn strings(items: &[&str]) -> Vec<String> {
    items.iter().map(|s| s.to_string()).collect()
}

fn manager(todos: &[&str], dones: &[&str]) -> TaskManager {
    TaskManager::new(strings(todos), strings(dones), "hello".to_string())
}

fn parts(runs: &[GlyphRun]) -> Vec<(i32, i32, String, Style)> {
    runs.iter().map(|r| (r.pos.x, r.pos.y, r.text.clone(), r.style)).collect()
}

#[test]
fn load_then_transfer_scenario() {
    let (todos, dones) = parse_items("TODO: Buy milk\nDONE: Start stream\n").unwrap();
    let mut tm = TaskManager::new(todos, dones, String::new());
    assert_eq!(tm.todos().items(), &strings(&["Buy milk"]));
    assert_eq!(tm.dones().items(), &strings(&["Start stream"]));
    assert_eq!(tm.todos().cursor(), 0);
    assert_eq!(tm.dones().cursor(), 0);
    tm.handle_key(Key::Char('\n'));
    assert!(tm.todos().items().is_empty());
    assert_eq!(tm.dones().items(), &strings(&["Start stream", "Buy milk"]));
    assert_eq!(tm.todos().cursor(), 0);
    assert_eq!(tm.notification(), "DONE!");
}

#[test]
fn keys_clear_the_notification() {
    let mut tm = manager(&["a"], &[]);
    assert_eq!(tm.notification(), "hello");
    tm.handle_key(Key::Other(999));
    assert_eq!(tm.notification(), "");
}

#[test]
fn list_keys_drive_the_active_list() {
    let mut tm = manager(&["a", "b", "c"], &["x"]);
    tm.handle_key(Key::Char('j'));
    tm.handle_key(Key::Char('j'));
    assert_eq!(tm.todos().cursor(), 2);
    tm.handle_key(Key::Char('K'));
    assert_eq!(tm.todos().items(), &strings(&["a", "c", "b"]));
    assert_eq!(tm.todos().cursor(), 1);
    tm.handle_key(Key::Char('g'));
    assert_eq!(tm.todos().cursor(), 0);
    tm.handle_key(Key::Char('J'));
    assert_eq!(tm.todos().items(), &strings(&["c", "a", "b"]));
    tm.handle_key(Key::Char('G'));
    assert_eq!(tm.todos().cursor(), 2);
    tm.handle_key(Key::Char('k'));
    assert_eq!(tm.todos().cursor(), 1);
    assert_eq!(tm.dones().items(), &strings(&["x"]));
}

#[test]
fn tab_switches_panel_and_done_panel_transfers_back() {
    let mut tm = manager(&["a"], &["x", "y"]);
    tm.handle_key(Key::Char('\t'));
    assert_eq!(tm.panel(), Status::Done);
    tm.handle_key(Key::Char('j'));
    tm.handle_key(Key::Char('\n'));
    assert_eq!(tm.todos().items(), &strings(&["a", "y"]));
    assert_eq!(tm.dones().items(), &strings(&["x"]));
    assert_eq!(tm.dones().cursor(), 0);
    assert_eq!(tm.notification(), "No, not done yet...");
    tm.handle_key(Key::Char('\t'));
    assert_eq!(tm.panel(), Status::Todo);
}

#[test]
fn delete_works_on_the_done_panel_only() {
    let mut tm = manager(&["a"], &["x", "y"]);
    tm.handle_key(Key::Char('d'));
    assert_eq!(tm.todos().items(), &strings(&["a"]));
    tm.handle_key(Key::Char('\t'));
    tm.handle_key(Key::Char('G'));
    tm.handle_key(Key::Char('d'));
    assert_eq!(tm.dones().items(), &strings(&["x"]));
    assert_eq!(tm.dones().cursor(), 0);
    assert_eq!(tm.notification(), "Into The Abyss!");
}

#[test]
fn rename_edits_in_place_until_enter() {
    let mut tm = manager(&["milk"], &[]);
    tm.handle_key(Key::Char('r'));
    assert!(tm.is_editing());
    tm.handle_key(Key::Char('s'));
    assert_eq!(tm.todos().items(), &strings(&["milks"]));
    tm.handle_key(Key::Char('q'));
    tm.handle_key(Key::Char('\t'));
    assert!(!tm.should_quit());
    assert_eq!(tm.panel(), Status::Todo);
    assert_eq!(tm.todos().items(), &strings(&["milksq"]));
    tm.handle_key(Key::Backspace);
    tm.handle_key(Key::Backspace);
    tm.handle_key(Key::Char('\n'));
    assert!(!tm.is_editing());
    assert_eq!(tm.todos().items(), &strings(&["milk"]));
    assert!(tm.dones().items().is_empty());
}

#[test]
fn rename_on_empty_list_does_nothing() {
    let mut tm = manager(&[], &[]);
    tm.handle_key(Key::Char('r'));
    assert!(!tm.is_editing());
}

#[test]
fn q_quits_when_not_editing() {
    let mut tm = manager(&["a"], &[]);
    assert!(!tm.should_quit());
    tm.handle_key(Key::Char('q'));
    assert!(tm.should_quit());
}

#[test]
fn frame_lays_out_two_columns() {
    let mut tm = manager(&["a", "b"], &["x"]);
    tm.handle_key(Key::Char('j'));
    tm.notify("note".to_string());
    let mut ui = Ui::new();
    tm.render(&mut ui, 40);
    let runs = ui.take_runs();
    assert_eq!(
        parts(&runs),
        vec![
            (0, 0, "note".to_string(), Style::Regular),
            (0, 1, "".to_string(), Style::Regular),
            (0, 2, "TODO".to_string(), Style::Highlight),
            (0, 3, "- [ ] a".to_string(), Style::Regular),
            (0, 4, "- [ ] b".to_string(), Style::Highlight),
            (20, 2, "DONE".to_string(), Style::Regular),
            (20, 3, "- [x] x".to_string(), Style::Regular),
        ]
    );
    tm.render(&mut ui, 40);
    assert_eq!(ui.take_runs().len(), 7);
}

#[test]
fn frame_shows_the_edit_field() {
    let mut tm = manager(&[], &["xy"]);
    tm.handle_key(Key::Char('\t'));
    tm.handle_key(Key::Char('r'));
    tm.handle_key(Key::Left);
    let mut ui = Ui::new();
    tm.render(&mut ui, 11);
    let runs = ui.take_runs();
    assert_eq!(
        parts(&runs),
        vec![
            (0, 0, "".to_string(), Style::Regular),
            (0, 1, "".to_string(), Style::Regular),
            (0, 2, "TODO".to_string(), Style::Regular),
            (5, 2, "DONE".to_string(), Style::Highlight),
            (5, 3, "xy".to_string(), Style::Regular),
            (6, 3, "y".to_string(), Style::Highlight),
        ]
    );
}

#[test]
fn poll_reads_and_clears_the_flag() {
    let flag = AtomicBool::new(false);
    assert!(!poll(&flag));
    flag.store(true, std::sync::atomic::Ordering::Relaxed);
    assert!(poll(&flag));
    assert!(!poll(&flag));
}
