use todo_rs::{format_items, parse_item, parse_items, ParseError, Status};

fn strings(items: &[&str]) -> Vec<String> {
    items.iter().map(|s| s.to_string()).collect()
}

#[test]
fn parse_item_reads_both_prefixes() {
    assert_eq!(parse_item("TODO: Buy milk"), Some((Status::Todo, "Buy milk".to_string())));
    assert_eq!(parse_item("DONE: Start stream"), Some((Status::Done, "Start stream".to_string())));
    assert_eq!(parse_item("DONE: "), Some((Status::Done, String::new())));
    assert_eq!(parse_item("TODO:x"), None);
    assert_eq!(parse_item("todo: x"), None);
    assert_eq!(parse_item(""), None);
}

#[test]
fn load_splits_items_into_two_lists() {
    let (todos, dones) = parse_items("TODO: Buy milk\nDONE: Start stream\n").unwrap();
    assert_eq!(todos, strings(&["Buy milk"]));
    assert_eq!(dones, strings(&["Start stream"]));
}

#[test]
fn load_keeps_file_order_within_each_list() {
    let (todos, dones) = parse_items("DONE: d1\nTODO: t1\nDONE: d2\nTODO: t2").unwrap();
    assert_eq!(todos, strings(&["t1", "t2"]));
    assert_eq!(dones, strings(&["d1", "d2"]));
}

#[test]
fn load_accepts_crlf_line_ends() {
    let (todos, dones) = parse_items("TODO: a\r\nDONE: b\r\n").unwrap();
    assert_eq!(todos, strings(&["a"]));
    assert_eq!(dones, strings(&["b"]));
}

#[test]
fn load_of_empty_text_gives_empty_lists() {
    let (todos, dones) = parse_items("").unwrap();
    assert!(todos.is_empty());
    assert!(dones.is_empty());
}

#[test]
fn malformed_line_is_reported_by_number() {
    assert_eq!(parse_items("TODO: a\nDONE: b\nnonsense\nTODO: c\n"), Err(ParseError { line: 3 }));
    assert_eq!(parse_items("TODO: a\n\nTODO: c\n"), Err(ParseError { line: 2 }));
    assert_eq!(parse_items("TODO: a\nbad"), Err(ParseError { line: 2 }));
    assert_eq!(parse_items("x\nalso bad\n"), Err(ParseError { line: 1 }));
}

#[test]
fn save_writes_todos_before_dones() {
    let text = format_items(&strings(&["a", "b"]), &strings(&["c"]));
    assert_eq!(text, "TODO: a\nTODO: b\nDONE: c\n");
    assert_eq!(format_items(&Vec::new(), &Vec::new()), "");
}

#[test]
fn save_then_load_round_trips() {
    let todos = strings(&["Buy milk", "", "Ünïcode ✓", "TODO: nested"]);
    let dones = strings(&["Start stream", "DONE: x"]);
    let text = format_items(&todos, &dones);
    assert_eq!(parse_items(&text), Ok((todos, dones)));
}
