use std::cmp::Ordering;
use checklist::item::{Item, State};
use checklist::response::{render_file, render_list};
use checklist::todo::Todo;

#[test]
fn parse_round_trip_todo() {
    let item = Item::new(String::from("water the plants"));
    let back = Item::parse(&item.to_string());
    assert_eq!(back.description, "water the plants");
    assert!(back.state == State::Todo);
    assert!(back == item);
}

#[test]
fn parse_round_trip_done() {
    let mut item = Item::new(String::from("call mum"));
    item.state = State::Done;
    let line = item.to_string();
    assert_eq!(line, "- [x] call mum");
    let back = Item::parse(&line);
    assert_eq!(back.description, "call mum");
    assert!(back.state == State::Done);
}

#[test]
fn parse_open_line() {
    let item = Item::parse("- [ ] buy milk");
    assert_eq!(item.description, "buy milk");
    assert!(item.state == State::Todo);
    assert_eq!(item.to_string(), "- [ ] buy milk");
}

#[test]
fn parse_malformed_line_reads_as_done_and_empty() {
    let item = Item::parse("garbage");
    assert_eq!(item.description, "");
    assert!(item.state == State::Done);
}

#[test]
fn parse_open_box_inside_line_reads_as_open() {
    let item = Item::parse("- [x] a - [ ] b");
    assert!(item.state == State::Todo);
    assert_eq!(item.description, "");
}

#[test]
fn fingerprint_depends_on_text() {
    let a = Item::new(String::from("a"));
    let a2 = Item::new(String::from("a"));
    let b = Item::new(String::from("b"));
    assert_eq!(a.hash, a2.hash);
    assert_ne!(a.hash, b.hash);
}

#[test]
fn equality_ignores_state() {
    let a = Item::new(String::from("same"));
    let mut b = Item::new(String::from("same"));
    b.state = State::Done;
    assert!(a == b);
    assert!(a != Item::new(String::from("other")));
}

#[test]
fn line_text_shows_position_and_suffix() {
    let mut item = Item::new(String::from("task"));
    let open = item.to_line(0).into_text();
    assert!(open.starts_with("1 "));
    assert!(open.contains("task"));
    assert!(!open.ends_with(" (done)"));
    item.state = State::Done;
    let done = item.to_line(11).into_text();
    assert!(done.starts_with("12 "));
    assert!(done.ends_with(" (done)"));
    assert_ne!(done, "12 task (done)");
}

#[test]
fn file_text_has_one_line_per_item() {
    let mut todo = Todo::new();
    todo.item_vec.push(Item::new(String::from("one")));
    let mut two = Item::new(String::from("two"));
    two.state = State::Done;
    todo.item_vec.push(two);
    assert_eq!(render_file(&todo.item_vec), "- [ ] one\n- [x] two\n");
    assert_eq!(render_file(&Vec::new()), "");
}

#[test]
fn render_list_of_empty_list_is_empty() {
    assert_eq!(render_list(&Vec::new()), "");
}

#[test]
fn from_existing_skips_empty_lines() {
    let todo = Todo::from_existing(String::from("- [ ] a\n\n- [x] b\n"));
    assert_eq!(todo.item_vec.len(), 2);
    assert_eq!(todo.item_vec[0].description, "a");
    assert!(todo.item_vec[0].state == State::Todo);
    assert_eq!(todo.item_vec[1].description, "b");
    assert!(todo.item_vec[1].state == State::Done);
}

#[test]
fn save_then_reload_keeps_items() {
    let mut todo = Todo::new();
    todo.dispatch(String::from("add first thing\n"));
    todo.dispatch(String::from("add second\n"));
    todo.dispatch(String::from("done 2\n"));
    let out = todo.dispatch(String::from("save\n"));
    let file = out.persist.expect("save writes the file");
    let again = Todo::from_existing(file);
    assert_eq!(again.item_vec.len(), 2);
    for (a, b) in again.item_vec.iter().zip(todo.item_vec.iter()) {
        assert_eq!(a.description, b.description);
        assert!(a.state == b.state);
    }
}

#[test]
fn items_order_by_text() {
    let a = Item::new(String::from("apple"));
    let mut b = Item::new(String::from("banana"));
    b.state = State::Done;
    let ap = Item::new(String::from("app"));
    assert!(a < b);
    assert!(ap < a);
    assert_eq!(a.partial_cmp(&Item::new(String::from("apple"))), Some(Ordering::Equal));
    assert_eq!(b.partial_cmp(&a), Some(Ordering::Greater));
}
