use checklist::item::State;
use checklist::response::ResponseType;
use checklist::todo::{Todo, HELP_TEXT};

fn run(todo: &mut Todo, line: &str) -> checklist::response::Output {
    todo.dispatch(String::from(line))
}

#[test]
fn add_then_list() {
    let mut todo = Todo::new();
    run(&mut todo, "add buy milk\n");
    let out = run(&mut todo, "list\n");
    assert!(out.kind == ResponseType::Continue);
    assert!(out.value.starts_with("1 "));
    assert!(out.value.contains("buy milk"));
    assert!(!out.value.contains("(done)"));
    assert_eq!(todo.item_vec.len(), 1);
    assert_eq!(todo.item_vec[0].description, "buy milk");
    assert!(todo.item_vec[0].state == State::Todo);
}

#[test]
fn add_without_description_fails() {
    let mut todo = Todo::new();
    let out = run(&mut todo, "add\n");
    assert!(out.kind == ResponseType::Error);
    assert!(out.value.contains("Please enter description"));
    assert!(todo.item_vec.is_empty());
}

#[test]
fn done_then_flip() {
    let mut todo = Todo::new();
    run(&mut todo, "add x");
    let out = run(&mut todo, "done 1");
    assert!(out.kind == ResponseType::Continue);
    assert!(todo.item_vec[0].state == State::Done);
    assert!(out.value.contains(" (done)"));
    run(&mut todo, "flip 1");
    assert!(todo.item_vec[0].state == State::Todo);
}

#[test]
fn remove_by_index() {
    let mut todo = Todo::new();
    run(&mut todo, "add a");
    run(&mut todo, "add b");
    let out = run(&mut todo, "rm 1");
    assert!(out.kind == ResponseType::Continue);
    assert_eq!(todo.item_vec.len(), 1);
    assert_eq!(todo.item_vec[0].description, "b");
    assert!(out.value.starts_with("1 "));
}

#[test]
fn remove_by_description_takes_all() {
    let mut todo = Todo::new();
    run(&mut todo, "add dup");
    run(&mut todo, "add keep");
    run(&mut todo, "add dup");
    run(&mut todo, "rm dup");
    assert_eq!(todo.item_vec.len(), 1);
    assert_eq!(todo.item_vec[0].description, "keep");
}

#[test]
fn remove_by_unknown_description_is_silent() {
    let mut todo = Todo::new();
    run(&mut todo, "add a");
    let out = run(&mut todo, "remove nothing here");
    assert!(out.kind == ResponseType::Continue);
    assert_eq!(todo.item_vec.len(), 1);
}

#[test]
fn remove_out_of_range_fails() {
    let mut todo = Todo::new();
    run(&mut todo, "add a");
    let out = run(&mut todo, "rem 5");
    assert!(out.kind == ResponseType::Error);
    assert!(out.value.contains("unable to find item 5"));
    assert_eq!(todo.item_vec.len(), 1);
}

#[test]
fn done_out_of_range_fails() {
    let mut todo = Todo::new();
    run(&mut todo, "add a");
    let out = run(&mut todo, "done 99");
    assert!(out.kind == ResponseType::Error);
    assert!(out.value.contains("unable to find item 99"));
    assert!(out.value.contains("a"));
    assert!(todo.item_vec[0].state == State::Todo);
}

#[test]
fn done_zero_fails() {
    let mut todo = Todo::new();
    run(&mut todo, "add a");
    let out = run(&mut todo, "d 0");
    assert!(out.kind == ResponseType::Error);
    assert!(out.value.contains("unable to find item 0"));
}

#[test]
fn done_by_description() {
    let mut todo = Todo::new();
    run(&mut todo, "add walk the dog");
    run(&mut todo, "add walk the dog");
    run(&mut todo, "f walk the dog");
    assert!(todo.item_vec[0].state == State::Done);
    assert!(todo.item_vec[1].state == State::Todo);
    let out = run(&mut todo, "done feed the cat");
    assert!(out.kind == ResponseType::Error);
    assert!(out.value.contains("unable to find item feed the cat"));
}

#[test]
fn done_with_plus_sign_reads_index() {
    let mut todo = Todo::new();
    run(&mut todo, "add a");
    run(&mut todo, "done +1");
    assert!(todo.item_vec[0].state == State::Done);
}

#[test]
fn unknown_verb_fails() {
    let mut todo = Todo::new();
    run(&mut todo, "add a");
    let out = run(&mut todo, "xyz");
    assert!(out.kind == ResponseType::Error);
    assert!(out.value.contains("unknown argument: xyz"));
    assert!(!out.value.ends_with("unknown argument: xyz"));
    assert_eq!(todo.item_vec.len(), 1);
}

#[test]
fn empty_line_does_nothing() {
    let mut todo = Todo::new();
    run(&mut todo, "add a");
    let out = run(&mut todo, "");
    assert!(out.kind == ResponseType::Continue);
    assert_eq!(out.value, "");
    assert!(out.persist.is_none());
    assert_eq!(todo.item_vec.len(), 1);
    let out = run(&mut todo, "  \t\n");
    assert!(out.kind == ResponseType::Continue);
    assert_eq!(out.value, "");
    assert!(out.persist.is_none());
}

#[test]
fn verbs_are_case_insensitive_and_text_is_lowered() {
    let mut todo = Todo::new();
    run(&mut todo, "ADD Buy  MILK\n");
    assert_eq!(todo.item_vec[0].description, "buy milk");
}

#[test]
fn save_writes_file_and_note() {
    let mut todo = Todo::new();
    run(&mut todo, "a one");
    let out = run(&mut todo, "s");
    assert!(out.kind == ResponseType::Continue);
    assert!(out.value.ends_with("wrote list to TODO.md"));
    assert_eq!(out.persist.as_deref(), Some("- [ ] one\n"));
}

#[test]
fn quit_saves_and_exits() {
    for verb in ["quit", "exit", "q", "e"] {
        let mut todo = Todo::new();
        run(&mut todo, "add one");
        let out = run(&mut todo, verb);
        assert!(out.kind == ResponseType::Exit);
        assert!(out.value.contains("buh-bye!"));
        assert_ne!(out.value, "buh-bye!");
        assert_eq!(out.persist.as_deref(), Some("- [ ] one\n"));
    }
}

#[test]
fn help_shows_usage() {
    let mut todo = Todo::new();
    for verb in ["help", "h"] {
        let out = run(&mut todo, verb);
        assert!(out.kind == ResponseType::Continue);
        assert!(out.value.contains("Available commands:"));
        assert_ne!(out.value, HELP_TEXT);
        assert!(out.persist.is_none());
    }
}

#[test]
fn execute_without_words_fails() {
    let mut todo = Todo::new();
    let out = todo.execute(" ");
    assert!(out.kind == ResponseType::Error);
    assert!(out.value.contains("no argument made"));
}
