use ref_aggregator::text::{add_once, copy_texts, holds_text, same_text};

#[test]
fn same_text_compares_characters() {
    assert!(same_text("", ""));
    assert!(same_text("Running", "Running"));
    assert!(!same_text("Running", "running"));
    assert!(!same_text("Running", "Runnin"));
    assert!(!same_text("a", "b"));
    assert!(same_text("caf\u{e9}", "caf\u{e9}"));
    assert!(!same_text("caf\u{e9}", "cafe"));
}

#[test]
fn holds_text_finds_members_only() {
    let list = vec!["a@1".to_string(), "b@2".to_string()];
    assert!(holds_text(&list, "a@1"));
    assert!(holds_text(&list, "b@2"));
    assert!(!holds_text(&list, "a@2"));
    assert!(!holds_text(&list, ""));
    assert!(!holds_text(&Vec::new(), "a@1"));
}

#[test]
fn copy_texts_copies_in_order() {
    let list = vec!["x".to_string(), "".to_string(), "y".to_string()];
    assert_eq!(copy_texts(&list), list);
    assert_eq!(copy_texts(&Vec::new()), Vec::<String>::new());
}

#[test]
fn add_once_adds_what_is_not_there() {
    let mut list: Vec<String> = Vec::new();
    add_once(&mut list, "a");
    add_once(&mut list, "b");
    add_once(&mut list, "a");
    add_once(&mut list, "");
    add_once(&mut list, "b");
    add_once(&mut list, "");
    assert_eq!(list, vec!["a".to_string(), "b".to_string(), "".to_string()]);
}
