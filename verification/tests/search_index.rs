use terminal_note::note::Note;
use terminal_note::search::SearchEngine;
use terminal_note::time::Timestamp;

fn note(id: &str, title: &str, body: &str) -> Note {
    let t = Timestamp::from_unix(0, 0).unwrap();
    Note { id: id.to_string(), title: title.to_string(), body: body.to_string(), created_at: t, updated_at: t, encrypted: false }
}

#[test]
fn query_finds_notes_by_title_or_body() {
    let notes = vec![note("1", "Rust notes", "borrowing rules"), note("2", "Groceries", "milk rust-proof"), note("3", "rust", "Rust again")];
    let engine = SearchEngine::new(&notes);
    assert_eq!(engine.query("rust"), vec!["1", "3"]);
    assert_eq!(engine.query("milk"), vec!["2"]);
    assert_eq!(engine.query("rust-proof"), vec!["2"]);
    assert!(engine.query("python").is_empty());
}

#[test]
fn query_is_case_insensitive() {
    let notes = vec![note("a", "Hello World", "")];
    let engine = SearchEngine::new(&notes);
    assert_eq!(engine.query("HELLO"), vec!["a"]);
    assert_eq!(engine.query("world"), vec!["a"]);
    assert_eq!(engine.query("WoRlD"), vec!["a"]);
}

#[test]
fn query_lists_each_note_once() {
    let notes = vec![note("a", "echo echo", "echo"), note("b", "Echo", "")];
    let engine = SearchEngine::new(&notes);
    assert_eq!(engine.query("echo"), vec!["a", "b"]);
}

#[test]
fn shared_identifiers_appear_once() {
    let notes = vec![note("x", "one", ""), note("x", "one two", "")];
    let engine = SearchEngine::new(&notes);
    assert_eq!(engine.query("one"), vec!["x"]);
    assert_eq!(engine.query("two"), vec!["x"]);
}

#[test]
fn punctuation_is_kept_and_phrases_do_not_match() {
    let notes = vec![note("p", "Hi, there.", "")];
    let engine = SearchEngine::new(&notes);
    assert_eq!(engine.query("hi,"), vec!["p"]);
    assert!(engine.query("hi").is_empty());
    assert!(engine.query("hi, there.").is_empty());
}

#[test]
fn empty_index() {
    let engine = SearchEngine::new(&[]);
    assert!(engine.query("").is_empty());
    assert!(engine.query("anything").is_empty());
}

#[test]
fn unicode_lower_casing() {
    let notes = vec![note("u", "ΟΔΥΣΣΕΥΣ", "Größe")];
    let engine = SearchEngine::new(&notes);
    assert_eq!(engine.query("ΟΔΥΣΣΕΥΣ"), vec!["u"]);
    assert_eq!(engine.query("GRÖSSE").len(), 0);
    assert_eq!(engine.query("größe"), vec!["u"]);
}
