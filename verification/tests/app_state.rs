use terminal_note::app::{App, AppError, PasswordStep, PendingOperation};
use terminal_note::note::Note;
use terminal_note::crypto::CryptoError;
use terminal_note::storage::{Storage, StorageError};
use terminal_note::time::Timestamp;

fn ts(secs: i64) -> Timestamp {
    Timestamp::from_unix(secs, 0).unwrap()
}

fn note(id: &str, title: &str, body: &str, updated: i64) -> Note {
    Note { id: id.to_string(), title: title.to_string(), body: body.to_string(), created_at: ts(0), updated_at: ts(updated), encrypted: false }
}

fn storage() -> Storage {
    Storage { base_dir: "./notes".to_string() }
}

fn io_error() -> StorageError {
    StorageError::Io(std::io::Error::new(std::io::ErrorKind::Other, "disk full"))
}

fn app_with(notes: Vec<Note>) -> App {
    App::new(storage(), notes)
}

#[test]
fn new_keys_notes_and_indexes_them() {
    let app = app_with(vec![note("a", "alpha", "", 1), note("b", "beta", "", 2)]);
    assert_eq!(app.notes.len(), 2);
    assert_eq!(app.notes.get("a").unwrap().title, "alpha");
    assert_eq!(app.search_engine.query("beta"), vec!["b"]);
    assert!(app.current_note_id.is_none());
    assert!(!app.should_quit && !app.is_editing && !app.password_prompt_active);
    assert_eq!(app.selected_index, 0);
    assert!(app.password_buffer.is_empty() && app.pending_operation.is_none() && app.error_message.is_none());
    assert_eq!(app.storage.base_dir, "./notes");
}

#[test]
fn later_notes_replace_earlier_ones_with_the_same_id() {
    let app = app_with(vec![note("a", "old", "", 1), note("a", "new", "", 2)]);
    assert_eq!(app.notes.len(), 1);
    assert_eq!(app.notes.get("a").unwrap().title, "new");
}

#[test]
fn add_note_inserts_and_reindexes() {
    let mut app = app_with(vec![]);
    let n = Note::new_at("Fresh", "words here", ts(10));
    let id = n.id.clone();
    assert!(app.add_note(n, Ok(())).is_ok());
    assert_eq!(app.notes.get(&id).unwrap().title, "Fresh");
    assert_eq!(app.search_engine.query("words"), vec![id]);
}

#[test]
fn add_note_that_was_not_saved_changes_nothing() {
    let mut app = app_with(vec![note("a", "t", "", 1)]);
    let r = app.add_note(note("z", "zed", "", 2), Err(io_error()));
    assert!(matches!(r, Err(AppError::Storage(StorageError::Io(_)))));
    assert!(app.notes.get("z").is_none());
    assert!(app.search_engine.query("zed").is_empty());
}

#[test]
fn edit_flow_reindexes_the_edited_note() {
    let mut app = app_with(vec![note("a", "before", "", 1)]);
    let edited = app.edited_note("a", Some("after"), None, ts(50)).ok().unwrap();
    assert_eq!(edited.title, "after");
    assert_eq!(edited.updated_at.secs(), 50);
    assert!(app.edit_note("a", edited, Ok(())).is_ok());
    assert_eq!(app.notes.get("a").unwrap().title, "after");
    assert!(app.search_engine.query("before").is_empty());
    assert_eq!(app.search_engine.query("after"), vec!["a"]);
}

#[test]
fn editing_a_missing_note_is_a_search_error() {
    let app = app_with(vec![]);
    assert!(matches!(app.edited_note("nope", None, Some("x"), ts(1)), Err(AppError::Search)));
}

#[test]
fn edit_that_was_not_saved_changes_nothing() {
    let mut app = app_with(vec![note("a", "t", "body", 1)]);
    let edited = app.edited_note("a", None, Some("new body"), ts(9)).ok().unwrap();
    assert_eq!(edited.body, "new body");
    assert_eq!(edited.title, "t");
    assert!(app.edit_note("a", edited, Err(io_error())).is_err());
    assert_eq!(app.notes.get("a").unwrap().body, "body");
}

#[test]
fn delete_flow() {
    let mut app = app_with(vec![note("a", "apple", "", 1), note("b", "banana", "", 2)]);
    let removed = app.delete_note("a").ok().unwrap();
    assert_eq!(removed.title, "apple");
    assert!(app.notes.get("a").is_none());
    assert_eq!(app.search_engine.query("apple"), vec!["a"]);
    assert!(app.finish_delete(Ok(())).is_ok());
    assert!(app.search_engine.query("apple").is_empty());
    assert_eq!(app.search_engine.query("banana"), vec!["b"]);
}

#[test]
fn deleting_a_missing_note_is_a_search_error() {
    let mut app = app_with(vec![note("a", "apple", "", 1)]);
    assert!(matches!(app.delete_note("zzz"), Err(AppError::Search)));
    assert_eq!(app.notes.len(), 1);
}

#[test]
fn failed_file_removal_keeps_the_old_index() {
    let mut app = app_with(vec![note("a", "apple", "", 1)]);
    app.delete_note("a").ok().unwrap();
    assert!(matches!(app.finish_delete(Err(io_error())), Err(AppError::Storage(_))));
    assert_eq!(app.search_engine.query("apple"), vec!["a"]);
}

#[test]
fn search_returns_notes_of_known_ids() {
    let mut app = app_with(vec![note("a", "cat", "", 1), note("b", "cat dog", "", 2)]);
    let found: Vec<String> = app.search("CAT").iter().map(|n| n.id.clone()).collect();
    assert_eq!(found, vec!["a", "b"]);
    app.delete_note("a").ok().unwrap();
    let found: Vec<String> = app.search("cat").iter().map(|n| n.id.clone()).collect();
    assert_eq!(found, vec!["b"]);
}

#[test]
fn load_all_replaces_the_notes() {
    let mut app = app_with(vec![note("a", "old", "", 1)]);
    assert!(app.load_all(Ok(vec![note("b", "new", "", 2), note("c", "newer", "", 3)])).is_ok());
    assert!(app.notes.get("a").is_none());
    assert_eq!(app.notes.len(), 2);
    assert_eq!(app.search_engine.query("newer"), vec!["c"]);
    assert!(app.search_engine.query("old").is_empty());
    assert!(app.load_all(Err(io_error())).is_err());
    assert_eq!(app.notes.len(), 2);
}

#[test]
fn sorted_ids_put_the_newest_first() {
    let app = app_with(vec![note("a", "", "", 5), note("b", "", "", 9), note("c", "", "", 1), note("d", "", "", 9)]);
    assert_eq!(app.get_sorted_note_ids(), vec!["b", "d", "a", "c"]);
}

#[test]
fn sorted_ids_use_sub_second_times() {
    let mut x = note("x", "", "", 5);
    x.updated_at = Timestamp::from_unix(5, 2).unwrap();
    let mut y = note("y", "", "", 5);
    y.updated_at = Timestamp::from_unix(5, 1).unwrap();
    let app = app_with(vec![y, x]);
    assert_eq!(app.get_sorted_note_ids(), vec!["x", "y"]);
}

#[test]
fn prompt_opens_and_closes() {
    let mut app = app_with(vec![]);
    app.password_buffer.push_str("old");
    app.error_message = Some("e".to_string());
    app.initiate_unlock("n1");
    assert!(app.password_prompt_active && app.password_buffer.is_empty() && app.error_message.is_none());
    assert!(matches!(&app.pending_operation, Some(PendingOperation::Unlock(id)) if id == "n1"));
    app.initiate_lock("n2");
    assert!(matches!(&app.pending_operation, Some(PendingOperation::Lock(id)) if id == "n2"));
    app.cancel_password();
    assert!(!app.password_prompt_active && app.pending_operation.is_none() && app.password_buffer.is_empty());
}

#[test]
fn submitting_asks_for_the_pending_work() {
    let mut app = app_with(vec![note("a", "t", "b", 1)]);
    assert!(matches!(app.submit_password(), PasswordStep::Idle));
    app.initiate_unlock("a");
    app.password_buffer.push_str("pw");
    match app.submit_password() {
        PasswordStep::Unlock { id, password } => assert_eq!((id.as_str(), password.as_str()), ("a", "pw")),
        _ => panic!("expected unlock"),
    }
    app.initiate_lock("a");
    app.password_buffer.push_str("secret");
    match app.submit_password() {
        PasswordStep::Lock { id, note, password } => {
            assert_eq!((id.as_str(), note.title.as_str(), password.as_str()), ("a", "t", "secret"));
        }
        _ => panic!("expected lock"),
    }
    app.initiate_lock("gone");
    assert!(matches!(app.submit_password(), PasswordStep::Idle));
}

#[test]
fn unlock_outcomes() {
    let mut app = app_with(vec![]);
    app.initiate_unlock("a");
    app.password_buffer.push_str("wrong");
    app.unlock_finished("a".to_string(), Err(io_error()));
    assert_eq!(app.error_message.as_deref(), Some("Incorrect password"));
    assert!(app.password_buffer.is_empty() && app.password_prompt_active);
    app.unlock_finished("a".to_string(), Ok(note("a", "secret title", "secret body", 1)));
    assert_eq!(app.notes.get("a").unwrap().body, "secret body");
    assert_eq!(app.search_engine.query("secret"), vec!["a"]);
    assert!(!app.password_prompt_active && app.pending_operation.is_none() && app.error_message.is_none());
}

#[test]
fn lock_outcomes() {
    let mut app = app_with(vec![note("a", "t", "b", 1)]);
    app.initiate_lock("a");
    assert!(matches!(app.lock_saved(Err(io_error())), Err(AppError::Storage(_))));
    assert!(app.lock_saved(Ok(())).is_ok());
    let mut placeholder = note("a", "\u{1F512} Encrypted", "", 1);
    placeholder.encrypted = true;
    assert_eq!(app.search_engine.query("t"), vec!["a"]);
    app.lock_finished("a".to_string(), Ok(placeholder));
    assert!(app.notes.get("a").unwrap().encrypted);
    assert!(app.search_engine.query("t").is_empty());
    assert_eq!(app.search_engine.query("encrypted"), vec!["a"]);
    assert!(!app.password_prompt_active && app.pending_operation.is_none());
    app.initiate_lock("a");
    app.lock_finished("a".to_string(), Err(io_error()));
    assert!(app.notes.get("a").unwrap().encrypted);
    assert!(!app.password_prompt_active);
}

#[test]
fn error_messages() {
    assert_eq!(AppError::Search.message(), "Search error");
    let m = AppError::Storage(io_error()).message();
    assert_eq!(m, "Storage error: IO error: disk full");
    let c = AppError::Storage(StorageError::Crypto(CryptoError::Custom("invalid base64".to_string()))).message();
    assert_eq!(c, "Storage error: Crypto error: invalid base64");
    let a: AppError = AppError::from(io_error());
    assert!(matches!(a, AppError::Storage(StorageError::Io(_))));
}

#[test]
fn adding_then_deleting_restores_the_notes() {
    let mut app = app_with(vec![note("a", "apple", "", 3), note("b", "berry", "", 1)]);
    let before = app.get_sorted_note_ids();
    let n = note("c", "cherry", "", 2);
    assert!(app.add_note(n, Ok(())).is_ok());
    assert_eq!(app.get_sorted_note_ids(), vec!["a", "c", "b"]);
    app.delete_note("c").ok().unwrap();
    assert!(app.finish_delete(Ok(())).is_ok());
    assert_eq!(app.get_sorted_note_ids(), before);
    assert!(app.search_engine.query("cherry").is_empty());
    assert_eq!(app.search_engine.query("apple"), vec!["a"]);
}

#[test]
fn cancelling_a_fresh_prompt_restores_the_state() {
    let mut app = app_with(vec![note("a", "t", "b", 1)]);
    app.initiate_lock("a");
    app.password_buffer.push_str("typed");
    app.cancel_password();
    assert!(!app.password_prompt_active && app.password_buffer.is_empty());
    assert!(app.pending_operation.is_none() && app.error_message.is_none());
    assert_eq!(app.notes.len(), 1);
    assert_eq!(app.notes.get("a").unwrap().body, "b");
}
