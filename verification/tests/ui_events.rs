use terminal_note::app::{App, PendingOperation};
use terminal_note::note::Note;
use terminal_note::storage::Storage;
use terminal_note::time::Timestamp;
use terminal_note::ui::{InputEvent, Key, UIError, UiAction};

fn note(id: &str, title: &str, body: &str, updated: i64) -> Note {
    let t = Timestamp::from_unix(updated, 0).unwrap();
    Note { id: id.to_string(), title: title.to_string(), body: body.to_string(), created_at: t, updated_at: t, encrypted: false }
}

fn app_with(notes: Vec<Note>) -> App {
    App::new(Storage { base_dir: "./notes".to_string() }, notes)
}

fn key(app: &mut App, k: Key) -> UiAction {
    app.handle_event(InputEvent::Key(k))
}

#[test]
fn q_and_esc_quit_while_browsing() {
    let mut app = app_with(vec![]);
    assert!(matches!(key(&mut app, Key::Char('q')), UiAction::Nothing));
    assert!(app.should_quit);
    let mut app = app_with(vec![]);
    key(&mut app, Key::Esc);
    assert!(app.should_quit);
}

#[test]
fn n_asks_for_a_new_note_and_selects_the_top() {
    let mut app = app_with(vec![note("a", "", "", 1), note("b", "", "", 2)]);
    app.selected_index = 1;
    match key(&mut app, Key::Char('n')) {
        UiAction::AddNote { title, body } => assert_eq!((title.as_str(), body.as_str()), ("New Note", "")),
        _ => panic!("expected a new note"),
    }
    assert_eq!(app.selected_index, 0);
}

#[test]
fn arrows_move_within_the_list() {
    let mut app = app_with(vec![note("a", "", "", 1), note("b", "", "", 2)]);
    key(&mut app, Key::Up);
    assert_eq!(app.selected_index, 0);
    key(&mut app, Key::Down);
    assert_eq!(app.selected_index, 1);
    key(&mut app, Key::Down);
    assert_eq!(app.selected_index, 1);
    key(&mut app, Key::Up);
    assert_eq!(app.selected_index, 0);
}

#[test]
fn d_deletes_the_selected_note_and_moves_up() {
    let mut app = app_with(vec![note("old", "", "", 1), note("new", "", "", 2)]);
    app.selected_index = 1;
    match key(&mut app, Key::Char('d')) {
        UiAction::DeleteNote { id } => assert_eq!(id, "old"),
        _ => panic!("expected a deletion"),
    }
    assert_eq!(app.selected_index, 0);
    let mut empty = app_with(vec![]);
    assert!(matches!(key(&mut empty, Key::Char('d')), UiAction::Nothing));
}

#[test]
fn l_opens_the_lock_prompt_for_the_selected_note() {
    let mut app = app_with(vec![note("a", "", "x", 1)]);
    key(&mut app, Key::Char('l'));
    assert!(app.password_prompt_active);
    assert!(matches!(&app.pending_operation, Some(PendingOperation::Lock(id)) if id == "a"));
}

#[test]
fn enter_edits_a_plain_note_and_unlocks_a_locked_one() {
    let mut app = app_with(vec![note("a", "", "text", 1)]);
    key(&mut app, Key::Enter);
    assert!(app.is_editing);
    let mut locked = note("s", "\u{1F512} Encrypted", "", 1);
    locked.encrypted = true;
    let mut app = app_with(vec![locked]);
    key(&mut app, Key::Enter);
    assert!(!app.is_editing && app.password_prompt_active);
    assert!(matches!(&app.pending_operation, Some(PendingOperation::Unlock(id)) if id == "s"));
}

#[test]
fn typing_into_the_password_prompt() {
    let mut app = app_with(vec![]);
    app.initiate_unlock("a");
    key(&mut app, Key::Char('p'));
    key(&mut app, Key::Char('w'));
    key(&mut app, Key::Char('x'));
    key(&mut app, Key::Backspace);
    assert_eq!(app.password_buffer, "pw");
    assert!(matches!(key(&mut app, Key::Enter), UiAction::SubmitPassword));
    assert!(!app.should_quit);
    key(&mut app, Key::Char('q'));
    assert!(!app.should_quit);
    key(&mut app, Key::Esc);
    assert!(!app.password_prompt_active && app.password_buffer.is_empty() && app.pending_operation.is_none());
}

#[test]
fn editing_changes_the_body_and_esc_asks_to_save() {
    let mut app = app_with(vec![note("a", "t", "hi", 1)]);
    key(&mut app, Key::Enter);
    key(&mut app, Key::Char('!'));
    key(&mut app, Key::Enter);
    key(&mut app, Key::Char('x'));
    key(&mut app, Key::Backspace);
    app.handle_event(InputEvent::Paste("pasted".to_string()));
    assert_eq!(app.notes.get("a").unwrap().body, "hi!\npasted");
    match key(&mut app, Key::Esc) {
        UiAction::SaveEdit { id, body } => assert_eq!((id.as_str(), body.as_str()), ("a", "hi!\npasted")),
        _ => panic!("expected a save"),
    }
    assert!(!app.is_editing);
}

#[test]
fn editing_without_a_selected_note_stops_editing() {
    let mut app = app_with(vec![]);
    app.is_editing = true;
    key(&mut app, Key::Char('x'));
    assert!(!app.is_editing);
}

#[test]
fn paste_outside_editing_does_nothing() {
    let mut app = app_with(vec![note("a", "t", "hi", 1)]);
    app.handle_event(InputEvent::Paste("zzz".to_string()));
    assert_eq!(app.notes.get("a").unwrap().body, "hi");
    app.handle_event(InputEvent::Other);
    assert!(!app.should_quit);
}

#[test]
fn screen_lists_notes_newest_first() {
    let mut locked = note("s", "\u{1F512} Encrypted", "", 5);
    locked.encrypted = true;
    let mut app = app_with(vec![note("a", "First", "one\ntwo", 1), locked]);
    let screen = app.screen();
    let texts: Vec<&str> = screen.sidebar.iter().map(|i| i.text.as_str()).collect();
    assert_eq!(texts, vec!["\u{1F512} s", " First"]);
    assert!(screen.sidebar[0].selected && !screen.sidebar[1].selected);
    let pane = screen.pane.unwrap();
    assert_eq!(pane.block_title, " Encrypted Note ");
    assert_eq!(pane.notice.as_deref(), Some("This note is encrypted. Press Enter to unlock."));
    assert!(pane.body_lines.is_empty());
    assert!(screen.popup.is_none());
    app.selected_index = 1;
    app.is_editing = true;
    let pane = app.screen().pane.unwrap();
    assert_eq!(pane.title, "First");
    assert_eq!(pane.body_lines, vec!["one", "two"]);
    assert_eq!(pane.block_title, " Editing Content (Esc to save) ");
    assert!(pane.editing && pane.notice.is_none());
    app.is_editing = false;
    assert_eq!(app.screen().pane.unwrap().block_title, " Note Content (Enter to edit, 'l' to lock) ");
    app.selected_index = 7;
    assert!(app.screen().pane.is_none());
}

#[test]
fn screen_shows_the_password_prompt() {
    let mut app = app_with(vec![note("a", "t", "b", 1)]);
    app.initiate_lock("a");
    app.password_buffer.push_str("pé");
    let popup = app.screen().popup.unwrap();
    assert_eq!(popup.title, " Set Password ");
    assert_eq!(popup.text, "***");
    app.initiate_unlock("a");
    app.error_message = Some("Incorrect password".to_string());
    let popup = app.screen().popup.unwrap();
    assert_eq!(popup.title, " Enter Password ");
    assert_eq!(popup.text, "Incorrect password\n\nPress Esc to cancel.");
}

#[test]
fn ui_error_messages() {
    assert_eq!(UIError::Tui("boom".to_string()).message(), "TUI error: boom");
    let e = UIError::from(std::io::Error::new(std::io::ErrorKind::Other, "tty gone"));
    assert_eq!(e.message(), "Crossterm error: tty gone");
}
