//! What the terminal interface decides: how a key press or a paste changes
//! the application state, what storage work it asks for, and what the
//! screen shows.
use vstd::prelude::*;
use crate::app::{
    App, AppView, PendingView, ids_of, newest_first, PendingOperation, ordered_notes, prompt_opened,
    prompt_closed,
};
use crate::note::{Note, NoteView};
use crate::text::{views, without_last, push_char, pop_char, lines, split_lines};
use crate::storage::io_error_text;
use crate::text::{begins_with, prefixed};

verus! {

/// Errors of the terminal interface.
#[derive(Debug)]
pub enum UIError {
    Tui(String),
    Crossterm(std::io::Error),
}

impl UIError {
    /// The error's message: "TUI error: " and the message, or
    /// "Crossterm error: " and the I/O error's message.
    pub fn message(&self) -> (r: String)
        ensures
            match self {
                UIError::Tui(m) => r@ == "TUI error: "@ + m@,
                UIError::Crossterm(_) => begins_with(r@, "Crossterm error: "@),
            },
    {
        match self {
            UIError::Tui(m) => prefixed("TUI error: ", m.as_str()),
            UIError::Crossterm(e) => {
                let r = prefixed("Crossterm error: ", io_error_text(e).as_str());
                assert(r@.take("Crossterm error: "@.len() as int) =~= "Crossterm error: "@);
                r
            },
        }
    }
}

impl From<std::io::Error> for UIError {
    fn from(e: std::io::Error) -> (r: UIError) {
        UIError::Crossterm(e)
    }
}

impl vstd::std_specs::convert::FromSpecImpl<std::io::Error> for UIError {
    open spec fn obeys_from_spec() -> bool {
        true
    }

    open spec fn from_spec(e: std::io::Error) -> UIError {
        UIError::Crossterm(e)
    }
}

/// A key that the interface reacts to.
#[derive(Clone, Copy, Debug, PartialEq, Eq)]
pub enum Key {
    Char(char),
    Esc,
    Enter,
    Backspace,
    Up,
    Down,
    Other,
}

/// An input event.
pub enum InputEvent {
    Key(Key),
    Paste(String),
    Other,
}

/// The mathematical value of an input event.
pub enum EventView {
    Key(Key),
    Paste(Seq<char>),
    Other,
}

impl View for InputEvent {
    type V = EventView;

    open spec fn view(&self) -> EventView {
        match self {
            InputEvent::Key(k) => EventView::Key(*k),
            InputEvent::Paste(s) => EventView::Paste(s@),
            InputEvent::Other => EventView::Other,
        }
    }
}

/// Storage work that an input event asks the caller to do.
pub enum UiAction {
    Nothing,
    /// Submit the typed password (see `App::submit_password`).
    SubmitPassword,
    /// Store the note `id` with the given body (see `App::edited_note`).
    SaveEdit { id: String, body: String },
    /// Create and store a note with this title and body (see
    /// `App::add_note`).
    AddNote { title: String, body: String },
    /// Delete the note `id` (see `App::delete_note`).
    DeleteNote { id: String },
}

/// The mathematical value of an action.
pub enum ActionView {
    Nothing,
    SubmitPassword,
    SaveEdit(Seq<char>, Seq<char>),
    AddNote(Seq<char>, Seq<char>),
    DeleteNote(Seq<char>),
}

impl View for UiAction {
    type V = ActionView;

    open spec fn view(&self) -> ActionView {
        match self {
            UiAction::Nothing => ActionView::Nothing,
            UiAction::SubmitPassword => ActionView::SubmitPassword,
            UiAction::SaveEdit { id, body } => ActionView::SaveEdit(id@, body@),
            UiAction::AddNote { title, body } => ActionView::AddNote(title@, body@),
            UiAction::DeleteNote { id } => ActionView::DeleteNote(id@),
        }
    }
}

/// The identifiers of the notes, newest update first, as the list shows
/// them.
pub open spec fn listed_ids(v: AppView) -> Seq<Seq<char>> {
    ids_of(newest_first(ordered_notes(v)))
}

/// `notes` with `text` appended to the body of the note `id`, if there is
/// one.
pub open spec fn append_body(notes: Map<Seq<char>, NoteView>, id: Seq<char>, text: Seq<char>) -> Map<Seq<char>, NoteView> {
    if notes.contains_key(id) {
        notes.insert(id, NoteView { body: notes[id].body + text, ..notes[id] })
    } else {
        notes
    }
}

/// `notes` with the last character of the body of the note `id` removed,
/// if there is such a note and character.
pub open spec fn pop_body(notes: Map<Seq<char>, NoteView>, id: Seq<char>) -> Map<Seq<char>, NoteView> {
    if notes.contains_key(id) {
        notes.insert(id, NoteView { body: without_last(notes[id].body), ..notes[id] })
    } else {
        notes
    }
}

/// A key pressed while the password prompt is open.
pub open spec fn prompt_step(v: AppView, k: Key) -> (AppView, ActionView) {
    match k {
        Key::Esc => (prompt_closed(v), ActionView::Nothing),
        Key::Enter => (v, ActionView::SubmitPassword),
        Key::Backspace => (
            AppView { password_buffer: without_last(v.password_buffer), ..v },
            ActionView::Nothing,
        ),
        Key::Char(c) => (AppView { password_buffer: v.password_buffer.push(c), ..v }, ActionView::Nothing),
        _ => (v, ActionView::Nothing),
    }
}

/// A key pressed while the selected note's body is being edited.
pub open spec fn edit_step(v: AppView, k: Key) -> (AppView, ActionView) {
    let ids = listed_ids(v);
    let sel: int = v.selected_index;
    if sel < ids.len() {
        let id = ids[sel];
        match k {
            Key::Esc => (
                AppView { is_editing: false, ..v },
                if v.notes.contains_key(id) {
                    ActionView::SaveEdit(id, v.notes[id].body)
                } else {
                    ActionView::Nothing
                },
            ),
            Key::Char(c) => (AppView { notes: append_body(v.notes, id, seq![c]), ..v }, ActionView::Nothing),
            Key::Backspace => (AppView { notes: pop_body(v.notes, id), ..v }, ActionView::Nothing),
            Key::Enter => (AppView { notes: append_body(v.notes, id, seq!['\n']), ..v }, ActionView::Nothing),
            _ => (v, ActionView::Nothing),
        }
    } else {
        (AppView { is_editing: false, ..v }, ActionView::Nothing)
    }
}

/// A key pressed while browsing the list of notes.
pub open spec fn browse_step(v: AppView, k: Key) -> (AppView, ActionView) {
    let ids = listed_ids(v);
    let sel: int = v.selected_index;
    match k {
        Key::Char(c) => if c == 'q' {
            (AppView { should_quit: true, ..v }, ActionView::Nothing)
        } else if c == 'n' {
            (AppView { selected_index: 0, ..v }, ActionView::AddNote("New Note"@, seq![]))
        } else if c == 'd' {
            if sel < ids.len() {
                (
                    AppView { selected_index: if sel > 0 { sel - 1 } else { sel }, ..v },
                    ActionView::DeleteNote(ids[sel]),
                )
            } else {
                (v, ActionView::Nothing)
            }
        } else if c == 'l' {
            if sel < ids.len() {
                (prompt_opened(v, PendingView::Lock(ids[sel])), ActionView::Nothing)
            } else {
                (v, ActionView::Nothing)
            }
        } else {
            (v, ActionView::Nothing)
        },
        Key::Esc => (AppView { should_quit: true, ..v }, ActionView::Nothing),
        Key::Up => (
            AppView { selected_index: if sel > 0 { sel - 1 } else { sel }, ..v },
            ActionView::Nothing,
        ),
        Key::Down => (
            AppView { selected_index: if sel + 1 < ids.len() { sel + 1 } else { sel }, ..v },
            ActionView::Nothing,
        ),
        Key::Enter => if sel < ids.len() && v.notes.contains_key(ids[sel]) {
            let n = v.notes[ids[sel]];
            if n.encrypted && n.body.len() == 0 {
                (prompt_opened(v, PendingView::Unlock(ids[sel])), ActionView::Nothing)
            } else {
                (AppView { is_editing: true, ..v }, ActionView::Nothing)
            }
        } else {
            (v, ActionView::Nothing)
        },
        _ => (v, ActionView::Nothing),
    }
}

/// How an input event changes the state, and the storage work it asks for.
pub open spec fn event_step(v: AppView, e: EventView) -> (AppView, ActionView) {
    match e {
        EventView::Key(k) => if v.password_prompt_active {
            prompt_step(v, k)
        } else if v.is_editing {
            edit_step(v, k)
        } else {
            browse_step(v, k)
        },
        EventView::Paste(t) => {
            let ids = listed_ids(v);
            if v.is_editing && v.selected_index < ids.len() {
                (
                    AppView { notes: append_body(v.notes, ids[v.selected_index], t), ..v },
                    ActionView::Nothing,
                )
            } else {
                (v, ActionView::Nothing)
            }
        },
        EventView::Other => (v, ActionView::Nothing),
    }
}

/// Pressing 'd' while browsing asks to delete the selected note of the
/// newest-first list, and changes no note; with no note selected it asks
/// for nothing and changes nothing.
pub proof fn law_delete_key_deletes_selected(v: AppView)
    requires
        !v.password_prompt_active,
        !v.is_editing,
        0 <= v.selected_index,
    ensures
        ({
            let (w, a) = event_step(v, EventView::Key(Key::Char('d')));
            &&& v.selected_index < listed_ids(v).len() ==> a == ActionView::DeleteNote(
                listed_ids(v)[v.selected_index],
            ) && w.notes == v.notes && w.keys == v.keys
            &&& v.selected_index >= listed_ids(v).len() ==> a == ActionView::Nothing && w == v
        }),
{
}

/// Pressing 'l' while browsing opens the password prompt to lock the
/// selected note of the newest-first list, asks for no storage work yet
/// and changes no note; with no note selected it does nothing.
pub proof fn law_lock_key_locks_selected(v: AppView)
    requires
        !v.password_prompt_active,
        !v.is_editing,
        0 <= v.selected_index,
    ensures
        ({
            let (w, a) = event_step(v, EventView::Key(Key::Char('l')));
            &&& v.selected_index < listed_ids(v).len() ==> {
                &&& w.pending_operation == Some(PendingView::Lock(listed_ids(v)[v.selected_index]))
                &&& w.password_prompt_active
                &&& w.password_buffer.len() == 0
                &&& a == ActionView::Nothing
                &&& w.notes == v.notes
            }
            &&& v.selected_index >= listed_ids(v).len() ==> a == ActionView::Nothing && w == v
        }),
{
}

/// A line of the list of notes.
pub struct SidebarItem {
    pub text: String,
    pub selected: bool,
}

/// The pane that shows the selected note.
pub struct NotePane {
    pub title: String,
    /// A notice shown in place of the body.
    pub notice: Option<String>,
    pub body_lines: Vec<String>,
    /// Whether the body is being edited (a cursor follows it).
    pub editing: bool,
    pub block_title: String,
}

/// The password prompt.
pub struct PasswordPopup {
    pub title: String,
    pub text: String,
}

/// What the screen shows.
pub struct Screen {
    pub sidebar: Vec<SidebarItem>,
    /// `None` where no note is selected.
    pub pane: Option<NotePane>,
    /// `None` where no password prompt is open.
    pub popup: Option<PasswordPopup>,
}

/// Whether a note shows as locked: encrypted, with its body not loaded.
pub open spec fn shows_locked(n: NoteView) -> bool {
    n.encrypted && n.body.len() == 0
}

/// The text of a note's line in the list.
pub open spec fn sidebar_text(n: NoteView) -> Seq<char> {
    if shows_locked(n) {
        "\u{1F512} "@ + n.id
    } else {
        " "@ + n.title
    }
}

/// The notice shown in place of a locked note's body.
pub open spec fn locked_notice() -> Seq<char> {
    "This note is encrypted. Press Enter to unlock."@
}

/// The title of the note pane.
pub open spec fn pane_title(n: NoteView, editing: bool) -> Seq<char> {
    if editing {
        " Editing Content (Esc to save) "@
    } else if shows_locked(n) {
        " Encrypted Note "@
    } else {
        " Note Content (Enter to edit, 'l' to lock) "@
    }
}

/// The title of the password prompt.
pub open spec fn popup_title(op: Option<PendingView>) -> Seq<char> {
    if op matches Some(PendingView::Lock(_)) {
        " Set Password "@
    } else {
        " Enter Password "@
    }
}

/// `n` stars.
pub open spec fn stars(n: nat) -> Seq<char> {
    Seq::new(n, |i: int| '*')
}

/// The text of the password prompt: the error and how to cancel, or one
/// star per byte of the typed password's UTF-8 encoding (a byte count, as a
/// `usize`).
pub open spec fn popup_text(error: Option<Seq<char>>, typed: Seq<char>) -> Seq<char> {
    match error {
        Some(e) => e + "\n\nPress Esc to cancel."@,
        None => stars((vstd::utf8::encode_utf8(typed).len() as usize) as nat),
    }
}

/// A note whose body is loaded (not empty), or that is not encrypted, shows
/// as itself whatever its encrypted flag: its line in the list is its
/// title, and the pane shows its body (no lock notice, the content title);
/// only an encrypted note with an empty body shows as locked, by its
/// identifier.
pub proof fn law_loaded_note_shows_its_text(n: NoteView)
    ensures
        n.body.len() > 0 || !n.encrypted ==> {
            &&& sidebar_text(n) == " "@ + n.title
            &&& !shows_locked(n)
            &&& pane_title(n, false) == " Note Content (Enter to edit, 'l' to lock) "@
        },
        n.encrypted && n.body.len() == 0 ==> {
            &&& sidebar_text(n) == "\u{1F512} "@ + n.id
            &&& shows_locked(n)
            &&& pane_title(n, false) == " Encrypted Note "@
        },
{
}

fn literal(s: &str) -> (r: String)
    ensures
        r@ == s@,
{
    s.to_owned()
}

impl App {
    /// What the screen shows: the notes newest first with the selected one
    /// marked, the selected note, and the password prompt when it is open.
    pub fn screen(&self) -> (s: Screen)
        requires
            self.wf(),
        ensures
            ({
                let sorted = newest_first(self.notes.notes_in_order());
                let sel: int = self.selected_index as int;
                &&& s.sidebar@.len() == sorted.len()
                &&& forall|i: int| 0 <= i < sorted.len() ==> {
                    &&& (#[trigger] s.sidebar@[i]).text@ == sidebar_text(sorted[i])
                    &&& s.sidebar@[i].selected == (i == sel)
                    &&& sorted[i].body.len() > 0 || !sorted[i].encrypted ==> s.sidebar@[i].text@ == " "@
                        + sorted[i].title
                }
                &&& match s.pane {
                    None => sel >= sorted.len(),
                    Some(p) => {
                        let n = sorted[sel];
                        &&& sel < sorted.len()
                        &&& p.title@ == n.title
                        &&& p.editing == self.is_editing
                        &&& p.block_title@ == pane_title(n, self.is_editing)
                        &&& n.body.len() > 0 || !n.encrypted ==> p.notice is None && views(p.body_lines@)
                            == lines(n.body)
                        &&& if shows_locked(n) {
                            &&& p.notice matches Some(t) && t@ == locked_notice()
                            &&& p.body_lines@.len() == 0
                        } else {
                            &&& p.notice is None
                            &&& views(p.body_lines@) == lines(n.body)
                        }
                    },
                }
                &&& match s.popup {
                    None => !self.password_prompt_active,
                    Some(p) => {
                        &&& self.password_prompt_active
                        &&& p.title@ == popup_title(self@.pending_operation)
                        &&& p.text@ == popup_text(self@.error_message, self.password_buffer@)
                    },
                }
            }),
    {
        let sorted = self.sorted_notes();
        let ghost sv = sorted@.map_values(|n: &Note| n@);
        let mut sidebar: Vec<SidebarItem> = Vec::new();
        let mut i: usize = 0;
        while i < sorted.len()
            invariant
                i <= sorted.len(),
                sv == sorted@.map_values(|n: &Note| n@),
                sidebar@.len() == i,
                forall|j: int| 0 <= j < i ==> {
                    &&& (#[trigger] sidebar@[j]).text@ == sidebar_text(sv[j])
                    &&& sidebar@[j].selected == (j == self.selected_index as int)
                },
            decreases sorted.len() - i,
        {
            let n = sorted[i];
            assert(sv[i as int] == n@);
            let text = if n.encrypted && n.body.as_str().is_empty() {
                let mut t = literal("\u{1F512} ");
                t.append(n.id.as_str());
                t
            } else {
                let mut t = literal(" ");
                t.append(n.title.as_str());
                t
            };
            proof {
                reveal_strlit("\u{1F512} ");
                reveal_strlit(" ");
            }
            sidebar.push(SidebarItem { text, selected: i == self.selected_index });
            i += 1;
        }
        let sel: usize = self.selected_index;
        let pane = if sel < sorted.len() {
            let n = sorted[sel];
            assert(sv[sel as int] == n@);
            let locked = n.encrypted && n.body.as_str().is_empty();
            let block_title = if self.is_editing {
                literal(" Editing Content (Esc to save) ")
            } else if locked {
                literal(" Encrypted Note ")
            } else {
                literal(" Note Content (Enter to edit, 'l' to lock) ")
            };
            let notice = if locked {
                Some(literal("This note is encrypted. Press Enter to unlock."))
            } else {
                None
            };
            let body_lines = if locked {
                Vec::new()
            } else {
                split_lines(n.body.as_str())
            };
            Some(
                NotePane {
                    title: n.title.clone(),
                    notice,
                    body_lines,
                    editing: self.is_editing,
                    block_title,
                },
            )
        } else {
            None
        };
        let popup = if self.password_prompt_active {
            let title = match &self.pending_operation {
                Some(PendingOperation::Lock(_)) => literal(" Set Password "),
                _ => literal(" Enter Password "),
            };
            let text = match &self.error_message {
                Some(e) => {
                    let mut t = e.clone();
                    t.append("\n\nPress Esc to cancel.");
                    assert(self@.error_message == Some(e@));
                    assert(t@ == popup_text(self@.error_message, self.password_buffer@));
                    t
                },
                None => {
                    let count: usize = self.password_buffer.as_str().len();
                    assert(count == (vstd::utf8::encode_utf8(self.password_buffer@).len() as usize));
                    assert(self@.error_message is None);
                    let mut t = String::new();
                    let mut k: usize = 0;
                    while k < count
                        invariant
                            k <= count,
                            t@ == stars(k as nat),
                        decreases count - k,
                    {
                        push_char(&mut t, '*');
                        assert(t@ =~= stars((k + 1) as nat));
                        k += 1;
                    }
                    t
                },
            };
            assert(text@ == popup_text(self@.error_message, self.password_buffer@));
            Some(PasswordPopup { title, text })
        } else {
            None
        };
        Screen { sidebar, pane, popup }
    }

    fn edit_body(&mut self, id: &str, text: Option<&str>)
        requires
            old(self).wf(),
        ensures
            final(self).wf(),
            final(self)@ == (AppView {
                notes: match text {
                    Some(t) => append_body(old(self)@.notes, id@, t@),
                    None => pop_body(old(self)@.notes, id@),
                },
                ..old(self)@
            }),
            final(self).storage == old(self).storage,
    {
        let body = match self.notes.get(id) {
            Some(n) => {
                let mut b = n.body.clone();
                match text {
                    Some(t) => {
                        b.append(t);
                    },
                    None => {
                        pop_char(&mut b);
                    },
                }
                Some(b)
            },
            None => None,
        };
        match body {
            Some(b) => {
                self.notes.set_body(id, b);
            },
            None => {},
        }
        proof {
            let nv = self@.notes;
            let expect = match text {
                Some(t) => append_body(old(self)@.notes, id@, t@),
                None => pop_body(old(self)@.notes, id@),
            };
            assert(nv =~= expect);
        }
    }

    /// Applies an input event: keys edit the password prompt while it is
    /// open, edit the selected note's body while editing, and move through
    /// the list, quit, or start operations otherwise; a paste goes into the
    /// body being edited. The storage work that the event asks for comes
    /// back.
    pub fn handle_event(&mut self, event: InputEvent) -> (action: UiAction)
        requires
            old(self).wf(),
        ensures
            final(self).wf(),
            final(self).storage == old(self).storage,
            (final(self)@, action@) == event_step(old(self)@, event@),
    {
        let ghost v = self@;
        let sorted_ids = self.get_sorted_note_ids();
        proof {
            assert(self.notes.notes_in_order() =~= ordered_notes(v));
        }
        let sel: usize = self.selected_index;
        let cur: Option<String> = if sel < sorted_ids.len() {
            Some(sorted_ids[sel].clone())
        } else {
            None
        };
        assert(cur matches Some(c) ==> sel < listed_ids(v).len() && c@ == listed_ids(v)[sel as int]);
        assert(cur is None ==> sel >= listed_ids(v).len());
        match event {
            InputEvent::Key(key) => {
                if self.password_prompt_active {
                    match key {
                        Key::Esc => {
                            self.password_prompt_active = false;
                            self.password_buffer = String::new();
                            self.pending_operation = None;
                            self.error_message = None;
                        },
                        Key::Enter => {
                            return UiAction::SubmitPassword;
                        },
                        Key::Backspace => {
                            pop_char(&mut self.password_buffer);
                        },
                        Key::Char(c) => {
                            push_char(&mut self.password_buffer, c);
                        },
                        _ => {},
                    }
                    UiAction::Nothing
                } else if self.is_editing {
                    match cur {
                        Some(id) => match key {
                            Key::Esc => {
                                self.is_editing = false;
                                match self.notes.get(id.as_str()) {
                                    Some(n) => UiAction::SaveEdit { id: id.clone(), body: n.body.clone() },
                                    None => UiAction::Nothing,
                                }
                            },
                            Key::Char(c) => {
                                let mut s = String::new();
                                push_char(&mut s, c);
                                self.edit_body(id.as_str(), Some(s.as_str()));
                                UiAction::Nothing
                            },
                            Key::Backspace => {
                                self.edit_body(id.as_str(), None);
                                UiAction::Nothing
                            },
                            Key::Enter => {
                                let mut s = String::new();
                                push_char(&mut s, '\n');
                                self.edit_body(id.as_str(), Some(s.as_str()));
                                UiAction::Nothing
                            },
                            _ => UiAction::Nothing,
                        },
                        None => {
                            self.is_editing = false;
                            UiAction::Nothing
                        },
                    }
                } else {
                    match key {
                        Key::Char(c) => {
                            if c == 'q' {
                                self.should_quit = true;
                                UiAction::Nothing
                            } else if c == 'n' {
                                self.selected_index = 0;
                                proof {
                                    reveal_strlit("New Note");
                                }
                                UiAction::AddNote { title: "New Note".to_owned(), body: String::new() }
                            } else if c == 'd' {
                                match cur {
                                    Some(id) => {
                                        if self.selected_index > 0 {
                                            self.selected_index = self.selected_index - 1;
                                        }
                                        UiAction::DeleteNote { id }
                                    },
                                    None => UiAction::Nothing,
                                }
                            } else if c == 'l' {
                                match cur {
                                    Some(id) => {
                                        self.pending_operation = Some(PendingOperation::Lock(id));
                                        self.password_prompt_active = true;
                                        self.password_buffer = String::new();
                                        self.error_message = None;
                                        UiAction::Nothing
                                    },
                                    None => UiAction::Nothing,
                                }
                            } else {
                                UiAction::Nothing
                            }
                        },
                        Key::Esc => {
                            self.should_quit = true;
                            UiAction::Nothing
                        },
                        Key::Up => {
                            if self.selected_index > 0 {
                                self.selected_index = self.selected_index - 1;
                            }
                            UiAction::Nothing
                        },
                        Key::Down => {
                            if self.selected_index < sorted_ids.len() && self.selected_index + 1 < sorted_ids.len() {
                                self.selected_index = self.selected_index + 1;
                            }
                            UiAction::Nothing
                        },
                        Key::Enter => {
                            match cur {
                                Some(id) => {
                                    let locked = match self.notes.get(id.as_str()) {
                                        Some(n) => Some(n.encrypted && n.body.as_str().is_empty()),
                                        None => None,
                                    };
                                    match locked {
                                        Some(true) => {
                                            self.pending_operation = Some(PendingOperation::Unlock(id));
                                            self.password_prompt_active = true;
                                            self.password_buffer = String::new();
                                            self.error_message = None;
                                        },
                                        Some(false) => {
                                            self.is_editing = true;
                                        },
                                        None => {},
                                    }
                                },
                                None => {},
                            }
                            UiAction::Nothing
                        },
                        _ => UiAction::Nothing,
                    }
                }
            },
            InputEvent::Paste(content) => {
                if self.is_editing {
                    match cur {
                        Some(id) => {
                            self.edit_body(id.as_str(), Some(content.as_str()));
                        },
                        None => {},
                    }
                }
                UiAction::Nothing
            },
            InputEvent::Other => UiAction::Nothing,
        }
    }
}

} // verus!
