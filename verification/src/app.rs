//! The in-memory state of the application and the operations on it.
//!
//! Operations that the application completes with storage work are split
//! at that work: a first call decides what is to be stored or removed, the
//! caller does it, and a second call takes the outcome.
use vstd::prelude::*;
use crate::note::{Note, NoteView, note_views};
use crate::note_map::{NoteMap, without, lemma_filter_contains, law_insert_then_remove};
use crate::search::{SearchEngine, index_of, query_result, note_terms, law_query_exact};
use crate::storage::{Storage, StorageError, storage_text};
use crate::text::{views, begins_with, prefixed, str_lowercase};
use crate::time::{Timestamp, earlier};

verus! {

/// The operation that a password prompt is open for.
#[derive(Clone)]
pub enum PendingOperation {
    Unlock(String),
    Lock(String),
}

/// Errors that the user interface shows.
pub enum AppError {
    Storage(StorageError),
    Search,
}

impl AppError {
    /// The error's message: "Storage error: " and the storage error's
    /// message, or "Search error".
    pub fn message(&self) -> (r: String)
        ensures
            match self {
                AppError::Storage(e) => begins_with(r@, "Storage error: "@) && (storage_text(*e) matches Some(
                    t,
                ) ==> r@ == "Storage error: "@ + t),
                AppError::Search => r@ == "Search error"@,
            },
    {
        match self {
            AppError::Storage(e) => {
                let r = prefixed("Storage error: ", e.message().as_str());
                assert(r@.take("Storage error: "@.len() as int) =~= "Storage error: "@);
                r
            },
            AppError::Search => "Search error".to_owned(),
        }
    }
}

impl From<StorageError> for AppError {
    fn from(e: StorageError) -> (r: AppError) {
        AppError::Storage(e)
    }
}

impl vstd::std_specs::convert::FromSpecImpl<StorageError> for AppError {
    open spec fn obeys_from_spec() -> bool {
        true
    }

    open spec fn from_spec(e: StorageError) -> AppError {
        AppError::Storage(e)
    }
}

/// The storage work that submitting a password calls for.
pub enum PasswordStep {
    /// No operation is pending, or the note to lock is gone.
    Idle,
    /// Decrypt the stored note `id` with `password`.
    Unlock { id: String, password: String },
    /// Store `note` under `id`, encrypted with `password`.
    Lock { id: String, note: Note, password: String },
}

/// The application state.
pub struct App {
    pub notes: NoteMap,
    pub current_note_id: Option<String>,
    pub search_engine: SearchEngine,
    pub storage: Storage,
    pub should_quit: bool,
    pub selected_index: usize,
    pub is_editing: bool,
    pub password_prompt_active: bool,
    pub password_buffer: String,
    pub pending_operation: Option<PendingOperation>,
    pub error_message: Option<String>,
}

/// The mathematical value of a pending operation.
pub enum PendingView {
    Unlock(Seq<char>),
    Lock(Seq<char>),
}

/// The mathematical value of the application state, but for its storage
/// location.
pub struct AppView {
    pub notes: Map<Seq<char>, NoteView>,
    pub keys: Seq<Seq<char>>,
    pub index: Map<Seq<char>, Seq<Seq<char>>>,
    pub current_note_id: Option<Seq<char>>,
    pub should_quit: bool,
    pub selected_index: int,
    pub is_editing: bool,
    pub password_prompt_active: bool,
    pub password_buffer: Seq<char>,
    pub pending_operation: Option<PendingView>,
    pub error_message: Option<Seq<char>>,
}

/// The view of a pending operation.
pub open spec fn pending_view(p: Option<PendingOperation>) -> Option<PendingView> {
    match p {
        None => None,
        Some(PendingOperation::Unlock(id)) => Some(PendingView::Unlock(id@)),
        Some(PendingOperation::Lock(id)) => Some(PendingView::Lock(id@)),
    }
}

/// The view of an optional string.
pub open spec fn opt_view(s: Option<String>) -> Option<Seq<char>> {
    match s {
        None => None,
        Some(t) => Some(t@),
    }
}

impl View for App {
    type V = AppView;

    open spec fn view(&self) -> AppView {
        AppView {
            notes: self.notes@,
            keys: self.notes.keys(),
            index: self.search_engine.index_view(),
            current_note_id: opt_view(self.current_note_id),
            should_quit: self.should_quit,
            selected_index: self.selected_index as int,
            is_editing: self.is_editing,
            password_prompt_active: self.password_prompt_active,
            password_buffer: self.password_buffer@,
            pending_operation: pending_view(self.pending_operation),
            error_message: opt_view(self.error_message),
        }
    }
}

/// The notes by identifier after inserting `ns` in order: a later note
/// replaces an earlier one with the same identifier.
pub open spec fn map_of(ns: Seq<NoteView>) -> Map<Seq<char>, NoteView>
    decreases ns.len(),
{
    if ns.len() == 0 {
        Map::empty()
    } else {
        map_of(ns.drop_last()).insert(ns.last().id, ns.last())
    }
}

/// The identifiers of `ns`, each once, in the order of first occurrence.
pub open spec fn keys_of(ns: Seq<NoteView>) -> Seq<Seq<char>>
    decreases ns.len(),
{
    if ns.len() == 0 {
        seq![]
    } else {
        let k = keys_of(ns.drop_last());
        if k.contains(ns.last().id) {
            k
        } else {
            k.push(ns.last().id)
        }
    }
}

/// `sorted` with `n` inserted after every note that was updated no earlier
/// than `n`.
pub open spec fn insert_by_update(sorted: Seq<NoteView>, n: NoteView) -> Seq<NoteView>
    decreases sorted.len(),
{
    if sorted.len() == 0 {
        seq![n]
    } else if earlier(sorted.last().updated_at, n.updated_at) {
        insert_by_update(sorted.drop_last(), n).push(sorted.last())
    } else {
        sorted.push(n)
    }
}

/// `ns` ordered by update time, newest first; notes updated at the same
/// time keep their order.
pub open spec fn newest_first(ns: Seq<NoteView>) -> Seq<NoteView>
    decreases ns.len(),
{
    if ns.len() == 0 {
        ns
    } else {
        insert_by_update(newest_first(ns.drop_last()), ns.last())
    }
}

/// The notes of `m` stored under the identifiers `ids`, in that order; an
/// identifier without a note is skipped.
pub open spec fn found_notes(ids: Seq<Seq<char>>, m: Map<Seq<char>, NoteView>) -> Seq<NoteView>
    decreases ids.len(),
{
    if ids.len() == 0 {
        seq![]
    } else {
        let r = found_notes(ids.drop_last(), m);
        if m.contains_key(ids.last()) {
            r.push(m[ids.last()])
        } else {
            r
        }
    }
}

/// The notes that `found_notes(ids, m)` gives are exactly the notes of `m`
/// stored under identifiers of `ids`: each such note is among them,
/// whatever its fields, and each of them is one.
pub proof fn lemma_found_notes(ids: Seq<Seq<char>>, m: Map<Seq<char>, NoteView>)
    ensures
        forall|k: Seq<char>| ids.contains(k) && m.contains_key(k) ==> #[trigger] found_notes(ids, m).contains(m[k]),
        forall|i: int|
            0 <= i < found_notes(ids, m).len() ==> exists|k: Seq<char>|
                ids.contains(k) && m.contains_key(k) && #[trigger] found_notes(ids, m)[i] == m[k],
    decreases ids.len(),
{
    if ids.len() > 0 {
        let d = ids.drop_last();
        lemma_found_notes(d, m);
        let r = found_notes(d, m);
        assert forall|k: Seq<char>| ids.contains(k) && m.contains_key(k) implies #[trigger] found_notes(
            ids,
            m,
        ).contains(m[k]) by {
            let j = choose|j: int| 0 <= j < ids.len() && ids[j] == k;
            if j < ids.len() - 1 {
                assert(d[j] == k);
                assert(d.contains(k));
                assert(r.contains(m[k]));
                let x = choose|x: int| 0 <= x < r.len() && r[x] == m[k];
                assert(found_notes(ids, m)[x] == m[k]);
            } else {
                assert(ids.last() == k);
                assert(found_notes(ids, m) == r.push(m[k]));
                assert(found_notes(ids, m)[r.len() as int] == m[k]);
            }
        }
        assert forall|i: int| 0 <= i < found_notes(ids, m).len() implies exists|k: Seq<char>|
            ids.contains(k) && m.contains_key(k) && #[trigger] found_notes(ids, m)[i] == m[k] by {
            if i < r.len() {
                let k = choose|k: Seq<char>| d.contains(k) && m.contains_key(k) && r[i] == m[k];
                let j = choose|j: int| 0 <= j < d.len() && d[j] == k;
                assert(ids[j] == k);
                assert(found_notes(ids, m)[i] == m[k]);
            } else {
                assert(ids[ids.len() - 1] == ids.last());
                assert(found_notes(ids, m)[i] == m[ids.last()]);
            }
        }
    }
}

/// Search finds every note that holds the term, in any letter case,
/// whatever its other fields (its encrypted flag among them): in a state
/// whose index is built from its notes and whose notes are stored under
/// their identifiers, a note with a word of its title or body equal to the
/// term lower-cased is among the notes that search gives for the term; and
/// each note that search gives is a note of the state that holds the term.
pub proof fn law_search_finds_matching_notes(v: AppView, term: Seq<char>, k: Seq<char>)
    requires
        v.index == index_of(ordered_notes(v)),
        keys_match(v),
        forall|j: Seq<char>| v.notes.contains_key(j) ==> (#[trigger] v.notes[j]).id == j,
    ensures
        v.notes.contains_key(k) && note_terms(v.notes[k]).contains(str_lowercase(term)) ==> found_notes(
            query_result(v.index, term),
            v.notes,
        ).contains(v.notes[k]),
        forall|i: int|
            0 <= i < found_notes(query_result(v.index, term), v.notes).len() ==> exists|j: Seq<char>|
                v.notes.contains_key(j) && #[trigger] found_notes(query_result(v.index, term), v.notes)[i]
                    == v.notes[j] && note_terms(v.notes[j]).contains(str_lowercase(term)),
{
    let ns = ordered_notes(v);
    let q = query_result(v.index, term);
    lemma_found_notes(q, v.notes);
    if v.notes.contains_key(k) && note_terms(v.notes[k]).contains(str_lowercase(term)) {
        let i = choose|i: int| 0 <= i < v.keys.len() && v.keys[i] == k;
        assert(ns[i] == v.notes[k]);
        law_query_exact(ns, term, k);
        assert(q.contains(k));
    }
    assert forall|i: int| 0 <= i < found_notes(q, v.notes).len() implies exists|j: Seq<char>|
        v.notes.contains_key(j) && #[trigger] found_notes(q, v.notes)[i] == v.notes[j] && note_terms(
            v.notes[j],
        ).contains(str_lowercase(term)) by {
        let j = choose|j: Seq<char>| q.contains(j) && v.notes.contains_key(j) && found_notes(q, v.notes)[i] == v.notes[j];
        law_query_exact(ns, term, j);
        let x = choose|x: int| 0 <= x < ns.len() && ns[x].id == j && #[trigger] note_terms(ns[x]).contains(
            str_lowercase(term),
        );
        let kx = v.keys[x];
        assert(ns[x] == v.notes[kx]);
        assert(v.keys.contains(kx));
        assert(v.notes.contains_key(kx));
        assert(kx == j);
    }
}

/// The identifiers of a sequence of notes.
pub open spec fn ids_of(ns: Seq<NoteView>) -> Seq<Seq<char>> {
    ns.map_values(|n: NoteView| n.id)
}

/// The notes of a state in the order of their keys.
pub open spec fn ordered_notes(v: AppView) -> Seq<NoteView> {
    v.keys.map_values(|k: Seq<char>| v.notes[k])
}

/// The key order after a note is stored under `k`: a new key goes last.
pub open spec fn keys_after_insert(v: AppView, k: Seq<char>) -> Seq<Seq<char>> {
    if v.notes.contains_key(k) {
        v.keys
    } else {
        v.keys.push(k)
    }
}

/// The state with the note `n` stored under `k`.
pub open spec fn with_note(v: AppView, k: Seq<char>, n: NoteView) -> AppView {
    AppView { notes: v.notes.insert(k, n), keys: keys_after_insert(v, k), ..v }
}

/// The state with its index rebuilt from its notes, in order.
pub open spec fn reindexed(v: AppView) -> AppView {
    AppView { index: index_of(ordered_notes(v)), ..v }
}

/// The state with the password prompt closed and cleared.
pub open spec fn prompt_closed(v: AppView) -> AppView {
    AppView {
        password_prompt_active: false,
        password_buffer: seq![],
        pending_operation: None,
        error_message: None,
        ..v
    }
}

/// The state with the password prompt opened for `op`.
pub open spec fn prompt_opened(v: AppView, op: PendingView) -> AppView {
    AppView {
        pending_operation: Some(op),
        password_prompt_active: true,
        password_buffer: seq![],
        error_message: None,
        ..v
    }
}

proof fn lemma_insert_at(s: Seq<NoteView>, n: NoteView, j: int)
    requires
        0 <= j <= s.len(),
        forall|m: int| j <= m < s.len() ==> earlier(#[trigger] s[m].updated_at, n.updated_at),
        j > 0 ==> !earlier(s[j - 1].updated_at, n.updated_at),
    ensures
        insert_by_update(s, n) == s.take(j).push(n) + s.skip(j),
    decreases s.len(),
{
    if s.len() == 0 {
        assert(s.take(j).push(n) + s.skip(j) =~= seq![n]);
    } else if j == s.len() {
        assert(s.take(j).push(n) + s.skip(j) =~= s.push(n));
    } else {
        let d = s.drop_last();
        assert(earlier(s[s.len() - 1].updated_at, n.updated_at));
        assert forall|m: int| j <= m < d.len() implies earlier(#[trigger] d[m].updated_at, n.updated_at) by {
            assert(d[m] == s[m]);
        }
        if j > 0 {
            assert(d[j - 1] == s[j - 1]);
        }
        lemma_insert_at(d, n, j);
        assert((d.take(j).push(n) + d.skip(j)).push(s.last()) =~= s.take(j).push(n) + s.skip(j));
    }
}

proof fn lemma_insert_by_update(s: Seq<NoteView>, n: NoteView)
    requires
        forall|i: int, j: int| 0 <= i < j < s.len() ==> !earlier(s[i].updated_at, s[j].updated_at),
    ensures
        insert_by_update(s, n).to_multiset() =~= s.to_multiset().insert(n),
        forall|i: int, j: int|
            0 <= i < j < insert_by_update(s, n).len() ==> !earlier(
                insert_by_update(s, n)[i].updated_at,
                insert_by_update(s, n)[j].updated_at,
            ),
        insert_by_update(s, n).len() == s.len() + 1,
        forall|i: int|
            0 <= i < insert_by_update(s, n).len() ==> (#[trigger] insert_by_update(s, n)[i] == n || s.contains(
                insert_by_update(s, n)[i],
            )),
    decreases s.len(),
{
    broadcast use vstd::seq_lib::group_to_multiset_ensures;

    if s.len() > 0 {
        let d = s.drop_last();
        let l = s.last();
        if earlier(l.updated_at, n.updated_at) {
            lemma_insert_by_update(d, n);
            let r = insert_by_update(d, n);
            assert(s =~= d.push(l));
            assert(d.to_multiset().insert(n).insert(l) =~= d.to_multiset().insert(l).insert(n));
            assert forall|i: int| 0 <= i < r.len() implies !earlier(r[i].updated_at, l.updated_at) by {
                if r[i] != n {
                    let k = choose|k: int| 0 <= k < d.len() && d[k] == r[i];
                    assert(d[k] == s[k]);
                    assert(!earlier(s[k].updated_at, s[s.len() - 1].updated_at));
                }
            }
            let q = r.push(l);
            assert forall|i: int| 0 <= i < q.len() implies (#[trigger] q[i] == n || s.contains(q[i])) by {
                if i < r.len() {
                    if r[i] != n {
                        let k = choose|k: int| 0 <= k < d.len() && d[k] == r[i];
                        assert(s[k] == q[i]);
                    }
                } else {
                    assert(s[s.len() - 1] == q[i]);
                }
            }
        } else {
            let q = s.push(n);
            assert forall|i: int, j: int| 0 <= i < j < q.len() implies !earlier(q[i].updated_at, q[j].updated_at) by {
                if j == s.len() {
                    assert(!earlier(s[i].updated_at, s[s.len() - 1].updated_at) || i == s.len() - 1);
                }
            }
            assert forall|i: int| 0 <= i < q.len() implies (#[trigger] q[i] == n || s.contains(q[i])) by {
                if i < s.len() {
                    assert(s[i] == q[i]);
                }
            }
        }
    }
}

/// Ordering by update time keeps every note (a permutation) and puts them
/// newest first.
pub proof fn law_newest_first(ns: Seq<NoteView>)
    ensures
        newest_first(ns).to_multiset() =~= ns.to_multiset(),
        newest_first(ns).len() == ns.len(),
        forall|i: int, j: int|
            0 <= i < j < newest_first(ns).len() ==> !earlier(
                newest_first(ns)[i].updated_at,
                newest_first(ns)[j].updated_at,
            ),
    decreases ns.len(),
{
    broadcast use vstd::seq_lib::group_to_multiset_ensures;

    if ns.len() > 0 {
        law_newest_first(ns.drop_last());
        lemma_insert_by_update(newest_first(ns.drop_last()), ns.last());
        assert(ns =~= ns.drop_last().push(ns.last()));
    }
}

/// The keys of a state name its notes, each once.
pub open spec fn keys_match(v: AppView) -> bool {
    &&& v.keys.no_duplicates()
    &&& forall|k: Seq<char>| #[trigger] v.notes.contains_key(k) <==> v.keys.contains(k)
}

/// A note that was just added (and the index rebuilt) is found by a query
/// for any word of its title or body, in any letter case.
pub proof fn law_added_note_is_found(v: AppView, n: NoteView, term: Seq<char>)
    requires
        keys_match(v),
        note_terms(n).contains(str_lowercase(term)),
    ensures
        query_result(reindexed(with_note(v, n.id, n)).index, term).contains(n.id),
{
    let w = with_note(v, n.id, n);
    let ns = ordered_notes(w);
    let j: int = if v.notes.contains_key(n.id) {
        choose|j: int| 0 <= j < v.keys.len() && v.keys[j] == n.id
    } else {
        v.keys.len() as int
    };
    assert(w.keys[j] == n.id);
    assert(ns[j] == n);
    law_query_exact(ns, term, n.id);
}

/// Once a note is deleted (and the index rebuilt), a query no longer finds
/// its identifier, unless another remaining note carries the same one.
pub proof fn law_deleted_note_is_not_found(v: AppView, id: Seq<char>, term: Seq<char>)
    requires
        keys_match(v),
        forall|k: Seq<char>| v.notes.contains_key(k) && k != id ==> (#[trigger] v.notes[k]).id != id,
    ensures
        !query_result(
            reindexed(AppView { notes: v.notes.remove(id), keys: without(v.keys, id), ..v }).index,
            term,
        ).contains(id),
{
    let w = AppView { notes: v.notes.remove(id), keys: without(v.keys, id), ..v };
    let ns = ordered_notes(w);
    law_query_exact(ns, term, id);
    assert forall|i: int| 0 <= i < ns.len() implies (#[trigger] ns[i]).id != id by {
        let k = w.keys[i];
        lemma_filter_contains(v.keys, id, k);
        assert(w.keys.contains(k));
        assert(v.notes.contains_key(k) && k != id);
        assert(ns[i] == v.notes[k]);
    }
}

/// Adding a note under a new identifier and then deleting it leaves the
/// notes, their order and the rest of the state as they were.
pub proof fn law_add_then_delete_restores(v: AppView, n: NoteView)
    requires
        keys_match(v),
        !v.notes.contains_key(n.id),
    ensures
        ({
            let w = with_note(v, n.id, n);
            AppView { notes: w.notes.remove(n.id), keys: without(w.keys, n.id), ..w }
        }) == v,
{
    law_insert_then_remove(v.notes, v.keys, n.id, n);
}

/// Closing a password prompt that was opened on a state without one gives
/// that state back.
pub proof fn law_cancel_undoes_prompt(v: AppView, op: PendingView)
    requires
        !v.password_prompt_active,
        v.password_buffer.len() == 0,
        v.pending_operation is None,
        v.error_message is None,
    ensures
        prompt_closed(prompt_opened(v, op)) == v,
{
    assert(prompt_closed(prompt_opened(v, op)).password_buffer =~= v.password_buffer);
}

impl App {
    /// The keys of a well-formed state name its notes, each once.
    pub proof fn lemma_keys_match(&self)
        requires
            self.wf(),
        ensures
            keys_match(self@),
    {
        self.notes.lemma_keys();
    }

    /// The application state is well formed.
    pub open spec fn wf(&self) -> bool {
        self.notes.wf()
    }

    /// The state over `notes`, as the storage listed them: notes are keyed
    /// by identifier (a later one replaces an earlier one), the index is
    /// built from the listed notes, nothing is selected, edited or
    /// prompted.
    pub fn new(storage: Storage, notes: Vec<Note>) -> (app: App)
        ensures
            app.wf(),
            app.storage == storage,
            app@ == (AppView {
                notes: map_of(note_views(notes@)),
                keys: keys_of(note_views(notes@)),
                index: index_of(note_views(notes@)),
                current_note_id: None,
                should_quit: false,
                selected_index: 0,
                is_editing: false,
                password_prompt_active: false,
                password_buffer: seq![],
                pending_operation: None,
                error_message: None,
            }),
    {
        let ghost ns = note_views(notes@);
        let mut map = NoteMap::new();
        let mut i: usize = 0;
        while i < notes.len()
            invariant
                i <= notes.len(),
                ns == note_views(notes@),
                map.wf(),
                map@ == map_of(ns.take(i as int)),
                map.keys() == keys_of(ns.take(i as int)),
            decreases notes.len() - i,
        {
            let n = notes[i].duplicate();
            proof {
                let t = ns.take(i + 1);
                assert(t.drop_last() =~= ns.take(i as int));
                assert(t.last() == ns[i as int]);
                map.lemma_keys();
            }
            map.insert(notes[i].id.clone(), n);
            i += 1;
        }
        assert(ns.take(notes.len() as int) =~= ns);
        let search_engine = SearchEngine::new(notes.as_slice());
        App {
            notes: map,
            current_note_id: None,
            search_engine,
            storage,
            should_quit: false,
            selected_index: 0,
            is_editing: false,
            password_prompt_active: false,
            password_buffer: String::new(),
            pending_operation: None,
            error_message: None,
        }
    }

    /// Rebuilds the search index from the current notes, in their order.
    pub fn reindex(&mut self)
        requires
            old(self).wf(),
        ensures
            final(self).wf(),
            final(self).notes == old(self).notes,
            final(self).storage == old(self).storage,
            final(self)@ == reindexed(old(self)@),
    {
        let notes_vec = self.notes.values_copied();
        assert(note_views(notes_vec@) =~= notes_vec@.map_values(|n: Note| n@));
        self.search_engine = SearchEngine::new(notes_vec.as_slice());
    }

    /// Adds `note`, which the caller has stored with outcome `saved`: on
    /// success the note goes in under its identifier and the index is
    /// rebuilt; on failure nothing changes and the storage error comes back.
    pub fn add_note(&mut self, note: Note, saved: Result<(), StorageError>) -> (r: Result<(), AppError>)
        requires
            old(self).wf(),
        ensures
            final(self).wf(),
            match saved {
                Ok(_) => {
                    &&& r is Ok
                    &&& final(self)@ == reindexed(with_note(old(self)@, note@.id, note@))
                    &&& final(self).storage == old(self).storage
                },
                Err(e) => r == Err::<(), AppError>(AppError::Storage(e)) && *final(self) == *old(self),
            },
    {
        match saved {
            Err(e) => Err(AppError::Storage(e)),
            Ok(_) => {
                let id = note.id.clone();
                self.notes.insert(id, note);
                self.reindex();
                Ok(())
            },
        }
    }

    /// The note `id` with the given title and body (where given) and
    /// updated at `now`, ready to be stored; `Search` where there is no such
    /// note.
    pub fn edited_note(&self, id: &str, title: Option<&str>, body: Option<&str>, now: Timestamp) -> (r: Result<Note, AppError>)
        requires
            self.wf(),
        ensures
            match r {
                Ok(n) => {
                    let old_note = self.notes@[id@];
                    &&& self.notes@.contains_key(id@)
                    &&& n@ == NoteView {
                        title: match title {
                            Some(t) => t@,
                            None => old_note.title,
                        },
                        body: match body {
                            Some(b) => b@,
                            None => old_note.body,
                        },
                        updated_at: now@,
                        ..old_note
                    }
                },
                Err(e) => e is Search && !self.notes@.contains_key(id@),
            },
    {
        match self.notes.get(id) {
            None => Err(AppError::Search),
            Some(existing) => {
                let mut n = existing.duplicate();
                match title {
                    Some(t) => {
                        n.title = t.to_owned();
                    },
                    None => {},
                }
                match body {
                    Some(b) => {
                        n.body = b.to_owned();
                    },
                    None => {},
                }
                n.updated_at = now;
                Ok(n)
            },
        }
    }

    /// Completes an edit of the note `id`: `note` is its edited form, which
    /// the caller has stored with outcome `saved`. On success the edited
    /// note goes in and the index is rebuilt; on failure nothing changes and
    /// the storage error comes back.
    pub fn edit_note(&mut self, id: &str, note: Note, saved: Result<(), StorageError>) -> (r: Result<(), AppError>)
        requires
            old(self).wf(),
        ensures
            final(self).wf(),
            match saved {
                Ok(_) => {
                    &&& r is Ok
                    &&& final(self)@ == reindexed(with_note(old(self)@, id@, note@))
                    &&& final(self).storage == old(self).storage
                },
                Err(e) => r == Err::<(), AppError>(AppError::Storage(e)) && *final(self) == *old(self),
            },
    {
        match saved {
            Err(e) => Err(AppError::Storage(e)),
            Ok(_) => {
                self.notes.insert(id.to_owned(), note);
                self.reindex();
                Ok(())
            },
        }
    }

    /// Takes the note `id` out of the state and hands it back, so that the
    /// caller can remove its stored form; `Search` where there is no such
    /// note. The index is rebuilt by `finish_delete`.
    pub fn delete_note(&mut self, id: &str) -> (r: Result<Note, AppError>)
        requires
            old(self).wf(),
        ensures
            final(self).wf(),
            match r {
                Ok(n) => {
                    &&& old(self).notes@.contains_key(id@)
                    &&& n@ == old(self).notes@[id@]
                    &&& final(self)@ == (AppView {
                        notes: old(self)@.notes.remove(id@),
                        keys: without(old(self)@.keys, id@),
                        ..old(self)@
                    })
                    &&& final(self).storage == old(self).storage
                },
                Err(e) => e is Search && !old(self).notes@.contains_key(id@) && *final(self) == *old(self),
            },
    {
        if !self.notes.contains_key(id) {
            return Err(AppError::Search);
        }
        match self.notes.remove(id) {
            Some(n) => Ok(n),
            None => Err(AppError::Search),
        }
    }

    /// Completes a deletion whose stored form the caller removed with
    /// outcome `deleted`: on success the index is rebuilt; on failure the
    /// storage error comes back.
    pub fn finish_delete(&mut self, deleted: Result<(), StorageError>) -> (r: Result<(), AppError>)
        requires
            old(self).wf(),
        ensures
            final(self).wf(),
            match deleted {
                Ok(_) => {
                    &&& r is Ok
                    &&& final(self)@ == reindexed(old(self)@)
                    &&& final(self).storage == old(self).storage
                },
                Err(e) => r == Err::<(), AppError>(AppError::Storage(e)) && *final(self) == *old(self),
            },
    {
        match deleted {
            Err(e) => Err(AppError::Storage(e)),
            Ok(_) => {
                self.reindex();
                Ok(())
            },
        }
    }

    /// The notes whose identifiers the index gives for `term`, in that
    /// order; identifiers without a note are skipped.
    pub fn search(&self, term: &str) -> (r: Vec<&Note>)
        requires
            self.wf(),
        ensures
            r@.map_values(|n: &Note| n@) == found_notes(query_result(self.search_engine.index_view(), term@), self.notes@),
            forall|k: Seq<char>|
                #![trigger self.notes@[k]]
                query_result(self.search_engine.index_view(), term@).contains(k) && self.notes@.contains_key(k)
                    ==> r@.map_values(|n: &Note| n@).contains(self.notes@[k]),
    {
        proof {
            lemma_found_notes(query_result(self.search_engine.index_view(), term@), self.notes@);
        }
        let ids = self.search_engine.query(term);
        let ghost idv = views(ids@);
        let mut out: Vec<&Note> = Vec::new();
        let mut i: usize = 0;
        while i < ids.len()
            invariant
                self.wf(),
                i <= ids.len(),
                idv == views(ids@),
                out@.map_values(|n: &Note| n@) == found_notes(idv.take(i as int), self.notes@),
            decreases ids.len() - i,
        {
            proof {
                let t = idv.take(i + 1);
                assert(t.drop_last() =~= idv.take(i as int));
                assert(t.last() == ids@[i as int]@);
            }
            match self.notes.get(ids[i].as_str()) {
                Some(n) => {
                    let ghost before = out@.map_values(|n: &Note| n@);
                    out.push(n);
                    assert(out@.map_values(|n: &Note| n@) =~= before.push(n@));
                },
                None => {},
            }
            i += 1;
        }
        assert(idv.take(ids.len() as int) =~= idv);
        out
    }

    /// Replaces the notes with those that the storage listed (outcome
    /// `listed`) and rebuilds the index; on failure nothing changes and the
    /// storage error comes back.
    pub fn load_all(&mut self, listed: Result<Vec<Note>, StorageError>) -> (r: Result<(), AppError>)
        requires
            old(self).wf(),
        ensures
            final(self).wf(),
            match listed {
                Ok(v) => {
                    &&& r is Ok
                    &&& final(self)@ == reindexed(
                        AppView { notes: map_of(note_views(v@)), keys: keys_of(note_views(v@)), ..old(self)@ },
                    )
                    &&& final(self).storage == old(self).storage
                },
                Err(e) => r == Err::<(), AppError>(AppError::Storage(e)) && *final(self) == *old(self),
            },
    {
        match listed {
            Err(e) => Err(AppError::Storage(e)),
            Ok(notes) => {
                let ghost ns = note_views(notes@);
                self.notes.clear();
                let mut i: usize = 0;
                while i < notes.len()
                    invariant
                        i <= notes.len(),
                        ns == note_views(notes@),
                        self.wf(),
                        self@ == (AppView {
                            notes: map_of(ns.take(i as int)),
                            keys: keys_of(ns.take(i as int)),
                            ..old(self)@
                        }),
                        self.storage == old(self).storage,
                    decreases notes.len() - i,
                {
                    let n = notes[i].duplicate();
                    proof {
                        let t = ns.take(i + 1);
                        assert(t.drop_last() =~= ns.take(i as int));
                        assert(t.last() == ns[i as int]);
                        self.notes.lemma_keys();
                    }
                    self.notes.insert(notes[i].id.clone(), n);
                    i += 1;
                }
                assert(ns.take(notes.len() as int) =~= ns);
                self.reindex();
                Ok(())
            },
        }
    }

    /// References to the notes, newest update first; notes updated at the
    /// same time keep the order of the map.
    pub fn sorted_notes(&self) -> (r: Vec<&Note>)
        requires
            self.wf(),
        ensures
            r@.map_values(|n: &Note| n@) == newest_first(self.notes.notes_in_order()),
    {
        let vals = self.notes.values();
        let ghost vs = self.notes.notes_in_order();
        let mut sorted: Vec<&Note> = Vec::new();
        let mut i: usize = 0;
        while i < vals.len()
            invariant
                i <= vals.len(),
                vals@.map_values(|n: &Note| n@) == vs,
                sorted@.map_values(|n: &Note| n@) == newest_first(vs.take(i as int)),
            decreases vals.len() - i,
        {
            let n = vals[i];
            let ghost sv = sorted@.map_values(|n: &Note| n@);
            assert(vs[i as int] == n@);
            let mut j: usize = sorted.len();
            while j > 0 && sorted[j - 1].updated_at.is_before(&n.updated_at)
                invariant
                    j <= sorted.len(),
                    sv == sorted@.map_values(|n: &Note| n@),
                    forall|m: int| j <= m < sv.len() ==> earlier(#[trigger] sv[m].updated_at, n@.updated_at),
                decreases j,
            {
                assert(sv[j - 1] == sorted@[j - 1]@);
                j -= 1;
            }
            proof {
                if j > 0 {
                    assert(sv[j - 1] == sorted@[j - 1]@);
                }
                lemma_insert_at(sv, n@, j as int);
                let t = vs.take(i + 1);
                assert(t.drop_last() =~= vs.take(i as int));
                assert(t.last() == n@);
            }
            sorted.insert(j, n);
            assert(sorted@.map_values(|n: &Note| n@) =~= sv.take(j as int).push(n@) + sv.skip(j as int));
            i += 1;
        }
        assert(vs.take(vals.len() as int) =~= vs);
        sorted
    }

    /// The identifiers of the notes, newest update first.
    pub fn get_sorted_note_ids(&self) -> (r: Vec<String>)
        requires
            self.wf(),
        ensures
            views(r@) == ids_of(newest_first(self.notes.notes_in_order())),
    {
        let sorted = self.sorted_notes();
        let ghost sv = sorted@.map_values(|n: &Note| n@);
        let mut out: Vec<String> = Vec::new();
        let mut i: usize = 0;
        while i < sorted.len()
            invariant
                i <= sorted.len(),
                sv == sorted@.map_values(|n: &Note| n@),
                views(out@) =~= ids_of(sv).take(i as int),
            decreases sorted.len() - i,
        {
            let ghost before = views(out@);
            out.push(sorted[i].id.clone());
            assert(views(out@) =~= before.push(sv[i as int].id));
            assert(ids_of(sv).take(i + 1) =~= ids_of(sv).take(i as int).push(ids_of(sv)[i as int]));
            i += 1;
        }
        assert(ids_of(sv).take(sorted.len() as int) =~= ids_of(sv));
        out
    }

    /// Opens the password prompt to unlock the note `id`.
    pub fn initiate_unlock(&mut self, id: &str)
        ensures
            final(self)@ == prompt_opened(old(self)@, PendingView::Unlock(id@)),
            final(self).notes == old(self).notes,
            final(self).storage == old(self).storage,
    {
        self.pending_operation = Some(PendingOperation::Unlock(id.to_owned()));
        self.password_prompt_active = true;
        self.password_buffer = String::new();
        self.error_message = None;
    }

    /// Opens the password prompt to lock the note `id`.
    pub fn initiate_lock(&mut self, id: &str)
        ensures
            final(self)@ == prompt_opened(old(self)@, PendingView::Lock(id@)),
            final(self).notes == old(self).notes,
            final(self).storage == old(self).storage,
    {
        self.pending_operation = Some(PendingOperation::Lock(id.to_owned()));
        self.password_prompt_active = true;
        self.password_buffer = String::new();
        self.error_message = None;
    }

    /// Closes the password prompt and forgets its operation.
    pub fn cancel_password(&mut self)
        ensures
            final(self)@ == prompt_closed(old(self)@),
            final(self).notes == old(self).notes,
            final(self).storage == old(self).storage,
    {
        self.password_prompt_active = false;
        self.password_buffer = String::new();
        self.pending_operation = None;
        self.error_message = None;
    }

    /// The storage work that submitting the typed password calls for: to
    /// unlock, decrypt the pending note; to lock, store the pending note
    /// encrypted, where it is still there. The state does not change.
    pub fn submit_password(&self) -> (step: PasswordStep)
        requires
            self.wf(),
        ensures
            match self.pending_operation {
                None => step is Idle,
                Some(PendingOperation::Unlock(id)) => step matches PasswordStep::Unlock { id: i, password: p }
                    && i@ == id@ && p@ == self.password_buffer@,
                Some(PendingOperation::Lock(id)) => if self.notes@.contains_key(id@) {
                    step matches PasswordStep::Lock { id: i, note: n, password: p } && i@ == id@ && n@
                        == self.notes@[id@] && p@ == self.password_buffer@
                } else {
                    step is Idle
                },
            },
    {
        match &self.pending_operation {
            None => PasswordStep::Idle,
            Some(PendingOperation::Unlock(id)) => PasswordStep::Unlock {
                id: id.clone(),
                password: self.password_buffer.clone(),
            },
            Some(PendingOperation::Lock(id)) => match self.notes.get(id.as_str()) {
                Some(n) => PasswordStep::Lock {
                    id: id.clone(),
                    note: n.duplicate(),
                    password: self.password_buffer.clone(),
                },
                None => PasswordStep::Idle,
            },
        }
    }

    /// Completes an unlock of the note `id` whose decryption ended with
    /// `outcome`: the decrypted note goes in under `id`, the index is rebuilt
    /// and the prompt closes; on failure the prompt stays, says "Incorrect password" and
    /// its buffer is cleared.
    pub fn unlock_finished(&mut self, id: String, outcome: Result<Note, StorageError>)
        requires
            old(self).wf(),
        ensures
            final(self).wf(),
            final(self).storage == old(self).storage,
            final(self)@ == match outcome {
                Ok(n) => prompt_closed(reindexed(with_note(old(self)@, id@, n@))),
                Err(_) => AppView {
                    error_message: Some("Incorrect password"@),
                    password_buffer: seq![],
                    ..old(self)@
                },
            },
    {
        match outcome {
            Ok(n) => {
                self.notes.insert(id, n);
                self.reindex();
                self.password_prompt_active = false;
                self.password_buffer = String::new();
                self.pending_operation = None;
                self.error_message = None;
            },
            Err(_) => {
                self.error_message = Some("Incorrect password".to_owned());
                self.password_buffer = String::new();
            },
        }
    }

    /// Whether a lock may go on after the encrypted note was stored with
    /// outcome `saved`: a storage failure stops it with that error, and the
    /// state stays as it is.
    pub fn lock_saved(&self, saved: Result<(), StorageError>) -> (r: Result<(), AppError>)
        ensures
            match saved {
                Ok(_) => r is Ok,
                Err(e) => r == Err::<(), AppError>(AppError::Storage(e)),
            },
    {
        match saved {
            Ok(_) => Ok(()),
            Err(e) => Err(AppError::Storage(e)),
        }
    }

    /// Completes a lock of the note `id` once its encrypted form is stored:
    /// the note as reloaded from storage (outcome `reloaded`) goes in under
    /// `id` and the index is rebuilt where the reload succeeded, and the
    /// prompt closes either way.
    pub fn lock_finished(&mut self, id: String, reloaded: Result<Note, StorageError>)
        requires
            old(self).wf(),
        ensures
            final(self).wf(),
            final(self).storage == old(self).storage,
            final(self)@ == prompt_closed(
                match reloaded {
                    Ok(n) => reindexed(with_note(old(self)@, id@, n@)),
                    Err(_) => old(self)@,
                },
            ),
    {
        match reloaded {
            Ok(n) => {
                self.notes.insert(id, n);
                self.reindex();
            },
            Err(_) => {},
        }
        self.password_prompt_active = false;
        self.password_buffer = String::new();
        self.pending_operation = None;
        self.error_message = None;
    }
}

} // verus!
