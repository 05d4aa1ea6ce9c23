//! A single note with its metadata.
use vstd::prelude::*;
use crate::text::{decimal, decimal_string};
use crate::time::{Timestamp, nanos_since_epoch, rfc3339_text, rfc3339_parsed, four_digit_year};
use crate::json::{JsonValue, json_str, json_bool, lemma_member_at};

verus! {

/// A note: identifier, title, body, creation and update times, and whether
/// its stored form is encrypted.
#[derive(Clone)]
pub struct Note {
    pub id: String,
    pub title: String,
    pub body: String,
    pub created_at: Timestamp,
    pub updated_at: Timestamp,
    pub encrypted: bool,
}

/// The mathematical value of a note.
pub struct NoteView {
    pub id: Seq<char>,
    pub title: Seq<char>,
    pub body: Seq<char>,
    pub created_at: (i64, u32),
    pub updated_at: (i64, u32),
    pub encrypted: bool,
}

impl View for Note {
    type V = NoteView;

    open spec fn view(&self) -> NoteView {
        NoteView {
            id: self.id@,
            title: self.title@,
            body: self.body@,
            created_at: self.created_at@,
            updated_at: self.updated_at@,
            encrypted: self.encrypted,
        }
    }
}

/// The views of a sequence of notes.
pub open spec fn note_views(notes: Seq<Note>) -> Seq<NoteView> {
    notes.map_values(|n: Note| n@)
}

/// The identifier that a note created at `t` gets: the instant in
/// nanoseconds since the Unix epoch, in decimal.
pub open spec fn id_for_time(t: (i64, u32)) -> Seq<char> {
    decimal(nanos_since_epoch(t))
}

/// Errors while handling notes.
pub enum NoteError {
    Io(std::io::Error),
    Json(serde_json::Error),
    Validation(String),
}

/// The message for a member that is missing or of the wrong kind.
pub open spec fn missing_field(key: Seq<char>) -> Seq<char> {
    "Missing or invalid field '"@ + key + "'"@
}

/// The message for a time that does not parse, given the parser's message.
pub open spec fn invalid_datetime(e: Seq<char>) -> Seq<char> {
    "Invalid datetime: "@ + e
}

/// The string member `key` of `j`, or the message for its absence.
pub open spec fn str_field(j: JsonValue, key: Seq<char>) -> Result<Seq<char>, Seq<char>> {
    match json_str(j, key) {
        Some(s) => Ok(s),
        None => Err(missing_field(key)),
    }
}

/// The boolean member `key` of `j`, or the message for its absence.
pub open spec fn bool_field(j: JsonValue, key: Seq<char>) -> Result<bool, Seq<char>> {
    match json_bool(j, key) {
        Some(b) => Ok(b),
        None => Err(missing_field(key)),
    }
}

/// The RFC 3339 time in the string member `key` of `j`, or the message for
/// its absence or for the parse error.
pub open spec fn time_field(j: JsonValue, key: Seq<char>) -> Result<(i64, u32), Seq<char>> {
    match str_field(j, key) {
        Err(e) => Err(e),
        Ok(s) => match rfc3339_parsed(s) {
            Ok(t) => Ok(t),
            Err(m) => Err(invalid_datetime(m)),
        },
    }
}

/// The note that the JSON object `j` describes, with the members `id`,
/// `title`, `body` (strings), `created_at`, `updated_at` (RFC 3339
/// strings) and `encrypted` (a boolean), read in that order; or the
/// message for the first member that is missing or invalid.
pub open spec fn note_from_json(j: JsonValue) -> Result<NoteView, Seq<char>> {
    match str_field(j, "id"@) {
        Err(e) => Err(e),
        Ok(id) => match str_field(j, "title"@) {
            Err(e) => Err(e),
            Ok(title) => match str_field(j, "body"@) {
                Err(e) => Err(e),
                Ok(body) => match time_field(j, "created_at"@) {
                    Err(e) => Err(e),
                    Ok(created_at) => match time_field(j, "updated_at"@) {
                        Err(e) => Err(e),
                        Ok(updated_at) => match bool_field(j, "encrypted"@) {
                            Err(e) => Err(e),
                            Ok(encrypted) => Ok(
                                NoteView { id, title, body, created_at, updated_at, encrypted },
                            ),
                        },
                    },
                },
            },
        },
    }
}

/// The member at `i` of `f` is named `key` and holds the string `s`.
pub open spec fn str_member_at(f: Seq<(String, JsonValue)>, i: int, key: Seq<char>, s: Seq<char>) -> bool {
    &&& f[i].0@ == key
    &&& f[i].1 matches JsonValue::Str(v) && v@ == s
}

/// The member at `i` of `f` is named `key` and holds chrono's RFC 3339 text
/// of `t`, which reads back as `t` where `t` lies in the years 0000 to
/// 9999.
pub open spec fn time_member_at(f: Seq<(String, JsonValue)>, i: int, key: Seq<char>, t: (i64, u32)) -> bool {
    &&& f[i].0@ == key
    &&& f[i].1 matches JsonValue::Str(v) && rfc3339_text(t.0, t.1) == Some(v@) && (four_digit_year(
        t.0,
    ) ==> rfc3339_parsed(v@) == Ok::<(i64, u32), Seq<char>>(t))
}

/// `j` is the JSON object of the note `n`: its members `id`, `title`,
/// `body`, `created_at`, `updated_at` and `encrypted`, in that order.
pub open spec fn is_note_json(j: JsonValue, n: NoteView) -> bool {
    j matches JsonValue::Object(f) && {
        &&& f@.len() == 6
        &&& str_member_at(f@, 0, "id"@, n.id)
        &&& str_member_at(f@, 1, "title"@, n.title)
        &&& str_member_at(f@, 2, "body"@, n.body)
        &&& time_member_at(f@, 3, "created_at"@, n.created_at)
        &&& time_member_at(f@, 4, "updated_at"@, n.updated_at)
        &&& f@[5].0@ == "encrypted"@
        &&& f@[5].1 == JsonValue::Bool(n.encrypted)
    }
}

/// Reading back the JSON object of a note gives the note, where its times
/// lie in the years 0000 to 9999 (leap seconds included).
pub proof fn law_json_round_trip(j: JsonValue, n: NoteView)
    requires
        is_note_json(j, n),
        four_digit_year(n.created_at.0),
        four_digit_year(n.updated_at.0),
    ensures
        note_from_json(j) == Ok::<NoteView, Seq<char>>(n),
{
    reveal_strlit("id");
    reveal_strlit("title");
    reveal_strlit("body");
    reveal_strlit("created_at");
    reveal_strlit("updated_at");
    reveal_strlit("encrypted");
    let f = match j {
        JsonValue::Object(f) => f@,
        _ => Seq::empty(),
    };
    lemma_member_at(f, 0, "id"@);
    lemma_member_at(f, 1, "title"@);
    assert("body"@.len() == 4);
    assert("id"@.len() == 2);
    assert("title"@.len() == 5);
    assert("body"@ != "id"@);
    assert("body"@ != "title"@);
    lemma_member_at(f, 2, "body"@);
    lemma_member_at(f, 3, "created_at"@);
    assert("updated_at"@[0] != "created_at"@[0]);
    assert(f[3].0@ != "updated_at"@);
    assert(f[0].0@ != "updated_at"@ && f[1].0@ != "updated_at"@ && f[2].0@ != "updated_at"@);
    lemma_member_at(f, 4, "updated_at"@);
    lemma_member_at(f, 5, "encrypted"@);
}

/// A note's JSON object holds each field under its own name: the
/// identifier, title and body as strings under "id", "title" and "body",
/// chrono's RFC 3339 text of the creation time under "created_at" and of
/// the update time under "updated_at", and the flag under "encrypted".
pub proof fn law_json_members(j: JsonValue, n: NoteView)
    requires
        is_note_json(j, n),
    ensures
        json_str(j, "id"@) == Some(n.id),
        json_str(j, "title"@) == Some(n.title),
        json_str(j, "body"@) == Some(n.body),
        json_str(j, "created_at"@) == rfc3339_text(n.created_at.0, n.created_at.1),
        json_str(j, "updated_at"@) == rfc3339_text(n.updated_at.0, n.updated_at.1),
        json_bool(j, "encrypted"@) == Some(n.encrypted),
{
    reveal_strlit("id");
    reveal_strlit("title");
    reveal_strlit("body");
    reveal_strlit("created_at");
    reveal_strlit("updated_at");
    reveal_strlit("encrypted");
    let f = match j {
        JsonValue::Object(f) => f@,
        _ => Seq::empty(),
    };
    assert("body"@.len() == 4);
    assert("id"@.len() == 2);
    assert("title"@.len() == 5);
    assert("created_at"@.len() == 10 && "updated_at"@.len() == 10 && "encrypted"@.len() == 9);
    assert(f[0].0@ != "title"@);
    lemma_member_at(f, 0, "id"@);
    lemma_member_at(f, 1, "title"@);
    assert("body"@ != "id"@);
    assert("body"@ != "title"@);
    lemma_member_at(f, 2, "body"@);
    assert(f[0].0@ != "created_at"@ && f[1].0@ != "created_at"@ && f[2].0@ != "created_at"@);
    lemma_member_at(f, 3, "created_at"@);
    assert("updated_at"@[0] != "created_at"@[0]);
    assert(f[3].0@ != "updated_at"@);
    assert(f[0].0@ != "updated_at"@ && f[1].0@ != "updated_at"@ && f[2].0@ != "updated_at"@);
    lemma_member_at(f, 4, "updated_at"@);
    assert("encrypted"@[0] != "created_at"@[0] && "encrypted"@[0] != "updated_at"@[0]);
    assert(f[0].0@ != "encrypted"@ && f[1].0@ != "encrypted"@ && f[2].0@ != "encrypted"@);
    assert(f[3].0@ != "encrypted"@ && f[4].0@ != "encrypted"@);
    lemma_member_at(f, 5, "encrypted"@);
}

/// Reading a note from JSON takes each field from the member of its own
/// name: the identifier, title and body from the strings under "id",
/// "title" and "body", the creation time from what chrono reads in the
/// "created_at" text, the update time from the "updated_at" text, and the
/// flag from "encrypted".
pub proof fn law_from_json_members(j: JsonValue)
    ensures
        note_from_json(j) matches Ok(m) ==> {
            &&& json_str(j, "id"@) == Some(m.id)
            &&& json_str(j, "title"@) == Some(m.title)
            &&& json_str(j, "body"@) == Some(m.body)
            &&& json_str(j, "created_at"@) matches Some(c) && rfc3339_parsed(c) == Ok::<
                (i64, u32),
                Seq<char>,
            >(m.created_at)
            &&& json_str(j, "updated_at"@) matches Some(u) && rfc3339_parsed(u) == Ok::<
                (i64, u32),
                Seq<char>,
            >(m.updated_at)
            &&& json_bool(j, "encrypted"@) == Some(m.encrypted)
        },
{
}

fn message_with(prefix: &str, middle: &str, suffix: &str) -> (s: String)
    ensures
        s@ == prefix@ + middle@ + suffix@,
{
    let mut s = prefix.to_owned();
    s.append(middle);
    s.append(suffix);
    s
}

fn get_str(json: &JsonValue, key: &str) -> (r: Result<String, NoteError>)
    ensures
        match str_field(*json, key@) {
            Ok(s) => r matches Ok(v) && v@ == s,
            Err(m) => r matches Err(NoteError::Validation(e)) && e@ == m,
        },
{
    match json.str_member(key) {
        Some(s) => Ok(s),
        None => Err(NoteError::Validation(message_with("Missing or invalid field '", key, "'"))),
    }
}

fn get_bool(json: &JsonValue, key: &str) -> (r: Result<bool, NoteError>)
    ensures
        match bool_field(*json, key@) {
            Ok(b) => r == Ok::<bool, NoteError>(b),
            Err(m) => r matches Err(NoteError::Validation(e)) && e@ == m,
        },
{
    match json.bool_member(key) {
        Some(b) => Ok(b),
        None => Err(NoteError::Validation(message_with("Missing or invalid field '", key, "'"))),
    }
}

fn get_datetime(json: &JsonValue, key: &str) -> (r: Result<Timestamp, NoteError>)
    ensures
        match time_field(*json, key@) {
            Ok(t) => r matches Ok(v) && v@ == t,
            Err(m) => r matches Err(NoteError::Validation(e)) && e@ == m,
        },
{
    let s = match get_str(json, key) {
        Ok(s) => s,
        Err(e) => {
            return Err(e);
        },
    };
    match Timestamp::parse_rfc3339(s.as_str()) {
        Ok(t) => Ok(t),
        Err(m) => {
            proof {
                reveal_strlit("");
            }
            let e = message_with("Invalid datetime: ", m.as_str(), "");
            assert(e@ =~= invalid_datetime(m@));
            Err(NoteError::Validation(e))
        },
    }
}

fn str_member_json(key: &str, value: String) -> (m: (String, JsonValue))
    ensures
        m.0@ == key@,
        m.1 matches JsonValue::Str(v) && v@ == value@,
{
    (key.to_owned(), JsonValue::Str(value))
}

impl Note {
    /// Reads a note from the JSON object `json`, which holds the members
    /// `id`, `title`, `body`, `created_at`, `updated_at` (RFC 3339 times)
    /// and `encrypted`; a missing or invalid member gives a validation
    /// error that names it.
    pub fn from_json(json: &JsonValue) -> (r: Result<Note, NoteError>)
        ensures
            match note_from_json(*json) {
                Ok(v) => r matches Ok(n) && n@ == v,
                Err(m) => r matches Err(NoteError::Validation(e)) && e@ == m,
            },
            r matches Ok(n) ==> {
                &&& json_str(*json, "created_at"@) matches Some(c) && rfc3339_parsed(c) == Ok::<
                    (i64, u32),
                    Seq<char>,
                >(n.created_at@)
                &&& json_str(*json, "updated_at"@) matches Some(u) && rfc3339_parsed(u) == Ok::<
                    (i64, u32),
                    Seq<char>,
                >(n.updated_at@)
            },
    {
        proof {
            law_from_json_members(*json);
        }
        let id = get_str(json, "id")?;
        let title = get_str(json, "title")?;
        let body = get_str(json, "body")?;
        let created_at = get_datetime(json, "created_at")?;
        let updated_at = get_datetime(json, "updated_at")?;
        let encrypted = get_bool(json, "encrypted")?;
        Ok(Note { id, title, body, created_at, updated_at, encrypted })
    }

    /// The JSON object of this note: `id`, `title`, `body`, then
    /// `created_at` and `updated_at` as RFC 3339 strings, then `encrypted`.
    pub fn to_json(&self) -> (j: JsonValue)
        ensures
            is_note_json(j, self@),
            json_str(j, "id"@) == Some(self.id@),
            json_str(j, "title"@) == Some(self.title@),
            json_str(j, "body"@) == Some(self.body@),
            json_str(j, "created_at"@) == rfc3339_text(self@.created_at.0, self@.created_at.1),
            json_str(j, "updated_at"@) == rfc3339_text(self@.updated_at.0, self@.updated_at.1),
            json_bool(j, "encrypted"@) == Some(self.encrypted),
    {
        let mut fields: Vec<(String, JsonValue)> = Vec::new();
        fields.push(str_member_json("id", self.id.clone()));
        fields.push(str_member_json("title", self.title.clone()));
        fields.push(str_member_json("body", self.body.clone()));
        fields.push(str_member_json("created_at", self.created_at.to_rfc3339()));
        fields.push(str_member_json("updated_at", self.updated_at.to_rfc3339()));
        fields.push(("encrypted".to_owned(), JsonValue::Bool(self.encrypted)));
        let j = JsonValue::Object(fields);
        proof {
            law_json_members(j, self@);
        }
        j
    }

    /// A new, unencrypted note with the given title and body, created and
    /// updated at the current time, and identified by that time.
    pub fn new(title: &str, body: &str) -> (n: Note)
        ensures
            n@.title == title@,
            n@.body == body@,
            n@.created_at == n@.updated_at,
            n@.id == id_for_time(n@.created_at),
            !n@.encrypted,
    {
        Note::new_at(title, body, Timestamp::now())
    }

    /// A new, unencrypted note with the given title and body, created and
    /// updated at `now`, and identified by `now` in nanoseconds since the
    /// Unix epoch.
    pub fn new_at(title: &str, body: &str, now: Timestamp) -> (n: Note)
        ensures
            n@ == (NoteView {
                id: id_for_time(now@),
                title: title@,
                body: body@,
                created_at: now@,
                updated_at: now@,
                encrypted: false,
            }),
    {
        let secs: i64 = now.secs();
        let nanos: u32 = now.subsec_nanos();
        let total: i128 = (secs as i128) * 1_000_000_000i128 + (nanos as i128);
        Note {
            id: decimal_string(total),
            title: title.to_owned(),
            body: body.to_owned(),
            created_at: now,
            updated_at: now,
            encrypted: false,
        }
    }

    /// The JSON object of this note marked as encrypted, the form in which
    /// a locked note is serialized before encryption.
    pub fn to_locked_json(&self) -> (j: JsonValue)
        ensures
            is_note_json(j, NoteView { encrypted: true, ..self@ }),
    {
        let mut locked = self.duplicate();
        locked.encrypted = true;
        locked.to_json()
    }

    /// A copy of this note.
    pub fn duplicate(&self) -> (n: Note)
        ensures
            n@ == self@,
    {
        Note {
            id: self.id.clone(),
            title: self.title.clone(),
            body: self.body.clone(),
            created_at: self.created_at,
            updated_at: self.updated_at,
            encrypted: self.encrypted,
        }
    }
}

} // verus!
