use terminal_note::json::JsonValue;
use terminal_note::note::{Note, NoteError};
use terminal_note::time::Timestamp;

fn ts(secs: i64, nanos: u32) -> Timestamp {
    Timestamp::from_unix(secs, nanos).unwrap()
}

fn member<'a>(j: &'a JsonValue, key: &str) -> Option<&'a JsonValue> {
    j.get(key)
}

fn text(j: &JsonValue) -> Option<String> {
    match j {
        JsonValue::Str(s) => Some(s.clone()),
        _ => None,
    }
}

fn obj(fields: Vec<(&str, JsonValue)>) -> JsonValue {
    JsonValue::Object(fields.into_iter().map(|(k, v)| (k.to_string(), v)).collect())
}

fn s(v: &str) -> JsonValue {
    JsonValue::Str(v.to_string())
}

fn validation(r: Result<Note, NoteError>) -> String {
    match r {
        Err(NoteError::Validation(m)) => m,
        Err(_) => panic!("another error"),
        Ok(_) => panic!("parsed"),
    }
}

#[test]
fn new_at_uses_the_time_as_identifier() {
    let n = Note::new_at("Title", "Body", ts(1700000000, 5));
    assert_eq!(n.id, "1700000000000000005");
    assert_eq!(n.title, "Title");
    assert_eq!(n.body, "Body");
    assert!(!n.encrypted);
    assert_eq!(n.created_at.secs(), 1700000000);
    assert_eq!(n.updated_at.subsec_nanos(), 5);
}

#[test]
fn new_at_before_the_epoch() {
    let n = Note::new_at("", "", ts(-1, 0));
    assert_eq!(n.id, "-1000000000");
    let m = Note::new_at("", "", ts(-2, 500));
    assert_eq!(m.id, "-1999999500");
}

#[test]
fn new_note_is_identified_by_its_creation_time() {
    let n = Note::new("a", "b");
    let expected = (n.created_at.secs() as i128) * 1_000_000_000 + n.created_at.subsec_nanos() as i128;
    assert_eq!(n.id, expected.to_string());
    assert_eq!(n.created_at.secs(), n.updated_at.secs());
    assert_eq!(n.created_at.subsec_nanos(), n.updated_at.subsec_nanos());
    assert!(!n.encrypted);
}

#[test]
fn to_json_writes_every_member() {
    let n = Note::new_at("T", "B", ts(0, 0));
    let j = n.to_json();
    match &j {
        JsonValue::Object(f) => {
            let keys: Vec<&str> = f.iter().map(|(k, _)| k.as_str()).collect();
            assert_eq!(keys, vec!["id", "title", "body", "created_at", "updated_at", "encrypted"]);
        }
        _ => panic!("not an object"),
    }
    assert_eq!(text(member(&j, "id").unwrap()).unwrap(), "0");
    assert_eq!(text(member(&j, "created_at").unwrap()).unwrap(), "1970-01-01T00:00:00+00:00");
    assert!(matches!(member(&j, "encrypted"), Some(JsonValue::Bool(false))));
}

#[test]
fn json_round_trip() {
    let mut n = Note::new_at("Shopping", "milk\neggs", ts(1700000000, 123));
    n.updated_at = ts(1700000100, 0);
    n.encrypted = true;
    let back = Note::from_json(&n.to_json()).ok().unwrap();
    assert_eq!(back.id, n.id);
    assert_eq!(back.title, n.title);
    assert_eq!(back.body, n.body);
    assert_eq!((back.created_at.secs(), back.created_at.subsec_nanos()), (1700000000, 123));
    assert_eq!((back.updated_at.secs(), back.updated_at.subsec_nanos()), (1700000100, 0));
    assert!(back.encrypted);
}

#[test]
fn json_round_trip_keeps_a_leap_second() {
    let mut n = Note::new_at("Leap", "", ts(1700000039, 1_250_000_000));
    n.updated_at = ts(1700000039, 1_000_000_000);
    let j = n.to_json();
    let back = Note::from_json(&j).ok().unwrap();
    assert_eq!((back.created_at.secs(), back.created_at.subsec_nanos()), (1700000039, 1_250_000_000));
    assert_eq!((back.updated_at.secs(), back.updated_at.subsec_nanos()), (1700000039, 1_000_000_000));
}

#[test]
fn locked_json_marks_the_note_encrypted() {
    let n = Note::new_at("x", "y", ts(1, 0));
    let j = n.to_locked_json();
    assert!(matches!(member(&j, "encrypted"), Some(JsonValue::Bool(true))));
    assert_eq!(text(member(&j, "body").unwrap()).unwrap(), "y");
}

#[test]
fn from_json_names_the_first_missing_member() {
    let j = obj(vec![("title", s("t"))]);
    assert_eq!(validation(Note::from_json(&j)), "Missing or invalid field 'id'");
    let j = obj(vec![("id", s("1")), ("title", s("t")), ("body", JsonValue::Bool(true))]);
    assert_eq!(validation(Note::from_json(&j)), "Missing or invalid field 'body'");
    assert_eq!(validation(Note::from_json(&JsonValue::Null)), "Missing or invalid field 'id'");
}

#[test]
fn from_json_rejects_bad_times_and_flags() {
    let base = |created: &str, enc: JsonValue| {
        obj(vec![
            ("id", s("1")),
            ("title", s("t")),
            ("body", s("b")),
            ("created_at", s(created)),
            ("updated_at", s("2020-01-01T00:00:00Z")),
            ("encrypted", enc),
        ])
    };
    let m = validation(Note::from_json(&base("soon", JsonValue::Bool(false))));
    assert!(m.starts_with("Invalid datetime: "), "{}", m);
    let m = validation(Note::from_json(&base("2020-01-01T00:00:00Z", s("no"))));
    assert_eq!(m, "Missing or invalid field 'encrypted'");
    let n = Note::from_json(&base("2020-01-01T00:00:00Z", JsonValue::Bool(false))).ok().unwrap();
    assert_eq!(n.created_at.secs(), 1577836800);
}

#[test]
fn from_json_takes_the_first_of_repeated_members() {
    let j = obj(vec![
        ("id", s("first")),
        ("id", s("second")),
        ("title", s("t")),
        ("body", s("b")),
        ("created_at", s("2020-01-01T00:00:00Z")),
        ("updated_at", s("2020-01-01T00:00:00Z")),
        ("encrypted", JsonValue::Bool(false)),
        ("extra", JsonValue::Number("3".to_string())),
    ]);
    assert_eq!(Note::from_json(&j).ok().unwrap().id, "first");
}

#[test]
fn duplicate_copies_every_field() {
    let n = Note::new_at("a", "b", ts(3, 4));
    let d = n.duplicate();
    assert_eq!((d.id, d.title, d.body, d.encrypted), (n.id.clone(), n.title.clone(), n.body.clone(), n.encrypted));
}
