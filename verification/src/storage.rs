//! The layout of stored notes: where a note's file lives, and the JSON
//! payloads of plain and encrypted notes.
use vstd::prelude::*;
use crate::crypto::{
    CryptoError, crypto_text, argon2_phc_text, base64_text, key_from_phc_text, aes_gcm_opened, aes_gcm_sealed, base64_decoded,
    max_plaintext_len, b64_decode, b64_encode, random_salt, random_nonce, derive_key, encrypt_with_nonce, decrypt,
};
use crate::json::{JsonValue, json_get, json_str, json_parsed, parse_json, lemma_member_at};
use crate::note::{Note, NoteView, str_member_at, time_member_at};
use crate::time::{Timestamp, rfc3339_parsed, four_digit_year};
use crate::text::{begins_with, prefixed};

verus! {

/// std's I/O error type, carried as it is.
#[verifier::external_type_specification]
#[verifier::external_body]
pub struct ExIoError(std::io::Error);

/// serde_json's error type, carried as it is.
#[verifier::external_type_specification]
#[verifier::external_body]
pub struct ExJsonError(serde_json::Error);

/// The directory under which the notes are stored, one file per note.
pub struct Storage {
    pub base_dir: String,
}

/// Errors of storage operations.
#[derive(Debug)]
pub enum StorageError {
    Io(std::io::Error),
    Json(serde_json::Error),
    Crypto(CryptoError),
}

/// Calls `to_string` on an I/O error, its `Display` text. Nothing is
/// claimed of the text.
#[verifier::external_body]
pub(crate) fn io_error_text(e: &std::io::Error) -> (r: String) {
    e.to_string()
}

/// Calls `to_string` on a serde_json error, its `Display` text. Nothing is
/// claimed of the text.
#[verifier::external_body]
fn json_error_text(e: &serde_json::Error) -> (r: String) {
    e.to_string()
}

/// The message of a storage error where it is plain text: "Crypto error: "
/// and the crypto error's plain message; `None` where the message holds the
/// text of an I/O, JSON or Argon2 error.
pub open spec fn storage_text(e: StorageError) -> Option<Seq<char>> {
    match e {
        StorageError::Crypto(c) => match crypto_text(c) {
            Some(t) => Some("Crypto error: "@ + t),
            None => None,
        },
        _ => None,
    }
}

impl StorageError {
    /// The error's message: "IO error: ", "JSON error: " or "Crypto error: "
    /// followed by the cause's message.
    pub fn message(&self) -> (r: String)
        ensures
            storage_text(*self) matches Some(t) ==> r@ == t,
            match self {
                StorageError::Io(_) => begins_with(r@, "IO error: "@),
                StorageError::Json(_) => begins_with(r@, "JSON error: "@),
                StorageError::Crypto(_) => begins_with(r@, "Crypto error: "@),
            },
    {
        match self {
            StorageError::Io(e) => {
                let r = prefixed("IO error: ", io_error_text(e).as_str());
                assert(r@.take("IO error: "@.len() as int) =~= "IO error: "@);
                r
            },
            StorageError::Json(e) => {
                let r = prefixed("JSON error: ", json_error_text(e).as_str());
                assert(r@.take("JSON error: "@.len() as int) =~= "JSON error: "@);
                r
            },
            StorageError::Crypto(e) => {
                let r = prefixed("Crypto error: ", e.message().as_str());
                assert(r@.take("Crypto error: "@.len() as int) =~= "Crypto error: "@);
                r
            },
        }
    }
}

impl From<std::io::Error> for StorageError {
    fn from(e: std::io::Error) -> (r: StorageError) {
        StorageError::Io(e)
    }
}

impl vstd::std_specs::convert::FromSpecImpl<std::io::Error> for StorageError {
    open spec fn obeys_from_spec() -> bool {
        true
    }

    open spec fn from_spec(e: std::io::Error) -> StorageError {
        StorageError::Io(e)
    }
}

impl From<serde_json::Error> for StorageError {
    fn from(e: serde_json::Error) -> (r: StorageError) {
        StorageError::Json(e)
    }
}

impl vstd::std_specs::convert::FromSpecImpl<serde_json::Error> for StorageError {
    open spec fn obeys_from_spec() -> bool {
        true
    }

    open spec fn from_spec(e: serde_json::Error) -> StorageError {
        StorageError::Json(e)
    }
}

impl From<CryptoError> for StorageError {
    fn from(e: CryptoError) -> (r: StorageError) {
        StorageError::Crypto(e)
    }
}

impl vstd::std_specs::convert::FromSpecImpl<CryptoError> for StorageError {
    open spec fn obeys_from_spec() -> bool {
        true
    }

    open spec fn from_spec(e: CryptoError) -> StorageError {
        StorageError::Crypto(e)
    }
}

/// The path `name` relative to `base`, as `Path::join` forms it on Unix: an
/// absolute `name` stands alone, otherwise one separator joins the two.
pub open spec fn joined(base: Seq<char>, name: Seq<char>) -> Seq<char> {
    if name.len() > 0 && name[0] == '/' {
        name
    } else if base.len() == 0 || base.last() == '/' {
        base + name
    } else {
        base + seq!['/'] + name
    }
}

/// The file name of the note `id`.
pub open spec fn note_file_name(id: Seq<char>) -> Seq<char> {
    id + seq!['.', 'j', 's', 'o', 'n']
}

/// Calls serde's `ser::Error::custom` for `serde_json::Error` with the
/// message. Nothing is claimed of the error value.
#[verifier::external_body]
fn json_error(msg: &str) -> (e: serde_json::Error) {
    <serde_json::Error as serde::ser::Error>::custom(msg)
}

/// Calls `std::io::Error::new` with `ErrorKind::InvalidData` around a
/// base64 decoding error. Nothing is claimed of the error value.
#[verifier::external_body]
fn invalid_data(e: base64::DecodeError) -> (r: std::io::Error) {
    std::io::Error::new(std::io::ErrorKind::InvalidData, e)
}

/// The salt, nonce and ciphertext of an encrypted note's stored payload.
pub struct EncryptedPayload {
    pub salt: Vec<u8>,
    pub nonce: Vec<u8>,
    pub ciphertext: Vec<u8>,
}

/// Why a stored payload could not be read.
pub enum PayloadFailure {
    /// `salt`, `nonce` or `ciphertext` is missing or not a string.
    Missing,
    /// One of them is not valid base64.
    BadBase64,
}

/// What a stored payload holds: nothing to decrypt where it has no
/// `ciphertext` member; otherwise the base64-decoded `salt`, `nonce` and
/// `ciphertext`.
pub open spec fn payload_of(v: JsonValue) -> Result<Option<(Seq<u8>, Seq<u8>, Seq<u8>)>, PayloadFailure> {
    if json_get(v, "ciphertext"@) is None {
        Ok(None)
    } else {
        match (json_str(v, "salt"@), json_str(v, "nonce"@), json_str(v, "ciphertext"@)) {
            (Some(s), Some(n), Some(c)) => match (
                base64_decoded(s),
                base64_decoded(n),
                base64_decoded(c),
            ) {
                (Some(a), Some(b), Some(d)) => Ok(Some((a, b, d))),
                _ => Err(PayloadFailure::BadBase64),
            },
            _ => Err(PayloadFailure::Missing),
        }
    }
}

/// The key that `password` and `salt` derive, where derivation succeeds.
pub open spec fn derived_key(password: Seq<char>, salt: Seq<u8>) -> Option<Seq<u8>> {
    match argon2_phc_text(password, salt) {
        None => None,
        Some(phc) => match key_from_phc_text(phc) {
            Ok(k) => Some(k),
            Err(_) => None,
        },
    }
}

/// `j` is the stored payload of the note `n` encrypted with `key` (derived
/// from `salt`) under the 12-byte `nonce`: its members `id`, `created_at`,
/// `updated_at`, then the padded standard base64 text of the salt, of the
/// nonce and of the AES-256-GCM ciphertext of `plaintext` under the key and
/// that nonce, each of which decodes back to those bytes.
pub open spec fn is_encrypted_payload(
    j: JsonValue,
    n: NoteView,
    salt: Seq<u8>,
    nonce: Seq<u8>,
    key: Seq<u8>,
    plaintext: Seq<u8>,
) -> bool {
    j matches JsonValue::Object(f) && {
        &&& f@.len() == 6
        &&& nonce.len() == 12
        &&& str_member_at(f@, 0, "id"@, n.id)
        &&& time_member_at(f@, 1, "created_at"@, n.created_at)
        &&& time_member_at(f@, 2, "updated_at"@, n.updated_at)
        &&& f@[3].0@ == "salt"@
        &&& f@[3].1 matches JsonValue::Str(s) && s@ == base64_text(salt) && base64_decoded(s@) == Some(salt)
        &&& f@[4].0@ == "nonce"@
        &&& f@[4].1 matches JsonValue::Str(nt) && nt@ == base64_text(nonce) && base64_decoded(nt@) == Some(
            nonce,
        )
        &&& f@[5].0@ == "ciphertext"@
        &&& f@[5].1 matches JsonValue::Str(c) && c@ == base64_text(aes_gcm_sealed(key, nonce, plaintext))
            && base64_decoded(c@) == Some(aes_gcm_sealed(key, nonce, plaintext))
    }
}

/// The placeholder that stands for an encrypted note until it is unlocked:
/// titled "🔒 Encrypted", empty body, encrypted, with the stored times
/// where they parse and `now` otherwise.
pub open spec fn placeholder_time(v: JsonValue, key: Seq<char>, now: (i64, u32)) -> (i64, u32) {
    match json_str(v, key) {
        Some(s) => match rfc3339_parsed(s) {
            Ok(t) => t,
            Err(_) => now,
        },
        None => now,
    }
}

/// Reading the encrypted parts back from the payload of an encrypted note
/// gives its salt, its nonce and the ciphertext of its plaintext under its
/// key and that nonce (which `EncryptedPayload::open`, given the
/// password that derived the key, decrypts to the plaintext).
pub proof fn law_payload_read_back(
    j: JsonValue,
    n: NoteView,
    salt: Seq<u8>,
    nonce: Seq<u8>,
    key: Seq<u8>,
    plaintext: Seq<u8>,
)
    requires
        is_encrypted_payload(j, n, salt, nonce, key, plaintext),
    ensures
        payload_of(j) matches Ok(Some((s, nt, c))) && s == salt && nt == nonce && c == aes_gcm_sealed(
            key,
            nonce,
            plaintext,
        ),
{
    reveal_strlit("id");
    reveal_strlit("created_at");
    reveal_strlit("updated_at");
    reveal_strlit("salt");
    reveal_strlit("nonce");
    reveal_strlit("ciphertext");
    let f = match j {
        JsonValue::Object(f) => f@,
        _ => Seq::empty(),
    };
    assert("salt"@.len() == 4 && "id"@.len() == 2 && "nonce"@.len() == 5);
    assert("ciphertext"@.len() == 10 && "created_at"@.len() == 10 && "updated_at"@.len() == 10);
    assert("ciphertext"@[1] != "created_at"@[1]);
    assert("ciphertext"@[0] != "updated_at"@[0]);
    assert(f[0].0@ != "salt"@ && f[1].0@ != "salt"@ && f[2].0@ != "salt"@);
    lemma_member_at(f, 3, "salt"@);
    assert(f[0].0@ != "nonce"@ && f[1].0@ != "nonce"@ && f[2].0@ != "nonce"@ && f[3].0@ != "nonce"@);
    lemma_member_at(f, 4, "nonce"@);
    assert(f[0].0@ != "ciphertext"@ && f[1].0@ != "ciphertext"@ && f[2].0@ != "ciphertext"@);
    assert(f[3].0@ != "ciphertext"@ && f[4].0@ != "ciphertext"@);
    lemma_member_at(f, 5, "ciphertext"@);
}

/// The stored payload of a locked note reloads as the placeholder that
/// carries the note's own creation and update times (where they lie in the
/// years 0000 to 9999), whatever time it is when it is read: the payload has
/// a `ciphertext` member, and its `created_at` and `updated_at` read back as
/// the note's times (see `Storage::encrypted_placeholder`).
pub proof fn law_locked_note_reloads(
    j: JsonValue,
    n: NoteView,
    salt: Seq<u8>,
    nonce: Seq<u8>,
    key: Seq<u8>,
    plaintext: Seq<u8>,
    now: (i64, u32),
)
    requires
        is_encrypted_payload(j, n, salt, nonce, key, plaintext),
        four_digit_year(n.created_at.0),
        four_digit_year(n.updated_at.0),
    ensures
        json_get(j, "ciphertext"@) is Some,
        placeholder_time(j, "created_at"@, now) == n.created_at,
        placeholder_time(j, "updated_at"@, now) == n.updated_at,
{
    reveal_strlit("id");
    reveal_strlit("created_at");
    reveal_strlit("updated_at");
    reveal_strlit("salt");
    reveal_strlit("nonce");
    reveal_strlit("ciphertext");
    let f = match j {
        JsonValue::Object(f) => f@,
        _ => Seq::empty(),
    };
    assert("salt"@.len() == 4 && "id"@.len() == 2 && "nonce"@.len() == 5);
    assert("ciphertext"@.len() == 10 && "created_at"@.len() == 10 && "updated_at"@.len() == 10);
    assert("ciphertext"@[1] != "created_at"@[1]);
    assert("ciphertext"@[0] != "updated_at"@[0]);
    assert("updated_at"@[0] != "created_at"@[0]);
    assert(f[0].0@ != "created_at"@);
    lemma_member_at(f, 1, "created_at"@);
    assert(f[0].0@ != "updated_at"@ && f[1].0@ != "updated_at"@);
    lemma_member_at(f, 2, "updated_at"@);
    assert(f[0].0@ != "ciphertext"@ && f[1].0@ != "ciphertext"@ && f[2].0@ != "ciphertext"@);
    assert(f[3].0@ != "ciphertext"@ && f[4].0@ != "ciphertext"@);
    lemma_member_at(f, 5, "ciphertext"@);
}

/// `r` is what unlocking the stored payload `v` with `password` gives:
/// `Some(Ok(None))` where `v` has no `ciphertext` member; the read error
/// where its salt, nonce or ciphertext is missing (JSON) or not base64
/// (I/O); `None` where the salt has fewer than 3 bytes; the Argon2 error
/// where Argon2 refuses the password and salt; the key-extraction message;
/// `None` where a key is derived and the nonce does not have 12 bytes; and
/// otherwise the AES-256-GCM plaintext, or "aead::Error". A ciphertext
/// sealed under the derived key and the nonce gives its plaintext back.
pub open spec fn unlocked_as(
    v: JsonValue,
    password: Seq<char>,
    r: Option<Result<Option<Vec<u8>>, StorageError>>,
) -> bool {
    &&& match payload_of(v) {
        Ok(None) => r matches Some(Ok(None)),
        Err(PayloadFailure::Missing) => r matches Some(Err(StorageError::Json(_))),
        Err(PayloadFailure::BadBase64) => r matches Some(Err(StorageError::Io(_))),
        Ok(Some((s, n, c))) => if s.len() < 3 {
            r is None
        } else {
            match argon2_phc_text(password, s) {
                None => r matches Some(Err(StorageError::Crypto(CryptoError::Argon2(_)))),
                Some(phc) => match key_from_phc_text(phc) {
                    Err(m) => r matches Some(Err(StorageError::Crypto(CryptoError::Custom(e)))) && e@ == m,
                    Ok(k) => if n.len() != 12 {
                        r is None
                    } else {
                        match aes_gcm_opened(k, n, c) {
                            Some(p) => r matches Some(Ok(Some(x))) && x@ == p,
                            None => r matches Some(Err(StorageError::Crypto(CryptoError::Aes(e)))) && e@
                                == "aead::Error"@,
                        }
                    },
                },
            }
        },
    }
    &&& payload_of(v) matches Ok(Some((s, n, c))) ==> forall|k: Seq<u8>, p: Seq<u8>|
        s.len() >= 3 && n.len() == 12 && derived_key(password, s) == Some(k) && p.len()
            <= max_plaintext_len() && c == #[trigger] aes_gcm_sealed(k, n, p) ==> (r matches Some(
            Ok(Some(x)),
        ) && x@ == p)
}

fn decode_member(text: &String) -> (r: Result<Vec<u8>, StorageError>)
    ensures
        match base64_decoded(text@) {
            Some(b) => r matches Ok(v) && v@ == b,
            None => r matches Err(StorageError::Io(_)),
        },
{
    match b64_decode(text.as_str()) {
        Ok(v) => Ok(v),
        Err(e) => Err(StorageError::Io(invalid_data(e))),
    }
}

fn time_or(v: &JsonValue, key: &str, now: Timestamp) -> (t: Timestamp)
    ensures
        t@ == placeholder_time(*v, key@, now@),
{
    match v.str_member(key) {
        Some(s) => match Timestamp::parse_rfc3339(s.as_str()) {
            Ok(t) => t,
            Err(_) => now,
        },
        None => now,
    }
}

fn text_member(key: &str, value: String) -> (m: (String, JsonValue))
    ensures
        m.0@ == key@,
        m.1 matches JsonValue::Str(v) && v@ == value@,
{
    (key.to_owned(), JsonValue::Str(value))
}

impl EncryptedPayload {
    /// Reads the encrypted parts of a stored payload: `None` where it has no
    /// `ciphertext` member; a JSON error where `salt`, `nonce` or
    /// `ciphertext` is missing or not a string; an I/O error (invalid data)
    /// where one of them is not valid base64.
    pub fn read(v: &JsonValue) -> (r: Result<Option<EncryptedPayload>, StorageError>)
        ensures
            match payload_of(*v) {
                Ok(None) => r matches Ok(None),
                Ok(Some((s, n, c))) => r matches Ok(Some(p)) && p.salt@ == s && p.nonce@ == n
                    && p.ciphertext@ == c,
                Err(PayloadFailure::Missing) => r matches Err(StorageError::Json(_)),
                Err(PayloadFailure::BadBase64) => r matches Err(StorageError::Io(_)),
            },
    {
        if v.get("ciphertext").is_none() {
            return Ok(None);
        }
        let salt_text = match v.str_member("salt") {
            Some(s) => s,
            None => {
                return Err(StorageError::Json(json_error("missing salt")));
            },
        };
        let nonce_text = match v.str_member("nonce") {
            Some(s) => s,
            None => {
                return Err(StorageError::Json(json_error("missing nonce")));
            },
        };
        let ciphertext_text = match v.str_member("ciphertext") {
            Some(s) => s,
            None => {
                return Err(StorageError::Json(json_error("missing ciphertext")));
            },
        };
        let salt = decode_member(&salt_text)?;
        let nonce = decode_member(&nonce_text)?;
        let ciphertext = decode_member(&ciphertext_text)?;
        Ok(Some(EncryptedPayload { salt, nonce, ciphertext }))
    }

    /// Decrypts the payload with `password`: derives the key from the salt
    /// with Argon2 (an Argon2 error where Argon2 refuses the password or
    /// salt; the key-extraction message where the PHC string carries no
    /// key), then decrypts with AES-256-GCM ("aead::Error" where the
    /// ciphertext does not authenticate). The salt has at least 3 bytes
    /// (shorter ones make password-hash panic), and where a key is derived
    /// the nonce has 12 bytes (aes-gcm panics on another nonce length). A
    /// ciphertext that was made under the key that `password` derives from
    /// this salt, and under this nonce, gives its plaintext back.
    pub fn open(&self, password: &str) -> (r: Result<Vec<u8>, StorageError>)
        requires
            self.salt@.len() >= 3,
            self.nonce@.len() == 12 || derived_key(password@, self.salt@) is None,
        ensures
            match argon2_phc_text(password@, self.salt@) {
                None => r matches Err(StorageError::Crypto(CryptoError::Argon2(_))),
                Some(phc) => match key_from_phc_text(phc) {
                    Err(m) => r matches Err(StorageError::Crypto(CryptoError::Custom(e))) && e@ == m,
                    Ok(k) => match aes_gcm_opened(k, self.nonce@, self.ciphertext@) {
                        Some(p) => r matches Ok(v) && v@ == p,
                        None => r matches Err(StorageError::Crypto(CryptoError::Aes(e))) && e@
                            == "aead::Error"@,
                    },
                },
            },
            forall|k: Seq<u8>, p: Seq<u8>|
                derived_key(password@, self.salt@) == Some(k) && p.len() <= max_plaintext_len()
                    && self.ciphertext@ == #[trigger] aes_gcm_sealed(k, self.nonce@, p) ==> (r matches Ok(v)
                    && v@ == p),
    {
        let key = match derive_key(password, self.salt.as_slice()) {
            Ok(k) => k,
            Err(e) => {
                return Err(StorageError::Crypto(e));
            },
        };
        match decrypt(self.ciphertext.as_slice(), self.nonce.as_slice(), key.as_slice()) {
            Ok(p) => Ok(p),
            Err(e) => Err(StorageError::Crypto(e)),
        }
    }
}

/// The position of the last `.` in `name`, if any.
pub open spec fn last_dot(name: Seq<char>) -> Option<int>
    decreases name.len(),
{
    if name.len() == 0 {
        None
    } else if name.last() == '.' {
        Some(name.len() - 1)
    } else {
        last_dot(name.drop_last())
    }
}

/// The note that a directory entry named `name` holds: a name with the
/// extension `json` (as `Path::extension` sees it: the part after the last
/// `.`, where that `.` does not begin the name) holds the note named by its
/// stem.
pub open spec fn note_id_of_file(name: Seq<char>) -> Option<Seq<char>> {
    match last_dot(name) {
        Some(p) => if p > 0 && name.skip(p + 1) == "json"@ {
            Some(name.take(p))
        } else {
            None
        },
        None => None,
    }
}

impl Storage {
    /// The identifier of the note that the directory entry `file_name`
    /// holds, where its extension is `json`: the file name's stem.
    pub fn note_id_of_file(file_name: &str) -> (r: Option<String>)
        ensures
            match note_id_of_file(file_name@) {
                Some(id) => r matches Some(s) && s@ == id,
                None => r is None,
            },
    {
        let cs = crate::text::chars_of(file_name);
        let mut i: usize = cs.len();
        assert(cs@.take(cs.len() as int) =~= cs@);
        while i > 0 && cs[i - 1] != '.'
            invariant
                i <= cs.len(),
                cs@ == file_name@,
                last_dot(cs@) == last_dot(cs@.take(i as int)),
            decreases i,
        {
            assert(cs@.take(i as int).drop_last() =~= cs@.take(i - 1));
            i -= 1;
        }
        if i <= 1 {
            proof {
                if i == 1 {
                    assert(cs@.take(1).last() == '.');
                    assert(last_dot(cs@) == Some(0int));
                }
            }
            return None;
        }
        let p: usize = i - 1;
        assert(cs@.take(i as int).last() == '.');
        assert(last_dot(cs@) == Some(p as int));
        let ext = file_name.substring_char(i, cs.len());
        let is_json = ext.to_owned() == "json".to_owned();
        assert(ext@ =~= file_name@.skip(i as int));
        if is_json {
            let stem = file_name.substring_char(0, p).to_owned();
            assert(stem@ =~= file_name@.take(p as int));
            Some(stem)
        } else {
            None
        }
    }

    /// The placeholder for a stored payload that holds a `ciphertext`
    /// member, or `None` for a plain note: the placeholder has the given
    /// `id`, the title "🔒 Encrypted", an empty body, is encrypted, and
    /// takes its times from the payload's `created_at` and `updated_at`
    /// where they parse, and `now` otherwise.
    pub fn encrypted_placeholder(id: &str, v: &JsonValue, now: Timestamp) -> (r: Option<Note>)
        ensures
            json_get(*v, "ciphertext"@) is None ==> r is None,
            json_get(*v, "ciphertext"@) is Some ==> (r matches Some(n) && n@ == (NoteView {
                id: id@,
                title: "\u{1F512} Encrypted"@,
                body: seq![],
                created_at: placeholder_time(*v, "created_at"@, now@),
                updated_at: placeholder_time(*v, "updated_at"@, now@),
                encrypted: true,
            })),
    {
        if v.get("ciphertext").is_none() {
            return None;
        }
        let created_at = time_or(v, "created_at", now);
        let updated_at = time_or(v, "updated_at", now);
        Some(
            Note {
                id: id.to_owned(),
                title: "\u{1F512} Encrypted".to_owned(),
                body: String::new(),
                created_at,
                updated_at,
                encrypted: true,
            },
        )
    }

    /// The stored payload of `note` encrypted with `password`, with the key
    /// derived from `salt`: `plaintext` (the serialized note) is encrypted
    /// under `nonce`, and the payload holds the note's `id`, `created_at`,
    /// `updated_at` and the base64 of the salt, nonce and ciphertext. It is
    /// made for every password of at most `u32::MAX` bytes and every
    /// plaintext that AES-GCM takes.
    pub fn encrypted_payload_with_salt(
        note: &Note,
        password: &str,
        salt: &[u8; 16],
        nonce: &[u8; 12],
        plaintext: &[u8],
    ) -> (r: Result<JsonValue, StorageError>)
        ensures
            match argon2_phc_text(password@, salt@) {
                None => r matches Err(StorageError::Crypto(CryptoError::Argon2(_))),
                Some(phc) => match key_from_phc_text(phc) {
                    Err(m) => r matches Err(StorageError::Crypto(CryptoError::Custom(e))) && e@ == m,
                    Ok(k) => if plaintext@.len() > max_plaintext_len() {
                        r matches Err(StorageError::Crypto(CryptoError::Aes(e))) && e@ == "aead::Error"@
                    } else {
                        r matches Ok(j) && is_encrypted_payload(j, note@, salt@, nonce@, k, plaintext@)
                    },
                },
            },
            vstd::utf8::encode_utf8(password@).len() <= 0xFFFF_FFFF && plaintext@.len()
                <= max_plaintext_len() ==> r is Ok,
            vstd::utf8::encode_utf8(password@).len() <= 0xFFFF_FFFF <==> argon2_phc_text(
                password@,
                salt@,
            ) is Some,
            derived_key(password@, salt@) is Some <==> argon2_phc_text(password@, salt@) is Some,
    {
        let key = match derive_key(password, salt.as_slice()) {
            Ok(k) => k,
            Err(e) => {
                return Err(StorageError::Crypto(e));
            },
        };
        let (ciphertext, nonce_bytes) = match encrypt_with_nonce(plaintext, key.as_slice(), nonce) {
            Ok(p) => p,
            Err(e) => {
                return Err(StorageError::Crypto(e));
            },
        };
        let mut fields: Vec<(String, JsonValue)> = Vec::new();
        fields.push(text_member("id", note.id.clone()));
        fields.push(text_member("created_at", note.created_at.to_rfc3339()));
        fields.push(text_member("updated_at", note.updated_at.to_rfc3339()));
        fields.push(text_member("salt", b64_encode(salt.as_slice())));
        fields.push(text_member("nonce", b64_encode(nonce_bytes.as_slice())));
        fields.push(text_member("ciphertext", b64_encode(ciphertext.as_slice())));
        Ok(JsonValue::Object(fields))
    }

    /// The stored payload of `note` encrypted with `password` under a fresh
    /// random 16-byte salt and a fresh random 12-byte nonce (see
    /// `encrypted_payload_with_salt`). It is made for every password of at
    /// most `u32::MAX` bytes and every plaintext that AES-GCM takes;
    /// otherwise the Argon2 error (password too long) or "aead::Error"
    /// (plaintext too long) comes back.
    pub fn encrypted_payload(note: &Note, password: &str, plaintext: &[u8]) -> (r: Result<JsonValue, StorageError>)
        ensures
            match r {
                Ok(j) => exists|salt: Seq<u8>, nonce: Seq<u8>, k: Seq<u8>|
                    salt.len() == 16 && derived_key(password@, salt) == Some(k) && is_encrypted_payload(
                        j,
                        note@,
                        salt,
                        nonce,
                        k,
                        plaintext@,
                    ),
                Err(e) => e is Crypto,
            },
            r is Ok <==> (vstd::utf8::encode_utf8(password@).len() <= 0xFFFF_FFFF && plaintext@.len()
                <= max_plaintext_len()),
            vstd::utf8::encode_utf8(password@).len() > 0xFFFF_FFFF ==> r matches Err(
                StorageError::Crypto(CryptoError::Argon2(_)),
            ),
            vstd::utf8::encode_utf8(password@).len() <= 0xFFFF_FFFF && plaintext@.len()
                > max_plaintext_len() ==> (r matches Err(StorageError::Crypto(CryptoError::Aes(e))) && e@
                == "aead::Error"@),
    {
        let salt = random_salt();
        let nonce = random_nonce();
        Storage::encrypted_payload_with_salt(note, password, &salt, &nonce, plaintext)
    }

    /// Unlocks the stored payload `v` with `password`, as far as the crypto
    /// crates allow (see `unlocked_as`): `Some(Ok(None))` for a plain note;
    /// the payload's read error; otherwise the key derived from the salt
    /// with Argon2 and the AES-256-GCM decryption of the ciphertext. `None`
    /// where the salt has fewer than 3 bytes, or a key is derived and the
    /// nonce does not have 12 bytes: on those payloads password-hash and
    /// aes-gcm panic, and nothing is done.
    pub fn unlock_payload(v: &JsonValue, password: &str) -> (r: Option<Result<Option<Vec<u8>>, StorageError>>)
        ensures
            unlocked_as(*v, password@, r),
    {
        let payload = match EncryptedPayload::read(v) {
            Err(e) => {
                return Some(Err(e));
            },
            Ok(None) => {
                return Some(Ok(None));
            },
            Ok(Some(p)) => p,
        };
        if payload.salt.len() < 3 {
            return None;
        }
        if payload.nonce.len() != 12 {
            return match derive_key(password, payload.salt.as_slice()) {
                Ok(_) => None,
                Err(e) => Some(Err(StorageError::Crypto(e))),
            };
        }
        match payload.open(password) {
            Ok(p) => Some(Ok(Some(p))),
            Err(e) => Some(Err(e)),
        }
    }

    /// Unlocks the stored file content `data` with `password`: a JSON error
    /// where serde_json does not read `data`; otherwise as `unlock_payload`
    /// on the value that it reads.
    pub fn unlock_bytes(data: &[u8], password: &str) -> (r: Option<Result<Option<Vec<u8>>, StorageError>>)
        ensures
            match json_parsed(data@) {
                None => r matches Some(Err(StorageError::Json(_))),
                Some(v) => unlocked_as(v, password@, r),
            },
    {
        match parse_json(data) {
            Err(e) => Some(Err(StorageError::Json(e))),
            Ok(v) => Storage::unlock_payload(&v, password),
        }
    }

    /// Loads the stored file content `data` of the note `id`: a JSON error
    /// where serde_json does not read `data`; for an encrypted payload (one
    /// with a `ciphertext` member) the placeholder that
    /// `encrypted_placeholder` makes, with `now` for times that do not
    /// parse; otherwise the JSON value, for the caller to read as a note.
    pub fn load_bytes(id: &str, data: &[u8], now: Timestamp) -> (r: Result<Result<Note, JsonValue>, StorageError>)
        ensures
            match json_parsed(data@) {
                None => r matches Err(StorageError::Json(_)),
                Some(v) => if json_get(v, "ciphertext"@) is Some {
                    r matches Ok(Ok(n)) && n@ == (NoteView {
                        id: id@,
                        title: "\u{1F512} Encrypted"@,
                        body: seq![],
                        created_at: placeholder_time(v, "created_at"@, now@),
                        updated_at: placeholder_time(v, "updated_at"@, now@),
                        encrypted: true,
                    })
                } else {
                    r == Ok::<Result<Note, JsonValue>, StorageError>(Err(v))
                },
            },
    {
        let v = match parse_json(data) {
            Err(e) => {
                return Err(StorageError::Json(e));
            },
            Ok(v) => v,
        };
        match Storage::encrypted_placeholder(id, &v, now) {
            Some(n) => Ok(Ok(n)),
            None => Ok(Err(v)),
        }
    }

    /// The path of the file that holds the note `id`: `<base_dir>/<id>.json`.
    pub fn note_path(&self, id: &str) -> (p: String)
        ensures
            p@ == joined(self.base_dir@, note_file_name(id@)),
    {
        let mut name = id.to_owned();
        name.append(".json");
        proof {
            reveal_strlit(".json");
        }
        assert(name@ =~= note_file_name(id@));
        let ns = name.as_str();
        if !ns.is_empty() && ns.get_char(0) == '/' {
            return name;
        }
        let b = self.base_dir.as_str();
        let n: usize = b.unicode_len();
        let mut p = self.base_dir.clone();
        if n == 0 || b.get_char(n - 1) == '/' {
            p.append(name.as_str());
        } else {
            p.append("/");
            proof {
                reveal_strlit("/");
            }
            p.append(name.as_str());
            assert(p@ =~= self.base_dir@ + seq!['/'] + name@);
        }
        p
    }
}

} // verus!
