use terminal_note::crypto::{decrypt, derive_key, encrypt, encrypt_with_nonce, key_from_bytes, key_from_phc, split_at_char, CryptoError};
use terminal_note::json::JsonValue;
use terminal_note::note::Note;
use terminal_note::storage::{EncryptedPayload, Storage, StorageError};
use terminal_note::time::Timestamp;

fn custom(r: Result<[u8; 32], CryptoError>) -> String {
    match r {
        Err(CryptoError::Custom(m)) => m,
        _ => panic!("expected a custom error"),
    }
}

fn aes(r: Result<Vec<u8>, CryptoError>) -> String {
    match r {
        Err(CryptoError::Aes(m)) => m,
        _ => panic!("expected an AES error"),
    }
}

#[test]
fn split_keeps_empty_pieces() {
    assert_eq!(split_at_char("$a$$b$", '$'), vec!["", "a", "", "b", ""]);
    assert_eq!(split_at_char("", '$'), vec![""]);
    assert_eq!(split_at_char("plain", '$'), vec!["plain"]);
}

#[test]
fn key_from_phc_takes_the_last_field() {
    let hash = base64_of(&[7u8; 32]);
    let phc = format!("$argon2id$v=19$m=19456,t=2,p=1$c29tZXNhbHQ${}", hash);
    assert_eq!(key_from_phc(&phc).ok().unwrap(), [7u8; 32]);
}

fn base64_of(bytes: &[u8]) -> String {
    const A: &[u8; 64] = b"ABCDEFGHIJKLMNOPQRSTUVWXYZabcdefghijklmnopqrstuvwxyz0123456789+/";
    let mut out = String::new();
    for chunk in bytes.chunks(3) {
        let b = [chunk[0], *chunk.get(1).unwrap_or(&0), *chunk.get(2).unwrap_or(&0)];
        let n = ((b[0] as u32) << 16) | ((b[1] as u32) << 8) | b[2] as u32;
        for i in 0..=chunk.len() {
            out.push(A[((n >> (18 - 6 * i)) & 63) as usize] as char);
        }
    }
    out
}

#[test]
fn key_from_phc_errors() {
    assert_eq!(custom(key_from_phc("$a$b$c")), "invalid hash format");
    assert_eq!(custom(key_from_phc("$a$b$c$d$not base64!")), "invalid base64");
    assert_eq!(custom(key_from_phc(&format!("$a$b$c$d${}", base64_of(&[1u8; 16])))), "invalid hash length");
}

#[test]
fn key_from_bytes_wants_32_bytes() {
    assert_eq!(key_from_bytes(&[3u8; 32]).ok().unwrap(), [3u8; 32]);
    assert_eq!(custom(key_from_bytes(&[3u8; 31])), "invalid hash length");
}

#[test]
fn derive_key_is_deterministic_and_salted() {
    let salt = [9u8; 16];
    let k1 = derive_key("correct horse", &salt).unwrap();
    let k2 = derive_key("correct horse", &salt).unwrap();
    assert_eq!(k1, k2);
    let k3 = derive_key("correct horse", &[8u8; 16]).unwrap();
    assert_ne!(k1, k3);
    let k4 = derive_key("battery staple", &salt).unwrap();
    assert_ne!(k1, k4);
}

#[test]
fn derive_key_refuses_short_and_long_salts() {
    assert!(matches!(derive_key("pw", &[1u8; 7]), Err(CryptoError::Argon2(_))));
    assert!(matches!(derive_key("pw", &[1u8; 49]), Err(CryptoError::Argon2(_))));
    assert!(derive_key("pw", &[1u8; 8]).is_ok());
    let m = CryptoError::Argon2(derive_key("pw", &[1u8; 5]).err().map(|e| match e {
        CryptoError::Argon2(a) => a,
        _ => panic!("expected argon2"),
    }).unwrap()).message();
    assert!(m.starts_with("Argon2 error: "), "{}", m);
}

#[test]
fn encryption_round_trip() {
    let key = [5u8; 32];
    let (ct, nonce) = encrypt(b"secret text", &key).unwrap();
    assert_eq!(nonce.len(), 12);
    assert_eq!(ct.len(), b"secret text".len() + 16);
    assert_eq!(decrypt(&ct, &nonce, &key).unwrap(), b"secret text".to_vec());
}

#[test]
fn encryption_with_a_given_nonce_is_deterministic() {
    let key = [1u8; 32];
    let nonce = [2u8; 12];
    let (a, n) = encrypt_with_nonce(b"abc", &key, &nonce).unwrap();
    let (b, _) = encrypt_with_nonce(b"abc", &key, &nonce).unwrap();
    assert_eq!(a, b);
    assert_eq!(n, nonce.to_vec());
}

#[test]
fn wrong_key_lengths_are_refused() {
    assert!(matches!(encrypt(b"x", &[0u8; 16]), Err(CryptoError::Aes(m)) if m == "Invalid Length"));
    assert_eq!(aes(decrypt(b"x", &[0u8; 3], &[0u8; 31])), "Invalid Length");
}

#[test]
fn tampering_or_a_wrong_key_fails() {
    let key = [5u8; 32];
    let (mut ct, nonce) = encrypt(b"hello", &key).unwrap();
    assert_eq!(aes(decrypt(&ct, &nonce, &[6u8; 32])), "aead::Error");
    ct[0] ^= 1;
    assert_eq!(aes(decrypt(&ct, &nonce, &key)), "aead::Error");
    assert_eq!(aes(decrypt(&[], &nonce, &key)), "aead::Error");
}

#[test]
fn crypto_error_messages() {
    assert_eq!(CryptoError::Aes("x".to_string()).message(), "AES error: x");
    assert_eq!(CryptoError::Custom("plain".to_string()).message(), "plain");
}

#[test]
fn note_path_joins_like_path_join() {
    let s = Storage { base_dir: "./notes".to_string() };
    assert_eq!(s.note_path("42"), "./notes/42.json");
    let s = Storage { base_dir: "/data/".to_string() };
    assert_eq!(s.note_path("a"), "/data/a.json");
    let s = Storage { base_dir: "".to_string() };
    assert_eq!(s.note_path("a"), "a.json");
    let s = Storage { base_dir: "base".to_string() };
    assert_eq!(s.note_path("/abs"), "/abs.json");
    assert_eq!(std::path::Path::new("base").join("/abs.json").to_str().unwrap(), "/abs.json");
}

fn obj(fields: Vec<(&str, &str)>) -> JsonValue {
    JsonValue::Object(fields.into_iter().map(|(k, v)| (k.to_string(), JsonValue::Str(v.to_string()))).collect())
}

#[test]
fn placeholder_for_encrypted_payloads() {
    let now = Timestamp::from_unix(99, 0).unwrap();
    let plain = obj(vec![("id", "1"), ("title", "t")]);
    assert!(Storage::encrypted_placeholder("1", &plain, now).is_none());
    let enc = obj(vec![("ciphertext", "xx"), ("created_at", "2020-01-01T00:00:00Z"), ("updated_at", "garbage")]);
    let p = Storage::encrypted_placeholder("file-id", &enc, now).unwrap();
    assert_eq!(p.id, "file-id");
    assert_eq!(p.title, "\u{1F512} Encrypted");
    assert!(p.body.is_empty() && p.encrypted);
    assert_eq!(p.created_at.secs(), 1577836800);
    assert_eq!(p.updated_at.secs(), 99);
}

#[test]
fn payload_reading_errors() {
    assert!(matches!(EncryptedPayload::read(&obj(vec![("id", "1")])), Ok(None)));
    let missing = obj(vec![("ciphertext", "AAAA"), ("salt", "AAAA")]);
    assert!(matches!(EncryptedPayload::read(&missing), Err(StorageError::Json(_))));
    let bad = obj(vec![("ciphertext", "AAAA"), ("salt", "AAAA"), ("nonce", "***")]);
    assert!(matches!(EncryptedPayload::read(&bad), Err(StorageError::Io(_))));
    let ok = obj(vec![("ciphertext", "AAE="), ("salt", "AAAA"), ("nonce", "AQID")]);
    let p = EncryptedPayload::read(&ok).unwrap().unwrap();
    assert_eq!((p.salt, p.nonce, p.ciphertext), (vec![0u8, 0, 0], vec![1u8, 2, 3], vec![0u8, 1]));
}

fn note() -> Note {
    let t = Timestamp::from_unix(1700000000, 0).unwrap();
    Note { id: "7".to_string(), title: "Diary".to_string(), body: "dear diary".to_string(), created_at: t, updated_at: t, encrypted: false }
}

#[test]
fn lock_then_unlock_gives_the_plaintext_back() {
    let n = note();
    let plaintext = b"{\"serialized\":\"note\"}".to_vec();
    let payload = Storage::encrypted_payload(&n, "pw", &plaintext).unwrap();
    let stored = EncryptedPayload::read(&payload).unwrap().unwrap();
    assert_eq!(stored.salt.len(), 16);
    assert_eq!(stored.nonce.len(), 12);
    assert_eq!(stored.open("pw").unwrap(), plaintext);
    assert!(matches!(stored.open("not pw"), Err(StorageError::Crypto(CryptoError::Aes(m))) if m == "aead::Error"));
    match payload.get("id") {
        Some(JsonValue::Str(id)) => assert_eq!(id, "7"),
        _ => panic!("id missing"),
    }
    assert!(Storage::encrypted_placeholder("7", &payload, Timestamp::now()).unwrap().encrypted);
}

#[test]
fn payload_with_a_given_salt() {
    let n = note();
    let payload = Storage::encrypted_payload_with_salt(&n, "pw", &[4u8; 16], &[6u8; 12], b"data").unwrap();
    match &payload {
        JsonValue::Object(f) => {
            let keys: Vec<&str> = f.iter().map(|(k, _)| k.as_str()).collect();
            assert_eq!(keys, vec!["id", "created_at", "updated_at", "salt", "nonce", "ciphertext"]);
        }
        _ => panic!("not an object"),
    }
    match payload.get("salt") {
        Some(JsonValue::Str(s)) => assert_eq!(s, "BAQEBAQEBAQEBAQEBAQEBA=="),
        _ => panic!("salt missing"),
    }
    match payload.get("nonce") {
        Some(JsonValue::Str(s)) => assert_eq!(s, "BgYGBgYGBgYGBgYG"),
        _ => panic!("nonce missing"),
    }
    let key = derive_key("pw", &[4u8; 16]).unwrap();
    let (ct, _) = encrypt_with_nonce(b"data", &key, &[6u8; 12]).unwrap();
    match payload.get("ciphertext") {
        Some(JsonValue::Str(s)) => assert_eq!(s, &base64_padded(&ct)),
        _ => panic!("ciphertext missing"),
    }
    let stored = EncryptedPayload::read(&payload).unwrap().unwrap();
    assert_eq!(stored.salt, vec![4u8; 16]);
    assert_eq!(stored.nonce, vec![6u8; 12]);
    assert_eq!(stored.open("pw").unwrap(), b"data".to_vec());
}

fn base64_padded(bytes: &[u8]) -> String {
    let mut s = base64_of(bytes);
    while s.len() % 4 != 0 {
        s.push('=');
    }
    s
}

#[test]
fn encrypted_payload_succeeds_and_draws_fresh_values() {
    let n = note();
    let a = Storage::encrypted_payload(&n, "", b"").unwrap();
    let b = Storage::encrypted_payload(&n, "pw", b"same").unwrap();
    let c = Storage::encrypted_payload(&n, "pw", b"same").unwrap();
    assert!(a.get("ciphertext").is_some());
    let text = |j: &JsonValue, k: &str| match j.get(k) {
        Some(JsonValue::Str(s)) => s.clone(),
        _ => panic!("member missing"),
    };
    assert_ne!(text(&b, "nonce"), text(&c, "nonce"));
    assert_ne!(text(&b, "salt"), text(&c, "salt"));
}

#[test]
fn unlock_payload_outcomes() {
    let n = note();
    let payload = Storage::encrypted_payload_with_salt(&n, "pw", &[4u8; 16], &[6u8; 12], b"secret").unwrap();
    assert_eq!(Storage::unlock_payload(&payload, "pw").unwrap().unwrap(), Some(b"secret".to_vec()));
    assert!(matches!(
        Storage::unlock_payload(&payload, "wrong"),
        Some(Err(StorageError::Crypto(CryptoError::Aes(m)))) if m == "aead::Error"
    ));
    let plain = obj(vec![("id", "1")]);
    assert!(matches!(Storage::unlock_payload(&plain, "pw"), Some(Ok(None))));
    let missing = obj(vec![("ciphertext", "AAAA")]);
    assert!(matches!(Storage::unlock_payload(&missing, "pw"), Some(Err(StorageError::Json(_)))));
    // A 2-byte salt ("AAA=") makes password-hash panic: nothing is done.
    let tiny_salt = obj(vec![("ciphertext", "AAAA"), ("salt", "AAA="), ("nonce", "AAAA")]);
    assert!(Storage::unlock_payload(&tiny_salt, "pw").is_none());
    // A 5-byte salt: Argon2 refuses it before the nonce matters.
    let short_salt = obj(vec![("ciphertext", "AAAA"), ("salt", "AAAAAAA="), ("nonce", "AAAA")]);
    assert!(matches!(
        Storage::unlock_payload(&short_salt, "pw"),
        Some(Err(StorageError::Crypto(CryptoError::Argon2(_))))
    ));
    // An 8-byte salt derives a key, and a 3-byte nonce makes aes-gcm panic.
    let bad_nonce = obj(vec![("ciphertext", "AAAA"), ("salt", "AAAAAAAAAAA="), ("nonce", "AAAA")]);
    assert!(Storage::unlock_payload(&bad_nonce, "pw").is_none());
}

#[test]
fn storage_error_messages_and_conversions() {
    let e = StorageError::from(CryptoError::Custom("bad".to_string()));
    assert_eq!(e.message(), "Crypto error: bad");
    let e = StorageError::from(std::io::Error::new(std::io::ErrorKind::NotFound, "missing"));
    assert_eq!(e.message(), "IO error: missing");
    let j: serde_json::Error = serde_json::from_str::<serde_json::Value>("{").unwrap_err();
    let e = StorageError::from(j);
    assert!(e.message().starts_with("JSON error: "));
}

#[test]
fn note_files_are_recognised_like_path_extension() {
    for name in ["1700.json", "a.b.json", ".json", "json", "x.JSON", "x.json.bak", "x.", "..json", "é.json", ""] {
        let p = std::path::Path::new(name);
        let expected = if p.extension().and_then(|s| s.to_str()) == Some("json") {
            Some(p.file_stem().unwrap().to_string_lossy().into_owned())
        } else {
            None
        };
        assert_eq!(Storage::note_id_of_file(name), expected, "{:?}", name);
    }
}

#[test]
fn derive_key_succeeds_for_salts_of_8_to_48_bytes() {
    for len in [8usize, 16, 32, 48] {
        let salt = vec![3u8; len];
        assert!(derive_key("pw", &salt).is_ok(), "{}", len);
    }
    assert!(derive_key("", &[3u8; 8]).is_ok());
}

#[test]
fn open_reports_the_derivation_error_before_the_nonce() {
    let short_salt = EncryptedPayload { salt: vec![1u8; 5], nonce: vec![0u8; 3], ciphertext: vec![0u8; 20] };
    assert!(matches!(short_salt.open("pw"), Err(StorageError::Crypto(CryptoError::Argon2(_)))));
}

#[test]
fn decrypted_text_reencrypts_to_the_ciphertext() {
    let key = [5u8; 32];
    let nonce = [7u8; 12];
    let (ct, _) = encrypt_with_nonce(b"round", &key, &nonce).unwrap();
    let p = decrypt(&ct, &nonce, &key).unwrap();
    let (again, _) = encrypt_with_nonce(&p, &key, &nonce).unwrap();
    assert_eq!(again, ct);
}

#[test]
fn locked_note_reloads_with_its_own_times() {
    let created = Timestamp::from_unix(1600000000, 250_000_000).unwrap();
    let updated = Timestamp::from_unix(1700000039, 1_500_000_000).unwrap();
    let n = Note { id: "9".to_string(), title: "T".to_string(), body: "B".to_string(), created_at: created, updated_at: updated, encrypted: false };
    let payload = Storage::encrypted_payload_with_salt(&n, "pw", &[4u8; 16], &[6u8; 12], b"data").unwrap();
    let now = Timestamp::from_unix(5, 0).unwrap();
    let p = Storage::encrypted_placeholder("9", &payload, now).unwrap();
    assert_eq!((p.created_at.secs(), p.created_at.subsec_nanos()), (1600000000, 250_000_000));
    assert_eq!((p.updated_at.secs(), p.updated_at.subsec_nanos()), (1700000039, 1_500_000_000));
}

#[test]
fn storage_and_crypto_messages_carry_their_cause() {
    let e = StorageError::Crypto(CryptoError::Aes("aead::Error".to_string()));
    assert_eq!(e.message(), "Crypto error: AES error: aead::Error");
}

#[test]
fn load_bytes_reads_stored_files() {
    let now = Timestamp::from_unix(42, 0).unwrap();
    assert!(matches!(Storage::load_bytes("1", b"not json", now), Err(StorageError::Json(_))));
    let plain = br#"{"id":"1","title":"t","body":"b","created_at":"2020-01-01T00:00:00Z","updated_at":"2020-01-01T00:00:00Z","encrypted":false}"#;
    match Storage::load_bytes("1", plain, now).unwrap() {
        Err(v) => match v.get("title") {
            Some(JsonValue::Str(t)) => assert_eq!(t, "t"),
            _ => panic!("title missing"),
        },
        Ok(_) => panic!("a plain note is no placeholder"),
    }
    let locked = br#"{"id":"9","created_at":"2021-01-01T00:00:00Z","updated_at":"bad","salt":"AAAA","nonce":"AAAA","ciphertext":"AAAA"}"#;
    let p = Storage::load_bytes("9", locked, now).unwrap().ok().unwrap();
    assert!(p.encrypted && p.body.is_empty());
    assert_eq!(p.title, "\u{1F512} Encrypted");
    assert_eq!(p.created_at.secs(), 1609459200);
    assert_eq!(p.updated_at.secs(), 42);
}

#[test]
fn unlock_bytes_reads_and_decrypts_stored_files() {
    let n = note();
    let payload = Storage::encrypted_payload_with_salt(&n, "pw", &[4u8; 16], &[6u8; 12], b"inner").unwrap();
    let text = format!(
        "{{\"id\":\"7\",\"salt\":\"{}\",\"nonce\":\"{}\",\"ciphertext\":\"{}\"}}",
        str_of(&payload, "salt"),
        str_of(&payload, "nonce"),
        str_of(&payload, "ciphertext")
    );
    assert_eq!(Storage::unlock_bytes(text.as_bytes(), "pw").unwrap().unwrap(), Some(b"inner".to_vec()));
    assert!(matches!(Storage::unlock_bytes(b"{", "pw"), Some(Err(StorageError::Json(_)))));
    assert!(matches!(Storage::unlock_bytes(br#"{"id":"1"}"#, "pw"), Some(Ok(None))));
}

fn str_of(j: &JsonValue, k: &str) -> String {
    match j.get(k) {
        Some(JsonValue::Str(s)) => s.clone(),
        _ => panic!("member missing"),
    }
}
