//! Key derivation with Argon2 and authenticated encryption with
//! AES-256-GCM.
use vstd::prelude::*;
use aes_gcm::aead::Aead;
use aes_gcm::KeyInit;
use argon2::PasswordHasher;
use rand::Rng;
use rand::RngCore;
use crate::text::{views, push_char, begins_with, prefixed};

verus! {

/// Argon2's error type, carried as it is.
#[verifier::external_type_specification]
#[verifier::external_body]
pub struct ExArgonError(argon2::password_hash::Error);

/// base64's decoding error type, carried as it is.
#[verifier::external_type_specification]
#[verifier::external_body]
pub struct ExDecodeError(base64::DecodeError);

/// A derived key and the salt it was derived with.
pub struct CryptoContext {
    pub salt: [u8; 16],
    pub key: [u8; 32],
}

/// Errors of the crypto operations.
#[derive(Debug)]
pub enum CryptoError {
    Argon2(argon2::password_hash::Error),
    Aes(String),
    Custom(String),
}

/// Calls `to_string` on Argon2's error, its `Display` text. Nothing is
/// claimed of the text.
#[verifier::external_body]
fn argon2_error_text(e: &argon2::password_hash::Error) -> (r: String) {
    e.to_string()
}

/// The message of a crypto error where it is plain text: "AES error: " and
/// the message, or the custom message alone; `None` for an Argon2 error,
/// whose text is Argon2's own.
pub open spec fn crypto_text(e: CryptoError) -> Option<Seq<char>> {
    match e {
        CryptoError::Argon2(_) => None,
        CryptoError::Aes(m) => Some("AES error: "@ + m@),
        CryptoError::Custom(m) => Some(m@),
    }
}

impl CryptoError {
    /// The error's message: "Argon2 error: " and Argon2's own message, "AES
    /// error: " and the message, or the custom message alone.
    pub fn message(&self) -> (r: String)
        ensures
            crypto_text(*self) matches Some(t) ==> r@ == t,
            match self {
                CryptoError::Argon2(_) => begins_with(r@, "Argon2 error: "@),
                CryptoError::Aes(m) => r@ == "AES error: "@ + m@,
                CryptoError::Custom(m) => r@ == m@,
            },
    {
        match self {
            CryptoError::Argon2(e) => {
                let t = argon2_error_text(e);
                let r = prefixed("Argon2 error: ", t.as_str());
                assert(r@.take("Argon2 error: "@.len() as int) =~= "Argon2 error: "@);
                r
            },
            CryptoError::Aes(m) => prefixed("AES error: ", m.as_str()),
            CryptoError::Custom(m) => m.clone(),
        }
    }
}

/// The longest plaintext that AES-GCM encrypts, in bytes.
pub open spec fn max_plaintext_len() -> int {
    0x10_0000_0000
}

/// The PHC string that Argon2 (default parameters: Argon2id, version 19)
/// gives for `password` and the salt `salt`, written in B64; `None` where
/// Argon2 refuses them.
pub uninterp spec fn argon2_phc_text(password: Seq<char>, salt: Seq<u8>) -> Option<Seq<char>>;

/// The bytes that base64 (standard alphabet) decodes from `text`, or `None`
/// where `text` is not valid base64.
pub uninterp spec fn base64_decoded(text: Seq<char>) -> Option<Seq<u8>>;

/// The base64 (standard alphabet, padded) text of `bytes`.
pub uninterp spec fn base64_text(bytes: Seq<u8>) -> Seq<char>;

/// The AES-256-GCM ciphertext, tag appended, of `plaintext` under `key` and
/// `nonce`.
pub uninterp spec fn aes_gcm_sealed(key: Seq<u8>, nonce: Seq<u8>, plaintext: Seq<u8>) -> Seq<u8>;

/// The plaintext that AES-256-GCM recovers from `ciphertext` (tag
/// appended) under `key` and `nonce`, or `None` where the tag does not
/// authenticate it.
pub uninterp spec fn aes_gcm_opened(key: Seq<u8>, nonce: Seq<u8>, ciphertext: Seq<u8>) -> Option<Seq<u8>>;

/// Calls password-hash's `SaltString::encode_b64` on the salt, then
/// argon2's `Argon2::default().hash_password` and writes the resulting
/// `PasswordHash` as a PHC string. Claims: the result is
/// `argon2_phc_text`, and it succeeds exactly for salts of 8 to 48 bytes
/// and passwords of at most `u32::MAX` bytes (the B64 salt buffer holds 64
/// characters; Argon2 wants a salt of 8 bytes or more). A salt of fewer
/// than 3 bytes encodes to fewer than the 4 characters that
/// `SaltString::as_salt` accepts, and password-hash panics there. Claims
/// too that the string carries a key that `key_from_phc_text` reads: it is
/// `$argon2id$v=19$<params>$<salt>$<hash>`, whose last field is the 32-byte
/// default output in unpadded standard base64 (43 characters, unused bits
/// zero), which `base64::decode` accepts.
#[verifier::external_body]
fn argon2_phc(password: &str, salt: &[u8]) -> (r: Result<String, argon2::password_hash::Error>)
    requires
        salt@.len() >= 3,
    ensures
        match r {
            Ok(s) => argon2_phc_text(password@, salt@) == Some(s@) && key_from_phc_text(s@) is Ok,
            Err(_) => argon2_phc_text(password@, salt@) is None,
        },
        r is Ok <==> (8 <= salt@.len() <= 48 && vstd::utf8::encode_utf8(password@).len() <= 0xFFFF_FFFF),
{
    let salt_string = argon2::password_hash::SaltString::encode_b64(salt)?;
    match argon2::Argon2::default().hash_password(password.as_bytes(), &salt_string) {
        Ok(h) => Ok(h.to_string()),
        Err(e) => Err(e),
    }
}

/// Calls `base64::decode` (standard alphabet). Claims: the result is
/// `base64_decoded` of the text.
#[verifier::external_body]
pub(crate) fn b64_decode(text: &str) -> (r: Result<Vec<u8>, base64::DecodeError>)
    ensures
        match r {
            Ok(v) => base64_decoded(text@) == Some(v@),
            Err(_) => base64_decoded(text@) is None,
        },
{
    base64::decode(text)
}

/// Calls `base64::encode` (standard alphabet, padded). Claims: the result
/// is `base64_text` of the bytes, and `base64::decode` gives the bytes back.
#[verifier::external_body]
pub(crate) fn b64_encode(bytes: &[u8]) -> (r: String)
    ensures
        r@ == base64_text(bytes@),
        base64_decoded(r@) == Some(bytes@),
{
    base64::encode(bytes)
}

/// Calls aes-gcm's `Aes256Gcm::new_from_slice` on the key and then
/// `encrypt` with the nonce, writing either error as its `Display` text.
/// Claims: a key that is not 32 bytes long fails with "Invalid Length"; a
/// plaintext longer than 2^36 bytes fails with "aead::Error"; otherwise the
/// result is `aes_gcm_sealed`, 16 bytes longer than the plaintext.
#[verifier::external_body]
fn aes_seal(key: &[u8], nonce: &[u8], plaintext: &[u8]) -> (r: Result<Vec<u8>, String>)
    requires
        key@.len() != 32 || nonce@.len() == 12,
    ensures
        match r {
            Ok(c) => key@.len() == 32 && plaintext@.len() <= max_plaintext_len() && c@ == aes_gcm_sealed(
                key@,
                nonce@,
                plaintext@,
            ) && c@.len() == plaintext@.len() + 16,
            Err(m) => if key@.len() != 32 {
                m@ == "Invalid Length"@
            } else {
                plaintext@.len() > max_plaintext_len() && m@ == "aead::Error"@
            },
        },
{
    let cipher = match aes_gcm::Aes256Gcm::new_from_slice(key) {
        Ok(c) => c,
        Err(e) => {
            return Err(e.to_string());
        },
    };
    match cipher.encrypt(aes_gcm::Nonce::from_slice(nonce), plaintext) {
        Ok(c) => Ok(c),
        Err(e) => Err(e.to_string()),
    }
}

/// Calls aes-gcm's `Aes256Gcm::new_from_slice` on the key and then
/// `decrypt` with the nonce, writing either error as its `Display` text.
/// Claims: a key that is not 32 bytes long fails with "Invalid Length";
/// otherwise the result is `aes_gcm_opened`, failing with "aead::Error";
/// a ciphertext that `encrypt` made under the same key and nonce gives
/// its plaintext back; and a plaintext that comes back is at most 2^36 + 16
/// bytes long (aes-gcm's `C_MAX` bounds the ciphertext without its tag)
/// and, where it is no longer than `encrypt` accepts, `encrypt` under the
/// same key and nonce gives the ciphertext (the tag was checked against
/// the ciphertext, and the plaintext is the ciphertext's keystream XOR).
#[verifier::external_body]
fn aes_open(key: &[u8], nonce: &[u8], ciphertext: &[u8]) -> (r: Result<Vec<u8>, String>)
    requires
        key@.len() != 32 || nonce@.len() == 12,
    ensures
        match r {
            Ok(v) => {
                &&& key@.len() == 32
                &&& aes_gcm_opened(key@, nonce@, ciphertext@) == Some(v@)
                &&& v@.len() <= max_plaintext_len() + 16
                &&& v@.len() <= max_plaintext_len() ==> ciphertext@ == aes_gcm_sealed(key@, nonce@, v@)
                &&& forall|p: Seq<u8>|
                    p.len() <= max_plaintext_len() && ciphertext@ == #[trigger] aes_gcm_sealed(
                        key@,
                        nonce@,
                        p,
                    ) ==> v@ == p
            },
            Err(m) => if key@.len() != 32 {
                m@ == "Invalid Length"@
            } else {
                &&& aes_gcm_opened(key@, nonce@, ciphertext@) is None
                &&& m@ == "aead::Error"@
                &&& forall|p: Seq<u8>|
                    p.len() <= max_plaintext_len() ==> ciphertext@ != #[trigger] aes_gcm_sealed(
                        key@,
                        nonce@,
                        p,
                    )
            },
        },
{
    let cipher = match aes_gcm::Aes256Gcm::new_from_slice(key) {
        Ok(c) => c,
        Err(e) => {
            return Err(e.to_string());
        },
    };
    match cipher.decrypt(aes_gcm::Nonce::from_slice(nonce), ciphertext) {
        Ok(p) => Ok(p),
        Err(e) => Err(e.to_string()),
    }
}

/// Fills 12 bytes from rand's `OsRng` (`fill_bytes`, which panics where the
/// operating system's random source fails). Nothing is claimed of the
/// bytes.
#[verifier::external_body]
pub(crate) fn random_nonce() -> (r: [u8; 12]) {
    let mut nonce = [0u8; 12];
    rand::rngs::OsRng.fill_bytes(&mut nonce);
    nonce
}

/// Draws 16 bytes from rand's `thread_rng`. Nothing is claimed of the
/// bytes.
#[verifier::external_body]
pub(crate) fn random_salt() -> (r: [u8; 16]) {
    rand::thread_rng().gen()
}

/// The pieces of `s` between the separators `sep`, after the pending piece
/// `cur`, as `str::split` yields them (empty pieces included).
pub open spec fn pieces_from(s: Seq<char>, sep: char, cur: Seq<char>) -> Seq<Seq<char>>
    decreases s.len(),
{
    if s.len() == 0 {
        seq![cur]
    } else if s[0] == sep {
        seq![cur] + pieces_from(s.drop_first(), sep, seq![])
    } else {
        pieces_from(s.drop_first(), sep, cur.push(s[0]))
    }
}

/// The pieces of `s` between the separators `sep`.
pub open spec fn pieces(s: Seq<char>, sep: char) -> Seq<Seq<char>> {
    pieces_from(s, sep, seq![])
}

/// The key that a PHC hash string carries: the base64 of its last
/// `$`-separated field, which must decode to 32 bytes; or the message for
/// the first check that fails.
pub open spec fn key_from_phc_text(phc: Seq<char>) -> Result<Seq<u8>, Seq<char>> {
    let parts = pieces(phc, '$');
    if parts.len() < 5 {
        Err("invalid hash format"@)
    } else {
        match base64_decoded(parts.last()) {
            None => Err("invalid base64"@),
            Some(b) => if b.len() != 32 {
                Err("invalid hash length"@)
            } else {
                Ok(b)
            },
        }
    }
}

proof fn lemma_pieces_step(s: Seq<char>, i: int, sep: char, cur: Seq<char>)
    requires
        0 <= i < s.len(),
    ensures
        pieces_from(s.skip(i), sep, cur) == if s[i] == sep {
            seq![cur] + pieces_from(s.skip(i + 1), sep, seq![])
        } else {
            pieces_from(s.skip(i + 1), sep, cur.push(s[i]))
        },
{
    assert(s.skip(i).drop_first() == s.skip(i + 1));
    assert(s.skip(i)[0] == s[i]);
}

/// Splits `s` at every `sep`, as `str::split` does.
pub fn split_at_char(s: &str, sep: char) -> (r: Vec<String>)
    ensures
        views(r@) == pieces(s@, sep),
{
    let cs = crate::text::chars_of(s);
    let mut out: Vec<String> = Vec::new();
    let mut cur = String::new();
    let mut i: usize = 0;
    assert(cs@.skip(0) == cs@);
    while i < cs.len()
        invariant
            i <= cs.len(),
            cs@ == s@,
            pieces(s@, sep) == views(out@) + pieces_from(cs@.skip(i as int), sep, cur@),
        decreases cs.len() - i,
    {
        let c = cs[i];
        proof {
            lemma_pieces_step(cs@, i as int, sep, cur@);
        }
        if c == sep {
            let ghost before = views(out@);
            let ghost piece = cur@;
            out.push(cur);
            assert(views(out@) == before.push(piece));
            assert(before + (seq![piece] + pieces_from(cs@.skip(i + 1), sep, seq![])) == before.push(
                piece,
            ) + pieces_from(cs@.skip(i + 1), sep, seq![]));
            cur = String::new();
        } else {
            push_char(&mut cur, c);
        }
        i += 1;
    }
    assert(cs@.skip(i as int).len() == 0);
    let ghost before = views(out@);
    let ghost piece = cur@;
    out.push(cur);
    assert(views(out@) == before.push(piece));
    out
}

fn custom(msg: &str) -> (e: CryptoError)
    ensures
        e matches CryptoError::Custom(m) && m@ == msg@,
{
    CryptoError::Custom(msg.to_owned())
}

/// The 32 bytes of `bytes` as a key, or "invalid hash length".
pub fn key_from_bytes(bytes: &[u8]) -> (r: Result<[u8; 32], CryptoError>)
    ensures
        bytes@.len() == 32 ==> (r matches Ok(k) && k@ == bytes@),
        bytes@.len() != 32 ==> (r matches Err(CryptoError::Custom(m)) && m@ == "invalid hash length"@),
{
    if bytes.len() != 32 {
        return Err(custom("invalid hash length"));
    }
    let mut key = [0u8; 32];
    let mut i: usize = 0;
    while i < 32
        invariant
            i <= 32,
            bytes@.len() == 32,
            key@.len() == 32,
            forall|j: int| 0 <= j < i ==> key@[j] == bytes@[j],
        decreases 32 - i,
    {
        key[i] = bytes[i];
        i += 1;
    }
    assert(key@ =~= bytes@);
    Ok(key)
}

/// The key that the PHC hash string `phc` carries: the base64 of its last
/// `$`-separated field, where the string has at least five such fields and
/// the field decodes to 32 bytes.
pub fn key_from_phc(phc: &str) -> (r: Result<[u8; 32], CryptoError>)
    ensures
        match key_from_phc_text(phc@) {
            Ok(k) => r matches Ok(a) && a@ == k,
            Err(m) => r matches Err(CryptoError::Custom(e)) && e@ == m,
        },
{
    let parts = split_at_char(phc, '$');
    if parts.len() < 5 {
        return Err(custom("invalid hash format"));
    }
    let last: usize = parts.len() - 1;
    assert(views(parts@)[last as int] == parts@[last as int]@);
    let hash_bytes = match b64_decode(parts[last].as_str()) {
        Ok(b) => b,
        Err(_) => {
            return Err(custom("invalid base64"));
        },
    };
    key_from_bytes(hash_bytes.as_slice())
}

/// Derives a 256-bit key from `password` and `salt` with Argon2 (default
/// parameters): the hash field of the PHC string that Argon2 writes. The
/// salt has at least 3 bytes (shorter ones make password-hash panic).
/// Derivation succeeds for every salt of 8 to 48 bytes and every password
/// of at most `u32::MAX` bytes.
pub fn derive_key(password: &str, salt: &[u8]) -> (r: Result<[u8; 32], CryptoError>)
    requires
        salt@.len() >= 3,
    ensures
        match argon2_phc_text(password@, salt@) {
            None => r matches Err(CryptoError::Argon2(_)),
            Some(phc) => match key_from_phc_text(phc) {
                Ok(k) => r matches Ok(a) && a@ == k,
                Err(m) => r matches Err(CryptoError::Custom(e)) && e@ == m,
            },
        },
        (8 <= salt@.len() <= 48 && vstd::utf8::encode_utf8(password@).len() <= 0xFFFF_FFFF) <==> argon2_phc_text(
            password@,
            salt@,
        ) is Some,
        (8 <= salt@.len() <= 48 && vstd::utf8::encode_utf8(password@).len() <= 0xFFFF_FFFF) ==> r is Ok,
{
    match argon2_phc(password, salt) {
        Err(e) => Err(CryptoError::Argon2(e)),
        Ok(phc) => key_from_phc(phc.as_str()),
    }
}

/// Encrypts `plaintext` with AES-256-GCM under `key` and `nonce`; returns
/// the ciphertext (tag appended) and the nonce.
pub fn encrypt_with_nonce(plaintext: &[u8], key: &[u8], nonce: &[u8; 12]) -> (r: Result<(Vec<u8>, Vec<u8>), CryptoError>)
    ensures
        key@.len() != 32 ==> (r matches Err(CryptoError::Aes(m)) && m@ == "Invalid Length"@),
        key@.len() == 32 && plaintext@.len() > max_plaintext_len() ==> (r matches Err(CryptoError::Aes(m)) && m@
            == "aead::Error"@),
        key@.len() == 32 && plaintext@.len() <= max_plaintext_len() ==> (r matches Ok((c, n)) && n@
            == nonce@ && c@ == aes_gcm_sealed(key@, nonce@, plaintext@) && c@.len() == plaintext@.len()
            + 16),
{
    match aes_seal(key, nonce, plaintext) {
        Ok(c) => {
            let n = vstd::slice::slice_to_vec(nonce.as_slice());
            Ok((c, n))
        },
        Err(m) => Err(CryptoError::Aes(m)),
    }
}

/// Encrypts `plaintext` with AES-256-GCM under `key` and a fresh random
/// 12-byte nonce; returns the ciphertext (tag appended) and the nonce.
pub fn encrypt(plaintext: &[u8], key: &[u8]) -> (r: Result<(Vec<u8>, Vec<u8>), CryptoError>)
    ensures
        key@.len() != 32 ==> (r matches Err(CryptoError::Aes(m)) && m@ == "Invalid Length"@),
        key@.len() == 32 && plaintext@.len() > max_plaintext_len() ==> (r matches Err(CryptoError::Aes(m)) && m@
            == "aead::Error"@),
        key@.len() == 32 && plaintext@.len() <= max_plaintext_len() ==> (r matches Ok((c, n)) && n@.len()
            == 12 && c@ == aes_gcm_sealed(key@, n@, plaintext@) && c@.len() == plaintext@.len() + 16),
{
    let nonce = random_nonce();
    encrypt_with_nonce(plaintext, key, &nonce)
}

/// Decrypts `ciphertext` (tag appended) with AES-256-GCM under `key` and
/// `nonce`. A ciphertext that `encrypt` made under the same key and nonce
/// gives its plaintext back, and a plaintext that comes back is one whose
/// encryption under that key and nonce is the ciphertext (where it is no
/// longer than `encrypt` accepts).
pub fn decrypt(ciphertext: &[u8], nonce: &[u8], key: &[u8]) -> (r: Result<Vec<u8>, CryptoError>)
    requires
        key@.len() != 32 || nonce@.len() == 12,
    ensures
        key@.len() != 32 ==> (r matches Err(CryptoError::Aes(m)) && m@ == "Invalid Length"@),
        key@.len() == 32 ==> match aes_gcm_opened(key@, nonce@, ciphertext@) {
            Some(p) => r matches Ok(v) && v@ == p,
            None => r matches Err(CryptoError::Aes(m)) && m@ == "aead::Error"@,
        },
        forall|p: Seq<u8>|
            key@.len() == 32 && p.len() <= max_plaintext_len() && ciphertext@ == #[trigger] aes_gcm_sealed(
                key@,
                nonce@,
                p,
            ) ==> (r matches Ok(v) && v@ == p),
        r matches Ok(v) ==> v@.len() <= max_plaintext_len() + 16 && (v@.len() <= max_plaintext_len()
            ==> ciphertext@ == aes_gcm_sealed(key@, nonce@, v@)),
{
    match aes_open(key, nonce, ciphertext) {
        Ok(p) => Ok(p),
        Err(m) => Err(CryptoError::Aes(m)),
    }
}

} // verus!
