//! The stored SQL password: sealed with AES-256-GCM under a 32-byte key kept
//! on the machine. The stored form is `[12-byte nonce][ciphertext with tag]`.
//! Reading and writing the files is left to the caller.

use vstd::prelude::*;
use vstd::utf8::{decode_utf8, encode_utf8, encode_utf8_decode_utf8, encode_utf8_valid_utf8, valid_utf8};
use aes_gcm::aead::{Aead, KeyInit};
use aes_gcm::{Aes256Gcm, Key, Nonce};
use crate::model::SettingsPayload;
use crate::text::cat2;

verus! {

/// The ciphertext (tag appended) that AES-256-GCM gives for `plaintext` under
/// `key` and `nonce`, with no associated data.
pub uninterp spec fn aes_gcm_seal(key: Seq<u8>, nonce: Seq<u8>, plaintext: Seq<u8>) -> Seq<u8>;

/// What AES-256-GCM decryption gives for `ciphertext` under `key` and `nonce`:
/// the plaintext, or nothing when the tag does not check.
pub uninterp spec fn aes_gcm_open(key: Seq<u8>, nonce: Seq<u8>, ciphertext: Seq<u8>) -> Option<Seq<u8>>;

/// Length of a key.
pub const KEY_LEN: usize = 32;

/// Length of the nonce at the head of a stored secret.
pub const NONCE_LEN: usize = 12;

/// A stored secret shorter than nonce and tag together holds no password.
pub const SEALED_MIN_LEN: usize = 28;

/// The longest plaintext AES-GCM accepts, in bytes.
pub open spec fn plaintext_max() -> nat {
    0x10_0000_0000
}

/// `<Aes256Gcm as Aead>::encrypt` (aes-gcm), no associated data. Its source
/// refuses a plaintext of more than 2^36 bytes with `aead::Error`, whose
/// `Display` is `aead::Error`, and otherwise returns the ciphertext followed by
/// the 16-byte tag. `Key::from_slice` and `Nonce::from_slice` panic on a wrong
/// length, hence the `requires`.
#[verifier::external_body]
fn aes_seal(key: &[u8], nonce: &[u8], plaintext: &[u8]) -> (r: Result<Vec<u8>, String>)
    requires
        key@.len() == KEY_LEN,
        nonce@.len() == NONCE_LEN,
    ensures
        r is Ok <==> plaintext@.len() <= plaintext_max(),
        r matches Ok(c) ==> c@ == aes_gcm_seal(key@, nonce@, plaintext@) && c@.len() == plaintext@.len() + 16,
        r matches Err(e) ==> e@ == "aead::Error"@,
{
    let cipher = Aes256Gcm::new(Key::<Aes256Gcm>::from_slice(key));
    match cipher.encrypt(Nonce::from_slice(nonce), plaintext) {
        Ok(c) => Ok(c),
        Err(e) => Err(format!("{e}")),
    }
}

/// `<Aes256Gcm as Aead>::decrypt` (aes-gcm), no associated data, its error
/// dropped. Decrypting what `encrypt` produced under the same key and nonce
/// gives the plaintext back: the tag is recomputed over the same ciphertext
/// and the same keystream is applied again. `from_slice` panics on a wrong
/// length, hence the `requires`.
#[verifier::external_body]
fn aes_open(key: &[u8], nonce: &[u8], ciphertext: &[u8]) -> (r: Option<Vec<u8>>)
    requires
        key@.len() == KEY_LEN,
        nonce@.len() == NONCE_LEN,
    ensures
        r matches Some(p) ==> aes_gcm_open(key@, nonce@, ciphertext@) == Some(p@),
        r is None ==> aes_gcm_open(key@, nonce@, ciphertext@) is None,
        r is None ==> forall|p: Seq<u8>|
            p.len() <= plaintext_max() ==> #[trigger] aes_gcm_seal(key@, nonce@, p) != ciphertext@,
        r matches Some(v) ==> forall|p: Seq<u8>|
            p.len() <= plaintext_max() && #[trigger] aes_gcm_seal(key@, nonce@, p) == ciphertext@ ==> v@ == p,
{
    let cipher = Aes256Gcm::new(Key::<Aes256Gcm>::from_slice(key));
    match cipher.decrypt(Nonce::from_slice(nonce), ciphertext) {
        Ok(p) => Some(p),
        Err(_) => None,
    }
}

/// `getrandom::getrandom` (0.2) on a buffer of `n` bytes; on failure the
/// error's text. What the bytes are is left open: they come from the system.
#[verifier::external_body]
fn random_bytes(n: usize) -> (r: Result<Vec<u8>, String>)
    ensures
        r matches Ok(v) ==> v@.len() == n,
{
    let mut buf = vec![0u8; n];
    match getrandom::getrandom(&mut buf) {
        Ok(()) => Ok(buf),
        Err(e) => Err(format!("{e}")),
    }
}

/// `String::from_utf8` (std): the text when the bytes are UTF-8, else nothing.
#[verifier::external_body]
fn utf8_text(bytes: Vec<u8>) -> (r: Option<String>)
    ensures
        r is Some <==> valid_utf8(bytes@),
        r matches Some(s) ==> s@ == decode_utf8(bytes@),
{
    match String::from_utf8(bytes) {
        Ok(s) => Some(s),
        Err(_) => None,
    }
}

/// `s` begins with `p`.
pub open spec fn starts_with(s: Seq<char>, p: Seq<char>) -> bool {
    s.len() >= p.len() && s.take(p.len() as int) == p
}

/// `blob` is a stored secret that holds `password` sealed under `key`.
pub open spec fn sealed_secret(key: Seq<u8>, password: Seq<char>, blob: Seq<u8>) -> bool {
    &&& encode_utf8(password).len() <= plaintext_max()
    &&& blob.len() == NONCE_LEN + encode_utf8(password).len() + 16
    &&& blob.skip(NONCE_LEN as int) == aes_gcm_seal(key, blob.take(NONCE_LEN as int), encode_utf8(password))
}

/// What reading a stored secret gives: no password when it is too short;
/// else the decrypted text, or the error for a secret that does not decrypt or
/// is not UTF-8.
pub open spec fn opened_secret(key: Seq<u8>, blob: Seq<u8>) -> Result<Seq<char>, Seq<char>> {
    if blob.len() < SEALED_MIN_LEN {
        Ok(Seq::empty())
    } else {
        match aes_gcm_open(key, blob.take(NONCE_LEN as int), blob.skip(NONCE_LEN as int)) {
            None => Err("Parola çözülemedi (anahtar değişmiş olabilir)."@),
            Some(p) => if valid_utf8(p) {
                Ok(decode_utf8(p))
            } else {
                Err("Parola geçersiz kodlama."@)
            },
        }
    }
}

/// The key file's content, when it is a key: exactly 32 bytes.
pub fn stored_key(content: Option<Vec<u8>>) -> (r: Option<Vec<u8>>)
    ensures
        r == (match content {
            Some(b) => if b@.len() == KEY_LEN { Some(b) } else { None },
            None => None,
        }),
{
    match content {
        Some(b) => if b.len() == KEY_LEN {
            Some(b)
        } else {
            None
        },
        None => None,
    }
}

/// A fresh random key.
pub fn new_key() -> (r: Result<Vec<u8>, String>)
    ensures
        r matches Ok(k) ==> k@.len() == KEY_LEN,
        r matches Err(e) ==> starts_with(e@, "Anahtar üretilemedi: "@),
{
    match random_bytes(KEY_LEN) {
        Ok(k) => Ok(k),
        Err(e) => {
            let m = cat2("Anahtar üretilemedi: ", &e);
            assert(m@.take("Anahtar üretilemedi: "@.len() as int) =~= "Anahtar üretilemedi: "@);
            Err(m)
        },
    }
}

/// Seals `password` under `key` with the given nonce, or with the nonce
/// generator's failure.
pub fn seal_with_nonce(key: &[u8], nonce: Result<Vec<u8>, String>, password: &str) -> (r: Result<Vec<u8>, String>)
    requires
        key@.len() == KEY_LEN,
        nonce matches Ok(n) ==> n@.len() == NONCE_LEN,
    ensures
        match nonce {
            Err(e) => r matches Err(m) && m@ == "Nonce üretilemedi: "@ + e@,
            Ok(n) => if encode_utf8(password@).len() <= plaintext_max() {
                r matches Ok(b) && b@ == n@ + aes_gcm_seal(key@, n@, encode_utf8(password@))
                    && sealed_secret(key@, password@, b@)
            } else {
                r matches Err(m) && m@ == "Parola şifrelenemedi: aead::Error"@
            },
        },
{
    let n = match nonce {
        Ok(n) => n,
        Err(e) => {
            return Err(cat2("Nonce üretilemedi: ", &e));
        },
    };
    let bytes = password.as_bytes();
    match aes_seal(key, n.as_slice(), bytes) {
        Ok(c) => {
            let mut blob = n;
            let mut c = c;
            let ghost cv = c@;
            let ghost nv = blob@;
            blob.append(&mut c);
            assert(blob@.take(NONCE_LEN as int) =~= nv);
            assert(blob@.skip(NONCE_LEN as int) =~= cv);
            Ok(blob)
        },
        Err(e) => {
            proof {
                reveal_strlit("aead::Error");
                reveal_strlit("Parola şifrelenemedi: ");
                reveal_strlit("Parola şifrelenemedi: aead::Error");
            }
            let m = cat2("Parola şifrelenemedi: ", &e);
            assert(m@ =~= "Parola şifrelenemedi: aead::Error"@);
            Err(m)
        },
    }
}

/// Seals `password` under `key` with a fresh random nonce, for storing.
pub fn seal_password(key: &[u8], password: &str) -> (r: Result<Vec<u8>, String>)
    requires
        key@.len() == KEY_LEN,
    ensures
        r matches Ok(b) ==> sealed_secret(key@, password@, b@),
        r matches Err(e) ==> starts_with(e@, "Nonce üretilemedi: "@) || (encode_utf8(password@).len()
            > plaintext_max() && e@ == "Parola şifrelenemedi: aead::Error"@),
        encode_utf8(password@).len() > plaintext_max() ==> r is Err,
{
    let nonce = random_bytes(NONCE_LEN);
    let ghost n = nonce;
    let r = seal_with_nonce(key, nonce, password);
    proof {
        if n is Err {
            assert(r->Err_0@.take("Nonce üretilemedi: "@.len() as int) =~= "Nonce üretilemedi: "@);
        }
    }
    r
}

/// A stored secret long enough to hold a password; only then is the key needed.
pub fn holds_password(blob: &[u8]) -> (r: bool)
    ensures
        r == (blob@.len() >= SEALED_MIN_LEN),
{
    blob.len() >= SEALED_MIN_LEN
}

/// Reads the password out of a stored secret. What `seal_password` stored
/// under the same key reads back as the same password.
pub fn open_password(key: &[u8], blob: &[u8]) -> (r: Result<String, String>)
    requires
        key@.len() == KEY_LEN,
    ensures
        match (r, opened_secret(key@, blob@)) {
            (Ok(s), Ok(t)) => s@ == t,
            (Err(s), Err(t)) => s@ == t,
            _ => false,
        },
        forall|p: Seq<char>| #[trigger] sealed_secret(key@, p, blob@) ==> (r matches Ok(s) && s@ == p),
{
    if blob.len() < SEALED_MIN_LEN {
        return Ok(String::new());
    }
    let (n, c) = blob.split_at(NONCE_LEN);
    assert(n@ == blob@.take(NONCE_LEN as int));
    assert(c@ == blob@.skip(NONCE_LEN as int));
    let plain = match aes_open(key, n, c) {
        Some(p) => p,
        None => {
            return Err(String::from_str("Parola çözülemedi (anahtar değişmiş olabilir)."));
        },
    };
    proof {
        broadcast use encode_utf8_valid_utf8, encode_utf8_decode_utf8;
    }
    match utf8_text(plain) {
        Some(s) => Ok(s),
        None => Err(String::from_str("Parola geçersiz kodlama.")),
    }
}

impl SettingsPayload {
    /// Whether saving keeps the password (sealed); otherwise the stored secret is removed.
    pub fn keeps_password(&self) -> (r: bool)
        ensures
            r == (self.settings.remember_password && self.password@.len() > 0),
    {
        self.settings.remember_password && !self.password.as_str().is_empty()
    }
}

} // verus!
