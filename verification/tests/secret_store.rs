use aes_gcm::aead::{Aead, KeyInit};
use aes_gcm::{Aes256Gcm, Key, Nonce};
use cari_aktarim::{
    holds_password, new_key, open_password, seal_password, seal_with_nonce, stored_key, AppSettings,
    SettingsPayload, KEY_LEN, NONCE_LEN, SEALED_MIN_LEN,
};

fn key() -> Vec<u8> {
    (0u8..32).collect()
}

#[test]
fn sealed_password_reads_back() {
    let k = key();
    for pw in ["", "gizli", "Şifre 123 ğüşiöç", "'; DROP--"] {
        let blob = seal_password(&k, pw).unwrap();
        assert_eq!(blob.len(), NONCE_LEN + pw.len() + 16);
        if !pw.is_empty() {
            // The stored form does not hold the password in clear.
            assert!(!blob.windows(pw.len()).any(|w| w == pw.as_bytes()));
        }
        assert_eq!(open_password(&k, &blob).unwrap(), pw);
    }
}

#[test]
fn sealing_with_a_given_nonce() {
    let k = key();
    let nonce = vec![7u8; 12];
    let blob = seal_with_nonce(&k, Ok(nonce.clone()), "abc").unwrap();
    assert_eq!(&blob[..12], &nonce[..]);
    assert_eq!(blob.len(), 12 + 3 + 16);
    assert_ne!(&blob[12..15], b"abc");
    assert_eq!(seal_with_nonce(&k, Ok(nonce), "abc").unwrap(), blob);
    assert_eq!(
        seal_with_nonce(&k, Err("no entropy".into()), "abc").unwrap_err(),
        "Nonce üretilemedi: no entropy"
    );
}

#[test]
fn two_sealings_use_fresh_nonces() {
    let k = key();
    let a = seal_password(&k, "x").unwrap();
    let b = seal_password(&k, "x").unwrap();
    assert_ne!(a[..12], b[..12]);
}

#[test]
fn short_secret_holds_no_password() {
    let k = key();
    assert!(!holds_password(&[0u8; 27]));
    assert!(holds_password(&[0u8; 28]));
    assert_eq!(SEALED_MIN_LEN, 28);
    assert_eq!(open_password(&k, &[1u8; 27]).unwrap(), "");
    assert_eq!(open_password(&k, &[]).unwrap(), "");
}

#[test]
fn tampered_or_foreign_secret_is_refused() {
    let k = key();
    let mut blob = seal_password(&k, "gizli").unwrap();
    let other: Vec<u8> = (1u8..33).collect();
    assert_eq!(
        open_password(&other, &blob).unwrap_err(),
        "Parola çözülemedi (anahtar değişmiş olabilir)."
    );
    let last = blob.len() - 1;
    blob[last] ^= 1;
    assert_eq!(open_password(&k, &blob).unwrap_err(), "Parola çözülemedi (anahtar değişmiş olabilir).");
}

#[test]
fn non_utf8_secret_is_refused() {
    let k = key();
    let cipher = Aes256Gcm::new(Key::<Aes256Gcm>::from_slice(&k));
    let nonce = [3u8; 12];
    let ct = cipher.encrypt(Nonce::from_slice(&nonce), &[0xffu8, 0xfe][..]).unwrap();
    let mut blob = nonce.to_vec();
    blob.extend_from_slice(&ct);
    assert_eq!(open_password(&k, &blob).unwrap_err(), "Parola geçersiz kodlama.");
}

#[test]
fn key_file_content() {
    assert_eq!(stored_key(Some(key())), Some(key()));
    assert_eq!(stored_key(Some(vec![0u8; 31])), None);
    assert_eq!(stored_key(Some(vec![0u8; 33])), None);
    assert_eq!(stored_key(None), None);
    let k = new_key().unwrap();
    assert_eq!(k.len(), KEY_LEN);
    assert_ne!(new_key().unwrap(), k);
}

#[test]
fn password_kept_only_when_asked_and_given() {
    let mut p = SettingsPayload::default();
    assert!(!p.keeps_password());
    p.password = "x".into();
    assert!(!p.keeps_password());
    p.settings.remember_password = true;
    assert!(p.keeps_password());
    p.password.clear();
    assert!(!p.keeps_password());
    let d = AppSettings::default();
    assert!(!d.trust_cert && d.triggers.is_empty() && d.server.is_empty());
}
