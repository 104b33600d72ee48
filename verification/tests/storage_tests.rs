use std::collections::VecDeque;
use aes_gcm::aead::{Aead, KeyInit};
use aes_gcm::{Aes256Gcm, Key, Nonce};
use openclip::clipping::Clipping;
use openclip::storage::{
    open_history, resolve_key, restore_history, seal_history, seal_history_with_nonce, KeySource,
};

const KEY: [u8; 32] = [7u8; 32];

#[test]
fn sealed_history_opens_again() {
    let json = r#"[{"preview":"a","compressed_data":[1,0,0,0,16,97]}]"#;
    let sealed = seal_history(json, &KEY).unwrap();
    assert_eq!(sealed.len(), 12 + json.len() + 16);
    assert_eq!(open_history(&sealed, &KEY), Some(json.to_string()));
}

#[test]
fn sealing_encrypts() {
    let json = "[\"secret text\"]";
    let sealed = seal_history_with_nonce(json, &KEY, &[3u8; 12]).unwrap();
    assert_eq!(&sealed[..12], &[3u8; 12]);
    assert!(!sealed.windows(json.len()).any(|w| w == json.as_bytes()));
    let cipher = Aes256Gcm::new(Key::<Aes256Gcm>::from_slice(&KEY));
    let plain = cipher.decrypt(Nonce::from_slice(&[3u8; 12]), &sealed[12..]).unwrap();
    assert_eq!(plain, json.as_bytes());
}

#[test]
fn fresh_nonces_differ() {
    let a = seal_history("[]", &KEY).unwrap();
    let b = seal_history("[]", &KEY).unwrap();
    assert_ne!(&a[..12], &b[..12]);
}

#[test]
fn wrong_key_does_not_open() {
    let sealed = seal_history("[]", &KEY).unwrap();
    assert_eq!(open_history(&sealed, &[8u8; 32]), None);
}

#[test]
fn tampered_file_does_not_open() {
    let mut sealed = seal_history("[\"x\"]", &KEY).unwrap();
    let last = sealed.len() - 1;
    sealed[last] ^= 1;
    assert_eq!(open_history(&sealed, &KEY), None);
}

#[test]
fn short_file_does_not_open() {
    assert_eq!(open_history(&[0u8; 12], &KEY), None);
    assert_eq!(open_history(&[], &KEY), None);
    assert_eq!(open_history(&[0u8; 20], &KEY), None);
}

#[test]
fn non_utf8_plaintext_does_not_open() {
    let cipher = Aes256Gcm::new(Key::<Aes256Gcm>::from_slice(&KEY));
    let nonce = [5u8; 12];
    let mut data = nonce.to_vec();
    data.extend(cipher.encrypt(Nonce::from_slice(&nonce), &[0xffu8, 0x00][..]).unwrap());
    assert_eq!(open_history(&data, &KEY), None);
}

#[test]
fn parsed_history_is_kept() {
    let mut parsed = VecDeque::new();
    parsed.push_back(Clipping::new("kept"));
    let h = restore_history(Some(parsed), "not json at all");
    assert_eq!(h.len(), 1);
    assert_eq!(h[0].decompress(), Some("kept".to_string()));
}

#[test]
fn old_string_list_is_migrated() {
    let h = restore_history(None, r#"["newest", "older line\nwith break"]"#);
    assert_eq!(h.len(), 2);
    assert_eq!(h[0].decompress(), Some("newest".to_string()));
    assert_eq!(h[1].decompress(), Some("older line\nwith break".to_string()));
    assert_eq!(h[1].preview, "older line\nwith break");
}

#[test]
fn unreadable_json_gives_empty_history() {
    assert!(restore_history(None, "{\"preview\": 1}").is_empty());
    assert!(restore_history(None, "").is_empty());
}

#[test]
fn stored_key_is_read() {
    let json = serde_json::to_string(&KEY).unwrap();
    let output = format!("{}\n", json).into_bytes();
    match resolve_key(true, output) {
        KeySource::Stored(k) => assert_eq!(k, KEY),
        _ => panic!("expected the stored key"),
    }
}

#[test]
fn failed_lookup_creates_key() {
    let json = serde_json::to_string(&KEY).unwrap();
    match resolve_key(false, json.into_bytes()) {
        KeySource::Created { key, record } => {
            assert_eq!(record, serde_json::to_string(&key).unwrap());
            match resolve_key(true, format!("{}\n", record).into_bytes()) {
                KeySource::Stored(k) => assert_eq!(k, key),
                _ => panic!("record must read back"),
            }
        }
        _ => panic!("expected a new key"),
    }
}

#[test]
fn garbage_output_creates_key() {
    assert!(matches!(resolve_key(true, b"not a key".to_vec()), KeySource::Created { .. }));
    assert!(matches!(resolve_key(true, vec![0xff, 0xfe]), KeySource::Created { .. }));
    assert!(matches!(resolve_key(true, b"[1,2,3]".to_vec()), KeySource::Created { .. }));
}

#[test]
fn new_keys_differ() {
    let a = match resolve_key(false, vec![]) {
        KeySource::Created { key, .. } => key,
        _ => panic!(),
    };
    let b = match resolve_key(false, vec![]) {
        KeySource::Created { key, .. } => key,
        _ => panic!(),
    };
    assert_ne!(a, b);
}

#[test]
fn data_shorter_than_nonce_and_tag_does_not_open() {
    for n in 0..28 {
        assert_eq!(open_history(&vec![1u8; n], &KEY), None);
    }
}

#[test]
fn parsed_history_needs_no_legacy_parse() {
    let h = restore_history(Some(VecDeque::new()), "[\"ignored\"]");
    assert!(h.is_empty());
}

#[test]
fn migrated_texts_read_back() {
    let h = restore_history(None, r#"["é😀", "", "  spaced  "]"#);
    let texts: Vec<Option<String>> = h.iter().map(|c| c.decompress()).collect();
    assert_eq!(texts, vec![Some("é😀".to_string()), Some(String::new()), Some("  spaced  ".to_string())]);
}
