//! The encrypted history file (a fresh nonce, then the AES-256-GCM
//! encryption of the history's JSON text) and the encryption key kept in
//! the login keychain.

use std::collections::VecDeque;
use vstd::prelude::*;
use vstd::slice::{slice_subrange, slice_to_vec};
use vstd::utf8::*;
use crate::clipping::{Clipping, compressed_text, preview_of, storable};
use crate::compression::round_trip_limit;
use crate::crypto::{
    NONCE_LEN, TAG_LEN, aes_gcm_decrypt, aes_gcm_encrypt, aes_gcm_opened, aes_gcm_sealed,
    fresh_key, fresh_nonce, max_plaintext_len,
};
use crate::json::{json_key, json_of_key, json_text_list, key_to_json, parse_key_json, parse_text_list_json};
use crate::text::{is_space, lemma_utf8_round_trip, string_from_utf8, trim, trim_end, trim_start, trimmed, utf8_text};

verus! {

/// The JSON text that sealed history bytes hold under `key`: the first
/// `NONCE_LEN` bytes are the nonce, the rest must decrypt under it and be
/// UTF-8. `None` for anything not longer than a nonce.
pub open spec fn opened_history(data: Seq<u8>, key: Seq<u8>) -> Option<Seq<char>> {
    if data.len() > NONCE_LEN {
        match aes_gcm_opened(key, data.take(NONCE_LEN as int), data.skip(NONCE_LEN as int)) {
            Some(plain) => utf8_text(plain),
            None => None,
        }
    } else {
        None
    }
}

/// The bytes that seal `json` under `key` with `nonce`.
pub open spec fn sealed_history(json: Seq<char>, key: Seq<u8>, nonce: Seq<u8>) -> Seq<u8> {
    nonce + aes_gcm_sealed(key, nonce, encode_utf8(json))
}

/// The JSON text held by the bytes of a history file, or `None` where they
/// are too short, do not decrypt under `key` or are not UTF-8.
pub fn open_history(data: &[u8], key: &[u8; 32]) -> (r: Option<String>)
    ensures
        match r {
            Some(s) => opened_history(data@, key@) == Some(s@),
            None => opened_history(data@, key@) is None,
        },
        data@.len() < NONCE_LEN + TAG_LEN ==> r is None,
{
    if data.len() <= NONCE_LEN {
        return None;
    }
    let nonce = slice_subrange(data, 0, NONCE_LEN);
    let sealed = slice_subrange(data, NONCE_LEN, data.len());
    assert(nonce@ =~= data@.take(NONCE_LEN as int));
    assert(sealed@ =~= data@.skip(NONCE_LEN as int));
    match aes_gcm_decrypt(key, nonce, sealed) {
        Some(plain) => string_from_utf8(plain),
        None => None,
    }
}

/// The bytes of a history file holding `json`, sealed under `key` with the
/// given nonce; `None` where the text is too long for AES-GCM.
pub fn seal_history_with_nonce(json: &str, key: &[u8; 32], nonce: &[u8; 12]) -> (r: Option<Vec<u8>>)
    ensures
        r is Some <==> encode_utf8(json@).len() <= max_plaintext_len(),
        r matches Some(d) ==> {
            &&& d@ == sealed_history(json@, key@, nonce@)
            &&& d@.take(NONCE_LEN as int) == nonce@
            &&& d@.len() == NONCE_LEN + encode_utf8(json@).len() + TAG_LEN
            &&& opened_history(d@, key@) == Some(json@)
        },
{
    match aes_gcm_encrypt(key, nonce, json.as_bytes()) {
        Some(sealed) => {
            let mut out = slice_to_vec(nonce.as_slice());
            let mut rest = sealed;
            let ghost s = rest@;
            out.append(&mut rest);
            proof {
                lemma_utf8_round_trip(json@);
                assert(out@ =~= nonce@ + s);
                assert(out@.take(NONCE_LEN as int) =~= nonce@);
                assert(out@.skip(NONCE_LEN as int) =~= s);
            }
            Some(out)
        },
        None => None,
    }
}

/// The bytes of a history file holding `json`, sealed under `key` with a
/// fresh random nonce; `None` where the text is too long for AES-GCM.
/// Opening them with the same key gives `json` back.
pub fn seal_history(json: &str, key: &[u8; 32]) -> (r: Option<Vec<u8>>)
    ensures
        r is Some <==> encode_utf8(json@).len() <= max_plaintext_len(),
        r matches Some(d) ==> {
            &&& d@ == sealed_history(json@, key@, d@.take(NONCE_LEN as int))
            &&& d@.len() == NONCE_LEN + encode_utf8(json@).len() + TAG_LEN
            &&& opened_history(d@, key@) == Some(json@)
        },
{
    let nonce = fresh_nonce();
    seal_history_with_nonce(json, key, &nonce)
}


/// The history that an older version's file holds: one clipping for each
/// saved text, in order, each holding its text.
pub open spec fn migrated(h: Seq<Clipping>, texts: Seq<Seq<char>>) -> bool {
    &&& h.len() == texts.len()
    &&& forall|i: int| 0 <= i < h.len() ==> (#[trigger] h[i]).made_from(texts[i])
    &&& forall|i: int|
        0 <= i < h.len() && encode_utf8(texts[i]).len() <= round_trip_limit() ==> (
        #[trigger] h[i]).text() == Some(texts[i])
}

/// The history that the opened JSON text of a history file yields, where
/// `parsed` is that text read as a list of clippings (by the caller, which
/// holds the JSON form of `Clipping`): that list when it was read; else, the
/// text read as a list of plain strings, as older versions saved it, each
/// made into a clipping; else nothing.
pub open spec fn restores(h: Seq<Clipping>, parsed: Option<Seq<Clipping>>, json: Seq<char>) -> bool {
    match parsed {
        Some(p) => h == p,
        None => match json_text_list(json) {
            Some(texts) => migrated(h, texts),
            None => h.len() == 0,
        },
    }
}

/// One clipping for each saved text, in order.
pub fn migrate_texts(saved: &Vec<String>) -> (h: VecDeque<Clipping>)
    requires
        forall|i: int| 0 <= i < saved@.len() ==> storable((#[trigger] saved@[i])@),
    ensures
        migrated(h@, saved.deep_view()),
        h@.len() == saved@.len(),
        forall|i: int|
            0 <= i < h@.len() ==> (#[trigger] h@[i]).preview@ == preview_of(saved@[i]@)
                && h@[i].compressed_data@ == compressed_text(saved@[i]@),
        forall|i: int|
            0 <= i < h@.len() && encode_utf8(saved@[i]@).len() <= round_trip_limit() ==> (
            #[trigger] h@[i]).text() == Some(saved@[i]@),
{
    let mut h: VecDeque<Clipping> = VecDeque::new();
    let mut i: usize = 0;
    while i < saved.len()
        invariant
            i <= saved@.len(),
            forall|k: int| 0 <= k < saved@.len() ==> storable((#[trigger] saved@[k])@),
            h@.len() == i,
            forall|k: int| 0 <= k < i ==> (#[trigger] h@[k]).made_from(saved@[k]@),
            forall|k: int|
                0 <= k < i && encode_utf8(saved@[k]@).len() <= round_trip_limit() ==> (
                #[trigger] h@[k]).text() == Some(saved@[k]@),
        decreases saved@.len() - i,
    {
        let c = Clipping::new(saved[i].as_str());
        h.push_back(c);
        i = i + 1;
    }
    h
}

/// The history held by an opened history file (see `restores`).
pub fn restore_history(parsed: Option<VecDeque<Clipping>>, json: &str) -> (h: VecDeque<Clipping>)
    requires
        parsed is None ==> storable(json@),
    ensures
        restores(h@, match parsed { Some(p) => Some(p@), None => None }, json@),
        parsed matches Some(p) ==> h@ == p@,
        parsed is None && json_text_list(json@) is None ==> h@.len() == 0,
        parsed is None && json_text_list(json@) is Some ==> {
            let texts = json_text_list(json@)->0;
            &&& h@.len() == texts.len()
            &&& forall|i: int|
                0 <= i < h@.len() ==> (#[trigger] h@[i]).preview@ == preview_of(texts[i])
                    && h@[i].compressed_data@ == compressed_text(texts[i])
            &&& forall|i: int|
                0 <= i < h@.len() && encode_utf8(texts[i]).len() <= round_trip_limit() ==> (
                #[trigger] h@[i]).text() == Some(texts[i])
        },
{
    match parsed {
        Some(p) => p,
        None => match parse_text_list_json(json) {
            Some(saved) => {
                assert forall|i: int| 0 <= i < saved@.len() implies storable((#[trigger] saved@[i])@) by {
                    assert(encode_utf8(saved@[i]@).len() <= encode_utf8(json@).len());
                }
                migrate_texts(&saved)
            },
            None => VecDeque::new(),
        },
    }
}

/// The key that a keychain lookup found: its output must be UTF-8 and, once
/// trimmed, the JSON array of the key's 32 bytes.
pub open spec fn stored_key(found: bool, output: Seq<u8>) -> Option<Seq<u8>> {
    if found {
        match utf8_text(output) {
            Some(t) => json_key(trimmed(t)),
            None => None,
        }
    } else {
        None
    }
}

/// Where the encryption key comes from.
pub enum KeySource {
    /// The keychain holds it.
    Stored([u8; 32]),
    /// It was just made: store `record` in the keychain.
    Created { key: [u8; 32], record: String },
}

proof fn lemma_json_record_untrimmed(r: Seq<char>)
    requires
        r.len() >= 2,
        r[0] == '[',
        r.last() == ']',
    ensures
        trimmed(r) == r,
        trimmed(r.push('\n')) == r,
{
    assert(!is_space(r[0]));
    assert(!is_space(r.last()));
    let p = r.push('\n');
    assert(p[0] == '[');
    assert(is_space(p.last()));
    assert(p.drop_last() =~= r);
    assert(trim_end(p) == trim_end(r));
}

/// The encryption key: the one the keychain lookup found, or else a fresh
/// random key together with the text to store for it. `found` tells whether
/// the lookup succeeded and `output` is what it printed.
pub fn resolve_key(found: bool, output: Vec<u8>) -> (r: KeySource)
    ensures
        match stored_key(found, output@) {
            Some(k) => r matches KeySource::Stored(s) && s@ == k,
            None => r matches KeySource::Created { key, record } && {
                &&& record@ == json_of_key(key@)
                &&& stored_key(true, encode_utf8(record@)) == Some(key@)
                &&& stored_key(true, encode_utf8(record@.push('\n'))) == Some(key@)
            },
        },
{
    if found {
        if let Some(text) = string_from_utf8(output) {
            if let Some(key) = parse_key_json(trim(text.as_str())) {
                return KeySource::Stored(key);
            }
        }
    }
    let key = fresh_key();
    let record = key_to_json(&key);
    proof {
        let inner = crate::json::joined_decimals(key@);
        assert(record@ =~= seq!['['] + inner + seq![']']);
        assert(record@[0] == '[');
        assert(record@.last() == ']');
        lemma_json_record_untrimmed(record@);
        lemma_utf8_round_trip(record@);
        lemma_utf8_round_trip(record@.push('\n'));
    }
    KeySource::Created { key, record }
}

} // verus!
