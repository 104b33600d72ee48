//! The JSON texts that `serde_json` reads and writes for the library: the
//! stored encryption key and the history file of older versions.

use vstd::prelude::*;
use vstd::utf8::encode_utf8;

verus! {

/// What `serde_json::from_str::<[u8; 32]>` reads from a text: `None` where
/// it reports an error.
pub uninterp spec fn json_key(text: Seq<char>) -> Option<Seq<u8>>;

/// The decimal digit for `d` (from 0 to 9).
pub open spec fn digit_char(d: int) -> char {
    seq!['0', '1', '2', '3', '4', '5', '6', '7', '8', '9'][d]
}

/// A byte in decimal, without leading zeros.
pub open spec fn decimal(b: u8) -> Seq<char> {
    let v = b as int;
    if v < 10 {
        seq![digit_char(v)]
    } else if v < 100 {
        seq![digit_char(v / 10), digit_char(v % 10)]
    } else {
        seq![digit_char(v / 100), digit_char((v / 10) % 10), digit_char(v % 10)]
    }
}

/// The bytes in decimal, separated by commas.
pub open spec fn joined_decimals(bytes: Seq<u8>) -> Seq<char>
    decreases bytes.len(),
{
    if bytes.len() == 0 {
        seq![]
    } else if bytes.len() == 1 {
        decimal(bytes[0])
    } else {
        joined_decimals(bytes.drop_last()) + seq![','] + decimal(bytes.last())
    }
}

/// What `serde_json::to_string` writes for 32 bytes: a JSON array of the
/// bytes in decimal, with no spaces.
pub open spec fn json_of_key(key: Seq<u8>) -> Seq<char> {
    seq!['['] + joined_decimals(key) + seq![']']
}

/// What `serde_json::from_str::<Vec<String>>` reads from a text: `None`
/// where it reports an error.
pub uninterp spec fn json_text_list(text: Seq<char>) -> Option<Seq<Seq<char>>>;

/// Calls `serde_json::from_str::<[u8; 32]>`, turning its error into `None`.
/// The result is named `json_key`.
#[verifier::external_body]
pub(crate) fn parse_key_json(text: &str) -> (r: Option<[u8; 32]>)
    ensures
        match r {
            Some(k) => json_key(text@) == Some(k@),
            None => json_key(text@) is None,
        },
{
    serde_json::from_str::<[u8; 32]>(text).ok()
}

/// Calls `serde_json::to_string` on 32 bytes.
///
/// serde writes an array as `[`, the elements separated by commas, then `]`,
/// and the compact writer adds no spaces; an integer is written in decimal
/// (by `itoa`) without leading zeros. That text is `json_of_key`. Writing
/// integers cannot fail, and reading the text back gives the same bytes.
#[verifier::external_body]
pub(crate) fn key_to_json(key: &[u8; 32]) -> (r: String)
    ensures
        r@ == json_of_key(key@),
        json_key(r@) == Some(key@),
{
    match serde_json::to_string(key) {
        Ok(s) => s,
        Err(_) => String::new(),
    }
}

/// Calls `serde_json::from_str::<Vec<String>>`, turning its error into
/// `None`.
///
/// The list is named `json_text_list`. Each string is read from the text
/// between quotes, where an escape sequence never stands for more bytes than
/// it takes, so none is longer in UTF-8 than the text.
#[verifier::external_body]
pub(crate) fn parse_text_list_json(text: &str) -> (r: Option<Vec<String>>)
    ensures
        match r {
            Some(v) => json_text_list(text@) == Some(v.deep_view()),
            None => json_text_list(text@) is None,
        },
        r matches Some(v) ==> forall|i: int|
            0 <= i < v@.len() ==> encode_utf8((#[trigger] v@[i])@).len() <= encode_utf8(text@).len(),
{
    serde_json::from_str::<Vec<String>>(text).ok()
}

} // verus!
