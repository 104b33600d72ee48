//! One remembered clipboard text: a short preview for the menu and the full
//! text, UTF-8 encoded and LZ4 compressed.

use vstd::prelude::*;
use vstd::utf8::*;
use crate::compression::{
    is_lz4_decodable, lz4_compress, lz4_compressed, lz4_decompress, lz4_decodable, lz4_decompressed,
    round_trip_limit,
};
use crate::text::{lemma_utf8_round_trip, string_from_utf8, utf8_text};

verus! {

/// Texts longer than this many characters are shortened in the preview.
pub const PREVIEW_LIMIT: usize = 40;

/// How many characters of a long text the preview keeps before `"..."`.
pub const PREVIEW_KEEP: usize = 37;

/// The preview of a text: the text itself when it has at most
/// `PREVIEW_LIMIT` characters, else its first `PREVIEW_KEEP` characters
/// followed by three dots.
pub open spec fn preview_of(text: Seq<char>) -> Seq<char> {
    if text.len() > PREVIEW_LIMIT {
        text.take(PREVIEW_KEEP as int) + seq!['.', '.', '.']
    } else {
        text
    }
}

/// A long text's preview is its beginning followed by three dots, and a
/// short text is its own preview.
pub proof fn lemma_preview_is_prefix(text: Seq<char>)
    ensures
        text.len() <= 40 ==> preview_of(text) == text,
        text.len() > 40 ==> {
            &&& preview_of(text).len() == 40
            &&& forall|i: int| 0 <= i < 37 ==> #[trigger] preview_of(text)[i] == text[i]
            &&& preview_of(text)[37] == '.' && preview_of(text)[38] == '.' && preview_of(text)[39] == '.'
        },
{
}

/// The text that compressed bytes stand for: `None` where they do not
/// decompress, or decompress to bytes that are not UTF-8.
///
/// Data that `lz4_decompress` may not be given (see `lz4_decodable`) stand
/// for no text here. On some of them `lz4_flex` overflows a length: a build
/// with overflow checks panics there, and a release build wraps the length
/// and may decode a text. The rest hold a run of `0xFF` that no UTF-8 text
/// of at most `round_trip_limit()` bytes compresses to.
pub open spec fn stored_text(data: Seq<u8>) -> Option<Seq<char>> {
    if !lz4_decodable(data) {
        None
    } else {
        match lz4_decompressed(data) {
            Some(bytes) => utf8_text(bytes),
            None => None,
        }
    }
}

/// The compressed form of a text.
pub open spec fn compressed_text(text: Seq<char>) -> Seq<u8> {
    lz4_compressed(encode_utf8(text))
}

/// Whether a text's UTF-8 encoding is short enough for `Clipping::new`.
pub open spec fn storable(text: Seq<char>) -> bool {
    encode_utf8(text).len() * 110 <= usize::MAX
}

/// One entry of the clipboard history.
#[derive(Clone)]
pub struct Clipping {
    pub preview: String,
    pub compressed_data: Vec<u8>,
}

impl Clipping {
    /// The full text this clipping holds, if its data decode.
    pub open spec fn text(&self) -> Option<Seq<char>> {
        stored_text(self.compressed_data@)
    }

    /// Whether this clipping is exactly what `Clipping::new` makes of `text`.
    pub open spec fn made_from(&self, text: Seq<char>) -> bool {
        &&& self.preview@ == preview_of(text)
        &&& self.compressed_data@ == compressed_text(text)
    }

    /// A clipping for `text`: its preview and its compressed UTF-8 bytes.
    pub fn new(text: &str) -> (c: Clipping)
        requires
            storable(text@),
        ensures
            c.made_from(text@),
            text@.len() <= PREVIEW_LIMIT ==> c.preview@ == text@,
            text@.len() > PREVIEW_LIMIT ==> {
                &&& c.preview@.len() == PREVIEW_KEEP + 3
                &&& c.preview@.take(PREVIEW_KEEP as int) == text@.take(PREVIEW_KEEP as int)
                &&& c.preview@.skip(PREVIEW_KEEP as int) == seq!['.', '.', '.']
            },
            encode_utf8(text@).len() <= round_trip_limit() ==> c.text() == Some(text@),
            encode_utf8(text@).len() <= u32::MAX ==> c.text() == Some(text@) || c.text() is None,
    {
        let n = text.unicode_len();
        let preview = if n > PREVIEW_LIMIT {
            let kept = text.substring_char(0, PREVIEW_KEEP);
            let dots = "...";
            proof {
                reveal_strlit("...");
            }
            let p = String::from_str(kept).concat(dots);
            assert(dots@ =~= seq!['.', '.', '.']);
            assert(p@ =~= preview_of(text@));
            assert(p@.take(PREVIEW_KEEP as int) =~= text@.take(PREVIEW_KEEP as int));
            assert(p@.skip(PREVIEW_KEEP as int) =~= seq!['.', '.', '.']);
            p
        } else {
            String::from_str(text)
        };
        let compressed_data = lz4_compress(text.as_bytes());
        proof {
            lemma_utf8_round_trip(text@);
        }
        Clipping { preview, compressed_data }
    }

    /// The full text, or `None` where the data do not decompress to UTF-8.
    pub fn decompress(&self) -> (r: Option<String>)
        ensures
            match r {
                Some(s) => self.text() == Some(s@),
                None => self.text() is None,
            },
            self.compressed_data@.len() < 4 ==> r is None,
    {
        if !is_lz4_decodable(self.compressed_data.as_slice()) {
            return None;
        }
        match lz4_decompress(self.compressed_data.as_slice()) {
            Some(bytes) => string_from_utf8(bytes),
            None => None,
        }
    }
}

} // verus!
