//! The LZ4 block format of `lz4_flex`, with the uncompressed size prepended.

use vstd::prelude::*;
use vstd::utf8::valid_utf8;

verus! {

/// What `lz4_flex::compress_prepend_size` produces for the given bytes.
pub uninterp spec fn lz4_compressed(data: Seq<u8>) -> Seq<u8>;

/// What `lz4_flex::decompress_size_prepended` gives back for the given bytes:
/// `None` where it reports an error.
pub uninterp spec fn lz4_decompressed(data: Seq<u8>) -> Option<Seq<u8>>;

/// The index where the block starts, after the 4-byte size prefix.
pub const BLOCK_START: usize = 4;

/// The shortest run of `0xFF` bytes in the block on which the decoder's
/// length arithmetic can leave its integer types.
///
/// A length field is a run of `k` bytes `0xFF` closed by a byte `b` below
/// 255, summed as `255 * k + b` in a `u32`: that overflows only when
/// `k >= 16_843_010`, or `k == 16_843_009` and `b >= 1`. On 64-bit targets
/// the decoder's other additions stay within `usize`. On 32-bit targets it
/// also adds the sum to at most 19, and a length to the output position
/// (below `2^31`, see `lz4_decodable`); with `k < 8_000_000` these stay
/// below `2^32`.
pub open spec fn ff_run_limit() -> nat {
    if usize::BITS == 64 {
        16_843_009
    } else {
        8_000_000
    }
}

/// The longest UTF-8 text whose compressed form is promised to decompress
/// again (see `lz4_compress`). On 64-bit targets it is 241 bytes short of
/// `u32::MAX`; on 32-bit targets no process holds longer texts.
pub open spec fn round_trip_limit() -> nat {
    if usize::BITS == 64 {
        4_294_967_054
    } else {
        2_000_000_000
    }
}

/// The size that the first four bytes announce, little-endian.
pub open spec fn size_prefix(data: Seq<u8>) -> int {
    data[0] as int + data[1] as int * 0x100 + data[2] as int * 0x1_0000 + data[3] as int
        * 0x100_0000
}

/// The `ff_run_limit()` bytes of `data` from index `i` on, inside the
/// block, are all `0xFF`.
pub open spec fn ff_run_at(data: Seq<u8>, i: int) -> bool {
    &&& BLOCK_START <= i
    &&& i + ff_run_limit() <= data.len()
    &&& forall|j: int| i <= j < i + ff_run_limit() ==> #[trigger] data[j] == 0xFF
}

/// The block holds `ff_run_limit()` consecutive bytes `0xFF`.
pub open spec fn has_long_ff_run(data: Seq<u8>) -> bool {
    exists|i: int| #[trigger] ff_run_at(data, i)
}

/// Data that `lz4_decompress` may be given: no run of `0xFF` that could
/// overflow the decoder's lengths, and, on 32-bit targets, a size prefix
/// that a `Vec` can hold (`vec!` panics above `isize::MAX`).
pub open spec fn lz4_decodable(data: Seq<u8>) -> bool {
    &&& !has_long_ff_run(data)
    &&& (usize::BITS == 32 && data.len() >= 4 ==> size_prefix(data) <= isize::MAX)
}

/// `ff_run_limit()` as a number.
pub fn ff_run_limit_value() -> (r: usize)
    ensures
        r == ff_run_limit(),
{
    if usize::BITS == 64 {
        16_843_009
    } else {
        8_000_000
    }
}

/// Whether the block of `data` holds `ff_run_limit()` consecutive bytes `0xFF`.
pub fn find_long_ff_run(data: &[u8]) -> (r: bool)
    ensures
        r == has_long_ff_run(data@),
{
    let limit = ff_run_limit_value();
    let n = data.len();
    if n <= BLOCK_START {
        assert forall|s: int| !#[trigger] ff_run_at(data@, s) by {}
        return false;
    }
    let mut run: usize = 0;
    let mut i: usize = BLOCK_START;
    while i < n
        invariant
            n == data@.len(),
            limit == ff_run_limit(),
            BLOCK_START <= i <= n,
            run <= i - BLOCK_START,
            run < limit,
            forall|j: int| i - run <= j < i ==> data@[j] == 0xFF,
            i - run == BLOCK_START || data@[i - run - 1] != 0xFF,
            forall|s: int| s + limit <= i ==> !#[trigger] ff_run_at(data@, s),
        decreases n - i,
    {
        if data[i] == 0xFF {
            run = run + 1;
            if run == limit {
                let ghost s = (i + 1 - limit) as int;
                assert(ff_run_at(data@, s));
                return true;
            }
        } else {
            run = 0;
        }
        i = i + 1;
        proof {
            assert forall|s: int| s + limit <= i implies !#[trigger] ff_run_at(data@, s) by {
                if s + limit == i && BLOCK_START <= s {
                    if data@[i - 1] != 0xFF {
                        assert(data@[i - 1] != 0xFF);
                    } else {
                        assert(data@[i - run - 1] != 0xFF);
                        assert(s <= i - run - 1);
                    }
                }
            }
        }
    }
    false
}

/// Whether `data` may be given to `lz4_decompress` (see `lz4_decodable`).
pub fn is_lz4_decodable(data: &[u8]) -> (r: bool)
    ensures
        r == lz4_decodable(data@),
{
    if find_long_ff_run(data) {
        return false;
    }
    if usize::BITS == 32 && data.len() >= 4 && data[3] >= 0x80 {
        assert(isize::MAX == 0x7fff_ffff);
        return false;
    }
    proof {
        if usize::BITS == 32 && data@.len() >= 4 {
            assert(isize::MAX == 0x7fff_ffff);
            assert(data@[3] < 0x80);
        }
    }
    true
}

/// Calls `lz4_flex::compress_prepend_size`.
///
/// The result is the crate's compressed form, named `lz4_compressed`. The
/// crate writes the input length as a little-endian `u32` in front of the
/// block and documents the pair with `decompress_size_prepended`; LZ4 is
/// lossless, so for inputs whose length fits in a `u32` decompressing gives
/// the input back. The crate sizes its buffer as `input.len() * 110 / 100`
/// plus a few bytes; `requires` keeps that product within `usize`.
///
/// In the block, literals are copied as they are, and a length of `15 +
/// 255 * k + b` (for a literal run after a token of `0xF0` or more) or of
/// `19 + 255 * k + b` (for a match) is written as `k` bytes `0xFF` and a
/// closing `b` below 255. Valid UTF-8 holds no `0xFF`, so a run of `0xFF`
/// in the block of a UTF-8 input is one length field with at most a token
/// or an offset (two bytes, `0xFF00` or more) before it. For an input of at
/// most `round_trip_limit()` bytes that gives fewer than `ff_run_limit()`
/// bytes: a literal run is at most the input, and a match copies bytes
/// that the offset reaches back to.
#[verifier::external_body]
pub(crate) fn lz4_compress(data: &[u8]) -> (r: Vec<u8>)
    requires
        data@.len() * 110 <= usize::MAX,
    ensures
        r@ == lz4_compressed(data@),
        data@.len() <= u32::MAX ==> lz4_decompressed(r@) == Some(data@),
        data@.len() <= u32::MAX ==> r@.len() >= 4 && size_prefix(r@) == data@.len(),
        data@.len() <= round_trip_limit() && valid_utf8(data@) ==> !has_long_ff_run(r@),
{
    lz4_flex::compress_prepend_size(data)
}

/// Calls `lz4_flex::decompress_size_prepended`, turning its error into `None`.
///
/// The result is named `lz4_decompressed`. Input shorter than the 4-byte size
/// prefix is an error. The crate adds length bytes with plain integer
/// arithmetic, which panics where overflow checks are on, and allocates with
/// `vec!` as many bytes as the prefix announces, which panics above
/// `isize::MAX`; `requires` leaves out every input on which either can
/// happen (see `ff_run_limit` and `lz4_decodable`). An allocation failure
/// below that size is not modelled.
#[verifier::external_body]
pub(crate) fn lz4_decompress(data: &[u8]) -> (r: Option<Vec<u8>>)
    requires
        lz4_decodable(data@),
    ensures
        match r {
            Some(v) => lz4_decompressed(data@) == Some(v@),
            None => lz4_decompressed(data@) is None,
        },
        data@.len() < 4 ==> r is None,
{
    lz4_flex::decompress_size_prepended(data).ok()
}

} // verus!
