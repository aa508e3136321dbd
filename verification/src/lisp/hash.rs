//! Content hashes: BLAKE3 truncated to 128 bits, written as 32 lowercase
//! hex digits.

use vstd::prelude::*;
use vstd::utf8::{encode_utf8, is_ascii_chars, is_ascii_chars_encode_utf8};

verus! {

/// The full 32-byte BLAKE3 digest of `bytes`.
pub uninterp spec fn blake3_digest(bytes: Seq<u8>) -> Seq<u8>;

/// `blake3::hash`, taken as its 32 bytes.
#[verifier::external_body]
fn blake3_hash(bytes: &[u8]) -> (d: [u8; 32])
    ensures
        d@ == blake3_digest(bytes@),
{
    *blake3::hash(bytes).as_bytes()
}

/// The lowercase hex digit for `n < 16`.
pub open spec fn hex_digit(n: nat) -> char {
    if n < 10 {
        (n + 48) as char
    } else {
        (n + 87) as char
    }
}

/// `bytes` as lowercase hex, two digits per byte, high nibble first.
pub open spec fn hex_lower(bytes: Seq<u8>) -> Seq<char>
    decreases bytes.len(),
{
    if bytes.len() == 0 {
        Seq::<char>::empty()
    } else {
        seq![hex_digit((bytes[0] / 16) as nat), hex_digit((bytes[0] % 16) as nat)] + hex_lower(
            bytes.drop_first(),
        )
    }
}

/// `b` is a lowercase hex digit.
pub open spec fn is_lower_hex_byte(b: u8) -> bool {
    (48 <= b <= 57) || (97 <= b <= 102)
}

/// `bytes` is 32 lowercase hex digits.
pub open spec fn is_hex128(bytes: Seq<u8>) -> bool {
    bytes.len() == 32 && forall|i: int| 0 <= i < 32 ==> is_lower_hex_byte(#[trigger] bytes[i])
}

fn hex_char(n: u8) -> (c: char)
    requires
        n < 16,
    ensures
        c == hex_digit(n as nat),
{
    if n < 10 {
        (n + 48) as char
    } else {
        (n + 87) as char
    }
}

/// The first 16 bytes of a digest as 32 lowercase hex digits.
pub fn short_hex(digest: &[u8; 32]) -> (s: String)
    ensures
        s@ == hex_lower(digest@.subrange(0, 16)),
{
    let mut out = String::new();
    let mut i: usize = 0;
    while i < 16
        invariant
            i <= 16,
            digest@.len() == 32,
            out@ + hex_lower(digest@.subrange(i as int, 16)) == hex_lower(digest@.subrange(0, 16)),
        decreases 16 - i,
    {
        let b = digest[i];
        let ghost rest = digest@.subrange(i as int, 16);
        assert(rest[0] == b);
        assert(rest.drop_first() =~= digest@.subrange(i + 1, 16));
        crate::text::push_char(&mut out, hex_char(b / 16));
        crate::text::push_char(&mut out, hex_char(b % 16));
        i += 1;
        assert(out@ + hex_lower(digest@.subrange(i as int, 16)) =~= hex_lower(
            digest@.subrange(0, 16),
        ));
    }
    assert(hex_lower(digest@.subrange(16, 16)) =~= Seq::<char>::empty());
    assert(out@ =~= out@ + Seq::<char>::empty());
    out
}

/// The BLAKE3 digest of `bytes`, cut to its first 16 bytes, as 32 lowercase
/// hex digits.
pub fn compute_blake3_128_hex(bytes: &[u8]) -> (s: String)
    ensures
        s@ == hex_lower(blake3_digest(bytes@).subrange(0, 16)),
{
    let d = blake3_hash(bytes);
    short_hex(&d)
}

/// Is `s` exactly 32 lowercase hex digits?
pub fn is_blake3_128_hex(s: &str) -> (b: bool)
    ensures
        b == is_hex128(encode_utf8(s@)),
{
    let bytes = s.as_bytes();
    if bytes.len() != 32 {
        return false;
    }
    let mut i: usize = 0;
    while i < 32
        invariant
            i <= 32,
            bytes@.len() == 32,
            bytes@ == encode_utf8(s@),
            forall|k: int| 0 <= k < i ==> is_lower_hex_byte(#[trigger] bytes@[k]),
        decreases 32 - i,
    {
        let c = bytes[i];
        if !((48u8 <= c && c <= 57u8) || (97u8 <= c && c <= 102u8)) {
            return false;
        }
        i += 1;
    }
    true
}

/// Hex digits are ASCII, and lowercase hex digits as bytes.
proof fn lemma_hex_lower_shape(bytes: Seq<u8>)
    ensures
        hex_lower(bytes).len() == 2 * bytes.len(),
        forall|i: int|
            0 <= i < hex_lower(bytes).len() ==> {
                &&& '\0' <= #[trigger] hex_lower(bytes)[i] <= '\u{7f}'
                &&& is_lower_hex_byte(hex_lower(bytes)[i] as u8)
            },
    decreases bytes.len(),
{
    if bytes.len() > 0 {
        lemma_hex_lower_shape(bytes.drop_first());
        let h = hex_lower(bytes);
        let t = hex_lower(bytes.drop_first());
        assert forall|i: int| 0 <= i < h.len() implies {
            &&& '\0' <= #[trigger] h[i] <= '\u{7f}'
            &&& is_lower_hex_byte(h[i] as u8)
        } by {
            if i >= 2 {
                assert(h[i] == t[i - 2]);
            }
        }
    }
}

/// What [`compute_blake3_128_hex`] writes always passes
/// [`is_blake3_128_hex`]: the first 16 bytes of any digest, in lowercase hex,
/// are 32 lowercase hex digits.
pub proof fn lemma_short_hex_is_well_formed(digest: Seq<u8>)
    requires
        digest.len() >= 16,
    ensures
        is_hex128(encode_utf8(hex_lower(digest.subrange(0, 16)))),
{
    let h = hex_lower(digest.subrange(0, 16));
    lemma_hex_lower_shape(digest.subrange(0, 16));
    assert(is_ascii_chars(h));
    is_ascii_chars_encode_utf8(h);
    let e = encode_utf8(h);
    assert forall|i: int| 0 <= i < 32 implies is_lower_hex_byte(#[trigger] e[i]) by {
        assert(h[i] as u8 == e[i]);
    }
}

} // verus!
