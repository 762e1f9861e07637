//! SHA-256 identities and their lowercase hexadecimal text form.
use vstd::prelude::*;
use vstd::utf8::*;
use sha2::Digest;
use crate::text::{utf8, is_digit_byte, is_hex_byte, digit_byte, hex_byte};

verus! {

/// What `sha2::Sha256::digest` returns for a message.
pub uninterp spec fn sha256_spec(message: Seq<u8>) -> Seq<u8>;

/// Calls `sha2::Sha256::digest` on the message. The contract claims only that
/// the 32 bytes returned are a function of the message bytes alone.
#[verifier::external_body]
pub(crate) fn sha256_digest(message: &[u8]) -> (out: [u8; 32])
    ensures
        out@ == sha256_spec(message@),
{
    sha2::Sha256::digest(message).into()
}

/// Calls `String::from_utf8`, which returns `Ok` with a string holding exactly
/// the given bytes when they are valid UTF-8 (required here).
#[verifier::external_body]
pub(crate) fn string_from_utf8(bytes: Vec<u8>) -> (s: String)
    requires
        valid_utf8(bytes@),
    ensures
        utf8(s@) == bytes@,
{
    match String::from_utf8(bytes) {
        Ok(s) => s,
        Err(_) => String::new(),
    }
}

/// The ASCII byte of a lowercase hexadecimal digit.
pub open spec fn hex_digit(n: u8) -> u8 {
    if n < 10 { (0x30 + n) as u8 } else { (0x61 + n - 10) as u8 }
}

/// Lowercase hexadecimal text of a byte sequence, two digits per byte.
pub open spec fn hex_lower(bytes: Seq<u8>) -> Seq<u8> {
    Seq::new(
        2 * bytes.len(),
        |i: int| if i % 2 == 0 { hex_digit(bytes[i / 2] >> 4) } else { hex_digit(bytes[i / 2] & 15) },
    )
}

/// A well-formed commitment text: 64 lowercase hexadecimal digits, not all zero.
pub open spec fn is_nonzero_sha256_text(b: Seq<u8>) -> bool {
    &&& b.len() == 64
    &&& forall|i: int| 0 <= i < b.len() ==> #[trigger] is_digit_byte(b[i]) || (0x61 <= b[i] <= 0x66)
    &&& exists|i: int| 0 <= i < b.len() && #[trigger] b[i] != 0x30
}

/// 64 hexadecimal digits of either case.
pub open spec fn is_sha256_text(b: Seq<u8>) -> bool {
    &&& b.len() == 64
    &&& forall|i: int| 0 <= i < b.len() ==> #[trigger] is_hex_byte(b[i])
}

fn hex_digit_exec(n: u8) -> (r: u8)
    requires
        n < 16,
    ensures
        r == hex_digit(n),
{
    if n < 10 { 0x30 + n } else { 0x61 + n - 10 }
}

pub(crate) proof fn lemma_ascii_valid_utf8(bytes: Seq<u8>)
    requires
        forall|i: int| 0 <= i < bytes.len() ==> #[trigger] bytes[i] < 0x80,
    ensures
        valid_utf8(bytes),
{
    assert forall|i: int| 0 <= 0 <= i < bytes.len() <= bytes.len() implies #[trigger] is_leading_byte_width_1(bytes[i]) by {
        assert(bytes[i] < 0x80);
    }
    assert(bytes.subrange(0, 0) =~= Seq::<u8>::empty());
    reveal_with_fuel(valid_utf8, 1);
    partial_valid_utf8_extend_ascii_block(bytes, 0, bytes.len() as int);
    assert(bytes.subrange(0, bytes.len() as int) =~= bytes);
}

/// Lowercase hexadecimal text of the given bytes.
pub fn hex_string(bytes: &[u8]) -> (s: String)
    requires
        bytes@.len() <= usize::MAX / 2,
    ensures
        utf8(s@) == hex_lower(bytes@),
{
    let n = bytes.len();
    let mut out: Vec<u8> = Vec::new();
    let mut i: usize = 0;
    while i < n
        invariant
            n == bytes@.len(),
            n <= usize::MAX / 2,
            i <= n,
            out@.len() == 2 * i,
            forall|k: int| 0 <= k < 2 * i ==> #[trigger] out@[k] == hex_lower(bytes@)[k],
        decreases n - i,
    {
        let b = bytes[i];
        assert((b >> 4u8) < 16 && (b & 15u8) < 16) by (bit_vector);
        out.push(hex_digit_exec(b >> 4));
        out.push(hex_digit_exec(b & 15));
        i = i + 1;
    }
    assert(out@ =~= hex_lower(bytes@));
    proof {
        assert forall|k: int| 0 <= k < out@.len() implies #[trigger] out@[k] < 0x80 by {
            let h = hex_lower(bytes@);
            let b = bytes@[k / 2];
            assert((b >> 4u8) < 16 && (b & 15u8) < 16) by (bit_vector);
            assert(out@[k] == h[k]);
        }
        lemma_ascii_valid_utf8(out@);
    }
    string_from_utf8(out)
}

/// Lowercase hexadecimal SHA-256 of a message.
pub fn sha256_hex(message: &[u8]) -> (s: String)
    ensures
        utf8(s@) == hex_lower(sha256_spec(message@)),
{
    let d = sha256_digest(message);
    hex_string(&d)
}

/// Whether a text is a non-zero SHA-256 commitment in canonical lowercase hexadecimal.
pub fn valid_nonzero_sha256(value: &str) -> (r: bool)
    ensures
        r == is_nonzero_sha256_text(utf8(value@)),
{
    let b = value.as_bytes();
    if b.len() != 64 {
        return false;
    }
    let mut nonzero = false;
    let mut i: usize = 0;
    while i < 64
        invariant
            b@.len() == 64,
            b@ == utf8(value@),
            i <= 64,
            forall|j: int| 0 <= j < i ==> #[trigger] is_digit_byte(b@[j]) || (0x61 <= b@[j] <= 0x66),
            nonzero == exists|j: int| 0 <= j < i && #[trigger] b@[j] != 0x30,
        decreases 64 - i,
    {
        let c = b[i];
        if !(digit_byte(c) || (0x61 <= c && c <= 0x66)) {
            return false;
        }
        if c != 0x30 {
            nonzero = true;
        }
        i = i + 1;
    }
    nonzero
}

/// Whether a text is 64 hexadecimal digits of either case.
pub fn is_sha256(value: &str) -> (r: bool)
    ensures
        r == is_sha256_text(utf8(value@)),
{
    let b = value.as_bytes();
    if b.len() != 64 {
        return false;
    }
    let mut i: usize = 0;
    while i < 64
        invariant
            b@.len() == 64,
            b@ == utf8(value@),
            i <= 64,
            forall|j: int| 0 <= j < i ==> #[trigger] is_hex_byte(b@[j]),
        decreases 64 - i,
    {
        if !hex_byte(b[i]) {
            return false;
        }
        i = i + 1;
    }
    true
}

} // verus!
