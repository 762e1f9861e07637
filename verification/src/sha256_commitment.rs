//! Non-zero SHA-256 commitments, their hexadecimal form and framed digests.
use vstd::prelude::*;
use crate::text::{utf8, is_digit_byte, digit_byte};
use crate::digest::{sha256_spec, sha256_digest, hex_lower, hex_string, is_nonzero_sha256_text};

verus! {

#[derive(Clone, Copy, Debug, PartialEq, Eq, Hash, PartialOrd, Ord)]
pub struct Sha256CommitmentV3([u8; 32]);

impl View for Sha256CommitmentV3 {
    type V = Seq<u8>;

    /// The 32 bytes of the commitment.
    closed spec fn view(&self) -> Seq<u8> {
        self.0@
    }
}

#[derive(Clone, Copy, Debug, PartialEq, Eq, Structural)]
pub enum Sha256CommitmentErrorV3 {
    InvalidHex,
    InvalidLength,
    Zero,
}

/// Every byte is zero.
pub open spec fn all_zero(b: Seq<u8>) -> bool {
    forall|i: int| 0 <= i < b.len() ==> #[trigger] b[i] == 0
}

/// A lowercase hexadecimal digit.
pub open spec fn is_lower_hex_byte(b: u8) -> bool {
    is_digit_byte(b) || (0x61 <= b <= 0x66)
}

/// The value of a lowercase hexadecimal digit.
pub open spec fn nibble(b: u8) -> int {
    if is_digit_byte(b) { b - 0x30 } else { b - 0x61 + 10 }
}

/// The bytes that 64 lowercase hexadecimal digits stand for, two digits per byte.
pub open spec fn decode_hex(b: Seq<u8>) -> Seq<u8> {
    Seq::new(32, |k: int| (nibble(b[2 * k]) * 16 + nibble(b[2 * k + 1])) as u8)
}

/// What `Sha256CommitmentV3::from_hex` decides for a text.
pub open spec fn spec_from_hex(value: Seq<char>) -> Result<Seq<u8>, Sha256CommitmentErrorV3> {
    let b = utf8(value);
    if b.len() != 64 {
        Err(Sha256CommitmentErrorV3::InvalidLength)
    } else if exists|i: int| 0 <= i < 64 && !#[trigger] is_lower_hex_byte(b[i]) {
        Err(Sha256CommitmentErrorV3::InvalidHex)
    } else if all_zero(decode_hex(b)) {
        Err(Sha256CommitmentErrorV3::Zero)
    } else {
        Ok(decode_hex(b))
    }
}

/// Big-endian bytes of a 64-bit length.
pub open spec fn be64(n: u64) -> Seq<u8> {
    Seq::new(8, |i: int| ((n >> ((56 - 8 * i) as u64)) & 0xff) as u8)
}

/// Length-framed message of a domain and its parts: each is preceded by its
/// length as a big-endian 64-bit integer.
pub open spec fn framed(domain: Seq<u8>, parts: Seq<Seq<u8>>) -> Seq<u8>
    decreases parts.len(),
{
    if parts.len() == 0 {
        be64(domain.len() as u64) + domain
    } else {
        framed(domain, parts.drop_last()) + be64(parts.last().len() as u64) + parts.last()
    }
}

fn decode_nibble(b: u8) -> (r: Option<u8>)
    ensures
        r == (if is_lower_hex_byte(b) { Some(nibble(b) as u8) } else { None::<u8> }),
        r matches Some(v) ==> v < 16,
{
    if digit_byte(b) {
        Some(b - 0x30)
    } else if 0x61 <= b && b <= 0x66 {
        Some(b - 0x61 + 10)
    } else {
        None
    }
}

fn push_be64(out: &mut Vec<u8>, n: u64)
    ensures
        final(out)@ == old(out)@ + be64(n),
{
    let mut k: u64 = 0;
    while k < 8
        invariant
            k <= 8,
            out@.len() == old(out)@.len() + k,
            forall|j: int| 0 <= j < old(out)@.len() ==> out@[j] == old(out)@[j],
            forall|j: int| 0 <= j < k ==> #[trigger] out@[old(out)@.len() + j] == be64(n)[j],
        decreases 8 - k,
    {
        let shift: u64 = 56 - 8 * k;
        let b = ((n >> shift) & 0xff) as u8;
        out.push(b);
        assert(out@[old(out)@.len() + k as int] == be64(n)[k as int]);
        k = k + 1;
    }
    let ghost target = old(out)@ + be64(n);
    assert forall|j: int| 0 <= j < out@.len() implies out@[j] == target[j] by {
        if j >= old(out)@.len() {
            let d = j - old(out)@.len();
            assert(out@[old(out)@.len() + d] == be64(n)[d]);
        }
    }
    assert(out@ =~= target);
}

fn push_all(out: &mut Vec<u8>, b: &[u8])
    ensures
        final(out)@ == old(out)@ + b@,
{
    let ghost start = out@;
    let mut i: usize = 0;
    while i < b.len()
        invariant
            i <= b@.len(),
            out@ == start + b@.take(i as int),
        decreases b@.len() - i,
    {
        out.push(b[i]);
        assert(out@ =~= start + b@.take(i + 1));
        i = i + 1;
    }
    assert(b@.take(b@.len() as int) =~= b@);
}

impl Sha256CommitmentV3 {
    /// A commitment to the given bytes, refused when every byte is zero.
    pub fn new(bytes: [u8; 32]) -> (r: Result<Self, Sha256CommitmentErrorV3>)
        ensures
            all_zero(bytes@) ==> r == Err::<Self, Sha256CommitmentErrorV3>(Sha256CommitmentErrorV3::Zero),
            !all_zero(bytes@) ==> (r matches Ok(c) && c@ == bytes@),
    {
        let mut i: usize = 0;
        while i < 32
            invariant
                i <= 32,
                bytes@.len() == 32,
                forall|j: int| 0 <= j < i ==> #[trigger] bytes@[j] == 0,
            decreases 32 - i,
        {
            if bytes[i] != 0 {
                return Ok(Sha256CommitmentV3(bytes));
            }
            i = i + 1;
        }
        Err(Sha256CommitmentErrorV3::Zero)
    }

    /// Parses 64 lowercase hexadecimal digits into a non-zero commitment.
    pub fn from_hex(value: &str) -> (r: Result<Self, Sha256CommitmentErrorV3>)
        ensures
            match spec_from_hex(value@) {
                Ok(bytes) => (r matches Ok(c) && c@ == bytes),
                Err(e) => r == Err::<Self, Sha256CommitmentErrorV3>(e),
            },
    {
        let b = value.as_bytes();
        if b.len() != 64 {
            return Err(Sha256CommitmentErrorV3::InvalidLength);
        }
        let mut bytes: [u8; 32] = [0u8; 32];
        let mut k: usize = 0;
        while k < 32
            invariant
                k <= 32,
                b@.len() == 64,
                b@ == utf8(value@),
                bytes@.len() == 32,
                forall|j: int| 0 <= j < 2 * k ==> #[trigger] is_lower_hex_byte(b@[j]),
                forall|j: int| 0 <= j < k ==> #[trigger] bytes@[j] == decode_hex(b@)[j],
            decreases 32 - k,
        {
            let high = match decode_nibble(b[2 * k]) {
                Some(v) => v,
                None => {
                    return Err(Sha256CommitmentErrorV3::InvalidHex);
                },
            };
            let low = match decode_nibble(b[2 * k + 1]) {
                Some(v) => v,
                None => {
                    return Err(Sha256CommitmentErrorV3::InvalidHex);
                },
            };
            let v = (high << 4u8) | low;
            assert((high << 4u8) | low == high * 16 + low) by (bit_vector)
                requires
                    high < 16,
                    low < 16,
            ;
            bytes[k] = v;
            k = k + 1;
        }
        assert(bytes@ =~= decode_hex(b@));
        Self::new(bytes)
    }

    /// The commitment of a message: its SHA-256 digest.
    pub fn digest_bytes(value: &[u8]) -> (r: Self)
        ensures
            r@ == sha256_spec(value@),
    {
        Sha256CommitmentV3(sha256_digest(value))
    }

    /// The SHA-256 of a domain and parts, each framed by its big-endian length.
    pub fn digest_parts(domain: &[u8], parts: &[&[u8]]) -> (r: Self)
        ensures
            r@ == sha256_spec(framed(domain@, parts@.map_values(|p: &[u8]| p@))),
    {
        let ghost ps = parts@.map_values(|p: &[u8]| p@);
        let mut message: Vec<u8> = Vec::new();
        push_be64(&mut message, domain.len() as u64);
        push_all(&mut message, domain);
        assert(message@ =~= framed(domain@, ps.take(0)));
        let mut i: usize = 0;
        while i < parts.len()
            invariant
                i <= parts@.len(),
                ps == parts@.map_values(|p: &[u8]| p@),
                message@ == framed(domain@, ps.take(i as int)),
            decreases parts@.len() - i,
        {
            let part = parts[i];
            push_be64(&mut message, part.len() as u64);
            push_all(&mut message, part);
            assert(ps.take(i + 1).drop_last() =~= ps.take(i as int));
            assert(ps.take(i + 1).last() == part@);
            i = i + 1;
        }
        assert(ps.take(parts@.len() as int) =~= ps);
        Sha256CommitmentV3(sha256_digest(message.as_slice()))
    }

    pub fn as_bytes(&self) -> (r: &[u8; 32])
        ensures
            r@ == self@,
    {
        &self.0
    }

    /// The commitment in lowercase hexadecimal.
    pub fn to_hex(self) -> (s: String)
        ensures
            utf8(s@) == hex_lower(self@),
    {
        hex_string(&self.0)
    }
}

/// A commitment holds 32 bytes, and commitments with the same bytes are the
/// same commitment.
pub proof fn lemma_commitment_bytes(a: Sha256CommitmentV3, b: Sha256CommitmentV3)
    ensures
        a@.len() == 32,
        a@ == b@ ==> a == b,
{
    broadcast use vstd::array::group_array_axioms;
    if a@ == b@ {
        assert forall|i: int| 0 <= i < 32 implies a.0[i] == b.0[i] by {
            assert(a.0@[i] == b.0@[i]);
        }
        assert(a.0 =~= b.0);
    }
}

/// The hexadecimal text of a non-zero commitment parses back to the same
/// commitment: `from_hex` of it gives a commitment with the same bytes, and
/// so the same commitment.
pub proof fn lemma_commitment_hex_roundtrip(c: Sha256CommitmentV3, text: Seq<char>)
    requires
        !all_zero(c@),
        utf8(text) == hex_lower(c@),
    ensures
        spec_from_hex(text) == Ok::<Seq<u8>, Sha256CommitmentErrorV3>(c@),
{
    lemma_commitment_bytes(c, c);
    lemma_hex_roundtrip(c@, text);
}

/// A text parses as a commitment exactly when it is a non-zero SHA-256
/// digest in lowercase hexadecimal.
pub proof fn lemma_from_hex_accepts_exactly_nonzero_digests(value: Seq<char>)
    ensures
        (spec_from_hex(value) is Ok) <==> is_nonzero_sha256_text(utf8(value)),
{
    let b = utf8(value);
    if b.len() == 64 && forall|i: int| 0 <= i < 64 ==> #[trigger] is_lower_hex_byte(b[i]) {
        let d = decode_hex(b);
        assert forall|k: int| 0 <= k < 32 implies (#[trigger] d[k] == 0 <==> (b[2 * k] == 0x30 && b[2 * k + 1] == 0x30)) by {
            assert(is_lower_hex_byte(b[2 * k]));
            assert(is_lower_hex_byte(b[2 * k + 1]));
        }
        if all_zero(d) {
            assert forall|i: int| 0 <= i < 64 implies #[trigger] b[i] == 0x30 by {
                let k = i / 2;
                assert(d[k] == 0);
                assert(i == 2 * k || i == 2 * k + 1);
            }
            assert(!is_nonzero_sha256_text(b));
        } else {
            let k = choose|k: int| 0 <= k < 32 && #[trigger] d[k] != 0;
            if b[2 * k] != 0x30 {
                assert(exists|i: int| 0 <= i < b.len() && #[trigger] b[i] != 0x30);
            } else {
                assert(b[2 * k + 1] != 0x30);
                assert(exists|i: int| 0 <= i < b.len() && #[trigger] b[i] != 0x30);
            }
            assert forall|i: int| 0 <= i < b.len() implies #[trigger] is_digit_byte(b[i]) || (0x61 <= b[i] <= 0x66) by {
                assert(is_lower_hex_byte(b[i]));
            }
            assert(is_nonzero_sha256_text(b));
        }
    } else if b.len() == 64 {
        let i = choose|i: int| 0 <= i < 64 && !#[trigger] is_lower_hex_byte(b[i]);
        assert(!(is_digit_byte(b[i]) || (0x61 <= b[i] <= 0x66)));
    }
}

/// A text that parses to a commitment is the lowercase hexadecimal text of
/// the commitment's bytes: parsing and printing undo each other.
pub proof fn lemma_from_hex_text_is_hex_of_bytes(text: Seq<char>)
    requires
        spec_from_hex(text) is Ok,
    ensures
        hex_lower(spec_from_hex(text)->Ok_0) == utf8(text),
{
    let b = utf8(text);
    let d = decode_hex(b);
    assert(forall|i: int| 0 <= i < 64 ==> #[trigger] is_lower_hex_byte(b[i]));
    assert forall|i: int| 0 <= i < 64 implies #[trigger] hex_lower(d)[i] == b[i] by {
        let k = i / 2;
        assert(is_lower_hex_byte(b[2 * k]) && is_lower_hex_byte(b[2 * k + 1]));
        let hi = b[2 * k];
        let lo = b[2 * k + 1];
        let x = d[k];
        assert(x == (nibble(hi) * 16 + nibble(lo)) as u8);
        assert(0 <= nibble(hi) < 16 && 0 <= nibble(lo) < 16);
        let h: u8 = nibble(hi) as u8;
        let l: u8 = nibble(lo) as u8;
        assert(x == h * 16 + l);
        assert((x >> 4u8) == h && (x & 15u8) == l) by (bit_vector)
            requires
                x == h * 16 + l,
                h < 16,
                l < 16,
        ;
        assert(crate::digest::hex_digit(h) == hi);
        assert(crate::digest::hex_digit(l) == lo);
        assert(i == 2 * k || i == 2 * k + 1);
    }
    assert(hex_lower(d) =~= b);
}

/// Hexadecimal text roundtrips: the lowercase hexadecimal text of a
/// non-zero commitment parses back to the same commitment.
pub proof fn lemma_hex_roundtrip(bytes: Seq<u8>, text: Seq<char>)
    requires
        bytes.len() == 32,
        !all_zero(bytes),
        utf8(text) == hex_lower(bytes),
    ensures
        spec_from_hex(text) == Ok::<Seq<u8>, Sha256CommitmentErrorV3>(bytes),
{
    let b = utf8(text);
    assert forall|i: int| 0 <= i < 64 implies #[trigger] is_lower_hex_byte(b[i]) by {
        let x = bytes[i / 2];
        assert((x >> 4u8) < 16 && (x & 15u8) < 16) by (bit_vector);
    }
    let d = decode_hex(b);
    assert forall|k: int| 0 <= k < 32 implies #[trigger] d[k] == bytes[k] by {
        let x = bytes[k];
        assert((x >> 4u8) < 16 && (x & 15u8) < 16) by (bit_vector);
        assert(b[2 * k] == crate::digest::hex_digit(x >> 4u8));
        assert(b[2 * k + 1] == crate::digest::hex_digit(x & 15u8));
        assert(nibble(crate::digest::hex_digit(x >> 4u8)) == (x >> 4u8) as int);
        assert(nibble(crate::digest::hex_digit(x & 15u8)) == (x & 15u8) as int);
        assert((x >> 4u8) as int * 16 + (x & 15u8) as int == x as int) by (bit_vector);
    }
    assert(d =~= bytes);
}

} // verus!
