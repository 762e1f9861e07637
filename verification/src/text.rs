//! Byte- and character-level predicates shared by the validators.
use vstd::prelude::*;
use vstd::utf8::*;

verus! {

broadcast use vstd::utf8::encode_utf8_decode_utf8;

/// The UTF-8 bytes of a character sequence.
pub open spec fn utf8(s: Seq<char>) -> Seq<u8> {
    encode_utf8(s)
}

pub open spec fn is_digit_byte(b: u8) -> bool {
    0x30 <= b <= 0x39
}

pub open spec fn is_lower_byte(b: u8) -> bool {
    0x61 <= b <= 0x7a
}

pub open spec fn is_upper_byte(b: u8) -> bool {
    0x41 <= b <= 0x5a
}

pub open spec fn is_alpha_byte(b: u8) -> bool {
    is_lower_byte(b) || is_upper_byte(b)
}

pub open spec fn is_alnum_byte(b: u8) -> bool {
    is_alpha_byte(b) || is_digit_byte(b)
}

/// `u8::is_ascii_hexdigit`: `0-9`, `a-f`, `A-F`.
pub open spec fn is_hex_byte(b: u8) -> bool {
    is_digit_byte(b) || (0x61 <= b <= 0x66) || (0x41 <= b <= 0x46)
}

/// `u8::is_ascii_control`.
pub open spec fn is_ascii_control_byte(b: u8) -> bool {
    b < 0x20 || b == 0x7f
}

pub fn digit_byte(b: u8) -> (r: bool)
    ensures r == is_digit_byte(b),
{
    0x30 <= b && b <= 0x39
}

pub fn lower_byte(b: u8) -> (r: bool)
    ensures r == is_lower_byte(b),
{
    0x61 <= b && b <= 0x7a
}

pub fn upper_byte(b: u8) -> (r: bool)
    ensures r == is_upper_byte(b),
{
    0x41 <= b && b <= 0x5a
}

pub fn alpha_byte(b: u8) -> (r: bool)
    ensures r == is_alpha_byte(b),
{
    lower_byte(b) || upper_byte(b)
}

pub fn alnum_byte(b: u8) -> (r: bool)
    ensures r == is_alnum_byte(b),
{
    digit_byte(b) || lower_byte(b) || upper_byte(b)
}

pub fn hex_byte(b: u8) -> (r: bool)
    ensures r == is_hex_byte(b),
{
    digit_byte(b) || (0x61 <= b && b <= 0x66) || (0x41 <= b && b <= 0x46)
}

pub fn ascii_control_byte(b: u8) -> (r: bool)
    ensures r == is_ascii_control_byte(b),
{
    b < 0x20 || b == 0x7f
}

/// Byte-wise equality of two slices.
pub fn bytes_eq(a: &[u8], b: &[u8]) -> (r: bool)
    ensures r == (a@ == b@),
{
    if a.len() != b.len() {
        return false;
    }
    let n = a.len();
    let mut i: usize = 0;
    while i < n
        invariant
            n == a@.len(),
            n == b@.len(),
            i <= n,
            forall|j: int| 0 <= j < i ==> a@[j] == b@[j],
        decreases n - i,
    {
        if a[i] != b[i] {
            return false;
        }
        i = i + 1;
    }
    assert(a@ =~= b@);
    true
}

/// Equality of two strings by their characters.
pub fn str_eq(a: &str, b: &str) -> (r: bool)
    ensures r == (a@ == b@),
{
    let r = bytes_eq(a.as_bytes(), b.as_bytes());
    proof {
        if r {
            assert(decode_utf8(encode_utf8(a@)) == a@);
            assert(decode_utf8(encode_utf8(b@)) == b@);
        }
    }
    r
}

} // verus!

verus! {

/// The characters of a string, in order.
pub fn chars_of(s: &str) -> (r: Vec<char>)
    ensures
        r@ == s@,
{
    let mut out: Vec<char> = Vec::new();
    for c in it: s.chars()
        invariant
            out@ == it.seq().take(it.index()),
            it.seq() == s@,
    {
        out.push(c);
    }
    out
}

} // verus!

verus! {

/// `needle` occurs contiguously in `hay`.
pub open spec fn contains_sub<A>(hay: Seq<A>, needle: Seq<A>) -> bool {
    exists|i: int| 0 <= i && i + needle.len() <= hay.len() && #[trigger] hay.subrange(i, i + needle.len()) == needle
}

/// Whether `needle` occurs contiguously in `hay`.
pub fn contains_bytes(hay: &[u8], needle: &[u8]) -> (r: bool)
    ensures
        r == contains_sub(hay@, needle@),
{
    let n = hay.len();
    let m = needle.len();
    if m > n {
        proof {
            assert forall|i: int| 0 <= i && i + m <= n implies #[trigger] hay@.subrange(i, i + m) != needle@ by {}
        }
        return false;
    }
    let mut i: usize = 0;
    while i <= n - m
        invariant
            n == hay@.len(),
            m == needle@.len(),
            m <= n,
            i <= n - m + 1,
            forall|k: int| 0 <= k < i ==> #[trigger] hay@.subrange(k, k + m) != needle@,
        decreases n - m + 1 - i,
    {
        let mut j: usize = 0;
        let mut same = true;
        while j < m
            invariant
                n == hay@.len(),
                m == needle@.len(),
                i + m <= n,
                j <= m,
                same == forall|t: int| 0 <= t < j ==> hay@[i + t] == needle@[t],
            decreases m - j,
        {
            if hay[i + j] != needle[j] {
                same = false;
            }
            j = j + 1;
        }
        if same {
            assert(hay@.subrange(i as int, i + m) =~= needle@);
            return true;
        }
        assert(hay@.subrange(i as int, i + m)[(choose|t: int| 0 <= t < m && hay@[i + t] != needle@[t])] != needle@[(choose|t: int| 0 <= t < m && hay@[i + t] != needle@[t])]);
        i = i + 1;
    }
    false
}

/// ASCII lowercase mapping of a byte (`u8::to_ascii_lowercase`).
pub open spec fn ascii_lower_byte(b: u8) -> u8 {
    if is_upper_byte(b) { (b + 32) as u8 } else { b }
}

pub open spec fn ascii_lower(b: Seq<u8>) -> Seq<u8> {
    b.map_values(|x: u8| ascii_lower_byte(x))
}

pub fn ascii_lower_bytes(b: &[u8]) -> (r: Vec<u8>)
    ensures
        r@ == ascii_lower(b@),
{
    let mut out: Vec<u8> = Vec::new();
    let n = b.len();
    let mut i: usize = 0;
    while i < n
        invariant
            n == b@.len(),
            i <= n,
            out@ =~= ascii_lower(b@.take(i as int)),
        decreases n - i,
    {
        let c = b[i];
        if upper_byte(c) {
            out.push(c + 32);
        } else {
            out.push(c);
        }
        assert(ascii_lower(b@.take(i + 1)) =~= ascii_lower(b@.take(i as int)).push(ascii_lower_byte(c)));
        i = i + 1;
    }
    assert(b@.take(n as int) =~= b@);
    out
}

/// `char::is_control`: the Unicode general category Cc.
pub open spec fn is_control_char(c: char) -> bool {
    (c as u32) <= 0x1f || (0x7f <= (c as u32) && (c as u32) <= 0x9f)
}

pub fn control_char(c: char) -> (r: bool)
    ensures
        r == is_control_char(c),
{
    let u = c as u32;
    u <= 0x1f || (0x7f <= u && u <= 0x9f)
}

/// `char::is_whitespace`: the Unicode `White_Space` property.
pub open spec fn is_whitespace_char(c: char) -> bool {
    let u = c as u32;
    (0x09 <= u && u <= 0x0d) || u == 0x20 || u == 0x85 || u == 0xa0 || u == 0x1680
        || (0x2000 <= u && u <= 0x200a) || u == 0x2028 || u == 0x2029 || u == 0x202f
        || u == 0x205f || u == 0x3000
}

pub fn whitespace_char(c: char) -> (r: bool)
    ensures
        r == is_whitespace_char(c),
{
    let u = c as u32;
    (0x09 <= u && u <= 0x0d) || u == 0x20 || u == 0x85 || u == 0xa0 || u == 0x1680
        || (0x2000 <= u && u <= 0x200a) || u == 0x2028 || u == 0x2029 || u == 0x202f
        || u == 0x205f || u == 0x3000
}

/// What `str::to_lowercase` returns for a text.
pub uninterp spec fn unicode_lowercase(s: Seq<char>) -> Seq<char>;

/// Calls `str::to_lowercase`. The contract claims only that the result is a
/// function of the characters of the input; the Unicode case tables are not stated.
#[verifier::external_body]
pub(crate) fn lowercase(s: &str) -> (r: String)
    ensures
        r@ == unicode_lowercase(s@),
{
    s.to_lowercase()
}

/// What `char::is_alphanumeric` returns for a character.
pub uninterp spec fn unicode_alphanumeric(c: char) -> bool;

/// Calls `char::is_alphanumeric` (Unicode `Alphabetic` or `Numeric`). The
/// property tables are not stated; the result is a function of the character.
#[verifier::external_body]
pub(crate) fn char_alphanumeric(c: char) -> (r: bool)
    ensures
        r == unicode_alphanumeric(c),
{
    c.is_alphanumeric()
}

} // verus!

verus! {

/// `[i, j)` is a maximal non-empty run of elements in class `cls`.
pub open spec fn maximal_run<T>(c: Seq<T>, cls: spec_fn(T) -> bool, i: int, j: int) -> bool {
    &&& 0 <= i < j <= c.len()
    &&& forall|k: int| i <= k < j ==> #[trigger] cls(c[k])
    &&& (i == 0 || !cls(c[i - 1]))
    &&& (j == c.len() || !cls(c[j]))
}

/// Some maximal run of class `cls` satisfies `p`.
pub open spec fn some_run<T>(c: Seq<T>, cls: spec_fn(T) -> bool, p: spec_fn(int, int) -> bool) -> bool {
    exists|i: int, j: int| #[trigger] maximal_run(c, cls, i, j) && p(i, j)
}

/// Every maximal run starting before `bound` fails `p`.
pub open spec fn runs_checked<T>(c: Seq<T>, cls: spec_fn(T) -> bool, p: spec_fn(int, int) -> bool, bound: int) -> bool {
    forall|i: int, j: int| #[trigger] maximal_run(c, cls, i, j) && i < bound ==> !p(i, j)
}

pub proof fn lemma_runs_start<T>(c: Seq<T>, cls: spec_fn(T) -> bool, p: spec_fn(int, int) -> bool)
    ensures
        runs_checked(c, cls, p, 0),
{
}

/// A non-member at `q` outside any open run moves the bound past it.
pub proof fn lemma_runs_skip<T>(c: Seq<T>, cls: spec_fn(T) -> bool, p: spec_fn(int, int) -> bool, q: int)
    requires
        0 <= q < c.len(),
        !cls(c[q]),
        runs_checked(c, cls, p, q),
    ensures
        runs_checked(c, cls, p, q + 1),
{
    assert forall|i: int, j: int| #[trigger] maximal_run(c, cls, i, j) && i < q + 1 implies !p(i, j) by {
        if i == q {
            assert(cls(c[i]));
        }
    }
}

/// Closing the run `[s, q)` at a non-member `q` (or at the end) when it fails `p`.
pub proof fn lemma_runs_close<T>(c: Seq<T>, cls: spec_fn(T) -> bool, p: spec_fn(int, int) -> bool, s: int, q: int)
    requires
        0 <= s < q <= c.len(),
        forall|k: int| s <= k < q ==> #[trigger] cls(c[k]),
        s == 0 || !cls(c[s - 1]),
        q == c.len() || !cls(c[q]),
        runs_checked(c, cls, p, s),
        !p(s, q),
    ensures
        runs_checked(c, cls, p, q + 1),
        maximal_run(c, cls, s, q),
{
    assert forall|i: int, j: int| #[trigger] maximal_run(c, cls, i, j) && i < q + 1 implies !p(i, j) by {
        if i >= s {
            if i > s {
                assert(cls(c[i - 1]));
            }
            if i == q {
                assert(cls(c[i]));
            }
            if j < q {
                assert(cls(c[j]));
            }
            if j > q {
                assert(cls(c[q]));
            }
        }
    }
}

/// When every run has been checked, no run satisfies `p`.
pub proof fn lemma_runs_done<T>(c: Seq<T>, cls: spec_fn(T) -> bool, p: spec_fn(int, int) -> bool, bound: int)
    requires
        bound >= c.len(),
        runs_checked(c, cls, p, bound),
    ensures
        !some_run(c, cls, p),
{
}

} // verus!

verus! {

/// Texts with the same UTF-8 bytes are the same text.
pub proof fn lemma_utf8_injective(a: Seq<char>, b: Seq<char>)
    ensures
        utf8(a) == utf8(b) ==> a == b,
{
    if utf8(a) == utf8(b) {
        assert(decode_utf8(encode_utf8(a)) == a);
        assert(decode_utf8(encode_utf8(b)) == b);
    }
}

pub proof fn lemma_utf8_len(s: Seq<char>)
    ensures
        utf8(s).len() >= s.len(),
    decreases s.len(),
{
    if s.len() > 0 {
        lemma_utf8_len(s.drop_first());
    }
}

pub proof fn lemma_utf8_concat(a: Seq<char>, b: Seq<char>)
    ensures
        utf8(a + b) == utf8(a) + utf8(b),
    decreases a.len(),
{
    if a.len() == 0 {
        assert(a + b =~= b);
        assert(utf8(a) + utf8(b) =~= utf8(b));
    } else {
        lemma_utf8_concat(a.drop_first(), b);
        assert((a + b).drop_first() =~= a.drop_first() + b);
        assert(utf8(a + b) =~= utf8(a) + utf8(b));
    }
}

} // verus!

verus! {

/// The length of a string in UTF-8 bytes.
pub fn byte_len(s: &str) -> (n: usize)
    ensures
        n as int == utf8(s@).len(),
{
    s.as_bytes().len()
}

} // verus!
