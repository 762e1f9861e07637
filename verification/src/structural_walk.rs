//! Candidate tokens of the texts met in a structural walk: the pieces of a
//! text between non-token bytes, trimmed, kept when they look like numbers
//! or opaque identifiers, sorted and each once.
use vstd::prelude::*;
use crate::binding::BindingValueTypeV1;
use crate::text::{
    utf8, is_digit_byte, is_alnum_byte, is_upper_byte, is_lower_byte, digit_byte, alnum_byte, upper_byte,
    lower_byte, str_eq, is_whitespace_char, whitespace_char, chars_of, lemma_utf8_injective,
};
use crate::scan::{
    lex_lt, bytes_lt, lemma_lex_lt_total, lex_order, lemma_lex_order_total, strict_total_order, sorted_by,
    insert_ordered, sort_ordered, lemma_sort_ordered_sorted, lemma_sort_ordered_multiset,
};
use crate::digest::{is_sha256_text, string_from_utf8, lemma_ascii_valid_utf8, sha256_hex, hex_lower, sha256_spec};
use crate::json::{dec, write_u64, json_bool, write_str, json_identity, escape_bytes, joined};
use crate::binding::{
    BindingSourceEventClassV1, BindingCallLineageV1, BindingCapabilityClassV1, BindingCompletionStateV1,
    BindingRequestRelationV1,
};
use crate::structural_context::{
    StructuralExtractionBudgetV3, StructuralExtractionScopeV3, spec_excluded_root_key, StructuralContextV3,
    StructuralCandidateFeaturesV3, StructuralCandidateObservationV3, spec_capability_class,
    StructuralSourceRelationV3, StructuralRelationKindV3, StructuralExtractionV3, StructuralExtractionErrorV3,
    budget_ok,
};
use crate::protocol_mode::{
    value_type_rank, event_class_rank, lineage_rank, capability_rank, completion_rank, request_relation_rank,
    value_type_rank_exec, event_class_rank_exec, lineage_rank_exec, capability_rank_exec, completion_rank_exec,
    request_relation_rank_exec,
};

verus! {

/// Bytes that may stand inside a candidate token.
pub open spec fn is_token_byte(b: u8) -> bool {
    is_alnum_byte(b) || b == 0x2d || b == 0x5f || b == 0x2e || b == 0x3a || b == 0x2f
}

/// Bytes trimmed from both ends of a token: `:`, `/` and `.`.
pub open spec fn is_edge_byte(b: u8) -> bool {
    b == 0x3a || b == 0x2f || b == 0x2e
}

/// The pieces of a byte string between bytes that `keep` rejects, empty
/// pieces included.
pub open spec fn pieces(s: Seq<u8>, keep: spec_fn(u8) -> bool) -> Seq<Seq<u8>>
    decreases s.len(),
{
    if s.len() == 0 {
        seq![Seq::empty()]
    } else {
        let p = pieces(s.drop_last(), keep);
        if keep(s.last()) {
            p.update(p.len() - 1, p.last().push(s.last()))
        } else {
            p.push(Seq::empty())
        }
    }
}

proof fn lemma_pieces_nonempty(s: Seq<u8>, keep: spec_fn(u8) -> bool)
    ensures
        pieces(s, keep).len() >= 1,
    decreases s.len(),
{
    if s.len() > 0 {
        lemma_pieces_nonempty(s.drop_last(), keep);
    }
}

/// A byte string with its leading and trailing edge bytes removed.
pub open spec fn strip_front(t: Seq<u8>) -> Seq<u8>
    decreases t.len(),
{
    if t.len() > 0 && is_edge_byte(t[0]) { strip_front(t.drop_first()) } else { t }
}

pub open spec fn strip_back(t: Seq<u8>) -> Seq<u8>
    decreases t.len(),
{
    if t.len() > 0 && is_edge_byte(t.last()) { strip_back(t.drop_last()) } else { t }
}

pub open spec fn strip_edges(t: Seq<u8>) -> Seq<u8> {
    strip_back(strip_front(t))
}

/// The value of a string of decimal digits.
pub open spec fn digits_value(t: Seq<u8>) -> nat
    decreases t.len(),
{
    if t.len() == 0 { 0 } else { digits_value(t.drop_last()) * 10 + (t.last() - 0x30) as nat }
}

pub open spec fn all_digits(t: Seq<u8>) -> bool {
    forall|i: int| 0 <= i < t.len() ==> #[trigger] is_digit_byte(t[i])
}

/// Non-empty decimal digits whose value fits in a `u64` (what `u64::from_str` accepts of them).
pub open spec fn parses_u64(t: Seq<u8>) -> bool {
    t.len() > 0 && all_digits(t) && digits_value(t) <= u64::MAX
}

/// An opaque token: at least four bytes, with a digit or with both cases.
pub open spec fn is_opaque(t: Seq<u8>) -> bool {
    &&& t.len() >= 4
    &&& ((exists|i: int| 0 <= i < t.len() && #[trigger] is_digit_byte(t[i]))
        || ((exists|i: int| 0 <= i < t.len() && #[trigger] is_upper_byte(t[i]))
            && (exists|i: int| 0 <= i < t.len() && #[trigger] is_lower_byte(t[i]))))
    &&& forall|i: int| 0 <= i < t.len() ==> #[trigger] is_token_byte(t[i])
}

/// A long token joined by `-` or `_` in a structured text.
pub open spec fn is_structured_name(t: Seq<u8>, structured: bool) -> bool {
    structured && t.len() >= 12 && (t.contains(0x2d) || t.contains(0x5f))
}

/// The candidates of one trimmed token: an integer, or an identifier and a
/// string, or none.
pub open spec fn token_entries(t: Seq<u8>, structured: bool) -> Seq<(Seq<u8>, BindingValueTypeV1)> {
    if t.len() > 256 || t.len() < 2 {
        Seq::empty()
    } else if all_digits(t) {
        if parses_u64(t) { seq![(t, BindingValueTypeV1::Integer)] } else { Seq::empty() }
    } else if is_opaque(t) || is_structured_name(t, structured) {
        seq![(t, BindingValueTypeV1::Identifier), (t, BindingValueTypeV1::String)]
    } else {
        Seq::empty()
    }
}

/// The candidates of a list of pieces, in order.
pub open spec fn piece_entries(ps: Seq<Seq<u8>>, structured: bool) -> Seq<(Seq<u8>, BindingValueTypeV1)>
    decreases ps.len(),
{
    if ps.len() == 0 {
        Seq::empty()
    } else {
        piece_entries(ps.drop_last(), structured) + token_entries(strip_edges(ps.last()), structured)
    }
}

/// The order of candidates: by token bytes, then by value type.
pub open spec fn entry_lt(a: (Seq<u8>, BindingValueTypeV1), b: (Seq<u8>, BindingValueTypeV1)) -> bool {
    lex_lt(a.0, b.0) || (a.0 == b.0 && value_type_rank(a.1) < value_type_rank(b.1))
}

/// `x` put in place in a strictly increasing list, unless it is there already.
pub open spec fn insert_entry(s: Seq<(Seq<u8>, BindingValueTypeV1)>, x: (Seq<u8>, BindingValueTypeV1)) -> Seq<(Seq<u8>, BindingValueTypeV1)>
    decreases s.len(),
{
    if s.len() == 0 {
        seq![x]
    } else if entry_lt(s[0], x) {
        seq![s[0]] + insert_entry(s.subrange(1, s.len() as int), x)
    } else if s[0] == x {
        s
    } else {
        seq![x] + s
    }
}

/// The distinct candidates in increasing order.
pub open spec fn sorted_entries(s: Seq<(Seq<u8>, BindingValueTypeV1)>) -> Seq<(Seq<u8>, BindingValueTypeV1)>
    decreases s.len(),
{
    if s.len() == 0 {
        s
    } else {
        insert_entry(sorted_entries(s.drop_last()), s.last())
    }
}

/// The candidates inserted one by one, in order.
pub open spec fn insert_all(s: Seq<(Seq<u8>, BindingValueTypeV1)>, es: Seq<(Seq<u8>, BindingValueTypeV1)>) -> Seq<(Seq<u8>, BindingValueTypeV1)>
    decreases es.len(),
{
    if es.len() == 0 { s } else { insert_entry(insert_all(s, es.drop_last()), es.last()) }
}

proof fn lemma_sorted_entries_append(l: Seq<(Seq<u8>, BindingValueTypeV1)>, es: Seq<(Seq<u8>, BindingValueTypeV1)>)
    ensures
        sorted_entries(l + es) == insert_all(sorted_entries(l), es),
    decreases es.len(),
{
    if es.len() == 0 {
        assert(l + es =~= l);
    } else {
        lemma_sorted_entries_append(l, es.drop_last());
        assert((l + es).drop_last() =~= l + es.drop_last());
        assert((l + es).last() == es.last());
    }
}

/// Whether a text has structure: whitespace, or `{`, `[` or `:`.
pub open spec fn has_structure(text: Seq<char>) -> bool {
    (exists|i: int| 0 <= i < text.len() && #[trigger] is_whitespace_char(text[i]))
        || utf8(text).contains(0x7b) || utf8(text).contains(0x5b) || utf8(text).contains(0x3a)
}

/// The candidate tokens of a text, sorted and each once.
pub open spec fn text_tokens(text: Seq<char>) -> Seq<(Seq<u8>, BindingValueTypeV1)> {
    sorted_entries(piece_entries(pieces(utf8(text), |b: u8| is_token_byte(b)), has_structure(text)))
}

proof fn lemma_insert_entry_at(s: Seq<(Seq<u8>, BindingValueTypeV1)>, x: (Seq<u8>, BindingValueTypeV1), p: int)
    requires
        0 <= p <= s.len(),
        forall|k: int| 0 <= k < p ==> #[trigger] entry_lt(s[k], x),
        p == s.len() || !entry_lt(s[p], x),
    ensures
        p < s.len() && s[p] == x ==> insert_entry(s, x) == s,
        !(p < s.len() && s[p] == x) ==> insert_entry(s, x) == s.insert(p, x),
    decreases s.len(),
{
    if s.len() == 0 {
        assert(s.insert(p, x) =~= seq![x]);
    } else if p == 0 {
        if s[0] != x {
            assert(s.insert(0, x) =~= seq![x] + s);
        }
    } else {
        let t = s.subrange(1, s.len() as int);
        assert forall|k: int| 0 <= k < p - 1 implies #[trigger] entry_lt(t[k], x) by {
            assert(t[k] == s[k + 1]);
            assert(entry_lt(s[k + 1], x));
        }
        if p - 1 < t.len() {
            assert(t[p - 1] == s[p]);
        }
        lemma_insert_entry_at(t, x, p - 1);
        assert(s.insert(p, x) =~= seq![s[0]] + t.insert(p - 1, x));
        assert(s =~= seq![s[0]] + t);
        assert(entry_lt(s[0], x));
    }
}

fn entry_less(a: &(String, BindingValueTypeV1), b: &(Vec<u8>, BindingValueTypeV1)) -> (r: bool)
    ensures
        r == entry_lt((utf8(a.0@), a.1), (b.0@, b.1)),
{
    let ab = a.0.as_str().as_bytes();
    if bytes_lt(ab, b.0.as_slice()) {
        return true;
    }
    let same = crate::text::bytes_eq(ab, b.0.as_slice());
    same && crate::protocol_mode::value_type_rank_exec(a.1) < crate::protocol_mode::value_type_rank_exec(b.1)
}

/// The view of a candidate list: token bytes and value type.
pub open spec fn entry_views(v: Seq<(String, BindingValueTypeV1)>) -> Seq<(Seq<u8>, BindingValueTypeV1)> {
    v.map_values(|e: (String, BindingValueTypeV1)| (utf8(e.0@), e.1))
}

/// Puts a candidate in place in a sorted list, unless it is there already.
fn insert_entry_exec(out: &mut Vec<(String, BindingValueTypeV1)>, token: &Vec<u8>, value_type: BindingValueTypeV1)
    requires
        forall|i: int| 0 <= i < token@.len() ==> #[trigger] token@[i] < 0x80,
    ensures
        entry_views(final(out)@) == insert_entry(entry_views(old(out)@), (token@, value_type)),
{
    let ghost x = (token@, value_type);
    let ghost before = entry_views(out@);
    let key = (copy_bytes(token), value_type);
    let mut p: usize = 0;
    loop
        invariant
            p <= out@.len(),
            x == (token@, value_type),
            key.0@ == token@,
            key.1 == value_type,
            entry_views(out@) == before,
            forall|k: int| 0 <= k < p ==> #[trigger] entry_lt(before[k], x),
        ensures
            p <= out@.len(),
            forall|k: int| 0 <= k < p ==> #[trigger] entry_lt(before[k], x),
            p == out@.len() || !entry_lt(before[p as int], x),
        decreases out@.len() - p,
    {
        if p >= out.len() {
            break;
        }
        assert(before[p as int] == (utf8(out@[p as int].0@), out@[p as int].1));
        if !entry_less(&out[p], &key) {
            break;
        }
        p = p + 1;
    }
    if p < out.len() {
        assert(before[p as int] == (utf8(out@[p as int].0@), out@[p as int].1));
    }
    proof {
        lemma_insert_entry_at(before, x, p as int);
    }
    let same = p < out.len() && crate::text::bytes_eq(out[p].0.as_str().as_bytes(), token.as_slice())
        && out[p].1 == value_type;
    if !same {
        proof {
            lemma_ascii_valid_utf8(token@);
        }
        let s = string_from_utf8(copy_bytes(token));
        out.insert(p, (s, value_type));
        assert(entry_views(out@) =~= before.insert(p as int, x));
    }
}

fn copy_bytes(v: &Vec<u8>) -> (r: Vec<u8>)
    ensures
        r@ == v@,
{
    let mut out: Vec<u8> = Vec::new();
    let mut i: usize = 0;
    while i < v.len()
        invariant
            i <= v@.len(),
            out@ == v@.take(i as int),
        decreases v@.len() - i,
    {
        out.push(v[i]);
        assert(out@ =~= v@.take(i + 1));
        i = i + 1;
    }
    assert(out@ =~= v@);
    out
}

fn token_byte(b: u8) -> (r: bool)
    ensures
        r == is_token_byte(b),
{
    alnum_byte(b) || b == 0x2d || b == 0x5f || b == 0x2e || b == 0x3a || b == 0x2f
}

fn edge_byte(b: u8) -> (r: bool)
    ensures
        r == is_edge_byte(b),
{
    b == 0x3a || b == 0x2f || b == 0x2e
}

proof fn lemma_strip_front(s: Seq<u8>, lo: int, end: int)
    requires
        0 <= lo <= end <= s.len(),
        forall|k: int| 0 <= k < lo ==> #[trigger] is_edge_byte(s[k]),
        lo == end || !is_edge_byte(s[lo]),
    ensures
        strip_front(s.subrange(0, end)) == s.subrange(lo, end),
    decreases lo,
{
    if lo == 0 {
        if end > 0 {
            assert(s.subrange(0, end)[0] == s[0]);
        }
    } else {
        let t = s.subrange(1, s.len() as int);
        assert forall|k: int| 0 <= k < lo - 1 implies #[trigger] is_edge_byte(t[k]) by {
            assert(t[k] == s[k + 1]);
        }
        if lo < end {
            assert(t[lo - 1] == s[lo]);
        }
        lemma_strip_front(t, lo - 1, end - 1);
        assert(s.subrange(0, end).drop_first() =~= t.subrange(0, end - 1));
        assert(s.subrange(0, end)[0] == s[0]);
        assert(t.subrange(lo - 1, end - 1) =~= s.subrange(lo, end));
    }
}

proof fn lemma_strip_back(s: Seq<u8>, lo: int, hi: int, end: int)
    requires
        0 <= lo <= hi <= end <= s.len(),
        forall|k: int| hi <= k < end ==> #[trigger] is_edge_byte(s[k]),
        hi == lo || !is_edge_byte(s[hi - 1]),
    ensures
        strip_back(s.subrange(lo, end)) == s.subrange(lo, hi),
    decreases end - hi,
{
    let t = s.subrange(lo, end);
    if hi == end {
        if end > lo {
            assert(t.last() == s[end - 1]);
        }
    } else {
        assert(t.last() == s[end - 1]);
        assert(t.drop_last() =~= s.subrange(lo, end - 1));
        lemma_strip_back(s, lo, hi, end - 1);
    }
}

proof fn lemma_digits_value_grows(t: Seq<u8>, k: int)
    requires
        0 <= k <= t.len(),
        all_digits(t),
    ensures
        digits_value(t.take(k)) <= digits_value(t),
    decreases t.len() - k,
{
    if k < t.len() {
        lemma_digits_value_grows(t, k + 1);
        assert(t.take(k + 1).drop_last() =~= t.take(k));
        assert(is_digit_byte(t[k]));
    } else {
        assert(t.take(k) =~= t);
    }
}

/// Whether the digits fit in a `u64`.
fn digits_fit_u64(t: &[u8]) -> (r: bool)
    requires
        t@.len() > 0,
        all_digits(t@),
    ensures
        r == parses_u64(t@),
{
    let mut v: u64 = 0;
    let mut k: usize = 0;
    while k < t.len()
        invariant
            k <= t@.len(),
            all_digits(t@),
            v == digits_value(t@.take(k as int)),
        decreases t@.len() - k,
    {
        assert(is_digit_byte(t@[k as int]));
        assert(t@.take(k + 1).drop_last() =~= t@.take(k as int));
        let d = (t[k] - 0x30) as u64;
        match v.checked_mul(10) {
            Some(m) => match m.checked_add(d) {
                Some(n) => {
                    v = n;
                },
                None => {
                    proof {
                        lemma_digits_value_grows(t@, k + 1);
                    }
                    return false;
                },
            },
            None => {
                proof {
                    assert(digits_value(t@.take(k + 1)) >= v * 10);
                    lemma_digits_value_grows(t@, k + 1);
                }
                return false;
            },
        }
        k = k + 1;
    }
    assert(t@.take(k as int) =~= t@);
    true
}

fn any_digit(t: &[u8]) -> (r: bool)
    ensures
        r == exists|i: int| 0 <= i < t@.len() && #[trigger] is_digit_byte(t@[i]),
{
    let mut i: usize = 0;
    while i < t.len()
        invariant
            i <= t@.len(),
            forall|k: int| 0 <= k < i ==> !is_digit_byte(#[trigger] t@[k]),
        decreases t@.len() - i,
    {
        if digit_byte(t[i]) {
            return true;
        }
        i = i + 1;
    }
    false
}

fn any_upper(t: &[u8]) -> (r: bool)
    ensures
        r == exists|i: int| 0 <= i < t@.len() && #[trigger] is_upper_byte(t@[i]),
{
    let mut i: usize = 0;
    while i < t.len()
        invariant
            i <= t@.len(),
            forall|k: int| 0 <= k < i ==> !is_upper_byte(#[trigger] t@[k]),
        decreases t@.len() - i,
    {
        if upper_byte(t[i]) {
            return true;
        }
        i = i + 1;
    }
    false
}

fn any_lower(t: &[u8]) -> (r: bool)
    ensures
        r == exists|i: int| 0 <= i < t@.len() && #[trigger] is_lower_byte(t@[i]),
{
    let mut i: usize = 0;
    while i < t.len()
        invariant
            i <= t@.len(),
            forall|k: int| 0 <= k < i ==> !is_lower_byte(#[trigger] t@[k]),
        decreases t@.len() - i,
    {
        if lower_byte(t[i]) {
            return true;
        }
        i = i + 1;
    }
    false
}

fn all_digit_bytes(t: &[u8]) -> (r: bool)
    ensures
        r == all_digits(t@),
{
    let mut i: usize = 0;
    while i < t.len()
        invariant
            i <= t@.len(),
            forall|k: int| 0 <= k < i ==> #[trigger] is_digit_byte(t@[k]),
        decreases t@.len() - i,
    {
        if !digit_byte(t[i]) {
            return false;
        }
        i = i + 1;
    }
    true
}

fn all_token_bytes(t: &[u8]) -> (r: bool)
    ensures
        r == forall|i: int| 0 <= i < t@.len() ==> #[trigger] is_token_byte(t@[i]),
{
    let mut i: usize = 0;
    while i < t.len()
        invariant
            i <= t@.len(),
            forall|k: int| 0 <= k < i ==> #[trigger] is_token_byte(t@[k]),
        decreases t@.len() - i,
    {
        if !token_byte(t[i]) {
            return false;
        }
        i = i + 1;
    }
    true
}

fn has_byte(t: &[u8], b: u8) -> (r: bool)
    ensures
        r == t@.contains(b),
{
    let mut i: usize = 0;
    while i < t.len()
        invariant
            i <= t@.len(),
            forall|k: int| 0 <= k < i ==> t@[k] != b,
        decreases t@.len() - i,
    {
        if t[i] == b {
            return true;
        }
        i = i + 1;
    }
    false
}

fn subrange_bytes(b: &[u8], lo: usize, hi: usize) -> (r: Vec<u8>)
    requires
        lo <= hi <= b@.len(),
    ensures
        r@ == b@.subrange(lo as int, hi as int),
{
    let mut out: Vec<u8> = Vec::new();
    let mut i: usize = lo;
    while i < hi
        invariant
            lo <= i <= hi,
            hi <= b@.len(),
            out@ == b@.subrange(lo as int, i as int),
        decreases hi - i,
    {
        out.push(b[i]);
        assert(out@ =~= b@.subrange(lo as int, i + 1));
        i = i + 1;
    }
    out
}

/// Adds the candidates of the piece `b[start..end]`.
fn add_piece(out: &mut Vec<(String, BindingValueTypeV1)>, b: &[u8], start: usize, end: usize, structured: bool)
    requires
        start <= end <= b@.len(),
        forall|k: int| start <= k < end ==> #[trigger] is_token_byte(b@[k]),
    ensures
        entry_views(final(out)@) == insert_all(entry_views(old(out)@),
            token_entries(strip_edges(b@.subrange(start as int, end as int)), structured)),
{
    let mut lo = start;
    while lo < end && edge_byte(b[lo])
        invariant
            start <= lo <= end,
            end <= b@.len(),
            forall|k: int| start <= k < lo ==> #[trigger] is_edge_byte(b@[k]),
        decreases end - lo,
    {
        lo = lo + 1;
    }
    let mut hi = end;
    while hi > lo && edge_byte(b[hi - 1])
        invariant
            lo <= hi <= end,
            end <= b@.len(),
            forall|k: int| hi <= k < end ==> #[trigger] is_edge_byte(b@[k]),
        decreases hi - lo,
    {
        hi = hi - 1;
    }
    let ghost piece = b@.subrange(start as int, end as int);
    proof {
        assert forall|k: int| 0 <= k < lo - start implies #[trigger] is_edge_byte(piece[k]) by {
            assert(piece[k] == b@[start + k]);
        }
        if lo < end {
            assert(piece[lo - start] == b@[lo as int]);
        }
        lemma_strip_front(piece, lo - start, end - start);
        assert(piece.subrange(0, end - start) =~= piece);
        assert forall|k: int| hi - start <= k < end - start implies #[trigger] is_edge_byte(piece[k]) by {
            assert(piece[k] == b@[start + k]);
        }
        if hi > lo {
            assert(piece[hi - start - 1] == b@[hi - 1]);
        }
        lemma_strip_back(piece, lo - start, hi - start, end - start);
        assert(piece.subrange(lo - start, hi - start) =~= b@.subrange(lo as int, hi as int));
    }
    let ghost t = b@.subrange(lo as int, hi as int);
    assert(strip_edges(piece) == t);
    let ghost base = entry_views(out@);
    let len = hi - lo;
    if len > 256 || len < 2 {
        assert(token_entries(t, structured) =~= Seq::<(Seq<u8>, BindingValueTypeV1)>::empty());
        return;
    }
    let token = subrange_bytes(b, lo, hi);
    assert(forall|k: int| 0 <= k < token@.len() ==> #[trigger] token@[k] == b@[lo + k]);
    assert(forall|k: int| 0 <= k < token@.len() ==> #[trigger] is_token_byte(token@[k]));
    assert(forall|k: int| 0 <= k < token@.len() ==> #[trigger] token@[k] < 0x80) by {
        assert forall|k: int| 0 <= k < token@.len() implies #[trigger] token@[k] < 0x80 by {
            assert(is_token_byte(token@[k]));
        }
    }
    let ts = token.as_slice();
    if all_digit_bytes(ts) {
        if digits_fit_u64(ts) {
            insert_entry_exec(out, &token, BindingValueTypeV1::Integer);
            assert(token_entries(t, structured) =~= seq![(t, BindingValueTypeV1::Integer)]);
            assert(token_entries(t, structured).drop_last() =~= Seq::<(Seq<u8>, BindingValueTypeV1)>::empty());
            assert(insert_all(base, token_entries(t, structured).drop_last()) == base);
            assert(insert_all(base, token_entries(t, structured))
                == insert_entry(base, (t, BindingValueTypeV1::Integer)));
        } else {
            assert(token_entries(t, structured) =~= Seq::<(Seq<u8>, BindingValueTypeV1)>::empty());
        }
        return;
    }
    let opaque = len >= 4 && (any_digit(ts) || (any_upper(ts) && any_lower(ts))) && all_token_bytes(ts);
    let named = structured && len >= 12 && (has_byte(ts, 0x2d) || has_byte(ts, 0x5f));
    if opaque || named {
        insert_entry_exec(out, &token, BindingValueTypeV1::Identifier);
        insert_entry_exec(out, &token, BindingValueTypeV1::String);
        let ghost es = token_entries(t, structured);
        assert(es =~= seq![(t, BindingValueTypeV1::Identifier), (t, BindingValueTypeV1::String)]);
        assert(es.drop_last() =~= seq![(t, BindingValueTypeV1::Identifier)]);
        assert(es.drop_last().drop_last() =~= Seq::<(Seq<u8>, BindingValueTypeV1)>::empty());
        assert(insert_all(base, es.drop_last().drop_last()) == base);
        assert(insert_all(base, es.drop_last()) == insert_entry(base, (t, BindingValueTypeV1::Identifier)));
        assert(insert_all(base, es) == insert_entry(insert_entry(base, (t, BindingValueTypeV1::Identifier)),
            (t, BindingValueTypeV1::String)));
    } else {
        assert(token_entries(t, structured) =~= Seq::<(Seq<u8>, BindingValueTypeV1)>::empty());
    }
}

fn has_structure_exec(text: &str) -> (r: bool)
    ensures
        r == has_structure(text@),
{
    let cs = chars_of(text);
    let mut ws = false;
    let mut i: usize = 0;
    while i < cs.len()
        invariant
            i <= cs@.len(),
            cs@ == text@,
            ws == exists|k: int| 0 <= k < i && #[trigger] is_whitespace_char(text@[k]),
        decreases cs@.len() - i,
    {
        if whitespace_char(cs[i]) {
            ws = true;
        }
        i = i + 1;
    }
    let b = text.as_bytes();
    ws || has_byte(b, 0x7b) || has_byte(b, 0x5b) || has_byte(b, 0x3a)
}

/// The candidate tokens of a text, sorted by bytes then value type, each once.
pub fn tokenize_candidate_text(text: &str) -> (r: Vec<(String, BindingValueTypeV1)>)
    ensures
        entry_views(r@) == text_tokens(text@),
{
    let structured = has_structure_exec(text);
    let b = text.as_bytes();
    let ghost keep = |x: u8| is_token_byte(x);
    let mut out: Vec<(String, BindingValueTypeV1)> = Vec::new();
    let ghost mut closed: Seq<Seq<u8>> = Seq::empty();
    let mut start: usize = 0;
    let mut i: usize = 0;
    assert(pieces(b@.take(0), keep) =~~= closed.push(b@.subrange(0, 0)));
    while i < b.len()
        invariant
            keep == (|x: u8| is_token_byte(x)),
            start <= i <= b@.len(),
            pieces(b@.take(i as int), keep) == closed.push(b@.subrange(start as int, i as int)),
            forall|k: int| start <= k < i ==> #[trigger] is_token_byte(b@[k]),
            entry_views(out@) == sorted_entries(piece_entries(closed, structured)),
        decreases b@.len() - i,
    {
        let ghost prev = pieces(b@.take(i as int), keep);
        assert(b@.take(i + 1).drop_last() =~= b@.take(i as int));
        assert(b@.take(i + 1).last() == b@[i as int]);
        if token_byte(b[i]) {
            assert(b@.subrange(start as int, i as int).push(b@[i as int]) =~= b@.subrange(start as int, i + 1));
            assert(prev.update(prev.len() - 1, prev.last().push(b@[i as int]))
                =~~= closed.push(b@.subrange(start as int, i + 1)));
            i = i + 1;
        } else {
            let ghost piece = b@.subrange(start as int, i as int);
            add_piece(&mut out, b, start, i, structured);
            proof {
                lemma_sorted_entries_append(piece_entries(closed, structured),
                    token_entries(strip_edges(piece), structured));
                assert(closed.push(piece).drop_last() =~= closed);
                closed = closed.push(piece);
                assert(prev.push(Seq::<u8>::empty()) =~~= closed.push(b@.subrange(i + 1, i + 1)));
            }
            i = i + 1;
            start = i;
        }
    }
    let ghost piece = b@.subrange(start as int, i as int);
    add_piece(&mut out, b, start, i, structured);
    proof {
        lemma_sorted_entries_append(piece_entries(closed, structured), token_entries(strip_edges(piece), structured));
        assert(closed.push(piece).drop_last() =~= closed);
        assert(b@.take(b@.len() as int) =~= b@);
    }
    out
}

// ---------------------------------------------------------------- the walk's state

/// An event of the walk: its key, the digests of its short anchor texts,
/// and, once its item is walked, its class and topology root.
#[verifier::ext_equal]
pub struct EventModel {
    pub key: u32,
    pub anchors: Seq<Seq<u8>>,
    pub event_class: Option<BindingSourceEventClassV1>,
    pub topology: Option<Seq<u8>>,
}

/// A raw candidate: its text, the digest of its canonical JSON, its value
/// type, its event (0 for none) and its temporal distance.
#[verifier::ext_equal]
pub struct RawModel {
    pub normalized: Seq<u8>,
    pub value_sha256: Seq<u8>,
    pub value_type: BindingValueTypeV1,
    pub event_key: u32,
    pub temporal_distance: u16,
}

/// The state of a walk.
#[verifier::ext_equal]
pub struct WalkModel {
    pub json_nodes: usize,
    pub text_bytes: usize,
    pub next_event_key: u32,
    pub raw: Seq<RawModel>,
    pub events: Seq<EventModel>,
    pub stopped: bool,
}

pub struct RawCandidate {
    pub normalized: String,
    pub value_sha256: String,
    pub value_type: BindingValueTypeV1,
    pub event_key: u32,
    pub temporal_distance: u16,
}

pub struct EventEvidence {
    pub key: u32,
    pub anchors: Vec<String>,
    pub event_class: Option<BindingSourceEventClassV1>,
    pub topology: Option<String>,
}

pub open spec fn raw_model(r: RawCandidate) -> RawModel {
    RawModel {
        normalized: utf8(r.normalized@),
        value_sha256: utf8(r.value_sha256@),
        value_type: r.value_type,
        event_key: r.event_key,
        temporal_distance: r.temporal_distance,
    }
}

pub open spec fn event_model(e: EventEvidence) -> EventModel {
    EventModel {
        key: e.key,
        anchors: e.anchors@.map_values(|a: String| utf8(a@)),
        event_class: e.event_class,
        topology: match e.topology { Some(t) => Some(utf8(t@)), None => None },
    }
}

// ---------------------------------------------------------------- raw candidates

/// `u64::from_str`: an optional `+`, then decimal digits whose value fits.
pub open spec fn u64_text(t: Seq<u8>) -> bool {
    let d = if t.len() > 0 && t[0] == 0x2b { t.drop_first() } else { t };
    parses_u64(d)
}

pub open spec fn u64_text_value(t: Seq<u8>) -> nat {
    let d = if t.len() > 0 && t[0] == 0x2b { t.drop_first() } else { t };
    digits_value(d)
}

/// The canonical JSON of a candidate value of a type, when its text parses.
pub open spec fn raw_value_json(token: Seq<u8>, value_type: BindingValueTypeV1) -> Option<Seq<u8>> {
    match value_type {
        BindingValueTypeV1::Integer =>
            if u64_text(token) { Some(dec(u64_text_value(token))) } else { None },
        BindingValueTypeV1::Boolean =>
            if token == utf8("true"@) {
                Some(json_bool(true))
            } else if token == utf8("false"@) {
                Some(json_bool(false))
            } else {
                None
            },
        _ => Some(seq![0x22u8] + escape_bytes(token) + seq![0x22u8]),
    }
}

/// The candidate budget: eight raw candidates per role candidate.
pub open spec fn raw_limit(max_role_candidates: usize) -> int {
    if max_role_candidates * 8 > usize::MAX { usize::MAX as int } else { max_role_candidates * 8 }
}

/// Adding a raw candidate: past the budget the walk stops; a text that does
/// not parse as its type adds nothing.
pub open spec fn add_raw(m: WalkModel, token: Seq<u8>, value_type: BindingValueTypeV1, event: Option<(u32, u16)>, max_role_candidates: usize) -> WalkModel {
    if m.raw.len() >= raw_limit(max_role_candidates) {
        WalkModel { stopped: true, ..m }
    } else {
        match raw_value_json(token, value_type) {
            None => m,
            Some(j) => WalkModel {
                raw: m.raw.push(RawModel {
                    normalized: token,
                    value_sha256: json_identity(j),
                    value_type,
                    event_key: match event { Some(e) => e.0, None => 0 },
                    temporal_distance: match event { Some(e) => e.1, None => 0xffff },
                }),
                ..m
            },
        }
    }
}

/// The value of a `u64` text, when it parses.
pub(crate) fn parse_u64_text(t: &[u8]) -> (r: Option<u64>)
    ensures
        r is Some <==> u64_text(t@),
        r matches Some(v) ==> v == u64_text_value(t@),
{
    let mut k: usize = 0;
    if t.len() > 0 && t[0] == 0x2b {
        k = 1;
    }
    let ghost d = if t@.len() > 0 && t@[0] == 0x2b { t@.drop_first() } else { t@ };
    assert(d =~= t@.subrange(k as int, t@.len() as int));
    if k >= t.len() {
        return None;
    }
    let mut v: u64 = 0;
    let start = k;
    while k < t.len()
        invariant
            start <= k <= t@.len(),
            start < t@.len(),
            d == t@.subrange(start as int, t@.len() as int),
            d == (if t@.len() > 0 && t@[0] == 0x2b { t@.drop_first() } else { t@ }),
            v == digits_value(d.take(k - start)),
            forall|j: int| 0 <= j < k - start ==> #[trigger] is_digit_byte(d[j]),
        decreases t@.len() - k,
    {
        assert(d[k - start] == t@[k as int]);
        if !digit_byte(t[k]) {
            assert(!all_digits(d));
            return None;
        }
        assert(d.take(k - start + 1).drop_last() =~= d.take(k - start));
        assert(d.take(k - start + 1).last() == t@[k as int]);
        assert(is_digit_byte(d[k - start]));
        let digit = (t[k] - 0x30) as u64;
        assert(digits_value(d.take(k - start + 1)) == v * 10 + digit);
        match v.checked_mul(10) {
            Some(m) => match m.checked_add(digit) {
                Some(n) => {
                    v = n;
                },
                None => {
                    proof {
                        lemma_digits_all_then_grows(d, k - start + 1);
                    }
                    return None;
                },
            },
            None => {
                proof {
                    assert(digits_value(d.take(k - start + 1)) >= v * 10);
                    lemma_digits_all_then_grows(d, k - start + 1);
                }
                return None;
            },
        }
        k = k + 1;
    }
    assert(d.take(k - start) =~= d);
    Some(v)
}

/// When a text's value does not fit, either some byte is not a digit or
/// the whole value does not fit either.
proof fn lemma_digits_all_then_grows(d: Seq<u8>, k: int)
    requires
        0 <= k <= d.len(),
        forall|j: int| 0 <= j < k ==> #[trigger] is_digit_byte(d[j]),
    ensures
        all_digits(d) ==> digits_value(d.take(k)) <= digits_value(d),
{
    if all_digits(d) {
        lemma_digits_value_grows(d, k);
    }
}

/// The canonical JSON of a candidate value, when its text parses.
fn raw_value_json_exec(token: &str, value_type: BindingValueTypeV1) -> (r: Option<Vec<u8>>)
    ensures
        r matches Some(j) ==> raw_value_json(utf8(token@), value_type) == Some(j@),
        r is None ==> raw_value_json(utf8(token@), value_type) is None,
{
    match value_type {
        BindingValueTypeV1::Integer => {
            match parse_u64_text(token.as_bytes()) {
                Some(v) => {
                    let mut out: Vec<u8> = Vec::new();
                    write_u64(&mut out, v);
                    assert(out@ =~= dec(v as nat));
                    Some(out)
                },
                None => None,
            }
        },
        BindingValueTypeV1::Boolean => {
            proof {
                lemma_utf8_injective(token@, "true"@);
                lemma_utf8_injective(token@, "false"@);
            }
            if str_eq(token, "true") {
                let mut out: Vec<u8> = Vec::new();
                crate::json::write_raw(&mut out, "true");
                assert(out@ =~= json_bool(true));
                Some(out)
            } else if str_eq(token, "false") {
                let mut out: Vec<u8> = Vec::new();
                crate::json::write_raw(&mut out, "false");
                assert(out@ =~= json_bool(false));
                Some(out)
            } else {
                None
            }
        },
        _ => {
            let mut out: Vec<u8> = Vec::new();
            write_str(&mut out, token);
            assert(out@ =~= seq![0x22u8] + escape_bytes(utf8(token@)) + seq![0x22u8]);
            Some(out)
        },
    }
}

/// The state of a walk.
pub struct WalkState {
    pub json_nodes_visited: usize,
    pub text_bytes_visited: usize,
    pub next_event_key: u32,
    pub raw: Vec<RawCandidate>,
    pub events: Vec<EventEvidence>,
    pub stopped: bool,
}

pub open spec fn walk_model(w: WalkState) -> WalkModel {
    WalkModel {
        json_nodes: w.json_nodes_visited,
        text_bytes: w.text_bytes_visited,
        next_event_key: w.next_event_key,
        raw: w.raw@.map_values(|r: RawCandidate| raw_model(r)),
        events: w.events@.map_values(|e: EventEvidence| event_model(e)),
        stopped: w.stopped,
    }
}

fn add_raw_candidate(
    w: &mut WalkState,
    token: &str,
    value_type: BindingValueTypeV1,
    event: Option<(u32, u16)>,
    max_role_candidates: usize,
)
    ensures
        walk_model(*final(w)) == add_raw(walk_model(*old(w)), utf8(token@), value_type, event, max_role_candidates),
{
    let limit: usize = match max_role_candidates.checked_mul(8) {
        Some(l) => l,
        None => usize::MAX,
    };
    if w.raw.len() >= limit {
        w.stopped = true;
        assert(walk_model(*w).raw =~= walk_model(*old(w)).raw);
        assert(walk_model(*w).events =~= walk_model(*old(w)).events);
        return;
    }
    let json = match raw_value_json_exec(token, value_type) {
        Some(j) => j,
        None => {
            return;
        },
    };
    let value_sha256 = sha256_hex(json.as_slice());
    let event_key = match event { Some(e) => e.0, None => 0 };
    let temporal_distance = match event { Some(e) => e.1, None => 0xffff };
    w.raw.push(RawCandidate {
        normalized: token.to_owned(),
        value_sha256,
        value_type,
        event_key,
        temporal_distance,
    });
    assert(walk_model(*w).raw =~= add_raw(walk_model(*old(w)), utf8(token@), value_type, event, max_role_candidates).raw);
    assert(walk_model(*w).events =~= walk_model(*old(w)).events);
}

// ---------------------------------------------------------------- events and anchors

pub open spec fn strip_ws_front(s: Seq<char>) -> Seq<char>
    decreases s.len(),
{
    if s.len() > 0 && is_whitespace_char(s[0]) { strip_ws_front(s.drop_first()) } else { s }
}

pub open spec fn strip_ws_back(s: Seq<char>) -> Seq<char>
    decreases s.len(),
{
    if s.len() > 0 && is_whitespace_char(s.last()) { strip_ws_back(s.drop_last()) } else { s }
}

/// A text without its leading and trailing whitespace.
pub open spec fn trim_ws(s: Seq<char>) -> Seq<char> {
    strip_ws_back(strip_ws_front(s))
}

/// The text without its leading and trailing whitespace, as `str::trim`
/// gives it.
fn trim_text(s: &str) -> (r: &str)
    ensures
        r@ == trim_ws(s@),
{
    let n = s.unicode_len();
    assert(s@.subrange(0, n as int) =~= s@);
    let mut a: usize = 0;
    while a < n && whitespace_char(s.get_char(a))
        invariant
            n == s@.len(),
            a <= n,
            strip_ws_front(s@) == strip_ws_front(s@.subrange(a as int, n as int)),
        decreases n - a,
    {
        assert(s@.subrange(a as int, n as int).drop_first() =~= s@.subrange(a + 1, n as int));
        a = a + 1;
    }
    let ghost front = s@.subrange(a as int, n as int);
    assert(strip_ws_front(s@) == front);
    let mut b: usize = n;
    assert(s@.subrange(a as int, b as int) == front);
    while b > a && whitespace_char(s.get_char(b - 1))
        invariant
            n == s@.len(),
            a <= b <= n,
            front == s@.subrange(a as int, n as int),
            strip_ws_back(front) == strip_ws_back(s@.subrange(a as int, b as int)),
        decreases b - a,
    {
        assert(s@.subrange(a as int, b as int).drop_last() =~= s@.subrange(a as int, b - 1));
        b = b - 1;
    }
    s.substring_char(a, b)
}

/// The anchor of a text: the trimmed text, when it is one short word.
pub open spec fn anchor_text(text: Seq<char>) -> Option<Seq<char>> {
    let t = trim_ws(text);
    if t.len() == 0 || utf8(t).len() > 128 || (exists|i: int| 0 <= i < t.len() && #[trigger] is_whitespace_char(t[i])) {
        None
    } else {
        Some(t)
    }
}

/// The position of an event key, or the number of events when absent.
pub open spec fn event_index(es: Seq<EventModel>, key: u32) -> int
    decreases es.len(),
{
    if es.len() == 0 {
        0
    } else {
        let i = event_index(es.drop_last(), key);
        if i < es.len() - 1 { i } else if es.last().key == key { es.len() - 1 } else { es.len() as int }
    }
}

/// The events with an entry for the key (a new, empty one when absent).
pub open spec fn ensure_event(es: Seq<EventModel>, key: u32) -> Seq<EventModel> {
    if event_index(es, key) < es.len() {
        es
    } else {
        es.push(EventModel { key, anchors: Seq::empty(), event_class: None, topology: None })
    }
}

/// Recording an anchor: the digest of a one-word text joins its event's anchors.
pub open spec fn record_anchor(m: WalkModel, text: Seq<char>, event: Option<(u32, u16)>) -> WalkModel {
    match event {
        None => m,
        Some(e) => match anchor_text(text) {
            None => m,
            Some(t) => {
                let es = ensure_event(m.events, e.0);
                let i = event_index(es, e.0);
                let a = hex_lower(sha256_spec(utf8(t)));
                let ev = es[i];
                WalkModel {
                    events: es.update(i, EventModel {
                        anchors: if ev.anchors.contains(a) { ev.anchors } else { ev.anchors.push(a) },
                        ..ev
                    }),
                    ..m
                }
            },
        },
    }
}

proof fn lemma_event_index(es: Seq<EventModel>, key: u32)
    ensures
        0 <= event_index(es, key) <= es.len(),
        event_index(es, key) < es.len() ==> es[event_index(es, key)].key == key,
        event_index(es, key) == es.len() ==> forall|j: int| 0 <= j < es.len() ==> (#[trigger] es[j]).key != key,
        forall|j: int| 0 <= j < event_index(es, key) ==> (#[trigger] es[j]).key != key,
    decreases es.len(),
{
    if es.len() > 0 {
        lemma_event_index(es.drop_last(), key);
        let p = es.drop_last();
        assert forall|j: int| 0 <= j < p.len() implies p[j] == es[j] by {}
    }
}

fn find_event(events: &Vec<EventEvidence>, key: u32) -> (r: usize)
    ensures
        r as int == event_index(events@.map_values(|e: EventEvidence| event_model(e)), key),
{
    let ghost es = events@.map_values(|e: EventEvidence| event_model(e));
    proof {
        lemma_event_index(es, key);
    }
    let mut i: usize = 0;
    while i < events.len()
        invariant
            i <= events@.len(),
            es == events@.map_values(|e: EventEvidence| event_model(e)),
            0 <= event_index(es, key) <= es.len(),
            event_index(es, key) < es.len() ==> es[event_index(es, key)].key == key,
            forall|j: int| 0 <= j < event_index(es, key) ==> (#[trigger] es[j]).key != key,
            event_index(es, key) == es.len() ==> forall|j: int| 0 <= j < es.len() ==> (#[trigger] es[j]).key != key,
            forall|j: int| 0 <= j < i ==> (#[trigger] es[j]).key != key,
        decreases events@.len() - i,
    {
        assert(es[i as int].key == events@[i as int].key);
        if events[i].key == key {
            return i;
        }
        i = i + 1;
    }
    i
}

/// The position of the event with the key, adding an empty one when absent.
fn ensure_event_exec(w: &mut WalkState, key: u32) -> (r: usize)
    ensures
        walk_model(*final(w)) == (WalkModel { events: ensure_event(walk_model(*old(w)).events, key), ..walk_model(*old(w)) }),
        r as int == event_index(ensure_event(walk_model(*old(w)).events, key), key),
        r < final(w).events@.len(),
{
    let ghost es = walk_model(*w).events;
    proof {
        lemma_event_index(es, key);
    }
    let i = find_event(&w.events, key);
    if i == w.events.len() {
        w.events.push(EventEvidence { key, anchors: Vec::new(), event_class: None, topology: None });
        proof {
            let es2 = ensure_event(es, key);
            assert(walk_model(*w).events =~~= es2);
            assert(es2.drop_last() =~= es);
            assert(event_index(es2, key) == es.len());
            assert(walk_model(*w).raw =~= walk_model(*old(w)).raw);
        }
    } else {
        assert(walk_model(*w).events =~= ensure_event(es, key));
    }
    i
}

fn contains_string(v: &Vec<String>, x: &str) -> (r: bool)
    ensures
        r == v@.map_values(|a: String| utf8(a@)).contains(utf8(x@)),
{
    let ghost vs = v@.map_values(|a: String| utf8(a@));
    let mut i: usize = 0;
    while i < v.len()
        invariant
            i <= v@.len(),
            vs == v@.map_values(|a: String| utf8(a@)),
            forall|k: int| 0 <= k < i ==> #[trigger] vs[k] != utf8(x@),
        decreases v@.len() - i,
    {
        if str_eq(v[i].as_str(), x) {
            assert(vs[i as int] == utf8(x@));
            return true;
        }
        proof {
            lemma_utf8_injective(v@[i as int]@, x@);
        }
        i = i + 1;
    }
    false
}

fn any_whitespace(t: &str) -> (r: bool)
    ensures
        r == exists|i: int| 0 <= i < t@.len() && #[trigger] is_whitespace_char(t@[i]),
{
    let cs = chars_of(t);
    let mut i: usize = 0;
    while i < cs.len()
        invariant
            i <= cs@.len(),
            cs@ == t@,
            forall|k: int| 0 <= k < i ==> !is_whitespace_char(#[trigger] t@[k]),
        decreases cs@.len() - i,
    {
        if whitespace_char(cs[i]) {
            return true;
        }
        i = i + 1;
    }
    false
}

fn record_anchor_exec(w: &mut WalkState, text: &str, event: Option<(u32, u16)>)
    ensures
        walk_model(*final(w)) == record_anchor(walk_model(*old(w)), text@, event),
{
    let e = match event {
        Some(e) => e,
        None => {
            return;
        },
    };
    let trimmed = trim_text(text);
    let tb = trimmed.as_bytes();
    let tlen = tb.len();
    assert(tlen == utf8(trimmed@).len());
    if tlen == 0 || tlen > 128 || any_whitespace(trimmed) {
        proof {
            crate::text::lemma_utf8_len(trimmed@);
        }
        return;
    }
    let a = sha256_hex(tb);
    let ghost m0 = walk_model(*w);
    let i = ensure_event_exec(w, e.0);
    let ghost es = ensure_event(m0.events, e.0);
    let ghost old_ev = es[i as int];
    assert(walk_model(*w).events == es);
    assert(event_model(w.events@[i as int]) == old_ev);
    let ghost before_vec = w.events@;
    let ghost av = utf8(a@);
    assert(av == hex_lower(sha256_spec(utf8(trim_ws(text@)))));
    let mut ev = w.events.remove(i);
    assert(event_model(ev) == old_ev);
    let present = contains_string(&ev.anchors, a.as_str());
    if !present {
        ev.anchors.push(a);
        assert(event_model(ev).anchors =~= old_ev.anchors.push(av));
    }
    let ghost new_ev = EventModel {
        anchors: if old_ev.anchors.contains(av) { old_ev.anchors } else { old_ev.anchors.push(av) },
        ..old_ev
    };
    assert(event_model(ev) == new_ev);
    w.events.insert(i, ev);
    proof {
        assert(w.events@ =~= before_vec.update(i as int, ev));
        assert(walk_model(*w).events =~= es.update(i as int, new_ev));
        assert(trim_ws(text@) == trimmed@);
        assert(trimmed@.len() != 0) by {
            if trimmed@.len() == 0 {
                assert(utf8(trimmed@) =~= Seq::<u8>::empty());
            }
        }
        assert(anchor_text(text@) == Some(trim_ws(text@)));
        let target = record_anchor(m0, text@, event);
        assert(walk_model(*w).events == target.events);
        assert(walk_model(*w).raw =~= target.raw);
    }
}

// ---------------------------------------------------------------- JSON values

/// A JSON number: its text as written by the JSON library, and whether it is
/// an integer that fits in `i64` or `u64`.
#[derive(Debug, PartialEq, Eq)]
pub struct JsonNumber {
    pub text: String,
    pub integer: bool,
}

/// A JSON string.
#[derive(Debug, PartialEq, Eq)]
pub struct JsonText {
    pub text: String,
}

#[derive(Debug, PartialEq, Eq)]
pub struct JsonMember {
    pub key: String,
    pub value: JsonValue,
}

/// A JSON value; object members in the order of the map that held them.
#[derive(Debug, PartialEq, Eq)]
pub enum JsonValue {
    Null,
    Bool(bool),
    Number(JsonNumber),
    String(JsonText),
    Array(Vec<JsonValue>),
    Object(Vec<JsonMember>),
}

/// The weight of a JSON value: one for each value, plus the characters of
/// each string. A value parsed from a text weighs no more than the text
/// has characters.
pub open spec fn json_weight(v: JsonValue) -> nat
    decreases v,
{
    match v {
        JsonValue::Object(ms) => {
            proof {
                assert(decreases_to!(v => ms));
                assert(decreases_to!(ms => ms@));
            }
            1 + members_weight(ms@)
        },
        JsonValue::Array(items) => {
            proof {
                assert(decreases_to!(v => items));
                assert(decreases_to!(items => items@));
            }
            1 + items_weight(items@)
        },
        JsonValue::String(t) => 1 + t.text@.len(),
        _ => 1,
    }
}

/// The weight of the values of a sequence of members.
pub open spec fn members_weight(ms: Seq<JsonMember>) -> nat
    decreases ms,
{
    if ms.len() == 0 {
        0
    } else {
        proof {
            assert(decreases_to!(ms => ms[0]));
            assert(decreases_to!(ms[0] => ms[0].value));
            assert(ms.drop_first() == ms.subrange(1, ms.len() as int));
            assert(decreases_to!(ms => ms.subrange(1, ms.len() as int)));
        }
        json_weight(ms[0].value) + members_weight(ms.drop_first())
    }
}

/// The weight of a sequence of values.
pub open spec fn items_weight(items: Seq<JsonValue>) -> nat
    decreases items,
{
    if items.len() == 0 {
        0
    } else {
        proof {
            assert(decreases_to!(items => items[0]));
            assert(items.drop_first() == items.subrange(1, items.len() as int));
            assert(decreases_to!(items => items.subrange(1, items.len() as int)));
        }
        json_weight(items[0]) + items_weight(items.drop_first())
    }
}

/// The weight of the members from `i` on.
pub open spec fn members_from(ms: Seq<JsonMember>, i: int) -> nat {
    if 0 <= i <= ms.len() { members_weight(ms.subrange(i, ms.len() as int)) } else { 0 }
}

/// The weight of the items from `i` on.
pub open spec fn items_from(items: Seq<JsonValue>, i: int) -> nat {
    if 0 <= i <= items.len() { items_weight(items.subrange(i, items.len() as int)) } else { 0 }
}

/// What `serde_json::from_str::<serde_json::Value>` gives for a text, as
/// the kernel's JSON model (`None` when the text is not JSON).
pub uninterp spec fn json_text_value(text: Seq<char>) -> Option<JsonValue>;

/// Calls `serde_json::from_str::<serde_json::Value>` on the text and gives
/// the value it parses to in the kernel's JSON model, or `None` when it
/// returns an error. The contract claims that the result is a function of
/// the text, and that the value weighs no more than the text has
/// characters: in JSON text every value takes at least one character and
/// every string its characters and two quotes. The JSON grammar itself is
/// not stated.
#[verifier::external_body]
pub fn parse_json_text(text: &str) -> (r: Option<JsonValue>)
    ensures
        r == json_text_value(text@),
        r matches Some(e) ==> json_weight(e) <= text@.len(),
{
    serde_json::from_str::<serde_json::Value>(text).ok().map(|value| json_value_of(&value))
}

/// The kernel's JSON model of a `serde_json::Value`, one for one: numbers
/// keep the text serde_json writes for them, object members the map's order.
#[verifier::external_body]
fn json_value_of(value: &serde_json::Value) -> JsonValue {
    match value {
        serde_json::Value::Null => JsonValue::Null,
        serde_json::Value::Bool(b) => JsonValue::Bool(*b),
        serde_json::Value::Number(n) => JsonValue::Number(JsonNumber { text: n.to_string(), integer: n.is_i64() || n.is_u64() }),
        serde_json::Value::String(text) => JsonValue::String(JsonText { text: text.clone() }),
        serde_json::Value::Array(items) => JsonValue::Array(items.iter().map(json_value_of).collect()),
        serde_json::Value::Object(members) => JsonValue::Object(
            members.iter().map(|(key, value)| JsonMember { key: key.clone(), value: json_value_of(value) }).collect(),
        ),
    }
}

/// `serde_json::Value`, carried through unopened.
#[verifier::external_type_specification]
#[verifier::external_body]
pub struct ExSerdeJsonValue(serde_json::Value);

// ---------------------------------------------------------------- node summaries

#[derive(Clone, Copy)]
pub struct ShapeStats {
    pub strings: usize,
    pub structured: usize,
    pub scalars: usize,
}

pub open spec fn sat_add(a: usize, b: usize) -> usize {
    if a + b > usize::MAX { usize::MAX } else { (a + b) as usize }
}

pub open spec fn merge_stats(a: ShapeStats, b: ShapeStats) -> ShapeStats {
    ShapeStats {
        strings: sat_add(a.strings, b.strings),
        structured: sat_add(a.structured, b.structured),
        scalars: sat_add(a.scalars, b.scalars),
    }
}

pub open spec fn zero_stats() -> ShapeStats {
    ShapeStats { strings: 0, structured: 0, scalars: 0 }
}

/// The class of an event by its shape: text, structure, both, scalars or unknown.
pub open spec fn event_class(s: ShapeStats) -> BindingSourceEventClassV1 {
    let text = s.strings > 0;
    let nested = s.structured > 1;
    let scalar = s.scalars > s.strings;
    if text && !nested && !scalar {
        BindingSourceEventClassV1::Textual
    } else if !text && nested {
        BindingSourceEventClassV1::Structured
    } else if text && nested {
        BindingSourceEventClassV1::Mixed
    } else if !text && !nested && scalar {
        BindingSourceEventClassV1::Scalar
    } else {
        BindingSourceEventClassV1::Unknown
    }
}

/// A walked node: its shape text, its counts, and its counts with a
/// leading single child looked through.
pub struct NodeModel {
    pub shape: Seq<u8>,
    pub stats: ShapeStats,
    pub collapsed: ShapeStats,
}

pub open spec fn stopped_node() -> NodeModel {
    NodeModel { shape: utf8("budget_exhausted"@), stats: zero_stats(), collapsed: zero_stats() }
}

/// `x` inserted before the first shape that does not sort below it.
pub open spec fn insert_shape(s: Seq<Seq<u8>>, x: Seq<u8>) -> Seq<Seq<u8>>
    decreases s.len(),
{
    if s.len() == 0 {
        seq![x]
    } else if lex_lt(s[0], x) {
        seq![s[0]] + insert_shape(s.subrange(1, s.len() as int), x)
    } else {
        seq![x] + s
    }
}

/// The shapes in byte order.
pub open spec fn sort_shapes(s: Seq<Seq<u8>>) -> Seq<Seq<u8>>
    decreases s.len(),
{
    if s.len() == 0 { s } else { insert_shape(sort_shapes(s.drop_last()), s.last()) }
}

/// Drops each shape equal to the one before it.
pub open spec fn dedup_shapes(s: Seq<Seq<u8>>) -> Seq<Seq<u8>>
    decreases s.len(),
{
    if s.len() == 0 {
        s
    } else {
        let d = dedup_shapes(s.drop_last());
        if d.len() > 0 && d.last() == s.last() { d } else { d.push(s.last()) }
    }
}

/// The shape of an object: its one distinct child shape, or all of them
/// sorted, once each, in `object{...}`.
pub open spec fn object_shape(children: Seq<Seq<u8>>) -> Seq<u8> {
    let u = dedup_shapes(sort_shapes(children));
    if u.len() == 1 { u[0] } else { utf8("object{"@) + joined(u) + utf8("}"@) }
}

/// The shape of an array: its child shapes sorted, in `array[...]`.
pub open spec fn array_shape(children: Seq<Seq<u8>>) -> Seq<u8> {
    utf8("array["@) + joined(sort_shapes(children)) + utf8("]"@)
}

pub open spec fn shapes_of(ns: Seq<NodeModel>) -> Seq<Seq<u8>> {
    ns.map_values(|n: NodeModel| n.shape)
}

// ---------------------------------------------------------------- the walk

pub open spec fn structured_one() -> ShapeStats {
    ShapeStats { strings: 0, structured: 1, scalars: 0 }
}

pub open spec fn text_stats() -> ShapeStats {
    ShapeStats { strings: 1, structured: 0, scalars: 1 }
}

pub open spec fn scalar_stats() -> ShapeStats {
    ShapeStats { strings: 0, structured: 0, scalars: 1 }
}

/// Adds a token's candidates: the token as its type, and an integer also as a string.
pub open spec fn add_token(m: WalkModel, t: (Seq<u8>, BindingValueTypeV1), ev: Option<(u32, u16)>, max_rc: usize) -> WalkModel {
    let m1 = add_raw(m, t.0, t.1, ev, max_rc);
    if t.1 == BindingValueTypeV1::Integer { add_raw(m1, t.0, BindingValueTypeV1::String, ev, max_rc) } else { m1 }
}

pub open spec fn add_tokens(m: WalkModel, ts: Seq<(Seq<u8>, BindingValueTypeV1)>, ev: Option<(u32, u16)>, max_rc: usize) -> WalkModel
    decreases ts.len(),
{
    if ts.len() == 0 { m } else { add_token(add_tokens(m, ts.drop_last(), ev, max_rc), ts.last(), ev, max_rc) }
}

/// Adds each non-empty run of digits as an integer and as a string.
pub open spec fn add_digit_runs(m: WalkModel, runs: Seq<Seq<u8>>, ev: Option<(u32, u16)>, max_rc: usize) -> WalkModel
    decreases runs.len(),
{
    if runs.len() == 0 {
        m
    } else {
        let m1 = add_digit_runs(m, runs.drop_last(), ev, max_rc);
        let r = runs.last();
        if r.len() == 0 {
            m1
        } else {
            add_raw(add_raw(m1, r, BindingValueTypeV1::Integer, ev, max_rc), r, BindingValueTypeV1::String, ev, max_rc)
        }
    }
}

/// The byte length of the prefix kept of a text that overflows the text
/// budget: the remaining budget, moved back to a character boundary.
pub open spec fn boundary_at_or_before(b: Seq<u8>, k: int) -> int
    decreases k,
{
    if k <= 0 || vstd::utf8::is_char_boundary(b, k) { if k <= 0 { 0 } else { k } } else { boundary_at_or_before(b, k - 1) }
}

/// The effect of a text's own content on the walk (before any embedded
/// value): the bounded text, its anchor and its candidates.
pub open spec fn text_effects(text: Seq<char>, bounded: Seq<char>, ev: Option<(u32, u16)>, max_rc: usize, m: WalkModel) -> WalkModel {
    let m1 = record_anchor(m, bounded, ev);
    let m2 = add_tokens(m1, text_tokens(bounded), ev, max_rc);
    add_digit_runs(m2, pieces(utf8(bounded), |b: u8| is_digit_byte(b)), ev, max_rc)
}

pub open spec fn text_shape(embedded: bool, bounded: Seq<char>) -> Seq<u8> {
    if embedded {
        utf8("string:embedded_json"@)
    } else if utf8(bounded).contains(0x0a) {
        utf8("string:multiline"@)
    } else if exists|i: int| 0 <= i < bounded.len() && #[trigger] is_whitespace_char(bounded[i]) {
        utf8("string:text"@)
    } else {
        utf8("string:scalar"@)
    }
}

pub proof fn lemma_weight_positive(v: JsonValue)
    ensures
        json_weight(v) >= 1,
{
}

pub proof fn lemma_members_from_step(ms: Seq<JsonMember>, i: int)
    requires
        0 <= i < ms.len(),
    ensures
        members_from(ms, i) == json_weight(ms[i].value) + members_from(ms, i + 1),
        json_weight(ms[i].value) >= 1,
        members_from(ms, 0) == members_weight(ms),
{
    let s = ms.subrange(i, ms.len() as int);
    assert(s[0] == ms[i]);
    assert(s.drop_first() =~= ms.subrange(i + 1, ms.len() as int));
    assert(ms.subrange(0, ms.len() as int) =~= ms);
    lemma_weight_positive(ms[i].value);
}

pub proof fn lemma_items_from_step(items: Seq<JsonValue>, i: int)
    requires
        0 <= i < items.len(),
    ensures
        items_from(items, i) == json_weight(items[i]) + items_from(items, i + 1),
        json_weight(items[i]) >= 1,
        items_from(items, 0) == items_weight(items),
{
    let s = items.subrange(i, items.len() as int);
    assert(s[0] == items[i]);
    assert(s.drop_first() =~= items.subrange(i + 1, items.len() as int));
    assert(items.subrange(0, items.len() as int) =~= items);
    lemma_weight_positive(items[i]);
}

pub proof fn lemma_from_start(ms: Seq<JsonMember>, items: Seq<JsonValue>)
    ensures
        members_from(ms, 0) == members_weight(ms),
        items_from(items, 0) == items_weight(items),
{
    assert(ms.subrange(0, ms.len() as int) =~= ms);
    assert(items.subrange(0, items.len() as int) =~= items);
}

proof fn lemma_member_lighter(ms: Seq<JsonMember>, i: int)
    requires
        0 <= i < ms.len(),
    ensures
        json_weight(ms[i].value) <= members_from(ms, 0),
    decreases i,
{
    lemma_members_from_step(ms, i);
    if i > 0 {
        lemma_members_from_step(ms, i - 1);
        lemma_member_lighter_rest(ms, i - 1);
    }
}

proof fn lemma_member_lighter_rest(ms: Seq<JsonMember>, j: int)
    requires
        0 <= j < ms.len(),
    ensures
        members_from(ms, j) <= members_from(ms, 0),
    decreases j,
{
    if j > 0 {
        lemma_members_from_step(ms, j - 1);
        lemma_member_lighter_rest(ms, j - 1);
    }
}

proof fn lemma_item_lighter(items: Seq<JsonValue>, i: int)
    requires
        0 <= i < items.len(),
    ensures
        json_weight(items[i]) <= items_from(items, 0),
    decreases i,
{
    lemma_items_from_step(items, i);
    if i > 0 {
        lemma_items_from_step(items, i - 1);
        lemma_item_lighter_rest(items, i - 1);
    }
}

pub proof fn lemma_item_lighter_rest(items: Seq<JsonValue>, j: int)
    requires
        0 <= j <= items.len(),
    ensures
        items_from(items, j) <= items_from(items, 0),
    decreases j,
{
    if j > 0 {
        lemma_items_from_step(items, j - 1);
        lemma_item_lighter_rest(items, j - 1);
    }
}

/// A text read to its end decodes to itself.
pub proof fn lemma_whole_prefix(text: Seq<char>)
    ensures
        decode_prefix(text, utf8(text).len() as int) == text,
{
    assert(utf8(text).subrange(0, utf8(text).len() as int) =~= utf8(text));
    vstd::utf8::encode_utf8_decode_utf8(text);
}

/// The walk of a JSON value within an event (if any) at a depth: the
/// node's summary and the walk's next state.
pub open spec fn visit(
    v: JsonValue, ev: Option<(u32, u16)>, depth: usize,
    budget: StructuralExtractionBudgetV3, scope: StructuralExtractionScopeV3, m: WalkModel,
) -> (NodeModel, WalkModel)
    decreases json_weight(v), 0int,
{
    if m.stopped || m.json_nodes >= budget.max_json_nodes {
        (stopped_node(), WalkModel { stopped: true, ..m })
    } else {
        let m1 = WalkModel { json_nodes: (m.json_nodes + 1) as usize, ..m };
        match v {
            JsonValue::Object(ms) => {
                proof {
                    lemma_from_start(ms@, Seq::empty());
                }
                let (children, stats, m2) = visit_members(ms@, 0, ev, depth, budget, scope, m1, Seq::empty(), structured_one());
                let collapsed = if children.len() == 1 { children[0].collapsed } else { stats };
                (NodeModel { shape: object_shape(shapes_of(children)), stats, collapsed }, m2)
            },
            JsonValue::Array(items) => {
                proof {
                    lemma_from_start(Seq::empty(), items@);
                }
                let (shapes, stats, m2) = if ev is None {
                    let count = items@.len();
                    let start = if count > budget.max_recent_events { count - budget.max_recent_events } else { 0 };
                    proof {
                        lemma_item_lighter_rest(items@, start as int);
                    }
                    visit_event_items(items@, start, budget, scope, depth, m1, Seq::empty(), structured_one())
                } else {
                    visit_items(items@, 0, ev, depth, budget, scope, m1, Seq::empty(), structured_one())
                };
                (NodeModel { shape: array_shape(shapes), stats, collapsed: stats }, m2)
            },
            JsonValue::String(t) => {
                let remaining = if m1.text_bytes >= budget.max_text_bytes { 0 } else { budget.max_text_bytes - m1.text_bytes };
                if remaining == 0 {
                    (stopped_node(), WalkModel { stopped: true, ..m1 })
                } else {
                    let b = utf8(t.text@);
                    let truncated = b.len() > remaining;
                    let cut = if truncated { boundary_at_or_before(b, remaining) } else { b.len() as int };
                    let bounded = decode_prefix(t.text@, cut);
                    let m2 = WalkModel {
                        stopped: m1.stopped || truncated,
                        text_bytes: sat_add(m1.text_bytes, cut as usize),
                        ..m1
                    };
                    let m3 = text_effects(t.text@, bounded, ev, budget.max_role_candidates, m2);
                    let parsed = json_text_value(bounded);
                    if truncated {
                        (NodeModel { shape: text_shape(parsed is Some, bounded), stats: text_stats(), collapsed: text_stats() }, m3)
                    } else {
                        match parsed {
                            Some(e) => {
                                if json_weight(e) <= bounded.len() {
                                    proof {
                                        lemma_whole_prefix(t.text@);
                                    }
                                    let (_, m4) = visit(e, ev, sat_add(depth, 1), budget, scope, m3);
                                    (NodeModel { shape: text_shape(true, bounded), stats: text_stats(), collapsed: text_stats() }, m4)
                                } else {
                                    (NodeModel { shape: text_shape(true, bounded), stats: text_stats(), collapsed: text_stats() }, m3)
                                }
                            },
                            None => (NodeModel { shape: text_shape(false, bounded), stats: text_stats(), collapsed: text_stats() }, m3),
                        }
                    }
                }
            },
            JsonValue::Number(n) => {
                let m2 = record_anchor(m1, n.text@, ev);
                let m3 = if n.integer { add_raw(m2, utf8(n.text@), BindingValueTypeV1::Integer, ev, budget.max_role_candidates) } else { m2 };
                (NodeModel {
                    shape: if n.integer { utf8("integer"@) } else { utf8("number"@) },
                    stats: scalar_stats(),
                    collapsed: scalar_stats(),
                }, m3)
            },
            JsonValue::Bool(b) => {
                let token = if b { "true"@ } else { "false"@ };
                let m2 = record_anchor(m1, token, ev);
                let m3 = add_raw(m2, utf8(token), BindingValueTypeV1::Boolean, ev, budget.max_role_candidates);
                (NodeModel { shape: utf8("bool"@), stats: scalar_stats(), collapsed: scalar_stats() }, m3)
            },
            JsonValue::Null => (NodeModel { shape: utf8("null"@), stats: zero_stats(), collapsed: zero_stats() }, m1),
        }
    }
}

/// The characters whose UTF-8 bytes are the first `cut` bytes of a text.
pub open spec fn decode_prefix(text: Seq<char>, cut: int) -> Seq<char> {
    vstd::utf8::decode_utf8(utf8(text).subrange(0, cut))
}

/// The walk of an object's members from `i` on.
pub open spec fn visit_members(
    ms: Seq<JsonMember>, i: int, ev: Option<(u32, u16)>, depth: usize,
    budget: StructuralExtractionBudgetV3, scope: StructuralExtractionScopeV3, m: WalkModel,
    children: Seq<NodeModel>, stats: ShapeStats,
) -> (Seq<NodeModel>, ShapeStats, WalkModel)
    decreases members_from(ms, i), 1int,
{
    if i < 0 || i >= ms.len() {
        (children, stats, m)
    } else if depth == 0 && spec_excluded_root_key(scope, ms[i].key@) {
        proof {
            lemma_members_from_step(ms, i);
        }
        visit_members(ms, i + 1, ev, depth, budget, scope, m, children, stats)
    } else {
        proof {
            lemma_members_from_step(ms, i);
        }
        let (c, m2) = visit(ms[i].value, ev, sat_add(depth, 1), budget, scope, m);
        let stats2 = merge_stats(stats, c.stats);
        let children2 = children.push(c);
        if m2.stopped {
            (children2, stats2, m2)
        } else {
            visit_members(ms, i + 1, ev, depth, budget, scope, m2, children2, stats2)
        }
    }
}

/// The walk of the items of an array inside an event, from `i` on.
pub open spec fn visit_items(
    items: Seq<JsonValue>, i: int, ev: Option<(u32, u16)>, depth: usize,
    budget: StructuralExtractionBudgetV3, scope: StructuralExtractionScopeV3, m: WalkModel,
    shapes: Seq<Seq<u8>>, stats: ShapeStats,
) -> (Seq<Seq<u8>>, ShapeStats, WalkModel)
    decreases items_from(items, i), 1int,
{
    if i < 0 || i >= items.len() {
        (shapes, stats, m)
    } else {
        proof {
            lemma_items_from_step(items, i);
        }
        let (c, m2) = visit(items[i], ev, sat_add(depth, 1), budget, scope, m);
        let stats2 = merge_stats(stats, c.stats);
        let shapes2 = shapes.push(c.shape);
        if m2.stopped {
            (shapes2, stats2, m2)
        } else {
            visit_items(items, i + 1, ev, depth, budget, scope, m2, shapes2, stats2)
        }
    }
}

/// Records the class and topology root of an event once its item is walked.
pub open spec fn close_event(m: WalkModel, key: u32, class: BindingSourceEventClassV1, topology: Seq<u8>) -> WalkModel {
    let es = ensure_event(m.events, key);
    let i = event_index(es, key);
    WalkModel {
        events: es.update(i, EventModel { event_class: Some(class), topology: Some(topology), ..es[i] }),
        ..m
    }
}

/// The walk of the recent items of an event-less array from `i` on: each
/// item is an event, keyed in turn, at its distance from the last item.
pub open spec fn visit_event_items(
    items: Seq<JsonValue>, i: int,
    budget: StructuralExtractionBudgetV3, scope: StructuralExtractionScopeV3, depth: usize, m: WalkModel,
    shapes: Seq<Seq<u8>>, stats: ShapeStats,
) -> (Seq<Seq<u8>>, ShapeStats, WalkModel)
    decreases items_from(items, i), 1int,
{
    if i < 0 || i >= items.len() {
        (shapes, stats, m)
    } else {
        let key = m.next_event_key;
        let m1 = WalkModel {
            next_event_key: if key == u32::MAX { key } else { (key + 1) as u32 },
            events: ensure_event(m.events, key),
            ..m
        };
        let distance = items.len() - (i + 1);
        let td: u16 = if distance > 0xffff { 0xffff } else { distance as u16 };
        proof {
            lemma_items_from_step(items, i);
        }
        let (c, m2) = visit(items[i], Some((key, td)), sat_add(depth, 1), budget, scope, m1);
        let m3 = close_event(m2, key, event_class(c.collapsed), hex_lower(sha256_spec(c.shape)));
        let stats2 = merge_stats(stats, c.stats);
        let shapes2 = shapes.push(c.shape);
        if m3.stopped {
            (shapes2, stats2, m3)
        } else {
            visit_event_items(items, i + 1, budget, scope, depth, m3, shapes2, stats2)
        }
    }
}

// ---------------------------------------------------------------- shapes and counts

fn sat_add_exec(a: usize, b: usize) -> (r: usize)
    ensures
        r == sat_add(a, b),
{
    match a.checked_add(b) {
        Some(c) => c,
        None => usize::MAX,
    }
}

fn merge_stats_exec(a: ShapeStats, b: ShapeStats) -> (r: ShapeStats)
    ensures
        r == merge_stats(a, b),
{
    ShapeStats {
        strings: sat_add_exec(a.strings, b.strings),
        structured: sat_add_exec(a.structured, b.structured),
        scalars: sat_add_exec(a.scalars, b.scalars),
    }
}

fn event_class_exec(s: ShapeStats) -> (r: BindingSourceEventClassV1)
    ensures
        r == event_class(s),
{
    let text = s.strings > 0;
    let nested = s.structured > 1;
    let scalar = s.scalars > s.strings;
    if text && !nested && !scalar {
        BindingSourceEventClassV1::Textual
    } else if !text && nested {
        BindingSourceEventClassV1::Structured
    } else if text && nested {
        BindingSourceEventClassV1::Mixed
    } else if !text && !nested && scalar {
        BindingSourceEventClassV1::Scalar
    } else {
        BindingSourceEventClassV1::Unknown
    }
}

pub open spec fn shape_views(v: Seq<Vec<u8>>) -> Seq<Seq<u8>> {
    v.map_values(|x: Vec<u8>| x@)
}

proof fn lemma_insert_shape_at(s: Seq<Seq<u8>>, x: Seq<u8>, p: int)
    requires
        0 <= p <= s.len(),
        forall|k: int| 0 <= k < p ==> lex_lt(#[trigger] s[k], x),
        p == s.len() || !lex_lt(s[p], x),
    ensures
        insert_shape(s, x) == s.insert(p, x),
    decreases s.len(),
{
    if s.len() == 0 {
        assert(s.insert(p, x) =~= seq![x]);
    } else if p == 0 {
        assert(s.insert(0, x) =~= seq![x] + s);
    } else {
        let t = s.subrange(1, s.len() as int);
        assert forall|k: int| 0 <= k < p - 1 implies lex_lt(#[trigger] t[k], x) by {
            assert(t[k] == s[k + 1]);
        }
        if p - 1 < t.len() {
            assert(t[p - 1] == s[p]);
        }
        lemma_insert_shape_at(t, x, p - 1);
        assert(s.insert(p, x) =~= seq![s[0]] + t.insert(p - 1, x));
    }
}

fn sorted_shapes(v: Vec<Vec<u8>>) -> (r: Vec<Vec<u8>>)
    ensures
        shape_views(r@) == sort_shapes(shape_views(v@)),
{
    let ghost input = shape_views(v@);
    let n = v.len();
    let mut rest = v;
    let mut out: Vec<Vec<u8>> = Vec::new();
    let mut i: usize = 0;
    while rest.len() > 0
        invariant
            i <= n,
            n == input.len(),
            i + rest@.len() == n,
            shape_views(rest@) == input.subrange(i as int, n as int),
            shape_views(out@) == sort_shapes(input.take(i as int)),
        decreases rest@.len(),
    {
        let ghost rv = shape_views(rest@);
        let ghost rest_before = rest@;
        let x = rest.remove(0);
        assert(rest@ =~= rest_before.subrange(1, rest_before.len() as int));
        assert(shape_views(rest@) =~= rv.subrange(1, rv.len() as int));
        assert(x@ == rv[0]);
        assert(rv[0] == input[i as int]);
        let ghost ov = shape_views(out@);
        let mut p: usize = 0;
        while p < out.len() && bytes_lt(out[p].as_slice(), x.as_slice())
            invariant
                p <= out@.len(),
                ov == shape_views(out@),
                forall|k: int| 0 <= k < p ==> lex_lt(#[trigger] ov[k], x@),
            decreases out@.len() - p,
        {
            assert(ov[p as int] == out@[p as int]@);
            p = p + 1;
        }
        if p < out.len() {
            assert(ov[p as int] == out@[p as int]@);
        }
        proof {
            lemma_insert_shape_at(ov, x@, p as int);
            assert(input.take(i + 1).drop_last() =~= input.take(i as int));
            assert(input.take(i + 1).last() == x@);
        }
        out.insert(p, x);
        assert(shape_views(out@) =~= ov.insert(p as int, x@));
        i = i + 1;
        assert(shape_views(rest@) =~= input.subrange(i as int, n as int));
    }
    assert(input.take(n as int) =~= input);
    out
}

fn dedup_shapes_exec(v: Vec<Vec<u8>>) -> (r: Vec<Vec<u8>>)
    ensures
        shape_views(r@) == dedup_shapes(shape_views(v@)),
{
    let ghost input = shape_views(v@);
    let n = v.len();
    let mut rest = v;
    let mut out: Vec<Vec<u8>> = Vec::new();
    let mut i: usize = 0;
    while rest.len() > 0
        invariant
            i <= n,
            n == input.len(),
            i + rest@.len() == n,
            shape_views(rest@) == input.subrange(i as int, n as int),
            shape_views(out@) == dedup_shapes(input.take(i as int)),
        decreases rest@.len(),
    {
        let ghost rv = shape_views(rest@);
        let ghost rest_before = rest@;
        let x = rest.remove(0);
        assert(rest@ =~= rest_before.subrange(1, rest_before.len() as int));
        assert(shape_views(rest@) =~= rv.subrange(1, rv.len() as int));
        assert(x@ == rv[0]);
        proof {
            assert(input.take(i + 1).drop_last() =~= input.take(i as int));
            assert(input.take(i + 1).last() == x@);
        }
        let k = out.len();
        let same = k > 0 && crate::text::bytes_eq(out[k - 1].as_slice(), x.as_slice());
        if k > 0 {
            assert(shape_views(out@)[k - 1] == out@[k - 1]@);
        }
        if !same {
            out.push(x);
            assert(shape_views(out@) =~= dedup_shapes(input.take(i as int)).push(input[i as int]));
        }
        i = i + 1;
        assert(shape_views(rest@) =~= input.subrange(i as int, n as int));
    }
    assert(input.take(n as int) =~= input);
    out
}

fn push_bytes(out: &mut Vec<u8>, b: &[u8])
    ensures
        final(out)@ == old(out)@ + b@,
{
    let ghost start = out@;
    let mut i: usize = 0;
    while i < b.len()
        invariant
            i <= b@.len(),
            out@ == start + b@.take(i as int),
        decreases b@.len() - i,
    {
        out.push(b[i]);
        assert(out@ =~= start + b@.take(i + 1));
        i = i + 1;
    }
    assert(b@.take(b@.len() as int) =~= b@);
}

fn push_joined(out: &mut Vec<u8>, items: &Vec<Vec<u8>>)
    ensures
        final(out)@ == old(out)@ + joined(shape_views(items@)),
{
    let ghost start = out@;
    let ghost iv = shape_views(items@);
    let mut i: usize = 0;
    while i < items.len()
        invariant
            i <= items@.len(),
            iv == shape_views(items@),
            out@ == start + joined(iv.take(i as int)),
        decreases items@.len() - i,
    {
        proof {
            assert(iv.take(i + 1).drop_last() =~= iv.take(i as int));
            assert(iv.take(i + 1).last() == items@[i as int]@);
        }
        if i > 0 {
            out.push(0x2c);
        }
        push_bytes(out, items[i].as_slice());
        proof {
            if i == 0 {
                assert(iv.take(1) =~= seq![iv[0]]);
            }
        }
        assert(out@ =~= start + joined(iv.take(i + 1)));
        i = i + 1;
    }
    assert(iv.take(items@.len() as int) =~= iv);
}

fn literal_bytes(s: &str) -> (r: Vec<u8>)
    ensures
        r@ == utf8(s@),
{
    let mut out: Vec<u8> = Vec::new();
    push_bytes(&mut out, s.as_bytes());
    assert(out@ =~= utf8(s@));
    out
}

fn object_shape_exec(shapes: Vec<Vec<u8>>) -> (r: Vec<u8>)
    ensures
        r@ == object_shape(shape_views(shapes@)),
{
    let u = dedup_shapes_exec(sorted_shapes(shapes));
    if u.len() == 1 {
        assert(shape_views(u@)[0] == u@[0]@);
        let mut out: Vec<u8> = Vec::new();
        push_bytes(&mut out, u[0].as_slice());
        assert(out@ =~= u@[0]@);
        out
    } else {
        let mut out = literal_bytes("object{");
        push_joined(&mut out, &u);
        let close = literal_bytes("}");
        push_bytes(&mut out, close.as_slice());
        out
    }
}

fn array_shape_exec(shapes: Vec<Vec<u8>>) -> (r: Vec<u8>)
    ensures
        r@ == array_shape(shape_views(shapes@)),
{
    let sorted = sorted_shapes(shapes);
    let mut out = literal_bytes("array[");
    push_joined(&mut out, &sorted);
    let close = literal_bytes("]");
    push_bytes(&mut out, close.as_slice());
    out
}

// ---------------------------------------------------------------- texts

fn add_digit_run(w: &mut WalkState, b: &[u8], start: usize, end: usize, ev: Option<(u32, u16)>, max_rc: usize)
    requires
        start <= end <= b@.len(),
        forall|k: int| start <= k < end ==> #[trigger] is_digit_byte(b@[k]),
    ensures
        walk_model(*final(w)) == (if end == start {
            walk_model(*old(w))
        } else {
            add_raw(add_raw(walk_model(*old(w)), b@.subrange(start as int, end as int), BindingValueTypeV1::Integer, ev, max_rc),
                b@.subrange(start as int, end as int), BindingValueTypeV1::String, ev, max_rc)
        }),
{
    if end == start {
        return;
    }
    let run = subrange_bytes(b, start, end);
    proof {
        assert forall|k: int| 0 <= k < run@.len() implies #[trigger] run@[k] < 0x80 by {
            assert(run@[k] == b@[start + k]);
            assert(is_digit_byte(b@[start + k]));
        }
        lemma_ascii_valid_utf8(run@);
    }
    let token = string_from_utf8(run);
    add_raw_candidate(w, token.as_str(), BindingValueTypeV1::Integer, ev, max_rc);
    add_raw_candidate(w, token.as_str(), BindingValueTypeV1::String, ev, max_rc);
}

fn add_digit_runs_exec(w: &mut WalkState, text: &str, ev: Option<(u32, u16)>, max_rc: usize)
    ensures
        walk_model(*final(w)) == add_digit_runs(walk_model(*old(w)), pieces(utf8(text@), |x: u8| is_digit_byte(x)), ev, max_rc),
{
    let b = text.as_bytes();
    let ghost keep = |x: u8| is_digit_byte(x);
    let ghost m0 = walk_model(*w);
    let ghost mut closed: Seq<Seq<u8>> = Seq::empty();
    let mut start: usize = 0;
    let mut i: usize = 0;
    assert(pieces(b@.take(0), keep) =~~= closed.push(b@.subrange(0, 0)));
    while i < b.len()
        invariant
            keep == (|x: u8| is_digit_byte(x)),
            start <= i <= b@.len(),
            pieces(b@.take(i as int), keep) == closed.push(b@.subrange(start as int, i as int)),
            forall|k: int| start <= k < i ==> #[trigger] is_digit_byte(b@[k]),
            walk_model(*w) == add_digit_runs(m0, closed, ev, max_rc),
        decreases b@.len() - i,
    {
        let ghost prev = pieces(b@.take(i as int), keep);
        assert(b@.take(i + 1).drop_last() =~= b@.take(i as int));
        assert(b@.take(i + 1).last() == b@[i as int]);
        if digit_byte(b[i]) {
            assert(b@.subrange(start as int, i as int).push(b@[i as int]) =~= b@.subrange(start as int, i + 1));
            assert(prev.update(prev.len() - 1, prev.last().push(b@[i as int]))
                =~~= closed.push(b@.subrange(start as int, i + 1)));
            i = i + 1;
        } else {
            let ghost piece = b@.subrange(start as int, i as int);
            add_digit_run(w, b, start, i, ev, max_rc);
            proof {
                assert(closed.push(piece).drop_last() =~= closed);
                if start == i {
                    assert(piece.len() == 0);
                }
                closed = closed.push(piece);
                assert(prev.push(Seq::<u8>::empty()) =~~= closed.push(b@.subrange(i + 1, i + 1)));
            }
            i = i + 1;
            start = i;
        }
    }
    let ghost piece = b@.subrange(start as int, i as int);
    add_digit_run(w, b, start, i, ev, max_rc);
    proof {
        assert(closed.push(piece).drop_last() =~= closed);
        assert(b@.take(b@.len() as int) =~= b@);
    }
}

fn add_tokens_exec(w: &mut WalkState, text: &str, ev: Option<(u32, u16)>, max_rc: usize)
    ensures
        walk_model(*final(w)) == add_tokens(walk_model(*old(w)), text_tokens(text@), ev, max_rc),
{
    let toks = tokenize_candidate_text(text);
    let ghost tv = entry_views(toks@);
    let ghost m0 = walk_model(*w);
    let mut j: usize = 0;
    while j < toks.len()
        invariant
            j <= toks@.len(),
            tv == entry_views(toks@),
            walk_model(*w) == add_tokens(m0, tv.take(j as int), ev, max_rc),
        decreases toks@.len() - j,
    {
        proof {
            assert(tv.take(j + 1).drop_last() =~= tv.take(j as int));
            assert(tv.take(j + 1).last() == (utf8(toks@[j as int].0@), toks@[j as int].1));
        }
        let t = &toks[j];
        add_raw_candidate(w, t.0.as_str(), t.1, ev, max_rc);
        if t.1 == BindingValueTypeV1::Integer {
            add_raw_candidate(w, t.0.as_str(), BindingValueTypeV1::String, ev, max_rc);
        }
        j = j + 1;
    }
    assert(tv.take(toks@.len() as int) =~= tv);
}

fn text_effects_exec(w: &mut WalkState, text: &str, bounded: &str, ev: Option<(u32, u16)>, max_rc: usize)
    ensures
        walk_model(*final(w)) == text_effects(text@, bounded@, ev, max_rc, walk_model(*old(w))),
{
    record_anchor_exec(w, bounded, ev);
    add_tokens_exec(w, bounded, ev, max_rc);
    add_digit_runs_exec(w, bounded, ev, max_rc);
}

fn text_shape_exec(embedded: bool, bounded: &str) -> (r: Vec<u8>)
    ensures
        r@ == text_shape(embedded, bounded@),
{
    if embedded {
        literal_bytes("string:embedded_json")
    } else if has_byte(bounded.as_bytes(), 0x0a) {
        literal_bytes("string:multiline")
    } else if any_whitespace(bounded) {
        literal_bytes("string:text")
    } else {
        literal_bytes("string:scalar")
    }
}

/// The byte length of a text's prefix that fits in `k` bytes and ends at a
/// character boundary.
fn nearest_char_boundary(text: &str, k: usize) -> (r: usize)
    requires
        k <= utf8(text@).len(),
    ensures
        r as int == boundary_at_or_before(utf8(text@), k as int),
        r <= k,
        vstd::utf8::is_char_boundary(utf8(text@), r as int),
    decreases k,
{
    if k == 0 {
        proof {
            vstd::utf8::encode_utf8_valid_utf8(text@);
            vstd::utf8::is_char_boundary_start_end_of_seq(utf8(text@));
        }
        0
    } else if text.is_char_boundary(k) {
        k
    } else {
        nearest_char_boundary(text, k - 1)
    }
}

// ---------------------------------------------------------------- walking

/// A walked node, as the walk builds it.
pub struct NodeSummary {
    pub shape: Vec<u8>,
    pub stats: ShapeStats,
    pub collapsed: ShapeStats,
}

pub open spec fn node_model(n: NodeSummary) -> NodeModel {
    NodeModel { shape: n.shape@, stats: n.stats, collapsed: n.collapsed }
}

fn stopped_summary() -> (r: NodeSummary)
    ensures
        node_model(r) == stopped_node(),
{
    NodeSummary {
        shape: literal_bytes("budget_exhausted"),
        stats: ShapeStats { strings: 0, structured: 0, scalars: 0 },
        collapsed: ShapeStats { strings: 0, structured: 0, scalars: 0 },
    }
}

fn close_event_exec(w: &mut WalkState, key: u32, class: BindingSourceEventClassV1, topology: String)
    ensures
        walk_model(*final(w)) == close_event(walk_model(*old(w)), key, class, utf8(topology@)),
{
    let ghost m0 = walk_model(*w);
    let i = ensure_event_exec(w, key);
    let ghost es = ensure_event(m0.events, key);
    let ghost before_vec = w.events@;
    let mut ev = w.events.remove(i);
    assert(event_model(ev) == es[i as int]);
    ev.event_class = Some(class);
    ev.topology = Some(topology);
    w.events.insert(i, ev);
    proof {
        assert(w.events@ =~= before_vec.update(i as int, ev));
        let target = close_event(m0, key, class, utf8(topology@));
        assert(event_model(ev).anchors =~= es[i as int].anchors);
        assert(walk_model(*w).events =~= target.events);
        assert(walk_model(*w).raw =~= target.raw);
    }
}

/// The walk of a text value.
fn visit_text(
    v: &JsonValue, t: &JsonText, ev: Option<(u32, u16)>, depth: usize,
    budget: StructuralExtractionBudgetV3, scope: StructuralExtractionScopeV3, w: &mut WalkState,
) -> (r: NodeSummary)
    requires
        *v == JsonValue::String(*t),
        !old(w).stopped,
        old(w).json_nodes_visited < budget.max_json_nodes,
    ensures
        (node_model(r), walk_model(*final(w))) == visit(*v, ev, depth, budget, scope, walk_model(*old(w))),
    decreases json_weight(*v), 0int,
{
    let ghost m0 = walk_model(*w);
    w.json_nodes_visited = w.json_nodes_visited + 1;
    let remaining = if w.text_bytes_visited >= budget.max_text_bytes { 0 } else { budget.max_text_bytes - w.text_bytes_visited };
    if remaining == 0 {
        w.stopped = true;
        let r = stopped_summary();
        proof {
            assert(walk_model(*w).raw =~= visit(*v, ev, depth, budget, scope, m0).1.raw);
            assert(walk_model(*w).events =~= visit(*v, ev, depth, budget, scope, m0).1.events);
        }
        return r;
    }
    let text = t.text.as_str();
    let b = text.as_bytes();
    let truncated = b.len() > remaining;
    let cut = if truncated { nearest_char_boundary(text, remaining) } else { b.len() };
    proof {
        vstd::utf8::encode_utf8_valid_utf8(text@);
        if !truncated {
            vstd::utf8::is_char_boundary_start_end_of_seq(utf8(text@));
        }
    }
    let (bounded, _) = text.split_at(cut);
    proof {
        assert(utf8(bounded@) =~= utf8(text@).subrange(0, cut as int));
        vstd::utf8::encode_utf8_decode_utf8(bounded@);
        assert(vstd::utf8::decode_utf8(utf8(bounded@)) == bounded@);
    }
    if truncated {
        w.stopped = true;
    }
    w.text_bytes_visited = sat_add_exec(w.text_bytes_visited, cut);
    text_effects_exec(w, text, bounded, ev, budget.max_role_candidates);
    let parsed = parse_json_text(bounded);
    if truncated {
        let shape = text_shape_exec(parsed.is_some(), bounded);
        return NodeSummary {
            shape,
            stats: ShapeStats { strings: 1, structured: 0, scalars: 1 },
            collapsed: ShapeStats { strings: 1, structured: 0, scalars: 1 },
        };
    }
    match parsed {
        Some(e) => {
            proof {
                lemma_whole_prefix(text@);
                assert(bounded@ == text@);
            }
            let _ = visit_value(&e, ev, sat_add_exec(depth, 1), budget, scope, w);
            let shape = text_shape_exec(true, bounded);
            NodeSummary {
                shape,
                stats: ShapeStats { strings: 1, structured: 0, scalars: 1 },
                collapsed: ShapeStats { strings: 1, structured: 0, scalars: 1 },
            }
        },
        None => {
            let shape = text_shape_exec(false, bounded);
            NodeSummary {
                shape,
                stats: ShapeStats { strings: 1, structured: 0, scalars: 1 },
                collapsed: ShapeStats { strings: 1, structured: 0, scalars: 1 },
            }
        },
    }
}

/// The walk of an object's members.
fn visit_object(
    v: &JsonValue, ms: &Vec<JsonMember>, ev: Option<(u32, u16)>, depth: usize,
    budget: StructuralExtractionBudgetV3, scope: StructuralExtractionScopeV3, w: &mut WalkState,
) -> (r: NodeSummary)
    requires
        *v == JsonValue::Object(*ms),
        !old(w).stopped,
        old(w).json_nodes_visited < budget.max_json_nodes,
    ensures
        (node_model(r), walk_model(*final(w))) == visit(*v, ev, depth, budget, scope, walk_model(*old(w))),
    decreases json_weight(*v), 0int,
{
    let ghost m0 = walk_model(*w);
    w.json_nodes_visited = w.json_nodes_visited + 1;
    let ghost m1 = walk_model(*w);
    let ghost target = visit_members(ms@, 0, ev, depth, budget, scope, m1, Seq::empty(), structured_one());
    let mut shapes: Vec<Vec<u8>> = Vec::new();
    let mut stats = ShapeStats { strings: 0, structured: 1, scalars: 0 };
    let mut count: usize = 0;
    let mut first = ShapeStats { strings: 0, structured: 0, scalars: 0 };
    let ghost mut children: Seq<NodeModel> = Seq::empty();
    let mut i: usize = 0;
    assert(m1 == (WalkModel { json_nodes: (m0.json_nodes + 1) as usize, ..m0 }));
    while i < ms.len()
        invariant_except_break
            !w.stopped,
            count <= i,
            visit_members(ms@, i as int, ev, depth, budget, scope, walk_model(*w), children, stats) == target,
        invariant
            *v == JsonValue::Object(*ms),
            i <= ms@.len(),
            shape_views(shapes@) == shapes_of(children),
            count == children.len(),
            count >= 1 ==> first == children[0].collapsed,
        ensures
            target == (children, stats, walk_model(*w)),
        decreases ms@.len() - i,
    {
        let member = &ms[i];
        if depth == 0 && scope.excludes_root_key(member.key.as_str()) {
            i = i + 1;
        } else {
            proof {
                lemma_member_lighter(ms@, i as int);
                lemma_from_start(ms@, Seq::empty());
            }
            let c = visit_value(&member.value, ev, sat_add_exec(depth, 1), budget, scope, w);
            stats = merge_stats_exec(stats, c.stats);
            if count == 0 {
                first = c.collapsed;
            }
            let ghost old_children = children;
            let ghost sv = shape_views(shapes@);
            proof {
                children = children.push(node_model(c));
                assert(shapes_of(children) =~= shapes_of(old_children).push(node_model(c).shape));
            }
            shapes.push(c.shape);
            count = count + 1;
            assert(shape_views(shapes@) =~= sv.push(node_model(c).shape));
            if w.stopped {
                break;
            }
            i = i + 1;
        }
    }
    let collapsed = if count == 1 { first } else { stats };
    let shape = object_shape_exec(shapes);
    NodeSummary { shape, stats, collapsed }
}

/// The walk of an array's items within an event.
fn visit_array_items(
    v: &JsonValue, items: &Vec<JsonValue>, ev: Option<(u32, u16)>, depth: usize,
    budget: StructuralExtractionBudgetV3, scope: StructuralExtractionScopeV3, w: &mut WalkState,
) -> (r: (Vec<Vec<u8>>, ShapeStats))
    requires
        *v == JsonValue::Array(*items),
    ensures
        visit_items(items@, 0, ev, depth, budget, scope, walk_model(*old(w)), Seq::empty(), structured_one())
            == (shape_views(r.0@), r.1, walk_model(*final(w))),
    decreases json_weight(*v), 0int,
{
    let ghost target = visit_items(items@, 0, ev, depth, budget, scope, walk_model(*w), Seq::empty(), structured_one());
    let mut shapes: Vec<Vec<u8>> = Vec::new();
    let mut stats = ShapeStats { strings: 0, structured: 1, scalars: 0 };
    let mut i: usize = 0;
    assert(shape_views(shapes@) =~= Seq::<Seq<u8>>::empty());
    while i < items.len()
        invariant_except_break
            visit_items(items@, i as int, ev, depth, budget, scope, walk_model(*w), shape_views(shapes@), stats) == target,
        invariant
            *v == JsonValue::Array(*items),
            i <= items@.len(),
        ensures
            target == (shape_views(shapes@), stats, walk_model(*w)),
        decreases items@.len() - i,
    {
        proof {
            lemma_item_lighter(items@, i as int);
            lemma_from_start(Seq::empty(), items@);
        }
        let c = visit_value(&items[i], ev, sat_add_exec(depth, 1), budget, scope, w);
        stats = merge_stats_exec(stats, c.stats);
        let ghost before = shape_views(shapes@);
        shapes.push(c.shape);
        assert(shape_views(shapes@) =~= before.push(node_model(c).shape));
        if w.stopped {
            break;
        }
        i = i + 1;
    }
    (shapes, stats)
}

/// The walk of the recent items of an event-less array, each its own event.
fn visit_array_events(
    v: &JsonValue, items: &Vec<JsonValue>, depth: usize,
    budget: StructuralExtractionBudgetV3, scope: StructuralExtractionScopeV3, w: &mut WalkState,
) -> (r: (Vec<Vec<u8>>, ShapeStats))
    requires
        *v == JsonValue::Array(*items),
    ensures
        ({
            let count = items@.len();
            let start = if count > budget.max_recent_events { count - budget.max_recent_events } else { 0 };
            visit_event_items(items@, start, budget, scope, depth, walk_model(*old(w)), Seq::empty(), structured_one())
                == (shape_views(r.0@), r.1, walk_model(*final(w)))
        }),
    decreases json_weight(*v), 0int,
{
    let count = items.len();
    let start = if count > budget.max_recent_events { count - budget.max_recent_events } else { 0 };
    let ghost target = visit_event_items(items@, start as int, budget, scope, depth, walk_model(*w), Seq::empty(), structured_one());
    let mut shapes: Vec<Vec<u8>> = Vec::new();
    let mut stats = ShapeStats { strings: 0, structured: 1, scalars: 0 };
    let mut i: usize = start;
    assert(shape_views(shapes@) =~= Seq::<Seq<u8>>::empty());
    while i < count
        invariant_except_break
            visit_event_items(items@, i as int, budget, scope, depth, walk_model(*w), shape_views(shapes@), stats) == target,
        invariant
            *v == JsonValue::Array(*items),
            count == items@.len(),
            start <= i <= count,
        ensures
            target == (shape_views(shapes@), stats, walk_model(*w)),
        decreases count - i,
    {
        let key = w.next_event_key;
        w.next_event_key = if key == u32::MAX { key } else { key + 1 };
        let ghost mk = walk_model(*w);
        let _ = ensure_event_exec(w, key);
        let distance = count - (i + 1);
        let td: u16 = if distance > 0xffff { 0xffff } else { distance as u16 };
        proof {
            lemma_item_lighter(items@, i as int);
            lemma_from_start(Seq::empty(), items@);
        }
        let c = visit_value(&items[i], Some((key, td)), sat_add_exec(depth, 1), budget, scope, w);
        let class = event_class_exec(c.collapsed);
        let topology = sha256_hex(c.shape.as_slice());
        close_event_exec(w, key, class, topology);
        stats = merge_stats_exec(stats, c.stats);
        let ghost before = shape_views(shapes@);
        shapes.push(c.shape);
        assert(shape_views(shapes@) =~= before.push(node_model(c).shape));
        if w.stopped {
            break;
        }
        i = i + 1;
    }
    (shapes, stats)
}

/// The walk of a JSON value.
pub fn visit_value(
    v: &JsonValue, ev: Option<(u32, u16)>, depth: usize,
    budget: StructuralExtractionBudgetV3, scope: StructuralExtractionScopeV3, w: &mut WalkState,
) -> (r: NodeSummary)
    ensures
        (node_model(r), walk_model(*final(w))) == visit(*v, ev, depth, budget, scope, walk_model(*old(w))),
    decreases json_weight(*v), 1int,
{
    let ghost m0 = walk_model(*w);
    if w.stopped || w.json_nodes_visited >= budget.max_json_nodes {
        w.stopped = true;
        let r = stopped_summary();
        proof {
            assert(walk_model(*w).raw =~= visit(*v, ev, depth, budget, scope, m0).1.raw);
            assert(walk_model(*w).events =~= visit(*v, ev, depth, budget, scope, m0).1.events);
        }
        return r;
    }
    match v {
        JsonValue::Object(ms) => visit_object(v, ms, ev, depth, budget, scope, w),
        JsonValue::String(t) => visit_text(v, t, ev, depth, budget, scope, w),
        JsonValue::Array(items) => {
            w.json_nodes_visited = w.json_nodes_visited + 1;
            let (shapes, stats) = if ev.is_none() {
                visit_array_events(v, items, depth, budget, scope, w)
            } else {
                visit_array_items(v, items, ev, depth, budget, scope, w)
            };
            let shape = array_shape_exec(shapes);
            NodeSummary { shape, stats, collapsed: stats }
        },
        JsonValue::Number(n) => {
            w.json_nodes_visited = w.json_nodes_visited + 1;
            record_anchor_exec(w, n.text.as_str(), ev);
            if n.integer {
                add_raw_candidate(w, n.text.as_str(), BindingValueTypeV1::Integer, ev, budget.max_role_candidates);
            }
            let shape = if n.integer { literal_bytes("integer") } else { literal_bytes("number") };
            NodeSummary {
                shape,
                stats: ShapeStats { strings: 0, structured: 0, scalars: 1 },
                collapsed: ShapeStats { strings: 0, structured: 0, scalars: 1 },
            }
        },
        JsonValue::Bool(b) => {
            w.json_nodes_visited = w.json_nodes_visited + 1;
            let token = if *b { "true" } else { "false" };
            record_anchor_exec(w, token, ev);
            add_raw_candidate(w, token, BindingValueTypeV1::Boolean, ev, budget.max_role_candidates);
            NodeSummary {
                shape: literal_bytes("bool"),
                stats: ShapeStats { strings: 0, structured: 0, scalars: 1 },
                collapsed: ShapeStats { strings: 0, structured: 0, scalars: 1 },
            }
        },
        JsonValue::Null => {
            w.json_nodes_visited = w.json_nodes_visited + 1;
            NodeSummary {
                shape: literal_bytes("null"),
                stats: ShapeStats { strings: 0, structured: 0, scalars: 0 },
                collapsed: ShapeStats { strings: 0, structured: 0, scalars: 0 },
            }
        },
    }
}

// ---------------------------------------------------------------- candidate evidence

/// The event keys of the raw candidates with a value digest, in order.
pub open spec fn keys_with_value(raws: Seq<RawModel>, v: Seq<u8>) -> Seq<u32>
    decreases raws.len(),
{
    if raws.len() == 0 {
        Seq::empty()
    } else {
        keys_with_value(raws.drop_last(), v)
            + if raws.last().value_sha256 == v { seq![raws.last().event_key] } else { Seq::empty() }
    }
}

/// The value digests of the raw candidates of an event, in order.
pub open spec fn values_with_key(raws: Seq<RawModel>, key: u32) -> Seq<Seq<u8>>
    decreases raws.len(),
{
    if raws.len() == 0 {
        Seq::empty()
    } else {
        values_with_key(raws.drop_last(), key)
            + if raws.last().event_key == key { seq![raws.last().value_sha256] } else { Seq::empty() }
    }
}

/// The number of events whose anchors hold an anchor.
pub open spec fn anchor_event_count(es: Seq<EventModel>, a: Seq<u8>) -> nat
    decreases es.len(),
{
    if es.len() == 0 {
        0
    } else {
        anchor_event_count(es.drop_last(), a) + if es.last().anchors.contains(a) { 1nat } else { 0nat }
    }
}

/// An anchor of the event is shared with another event.
pub open spec fn shares_anchor(es: Seq<EventModel>, key: u32) -> bool {
    let i = event_index(es, key);
    i < es.len() && exists|k: int| 0 <= k < es[i].anchors.len() && anchor_event_count(es, #[trigger] es[i].anchors[k]) > 1
}

fn count_distinct_u32(v: &Vec<u32>) -> (r: usize)
    ensures
        r == crate::scan::distinct_count(v@),
{
    let mut seen: Vec<u32> = Vec::new();
    let mut i: usize = 0;
    while i < v.len()
        invariant
            i <= v@.len(),
            seen@.len() == crate::scan::distinct_count(v@.take(i as int)),
            seen@.len() <= i,
            forall|x: u32| seen@.contains(x) <==> v@.take(i as int).contains(x),
        decreases v@.len() - i,
    {
        let x = v[i];
        let ghost t = v@.take(i + 1);
        assert(t.drop_last() =~= v@.take(i as int));
        assert(t.last() == x);
        let mut found = false;
        let mut k: usize = 0;
        while k < seen.len()
            invariant
                k <= seen@.len(),
                found == exists|j: int| 0 <= j < k && seen@[j] == x,
            decreases seen@.len() - k,
        {
            if seen[k] == x {
                found = true;
            }
            k = k + 1;
        }
        assert(found == seen@.contains(x));
        let ghost before = seen@;
        if !found {
            seen.push(x);
        }
        proof {
            assert forall|y: u32| seen@.contains(y) <==> t.contains(y) by {
                let p = v@.take(i as int);
                if p.contains(y) {
                    let j = choose|j: int| 0 <= j < p.len() && p[j] == y;
                    assert(t[j] == y);
                }
                if t.contains(y) {
                    let j = choose|j: int| 0 <= j < t.len() && t[j] == y;
                    if j < p.len() {
                        assert(p[j] == y);
                    }
                }
                if y == x {
                    assert(t[i as int] == y);
                }
                if seen@.contains(y) && !before.contains(y) {
                    let j = choose|j: int| 0 <= j < seen@.len() && seen@[j] == y;
                    if j < before.len() {
                        assert(before[j] == y);
                    }
                }
                if before.contains(y) {
                    let j = choose|j: int| 0 <= j < before.len() && before[j] == y;
                    assert(seen@[j] == y);
                }
                if !found && y == x {
                    assert(seen@[before.len() as int] == y);
                }
            }
        }
        i = i + 1;
    }
    assert(v@.take(v@.len() as int) =~= v@);
    seen.len()
}

fn count_distinct_text(v: &Vec<String>) -> (r: usize)
    ensures
        r == crate::scan::distinct_count(v@.map_values(|s: String| utf8(s@))),
{
    let ghost vs = v@.map_values(|s: String| utf8(s@));
    let mut seen: Vec<String> = Vec::new();
    let mut i: usize = 0;
    while i < v.len()
        invariant
            i <= v@.len(),
            vs == v@.map_values(|s: String| utf8(s@)),
            seen@.len() == crate::scan::distinct_count(vs.take(i as int)),
            forall|x: Seq<u8>| seen@.map_values(|s: String| utf8(s@)).contains(x) <==> vs.take(i as int).contains(x),
        decreases v@.len() - i,
    {
        let ghost t = vs.take(i + 1);
        let ghost x = vs[i as int];
        assert(t.drop_last() =~= vs.take(i as int));
        assert(t.last() == x);
        let found = contains_string(&seen, v[i].as_str());
        let ghost before = seen@.map_values(|s: String| utf8(s@));
        if !found {
            seen.push(v[i].clone());
        }
        proof {
            let after = seen@.map_values(|s: String| utf8(s@));
            if !found {
                assert(after =~= before.push(x));
            } else {
                assert(after =~= before);
            }
            assert forall|y: Seq<u8>| after.contains(y) <==> t.contains(y) by {
                let p = vs.take(i as int);
                if p.contains(y) {
                    let j = choose|j: int| 0 <= j < p.len() && p[j] == y;
                    assert(t[j] == y);
                }
                if t.contains(y) {
                    let j = choose|j: int| 0 <= j < t.len() && t[j] == y;
                    if j < p.len() {
                        assert(p[j] == y);
                    }
                }
                if y == x {
                    assert(t[i as int] == y);
                }
                if after.contains(y) && !before.contains(y) {
                    let j = choose|j: int| 0 <= j < after.len() && after[j] == y;
                    if j < before.len() {
                        assert(before[j] == y);
                    }
                }
                if before.contains(y) {
                    let j = choose|j: int| 0 <= j < before.len() && before[j] == y;
                    assert(after[j] == y);
                }
                if !found && y == x {
                    assert(after[before.len() as int] == y);
                }
            }
        }
        i = i + 1;
    }
    assert(vs.take(v@.len() as int) =~= vs);
    seen.len()
}

// ---------------------------------------------------------------- features

/// The features of a candidate, its topology root as bytes.
pub struct FeatureModel {
    pub source_event_class: BindingSourceEventClassV1,
    pub call_lineage: BindingCallLineageV1,
    pub capability_class: BindingCapabilityClassV1,
    pub temporal_distance: u16,
    pub completion_state: BindingCompletionStateV1,
    pub event_candidate_cardinality: u16,
    pub value_type: BindingValueTypeV1,
    pub request_relation: BindingRequestRelationV1,
    pub topology: Seq<u8>,
}

pub open spec fn feature_model(f: StructuralCandidateFeaturesV3) -> FeatureModel {
    FeatureModel {
        source_event_class: f.source_event_class,
        call_lineage: f.call_lineage,
        capability_class: f.capability_class,
        temporal_distance: f.temporal_distance,
        completion_state: f.completion_state,
        event_candidate_cardinality: f.event_candidate_cardinality,
        value_type: f.value_type,
        request_relation: f.request_relation,
        topology: utf8(f.topology_neighborhood_root_sha256@),
    }
}

/// The order of features, field by field in declaration order.
pub open spec fn features_lt(a: FeatureModel, b: FeatureModel) -> bool {
    if a.source_event_class != b.source_event_class {
        event_class_rank(a.source_event_class) < event_class_rank(b.source_event_class)
    } else if a.call_lineage != b.call_lineage {
        lineage_rank(a.call_lineage) < lineage_rank(b.call_lineage)
    } else if a.capability_class != b.capability_class {
        capability_rank(a.capability_class) < capability_rank(b.capability_class)
    } else if a.temporal_distance != b.temporal_distance {
        a.temporal_distance < b.temporal_distance
    } else if a.completion_state != b.completion_state {
        completion_rank(a.completion_state) < completion_rank(b.completion_state)
    } else if a.event_candidate_cardinality != b.event_candidate_cardinality {
        a.event_candidate_cardinality < b.event_candidate_cardinality
    } else if a.value_type != b.value_type {
        value_type_rank(a.value_type) < value_type_rank(b.value_type)
    } else if a.request_relation != b.request_relation {
        request_relation_rank(a.request_relation) < request_relation_rank(b.request_relation)
    } else {
        lex_lt(a.topology, b.topology)
    }
}

/// The order of features is a strict total order.
pub proof fn lemma_features_lt_order(a: FeatureModel, b: FeatureModel, c: FeatureModel)
    ensures
        !features_lt(a, a),
        a != b ==> features_lt(a, b) || features_lt(b, a),
        features_lt(a, b) && features_lt(b, c) ==> features_lt(a, c),
{
    crate::scan::lemma_lex_lt_irreflexive(a.topology);
    if features_lt(a, b) && features_lt(b, c) && a.source_event_class == b.source_event_class
        && b.source_event_class == c.source_event_class && a.call_lineage == b.call_lineage
        && b.call_lineage == c.call_lineage && a.capability_class == b.capability_class
        && b.capability_class == c.capability_class && a.temporal_distance == b.temporal_distance
        && b.temporal_distance == c.temporal_distance && a.completion_state == b.completion_state
        && b.completion_state == c.completion_state
        && a.event_candidate_cardinality == b.event_candidate_cardinality
        && b.event_candidate_cardinality == c.event_candidate_cardinality && a.value_type == b.value_type
        && b.value_type == c.value_type && a.request_relation == b.request_relation
        && b.request_relation == c.request_relation {
        crate::scan::lemma_lex_lt_trans(a.topology, b.topology, c.topology);
    }
    if a != b {
        lemma_rank_injective(a, b);
        if a.source_event_class == b.source_event_class && a.call_lineage == b.call_lineage
            && a.capability_class == b.capability_class && a.temporal_distance == b.temporal_distance
            && a.completion_state == b.completion_state && a.event_candidate_cardinality == b.event_candidate_cardinality
            && a.value_type == b.value_type && a.request_relation == b.request_relation {
            assert(a.topology != b.topology);
            lemma_lex_lt_total(a.topology, b.topology);
        }
    }
}

proof fn lemma_rank_injective(a: FeatureModel, b: FeatureModel)
    ensures
        a.source_event_class != b.source_event_class ==> event_class_rank(a.source_event_class) != event_class_rank(b.source_event_class),
        a.call_lineage != b.call_lineage ==> lineage_rank(a.call_lineage) != lineage_rank(b.call_lineage),
        a.capability_class != b.capability_class ==> capability_rank(a.capability_class) != capability_rank(b.capability_class),
        a.completion_state != b.completion_state ==> completion_rank(a.completion_state) != completion_rank(b.completion_state),
        a.value_type != b.value_type ==> value_type_rank(a.value_type) != value_type_rank(b.value_type),
        a.request_relation != b.request_relation ==> request_relation_rank(a.request_relation) != request_relation_rank(b.request_relation),
{
    match a.source_event_class { _ => {} }
}

pub(crate) fn features_less(a: &StructuralCandidateFeaturesV3, b: &StructuralCandidateFeaturesV3) -> (r: bool)
    ensures
        r == features_lt(feature_model(*a), feature_model(*b)),
{
    if a.source_event_class != b.source_event_class {
        event_class_rank_exec(a.source_event_class) < event_class_rank_exec(b.source_event_class)
    } else if a.call_lineage != b.call_lineage {
        lineage_rank_exec(a.call_lineage) < lineage_rank_exec(b.call_lineage)
    } else if a.capability_class != b.capability_class {
        capability_rank_exec(a.capability_class) < capability_rank_exec(b.capability_class)
    } else if a.temporal_distance != b.temporal_distance {
        a.temporal_distance < b.temporal_distance
    } else if a.completion_state != b.completion_state {
        completion_rank_exec(a.completion_state) < completion_rank_exec(b.completion_state)
    } else if a.event_candidate_cardinality != b.event_candidate_cardinality {
        a.event_candidate_cardinality < b.event_candidate_cardinality
    } else if a.value_type != b.value_type {
        value_type_rank_exec(a.value_type) < value_type_rank_exec(b.value_type)
    } else if a.request_relation != b.request_relation {
        request_relation_rank_exec(a.request_relation) < request_relation_rank_exec(b.request_relation)
    } else {
        bytes_lt(a.topology_neighborhood_root_sha256.as_str().as_bytes(), b.topology_neighborhood_root_sha256.as_str().as_bytes())
    }
}

pub(crate) fn features_equal(a: &StructuralCandidateFeaturesV3, b: &StructuralCandidateFeaturesV3) -> (r: bool)
    ensures
        r == (feature_model(*a) == feature_model(*b)),
{
    a.source_event_class == b.source_event_class && a.call_lineage == b.call_lineage
        && a.capability_class == b.capability_class && a.temporal_distance == b.temporal_distance
        && a.completion_state == b.completion_state && a.event_candidate_cardinality == b.event_candidate_cardinality
        && a.value_type == b.value_type && a.request_relation == b.request_relation
        && crate::text::bytes_eq(a.topology_neighborhood_root_sha256.as_str().as_bytes(),
            b.topology_neighborhood_root_sha256.as_str().as_bytes())
}

/// The request mentions a text: it is one of the request's candidate tokens.
pub open spec fn request_mentions(request: Seq<char>, normalized: Seq<u8>) -> bool {
    exists|k: int| 0 <= k < text_tokens(request).len() && #[trigger] text_tokens(request)[k].0 == normalized
}

/// The topology root of evidence outside any event.
pub open spec fn root_scalar_topology() -> Seq<u8> {
    hex_lower(sha256_spec(utf8("root-scalar"@)))
}

/// The features of a raw candidate in a finished walk.
pub open spec fn raw_features(raw: RawModel, m: WalkModel, context: StructuralContextV3, request: Seq<char>) -> FeatureModel {
    let es = m.events;
    let i = event_index(es, raw.event_key);
    let present = i < es.len();
    let same_value_events = crate::scan::distinct_count(keys_with_value(m.raw, raw.value_sha256));
    let cardinality = crate::scan::distinct_count(values_with_key(m.raw, raw.event_key));
    FeatureModel {
        source_event_class: if present && es[i].event_class is Some { es[i].event_class->0 } else { BindingSourceEventClassV1::Unknown },
        call_lineage: if raw.event_key == 0 {
            BindingCallLineageV1::Unknown
        } else if same_value_events > 1 {
            BindingCallLineageV1::SameValueAcrossEvents
        } else if shares_anchor(es, raw.event_key) {
            BindingCallLineageV1::SharedOpaqueAnchor
        } else {
            BindingCallLineageV1::Unlinked
        },
        capability_class: spec_capability_class(context),
        temporal_distance: raw.temporal_distance,
        completion_state: context.completion_state,
        event_candidate_cardinality: if cardinality > 0xffff { 0xffff } else { cardinality as u16 },
        value_type: raw.value_type,
        request_relation: if trim_ws(request).len() == 0 {
            BindingRequestRelationV1::RequestAbsent
        } else if request_mentions(request, raw.normalized) {
            BindingRequestRelationV1::Mentioned
        } else {
            BindingRequestRelationV1::NotMentioned
        },
        topology: if present && es[i].topology is Some { es[i].topology->0 } else { root_scalar_topology() },
    }
}

fn keys_with_value_exec(raws: &Vec<RawCandidate>, v: &str) -> (r: Vec<u32>)
    ensures
        r@ == keys_with_value(raws@.map_values(|x: RawCandidate| raw_model(x)), utf8(v@)),
{
    let ghost rm = raws@.map_values(|x: RawCandidate| raw_model(x));
    let mut out: Vec<u32> = Vec::new();
    let mut j: usize = 0;
    while j < raws.len()
        invariant
            j <= raws@.len(),
            rm == raws@.map_values(|x: RawCandidate| raw_model(x)),
            out@ == keys_with_value(rm.take(j as int), utf8(v@)),
        decreases raws@.len() - j,
    {
        proof {
            assert(rm.take(j + 1).drop_last() =~= rm.take(j as int));
            assert(rm.take(j + 1).last() == raw_model(raws@[j as int]));
            lemma_utf8_injective(raws@[j as int].value_sha256@, v@);
        }
        if str_eq(raws[j].value_sha256.as_str(), v) {
            out.push(raws[j].event_key);
        }
        assert(out@ =~= keys_with_value(rm.take(j + 1), utf8(v@)));
        j = j + 1;
    }
    assert(rm.take(raws@.len() as int) =~= rm);
    out
}

fn values_with_key_exec(raws: &Vec<RawCandidate>, key: u32) -> (r: Vec<String>)
    ensures
        r@.map_values(|s: String| utf8(s@)) == values_with_key(raws@.map_values(|x: RawCandidate| raw_model(x)), key),
{
    let ghost rm = raws@.map_values(|x: RawCandidate| raw_model(x));
    let mut out: Vec<String> = Vec::new();
    let mut j: usize = 0;
    while j < raws.len()
        invariant
            j <= raws@.len(),
            rm == raws@.map_values(|x: RawCandidate| raw_model(x)),
            out@.map_values(|s: String| utf8(s@)) == values_with_key(rm.take(j as int), key),
        decreases raws@.len() - j,
    {
        proof {
            assert(rm.take(j + 1).drop_last() =~= rm.take(j as int));
            assert(rm.take(j + 1).last() == raw_model(raws@[j as int]));
        }
        let ghost before = out@.map_values(|s: String| utf8(s@));
        if raws[j].event_key == key {
            out.push(raws[j].value_sha256.clone());
            assert(out@.map_values(|s: String| utf8(s@)) =~= before.push(utf8(raws@[j as int].value_sha256@)));
        }
        assert(out@.map_values(|s: String| utf8(s@)) =~= values_with_key(rm.take(j + 1), key));
        j = j + 1;
    }
    assert(rm.take(raws@.len() as int) =~= rm);
    out
}

fn anchor_event_count_exec(events: &Vec<EventEvidence>, a: &str) -> (r: usize)
    ensures
        r == anchor_event_count(events@.map_values(|e: EventEvidence| event_model(e)), utf8(a@)),
{
    let ghost es = events@.map_values(|e: EventEvidence| event_model(e));
    let mut n: usize = 0;
    let mut j: usize = 0;
    while j < events.len()
        invariant
            j <= events@.len(),
            es == events@.map_values(|e: EventEvidence| event_model(e)),
            n == anchor_event_count(es.take(j as int), utf8(a@)),
            n <= j,
        decreases events@.len() - j,
    {
        proof {
            assert(es.take(j + 1).drop_last() =~= es.take(j as int));
            assert(es.take(j + 1).last() == event_model(events@[j as int]));
        }
        if contains_string(&events[j].anchors, a) {
            n = n + 1;
        }
        j = j + 1;
    }
    assert(es.take(events@.len() as int) =~= es);
    n
}

fn shares_anchor_exec(events: &Vec<EventEvidence>, key: u32) -> (r: bool)
    ensures
        r == shares_anchor(events@.map_values(|e: EventEvidence| event_model(e)), key),
{
    let ghost es = events@.map_values(|e: EventEvidence| event_model(e));
    let i = find_event(events, key);
    if i >= events.len() {
        return false;
    }
    let anchors = &events[i].anchors;
    assert(es[i as int].anchors == anchors@.map_values(|x: String| utf8(x@)));
    assert(event_index(es, key) == i);
    let mut k: usize = 0;
    while k < anchors.len()
        invariant
            k <= anchors@.len(),
            i < events@.len(),
            es == events@.map_values(|e: EventEvidence| event_model(e)),
            es[i as int].anchors == anchors@.map_values(|x: String| utf8(x@)),
            forall|j: int| 0 <= j < k ==> anchor_event_count(es, #[trigger] es[i as int].anchors[j]) <= 1,
            event_index(es, key) == i,
        decreases anchors@.len() - k,
    {
        let c = anchor_event_count_exec(events, anchors[k].as_str());
        assert(es[i as int].anchors[k as int] == utf8(anchors@[k as int]@));
        if c > 1 {
            assert(anchor_event_count(es, es[i as int].anchors[k as int]) > 1);
            assert(event_index(es, key) == i);
            return true;
        }
        k = k + 1;
    }
    false
}

fn request_mentions_exec(tokens: &Vec<(String, BindingValueTypeV1)>, normalized: &str) -> (r: bool)
    ensures
        r == exists|k: int| 0 <= k < tokens@.len() && #[trigger] entry_views(tokens@)[k].0 == utf8(normalized@),
{
    let mut k: usize = 0;
    while k < tokens.len()
        invariant
            k <= tokens@.len(),
            forall|j: int| 0 <= j < k ==> #[trigger] entry_views(tokens@)[j].0 != utf8(normalized@),
        decreases tokens@.len() - k,
    {
        assert(entry_views(tokens@)[k as int].0 == utf8(tokens@[k as int].0@));
        if crate::text::bytes_eq(tokens[k].0.as_str().as_bytes(), normalized.as_bytes()) {
            return true;
        }
        k = k + 1;
    }
    false
}

fn raw_features_exec(
    raw: &RawCandidate,
    w: &WalkState,
    context: &StructuralContextV3,
    request_tokens: &Vec<(String, BindingValueTypeV1)>,
    request_present: bool,
    Ghost(request): Ghost<Seq<char>>,
) -> (r: StructuralCandidateFeaturesV3)
    requires
        entry_views(request_tokens@) == text_tokens(request),
        request_present == (trim_ws(request).len() > 0),
    ensures
        feature_model(r) == raw_features(raw_model(*raw), walk_model(*w), *context, request),
{
    let ghost m = walk_model(*w);
    let same_value = count_distinct_u32(&keys_with_value_exec(&w.raw, raw.value_sha256.as_str()));
    let cardinality = count_distinct_text(&values_with_key_exec(&w.raw, raw.event_key));
    let i = find_event(&w.events, raw.event_key);
    let present = i < w.events.len();
    let source_event_class = if present {
        match w.events[i].event_class {
            Some(c) => c,
            None => BindingSourceEventClassV1::Unknown,
        }
    } else {
        BindingSourceEventClassV1::Unknown
    };
    let call_lineage = if raw.event_key == 0 {
        BindingCallLineageV1::Unknown
    } else if same_value > 1 {
        BindingCallLineageV1::SameValueAcrossEvents
    } else if shares_anchor_exec(&w.events, raw.event_key) {
        BindingCallLineageV1::SharedOpaqueAnchor
    } else {
        BindingCallLineageV1::Unlinked
    };
    let request_relation = if !request_present {
        BindingRequestRelationV1::RequestAbsent
    } else if request_mentions_exec(request_tokens, raw.normalized.as_str()) {
        BindingRequestRelationV1::Mentioned
    } else {
        BindingRequestRelationV1::NotMentioned
    };
    let topology = if present {
        match &w.events[i].topology {
            Some(t) => t.clone(),
            None => sha256_hex(literal_bytes("root-scalar").as_slice()),
        }
    } else {
        sha256_hex(literal_bytes("root-scalar").as_slice())
    };
    let card: u16 = if cardinality > 0xffff { 0xffff } else { cardinality as u16 };
    proof {
        if present {
            assert(m.events[i as int] == event_model(w.events@[i as int]));
        }
        assert(request_mentions(request, raw_model(*raw).normalized)
            == exists|k: int| 0 <= k < request_tokens@.len() && #[trigger] entry_views(request_tokens@)[k].0 == utf8(raw.normalized@));
    }
    StructuralCandidateFeaturesV3 {
        source_event_class,
        call_lineage,
        capability_class: context.capability_class(),
        temporal_distance: raw.temporal_distance,
        completion_state: context.completion_state,
        event_candidate_cardinality: card,
        value_type: raw.value_type,
        request_relation,
        topology_neighborhood_root_sha256: topology,
    }
}

// ---------------------------------------------------------------- grouping

/// `x` put in place in a strictly increasing list of texts, unless present.
pub open spec fn insert_text(s: Seq<Seq<u8>>, x: Seq<u8>) -> Seq<Seq<u8>>
    decreases s.len(),
{
    if s.len() == 0 {
        seq![x]
    } else if lex_lt(s[0], x) {
        seq![s[0]] + insert_text(s.subrange(1, s.len() as int), x)
    } else if s[0] == x {
        s
    } else {
        seq![x] + s
    }
}

proof fn lemma_insert_text_at(s: Seq<Seq<u8>>, x: Seq<u8>, p: int)
    requires
        0 <= p <= s.len(),
        forall|k: int| 0 <= k < p ==> lex_lt(#[trigger] s[k], x),
        p == s.len() || !lex_lt(s[p], x),
    ensures
        p < s.len() && s[p] == x ==> insert_text(s, x) == s,
        !(p < s.len() && s[p] == x) ==> insert_text(s, x) == s.insert(p, x),
    decreases s.len(),
{
    if s.len() == 0 {
        assert(s.insert(p, x) =~= seq![x]);
    } else if p == 0 {
        if s[0] != x {
            assert(s.insert(0, x) =~= seq![x] + s);
        }
    } else {
        let t = s.subrange(1, s.len() as int);
        assert forall|k: int| 0 <= k < p - 1 implies lex_lt(#[trigger] t[k], x) by {
            assert(t[k] == s[k + 1]);
        }
        if p - 1 < t.len() {
            assert(t[p - 1] == s[p]);
        }
        lemma_insert_text_at(t, x, p - 1);
        assert(s.insert(p, x) =~= seq![s[0]] + t.insert(p - 1, x));
        assert(s =~= seq![s[0]] + t);
    }
}

fn insert_text_exec(out: &mut Vec<String>, x: &String)
    ensures
        final(out)@.map_values(|s: String| utf8(s@)) == insert_text(old(out)@.map_values(|s: String| utf8(s@)), utf8(x@)),
{
    let ghost before = out@.map_values(|s: String| utf8(s@));
    let ghost xv = utf8(x@);
    let mut p: usize = 0;
    while p < out.len() && bytes_lt(out[p].as_str().as_bytes(), x.as_str().as_bytes())
        invariant
            p <= out@.len(),
            before == out@.map_values(|s: String| utf8(s@)),
            xv == utf8(x@),
            forall|k: int| 0 <= k < p ==> lex_lt(#[trigger] before[k], xv),
        decreases out@.len() - p,
    {
        assert(before[p as int] == utf8(out@[p as int]@));
        p = p + 1;
    }
    if p < out.len() {
        assert(before[p as int] == utf8(out@[p as int]@));
    }
    proof {
        lemma_insert_text_at(before, xv, p as int);
    }
    let same = p < out.len() && crate::text::bytes_eq(out[p].as_str().as_bytes(), x.as_str().as_bytes());
    if !same {
        out.insert(p, x.clone());
        assert(out@.map_values(|s: String| utf8(s@)) =~= before.insert(p as int, xv));
    }
}

/// A group of raw candidates with one value digest and one set of features.
pub struct GroupModel {
    pub value_sha256: Seq<u8>,
    pub features: FeatureModel,
    pub count: usize,
    pub normalized: Seq<Seq<u8>>,
}

pub open spec fn group_key_lt(v1: Seq<u8>, f1: FeatureModel, v2: Seq<u8>, f2: FeatureModel) -> bool {
    lex_lt(v1, v2) || (v1 == v2 && features_lt(f1, f2))
}

/// Adds a raw candidate to the groups, in key order.
pub open spec fn insert_group(gs: Seq<GroupModel>, v: Seq<u8>, f: FeatureModel, n: Seq<u8>) -> Seq<GroupModel>
    decreases gs.len(),
{
    if gs.len() == 0 {
        seq![GroupModel { value_sha256: v, features: f, count: 1, normalized: seq![n] }]
    } else if group_key_lt(gs[0].value_sha256, gs[0].features, v, f) {
        seq![gs[0]] + insert_group(gs.subrange(1, gs.len() as int), v, f, n)
    } else if gs[0].value_sha256 == v && gs[0].features == f {
        gs.update(0, GroupModel {
            count: sat_add(gs[0].count, 1),
            normalized: insert_text(gs[0].normalized, n),
            ..gs[0]
        })
    } else {
        seq![GroupModel { value_sha256: v, features: f, count: 1, normalized: seq![n] }] + gs
    }
}

/// The groups of the first raw candidates of a finished walk.
pub open spec fn group_raws(rs: Seq<RawModel>, m: WalkModel, context: StructuralContextV3, request: Seq<char>) -> Seq<GroupModel>
    decreases rs.len(),
{
    if rs.len() == 0 {
        Seq::empty()
    } else {
        let r = rs.last();
        insert_group(group_raws(rs.drop_last(), m, context, request), r.value_sha256, raw_features(r, m, context, request), r.normalized)
    }
}

proof fn lemma_insert_group_at(gs: Seq<GroupModel>, v: Seq<u8>, f: FeatureModel, n: Seq<u8>, p: int)
    requires
        0 <= p <= gs.len(),
        forall|k: int| 0 <= k < p ==> group_key_lt((#[trigger] gs[k]).value_sha256, gs[k].features, v, f),
        p == gs.len() || !group_key_lt(gs[p].value_sha256, gs[p].features, v, f),
    ensures
        p < gs.len() && gs[p].value_sha256 == v && gs[p].features == f ==> insert_group(gs, v, f, n)
            == gs.update(p, GroupModel { count: sat_add(gs[p].count, 1), normalized: insert_text(gs[p].normalized, n), ..gs[p] }),
        !(p < gs.len() && gs[p].value_sha256 == v && gs[p].features == f) ==> insert_group(gs, v, f, n)
            == gs.insert(p, GroupModel { value_sha256: v, features: f, count: 1, normalized: seq![n] }),
    decreases gs.len(),
{
    let fresh = GroupModel { value_sha256: v, features: f, count: 1, normalized: seq![n] };
    if gs.len() == 0 {
        assert(gs.insert(p, fresh) =~= seq![fresh]);
    } else if p == 0 {
        if !(gs[0].value_sha256 == v && gs[0].features == f) {
            assert(gs.insert(0, fresh) =~= seq![fresh] + gs);
        }
    } else {
        let t = gs.subrange(1, gs.len() as int);
        assert forall|k: int| 0 <= k < p - 1 implies group_key_lt((#[trigger] t[k]).value_sha256, t[k].features, v, f) by {
            assert(t[k] == gs[k + 1]);
        }
        if p - 1 < t.len() {
            assert(t[p - 1] == gs[p]);
        }
        lemma_insert_group_at(t, v, f, n, p - 1);
        assert(group_key_lt(gs[0].value_sha256, gs[0].features, v, f));
        if p < gs.len() && gs[p].value_sha256 == v && gs[p].features == f {
            let g = GroupModel { count: sat_add(gs[p].count, 1), normalized: insert_text(gs[p].normalized, n), ..gs[p] };
            assert(gs.update(p, g) =~= seq![gs[0]] + t.update(p - 1, g));
        } else {
            assert(gs.insert(p, fresh) =~= seq![gs[0]] + t.insert(p - 1, fresh));
        }
    }
}

pub struct CandidateGroup {
    pub value_sha256: String,
    pub features: StructuralCandidateFeaturesV3,
    pub count: usize,
    pub normalized: Vec<String>,
}

pub open spec fn group_model(g: CandidateGroup) -> GroupModel {
    GroupModel {
        value_sha256: utf8(g.value_sha256@),
        features: feature_model(g.features),
        count: g.count,
        normalized: g.normalized@.map_values(|s: String| utf8(s@)),
    }
}

pub open spec fn group_models(gs: Seq<CandidateGroup>) -> Seq<GroupModel> {
    gs.map_values(|g: CandidateGroup| group_model(g))
}

fn group_less(g: &CandidateGroup, v: &String, f: &StructuralCandidateFeaturesV3) -> (r: bool)
    ensures
        r == group_key_lt(group_model(*g).value_sha256, group_model(*g).features, utf8(v@), feature_model(*f)),
{
    if bytes_lt(g.value_sha256.as_str().as_bytes(), v.as_str().as_bytes()) {
        return true;
    }
    crate::text::bytes_eq(g.value_sha256.as_str().as_bytes(), v.as_str().as_bytes()) && features_less(&g.features, f)
}

fn insert_group_exec(groups: &mut Vec<CandidateGroup>, v: &String, f: StructuralCandidateFeaturesV3, n: &String)
    ensures
        group_models(final(groups)@) == insert_group(group_models(old(groups)@), utf8(v@), feature_model(f), utf8(n@)),
{
    let ghost before = group_models(groups@);
    let ghost fm = feature_model(f);
    let mut p: usize = 0;
    while p < groups.len() && group_less(&groups[p], v, &f)
        invariant
            p <= groups@.len(),
            before == group_models(groups@),
            fm == feature_model(f),
            forall|k: int| 0 <= k < p ==> group_key_lt((#[trigger] before[k]).value_sha256, before[k].features, utf8(v@), fm),
        decreases groups@.len() - p,
    {
        assert(before[p as int] == group_model(groups@[p as int]));
        p = p + 1;
    }
    if p < groups.len() {
        assert(before[p as int] == group_model(groups@[p as int]));
    }
    proof {
        lemma_insert_group_at(before, utf8(v@), fm, utf8(n@), p as int);
    }
    let same = p < groups.len()
        && crate::text::bytes_eq(groups[p].value_sha256.as_str().as_bytes(), v.as_str().as_bytes())
        && features_equal(&groups[p].features, &f);
    if same {
        let ghost before_vec = groups@;
        let mut g = groups.remove(p);
        assert(group_model(g) == before[p as int]);
        g.count = sat_add_exec(g.count, 1);
        insert_text_exec(&mut g.normalized, n);
        groups.insert(p, g);
        proof {
            assert(groups@ =~= before_vec.update(p as int, g));
            assert(group_models(groups@) =~= before.update(p as int, group_model(g)));
        }
    } else {
        let mut normalized: Vec<String> = Vec::new();
        normalized.push(n.clone());
        let g = CandidateGroup { value_sha256: v.clone(), features: f, count: 1, normalized };
        assert(group_model(g).normalized =~= seq![utf8(n@)]);
        groups.insert(p, g);
        assert(group_models(groups@) =~= before.insert(p as int, group_model(g)));
    }
}

// ---------------------------------------------------------------- candidates

/// A candidate observation is the group at its position, under that position as id.
pub open spec fn observation_of(o: StructuralCandidateObservationV3, g: GroupModel, j: int) -> bool {
    &&& o.source_role_id == (if j > 0xffff { 0xffff } else { j })
    &&& utf8(o.value_sha256@) == g.value_sha256
    &&& o.normalized_values@.map_values(|s: String| utf8(s@)) == g.normalized
    &&& feature_model(o.features) == g.features
    &&& o.occurrence_count == (if g.count > 0xffff { 0xffff } else { g.count })
}

/// The candidate observations of a finished walk: its raw candidates
/// grouped by value digest and features, in key order.
pub fn materialize_candidates(
    context: &StructuralContextV3,
    w: &WalkState,
    request_tokens: &Vec<(String, BindingValueTypeV1)>,
    request_present: bool,
    Ghost(request): Ghost<Seq<char>>,
) -> (r: Vec<StructuralCandidateObservationV3>)
    requires
        entry_views(request_tokens@) == text_tokens(request),
        request_present == (trim_ws(request).len() > 0),
    ensures
        ({
            let m = walk_model(*w);
            let gs = group_raws(m.raw, m, *context, request);
            &&& r@.len() == gs.len()
            &&& forall|j: int| 0 <= j < gs.len() ==> observation_of(#[trigger] r@[j], gs[j], j)
        }),
{
    let ghost m = walk_model(*w);
    let mut groups: Vec<CandidateGroup> = Vec::new();
    let mut i: usize = 0;
    while i < w.raw.len()
        invariant
            i <= w.raw@.len(),
            m == walk_model(*w),
            entry_views(request_tokens@) == text_tokens(request),
            request_present == (trim_ws(request).len() > 0),
            group_models(groups@) == group_raws(m.raw.take(i as int), m, *context, request),
        decreases w.raw@.len() - i,
    {
        let raw = &w.raw[i];
        proof {
            assert(m.raw.take(i + 1).drop_last() =~= m.raw.take(i as int));
            assert(m.raw.take(i + 1).last() == raw_model(*raw));
        }
        let f = raw_features_exec(raw, w, context, request_tokens, request_present, Ghost(request));
        insert_group_exec(&mut groups, &raw.value_sha256, f, &raw.normalized);
        i = i + 1;
    }
    assert(m.raw.take(w.raw@.len() as int) =~= m.raw);
    let ghost gs = group_models(groups@);
    let mut out: Vec<StructuralCandidateObservationV3> = Vec::new();
    let mut rest = groups;
    let mut j: usize = 0;
    let n = rest.len();
    while rest.len() > 0
        invariant
            j <= n,
            n == gs.len(),
            j + rest@.len() == n,
            group_models(rest@) == gs.subrange(j as int, n as int),
            out@.len() == j,
            forall|k: int| 0 <= k < j ==> observation_of(#[trigger] out@[k], gs[k], k),
        decreases rest@.len(),
    {
        let ghost rv = rest@;
        assert(group_models(rv)[0] == gs[j as int]);
        let g = rest.remove(0);
        assert(g == rv[0]);
        assert(group_model(g) == gs[j as int]);
        assert(rest@ =~= rv.subrange(1, rv.len() as int));
        assert(group_models(rest@) =~= group_models(rv).subrange(1, rv.len() as int));
        assert(group_models(rest@) =~= gs.subrange(j + 1, n as int));
        let id: u16 = if j > 0xffff { 0xffff } else { j as u16 };
        let occurrences: u16 = if g.count > 0xffff { 0xffff } else { g.count as u16 };
        out.push(StructuralCandidateObservationV3 {
            source_role_id: id,
            value_sha256: g.value_sha256,
            normalized_values: g.normalized,
            features: g.features,
            occurrence_count: occurrences,
        });
        j = j + 1;
    }
    out
}

// ---------------------------------------------------------------- relations between candidates

/// The first position holding the key, from `q` on (the length when none).
pub open spec fn first_from(keys: Seq<Seq<u8>>, x: Seq<u8>, q: int) -> int
    decreases keys.len() - q,
{
    if q < 0 || q >= keys.len() { keys.len() as int } else if keys[q] == x { q } else { first_from(keys, x, q + 1) }
}

/// The edges of a relation kind: each candidate to the first candidate with its key.
pub open spec fn group_edges(keys: Seq<Seq<u8>>, kind: StructuralRelationKindV3, p: int) -> Seq<StructuralSourceRelationV3>
    decreases p,
{
    if p <= 0 {
        Seq::empty()
    } else {
        let f = first_from(keys, keys[p - 1], 0);
        group_edges(keys, kind, p - 1) + if f < p - 1 {
            seq![StructuralSourceRelationV3 { left_source_role_id: f as u16, right_source_role_id: (p - 1) as u16, relation: kind }]
        } else {
            Seq::empty()
        }
    }
}

pub open spec fn pair_before(a: (u16, u16), b: (u16, u16)) -> bool {
    a.0 < b.0 || (a.0 == b.0 && a.1 < b.1)
}

fn pair_less(a: &(u16, u16), b: &(u16, u16)) -> (r: bool)
    ensures
        r == pair_before(*a, *b),
{
    a.0 < b.0 || (a.0 == b.0 && a.1 < b.1)
}

/// `x` inserted before the first element that is not below it.
pub open spec fn insert_pair(s: Seq<(u16, u16)>, x: (u16, u16)) -> Seq<(u16, u16)>
    decreases s.len(),
{
    if s.len() == 0 {
        seq![x]
    } else if pair_before(s[0], x) {
        seq![s[0]] + insert_pair(s.subrange(1, s.len() as int), x)
    } else {
        seq![x] + s
    }
}

/// The elements in ascending order (insertion sort).
pub open spec fn sort_pairs(s: Seq<(u16, u16)>) -> Seq<(u16, u16)>
    decreases s.len(),
{
    if s.len() == 0 {
        s
    } else {
        insert_pair(sort_pairs(s.drop_last()), s.last())
    }
}

proof fn lemma_insert_pair_at(s: Seq<(u16, u16)>, x: (u16, u16), p: int)
    requires
        0 <= p <= s.len(),
        forall|k: int| 0 <= k < p ==> pair_before(#[trigger] s[k], x),
        p == s.len() || !pair_before(s[p], x),
    ensures
        insert_pair(s, x) == s.insert(p, x),
    decreases s.len(),
{
    if s.len() == 0 {
        assert(s.insert(p, x) =~= seq![x]);
    } else if p == 0 {
        assert(s.insert(0, x) =~= seq![x] + s);
    } else {
        let t = s.subrange(1, s.len() as int);
        assert forall|k: int| 0 <= k < p - 1 implies pair_before(#[trigger] t[k], x) by {
            assert(t[k] == s[k + 1]);
        }
        if p - 1 < t.len() {
            assert(t[p - 1] == s[p]);
        }
        lemma_insert_pair_at(t, x, p - 1);
        assert(s.insert(p, x) =~= seq![s[0]] + t.insert(p - 1, x));
    }
}

fn sorted_pairs(v: &[(u16, u16)]) -> (r: Vec<(u16, u16)>)
    ensures
        r@ == sort_pairs(v@),
{
    let mut out: Vec<(u16, u16)> = Vec::new();
    let mut i: usize = 0;
    while i < v.len()
        invariant
            i <= v@.len(),
            out@ == sort_pairs(v@.take(i as int)),
            out@.len() == i,
        decreases v@.len() - i,
    {
        let x = v[i];
        let mut p: usize = 0;
        while p < out.len() && pair_less(&out[p], &x)
            invariant
                p <= out@.len(),
                forall|k: int| 0 <= k < p ==> pair_before(#[trigger] out@[k], x),
            decreases out@.len() - p,
        {
            p = p + 1;
        }
        proof {
            lemma_insert_pair_at(out@, x, p as int);
            assert(v@.take(i + 1).drop_last() =~= v@.take(i as int));
        }
        out.insert(p, x);
        i = i + 1;
    }
    assert(v@.take(v@.len() as int) =~= v@);
    out
}


/// The temporal edges: between neighbours in (distance, id) order whose
/// distances differ, from position `p` on.
pub open spec fn temporal_edges(s: Seq<(u16, u16)>, p: int) -> Seq<StructuralSourceRelationV3>
    decreases p,
{
    if p <= 0 || p >= s.len() {
        Seq::empty()
    } else {
        let a = s[p - 1];
        let b = s[p];
        temporal_edges(s, p - 1) + if a.0 != b.0 {
            seq![StructuralSourceRelationV3 {
                left_source_role_id: if a.1 <= b.1 { a.1 } else { b.1 },
                right_source_role_id: if a.1 <= b.1 { b.1 } else { a.1 },
                relation: StructuralRelationKindV3::AdjacentTemporalDistance,
            }]
        } else {
            Seq::empty()
        }
    }
}

pub open spec fn relation_kind_rank(k: StructuralRelationKindV3) -> u8 {
    match k {
        StructuralRelationKindV3::SameValue => 0,
        StructuralRelationKindV3::SameCallLineage => 1,
        StructuralRelationKindV3::SameTopologyNeighborhood => 2,
        StructuralRelationKindV3::AdjacentTemporalDistance => 3,
    }
}

pub(crate) fn relation_kind_rank_exec(k: StructuralRelationKindV3) -> (r: u8)
    ensures
        r == relation_kind_rank(k),
{
    match k {
        StructuralRelationKindV3::SameValue => 0,
        StructuralRelationKindV3::SameCallLineage => 1,
        StructuralRelationKindV3::SameTopologyNeighborhood => 2,
        StructuralRelationKindV3::AdjacentTemporalDistance => 3,
    }
}

pub open spec fn relation_lt(a: StructuralSourceRelationV3, b: StructuralSourceRelationV3) -> bool {
    if a.left_source_role_id != b.left_source_role_id {
        a.left_source_role_id < b.left_source_role_id
    } else if a.right_source_role_id != b.right_source_role_id {
        a.right_source_role_id < b.right_source_role_id
    } else {
        relation_kind_rank(a.relation) < relation_kind_rank(b.relation)
    }
}

fn relation_less(a: &StructuralSourceRelationV3, b: &StructuralSourceRelationV3) -> (r: bool)
    ensures
        r == relation_lt(*a, *b),
{
    if a.left_source_role_id != b.left_source_role_id {
        a.left_source_role_id < b.left_source_role_id
    } else if a.right_source_role_id != b.right_source_role_id {
        a.right_source_role_id < b.right_source_role_id
    } else {
        relation_kind_rank_exec(a.relation) < relation_kind_rank_exec(b.relation)
    }
}

pub open spec fn insert_relation(s: Seq<StructuralSourceRelationV3>, x: StructuralSourceRelationV3) -> Seq<StructuralSourceRelationV3>
    decreases s.len(),
{
    if s.len() == 0 {
        seq![x]
    } else if relation_lt(s[0], x) {
        seq![s[0]] + insert_relation(s.subrange(1, s.len() as int), x)
    } else if s[0] == x {
        s
    } else {
        seq![x] + s
    }
}

/// The distinct relations in order.
pub open spec fn sorted_relations(s: Seq<StructuralSourceRelationV3>) -> Seq<StructuralSourceRelationV3>
    decreases s.len(),
{
    if s.len() == 0 { s } else { insert_relation(sorted_relations(s.drop_last()), s.last()) }
}

proof fn lemma_insert_relation_at(s: Seq<StructuralSourceRelationV3>, x: StructuralSourceRelationV3, p: int)
    requires
        0 <= p <= s.len(),
        forall|k: int| 0 <= k < p ==> relation_lt(#[trigger] s[k], x),
        p == s.len() || !relation_lt(s[p], x),
    ensures
        p < s.len() && s[p] == x ==> insert_relation(s, x) == s,
        !(p < s.len() && s[p] == x) ==> insert_relation(s, x) == s.insert(p, x),
    decreases s.len(),
{
    if s.len() == 0 {
        assert(s.insert(p, x) =~= seq![x]);
    } else if p == 0 {
        if s[0] != x {
            assert(s.insert(0, x) =~= seq![x] + s);
        }
    } else {
        let t = s.subrange(1, s.len() as int);
        assert forall|k: int| 0 <= k < p - 1 implies relation_lt(#[trigger] t[k], x) by {
            assert(t[k] == s[k + 1]);
        }
        if p - 1 < t.len() {
            assert(t[p - 1] == s[p]);
        }
        lemma_insert_relation_at(t, x, p - 1);
        assert(s.insert(p, x) =~= seq![s[0]] + t.insert(p - 1, x));
        assert(s =~= seq![s[0]] + t);
    }
}

fn insert_relation_exec(out: &mut Vec<StructuralSourceRelationV3>, x: StructuralSourceRelationV3)
    ensures
        final(out)@ == insert_relation(old(out)@, x),
{
    let mut p: usize = 0;
    while p < out.len() && relation_less(&out[p], &x)
        invariant
            p <= out@.len(),
            forall|k: int| 0 <= k < p ==> relation_lt(#[trigger] out@[k], x),
        decreases out@.len() - p,
    {
        p = p + 1;
    }
    proof {
        lemma_insert_relation_at(out@, x, p as int);
    }
    if !(p < out.len() && out[p] == x) {
        out.insert(p, x);
    }
}

/// The keys of the candidates under which they relate.
pub open spec fn value_keys(gs: Seq<GroupModel>) -> Seq<Seq<u8>> {
    gs.map_values(|g: GroupModel| g.value_sha256)
}

pub open spec fn lineage_keys(gs: Seq<GroupModel>) -> Seq<Seq<u8>> {
    gs.map_values(|g: GroupModel| seq![lineage_rank(g.features.call_lineage)])
}

pub open spec fn topology_keys(gs: Seq<GroupModel>) -> Seq<Seq<u8>> {
    gs.map_values(|g: GroupModel| g.features.topology)
}

/// The (distance, id) pair of each candidate, the id being its position.
pub open spec fn distance_pairs(gs: Seq<GroupModel>) -> Seq<(u16, u16)> {
    Seq::new(gs.len(), |j: int| (gs[j].features.temporal_distance, j as u16))
}

/// Every relation between the candidates, each once, in order.
pub open spec fn all_relations(gs: Seq<GroupModel>) -> Seq<StructuralSourceRelationV3> {
    let n = gs.len() as int;
    sorted_relations(
        group_edges(value_keys(gs), StructuralRelationKindV3::SameValue, n)
            + group_edges(lineage_keys(gs), StructuralRelationKindV3::SameCallLineage, n)
            + group_edges(topology_keys(gs), StructuralRelationKindV3::SameTopologyNeighborhood, n)
            + temporal_edges(sort_pairs(distance_pairs(gs)), n - 1)
    )
}

fn first_from_exec(keys: &Vec<Vec<u8>>, p: usize) -> (r: usize)
    requires
        p < keys@.len(),
    ensures
        r as int == first_from(shape_views(keys@), shape_views(keys@)[p as int], 0),
        r <= p,
{
    let ghost kv = shape_views(keys@);
    let ghost x = kv[p as int];
    let mut q: usize = 0;
    while q < p && !crate::text::bytes_eq(keys[q].as_slice(), keys[p].as_slice())
        invariant
            q <= p,
            p < keys@.len(),
            kv == shape_views(keys@),
            x == kv[p as int],
            first_from(kv, x, q as int) == first_from(kv, x, 0),
        decreases p - q,
    {
        assert(kv[q as int] == keys@[q as int]@);
        q = q + 1;
    }
    if q < p {
        assert(kv[q as int] == keys@[q as int]@);
    }
    assert(kv[p as int] == keys@[p as int]@);
    q
}

fn add_group_edges(
    rels: &mut Vec<StructuralSourceRelationV3>,
    keys: &Vec<Vec<u8>>,
    kind: StructuralRelationKindV3,
    Ghost(l): Ghost<Seq<StructuralSourceRelationV3>>,
)
    requires
        keys@.len() <= 0xffff,
        old(rels)@ == sorted_relations(l),
    ensures
        final(rels)@ == sorted_relations(l + group_edges(shape_views(keys@), kind, keys@.len() as int)),
{
    let ghost kv = shape_views(keys@);
    let mut p: usize = 0;
    assert(l + group_edges(kv, kind, 0) =~= l);
    while p < keys.len()
        invariant
            p <= keys@.len(),
            keys@.len() <= 0xffff,
            kv == shape_views(keys@),
            rels@ == sorted_relations(l + group_edges(kv, kind, p as int)),
        decreases keys@.len() - p,
    {
        let f = first_from_exec(keys, p);
        let ghost prev = l + group_edges(kv, kind, p as int);
        if f < p {
            let e = StructuralSourceRelationV3 { left_source_role_id: f as u16, right_source_role_id: p as u16, relation: kind };
            insert_relation_exec(rels, e);
            assert(l + group_edges(kv, kind, p + 1) =~= prev.push(e));
            assert(prev.push(e).drop_last() =~= prev);
        } else {
            assert(l + group_edges(kv, kind, p + 1) =~= prev);
        }
        p = p + 1;
    }
}

fn add_temporal_edges(
    rels: &mut Vec<StructuralSourceRelationV3>,
    sorted: &Vec<(u16, u16)>,
    Ghost(l): Ghost<Seq<StructuralSourceRelationV3>>,
)
    requires
        old(rels)@ == sorted_relations(l),
    ensures
        final(rels)@ == sorted_relations(l + temporal_edges(sorted@, sorted@.len() - 1)),
{
    let n = sorted.len();
    if n == 0 {
        assert(l + temporal_edges(sorted@, sorted@.len() - 1) =~= l);
        return;
    }
    let mut p: usize = 1;
    assert(l + temporal_edges(sorted@, 0) =~= l);
    while p < n
        invariant
            1 <= p <= n,
            n == sorted@.len(),
            rels@ == sorted_relations(l + temporal_edges(sorted@, p - 1)),
        decreases n - p,
    {
        let a = sorted[p - 1];
        let b = sorted[p];
        let ghost prev = l + temporal_edges(sorted@, p - 1);
        if a.0 != b.0 {
            let e = StructuralSourceRelationV3 {
                left_source_role_id: if a.1 <= b.1 { a.1 } else { b.1 },
                right_source_role_id: if a.1 <= b.1 { b.1 } else { a.1 },
                relation: StructuralRelationKindV3::AdjacentTemporalDistance,
            };
            insert_relation_exec(rels, e);
            assert(l + temporal_edges(sorted@, p as int) =~= prev.push(e));
            assert(prev.push(e).drop_last() =~= prev);
        } else {
            assert(l + temporal_edges(sorted@, p as int) =~= prev);
        }
        p = p + 1;
    }
}

/// The relations between the candidates, at most `max_relations` of them,
/// and whether there were more.
pub fn source_relations(
    cands: &Vec<StructuralCandidateObservationV3>,
    max_relations: usize,
    Ghost(gs): Ghost<Seq<GroupModel>>,
) -> (r: (Vec<StructuralSourceRelationV3>, bool))
    requires
        cands@.len() == gs.len(),
        gs.len() <= 0xffff,
        forall|j: int| 0 <= j < gs.len() ==> observation_of(#[trigger] cands@[j], gs[j], j),
    ensures
        r.0@ == (if all_relations(gs).len() <= max_relations { all_relations(gs) } else { all_relations(gs).take(max_relations as int) }),
        r.1 == (all_relations(gs).len() > max_relations),
{
    let n = cands.len();
    let mut vkeys: Vec<Vec<u8>> = Vec::new();
    let mut lkeys: Vec<Vec<u8>> = Vec::new();
    let mut tkeys: Vec<Vec<u8>> = Vec::new();
    let mut pairs: Vec<(u16, u16)> = Vec::new();
    let mut j: usize = 0;
    while j < n
        invariant
            j <= n,
            n == cands@.len(),
            n == gs.len(),
            n <= 0xffff,
            forall|k: int| 0 <= k < gs.len() ==> observation_of(#[trigger] cands@[k], gs[k], k),
            shape_views(vkeys@) == value_keys(gs).take(j as int),
            shape_views(lkeys@) == lineage_keys(gs).take(j as int),
            shape_views(tkeys@) == topology_keys(gs).take(j as int),
            pairs@ == distance_pairs(gs).take(j as int),
        decreases n - j,
    {
        let c = &cands[j];
        assert(observation_of(cands@[j as int], gs[j as int], j as int));
        let ghost vb = shape_views(vkeys@);
        let ghost lb = shape_views(lkeys@);
        let ghost tb = shape_views(tkeys@);
        vkeys.push(literal_bytes(c.value_sha256.as_str()));
        let mut lk: Vec<u8> = Vec::new();
        lk.push(lineage_rank_exec(c.features.call_lineage));
        lkeys.push(lk);
        tkeys.push(literal_bytes(c.features.topology_neighborhood_root_sha256.as_str()));
        pairs.push((c.features.temporal_distance, j as u16));
        assert(value_keys(gs)[j as int] == gs[j as int].value_sha256);
        assert(lineage_keys(gs)[j as int] == seq![lineage_rank(gs[j as int].features.call_lineage)]);
        assert(shape_views(vkeys@) =~= value_keys(gs).take(j + 1)) by {
            assert(shape_views(vkeys@) =~= vb.push(vkeys@[j as int]@));
        }
        assert(shape_views(lkeys@) =~= lb.push(lkeys@[j as int]@));
        assert(shape_views(tkeys@) =~= tb.push(tkeys@[j as int]@));
        assert(shape_views(lkeys@) =~= lineage_keys(gs).take(j + 1));
        assert(shape_views(tkeys@) =~= topology_keys(gs).take(j + 1));
        assert(pairs@ =~= distance_pairs(gs).take(j + 1));
        j = j + 1;
    }
    assert(value_keys(gs).take(n as int) =~= value_keys(gs));
    assert(lineage_keys(gs).take(n as int) =~= lineage_keys(gs));
    assert(topology_keys(gs).take(n as int) =~= topology_keys(gs));
    assert(distance_pairs(gs).take(n as int) =~= distance_pairs(gs));
    let sorted = sorted_pairs(pairs.as_slice());
    let mut rels: Vec<StructuralSourceRelationV3> = Vec::new();
    let ghost e0 = Seq::<StructuralSourceRelationV3>::empty();
    assert(rels@ == sorted_relations(e0));
    add_group_edges(&mut rels, &vkeys, StructuralRelationKindV3::SameValue, Ghost(e0));
    let ghost l1 = e0 + group_edges(value_keys(gs), StructuralRelationKindV3::SameValue, n as int);
    add_group_edges(&mut rels, &lkeys, StructuralRelationKindV3::SameCallLineage, Ghost(l1));
    let ghost l2 = l1 + group_edges(lineage_keys(gs), StructuralRelationKindV3::SameCallLineage, n as int);
    add_group_edges(&mut rels, &tkeys, StructuralRelationKindV3::SameTopologyNeighborhood, Ghost(l2));
    let ghost l3 = l2 + group_edges(topology_keys(gs), StructuralRelationKindV3::SameTopologyNeighborhood, n as int);
    add_temporal_edges(&mut rels, &sorted, Ghost(l3));
    proof {
        assert(sort_pairs(distance_pairs(gs)).len() == n) by {
            lemma_sort_pairs_len(distance_pairs(gs));
        }
        let l4 = l3 + temporal_edges(sort_pairs(distance_pairs(gs)), n - 1);
        assert(e0 + group_edges(value_keys(gs), StructuralRelationKindV3::SameValue, n as int)
            + group_edges(lineage_keys(gs), StructuralRelationKindV3::SameCallLineage, n as int)
            + group_edges(topology_keys(gs), StructuralRelationKindV3::SameTopologyNeighborhood, n as int)
            + temporal_edges(sort_pairs(distance_pairs(gs)), n - 1) =~= l4);
        assert(group_edges(value_keys(gs), StructuralRelationKindV3::SameValue, n as int)
            + group_edges(lineage_keys(gs), StructuralRelationKindV3::SameCallLineage, n as int)
            + group_edges(topology_keys(gs), StructuralRelationKindV3::SameTopologyNeighborhood, n as int)
            + temporal_edges(sort_pairs(distance_pairs(gs)), n - 1) =~= l4);
    }
    let exhausted = rels.len() > max_relations;
    rels.truncate(max_relations);
    (rels, exhausted)
}

/// The state a walk starts from.
pub open spec fn initial_walk() -> WalkModel {
    WalkModel {
        json_nodes: 0,
        text_bytes: 0,
        next_event_key: 1,
        raw: Seq::empty(),
        events: Seq::empty(),
        stopped: false,
    }
}

/// The walk of a payload from the root.
pub open spec fn payload_walk(
    payload: JsonValue, budget: StructuralExtractionBudgetV3, scope: StructuralExtractionScopeV3,
) -> WalkModel {
    visit(payload, None, 0, budget, scope, initial_walk()).1
}

/// The candidate groups of a payload walked under a request text.
pub open spec fn payload_groups(
    request: Seq<char>, payload: JsonValue, context: StructuralContextV3,
    budget: StructuralExtractionBudgetV3, scope: StructuralExtractionScopeV3,
) -> Seq<GroupModel> {
    let m = payload_walk(payload, budget, scope);
    group_raws(m.raw, m, context, request)
}

/// The groups kept under the candidate budget.
pub open spec fn kept_groups(gs: Seq<GroupModel>, max_role_candidates: usize) -> Seq<GroupModel> {
    if gs.len() <= max_role_candidates { gs } else { gs.take(max_role_candidates as int) }
}

/// What an extraction holds, given the walk and the groups it kept.
pub open spec fn extraction_matches(
    x: StructuralExtractionV3, m: WalkModel, gs: Seq<GroupModel>, budget: StructuralExtractionBudgetV3,
) -> bool {
    let kept = kept_groups(gs, budget.max_role_candidates);
    let rels = all_relations(kept);
    &&& x.json_nodes_visited == m.json_nodes
    &&& x.text_bytes_visited == m.text_bytes
    &&& x.candidates_before_budget == m.raw.len()
    &&& x.candidate_budget_exhausted == (m.stopped || gs.len() > budget.max_role_candidates)
    &&& x.candidates@.len() == kept.len()
    &&& forall|j: int| 0 <= j < kept.len() ==> observation_of(#[trigger] x.candidates@[j], kept[j], j)
    &&& x.relations@ == (if rels.len() <= budget.max_relations { rels } else { rels.take(budget.max_relations as int) })
    &&& x.relation_budget_exhausted == (rels.len() > budget.max_relations)
}

/// Extracts the structural surface of a payload under a request text: the
/// budget and the context are checked first, then the payload is walked
/// from its root and its candidates grouped, kept under the budget and
/// related.
pub fn extract_structural_surface_v3(
    request_text: &str,
    payload: &JsonValue,
    context: StructuralContextV3,
    budget: StructuralExtractionBudgetV3,
    scope: StructuralExtractionScopeV3,
) -> (r: Result<StructuralExtractionV3, StructuralExtractionErrorV3>)
    ensures
        !budget_ok(budget) ==> r == Err::<StructuralExtractionV3, StructuralExtractionErrorV3>(
            StructuralExtractionErrorV3::InvalidBudget),
        budget_ok(budget) && !is_sha256_text(utf8(context.topology_neighborhood_root_sha256@))
            ==> r == Err::<StructuralExtractionV3, StructuralExtractionErrorV3>(StructuralExtractionErrorV3::InvalidContext),
        budget_ok(budget) && is_sha256_text(utf8(context.topology_neighborhood_root_sha256@)) ==> (r matches Ok(x)
            && extraction_matches(
                x,
                payload_walk(*payload, budget, scope),
                payload_groups(request_text@, *payload, context, budget, scope),
                budget,
            )),
{
    let budget = match budget.validate() {
        Ok(b) => b,
        Err(e) => {
            return Err(e);
        },
    };
    match context.validate() {
        Ok(()) => {},
        Err(e) => {
            return Err(e);
        },
    }
    let request_tokens = tokenize_candidate_text(request_text);
    let request_present = !trim_text(request_text).is_empty();
    let mut w = WalkState {
        json_nodes_visited: 0,
        text_bytes_visited: 0,
        next_event_key: 1,
        raw: Vec::new(),
        events: Vec::new(),
        stopped: false,
    };
    assert(walk_model(w) =~= initial_walk());
    let _ = visit_value(payload, None, 0, budget, scope, &mut w);
    let ghost m = walk_model(w);
    let ghost gs = payload_groups(request_text@, *payload, context, budget, scope);
    let candidates_before_budget = w.raw.len();
    let mut candidates = materialize_candidates(&context, &w, &request_tokens, request_present, Ghost(request_text@));
    let candidate_budget_exhausted = w.stopped || candidates.len() > budget.max_role_candidates;
    candidates.truncate(budget.max_role_candidates);
    let ghost kept = kept_groups(gs, budget.max_role_candidates);
    assert forall|j: int| 0 <= j < kept.len() implies observation_of(#[trigger] candidates@[j], kept[j], j) by {
        assert(kept[j] == gs[j]);
    }
    let (relations, relation_budget_exhausted) = source_relations(&candidates, budget.max_relations, Ghost(kept));
    Ok(StructuralExtractionV3 {
        candidates,
        relations,
        json_nodes_visited: w.json_nodes_visited,
        text_bytes_visited: w.text_bytes_visited,
        candidates_before_budget,
        candidate_budget_exhausted,
        relation_budget_exhausted,
    })
}

/// An extraction keeps within its budget: no more candidates and no more
/// relations than the budget allows, and the candidate budget counts as
/// exhausted when groups were left out.
pub proof fn lemma_extraction_within_budget(
    x: StructuralExtractionV3, m: WalkModel, gs: Seq<GroupModel>, budget: StructuralExtractionBudgetV3,
)
    requires
        extraction_matches(x, m, gs, budget),
    ensures
        x.candidates@.len() <= budget.max_role_candidates,
        x.relations@.len() <= budget.max_relations,
        x.candidates@.len() < gs.len() ==> x.candidate_budget_exhausted,
{
}

// ---------------------------------------------------------------- the node budget of a walk

proof fn lemma_add_tokens_nodes(m: WalkModel, ts: Seq<(Seq<u8>, BindingValueTypeV1)>, ev: Option<(u32, u16)>, max_rc: usize)
    ensures
        add_tokens(m, ts, ev, max_rc).json_nodes == m.json_nodes,
    decreases ts.len(),
{
    if ts.len() > 0 {
        lemma_add_tokens_nodes(m, ts.drop_last(), ev, max_rc);
    }
}

proof fn lemma_add_digit_runs_nodes(m: WalkModel, runs: Seq<Seq<u8>>, ev: Option<(u32, u16)>, max_rc: usize)
    ensures
        add_digit_runs(m, runs, ev, max_rc).json_nodes == m.json_nodes,
    decreases runs.len(),
{
    if runs.len() > 0 {
        lemma_add_digit_runs_nodes(m, runs.drop_last(), ev, max_rc);
    }
}

proof fn lemma_text_effects_nodes(text: Seq<char>, bounded: Seq<char>, ev: Option<(u32, u16)>, max_rc: usize, m: WalkModel)
    ensures
        text_effects(text, bounded, ev, max_rc, m).json_nodes == m.json_nodes,
{
    let m1 = record_anchor(m, bounded, ev);
    lemma_add_tokens_nodes(m1, text_tokens(bounded), ev, max_rc);
    let m2 = add_tokens(m1, text_tokens(bounded), ev, max_rc);
    lemma_add_digit_runs_nodes(m2, pieces(utf8(bounded), |b: u8| is_digit_byte(b)), ev, max_rc);
}

/// A walk that starts within its node budget stays within it: every node it
/// visits counts against the budget, embedded JSON included.
pub proof fn lemma_visit_within_node_budget(
    v: JsonValue, ev: Option<(u32, u16)>, depth: usize,
    budget: StructuralExtractionBudgetV3, scope: StructuralExtractionScopeV3, m: WalkModel,
)
    requires
        m.json_nodes <= budget.max_json_nodes,
    ensures
        visit(v, ev, depth, budget, scope, m).1.json_nodes <= budget.max_json_nodes,
    decreases json_weight(v), 0int,
{
    if m.stopped || m.json_nodes >= budget.max_json_nodes {
    } else {
        let m1 = WalkModel { json_nodes: (m.json_nodes + 1) as usize, ..m };
        match v {
            JsonValue::Object(ms) => {
                lemma_from_start(ms@, Seq::empty());
                lemma_members_within_node_budget(ms@, 0, ev, depth, budget, scope, m1, Seq::empty(), structured_one());
            },
            JsonValue::Array(items) => {
                lemma_from_start(Seq::empty(), items@);
                if ev is None {
                    let count = items@.len();
                    let start = if count > budget.max_recent_events { count - budget.max_recent_events } else { 0 };
                    lemma_item_lighter_rest(items@, start as int);
                    lemma_event_items_within_node_budget(items@, start, budget, scope, depth, m1, Seq::empty(), structured_one());
                } else {
                    lemma_items_within_node_budget(items@, 0, ev, depth, budget, scope, m1, Seq::empty(), structured_one());
                }
            },
            JsonValue::String(t) => {
                let remaining = if m1.text_bytes >= budget.max_text_bytes { 0 } else { budget.max_text_bytes - m1.text_bytes };
                if remaining != 0 {
                    let b = utf8(t.text@);
                    let truncated = b.len() > remaining;
                    let cut = if truncated { boundary_at_or_before(b, remaining) } else { b.len() as int };
                    let bounded = decode_prefix(t.text@, cut);
                    let m2 = WalkModel {
                        stopped: m1.stopped || truncated,
                        text_bytes: sat_add(m1.text_bytes, cut as usize),
                        ..m1
                    };
                    lemma_text_effects_nodes(t.text@, bounded, ev, budget.max_role_candidates, m2);
                    let m3 = text_effects(t.text@, bounded, ev, budget.max_role_candidates, m2);
                    if !truncated {
                        match json_text_value(bounded) {
                            Some(e) => {
                                if json_weight(e) <= bounded.len() {
                                    lemma_whole_prefix(t.text@);
                                    lemma_visit_within_node_budget(e, ev, sat_add(depth, 1), budget, scope, m3);
                                }
                            },
                            None => {},
                        }
                    }
                }
            },
            _ => {},
        }
    }
}

proof fn lemma_members_within_node_budget(
    ms: Seq<JsonMember>, i: int, ev: Option<(u32, u16)>, depth: usize,
    budget: StructuralExtractionBudgetV3, scope: StructuralExtractionScopeV3, m: WalkModel,
    children: Seq<NodeModel>, stats: ShapeStats,
)
    requires
        m.json_nodes <= budget.max_json_nodes,
    ensures
        visit_members(ms, i, ev, depth, budget, scope, m, children, stats).2.json_nodes <= budget.max_json_nodes,
    decreases members_from(ms, i), 1int,
{
    if i < 0 || i >= ms.len() {
    } else if depth == 0 && spec_excluded_root_key(scope, ms[i].key@) {
        lemma_members_from_step(ms, i);
        lemma_members_within_node_budget(ms, i + 1, ev, depth, budget, scope, m, children, stats);
    } else {
        lemma_members_from_step(ms, i);
        lemma_visit_within_node_budget(ms[i].value, ev, sat_add(depth, 1), budget, scope, m);
        let (c, m2) = visit(ms[i].value, ev, sat_add(depth, 1), budget, scope, m);
        if !m2.stopped {
            lemma_members_within_node_budget(ms, i + 1, ev, depth, budget, scope, m2, children.push(c), merge_stats(stats, c.stats));
        }
    }
}

proof fn lemma_items_within_node_budget(
    items: Seq<JsonValue>, i: int, ev: Option<(u32, u16)>, depth: usize,
    budget: StructuralExtractionBudgetV3, scope: StructuralExtractionScopeV3, m: WalkModel,
    shapes: Seq<Seq<u8>>, stats: ShapeStats,
)
    requires
        m.json_nodes <= budget.max_json_nodes,
    ensures
        visit_items(items, i, ev, depth, budget, scope, m, shapes, stats).2.json_nodes <= budget.max_json_nodes,
    decreases items_from(items, i), 1int,
{
    if i < 0 || i >= items.len() {
    } else {
        lemma_items_from_step(items, i);
        lemma_visit_within_node_budget(items[i], ev, sat_add(depth, 1), budget, scope, m);
        let (c, m2) = visit(items[i], ev, sat_add(depth, 1), budget, scope, m);
        if !m2.stopped {
            lemma_items_within_node_budget(items, i + 1, ev, depth, budget, scope, m2, shapes.push(c.shape), merge_stats(stats, c.stats));
        }
    }
}

proof fn lemma_event_items_within_node_budget(
    items: Seq<JsonValue>, i: int,
    budget: StructuralExtractionBudgetV3, scope: StructuralExtractionScopeV3, depth: usize, m: WalkModel,
    shapes: Seq<Seq<u8>>, stats: ShapeStats,
)
    requires
        m.json_nodes <= budget.max_json_nodes,
    ensures
        visit_event_items(items, i, budget, scope, depth, m, shapes, stats).2.json_nodes <= budget.max_json_nodes,
    decreases items_from(items, i), 1int,
{
    if i < 0 || i >= items.len() {
    } else {
        let key = m.next_event_key;
        let m1 = WalkModel {
            next_event_key: if key == u32::MAX { key } else { (key + 1) as u32 },
            events: ensure_event(m.events, key),
            ..m
        };
        let distance = items.len() - (i + 1);
        let td: u16 = if distance > 0xffff { 0xffff } else { distance as u16 };
        lemma_items_from_step(items, i);
        lemma_visit_within_node_budget(items[i], Some((key, td)), sat_add(depth, 1), budget, scope, m1);
        let (c, m2) = visit(items[i], Some((key, td)), sat_add(depth, 1), budget, scope, m1);
        let m3 = close_event(m2, key, event_class(c.collapsed), hex_lower(sha256_spec(c.shape)));
        if !m3.stopped {
            lemma_event_items_within_node_budget(items, i + 1, budget, scope, depth, m3, shapes.push(c.shape), merge_stats(stats, c.stats));
        }
    }
}

/// An extraction visits no more JSON nodes than its budget allows.
pub proof fn lemma_extraction_within_node_budget(
    payload: JsonValue, budget: StructuralExtractionBudgetV3, scope: StructuralExtractionScopeV3,
)
    ensures
        payload_walk(payload, budget, scope).json_nodes <= budget.max_json_nodes,
{
    lemma_visit_within_node_budget(payload, None, 0, budget, scope, initial_walk());
}

proof fn lemma_sort_pairs_len(s: Seq<(u16, u16)>)
    ensures
        sort_pairs(s).len() == s.len(),
    decreases s.len(),
{
    if s.len() > 0 {
        lemma_sort_pairs_len(s.drop_last());
        lemma_insert_pair_len(sort_pairs(s.drop_last()), s.last());
    }
}

proof fn lemma_insert_pair_len(s: Seq<(u16, u16)>, x: (u16, u16))
    ensures
        insert_pair(s, x).len() == s.len() + 1,
    decreases s.len(),
{
    if s.len() > 0 && pair_before(s[0], x) {
        lemma_insert_pair_len(s.subrange(1, s.len() as int), x);
    }
}

/// The byte order of shapes, as a function.
pub open spec fn shape_order() -> spec_fn(Seq<u8>, Seq<u8>) -> bool {
    |a: Seq<u8>, b: Seq<u8>| lex_lt(a, b)
}

proof fn lemma_shapes_insert_ordered(s: Seq<Seq<u8>>, x: Seq<u8>)
    ensures
        insert_shape(s, x) == insert_ordered(s, x, shape_order()),
    decreases s.len(),
{
    if s.len() > 0 && lex_lt(s[0], x) {
        lemma_shapes_insert_ordered(s.subrange(1, s.len() as int), x);
    }
}

proof fn lemma_shapes_sort_ordered(s: Seq<Seq<u8>>)
    ensures
        sort_shapes(s) == sort_ordered(s, shape_order()),
    decreases s.len(),
{
    if s.len() > 0 {
        lemma_shapes_sort_ordered(s.drop_last());
        lemma_shapes_insert_ordered(sort_shapes(s.drop_last()), s.last());
    }
}

/// Sorting shapes orders them by bytes and keeps each as often as it occurs.
pub proof fn lemma_sort_shapes_sorted(s: Seq<Seq<u8>>)
    ensures
        sorted_by(sort_shapes(s), lex_order()),
        sort_shapes(s).to_multiset() == s.to_multiset(),
{
    lemma_shapes_sort_ordered(s);
    lemma_lex_order_total();
    assert(shape_order() == lex_order());
    lemma_sort_ordered_sorted(s, lex_order());
    lemma_sort_ordered_multiset(s, lex_order());
}

/// The order of pairs: by first, then second, as a function.
pub open spec fn pair_order() -> spec_fn((u16, u16), (u16, u16)) -> bool {
    |a: (u16, u16), b: (u16, u16)| pair_before(a, b)
}

proof fn lemma_pairs_insert_ordered(s: Seq<(u16, u16)>, x: (u16, u16))
    ensures
        insert_pair(s, x) == insert_ordered(s, x, pair_order()),
    decreases s.len(),
{
    if s.len() > 0 && pair_before(s[0], x) {
        lemma_pairs_insert_ordered(s.subrange(1, s.len() as int), x);
    }
}

proof fn lemma_pairs_sort_ordered(s: Seq<(u16, u16)>)
    ensures
        sort_pairs(s) == sort_ordered(s, pair_order()),
    decreases s.len(),
{
    if s.len() > 0 {
        lemma_pairs_sort_ordered(s.drop_last());
        lemma_pairs_insert_ordered(sort_pairs(s.drop_last()), s.last());
    }
}

proof fn lemma_pair_order_total()
    ensures
        strict_total_order(pair_order()),
{
    let lt = pair_order();
    assert forall|a: (u16, u16), b: (u16, u16)| a != b implies #[trigger] lt(a, b) || #[trigger] lt(b, a) by {
        assert(lt(a, b) == pair_before(a, b) && lt(b, a) == pair_before(b, a));
    }
    assert forall|a: (u16, u16), b: (u16, u16), c: (u16, u16)| #[trigger] lt(a, b) && #[trigger] lt(b, c) implies lt(a, c) by {
        assert(lt(a, b) == pair_before(a, b) && lt(b, c) == pair_before(b, c) && lt(a, c) == pair_before(a, c));
    }
}

/// Sorting pairs orders them and keeps each as often as it occurs.
pub proof fn lemma_sort_pairs_sorted(s: Seq<(u16, u16)>)
    ensures
        sorted_by(sort_pairs(s), pair_order()),
        sort_pairs(s).to_multiset() == s.to_multiset(),
{
    lemma_pairs_sort_ordered(s);
    lemma_pair_order_total();
    lemma_sort_ordered_sorted(s, pair_order());
    lemma_sort_ordered_multiset(s, pair_order());
}

} // verus!
