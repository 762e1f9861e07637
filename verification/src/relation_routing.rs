//! Routing atoms of relation frames: hashed "hidden wave" atoms that pair
//! and triple the request, state and tool layers of a frame, in a bounded,
//! priority-balanced selection.
use vstd::prelude::*;
use crate::contracts::{
    AtomSource, AtomValueType, RelationAtom, RelationFrame, selector_denotes_continuation_handle,
    spec_selector_denotes_continuation_handle,
};
use crate::scan::{
    adjacent_lt, strictly_increasing, filter_map, lemma_filter_map_permutation, strict_total_order, insert_ordered,
    sort_ordered, lemma_sort_ordered_permutation, sorted_by, lemma_sort_ordered_sorted, lemma_sort_ordered_multiset,
};

verus! {

pub struct LearnedWaveSubcenter {
    pub center_delta_micro: Vec<i32>,
    pub threshold_micro: i64,
}

pub struct LearnedWaveRoute {
    pub cells: u16,
    pub center_delta_micro: Vec<i32>,
    pub threshold_micro: i64,
    pub query_atom_ids: Vec<u64>,
    pub subcenters: Vec<LearnedWaveSubcenter>,
}

// ---------------------------------------------------------------- hashing

pub const WAVE_HASH_SEED: u64 = 0x6e61_6e64_6f77_6176;
pub const WAVE_HASH_PRIME: u64 = 0x100_0000_01b3;

/// One step of the wave hash: xor in a byte, then multiply modulo 2^64.
pub open spec fn wave_step(h: u64, b: u8) -> u64 {
    (((h ^ (b as u64)) as nat * WAVE_HASH_PRIME as nat) % 0x1_0000_0000_0000_0000nat) as u64
}

/// The wave hash of a byte string, from a starting state.
pub open spec fn wave_hash(h: u64, bytes: Seq<u8>) -> u64
    decreases bytes.len(),
{
    if bytes.len() == 0 {
        h
    } else {
        wave_step(wave_hash(h, bytes.drop_last()), bytes.last())
    }
}

/// The eight little-endian bytes of a number.
pub open spec fn le_bytes(v: u64) -> Seq<u8> {
    Seq::new(8, |k: int| (v >> ((8 * k) as u64)) as u8)
}

/// The little-endian bytes of each number, in order.
pub open spec fn parts_bytes(parts: Seq<u64>) -> Seq<u8>
    decreases parts.len(),
{
    if parts.len() == 0 {
        Seq::empty()
    } else {
        parts_bytes(parts.drop_last()) + le_bytes(parts.last())
    }
}

/// The hidden atom id of a kind and its parts: the wave hash of their
/// little-endian bytes, kind first.
pub open spec fn wave_id(kind: u64, parts: Seq<u64>) -> u64 {
    wave_hash(WAVE_HASH_SEED, le_bytes(kind) + parts_bytes(parts))
}

fn hash_number(h: u64, v: u64, Ghost(prefix): Ghost<Seq<u8>>) -> (r: u64)
    requires
        h == wave_hash(WAVE_HASH_SEED, prefix),
    ensures
        r == wave_hash(WAVE_HASH_SEED, prefix + le_bytes(v)),
{
    let mut hash = h;
    let mut k: u64 = 0;
    while k < 8
        invariant
            k <= 8,
            hash == wave_hash(WAVE_HASH_SEED, prefix + le_bytes(v).take(k as int)),
        decreases 8 - k,
    {
        let b = (v >> (8 * k)) as u8;
        assert(b == le_bytes(v)[k as int]);
        hash = (hash ^ (b as u64)).wrapping_mul(WAVE_HASH_PRIME);
        proof {
            let next = prefix + le_bytes(v).take(k + 1);
            assert(next.drop_last() =~= prefix + le_bytes(v).take(k as int));
            assert(next.last() == b);
        }
        k = k + 1;
    }
    assert(le_bytes(v).take(8) =~= le_bytes(v));
    hash
}

pub fn wave_hidden_atom_id(kind: u64, parts: &[u64]) -> (r: u64)
    ensures
        r == wave_id(kind, parts@),
{
    assert(Seq::<u8>::empty() + le_bytes(kind) =~= le_bytes(kind));
    let mut hash = hash_number(WAVE_HASH_SEED, kind, Ghost(Seq::empty()));
    let mut i: usize = 0;
    while i < parts.len()
        invariant
            i <= parts@.len(),
            hash == wave_hash(WAVE_HASH_SEED, le_bytes(kind) + parts_bytes(parts@.take(i as int))),
        decreases parts@.len() - i,
    {
        proof {
            let t = parts@.take(i + 1);
            assert(t.drop_last() =~= parts@.take(i as int));
            assert(le_bytes(kind) + parts_bytes(t) =~= le_bytes(kind) + parts_bytes(parts@.take(i as int)) + le_bytes(parts@[i as int]));
        }
        hash = hash_number(hash, parts[i], Ghost(le_bytes(kind) + parts_bytes(parts@.take(i as int))));
        i = i + 1;
    }
    assert(parts@.take(parts@.len() as int) =~= parts@);
    hash
}

// ---------------------------------------------------------------- names and priorities

pub open spec fn spec_value_type_name(value: AtomValueType) -> Seq<char> {
    match value {
        AtomValueType::String => "string"@,
        AtomValueType::Integer => "integer"@,
        AtomValueType::Boolean => "boolean"@,
        AtomValueType::Identifier => "identifier"@,
        AtomValueType::Collection => "collection"@,
    }
}

pub fn value_type_name(value: AtomValueType) -> (r: &'static str)
    ensures
        r@ == spec_value_type_name(value),
{
    match value {
        AtomValueType::String => "string",
        AtomValueType::Integer => "integer",
        AtomValueType::Boolean => "boolean",
        AtomValueType::Identifier => "identifier",
        AtomValueType::Collection => "collection",
    }
}

pub open spec fn spec_source_name(source: AtomSource) -> Seq<char> {
    match source {
        AtomSource::Request => "request"@,
        AtomSource::Observation => "observation"@,
        AtomSource::Action => "action"@,
        AtomSource::Outcome => "outcome"@,
    }
}

pub fn source_name(source: AtomSource) -> (r: &'static str)
    ensures
        r@ == spec_source_name(source),
{
    match source {
        AtomSource::Request => "request",
        AtomSource::Observation => "observation",
        AtomSource::Action => "action",
        AtomSource::Outcome => "outcome",
    }
}

/// How strongly an atom's kind ranks in the balanced selection.
pub open spec fn source_priority(atom: RelationAtom) -> u16 {
    match atom {
        RelationAtom::CompletionState { .. } | RelationAtom::OutputStatus { .. } => 1000,
        RelationAtom::ObservationSelector { .. } | RelationAtom::Cardinality { .. } => 900,
        RelationAtom::TypedSlot { .. } | RelationAtom::SlotEquality { .. } | RelationAtom::UniqueSlot { .. } => 800,
        RelationAtom::ToolKind { .. } | RelationAtom::ObservationCallShape { .. }
        | RelationAtom::TypedEquality { .. } | RelationAtom::TemporalEdge { .. } => 700,
        RelationAtom::CollectionShape { .. } | RelationAtom::RequestPhaseAtom { .. } => 600,
        RelationAtom::ClientCapabilityAtom { .. } | RelationAtom::ReconstructedClientCapabilityAtom { .. } => 500,
        _ => 0,
    }
}

fn wave_hidden_source_priority(atom: &RelationAtom) -> (r: u16)
    ensures
        r == source_priority(*atom),
{
    match atom {
        RelationAtom::CompletionState { .. } | RelationAtom::OutputStatus { .. } => 1000,
        RelationAtom::ObservationSelector { .. } | RelationAtom::Cardinality { .. } => 900,
        RelationAtom::TypedSlot { .. } | RelationAtom::SlotEquality { .. } | RelationAtom::UniqueSlot { .. } => 800,
        RelationAtom::ToolKind { .. } | RelationAtom::ObservationCallShape { .. }
        | RelationAtom::TypedEquality { .. } | RelationAtom::TemporalEdge { .. } => 700,
        RelationAtom::CollectionShape { .. } | RelationAtom::RequestPhaseAtom { .. } => 600,
        RelationAtom::ClientCapabilityAtom { .. } | RelationAtom::ReconstructedClientCapabilityAtom { .. } => 500,
        _ => 0,
    }
}

// ---------------------------------------------------------------- pairs and triples

/// The hidden ids of `left` paired with each of `right`, row by row.
pub open spec fn wave_pairs(kind: u64, left: Seq<u64>, right: Seq<u64>) -> Seq<u64>
    decreases left.len(),
{
    if left.len() == 0 {
        Seq::empty()
    } else {
        let l = left.last();
        wave_pairs(kind, left.drop_last(), right) + right.map_values(|r: u64| wave_id(kind, seq![l, r]))
    }
}

/// The ranked hidden ids of `left` paired with each of `right`: the sum of
/// the two priorities, and the pair's id.
pub open spec fn ranked_pairs(kind: u64, left: Seq<(u16, u64)>, right: Seq<(u16, u64)>) -> Seq<(u32, u64)>
    decreases left.len(),
{
    if left.len() == 0 {
        Seq::empty()
    } else {
        let l = left.last();
        ranked_pairs(kind, left.drop_last(), right)
            + right.map_values(|r: (u16, u64)| ((l.0 + r.0) as u32, wave_id(kind, seq![l.1, r.1])))
    }
}

/// The ranked hidden ids (kind 4) of every request, state and tool triple.
pub open spec fn ranked_triples(
    request: Seq<(u16, u64)>,
    state: Seq<(u16, u64)>,
    tool: Seq<(u16, u64)>,
) -> Seq<(u32, u64)>
    decreases request.len(),
{
    if request.len() == 0 {
        Seq::empty()
    } else {
        let q = request.last();
        ranked_triples(request.drop_last(), state, tool) + ranked_triples_of(q, state, tool)
    }
}

pub open spec fn ranked_triples_of(q: (u16, u64), state: Seq<(u16, u64)>, tool: Seq<(u16, u64)>) -> Seq<(u32, u64)>
    decreases state.len(),
{
    if state.len() == 0 {
        Seq::empty()
    } else {
        let s = state.last();
        ranked_triples_of(q, state.drop_last(), tool)
            + tool.map_values(|t: (u16, u64)| ((q.0 + s.0 + t.0) as u32, wave_id(4, seq![q.1, s.1, t.1])))
    }
}

/// The hidden ids (kind 4) of every request, state and tool triple.
pub open spec fn wave_triples(request: Seq<u64>, state: Seq<u64>, tool: Seq<u64>) -> Seq<u64>
    decreases request.len(),
{
    if request.len() == 0 {
        Seq::empty()
    } else {
        let q = request.last();
        wave_triples(request.drop_last(), state, tool) + wave_triples_of(q, state, tool)
    }
}

pub open spec fn wave_triples_of(q: u64, state: Seq<u64>, tool: Seq<u64>) -> Seq<u64>
    decreases state.len(),
{
    if state.len() == 0 {
        Seq::empty()
    } else {
        let s = state.last();
        wave_triples_of(q, state.drop_last(), tool) + tool.map_values(|t: u64| wave_id(4, seq![q, s, t]))
    }
}

fn push_pair_row(out: &mut Vec<u64>, kind: u64, l: u64, right: &[u64])
    ensures
        final(out)@ == old(out)@ + right@.map_values(|r: u64| wave_id(kind, seq![l, r])),
{
    let ghost start = out@;
    let mut j: usize = 0;
    while j < right.len()
        invariant
            j <= right@.len(),
            out@ == start + right@.take(j as int).map_values(|r: u64| wave_id(kind, seq![l, r])),
        decreases right@.len() - j,
    {
        let pair = [l, right[j]];
        let id = wave_hidden_atom_id(kind, &pair);
        assert(pair@ =~= seq![l, right@[j as int]]);
        out.push(id);
        assert(right@.take(j + 1).map_values(|r: u64| wave_id(kind, seq![l, r]))
            =~= right@.take(j as int).map_values(|r: u64| wave_id(kind, seq![l, r])).push(id));
        j = j + 1;
    }
    assert(right@.take(right@.len() as int) =~= right@);
}

/// Appends the hidden id of each pair of `left` and `right`, row by row.
pub fn extend_wave_pairs(out: &mut Vec<u64>, kind: u64, left: &[u64], right: &[u64])
    ensures
        final(out)@ == old(out)@ + wave_pairs(kind, left@, right@),
{
    let ghost start = out@;
    let mut i: usize = 0;
    while i < left.len()
        invariant
            i <= left@.len(),
            out@ == start + wave_pairs(kind, left@.take(i as int), right@),
        decreases left@.len() - i,
    {
        proof {
            let t = left@.take(i + 1);
            assert(t.drop_last() =~= left@.take(i as int));
            assert(t.last() == left@[i as int]);
        }
        push_pair_row(out, kind, left[i], right);
        assert(out@ =~= start + wave_pairs(kind, left@.take(i + 1), right@));
        i = i + 1;
    }
    assert(left@.take(left@.len() as int) =~= left@);
}

fn push_ranked_row(out: &mut Vec<(u32, u64)>, kind: u64, l: (u16, u64), right: &[(u16, u64)])
    ensures
        final(out)@ == old(out)@ + right@.map_values(|r: (u16, u64)| ((l.0 + r.0) as u32, wave_id(kind, seq![l.1, r.1]))),
{
    let ghost start = out@;
    let mut j: usize = 0;
    while j < right.len()
        invariant
            j <= right@.len(),
            out@ == start + right@.take(j as int).map_values(|r: (u16, u64)| ((l.0 + r.0) as u32, wave_id(kind, seq![l.1, r.1]))),
        decreases right@.len() - j,
    {
        let r = right[j];
        let pair = [l.1, r.1];
        let id = wave_hidden_atom_id(kind, &pair);
        assert(pair@ =~= seq![l.1, r.1]);
        let priority = (l.0 as u32).saturating_add(r.0 as u32);
        out.push((priority, id));
        assert(right@.take(j + 1).map_values(|r: (u16, u64)| ((l.0 + r.0) as u32, wave_id(kind, seq![l.1, r.1])))
            =~= right@.take(j as int).map_values(|r: (u16, u64)| ((l.0 + r.0) as u32, wave_id(kind, seq![l.1, r.1]))).push((priority, id)));
        j = j + 1;
    }
    assert(right@.take(right@.len() as int) =~= right@);
}

/// The ranked hidden ids of every pair of `left` and `right`, row by row.
pub fn ranked_wave_pairs(kind: u64, left: &[(u16, u64)], right: &[(u16, u64)]) -> (r: Vec<(u32, u64)>)
    ensures
        r@ == ranked_pairs(kind, left@, right@),
{
    let mut out: Vec<(u32, u64)> = Vec::new();
    let mut i: usize = 0;
    while i < left.len()
        invariant
            i <= left@.len(),
            out@ == ranked_pairs(kind, left@.take(i as int), right@),
        decreases left@.len() - i,
    {
        proof {
            let t = left@.take(i + 1);
            assert(t.drop_last() =~= left@.take(i as int));
            assert(t.last() == left@[i as int]);
        }
        push_ranked_row(&mut out, kind, left[i], right);
        i = i + 1;
    }
    assert(left@.take(left@.len() as int) =~= left@);
    out
}

fn push_ranked_triple_row(out: &mut Vec<(u32, u64)>, q: (u16, u64), st: (u16, u64), tool: &[(u16, u64)])
    ensures
        final(out)@ == old(out)@ + tool@.map_values(|t: (u16, u64)| ((q.0 + st.0 + t.0) as u32, wave_id(4, seq![q.1, st.1, t.1]))),
{
    let ghost start = out@;
    let mut j: usize = 0;
    while j < tool.len()
        invariant
            j <= tool@.len(),
            out@ == start + tool@.take(j as int).map_values(|t: (u16, u64)| ((q.0 + st.0 + t.0) as u32, wave_id(4, seq![q.1, st.1, t.1]))),
        decreases tool@.len() - j,
    {
        let t = tool[j];
        let triple = [q.1, st.1, t.1];
        let id = wave_hidden_atom_id(4, &triple);
        assert(triple@ =~= seq![q.1, st.1, t.1]);
        let priority = (q.0 as u32).saturating_add(st.0 as u32).saturating_add(t.0 as u32);
        out.push((priority, id));
        assert(tool@.take(j + 1).map_values(|t: (u16, u64)| ((q.0 + st.0 + t.0) as u32, wave_id(4, seq![q.1, st.1, t.1])))
            =~= tool@.take(j as int).map_values(|t: (u16, u64)| ((q.0 + st.0 + t.0) as u32, wave_id(4, seq![q.1, st.1, t.1]))).push((priority, id)));
        j = j + 1;
    }
    assert(tool@.take(tool@.len() as int) =~= tool@);
}

fn push_ranked_triples_of(out: &mut Vec<(u32, u64)>, q: (u16, u64), state: &[(u16, u64)], tool: &[(u16, u64)])
    ensures
        final(out)@ == old(out)@ + ranked_triples_of(q, state@, tool@),
{
    let ghost start = out@;
    let mut i: usize = 0;
    while i < state.len()
        invariant
            i <= state@.len(),
            out@ == start + ranked_triples_of(q, state@.take(i as int), tool@),
        decreases state@.len() - i,
    {
        proof {
            let t = state@.take(i + 1);
            assert(t.drop_last() =~= state@.take(i as int));
            assert(t.last() == state@[i as int]);
        }
        push_ranked_triple_row(out, q, state[i], tool);
        assert(out@ =~= start + ranked_triples_of(q, state@.take(i + 1), tool@));
        i = i + 1;
    }
    assert(state@.take(state@.len() as int) =~= state@);
}

/// The ranked hidden ids of every request, state and tool triple.
pub fn ranked_wave_triples(request: &[(u16, u64)], state: &[(u16, u64)], tool: &[(u16, u64)]) -> (r: Vec<(u32, u64)>)
    ensures
        r@ == ranked_triples(request@, state@, tool@),
{
    let mut out: Vec<(u32, u64)> = Vec::new();
    let mut i: usize = 0;
    while i < request.len()
        invariant
            i <= request@.len(),
            out@ == ranked_triples(request@.take(i as int), state@, tool@),
        decreases request@.len() - i,
    {
        proof {
            let t = request@.take(i + 1);
            assert(t.drop_last() =~= request@.take(i as int));
            assert(t.last() == request@[i as int]);
        }
        push_ranked_triples_of(&mut out, request[i], state, tool);
        i = i + 1;
    }
    assert(request@.take(request@.len() as int) =~= request@);
    out
}

fn push_triple_row(out: &mut Vec<u64>, q: u64, st: u64, tool: &[u64])
    ensures
        final(out)@ == old(out)@ + tool@.map_values(|t: u64| wave_id(4, seq![q, st, t])),
{
    let ghost start = out@;
    let mut j: usize = 0;
    while j < tool.len()
        invariant
            j <= tool@.len(),
            out@ == start + tool@.take(j as int).map_values(|t: u64| wave_id(4, seq![q, st, t])),
        decreases tool@.len() - j,
    {
        let triple = [q, st, tool[j]];
        let id = wave_hidden_atom_id(4, &triple);
        assert(triple@ =~= seq![q, st, tool@[j as int]]);
        out.push(id);
        assert(tool@.take(j + 1).map_values(|t: u64| wave_id(4, seq![q, st, t]))
            =~= tool@.take(j as int).map_values(|t: u64| wave_id(4, seq![q, st, t])).push(id));
        j = j + 1;
    }
    assert(tool@.take(tool@.len() as int) =~= tool@);
}

fn extend_wave_triples(out: &mut Vec<u64>, request: &[u64], state: &[u64], tool: &[u64])
    ensures
        final(out)@ == old(out)@ + wave_triples(request@, state@, tool@),
{
    let ghost start = out@;
    let mut i: usize = 0;
    while i < request.len()
        invariant
            i <= request@.len(),
            out@ == start + wave_triples(request@.take(i as int), state@, tool@),
        decreases request@.len() - i,
    {
        proof {
            let t = request@.take(i + 1);
            assert(t.drop_last() =~= request@.take(i as int));
            assert(t.last() == request@[i as int]);
        }
        let ghost mid = out@;
        let q = request[i];
        let mut k: usize = 0;
        while k < state.len()
            invariant
                k <= state@.len(),
                out@ == mid + wave_triples_of(q, state@.take(k as int), tool@),
            decreases state@.len() - k,
        {
            proof {
                let t = state@.take(k + 1);
                assert(t.drop_last() =~= state@.take(k as int));
                assert(t.last() == state@[k as int]);
            }
            push_triple_row(out, q, state[k], tool);
            assert(out@ =~= mid + wave_triples_of(q, state@.take(k + 1), tool@));
            k = k + 1;
        }
        assert(state@.take(state@.len() as int) =~= state@);
        assert(out@ =~= start + wave_triples(request@.take(i + 1), state@, tool@));
        i = i + 1;
    }
    assert(request@.take(request@.len() as int) =~= request@);
}

// ---------------------------------------------------------------- orders

/// Ranked ids in selection order: higher priority first, then lower id.
pub open spec fn rank_before(a: (u32, u64), b: (u32, u64)) -> bool {
    a.0 > b.0 || (a.0 == b.0 && a.1 < b.1)
}

fn rank_less(a: &(u32, u64), b: &(u32, u64)) -> (r: bool)
    ensures
        r == rank_before(*a, *b),
{
    a.0 > b.0 || (a.0 == b.0 && a.1 < b.1)
}

/// `x` inserted before the first element that is not below it.
pub open spec fn insert_rank(s: Seq<(u32, u64)>, x: (u32, u64)) -> Seq<(u32, u64)>
    decreases s.len(),
{
    if s.len() == 0 {
        seq![x]
    } else if rank_before(s[0], x) {
        seq![s[0]] + insert_rank(s.subrange(1, s.len() as int), x)
    } else {
        seq![x] + s
    }
}

/// The elements in ascending order (insertion sort).
pub open spec fn sort_ranks(s: Seq<(u32, u64)>) -> Seq<(u32, u64)>
    decreases s.len(),
{
    if s.len() == 0 {
        s
    } else {
        insert_rank(sort_ranks(s.drop_last()), s.last())
    }
}

proof fn lemma_insert_rank_at(s: Seq<(u32, u64)>, x: (u32, u64), p: int)
    requires
        0 <= p <= s.len(),
        forall|k: int| 0 <= k < p ==> rank_before(#[trigger] s[k], x),
        p == s.len() || !rank_before(s[p], x),
    ensures
        insert_rank(s, x) == s.insert(p, x),
    decreases s.len(),
{
    if s.len() == 0 {
        assert(s.insert(p, x) =~= seq![x]);
    } else if p == 0 {
        assert(s.insert(0, x) =~= seq![x] + s);
    } else {
        let t = s.subrange(1, s.len() as int);
        assert forall|k: int| 0 <= k < p - 1 implies rank_before(#[trigger] t[k], x) by {
            assert(t[k] == s[k + 1]);
        }
        if p - 1 < t.len() {
            assert(t[p - 1] == s[p]);
        }
        lemma_insert_rank_at(t, x, p - 1);
        assert(s.insert(p, x) =~= seq![s[0]] + t.insert(p - 1, x));
    }
}

fn sorted_ranks(v: &[(u32, u64)]) -> (r: Vec<(u32, u64)>)
    ensures
        r@ == sort_ranks(v@),
{
    let mut out: Vec<(u32, u64)> = Vec::new();
    let mut i: usize = 0;
    while i < v.len()
        invariant
            i <= v@.len(),
            out@ == sort_ranks(v@.take(i as int)),
            out@.len() == i,
        decreases v@.len() - i,
    {
        let x = v[i];
        let mut p: usize = 0;
        while p < out.len() && rank_less(&out[p], &x)
            invariant
                p <= out@.len(),
                forall|k: int| 0 <= k < p ==> rank_before(#[trigger] out@[k], x),
            decreases out@.len() - p,
        {
            p = p + 1;
        }
        proof {
            lemma_insert_rank_at(out@, x, p as int);
            assert(v@.take(i + 1).drop_last() =~= v@.take(i as int));
        }
        out.insert(p, x);
        i = i + 1;
    }
    assert(v@.take(v@.len() as int) =~= v@);
    out
}


/// Drops each entry whose id repeats that of the entry kept before it.
pub open spec fn dedup_ids(s: Seq<(u32, u64)>) -> Seq<(u32, u64)>
    decreases s.len(),
{
    if s.len() == 0 {
        s
    } else {
        let d = dedup_ids(s.drop_last());
        if d.len() > 0 && d.last().1 == s.last().1 { d } else { d.push(s.last()) }
    }
}

fn dedup_ids_exec(v: &Vec<(u32, u64)>) -> (r: Vec<(u32, u64)>)
    ensures
        r@ == dedup_ids(v@),
{
    let mut out: Vec<(u32, u64)> = Vec::new();
    let mut i: usize = 0;
    while i < v.len()
        invariant
            i <= v@.len(),
            out@ == dedup_ids(v@.take(i as int)),
        decreases v@.len() - i,
    {
        proof {
            let t = v@.take(i + 1);
            assert(t.drop_last() =~= v@.take(i as int));
            assert(t.last() == v@[i as int]);
        }
        let x = v[i];
        let n = out.len();
        if n > 0 && out[n - 1].1 == x.1 {
        } else {
            out.push(x);
        }
        i = i + 1;
    }
    assert(v@.take(v@.len() as int) =~= v@);
    out
}

/// `x` put in place in a strictly increasing list, unless it is there already.
pub open spec fn insert_unique(s: Seq<u64>, x: u64) -> Seq<u64>
    decreases s.len(),
{
    if s.len() == 0 {
        seq![x]
    } else if s[0] < x {
        seq![s[0]] + insert_unique(s.subrange(1, s.len() as int), x)
    } else if s[0] == x {
        s
    } else {
        seq![x] + s
    }
}

/// The distinct values in increasing order.
pub open spec fn sorted_unique(s: Seq<u64>) -> Seq<u64>
    decreases s.len(),
{
    if s.len() == 0 {
        s
    } else {
        insert_unique(sorted_unique(s.drop_last()), s.last())
    }
}

proof fn lemma_insert_unique_at(s: Seq<u64>, x: u64, p: int)
    requires
        0 <= p <= s.len(),
        forall|k: int| 0 <= k < p ==> #[trigger] s[k] < x,
        p == s.len() || s[p] >= x,
    ensures
        p < s.len() && s[p] == x ==> insert_unique(s, x) == s,
        !(p < s.len() && s[p] == x) ==> insert_unique(s, x) == s.insert(p, x),
    decreases s.len(),
{
    if s.len() == 0 {
        assert(s.insert(p, x) =~= seq![x]);
    } else if p == 0 {
        assert(s.insert(0, x) =~= seq![x] + s);
    } else {
        let t = s.subrange(1, s.len() as int);
        assert forall|k: int| 0 <= k < p - 1 implies #[trigger] t[k] < x by {
            assert(t[k] == s[k + 1]);
        }
        if p - 1 < t.len() {
            assert(t[p - 1] == s[p]);
        }
        lemma_insert_unique_at(t, x, p - 1);
        assert(s.insert(p, x) =~= seq![s[0]] + t.insert(p - 1, x));
        assert(s =~= seq![s[0]] + t);
    }
}

/// The distinct values of a list, in increasing order.
pub fn sort_dedup_u64(v: &[u64]) -> (r: Vec<u64>)
    ensures
        r@ == sorted_unique(v@),
{
    let mut out: Vec<u64> = Vec::new();
    let mut i: usize = 0;
    while i < v.len()
        invariant
            i <= v@.len(),
            out@ == sorted_unique(v@.take(i as int)),
        decreases v@.len() - i,
    {
        let x = v[i];
        let mut p: usize = 0;
        while p < out.len() && out[p] < x
            invariant
                p <= out@.len(),
                forall|k: int| 0 <= k < p ==> #[trigger] out@[k] < x,
            decreases out@.len() - p,
        {
            p = p + 1;
        }
        proof {
            lemma_insert_unique_at(out@, x, p as int);
            assert(v@.take(i + 1).drop_last() =~= v@.take(i as int));
        }
        if !(p < out.len() && out[p] == x) {
            out.insert(p, x);
        }
        i = i + 1;
    }
    assert(v@.take(v@.len() as int) =~= v@);
    out
}

/// The first `n` values (all of them when there are fewer).
pub open spec fn prefix(s: Seq<u64>, n: nat) -> Seq<u64> {
    if s.len() <= n { s } else { s.take(n as int) }
}

// ---------------------------------------------------------------- balanced selection

/// A group in selection order, with each entry whose id repeats that of the
/// entry just before it dropped.
pub open spec fn selection_group(g: Seq<(u32, u64)>) -> Seq<(u32, u64)> {
    dedup_ids(sort_ranks(g))
}

/// The ids at position `r` of the first `k` groups, in group order.
pub open spec fn rank_row(gs: Seq<Seq<(u32, u64)>>, r: int, k: int) -> Seq<u64>
    decreases k,
{
    if k <= 0 {
        Seq::empty()
    } else {
        rank_row(gs, r, k - 1) + if r < gs[k - 1].len() { seq![gs[k - 1][r].1] } else { Seq::empty() }
    }
}

/// The ids of positions `0 .. r` of every group, position by position.
pub open spec fn round_robin(gs: Seq<Seq<(u32, u64)>>, r: int) -> Seq<u64>
    decreases r,
{
    if r <= 0 {
        Seq::empty()
    } else {
        round_robin(gs, r - 1) + rank_row(gs, r - 1, gs.len() as int)
    }
}

/// Each value at its first occurrence, in order.
pub open spec fn distinct_in_order(s: Seq<u64>) -> Seq<u64>
    decreases s.len(),
{
    if s.len() == 0 {
        s
    } else {
        let d = distinct_in_order(s.drop_last());
        if d.contains(s.last()) { d } else { d.push(s.last()) }
    }
}

/// The longest group's length.
pub open spec fn longest(gs: Seq<Seq<(u32, u64)>>) -> nat
    decreases gs.len(),
{
    if gs.len() == 0 {
        0
    } else {
        let m = longest(gs.drop_last());
        if gs.last().len() > m { gs.last().len() } else { m }
    }
}

/// The four groups of the balanced selection: request-state pairs,
/// state-tool pairs, request-tool pairs and triples.
pub open spec fn balanced_groups(request: Seq<(u16, u64)>, state: Seq<(u16, u64)>, tool: Seq<(u16, u64)>) -> Seq<Seq<(u32, u64)>> {
    seq![
        selection_group(ranked_pairs(1, request, state)),
        selection_group(ranked_pairs(2, state, tool)),
        selection_group(ranked_pairs(3, request, tool)),
        selection_group(ranked_triples(request, state, tool)),
    ]
}

/// The balanced selection: the groups taken position by position, each id
/// once, stopping at `limit` ids (no stop for a limit of zero).
pub open spec fn balanced_ids(request: Seq<(u16, u64)>, state: Seq<(u16, u64)>, tool: Seq<(u16, u64)>, limit: nat) -> Seq<u64> {
    let gs = balanced_groups(request, state, tool);
    let d = distinct_in_order(round_robin(gs, longest(gs) as int));
    if limit > 0 && d.len() > limit { d.take(limit as int) } else { d }
}

proof fn lemma_distinct_prefix(s: Seq<u64>, t: Seq<u64>)
    ensures
        distinct_in_order(s).len() <= distinct_in_order(s + t).len(),
        distinct_in_order(s + t).take(distinct_in_order(s).len() as int) == distinct_in_order(s),
    decreases t.len(),
{
    if t.len() == 0 {
        assert(s + t =~= s);
        assert(distinct_in_order(s).take(distinct_in_order(s).len() as int) =~= distinct_in_order(s));
    } else {
        lemma_distinct_prefix(s, t.drop_last());
        assert((s + t).drop_last() =~= s + t.drop_last());
        let d = distinct_in_order(s + t.drop_last());
        let n = distinct_in_order(s).len() as int;
        assert(d.push(t.last()).take(n) =~= d.take(n));
    }
}

fn contains_u64(v: &Vec<u64>, x: u64) -> (r: bool)
    ensures
        r == v@.contains(x),
{
    let mut i: usize = 0;
    while i < v.len()
        invariant
            i <= v@.len(),
            forall|k: int| 0 <= k < i ==> v@[k] != x,
        decreases v@.len() - i,
    {
        if v[i] == x {
            return true;
        }
        i = i + 1;
    }
    false
}

/// The balanced selection of hidden ids from the ranked request, state and
/// tool atoms.
pub fn balanced_wave_hidden_atom_ids(
    request: &[(u16, u64)],
    state: &[(u16, u64)],
    tool: &[(u16, u64)],
    limit: usize,
) -> (r: Vec<u64>)
    ensures
        r@ == balanced_ids(request@, state@, tool@, limit as nat),
{
    let g1 = dedup_ids_exec(&sorted_ranks(ranked_wave_pairs(1, request, state).as_slice()));
    let g2 = dedup_ids_exec(&sorted_ranks(ranked_wave_pairs(2, state, tool).as_slice()));
    let g3 = dedup_ids_exec(&sorted_ranks(ranked_wave_pairs(3, request, tool).as_slice()));
    let g4 = dedup_ids_exec(&sorted_ranks(ranked_wave_triples(request, state, tool).as_slice()));
    let groups: Vec<Vec<(u32, u64)>> = vec![g1, g2, g3, g4];
    let ghost gs = balanced_groups(request@, state@, tool@);
    proof {
        assert(groups@.map_values(|g: Vec<(u32, u64)>| g@) =~= gs);
    }
    let mut max_len: usize = 0;
    let mut k: usize = 0;
    while k < groups.len()
        invariant
            k <= groups@.len(),
            groups@.map_values(|g: Vec<(u32, u64)>| g@) == gs,
            max_len == longest(gs.take(k as int)),
        decreases groups@.len() - k,
    {
        proof {
            assert(gs.take(k + 1).drop_last() =~= gs.take(k as int));
            assert(gs[k as int] == groups@[k as int]@);
        }
        if groups[k].len() > max_len {
            max_len = groups[k].len();
        }
        k = k + 1;
    }
    assert(gs.take(4) =~= gs);
    let mut output: Vec<u64> = Vec::new();
    let mut rank: usize = 0;
    while rank < max_len
        invariant
            groups@.len() == 4,
            groups@.map_values(|g: Vec<(u32, u64)>| g@) == gs,
            gs == balanced_groups(request@, state@, tool@),
            max_len == longest(gs),
            rank <= max_len,
            output@ == distinct_in_order(round_robin(gs, rank as int)),
            limit == 0 || output@.len() < limit,
        decreases max_len - rank,
    {
        let mut g: usize = 0;
        while g < 4
            invariant
                groups@.len() == 4,
                groups@.map_values(|g: Vec<(u32, u64)>| g@) == gs,
                gs == balanced_groups(request@, state@, tool@),
                max_len == longest(gs),
                rank < max_len,
                g <= 4,
                output@ == distinct_in_order(round_robin(gs, rank as int) + rank_row(gs, rank as int, g as int)),
                limit == 0 || output@.len() < limit,
            decreases 4 - g,
        {
            let ghost before = round_robin(gs, rank as int) + rank_row(gs, rank as int, g as int);
            proof {
                assert(gs[g as int] == groups@[g as int]@);
            }
            if rank < groups[g].len() {
                let id = groups[g][rank].1;
                let ghost after = before.push(id);
                proof {
                    assert(round_robin(gs, rank as int) + rank_row(gs, rank as int, g + 1) =~= after);
                    assert(after.drop_last() =~= before);
                }
                if !contains_u64(&output, id) {
                    output.push(id);
                    if output.len() == limit {
                        proof {
                            lemma_selection_prefix(gs, rank as int, g as int);
                            let d = distinct_in_order(round_robin(gs, longest(gs) as int));
                            assert(output@ == distinct_in_order(after));
                            assert(d.take(d.len() as int) =~= d);
                        }
                        return output;
                    }
                }
            } else {
                proof {
                    assert(round_robin(gs, rank as int) + rank_row(gs, rank as int, g + 1) =~= before);
                }
            }
            g = g + 1;
        }
        proof {
            assert(round_robin(gs, rank + 1) == round_robin(gs, rank as int) + rank_row(gs, rank as int, 4));
        }
        rank = rank + 1;
    }
    output
}

/// What the round robin has produced up to a group at some position is a
/// prefix of the whole round robin, and so is its distinct part.
proof fn lemma_selection_prefix(gs: Seq<Seq<(u32, u64)>>, rank: int, g: int)
    requires
        gs.len() == 4,
        0 <= rank < longest(gs),
        0 <= g < 4,
    ensures
        ({
            let after = round_robin(gs, rank) + rank_row(gs, rank, g + 1);
            let d = distinct_in_order(round_robin(gs, longest(gs) as int));
            &&& distinct_in_order(after).len() <= d.len()
            &&& d.take(distinct_in_order(after).len() as int) == distinct_in_order(after)
        }),
{
    let after = round_robin(gs, rank) + rank_row(gs, rank, g + 1);
    let full = round_robin(gs, longest(gs) as int);
    lemma_round_robin_extends(gs, rank + 1, longest(gs) as int);
    let rest = full.subrange(round_robin(gs, rank + 1).len() as int, full.len() as int);
    lemma_row_extends(gs, rank, g + 1, 4);
    let row4 = rank_row(gs, rank, 4);
    let n1 = rank_row(gs, rank, g + 1).len() as int;
    let row_rest = row4.subrange(n1, row4.len() as int);
    assert(row4 =~= row4.take(n1) + row_rest);
    assert(round_robin(gs, rank + 1) == round_robin(gs, rank) + row4);
    assert(round_robin(gs, rank + 1) =~= after + row_rest);
    let n = round_robin(gs, rank + 1).len() as int;
    assert(full =~= full.take(n) + rest);
    assert(full =~= after + (row_rest + rest));
    lemma_distinct_prefix(after, row_rest + rest);
}

/// Later positions only add to the round robin.
proof fn lemma_round_robin_extends(gs: Seq<Seq<(u32, u64)>>, r: int, m: int)
    requires
        0 <= r <= m,
    ensures
        round_robin(gs, r).len() <= round_robin(gs, m).len(),
        round_robin(gs, m).take(round_robin(gs, r).len() as int) == round_robin(gs, r),
    decreases m - r,
{
    if r < m {
        lemma_round_robin_extends(gs, r, m - 1);
        let a = round_robin(gs, r);
        let b = round_robin(gs, m - 1);
        assert((b + rank_row(gs, m - 1, gs.len() as int)).take(a.len() as int) =~= b.take(a.len() as int));
    } else {
        assert(round_robin(gs, r).take(round_robin(gs, r).len() as int) =~= round_robin(gs, r));
    }
}

/// Later groups only add to a row.
proof fn lemma_row_extends(gs: Seq<Seq<(u32, u64)>>, r: int, k: int, m: int)
    requires
        0 <= k <= m,
    ensures
        rank_row(gs, r, k).len() <= rank_row(gs, r, m).len(),
        rank_row(gs, r, m).take(rank_row(gs, r, k).len() as int) == rank_row(gs, r, k),
    decreases m - k,
{
    if k < m {
        lemma_row_extends(gs, r, k, m - 1);
        let a = rank_row(gs, r, k);
        let b = rank_row(gs, r, m - 1);
        let tail = if r < gs[m - 1].len() { seq![gs[m - 1][r].1] } else { Seq::<u64>::empty() };
        assert((b + tail).take(a.len() as int) =~= b.take(a.len() as int));
    } else {
        assert(rank_row(gs, r, k).take(rank_row(gs, r, k).len() as int) =~= rank_row(gs, r, k));
    }
}

// ---------------------------------------------------------------- frames

/// Ranked atoms in selection order: higher priority first, then lower id.
pub open spec fn rank16_before(a: (u16, u64), b: (u16, u64)) -> bool {
    a.0 > b.0 || (a.0 == b.0 && a.1 < b.1)
}

fn rank16_less(a: &(u16, u64), b: &(u16, u64)) -> (r: bool)
    ensures
        r == rank16_before(*a, *b),
{
    a.0 > b.0 || (a.0 == b.0 && a.1 < b.1)
}

/// `x` inserted before the first element that is not below it.
pub open spec fn insert_rank16(s: Seq<(u16, u64)>, x: (u16, u64)) -> Seq<(u16, u64)>
    decreases s.len(),
{
    if s.len() == 0 {
        seq![x]
    } else if rank16_before(s[0], x) {
        seq![s[0]] + insert_rank16(s.subrange(1, s.len() as int), x)
    } else {
        seq![x] + s
    }
}

/// The elements in ascending order (insertion sort).
pub open spec fn sort_rank16s(s: Seq<(u16, u64)>) -> Seq<(u16, u64)>
    decreases s.len(),
{
    if s.len() == 0 {
        s
    } else {
        insert_rank16(sort_rank16s(s.drop_last()), s.last())
    }
}

proof fn lemma_insert_rank16_at(s: Seq<(u16, u64)>, x: (u16, u64), p: int)
    requires
        0 <= p <= s.len(),
        forall|k: int| 0 <= k < p ==> rank16_before(#[trigger] s[k], x),
        p == s.len() || !rank16_before(s[p], x),
    ensures
        insert_rank16(s, x) == s.insert(p, x),
    decreases s.len(),
{
    if s.len() == 0 {
        assert(s.insert(p, x) =~= seq![x]);
    } else if p == 0 {
        assert(s.insert(0, x) =~= seq![x] + s);
    } else {
        let t = s.subrange(1, s.len() as int);
        assert forall|k: int| 0 <= k < p - 1 implies rank16_before(#[trigger] t[k], x) by {
            assert(t[k] == s[k + 1]);
        }
        if p - 1 < t.len() {
            assert(t[p - 1] == s[p]);
        }
        lemma_insert_rank16_at(t, x, p - 1);
        assert(s.insert(p, x) =~= seq![s[0]] + t.insert(p - 1, x));
    }
}

fn sorted_rank16s(v: &[(u16, u64)]) -> (r: Vec<(u16, u64)>)
    ensures
        r@ == sort_rank16s(v@),
{
    let mut out: Vec<(u16, u64)> = Vec::new();
    let mut i: usize = 0;
    while i < v.len()
        invariant
            i <= v@.len(),
            out@ == sort_rank16s(v@.take(i as int)),
            out@.len() == i,
        decreases v@.len() - i,
    {
        let x = v[i];
        let mut p: usize = 0;
        while p < out.len() && rank16_less(&out[p], &x)
            invariant
                p <= out@.len(),
                forall|k: int| 0 <= k < p ==> rank16_before(#[trigger] out@[k], x),
            decreases out@.len() - p,
        {
            p = p + 1;
        }
        proof {
            lemma_insert_rank16_at(out@, x, p as int);
            assert(v@.take(i + 1).drop_last() =~= v@.take(i as int));
        }
        out.insert(p, x);
        i = i + 1;
    }
    assert(v@.take(v@.len() as int) =~= v@);
    out
}


pub open spec fn dedup_ids16(s: Seq<(u16, u64)>) -> Seq<(u16, u64)>
    decreases s.len(),
{
    if s.len() == 0 {
        s
    } else {
        let d = dedup_ids16(s.drop_last());
        if d.len() > 0 && d.last().1 == s.last().1 { d } else { d.push(s.last()) }
    }
}

fn dedup_ids16_exec(v: &Vec<(u16, u64)>) -> (r: Vec<(u16, u64)>)
    ensures
        r@ == dedup_ids16(v@),
{
    let mut out: Vec<(u16, u64)> = Vec::new();
    let mut i: usize = 0;
    while i < v.len()
        invariant
            i <= v@.len(),
            out@ == dedup_ids16(v@.take(i as int)),
        decreases v@.len() - i,
    {
        proof {
            let t = v@.take(i + 1);
            assert(t.drop_last() =~= v@.take(i as int));
            assert(t.last() == v@[i as int]);
        }
        let x = v[i];
        let n = out.len();
        if n > 0 && out[n - 1].1 == x.1 {
        } else {
            out.push(x);
        }
        i = i + 1;
    }
    assert(v@.take(v@.len() as int) =~= v@);
    out
}

/// The atom is a typed slot with this id, filled by the request or an observation.
pub open spec fn fills_slot(atom: RelationAtom, slot: u16) -> bool {
    match atom {
        RelationAtom::TypedSlot { slot_id, source, .. } =>
            slot_id == slot && (source == AtomSource::Request || source == AtomSource::Observation),
        _ => false,
    }
}

/// A typed slot that the request or an observation filled before the action.
pub open spec fn is_pre_action_slot(atoms: Seq<RelationAtom>, slot: u16) -> bool {
    exists|i: int| 0 <= i < atoms.len() && #[trigger] fills_slot(atoms[i], slot)
}

pub const WAVE_LAYER_REQUEST: u8 = 0;
pub const WAVE_LAYER_STATE: u8 = 1;
pub const WAVE_LAYER_TOOL: u8 = 2;

/// The layer of an atom in the hidden wave: request, state or tool, or none.
pub open spec fn wave_layer(atoms: Seq<RelationAtom>, atom: RelationAtom) -> Option<u8> {
    match atom {
        RelationAtom::TypedSlot { source: AtomSource::Request, .. } => Some(WAVE_LAYER_REQUEST),
        RelationAtom::RequestPhaseAtom { .. } | RelationAtom::ClientCapabilityAtom { .. }
        | RelationAtom::ReconstructedClientCapabilityAtom { .. } => Some(WAVE_LAYER_REQUEST),
        RelationAtom::TypedSlot { source: AtomSource::Observation, .. } => Some(WAVE_LAYER_TOOL),
        RelationAtom::ObservationCallShape { .. } | RelationAtom::CollectionShape { .. }
        | RelationAtom::ToolKind { .. } | RelationAtom::OutputStatus { .. } => Some(WAVE_LAYER_TOOL),
        RelationAtom::ObservationSelector { slot_id, .. } =>
            if is_pre_action_slot(atoms, slot_id) { Some(WAVE_LAYER_TOOL) } else { None },
        RelationAtom::SlotEquality { left_slot, right_slot } =>
            if is_pre_action_slot(atoms, left_slot) && is_pre_action_slot(atoms, right_slot) {
                Some(WAVE_LAYER_STATE)
            } else {
                None
            },
        RelationAtom::UniqueSlot { slot_id } =>
            if is_pre_action_slot(atoms, slot_id) { Some(WAVE_LAYER_STATE) } else { None },
        RelationAtom::TypedEquality { .. } | RelationAtom::Cardinality { .. }
        | RelationAtom::TemporalEdge { .. } | RelationAtom::CompletionState { .. } => Some(WAVE_LAYER_STATE),
        _ => None,
    }
}

/// The ids of the first `n` atoms that fall in a layer, in order.
pub open spec fn layer_ids(atoms: Seq<RelationAtom>, ids: Seq<u64>, layer: u8, n: int) -> Seq<u64>
    decreases n,
{
    if n <= 0 {
        Seq::empty()
    } else {
        layer_ids(atoms, ids, layer, n - 1)
            + if wave_layer(atoms, atoms[n - 1]) == Some(layer) { seq![ids[n - 1]] } else { Seq::empty() }
    }
}

/// The ranked ids (kind priority, id) of the first `n` atoms in a layer.
pub open spec fn layer_ranked(atoms: Seq<RelationAtom>, ids: Seq<u64>, layer: u8, n: int) -> Seq<(u16, u64)>
    decreases n,
{
    if n <= 0 {
        Seq::empty()
    } else {
        layer_ranked(atoms, ids, layer, n - 1)
            + if wave_layer(atoms, atoms[n - 1]) == Some(layer) {
                seq![(source_priority(atoms[n - 1]), ids[n - 1])]
            } else {
                Seq::empty()
            }
    }
}

/// A layer's basis: its six lowest distinct ids.
pub open spec fn layer_basis(atoms: Seq<RelationAtom>, ids: Seq<u64>, layer: u8) -> Seq<u64> {
    prefix(sorted_unique(layer_ids(atoms, ids, layer, atoms.len() as int)), 6)
}

/// A layer's ranked basis: its first six entries in rank order, after each
/// entry whose id repeats that of the entry just before it is dropped.
pub open spec fn layer_ranked_basis(atoms: Seq<RelationAtom>, ids: Seq<u64>, layer: u8) -> Seq<(u16, u64)> {
    let s = dedup_ids16(sort_rank16s(layer_ranked(atoms, ids, layer, atoms.len() as int)));
    if s.len() <= 6 { s } else { s.take(6) }
}

/// The hidden wave ids of a frame whose atoms have the phase ids `ids`: the
/// twelve lowest ids of the layer pairs and triples, with the balanced
/// selection of twelve from the ranked bases, sorted and each once.
pub open spec fn hidden_wave_ids(atoms: Seq<RelationAtom>, ids: Seq<u64>) -> Seq<u64> {
    let request = layer_basis(atoms, ids, WAVE_LAYER_REQUEST);
    let state = layer_basis(atoms, ids, WAVE_LAYER_STATE);
    let tool = layer_basis(atoms, ids, WAVE_LAYER_TOOL);
    let legacy = legacy_wave_ids(request, state, tool);
    let balanced = balanced_ids(
        layer_ranked_basis(atoms, ids, WAVE_LAYER_REQUEST),
        layer_ranked_basis(atoms, ids, WAVE_LAYER_STATE),
        layer_ranked_basis(atoms, ids, WAVE_LAYER_TOOL),
        12,
    );
    sorted_unique(legacy + balanced)
}

fn pre_action_slots(atoms: &Vec<RelationAtom>) -> (r: Vec<u16>)
    ensures
        forall|s: u16| r@.contains(s) <==> is_pre_action_slot(atoms@, s),
{
    let mut out: Vec<u16> = Vec::new();
    let mut i: usize = 0;
    while i < atoms.len()
        invariant
            i <= atoms@.len(),
            forall|s: u16| out@.contains(s) <==> is_pre_action_slot(atoms@.take(i as int), s),
        decreases atoms@.len() - i,
    {
        let ghost before = out@;
        let a = &atoms[i];
        let filled: Option<u16> = match a {
            RelationAtom::TypedSlot { slot_id, source, .. } =>
                if *source == AtomSource::Request || *source == AtomSource::Observation { Some(*slot_id) } else { None },
            _ => None,
        };
        assert(forall|s: u16| fills_slot(*a, s) <==> filled == Some(s));
        if let Some(x) = filled {
            out.push(x);
        }
        proof {
            let t = atoms@.take(i + 1);
            let p = atoms@.take(i as int);
            assert(t.drop_last() =~= p);
            assert(t[i as int] == *a);
            assert forall|s: u16| is_pre_action_slot(t, s) <==> (is_pre_action_slot(p, s) || fills_slot(*a, s)) by {
                if is_pre_action_slot(t, s) {
                    let k = choose|k: int| 0 <= k < t.len() && #[trigger] fills_slot(t[k], s);
                    if k < i {
                        assert(p[k] == t[k]);
                    }
                }
                if is_pre_action_slot(p, s) {
                    let k = choose|k: int| 0 <= k < p.len() && #[trigger] fills_slot(p[k], s);
                    assert(t[k] == p[k]);
                }
            }
            assert forall|s: u16| out@.contains(s) <==> (before.contains(s) || filled == Some(s)) by {
                if out@.contains(s) && !before.contains(s) {
                    let j = choose|j: int| 0 <= j < out@.len() && out@[j] == s;
                    if filled is Some {
                        assert(out@ == before.push(filled->0));
                        if j < before.len() {
                            assert(before[j] == s);
                        }
                    } else {
                        assert(out@ == before);
                    }
                }
                if before.contains(s) {
                    let j = choose|j: int| 0 <= j < before.len() && before[j] == s;
                    assert(out@[j] == s);
                }
                if filled == Some(s) {
                    assert(out@[out@.len() - 1] == s);
                }
            }
            assert forall|s: u16| out@.contains(s) <==> is_pre_action_slot(t, s) by {
                assert(before.contains(s) <==> is_pre_action_slot(p, s));
                assert(fills_slot(*a, s) <==> filled == Some(s));
            }
        }
        i = i + 1;
    }
    assert(atoms@.take(atoms@.len() as int) =~= atoms@);
    out
}

fn slot_listed(slots: &Vec<u16>, s: u16) -> (r: bool)
    ensures
        r == slots@.contains(s),
{
    let mut i: usize = 0;
    while i < slots.len()
        invariant
            i <= slots@.len(),
            forall|k: int| 0 <= k < i ==> slots@[k] != s,
        decreases slots@.len() - i,
    {
        if slots[i] == s {
            return true;
        }
        i = i + 1;
    }
    false
}

fn wave_layer_exec(atoms: &Vec<RelationAtom>, slots: &Vec<u16>, atom: &RelationAtom) -> (r: Option<u8>)
    requires
        forall|s: u16| slots@.contains(s) <==> is_pre_action_slot(atoms@, s),
    ensures
        r == wave_layer(atoms@, *atom),
{
    match atom {
        RelationAtom::TypedSlot { source: AtomSource::Request, .. } => Some(WAVE_LAYER_REQUEST),
        RelationAtom::RequestPhaseAtom { .. } | RelationAtom::ClientCapabilityAtom { .. }
        | RelationAtom::ReconstructedClientCapabilityAtom { .. } => Some(WAVE_LAYER_REQUEST),
        RelationAtom::TypedSlot { source: AtomSource::Observation, .. } => Some(WAVE_LAYER_TOOL),
        RelationAtom::ObservationCallShape { .. } | RelationAtom::CollectionShape { .. }
        | RelationAtom::ToolKind { .. } | RelationAtom::OutputStatus { .. } => Some(WAVE_LAYER_TOOL),
        RelationAtom::ObservationSelector { slot_id, .. } =>
            if slot_listed(slots, *slot_id) { Some(WAVE_LAYER_TOOL) } else { None },
        RelationAtom::SlotEquality { left_slot, right_slot } =>
            if slot_listed(slots, *left_slot) && slot_listed(slots, *right_slot) {
                Some(WAVE_LAYER_STATE)
            } else {
                None
            },
        RelationAtom::UniqueSlot { slot_id } =>
            if slot_listed(slots, *slot_id) { Some(WAVE_LAYER_STATE) } else { None },
        RelationAtom::TypedEquality { .. } | RelationAtom::Cardinality { .. }
        | RelationAtom::TemporalEdge { .. } | RelationAtom::CompletionState { .. } => Some(WAVE_LAYER_STATE),
        _ => None,
    }
}

fn append_ids(out: &mut Vec<u64>, v: &Vec<u64>)
    ensures
        final(out)@ == old(out)@ + v@,
{
    let ghost start = out@;
    let mut i: usize = 0;
    while i < v.len()
        invariant
            i <= v@.len(),
            out@ == start + v@.take(i as int),
        decreases v@.len() - i,
    {
        out.push(v[i]);
        assert(out@ =~= start + v@.take(i + 1));
        i = i + 1;
    }
    assert(v@.take(v@.len() as int) =~= v@);
}

/// The atoms of each layer of a frame, in order: their ids, and their
/// ranked ids.
struct WaveLayers {
    request: Vec<u64>,
    state: Vec<u64>,
    tool: Vec<u64>,
    ranked_request: Vec<(u16, u64)>,
    ranked_state: Vec<(u16, u64)>,
    ranked_tool: Vec<(u16, u64)>,
}

fn wave_layers(atoms: &Vec<RelationAtom>, atom_ids: &[u64]) -> (w: WaveLayers)
    requires
        atom_ids@.len() == atoms@.len(),
    ensures
        w.request@ == layer_ids(atoms@, atom_ids@, WAVE_LAYER_REQUEST, atoms@.len() as int),
        w.state@ == layer_ids(atoms@, atom_ids@, WAVE_LAYER_STATE, atoms@.len() as int),
        w.tool@ == layer_ids(atoms@, atom_ids@, WAVE_LAYER_TOOL, atoms@.len() as int),
        w.ranked_request@ == layer_ranked(atoms@, atom_ids@, WAVE_LAYER_REQUEST, atoms@.len() as int),
        w.ranked_state@ == layer_ranked(atoms@, atom_ids@, WAVE_LAYER_STATE, atoms@.len() as int),
        w.ranked_tool@ == layer_ranked(atoms@, atom_ids@, WAVE_LAYER_TOOL, atoms@.len() as int),
{
    let slots = pre_action_slots(atoms);
    let mut request: Vec<u64> = Vec::new();
    let mut state: Vec<u64> = Vec::new();
    let mut tool: Vec<u64> = Vec::new();
    let mut ranked_request: Vec<(u16, u64)> = Vec::new();
    let mut ranked_state: Vec<(u16, u64)> = Vec::new();
    let mut ranked_tool: Vec<(u16, u64)> = Vec::new();
    let mut i: usize = 0;
    while i < atoms.len()
        invariant
            i <= atoms@.len(),
            atom_ids@.len() == atoms@.len(),
            forall|s: u16| slots@.contains(s) <==> is_pre_action_slot(atoms@, s),
            request@ == layer_ids(atoms@, atom_ids@, WAVE_LAYER_REQUEST, i as int),
            state@ == layer_ids(atoms@, atom_ids@, WAVE_LAYER_STATE, i as int),
            tool@ == layer_ids(atoms@, atom_ids@, WAVE_LAYER_TOOL, i as int),
            ranked_request@ == layer_ranked(atoms@, atom_ids@, WAVE_LAYER_REQUEST, i as int),
            ranked_state@ == layer_ranked(atoms@, atom_ids@, WAVE_LAYER_STATE, i as int),
            ranked_tool@ == layer_ranked(atoms@, atom_ids@, WAVE_LAYER_TOOL, i as int),
        decreases atoms@.len() - i,
    {
        let atom = &atoms[i];
        let layer = wave_layer_exec(atoms, &slots, atom);
        let id = atom_ids[i];
        let ranked = (wave_hidden_source_priority(atom), id);
        match layer {
            Some(l) => {
                if l == WAVE_LAYER_REQUEST {
                    request.push(id);
                    ranked_request.push(ranked);
                } else if l == WAVE_LAYER_STATE {
                    state.push(id);
                    ranked_state.push(ranked);
                } else {
                    tool.push(id);
                    ranked_tool.push(ranked);
                }
            },
            None => {},
        }
        proof {
            assert(layer is Some ==> layer->0 == WAVE_LAYER_REQUEST || layer->0 == WAVE_LAYER_STATE
                || layer->0 == WAVE_LAYER_TOOL);
        }
        assert(request@ =~= layer_ids(atoms@, atom_ids@, WAVE_LAYER_REQUEST, i + 1));
        assert(state@ =~= layer_ids(atoms@, atom_ids@, WAVE_LAYER_STATE, i + 1));
        assert(tool@ =~= layer_ids(atoms@, atom_ids@, WAVE_LAYER_TOOL, i + 1));
        assert(ranked_request@ =~= layer_ranked(atoms@, atom_ids@, WAVE_LAYER_REQUEST, i + 1));
        assert(ranked_state@ =~= layer_ranked(atoms@, atom_ids@, WAVE_LAYER_STATE, i + 1));
        assert(ranked_tool@ =~= layer_ranked(atoms@, atom_ids@, WAVE_LAYER_TOOL, i + 1));
        i = i + 1;
    }
    WaveLayers { request, state, tool, ranked_request, ranked_state, ranked_tool }
}

fn basis(ids: &Vec<u64>) -> (r: Vec<u64>)
    ensures
        r@ == prefix(sorted_unique(ids@), 6),
{
    let mut r = sort_dedup_u64(ids.as_slice());
    r.truncate(6);
    r
}

fn ranked_basis(ranked: &Vec<(u16, u64)>) -> (r: Vec<(u16, u64)>)
    ensures
        r@ == (if dedup_ids16(sort_rank16s(ranked@)).len() <= 6 {
            dedup_ids16(sort_rank16s(ranked@))
        } else {
            dedup_ids16(sort_rank16s(ranked@)).take(6)
        }),
{
    let mut r = dedup_ids16_exec(&sorted_rank16s(ranked.as_slice()));
    r.truncate(6);
    r
}

/// The twelve lowest ids of the layer pairs and triples.
pub open spec fn legacy_wave_ids(request: Seq<u64>, state: Seq<u64>, tool: Seq<u64>) -> Seq<u64> {
    prefix(sorted_unique(
        wave_pairs(1, request, state) + wave_pairs(2, state, tool) + wave_pairs(3, request, tool)
            + wave_triples(request, state, tool)), 12)
}

fn legacy_ids(rq: &Vec<u64>, st: &Vec<u64>, tl: &Vec<u64>) -> (r: Vec<u64>)
    ensures
        r@ == legacy_wave_ids(rq@, st@, tl@),
{
    let mut hidden: Vec<u64> = Vec::new();
    extend_wave_pairs(&mut hidden, 1, rq.as_slice(), st.as_slice());
    extend_wave_pairs(&mut hidden, 2, st.as_slice(), tl.as_slice());
    extend_wave_pairs(&mut hidden, 3, rq.as_slice(), tl.as_slice());
    extend_wave_triples(&mut hidden, rq.as_slice(), st.as_slice(), tl.as_slice());
    assert(hidden@ =~= wave_pairs(1, rq@, st@) + wave_pairs(2, st@, tl@) + wave_pairs(3, rq@, tl@)
        + wave_triples(rq@, st@, tl@));
    let mut legacy = sort_dedup_u64(hidden.as_slice());
    legacy.truncate(12);
    legacy
}

/// The hidden wave ids of a frame; `atom_ids[i]` is the phase atom id of
/// the frame's atom `i`.
pub fn relation_frame_hidden_wave_atom_ids(frame: &RelationFrame, atom_ids: &[u64]) -> (r: Vec<u64>)
    requires
        atom_ids@.len() == frame.atoms@.len(),
    ensures
        r@ == hidden_wave_ids(frame.atoms@, atom_ids@),
{
    let w = wave_layers(&frame.atoms, atom_ids);
    let rq = basis(&w.request);
    let st = basis(&w.state);
    let tl = basis(&w.tool);
    let brq = ranked_basis(&w.ranked_request);
    let bst = ranked_basis(&w.ranked_state);
    let btl = ranked_basis(&w.ranked_tool);
    let mut legacy = legacy_ids(&rq, &st, &tl);
    let balanced = balanced_wave_hidden_atom_ids(brq.as_slice(), bst.as_slice(), btl.as_slice(), 12);
    append_ids(&mut legacy, &balanced);
    sort_dedup_u64(legacy.as_slice())
}

/// Whether an atom takes part in routing: atoms of the action, its outcome
/// slots, slot equalities and the response shape do not.
pub open spec fn routes(atom: RelationAtom) -> bool {
    match atom {
        RelationAtom::TypedSlot { source, .. } => !(source == AtomSource::Action || source == AtomSource::Outcome),
        RelationAtom::SlotEquality { .. } | RelationAtom::ActionFunction { .. }
        | RelationAtom::ActionCustomTool { .. } | RelationAtom::ActionInnerTool { .. }
        | RelationAtom::ActionRoleArgument { .. } | RelationAtom::ActionIntegerArgument { .. }
        | RelationAtom::ActionStringArgument { .. } | RelationAtom::ActionBooleanArgument { .. }
        | RelationAtom::ActionResultProjection { .. } | RelationAtom::ActionOutputProjection { .. }
        | RelationAtom::ActionJsonResultProjection | RelationAtom::ActionValueProjection { .. }
        | RelationAtom::ActionStatusProjection { .. } | RelationAtom::ReconstructedClientCapabilityAtom { .. }
        | RelationAtom::ResponseShape { .. } => false,
        _ => true,
    }
}

fn routes_exec(atom: &RelationAtom) -> (r: bool)
    ensures
        r == routes(*atom),
{
    match atom {
        RelationAtom::TypedSlot { source, .. } => !(*source == AtomSource::Action || *source == AtomSource::Outcome),
        RelationAtom::SlotEquality { .. } | RelationAtom::ActionFunction { .. }
        | RelationAtom::ActionCustomTool { .. } | RelationAtom::ActionInnerTool { .. }
        | RelationAtom::ActionRoleArgument { .. } | RelationAtom::ActionIntegerArgument { .. }
        | RelationAtom::ActionStringArgument { .. } | RelationAtom::ActionBooleanArgument { .. }
        | RelationAtom::ActionResultProjection { .. } | RelationAtom::ActionOutputProjection { .. }
        | RelationAtom::ActionJsonResultProjection | RelationAtom::ActionValueProjection { .. }
        | RelationAtom::ActionStatusProjection { .. } | RelationAtom::ReconstructedClientCapabilityAtom { .. }
        | RelationAtom::ResponseShape { .. } => false,
        _ => true,
    }
}

/// The ids of the first `n` atoms that take part in routing, in order.
pub open spec fn routing_ids(atoms: Seq<RelationAtom>, ids: Seq<u64>, n: int) -> Seq<u64>
    decreases n,
{
    if n <= 0 {
        Seq::empty()
    } else {
        routing_ids(atoms, ids, n - 1) + if routes(atoms[n - 1]) { seq![ids[n - 1]] } else { Seq::empty() }
    }
}

/// An atom that describes the action or its outcome rather than the
/// request: a slot filled by the action or its outcome, a slot equality, an
/// action atom, a reconstructed client capability or the response shape.
pub open spec fn describes_action_side(atom: RelationAtom) -> bool {
    ||| (atom is TypedSlot
        && (atom->TypedSlot_source == AtomSource::Action || atom->TypedSlot_source == AtomSource::Outcome))
    ||| atom is SlotEquality
    ||| atom is ActionFunction
    ||| atom is ActionCustomTool
    ||| atom is ActionInnerTool
    ||| atom is ActionRoleArgument
    ||| atom is ActionIntegerArgument
    ||| atom is ActionStringArgument
    ||| atom is ActionBooleanArgument
    ||| atom is ActionResultProjection
    ||| atom is ActionOutputProjection
    ||| atom is ActionJsonResultProjection
    ||| atom is ActionValueProjection
    ||| atom is ActionStatusProjection
    ||| atom is ReconstructedClientCapabilityAtom
    ||| atom is ResponseShape
}

/// The routing atom ids of a frame, sorted and each once; `atom_ids[i]` is
/// the phase atom id of the frame's atom `i`.
pub fn relation_frame_routing_atom_ids(frame: &RelationFrame, atom_ids: &[u64]) -> (r: Vec<u64>)
    requires
        atom_ids@.len() == frame.atoms@.len(),
    ensures
        r@ == sorted_unique(routing_ids(frame.atoms@, atom_ids@, frame.atoms@.len() as int)),
        strictly_increasing(r@),
        forall|y: u64| #[trigger] r@.contains(y) <==> exists|i: int| 0 <= i < frame.atoms@.len()
            && #[trigger] atom_ids@[i] == y && !describes_action_side(frame.atoms@[i]),
{
    proof {
        lemma_routing_ids_members(frame.atoms@, atom_ids@);
    }
    let mut ids: Vec<u64> = Vec::new();
    let mut i: usize = 0;
    while i < frame.atoms.len()
        invariant
            i <= frame.atoms@.len(),
            atom_ids@.len() == frame.atoms@.len(),
            ids@ == routing_ids(frame.atoms@, atom_ids@, i as int),
        decreases frame.atoms@.len() - i,
    {
        if routes_exec(&frame.atoms[i]) {
            ids.push(atom_ids[i]);
        }
        assert(ids@ =~= routing_ids(frame.atoms@, atom_ids@, i + 1));
        i = i + 1;
    }
    sort_dedup_u64(ids.as_slice())
}

/// The phase atom ids of a frame, sorted and each once; `atom_ids[i]` is
/// the phase atom id of the frame's atom `i`.
pub fn relation_frame_phase_atom_ids(frame: &RelationFrame, atom_ids: &[u64]) -> (r: Vec<u64>)
    requires
        atom_ids@.len() == frame.atoms@.len(),
    ensures
        r@ == sorted_unique(atom_ids@),
{
    sort_dedup_u64(atom_ids)
}

/// Whether an atom observes a value through a selector that denotes a
/// continuation handle.
pub open spec fn observes_continuation(atom: RelationAtom) -> bool {
    match atom {
        RelationAtom::ObservationSelector { selector, .. } => spec_selector_denotes_continuation_handle(selector),
        _ => false,
    }
}

fn observes_continuation_exec(atom: &RelationAtom) -> (r: bool)
    ensures
        r == observes_continuation(*atom),
{
    match atom {
        RelationAtom::ObservationSelector { selector, .. } => selector_denotes_continuation_handle(selector),
        _ => false,
    }
}

/// Whether some atom of a frame observes a continuation handle.
pub open spec fn continuation_pending(atoms: Seq<RelationAtom>) -> bool {
    exists|i: int| 0 <= i < atoms.len() && observes_continuation(#[trigger] atoms[i])
}

/// A list of ids without any copy of `x`, the rest in order.
pub open spec fn without_id(s: Seq<u64>, x: u64) -> Seq<u64>
    decreases s.len(),
{
    if s.len() == 0 {
        s
    } else {
        without_id(s.drop_last(), x) + if s.last() == x { Seq::empty() } else { seq![s.last()] }
    }
}

/// The tool kind ids of the first `n` atoms that name a tool kind, in order;
/// `kind_ids[i]` is the tool kind id of atom `i`.
pub open spec fn tool_kind_id_list(atoms: Seq<RelationAtom>, kind_ids: Seq<u64>, n: int) -> Seq<u64>
    decreases n,
{
    if n <= 0 {
        Seq::empty()
    } else {
        tool_kind_id_list(atoms, kind_ids, n - 1) + if atoms[n - 1] is ToolKind { seq![kind_ids[n - 1]] } else { Seq::empty() }
    }
}

/// The online routing ids of a frame before sorting: its routing ids (with
/// the completed id replaced by the pending id when a continuation handle
/// is observed), the tool kind ids and the hidden wave ids.
pub open spec fn online_routing_ids(
    atoms: Seq<RelationAtom>, atom_ids: Seq<u64>, kind_ids: Seq<u64>, completed_id: u64, pending_id: u64,
) -> Seq<u64> {
    let routing = routing_ids(atoms, atom_ids, atoms.len() as int);
    let base = if continuation_pending(atoms) { without_id(routing, completed_id).push(pending_id) } else { routing };
    base + tool_kind_id_list(atoms, kind_ids, atoms.len() as int) + hidden_wave_ids(atoms, atom_ids)
}

/// The routing ids of a frame for online learning, sorted and each once.
/// `atom_ids[i]` is the phase atom id of atom `i`, `tool_kind_ids[i]` the
/// id of its tool kind (read only for tool kind atoms); `completed_id` and
/// `pending_id` are the ids of the completed and pending completion states.
pub fn relation_frame_online_routing_atom_ids(
    frame: &RelationFrame, atom_ids: &[u64], tool_kind_ids: &[u64], completed_id: u64, pending_id: u64,
) -> (r: Vec<u64>)
    requires
        atom_ids@.len() == frame.atoms@.len(),
        tool_kind_ids@.len() == frame.atoms@.len(),
    ensures
        r@ == sorted_unique(online_routing_ids(frame.atoms@, atom_ids@, tool_kind_ids@, completed_id, pending_id)),
{
    let n = frame.atoms.len();
    let mut ids: Vec<u64> = Vec::new();
    let mut pending = false;
    let mut i: usize = 0;
    while i < n
        invariant
            n == frame.atoms@.len(),
            i <= n,
            atom_ids@.len() == n,
            ids@ == routing_ids(frame.atoms@, atom_ids@, i as int),
            pending == exists|j: int| 0 <= j < i && observes_continuation(#[trigger] frame.atoms@[j]),
        decreases n - i,
    {
        if routes_exec(&frame.atoms[i]) {
            ids.push(atom_ids[i]);
        }
        let seen = observes_continuation_exec(&frame.atoms[i]);
        proof {
            if seen {
                assert(observes_continuation(frame.atoms@[i as int]));
            }
        }
        pending = pending || seen;
        assert(ids@ =~= routing_ids(frame.atoms@, atom_ids@, i + 1));
        i = i + 1;
    }
    if pending {
        let mut kept: Vec<u64> = Vec::new();
        let mut k: usize = 0;
        while k < ids.len()
            invariant
                k <= ids@.len(),
                kept@ == without_id(ids@.take(k as int), completed_id),
            decreases ids@.len() - k,
        {
            if ids[k] != completed_id {
                kept.push(ids[k]);
            }
            assert(ids@.take(k + 1).drop_last() =~= ids@.take(k as int));
            assert(kept@ =~= without_id(ids@.take(k + 1), completed_id));
            k = k + 1;
        }
        assert(ids@.take(ids@.len() as int) =~= ids@);
        kept.push(pending_id);
        ids = kept;
    }
    let ghost base = ids@;
    let mut m: usize = 0;
    while m < n
        invariant
            n == frame.atoms@.len(),
            m <= n,
            tool_kind_ids@.len() == n,
            ids@ == base + tool_kind_id_list(frame.atoms@, tool_kind_ids@, m as int),
        decreases n - m,
    {
        if let RelationAtom::ToolKind { .. } = &frame.atoms[m] {
            ids.push(tool_kind_ids[m]);
        }
        assert(ids@ =~= base + tool_kind_id_list(frame.atoms@, tool_kind_ids@, m + 1));
        m = m + 1;
    }
    let hidden = relation_frame_hidden_wave_atom_ids(frame, atom_ids);
    append_ids(&mut ids, &hidden);
    sort_dedup_u64(ids.as_slice())
}

// ---------------------------------------------------------------- laws

proof fn lemma_insert_unique(t: Seq<u64>, x: u64)
    requires
        strictly_increasing(t),
    ensures
        strictly_increasing(insert_unique(t, x)),
        insert_unique(t, x).len() > 0,
        insert_unique(t, x)[0] == (if t.len() > 0 && t[0] < x { t[0] } else { x }),
        forall|y: u64| #[trigger] insert_unique(t, x).contains(y) <==> (t.contains(y) || y == x),
    decreases t.len(),
{
    let r = insert_unique(t, x);
    if t.len() == 0 {
        assert(r =~= seq![x]);
        assert forall|y: u64| r.contains(y) <==> (t.contains(y) || y == x) by {
            if r.contains(y) {
                assert(r[0] == y);
            }
            if y == x {
                assert(r[0] == y);
            }
        }
    } else if t[0] < x {
        let u = t.subrange(1, t.len() as int);
        assert forall|i: int| 0 <= i && i + 1 < u.len() implies #[trigger] adjacent_lt(u, i) by {
            assert(adjacent_lt(t, i + 1));
        }
        lemma_insert_unique(u, x);
        let ru = insert_unique(u, x);
        assert(r =~= seq![t[0]] + ru);
        assert forall|i: int| 0 <= i && i + 1 < r.len() implies #[trigger] adjacent_lt(r, i) by {
            if i == 0 {
                if u.len() > 0 {
                    assert(adjacent_lt(t, 0));
                }
            } else {
                assert(adjacent_lt(ru, i - 1));
            }
        }
        assert forall|y: u64| r.contains(y) <==> (t.contains(y) || y == x) by {
            if r.contains(y) {
                let j = choose|j: int| 0 <= j < r.len() && r[j] == y;
                if j == 0 {
                    assert(t[0] == y);
                    assert(t.contains(y));
                } else {
                    assert(ru[j - 1] == y);
                    assert(ru.contains(y));
                    if u.contains(y) {
                        let k = choose|k: int| 0 <= k < u.len() && u[k] == y;
                        assert(t[k + 1] == y);
                        assert(t.contains(y));
                    }
                }
            }
            if t.contains(y) {
                let k = choose|k: int| 0 <= k < t.len() && t[k] == y;
                if k == 0 {
                    assert(r[0] == y);
                } else {
                    assert(u[k - 1] == y);
                    assert(u.contains(y));
                    assert(ru.contains(y));
                    let j = choose|j: int| 0 <= j < ru.len() && ru[j] == y;
                    assert(r[j + 1] == y);
                }
            }
            if y == x {
                assert(ru.contains(y));
                let j = choose|j: int| 0 <= j < ru.len() && ru[j] == y;
                assert(r[j + 1] == y);
            }
        }
    } else if t[0] == x {
        assert forall|y: u64| r.contains(y) <==> (t.contains(y) || y == x) by {
            if y == x {
                assert(t[0] == y);
            }
        }
    } else {
        assert(r =~= seq![x] + t);
        assert forall|i: int| 0 <= i && i + 1 < r.len() implies #[trigger] adjacent_lt(r, i) by {
            if i > 0 {
                assert(adjacent_lt(t, i - 1));
            }
        }
        assert forall|y: u64| r.contains(y) <==> (t.contains(y) || y == x) by {
            if r.contains(y) {
                let j = choose|j: int| 0 <= j < r.len() && r[j] == y;
                if j > 0 {
                    assert(t[j - 1] == y);
                }
            }
            if t.contains(y) {
                let k = choose|k: int| 0 <= k < t.len() && t[k] == y;
                assert(r[k + 1] == y);
            }
            if y == x {
                assert(r[0] == y);
            }
        }
    }
}

/// Sorting and dropping repeats gives a strictly increasing list of exactly
/// the values of the input.
pub proof fn lemma_sorted_unique(s: Seq<u64>)
    ensures
        strictly_increasing(sorted_unique(s)),
        forall|y: u64| #[trigger] sorted_unique(s).contains(y) <==> s.contains(y),
    decreases s.len(),
{
    if s.len() > 0 {
        lemma_sorted_unique(s.drop_last());
        lemma_insert_unique(sorted_unique(s.drop_last()), s.last());
        assert forall|y: u64| sorted_unique(s).contains(y) <==> s.contains(y) by {
            let p = s.drop_last();
            if p.contains(y) {
                let k = choose|k: int| 0 <= k < p.len() && p[k] == y;
                assert(s[k] == y);
            }
            if y == s.last() {
                assert(s[s.len() - 1] == y);
            }
            if s.contains(y) {
                let k = choose|k: int| 0 <= k < s.len() && s[k] == y;
                if k < s.len() - 1 {
                    assert(p[k] == y);
                }
            }
        }
    }
}

/// An id is a routing id of a frame exactly when some atom that does not
/// describe the action side carries it: slots filled by the action or its
/// outcome, slot equalities, action atoms, reconstructed client
/// capabilities and the response shape never route on their own.
pub proof fn lemma_routing_ids_members(atoms: Seq<RelationAtom>, ids: Seq<u64>)
    requires
        ids.len() == atoms.len(),
    ensures
        strictly_increasing(sorted_unique(routing_ids(atoms, ids, atoms.len() as int))),
        forall|y: u64| #[trigger] sorted_unique(routing_ids(atoms, ids, atoms.len() as int)).contains(y)
            <==> exists|i: int| 0 <= i < atoms.len() && #[trigger] ids[i] == y && !describes_action_side(atoms[i]),
{
    let all = routing_ids(atoms, ids, atoms.len() as int);
    lemma_sorted_unique(all);
    lemma_routing_ids_contains(atoms, ids, atoms.len() as int);
    assert forall|i: int| 0 <= i < atoms.len() implies routes(#[trigger] atoms[i]) == !describes_action_side(atoms[i]) by {}
}

proof fn lemma_routing_ids_contains(atoms: Seq<RelationAtom>, ids: Seq<u64>, n: int)
    requires
        ids.len() == atoms.len(),
        0 <= n <= atoms.len(),
    ensures
        forall|y: u64| #[trigger] routing_ids(atoms, ids, n).contains(y)
            <==> exists|i: int| 0 <= i < n && #[trigger] ids[i] == y && routes(atoms[i]),
    decreases n,
{
    if n > 0 {
        lemma_routing_ids_contains(atoms, ids, n - 1);
        let p = routing_ids(atoms, ids, n - 1);
        let tail: Seq<u64> = if routes(atoms[n - 1]) { seq![ids[n - 1]] } else { Seq::empty() };
        assert(routing_ids(atoms, ids, n) == p + tail);
        assert forall|y: u64| #[trigger] routing_ids(atoms, ids, n).contains(y)
            <==> exists|i: int| 0 <= i < n && #[trigger] ids[i] == y && routes(atoms[i]) by {
            let q = p + tail;
            if q.contains(y) {
                let k = choose|k: int| 0 <= k < q.len() && q[k] == y;
                if k < p.len() {
                    assert(p[k] == y);
                    assert(p.contains(y));
                } else {
                    assert(ids[n - 1] == y && routes(atoms[n - 1]));
                }
            }
            if exists|i: int| 0 <= i < n && #[trigger] ids[i] == y && routes(atoms[i]) {
                let i = choose|i: int| 0 <= i < n && #[trigger] ids[i] == y && routes(atoms[i]);
                if i < n - 1 {
                    assert(p.contains(y));
                    let k = choose|k: int| 0 <= k < p.len() && p[k] == y;
                    assert(q[k] == y);
                } else {
                    assert(q[p.len() as int] == y);
                }
            }
        }
    }
}

/// A list in which no value occurs twice.
pub open spec fn no_repeats(s: Seq<u64>) -> bool {
    forall|i: int, j: int| 0 <= i < j < s.len() ==> s[i] != s[j]
}

proof fn lemma_distinct_in_order(s: Seq<u64>)
    ensures
        no_repeats(distinct_in_order(s)),
        forall|y: u64| #[trigger] distinct_in_order(s).contains(y) <==> s.contains(y),
    decreases s.len(),
{
    if s.len() > 0 {
        let p = s.drop_last();
        lemma_distinct_in_order(p);
        let d = distinct_in_order(p);
        assert forall|y: u64| distinct_in_order(s).contains(y) <==> s.contains(y) by {
            if p.contains(y) {
                let k = choose|k: int| 0 <= k < p.len() && p[k] == y;
                assert(s[k] == y);
            }
            if y == s.last() {
                assert(s[s.len() - 1] == y);
            }
            if s.contains(y) {
                let k = choose|k: int| 0 <= k < s.len() && s[k] == y;
                if k < s.len() - 1 {
                    assert(p[k] == y);
                }
            }
            if !d.contains(s.last()) && distinct_in_order(s).contains(y) {
                let j = choose|j: int| 0 <= j < d.len() + 1 && d.push(s.last())[j] == y;
                if j < d.len() {
                    assert(d[j] == y);
                }
            }
            if !d.contains(s.last()) && d.contains(y) {
                let j = choose|j: int| 0 <= j < d.len() && d[j] == y;
                assert(d.push(s.last())[j] == y);
            }
            if !d.contains(s.last()) && y == s.last() {
                assert(d.push(s.last())[d.len() as int] == y);
            }
        }
    }
}

/// The balanced selection holds each id once, at most `limit` of them when
/// the limit is not zero, and only ids of its groups.
pub proof fn lemma_balanced_ids(request: Seq<(u16, u64)>, state: Seq<(u16, u64)>, tool: Seq<(u16, u64)>, limit: nat)
    ensures
        no_repeats(balanced_ids(request, state, tool, limit)),
        limit > 0 ==> balanced_ids(request, state, tool, limit).len() <= limit,
        ({
            let gs = balanced_groups(request, state, tool);
            forall|y: u64| balanced_ids(request, state, tool, limit).contains(y)
                ==> round_robin(gs, longest(gs) as int).contains(y)
        }),
{
    let gs = balanced_groups(request, state, tool);
    let rr = round_robin(gs, longest(gs) as int);
    lemma_distinct_in_order(rr);
    let d = distinct_in_order(rr);
    let b = balanced_ids(request, state, tool, limit);
    assert forall|y: u64| b.contains(y) implies rr.contains(y) by {
        let j = choose|j: int| 0 <= j < b.len() && b[j] == y;
        assert(d[j] == y);
        assert(d.contains(y));
    }
}

proof fn lemma_insert_unique_len(t: Seq<u64>, x: u64)
    ensures
        insert_unique(t, x).len() <= t.len() + 1,
    decreases t.len(),
{
    if t.len() > 0 && t[0] < x {
        lemma_insert_unique_len(t.subrange(1, t.len() as int), x);
    }
}

/// Sorting and deduplicating never lengthens a sequence.
proof fn lemma_sorted_unique_len(s: Seq<u64>)
    ensures
        sorted_unique(s).len() <= s.len(),
    decreases s.len(),
{
    if s.len() > 0 {
        lemma_sorted_unique_len(s.drop_last());
        lemma_insert_unique_len(sorted_unique(s.drop_last()), s.last());
    }
}

/// Whether some atom of a frame falls in a layer of the hidden wave.
pub open spec fn layer_occupied(atoms: Seq<RelationAtom>, layer: u8) -> bool {
    exists|i: int| 0 <= i < atoms.len() && wave_layer(atoms, #[trigger] atoms[i]) == Some(layer)
}

proof fn lemma_empty_layer(atoms: Seq<RelationAtom>, ids: Seq<u64>, layer: u8, n: int)
    requires
        0 <= n <= atoms.len(),
        forall|i: int| 0 <= i < n ==> wave_layer(atoms, #[trigger] atoms[i]) != Some(layer),
    ensures
        layer_ids(atoms, ids, layer, n).len() == 0,
        layer_ranked(atoms, ids, layer, n).len() == 0,
    decreases n,
{
    if n > 0 {
        lemma_empty_layer(atoms, ids, layer, n - 1);
        assert(wave_layer(atoms, atoms[n - 1]) != Some(layer));
    }
}

proof fn lemma_unoccupied_basis(atoms: Seq<RelationAtom>, ids: Seq<u64>, layer: u8)
    requires
        !layer_occupied(atoms, layer),
    ensures
        layer_basis(atoms, ids, layer).len() == 0,
        layer_ranked_basis(atoms, ids, layer).len() == 0,
{
    lemma_empty_layer(atoms, ids, layer, atoms.len() as int);
    let l = layer_ids(atoms, ids, layer, atoms.len() as int);
    let r = layer_ranked(atoms, ids, layer, atoms.len() as int);
    assert(l =~= Seq::<u64>::empty());
    assert(r =~= Seq::<(u16, u64)>::empty());
    assert(sorted_unique(l).len() == 0);
    assert(sort_rank16s(r).len() == 0);
    assert(dedup_ids16(sort_rank16s(r)).len() == 0);
}

proof fn lemma_wave_pairs_empty(kind: u64, left: Seq<u64>, right: Seq<u64>)
    requires
        left.len() == 0 || right.len() == 0,
    ensures
        wave_pairs(kind, left, right).len() == 0,
    decreases left.len(),
{
    if left.len() > 0 {
        lemma_wave_pairs_empty(kind, left.drop_last(), right);
    }
}

proof fn lemma_ranked_pairs_empty(kind: u64, left: Seq<(u16, u64)>, right: Seq<(u16, u64)>)
    requires
        left.len() == 0 || right.len() == 0,
    ensures
        ranked_pairs(kind, left, right).len() == 0,
    decreases left.len(),
{
    if left.len() > 0 {
        lemma_ranked_pairs_empty(kind, left.drop_last(), right);
    }
}

proof fn lemma_wave_triples_empty(request: Seq<u64>, state: Seq<u64>, tool: Seq<u64>)
    requires
        request.len() == 0 || state.len() == 0 || tool.len() == 0,
    ensures
        wave_triples(request, state, tool).len() == 0,
    decreases request.len(),
{
    if request.len() > 0 {
        lemma_wave_triples_empty(request.drop_last(), state, tool);
        lemma_wave_triples_of_empty(request.last(), state, tool);
    }
}

proof fn lemma_wave_triples_of_empty(q: u64, state: Seq<u64>, tool: Seq<u64>)
    requires
        state.len() == 0 || tool.len() == 0,
    ensures
        wave_triples_of(q, state, tool).len() == 0,
    decreases state.len(),
{
    if state.len() > 0 {
        lemma_wave_triples_of_empty(q, state.drop_last(), tool);
    }
}

proof fn lemma_ranked_triples_empty(request: Seq<(u16, u64)>, state: Seq<(u16, u64)>, tool: Seq<(u16, u64)>)
    requires
        request.len() == 0 || state.len() == 0 || tool.len() == 0,
    ensures
        ranked_triples(request, state, tool).len() == 0,
    decreases request.len(),
{
    if request.len() > 0 {
        lemma_ranked_triples_empty(request.drop_last(), state, tool);
        lemma_ranked_triples_of_empty(request.last(), state, tool);
    }
}

proof fn lemma_ranked_triples_of_empty(q: (u16, u64), state: Seq<(u16, u64)>, tool: Seq<(u16, u64)>)
    requires
        state.len() == 0 || tool.len() == 0,
    ensures
        ranked_triples_of(q, state, tool).len() == 0,
    decreases state.len(),
{
    if state.len() > 0 {
        lemma_ranked_triples_of_empty(q, state.drop_last(), tool);
    }
}

proof fn lemma_empty_groups_select_nothing(gs: Seq<Seq<(u32, u64)>>)
    requires
        forall|k: int| 0 <= k < gs.len() ==> (#[trigger] gs[k]).len() == 0,
    ensures
        longest(gs) == 0,
    decreases gs.len(),
{
    if gs.len() > 0 {
        lemma_empty_groups_select_nothing(gs.drop_last());
        assert(gs.last().len() == 0);
    }
}

/// The hidden wave of a frame holds at most 24 ids (at most twelve from the
/// layer pairs and triples and twelve from the balanced selection), and
/// none at all when fewer than two of its request, state and tool layers
/// hold an atom.
pub proof fn lemma_hidden_wave_ids_bounded(atoms: Seq<RelationAtom>, ids: Seq<u64>)
    ensures
        hidden_wave_ids(atoms, ids).len() <= 24,
        ({
            let occupied = (if layer_occupied(atoms, WAVE_LAYER_REQUEST) { 1int } else { 0int })
                + (if layer_occupied(atoms, WAVE_LAYER_STATE) { 1int } else { 0int })
                + (if layer_occupied(atoms, WAVE_LAYER_TOOL) { 1int } else { 0int });
            occupied < 2 ==> hidden_wave_ids(atoms, ids).len() == 0
        }),
{
    let request = layer_basis(atoms, ids, WAVE_LAYER_REQUEST);
    let state = layer_basis(atoms, ids, WAVE_LAYER_STATE);
    let tool = layer_basis(atoms, ids, WAVE_LAYER_TOOL);
    let rq = layer_ranked_basis(atoms, ids, WAVE_LAYER_REQUEST);
    let st = layer_ranked_basis(atoms, ids, WAVE_LAYER_STATE);
    let tl = layer_ranked_basis(atoms, ids, WAVE_LAYER_TOOL);
    let legacy = legacy_wave_ids(request, state, tool);
    let balanced = balanced_ids(rq, st, tl, 12);
    lemma_balanced_ids(rq, st, tl, 12);
    lemma_sorted_unique_len(legacy + balanced);
    let occupied = (if layer_occupied(atoms, WAVE_LAYER_REQUEST) { 1int } else { 0int })
        + (if layer_occupied(atoms, WAVE_LAYER_STATE) { 1int } else { 0int })
        + (if layer_occupied(atoms, WAVE_LAYER_TOOL) { 1int } else { 0int });
    if occupied < 2 {
        if !layer_occupied(atoms, WAVE_LAYER_REQUEST) {
            lemma_unoccupied_basis(atoms, ids, WAVE_LAYER_REQUEST);
        }
        if !layer_occupied(atoms, WAVE_LAYER_STATE) {
            lemma_unoccupied_basis(atoms, ids, WAVE_LAYER_STATE);
        }
        if !layer_occupied(atoms, WAVE_LAYER_TOOL) {
            lemma_unoccupied_basis(atoms, ids, WAVE_LAYER_TOOL);
        }
        lemma_wave_pairs_empty(1, request, state);
        lemma_wave_pairs_empty(2, state, tool);
        lemma_wave_pairs_empty(3, request, tool);
        lemma_wave_triples_empty(request, state, tool);
        let all = wave_pairs(1, request, state) + wave_pairs(2, state, tool) + wave_pairs(3, request, tool)
            + wave_triples(request, state, tool);
        assert(all =~= Seq::<u64>::empty());
        lemma_sorted_unique_len(all);
        assert(legacy.len() == 0);
        lemma_ranked_pairs_empty(1, rq, st);
        lemma_ranked_pairs_empty(2, st, tl);
        lemma_ranked_pairs_empty(3, rq, tl);
        lemma_ranked_triples_empty(rq, st, tl);
        let gs = balanced_groups(rq, st, tl);
        assert forall|k: int| 0 <= k < gs.len() implies (#[trigger] gs[k]).len() == 0 by {
            assert(sort_ranks(Seq::<(u32, u64)>::empty()).len() == 0);
            assert(dedup_ids(Seq::<(u32, u64)>::empty()).len() == 0);
            assert(ranked_pairs(1, rq, st) =~= Seq::<(u32, u64)>::empty());
            assert(ranked_pairs(2, st, tl) =~= Seq::<(u32, u64)>::empty());
            assert(ranked_pairs(3, rq, tl) =~= Seq::<(u32, u64)>::empty());
            assert(ranked_triples(rq, st, tl) =~= Seq::<(u32, u64)>::empty());
        }
        lemma_empty_groups_select_nothing(gs);
        assert(round_robin(gs, 0) == Seq::<u64>::empty());
        assert(distinct_in_order(Seq::<u64>::empty()).len() == 0);
        assert(balanced.len() == 0);
        assert(legacy + balanced =~= Seq::<u64>::empty());
    }
}

// ---------------------------------------------------------------- the hidden wave and atom order

/// The atoms of a frame paired with their phase ids.
pub open spec fn atoms_with_ids(atoms: Seq<RelationAtom>, ids: Seq<u64>) -> Seq<(RelationAtom, u64)> {
    Seq::new(atoms.len(), |i: int| (atoms[i], ids[i]))
}

/// The id of an atom paired with its id, when the atom falls in a layer.
pub open spec fn layer_pick(ctx: Seq<RelationAtom>, layer: u8) -> spec_fn((RelationAtom, u64)) -> Option<u64> {
    |e: (RelationAtom, u64)| if wave_layer(ctx, e.0) == Some(layer) { Some(e.1) } else { None }
}

/// The ranked id of an atom paired with its id, when the atom falls in a layer.
pub open spec fn layer_rank_pick(ctx: Seq<RelationAtom>, layer: u8) -> spec_fn((RelationAtom, u64)) -> Option<(u16, u64)> {
    |e: (RelationAtom, u64)| if wave_layer(ctx, e.0) == Some(layer) { Some((source_priority(e.0), e.1)) } else { None }
}

proof fn lemma_layer_ids_filter(atoms: Seq<RelationAtom>, ids: Seq<u64>, layer: u8, n: int)
    requires
        0 <= n <= atoms.len(),
        ids.len() == atoms.len(),
    ensures
        layer_ids(atoms, ids, layer, n) == filter_map(atoms_with_ids(atoms, ids).take(n), layer_pick(atoms, layer)),
        layer_ranked(atoms, ids, layer, n) == filter_map(atoms_with_ids(atoms, ids).take(n), layer_rank_pick(atoms, layer)),
    decreases n,
{
    let z = atoms_with_ids(atoms, ids);
    if n == 0 {
        assert(z.take(0) =~= Seq::<(RelationAtom, u64)>::empty());
    } else {
        lemma_layer_ids_filter(atoms, ids, layer, n - 1);
        assert(z.take(n).drop_last() =~= z.take(n - 1));
        assert(z.take(n).last() == (atoms[n - 1], ids[n - 1]));
    }
}

proof fn lemma_increasing_pairwise(s: Seq<u64>, i: int, j: int)
    requires
        strictly_increasing(s),
        0 <= i < j < s.len(),
    ensures
        s[i] < s[j],
    decreases j - i,
{
    assert(adjacent_lt(s, j - 1));
    if i < j - 1 {
        lemma_increasing_pairwise(s, i, j - 1);
    }
}

/// Two strictly increasing sequences of the same values are equal.
proof fn lemma_increasing_same_members(t: Seq<u64>, u: Seq<u64>)
    requires
        strictly_increasing(t),
        strictly_increasing(u),
        forall|y: u64| t.contains(y) == u.contains(y),
    ensures
        t == u,
    decreases t.len(),
{
    if t.len() == 0 {
        if u.len() > 0 {
            assert(u.contains(u[0]));
        }
        assert(t =~= u);
    } else {
        assert(t.contains(t[0]));
        assert(u.contains(t[0]));
        let k = choose|k: int| 0 <= k < u.len() && u[k] == t[0];
        assert(u.contains(u[0]));
        assert(t.contains(u[0]));
        let m = choose|m: int| 0 <= m < t.len() && t[m] == u[0];
        if m > 0 {
            lemma_increasing_pairwise(t, 0, m);
        }
        if k > 0 {
            lemma_increasing_pairwise(u, 0, k);
        }
        assert(t[0] == u[0]);
        let t1 = t.drop_first();
        let u1 = u.drop_first();
        assert forall|i: int| 0 <= i && i + 1 < t1.len() implies #[trigger] adjacent_lt(t1, i) by {
            assert(adjacent_lt(t, i + 1));
        }
        assert forall|i: int| 0 <= i && i + 1 < u1.len() implies #[trigger] adjacent_lt(u1, i) by {
            assert(adjacent_lt(u, i + 1));
        }
        assert forall|y: u64| t1.contains(y) == u1.contains(y) by {
            if t1.contains(y) {
                let a = choose|a: int| 0 <= a < t1.len() && t1[a] == y;
                lemma_increasing_pairwise(t, 0, a + 1);
                assert(t.contains(y));
                let b = choose|b: int| 0 <= b < u.len() && u[b] == y;
                assert(b != 0);
                assert(u1[b - 1] == y);
            }
            if u1.contains(y) {
                let a = choose|a: int| 0 <= a < u1.len() && u1[a] == y;
                lemma_increasing_pairwise(u, 0, a + 1);
                assert(u.contains(y));
                let b = choose|b: int| 0 <= b < t.len() && t[b] == y;
                assert(b != 0);
                assert(t1[b - 1] == y);
            }
        }
        lemma_increasing_same_members(t1, u1);
        assert(t =~= seq![t[0]] + t1);
        assert(u =~= seq![u[0]] + u1);
    }
}

/// Sorting and deduplicating depends only on which values occur.
proof fn lemma_sorted_unique_members(s1: Seq<u64>, s2: Seq<u64>)
    requires
        forall|y: u64| s1.contains(y) == s2.contains(y),
    ensures
        sorted_unique(s1) == sorted_unique(s2),
{
    lemma_sorted_unique(s1);
    lemma_sorted_unique(s2);
    assert forall|y: u64| sorted_unique(s1).contains(y) == sorted_unique(s2).contains(y) by {
        assert(sorted_unique(s1).contains(y) == s1.contains(y));
        assert(sorted_unique(s2).contains(y) == s2.contains(y));
    }
    lemma_increasing_same_members(sorted_unique(s1), sorted_unique(s2));
}

/// The rank order of ranked ids, as a function.
pub open spec fn rank16_order() -> spec_fn((u16, u64), (u16, u64)) -> bool {
    |a: (u16, u64), b: (u16, u64)| rank16_before(a, b)
}

proof fn lemma_rank16_order_total()
    ensures
        strict_total_order(rank16_order()),
{
    let lt = rank16_order();
    assert forall|a: (u16, u64), b: (u16, u64)| a != b implies #[trigger] lt(a, b) || #[trigger] lt(b, a) by {
        assert(lt(a, b) == rank16_before(a, b) && lt(b, a) == rank16_before(b, a));
    }
    assert forall|a: (u16, u64), b: (u16, u64), c: (u16, u64)| #[trigger] lt(a, b) && #[trigger] lt(b, c) implies lt(a, c) by {
        assert(lt(a, b) == rank16_before(a, b) && lt(b, c) == rank16_before(b, c) && lt(a, c) == rank16_before(a, c));
    }
}

proof fn lemma_insert_rank16_ordered(s: Seq<(u16, u64)>, x: (u16, u64))
    ensures
        insert_rank16(s, x) == insert_ordered(s, x, rank16_order()),
    decreases s.len(),
{
    if s.len() > 0 && rank16_before(s[0], x) {
        lemma_insert_rank16_ordered(s.subrange(1, s.len() as int), x);
    }
}

proof fn lemma_sort_rank16s_ordered(s: Seq<(u16, u64)>)
    ensures
        sort_rank16s(s) == sort_ordered(s, rank16_order()),
    decreases s.len(),
{
    if s.len() > 0 {
        lemma_sort_rank16s_ordered(s.drop_last());
        lemma_insert_rank16_ordered(sort_rank16s(s.drop_last()), s.last());
    }
}

/// Two frames whose atoms, each with its phase id, are the same up to order.
pub open spec fn same_atoms_up_to_order(atoms1: Seq<RelationAtom>, ids1: Seq<u64>, atoms2: Seq<RelationAtom>, ids2: Seq<u64>) -> bool {
    &&& ids1.len() == atoms1.len()
    &&& ids2.len() == atoms2.len()
    &&& atoms_with_ids(atoms1, ids1).to_multiset() == atoms_with_ids(atoms2, ids2).to_multiset()
}

proof fn lemma_same_layers(atoms1: Seq<RelationAtom>, ids1: Seq<u64>, atoms2: Seq<RelationAtom>, ids2: Seq<u64>)
    requires
        same_atoms_up_to_order(atoms1, ids1, atoms2, ids2),
    ensures
        forall|a: RelationAtom| #[trigger] wave_layer(atoms1, a) == wave_layer(atoms2, a),
{
    broadcast use vstd::seq_lib::group_to_multiset_ensures, vstd::multiset::group_multiset_axioms;
    let z1 = atoms_with_ids(atoms1, ids1);
    let z2 = atoms_with_ids(atoms2, ids2);
    assert forall|s: u16| #[trigger] is_pre_action_slot(atoms1, s) == is_pre_action_slot(atoms2, s) by {
        if is_pre_action_slot(atoms1, s) {
            let i = choose|i: int| 0 <= i < atoms1.len() && #[trigger] fills_slot(atoms1[i], s);
            assert(z1[i] == (atoms1[i], ids1[i]));
            assert(z1.contains(z1[i]));
            assert(z1.to_multiset().count(z1[i]) > 0);
            assert(z2.to_multiset().count(z1[i]) > 0);
            assert(z2.contains(z1[i]));
            let j = choose|j: int| 0 <= j < z2.len() && z2[j] == z1[i];
            assert(atoms2[j] == atoms1[i]);
            assert(fills_slot(atoms2[j], s));
        }
        if is_pre_action_slot(atoms2, s) {
            let i = choose|i: int| 0 <= i < atoms2.len() && #[trigger] fills_slot(atoms2[i], s);
            assert(z2[i] == (atoms2[i], ids2[i]));
            assert(z2.contains(z2[i]));
            assert(z2.to_multiset().count(z2[i]) > 0);
            assert(z1.to_multiset().count(z2[i]) > 0);
            assert(z1.contains(z2[i]));
            let j = choose|j: int| 0 <= j < z1.len() && z1[j] == z2[i];
            assert(atoms1[j] == atoms2[i]);
            assert(fills_slot(atoms1[j], s));
        }
    }
}

proof fn lemma_layer_permutation(atoms1: Seq<RelationAtom>, ids1: Seq<u64>, atoms2: Seq<RelationAtom>, ids2: Seq<u64>, layer: u8)
    requires
        same_atoms_up_to_order(atoms1, ids1, atoms2, ids2),
    ensures
        layer_basis(atoms1, ids1, layer) == layer_basis(atoms2, ids2, layer),
        layer_ranked_basis(atoms1, ids1, layer) == layer_ranked_basis(atoms2, ids2, layer),
{
    broadcast use vstd::seq_lib::group_to_multiset_ensures;
    let z1 = atoms_with_ids(atoms1, ids1);
    let z2 = atoms_with_ids(atoms2, ids2);
    lemma_same_layers(atoms1, ids1, atoms2, ids2);
    lemma_layer_ids_filter(atoms1, ids1, layer, atoms1.len() as int);
    lemma_layer_ids_filter(atoms2, ids2, layer, atoms2.len() as int);
    assert(z1.take(atoms1.len() as int) =~= z1);
    assert(z2.take(atoms2.len() as int) =~= z2);
    assert(layer_pick(atoms1, layer) =~= layer_pick(atoms2, layer)) by {
        assert forall|e: (RelationAtom, u64)| #[trigger] layer_pick(atoms1, layer)(e) == layer_pick(atoms2, layer)(e) by {
            assert(wave_layer(atoms1, e.0) == wave_layer(atoms2, e.0));
        }
    }
    assert(layer_rank_pick(atoms1, layer) =~= layer_rank_pick(atoms2, layer)) by {
        assert forall|e: (RelationAtom, u64)| #[trigger] layer_rank_pick(atoms1, layer)(e) == layer_rank_pick(atoms2, layer)(e) by {
            assert(wave_layer(atoms1, e.0) == wave_layer(atoms2, e.0));
        }
    }
    let f = layer_pick(atoms1, layer);
    let g = layer_rank_pick(atoms1, layer);
    lemma_filter_map_permutation(z1, z2, f);
    lemma_filter_map_permutation(z1, z2, g);
    let l1 = layer_ids(atoms1, ids1, layer, atoms1.len() as int);
    let l2 = layer_ids(atoms2, ids2, layer, atoms2.len() as int);
    assert(l1.to_multiset() =~= l2.to_multiset());
    assert forall|y: u64| l1.contains(y) == l2.contains(y) by {
        assert(l1.contains(y) == (l1.to_multiset().count(y) > 0));
        assert(l2.contains(y) == (l2.to_multiset().count(y) > 0));
    }
    lemma_sorted_unique_members(l1, l2);
    let r1 = layer_ranked(atoms1, ids1, layer, atoms1.len() as int);
    let r2 = layer_ranked(atoms2, ids2, layer, atoms2.len() as int);
    lemma_rank16_order_total();
    lemma_sort_rank16s_ordered(r1);
    lemma_sort_rank16s_ordered(r2);
    lemma_sort_ordered_permutation(r1, r2, rank16_order());
}

/// The hidden wave of a frame does not depend on the order of its atoms:
/// rearranging the atoms, each with its phase id, gives the same ids.
pub proof fn lemma_hidden_wave_ids_ignore_atom_order(
    atoms1: Seq<RelationAtom>, ids1: Seq<u64>, atoms2: Seq<RelationAtom>, ids2: Seq<u64>,
)
    requires
        same_atoms_up_to_order(atoms1, ids1, atoms2, ids2),
    ensures
        hidden_wave_ids(atoms1, ids1) == hidden_wave_ids(atoms2, ids2),
{
    lemma_layer_permutation(atoms1, ids1, atoms2, ids2, WAVE_LAYER_REQUEST);
    lemma_layer_permutation(atoms1, ids1, atoms2, ids2, WAVE_LAYER_STATE);
    lemma_layer_permutation(atoms1, ids1, atoms2, ids2, WAVE_LAYER_TOOL);
}

/// The rank order: higher priority first, then lower id, as a function.
pub open spec fn rank_order() -> spec_fn((u32, u64), (u32, u64)) -> bool {
    |a: (u32, u64), b: (u32, u64)| rank_before(a, b)
}

proof fn lemma_ranks_insert_ordered(s: Seq<(u32, u64)>, x: (u32, u64))
    ensures
        insert_rank(s, x) == insert_ordered(s, x, rank_order()),
    decreases s.len(),
{
    if s.len() > 0 && rank_before(s[0], x) {
        lemma_ranks_insert_ordered(s.subrange(1, s.len() as int), x);
    }
}

proof fn lemma_ranks_sort_ordered(s: Seq<(u32, u64)>)
    ensures
        sort_ranks(s) == sort_ordered(s, rank_order()),
    decreases s.len(),
{
    if s.len() > 0 {
        lemma_ranks_sort_ordered(s.drop_last());
        lemma_ranks_insert_ordered(sort_ranks(s.drop_last()), s.last());
    }
}

proof fn lemma_rank_order_total()
    ensures
        strict_total_order(rank_order()),
{
    let lt = rank_order();
    assert forall|a: (u32, u64), b: (u32, u64)| a != b implies #[trigger] lt(a, b) || #[trigger] lt(b, a) by {
        assert(lt(a, b) == rank_before(a, b) && lt(b, a) == rank_before(b, a));
    }
    assert forall|a: (u32, u64), b: (u32, u64), c: (u32, u64)| #[trigger] lt(a, b) && #[trigger] lt(b, c) implies lt(a, c) by {
        assert(lt(a, b) == rank_before(a, b) && lt(b, c) == rank_before(b, c) && lt(a, c) == rank_before(a, c));
    }
}

/// Sorting ranked ids orders them by rank and keeps each as often as it
/// occurs; so is sorting ranked ids of the layers.
pub proof fn lemma_sort_ranks_sorted(s: Seq<(u32, u64)>, t: Seq<(u16, u64)>)
    ensures
        sorted_by(sort_ranks(s), rank_order()),
        sort_ranks(s).to_multiset() == s.to_multiset(),
        sorted_by(sort_rank16s(t), rank16_order()),
        sort_rank16s(t).to_multiset() == t.to_multiset(),
{
    lemma_ranks_sort_ordered(s);
    lemma_rank_order_total();
    lemma_sort_ordered_sorted(s, rank_order());
    lemma_sort_ordered_multiset(s, rank_order());
    lemma_sort_rank16s_ordered(t);
    lemma_rank16_order_total();
    lemma_sort_ordered_sorted(t, rank16_order());
    lemma_sort_ordered_multiset(t, rank16_order());
}

/// The hidden wave ids of a frame are strictly increasing.
pub proof fn lemma_hidden_wave_ids_sorted(atoms: Seq<RelationAtom>, ids: Seq<u64>)
    ensures
        strictly_increasing(hidden_wave_ids(atoms, ids)),
{
    let request = layer_basis(atoms, ids, WAVE_LAYER_REQUEST);
    let state = layer_basis(atoms, ids, WAVE_LAYER_STATE);
    let tool = layer_basis(atoms, ids, WAVE_LAYER_TOOL);
    let balanced = balanced_ids(
        layer_ranked_basis(atoms, ids, WAVE_LAYER_REQUEST),
        layer_ranked_basis(atoms, ids, WAVE_LAYER_STATE),
        layer_ranked_basis(atoms, ids, WAVE_LAYER_TOOL),
        12,
    );
    lemma_sorted_unique(legacy_wave_ids(request, state, tool) + balanced);
}

} // verus!
