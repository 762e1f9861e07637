//! The canonical view of an extraction: candidates ordered by their
//! features, each becoming a role numbered by its place, and the relations
//! between roles reduced to one star per connected component.
use vstd::prelude::*;
use crate::structural_context::{
    CanonicalStructuralRelationV3, CanonicalStructuralRoleV3, StructuralRelationKindV3, StructuralContextV3,
    StructuralCandidateObservationV3, StructuralCandidateFeaturesV3, StructuralExtractionV3,
    StructuralExtractionErrorV3, StructuralSourceRelationV3, CanonicalStructuralSourceBindingV3,
    CanonicalRuntimeStructuralViewV3, CANONICAL_RUNTIME_STRUCTURAL_VIEW_SCHEMA_V3, structural_view_identity,
    structural_view_digest,
};
use crate::structural_walk::{
    relation_kind_rank, relation_kind_rank_exec, feature_model, features_lt, features_less, features_equal,
    lemma_features_lt_order,
};
use crate::text::{utf8, str_eq, lemma_utf8_injective};
use crate::scan::{lex_lt, bytes_lt, lemma_lex_lt_total, lemma_lex_lt_trans, lemma_lex_lt_irreflexive};
use crate::digest::is_sha256_text;
use crate::relation_routing::{sorted_unique, sort_dedup_u64};

verus! {

// ---------------------------------------------------------------- linked roles

/// A set of roles is closed under the edges when, of every edge, it holds
/// both ends or neither.
pub open spec fn closed_under(es: Seq<(u16, u16)>, s: Set<u16>) -> bool {
    forall|i: int| 0 <= i < es.len() ==> (s.contains(#[trigger] es[i].0) <==> s.contains(es[i].1))
}

/// Two roles are linked by the edges when every closed set that holds the
/// first also holds the second: the second is in the first's component.
#[verifier::opaque]
pub open spec fn linked(es: Seq<(u16, u16)>, a: u16, b: u16) -> bool {
    forall|s: Set<u16>| #![trigger closed_under(es, s)] closed_under(es, s) && s.contains(a) ==> s.contains(b)
}

pub proof fn lemma_linked_trans(es: Seq<(u16, u16)>, a: u16, b: u16, c: u16)
    requires
        linked(es, a, b),
        linked(es, b, c),
    ensures
        linked(es, a, c),
{
    reveal(linked);
    assert forall|s: Set<u16>| #![trigger closed_under(es, s)] closed_under(es, s) && s.contains(a) implies s.contains(c) by {
        assert(s.contains(b));
    }
}

pub proof fn lemma_linked_sym(es: Seq<(u16, u16)>, a: u16, b: u16)
    requires
        linked(es, a, b),
    ensures
        linked(es, b, a),
{
    reveal(linked);
    assert forall|s: Set<u16>| #![trigger closed_under(es, s)] closed_under(es, s) && s.contains(b) implies s.contains(a) by {
        if !s.contains(a) {
            let t = s.complement();
            assert forall|i: int| 0 <= i < es.len() implies (t.contains(#[trigger] es[i].0) <==> t.contains(es[i].1)) by {
                assert(s.contains(es[i].0) <==> s.contains(es[i].1));
            }
            assert(closed_under(es, t));
            assert(t.contains(b));
        }
    }
}

/// A role that ends no edge is linked to itself alone.
proof fn lemma_unlinked_alone(es: Seq<(u16, u16)>, a: u16, b: u16)
    requires
        a != b,
        forall|i: int| 0 <= i < es.len() ==> #[trigger] es[i].0 != a && es[i].1 != a,
    ensures
        !linked(es, a, b),
{
    reveal(linked);
    let s = Set::<u16>::empty().insert(a);
    assert forall|i: int| 0 <= i < es.len() implies (s.contains(#[trigger] es[i].0) <==> s.contains(es[i].1)) by {}
    assert(closed_under(es, s));
}

/// The ends of the edges, in order.
pub open spec fn edge_ends(es: Seq<(u16, u16)>) -> Seq<u16>
    decreases es.len(),
{
    if es.len() == 0 { Seq::empty() } else { edge_ends(es.drop_last()) + seq![es.last().0, es.last().1] }
}

proof fn lemma_edge_ends_len(es: Seq<(u16, u16)>)
    ensures
        edge_ends(es).len() == 2 * es.len(),
    decreases es.len(),
{
    if es.len() > 0 {
        lemma_edge_ends_len(es.drop_last());
    }
}

proof fn lemma_edge_ends_at(es: Seq<(u16, u16)>, t: int)
    requires
        0 <= t < es.len(),
    ensures
        edge_ends(es).contains(es[t].0),
        edge_ends(es).contains(es[t].1),
    decreases es.len(),
{
    let d = es.drop_last();
    let ed = edge_ends(d);
    let e = edge_ends(es);
    assert(e == ed + seq![es.last().0, es.last().1]);
    if t < d.len() {
        lemma_edge_ends_at(d, t);
        assert(d[t] == es[t]);
        let k0 = choose|k: int| 0 <= k < ed.len() && ed[k] == d[t].0;
        let k1 = choose|k: int| 0 <= k < ed.len() && ed[k] == d[t].1;
        assert(e[k0] == ed[k0]);
        assert(e[k1] == ed[k1]);
    } else {
        assert(e[ed.len() as int] == es[t].0);
        assert(e[ed.len() as int + 1] == es[t].1);
    }
}

/// Whether the `t`-th edge ends at a role.
pub open spec fn ends_at(es: Seq<(u16, u16)>, t: int, r: u16) -> bool {
    es[t].0 == r || es[t].1 == r
}

fn contains_role(v: &Vec<u16>, x: u16) -> (r: bool)
    ensures
        r == v@.contains(x),
{
    let mut i: usize = 0;
    while i < v.len()
        invariant
            i <= v@.len(),
            forall|k: int| 0 <= k < i ==> v@[k] != x,
        decreases v@.len() - i,
    {
        if v[i] == x {
            return true;
        }
        i = i + 1;
    }
    false
}

/// What a component under construction keeps: no role twice, the start,
/// only roles that end an edge (or the start), only roles linked to the start.
pub open spec fn component_state(es: Seq<(u16, u16)>, start: u16, c: Seq<u16>) -> bool {
    let pts = seq![start] + edge_ends(es);
    &&& c.no_duplicates()
    &&& c.contains(start)
    &&& c.len() <= 2 * es.len() + 1
    &&& forall|y: u16| c.contains(y) ==> pts.contains(y)
    &&& forall|y: u16| c.contains(y) ==> linked(es, start, y)
}

/// Adds the far end of an edge from a member, unless it is there.
fn push_neighbor(c: &mut Vec<u16>, x: u16, to: u16, Ghost(es): Ghost<Seq<(u16, u16)>>, Ghost(start): Ghost<u16>, Ghost(t): Ghost<int>)
    requires
        component_state(es, start, old(c)@),
        old(c)@.contains(x),
        0 <= t < es.len(),
        (es[t].0 == x && es[t].1 == to) || (es[t].1 == x && es[t].0 == to),
    ensures
        component_state(es, start, final(c)@),
        final(c)@.contains(to),
        final(c)@.len() >= old(c)@.len(),
        forall|j: int| 0 <= j < old(c)@.len() ==> final(c)@[j] == old(c)@[j],
        forall|y: u16| old(c)@.contains(y) ==> final(c)@.contains(y),
{
    if contains_role(c, to) {
        return;
    }
    let ghost before = c@;
    let ghost pts = seq![start] + edge_ends(es);
    proof {
        lemma_edge_ends_len(es);
        lemma_edge_ends_at(es, t);
        assert(pts.contains(to)) by {
            let k = choose|k: int| 0 <= k < edge_ends(es).len() && edge_ends(es)[k] == to;
            assert(pts[k + 1] == to);
        }
        reveal(linked);
        assert forall|s: Set<u16>| #![trigger closed_under(es, s)] closed_under(es, s) && s.contains(start)
            implies s.contains(to) by {
            assert(linked(es, start, x));
            assert(s.contains(x));
            assert(s.contains(es[t].0) <==> s.contains(es[t].1));
        }
        assert(linked(es, start, to));
        let after = before.push(to);
        assert(after.no_duplicates()) by {
            assert forall|p: int, q: int| 0 <= p < q < after.len() implies after[p] != after[q] by {
                if q == before.len() {
                    assert(before.contains(before[p]));
                }
            }
        }
        assert(after.to_set().subset_of(pts.to_set())) by {
            assert forall|y: u16| after.to_set().contains(y) implies pts.to_set().contains(y) by {
                if y != to {
                    let p = choose|p: int| 0 <= p < after.len() && after[p] == y;
                    assert(before[p] == y);
                    assert(before.contains(y));
                }
            }
        }
        after.unique_seq_to_set();
        pts.lemma_cardinality_of_set();
        vstd::seq_lib::seq_to_set_is_finite(pts);
        vstd::set_lib::lemma_len_subset(after.to_set(), pts.to_set());
        assert(after.len() <= 2 * es.len() + 1);
    }
    c.push(to);
    proof {
        assert(c@ =~= before.push(to));
        assert(c@.no_duplicates());
        assert(c@.len() <= 2 * es.len() + 1);
        assert forall|y: u16| #[trigger] c@.contains(y) implies pts.contains(y) && linked(es, start, y) by {
            if y != to {
                let p = choose|p: int| 0 <= p < c@.len() && c@[p] == y;
                assert(before[p] == y);
                assert(before.contains(y));
            }
        }
        assert forall|y: u16| before.contains(y) implies c@.contains(y) by {
            let p = choose|p: int| 0 <= p < before.len() && before[p] == y;
            assert(c@[p] == y);
        }
        assert(c@[before.len() as int] == to);
        assert(before.contains(start));
        assert(c@.contains(start));
    }
}

/// The component of a role: every role linked to it, each once.
fn component(es: &Vec<(u16, u16)>, start: u16) -> (c: Vec<u16>)
    ensures
        c@.no_duplicates(),
        c@.contains(start),
        forall|x: u16| c@.contains(x) <==> linked(es@, start, x),
{
    let mut c: Vec<u16> = Vec::new();
    c.push(start);
    proof {
        reveal(linked);
        assert(c@[0] == start);
        assert forall|y: u16| c@.contains(y) implies (seq![start] + edge_ends(es@)).contains(y) by {
            assert((seq![start] + edge_ends(es@))[0] == start);
        }
    }
    let mut i: usize = 0;
    while i < c.len()
        invariant
            i <= c@.len(),
            component_state(es@, start, c@),
            forall|j: int, t: int| 0 <= j < i && 0 <= t < es@.len() ==>
                (es@[t].0 == #[trigger] c@[j] ==> c@.contains(#[trigger] es@[t].1))
                && (es@[t].1 == c@[j] ==> c@.contains(es@[t].0)),
        decreases 2 * es@.len() + 1 - i,
    {
        let x = c[i];
        let mut t: usize = 0;
        while t < es.len()
            invariant
                i < c@.len(),
                x == c@[i as int],
                t <= es@.len(),
                component_state(es@, start, c@),
                forall|j: int, t: int| 0 <= j < i && 0 <= t < es@.len() ==>
                    (es@[t].0 == #[trigger] c@[j] ==> c@.contains(#[trigger] es@[t].1))
                    && (es@[t].1 == c@[j] ==> c@.contains(es@[t].0)),
                forall|u: int| 0 <= u < t ==>
                    (#[trigger] es@[u].0 == x ==> c@.contains(es@[u].1)) && (es@[u].1 == x ==> c@.contains(es@[u].0)),
            decreases es@.len() - t,
        {
            let (a, b) = es[t];
            if a == x {
                push_neighbor(&mut c, x, b, Ghost(es@), Ghost(start), Ghost(t as int));
            }
            if b == x {
                push_neighbor(&mut c, x, a, Ghost(es@), Ghost(start), Ghost(t as int));
            }
            t = t + 1;
        }
        i = i + 1;
    }
    proof {
        reveal(linked);
        let s = c@.to_set();
        assert forall|t: int| 0 <= t < es@.len() implies (s.contains(#[trigger] es@[t].0) <==> s.contains(es@[t].1)) by {
            if s.contains(es@[t].0) {
                let j = choose|j: int| 0 <= j < c@.len() && c@[j] == es@[t].0;
                assert(es@[t].0 == c@[j]);
            }
            if s.contains(es@[t].1) {
                let j = choose|j: int| 0 <= j < c@.len() && c@[j] == es@[t].1;
                assert(es@[t].1 == c@[j]);
            }
        }
        assert(closed_under(es@, s));
        assert forall|x: u16| linked(es@, start, x) implies c@.contains(x) by {
            assert(s.contains(start));
        }
    }
    c
}

fn least_of(c: &Vec<u16>) -> (r: u16)
    requires
        c@.len() > 0,
    ensures
        c@.contains(r),
        forall|y: u16| c@.contains(y) ==> r <= y,
{
    let mut r = c[0];
    let mut i: usize = 1;
    while i < c.len()
        invariant
            1 <= i <= c@.len(),
            c@.contains(r),
            forall|k: int| 0 <= k < i ==> r <= #[trigger] c@[k],
        decreases c@.len() - i,
    {
        if c[i] < r {
            r = c[i];
        }
        i = i + 1;
    }
    assert forall|y: u16| c@.contains(y) implies r <= y by {
        let k = choose|k: int| 0 <= k < c@.len() && c@[k] == y;
        assert(r <= c@[k]);
    }
    r
}

/// The star edge of a role: from the least role of its component to it,
/// when that least role is another.
pub open spec fn star_edge(es: Seq<(u16, u16)>, l: u16, r: u16) -> bool {
    &&& l < r
    &&& linked(es, r, l)
    &&& forall|m: u16| linked(es, r, m) ==> l <= m
}

/// Within one component, a member's star edge starts at the component's least role.
proof fn lemma_star_in_component(es: Seq<(u16, u16)>, start: u16, c: Seq<u16>, center: u16, m: u16, l: u16)
    requires
        forall|y: u16| #[trigger] c.contains(y) <==> linked(es, start, y),
        forall|y: u16| #[trigger] c.contains(y) ==> center <= y,
        c.contains(m),
        c.contains(center),
    ensures
        star_edge(es, l, m) <==> (l == center && center < m),
{
    assert(linked(es, start, m));
    assert(linked(es, start, center));
    lemma_linked_sym(es, start, m);
    lemma_linked_trans(es, m, start, center);
    assert forall|y: u16| linked(es, m, y) implies center <= y by {
        lemma_linked_trans(es, start, m, y);
        assert(c.contains(y));
    }
    if star_edge(es, l, m) {
        lemma_linked_trans(es, start, m, l);
        assert(c.contains(l));
        assert(l <= center);
        assert(center <= l);
    }
}

/// A role with a star edge ends some edge.
proof fn lemma_star_ends_edge(es: Seq<(u16, u16)>, l: u16, r: u16)
    requires
        star_edge(es, l, r),
    ensures
        exists|t: int| 0 <= t < es.len() && #[trigger] ends_at(es, t, r),
{
    if !(exists|t: int| 0 <= t < es.len() && #[trigger] ends_at(es, t, r)) {
        assert forall|i: int| 0 <= i < es.len() implies #[trigger] es[i].0 != r && es[i].1 != r by {
            assert(!ends_at(es, i, r));
        }
        lemma_unlinked_alone(es, r, l);
    }
}

// ---------------------------------------------------------------- canonical relation order

/// Relations order by left role, right role, then kind.
pub open spec fn canon_lt(a: CanonicalStructuralRelationV3, b: CanonicalStructuralRelationV3) -> bool {
    if a.left_role_id != b.left_role_id {
        a.left_role_id < b.left_role_id
    } else if a.right_role_id != b.right_role_id {
        a.right_role_id < b.right_role_id
    } else {
        relation_kind_rank(a.relation) < relation_kind_rank(b.relation)
    }
}

pub open spec fn canon_sorted(s: Seq<CanonicalStructuralRelationV3>) -> bool {
    forall|i: int, j: int| 0 <= i < j < s.len() ==> canon_lt(#[trigger] s[i], #[trigger] s[j])
}

proof fn lemma_canon_lt_trans(a: CanonicalStructuralRelationV3, b: CanonicalStructuralRelationV3, c: CanonicalStructuralRelationV3)
    requires
        canon_lt(a, b),
        canon_lt(b, c),
    ensures
        canon_lt(a, c),
{
}

proof fn lemma_canon_lt_total(a: CanonicalStructuralRelationV3, b: CanonicalStructuralRelationV3)
    requires
        a != b,
    ensures
        canon_lt(a, b) || canon_lt(b, a),
{
    if a.left_role_id == b.left_role_id && a.right_role_id == b.right_role_id {
        assert(a.relation != b.relation);
        assert(relation_kind_rank(a.relation) != relation_kind_rank(b.relation)) by {
            match a.relation {
                StructuralRelationKindV3::SameValue => {},
                StructuralRelationKindV3::SameCallLineage => {},
                StructuralRelationKindV3::SameTopologyNeighborhood => {},
                StructuralRelationKindV3::AdjacentTemporalDistance => {},
            }
        }
    }
}

fn canon_less(a: &CanonicalStructuralRelationV3, b: &CanonicalStructuralRelationV3) -> (r: bool)
    ensures
        r == canon_lt(*a, *b),
{
    if a.left_role_id != b.left_role_id {
        a.left_role_id < b.left_role_id
    } else if a.right_role_id != b.right_role_id {
        a.right_role_id < b.right_role_id
    } else {
        relation_kind_rank_exec(a.relation) < relation_kind_rank_exec(b.relation)
    }
}

/// Adds a relation to a sorted list of distinct relations, in its place.
fn insert_canon(out: &mut Vec<CanonicalStructuralRelationV3>, x: CanonicalStructuralRelationV3)
    requires
        canon_sorted(old(out)@),
    ensures
        canon_sorted(final(out)@),
        forall|y: CanonicalStructuralRelationV3| final(out)@.contains(y) <==> (old(out)@.contains(y) || y == x),
{
    let mut p: usize = 0;
    while p < out.len() && canon_less(&out[p], &x)
        invariant
            p <= out@.len(),
            forall|k: int| 0 <= k < p ==> canon_lt(#[trigger] out@[k], x),
        decreases out@.len() - p,
    {
        p = p + 1;
    }
    if p < out.len() && out[p] == x {
        return;
    }
    let ghost s = out@;
    proof {
        if p < s.len() {
            lemma_canon_lt_total(s[p as int], x);
        }
    }
    out.insert(p, x);
    proof {
        let t = out@;
        assert(t =~= s.insert(p as int, x));
        assert forall|i: int, j: int| 0 <= i < j < t.len() implies canon_lt(#[trigger] t[i], #[trigger] t[j]) by {
            if j < p {
                assert(t[i] == s[i] && t[j] == s[j]);
            } else if j == p {
                assert(t[i] == s[i]);
            } else if i == p {
                assert(t[j] == s[j - 1]);
                if j - 1 > p {
                    assert(canon_lt(s[p as int], s[j - 1]));
                    lemma_canon_lt_trans(x, s[p as int], s[j - 1]);
                }
            } else if i < p {
                assert(t[i] == s[i] && t[j] == s[j - 1]);
                assert(canon_lt(s[i], x));
                lemma_canon_lt_trans(s[i], x, s[p as int]);
                if j - 1 > p {
                    assert(canon_lt(s[p as int], s[j - 1]));
                    lemma_canon_lt_trans(s[i], s[p as int], s[j - 1]);
                }
            } else {
                assert(t[i] == s[i - 1] && t[j] == s[j - 1]);
            }
        }
        assert forall|y: CanonicalStructuralRelationV3| t.contains(y) <==> (s.contains(y) || y == x) by {
            if t.contains(y) {
                let k = choose|k: int| 0 <= k < t.len() && t[k] == y;
                if k < p {
                    assert(s[k] == y);
                } else if k > p {
                    assert(s[k - 1] == y);
                }
            }
            if s.contains(y) {
                let k = choose|k: int| 0 <= k < s.len() && s[k] == y;
                if k < p {
                    assert(t[k] == y);
                } else {
                    assert(t[k + 1] == y);
                }
            }
            if y == x {
                assert(t[p as int] == y);
            }
        }
    }
}

// ---------------------------------------------------------------- stars of one kind

/// The edges of one kind, as pairs of roles.
pub open spec fn kind_edges(rels: Seq<CanonicalStructuralRelationV3>, kind: StructuralRelationKindV3) -> Seq<(u16, u16)>
    decreases rels.len(),
{
    if rels.len() == 0 {
        Seq::empty()
    } else {
        kind_edges(rels.drop_last(), kind) + if rels.last().relation == kind {
            seq![(rels.last().left_role_id, rels.last().right_role_id)]
        } else {
            Seq::empty()
        }
    }
}

fn kind_edges_exec(rels: &Vec<CanonicalStructuralRelationV3>, kind: StructuralRelationKindV3) -> (r: Vec<(u16, u16)>)
    ensures
        r@ == kind_edges(rels@, kind),
{
    let mut out: Vec<(u16, u16)> = Vec::new();
    let mut i: usize = 0;
    while i < rels.len()
        invariant
            i <= rels@.len(),
            out@ == kind_edges(rels@.take(i as int), kind),
        decreases rels@.len() - i,
    {
        let x = rels[i];
        assert(rels@.take(i + 1).drop_last() =~= rels@.take(i as int));
        if x.relation == kind {
            out.push((x.left_role_id, x.right_role_id));
        }
        proof {
            let n = kind_edges(rels@.take(i + 1), kind);
            if x.relation == kind {
                assert(out@ =~= n);
            } else {
                assert(out@ =~= n);
            }
        }
        i = i + 1;
    }
    assert(rels@.take(rels@.len() as int) =~= rels@);
    out
}

/// What the star edges gathered so far hold: those there before, and the
/// star edge of each role visited.
pub open spec fn stars_so_far(
    out: Seq<CanonicalStructuralRelationV3>, orig: Seq<CanonicalStructuralRelationV3>,
    es: Seq<(u16, u16)>, kind: StructuralRelationKindV3, visited: Seq<u16>,
) -> bool {
    &&& canon_sorted(out)
    &&& forall|x: CanonicalStructuralRelationV3| #[trigger] out.contains(x) <==> (orig.contains(x)
        || (x.relation == kind && star_edge(es, x.left_role_id, x.right_role_id) && visited.contains(x.right_role_id)))
}

/// Visits the component of a role, unless the role was visited.
fn visit_component(
    out: &mut Vec<CanonicalStructuralRelationV3>, visited: &mut Vec<u16>, es: &Vec<(u16, u16)>,
    kind: StructuralRelationKindV3, start: u16, Ghost(orig): Ghost<Seq<CanonicalStructuralRelationV3>>,
)
    requires
        stars_so_far(old(out)@, orig, es@, kind, old(visited)@),
    ensures
        stars_so_far(final(out)@, orig, es@, kind, final(visited)@),
        final(visited)@.contains(start),
        forall|y: u16| old(visited)@.contains(y) ==> final(visited)@.contains(y),
{
    if contains_role(visited, start) {
        return;
    }
    let ghost v0 = visited@;
    let c = component(es, start);
    let center = least_of(&c);
    let mut q: usize = 0;
    while q < c.len()
        invariant
            q <= c@.len(),
            c@.contains(center),
            forall|y: u16| #[trigger] c@.contains(y) ==> center <= y,
            forall|y: u16| #[trigger] c@.contains(y) <==> linked(es@, start, y),
            stars_so_far(out@, orig, es@, kind, visited@),
            forall|y: u16| v0.contains(y) ==> visited@.contains(y),
            forall|j: int| 0 <= j < q ==> visited@.contains(#[trigger] c@[j]),
        decreases c@.len() - q,
    {
        let m = c[q];
        let ghost before = visited@;
        let ghost out0 = out@;
        proof {
            assert(c@.contains(m));
            assert forall|l: u16| star_edge(es@, l, m) <==> (l == center && center < m) by {
                lemma_star_in_component(es@, start, c@, center, m, l);
            }
        }
        visited.push(m);
        proof {
            assert forall|y: u16| before.contains(y) implies visited@.contains(y) by {
                let p = choose|p: int| 0 <= p < before.len() && before[p] == y;
                assert(visited@[p] == y);
            }
            assert(visited@[before.len() as int] == m);
            assert forall|y: u16| #[trigger] visited@.contains(y) implies before.contains(y) || y == m by {
                let p = choose|p: int| 0 <= p < visited@.len() && visited@[p] == y;
                if p < before.len() {
                    assert(before[p] == y);
                }
            }
        }
        if center != m {
            let e = CanonicalStructuralRelationV3 { left_role_id: center, right_role_id: m, relation: kind };
            insert_canon(out, e);
        }
        proof {
            assert forall|x: CanonicalStructuralRelationV3| #[trigger] out@.contains(x) <==> (orig.contains(x)
                || (x.relation == kind && star_edge(es@, x.left_role_id, x.right_role_id) && visited@.contains(x.right_role_id))) by {
                if x.right_role_id == m && x.relation == kind && star_edge(es@, x.left_role_id, x.right_role_id) {
                    assert(x.left_role_id == center);
                }
            }
            assert forall|j: int| 0 <= j < q + 1 implies visited@.contains(#[trigger] c@[j]) by {
                if j < q {
                    assert(before.contains(c@[j]));
                }
            }
        }
        q = q + 1;
    }
    assert(c@.contains(start));
    let ghost j0 = choose|j: int| 0 <= j < c@.len() && c@[j] == start;
    assert(visited@.contains(c@[j0]));
}

/// Both ends of an edge were visited.
pub open spec fn pair_visited(e: (u16, u16), v: Seq<u16>) -> bool {
    v.contains(e.0) && v.contains(e.1)
}

/// Adds the star edges of every component of one kind.
fn add_stars(out: &mut Vec<CanonicalStructuralRelationV3>, es: &Vec<(u16, u16)>, kind: StructuralRelationKindV3)
    requires
        canon_sorted(old(out)@),
    ensures
        canon_sorted(final(out)@),
        forall|x: CanonicalStructuralRelationV3| final(out)@.contains(x) <==> (old(out)@.contains(x)
            || (x.relation == kind && star_edge(es@, x.left_role_id, x.right_role_id))),
{
    let ghost orig = out@;
    let mut visited: Vec<u16> = Vec::new();
    let mut t: usize = 0;
    while t < es.len()
        invariant
            t <= es@.len(),
            stars_so_far(out@, orig, es@, kind, visited@),
            forall|u: int| 0 <= u < t ==> pair_visited(#[trigger] es@[u], visited@),
        decreases es@.len() - t,
    {
        let (a, b) = es[t];
        let ghost v0 = visited@;
        visit_component(out, &mut visited, es, kind, a, Ghost(orig));
        let ghost v1 = visited@;
        visit_component(out, &mut visited, es, kind, b, Ghost(orig));
        proof {
            assert(v1.contains(a));
            assert(visited@.contains(a));
            assert forall|u: int| 0 <= u < t + 1 implies pair_visited(#[trigger] es@[u], visited@) by {
                if u < t {
                    assert(pair_visited(es@[u], v0));
                    assert(v1.contains(es@[u].0) && v1.contains(es@[u].1));
                }
            }
        }
        t = t + 1;
    }
    assert forall|x: CanonicalStructuralRelationV3| out@.contains(x) <==> (orig.contains(x)
        || (x.relation == kind && star_edge(es@, x.left_role_id, x.right_role_id))) by {
        if x.relation == kind && star_edge(es@, x.left_role_id, x.right_role_id) {
            lemma_star_ends_edge(es@, x.left_role_id, x.right_role_id);
            let u = choose|u: int| 0 <= u < es@.len() && #[trigger] ends_at(es@, u, x.right_role_id);
            assert(pair_visited(es@[u], visited@));
        }
    }
}

// ---------------------------------------------------------------- temporal neighbours

/// The temporal distance of each role.
pub open spec fn role_distances(roles: Seq<CanonicalStructuralRoleV3>) -> Seq<u64> {
    roles.map_values(|r: CanonicalStructuralRoleV3| r.features.temporal_distance as u64)
}

/// The least id of the roles at a distance, if any role is there.
pub open spec fn least_role(roles: Seq<CanonicalStructuralRoleV3>, d: u16) -> Option<u16>
    decreases roles.len(),
{
    if roles.len() == 0 {
        None
    } else {
        let rest = least_role(roles.drop_last(), d);
        let r = roles.last();
        if r.features.temporal_distance == d {
            match rest {
                Some(m) => Some(if r.role_id < m { r.role_id } else { m }),
                None => Some(r.role_id),
            }
        } else {
            rest
        }
    }
}

fn least_role_exec(roles: &[CanonicalStructuralRoleV3], d: u16) -> (r: Option<u16>)
    ensures
        r == least_role(roles@, d),
{
    let mut r: Option<u16> = None;
    let mut i: usize = 0;
    while i < roles.len()
        invariant
            i <= roles@.len(),
            r == least_role(roles@.take(i as int), d),
        decreases roles@.len() - i,
    {
        assert(roles@.take(i + 1).drop_last() =~= roles@.take(i as int));
        assert(roles@.take(i + 1).last() == roles@[i as int]);
        let role = &roles[i];
        if role.features.temporal_distance == d {
            r = match r {
                Some(m) => Some(if role.role_id < m { role.role_id } else { m }),
                None => Some(role.role_id),
            };
        }
        i = i + 1;
    }
    assert(roles@.take(roles@.len() as int) =~= roles@);
    r
}

/// Whether some relation is one of temporal adjacency.
pub open spec fn has_temporal(rels: Seq<CanonicalStructuralRelationV3>) -> bool {
    exists|k: int| 0 <= k < rels.len() && (#[trigger] rels[k]).relation == StructuralRelationKindV3::AdjacentTemporalDistance
}

/// The edge between the least roles at the `i`-th and the next distance.
pub open spec fn temporal_edge(roles: Seq<CanonicalStructuralRoleV3>, ds: Seq<u64>, i: int, x: CanonicalStructuralRelationV3) -> bool {
    match (least_role(roles, ds[i] as u16), least_role(roles, ds[i + 1] as u16)) {
        (Some(a), Some(b)) => x == (CanonicalStructuralRelationV3 {
            left_role_id: if a <= b { a } else { b },
            right_role_id: if a <= b { b } else { a },
            relation: StructuralRelationKindV3::AdjacentTemporalDistance,
        }),
        _ => false,
    }
}

/// A temporal relation of the canonical view: when any temporal adjacency
/// was seen, the least roles of each two neighbouring distances.
pub open spec fn temporal_relation(
    rels: Seq<CanonicalStructuralRelationV3>, roles: Seq<CanonicalStructuralRoleV3>, x: CanonicalStructuralRelationV3,
) -> bool {
    let ds = sorted_unique(role_distances(roles));
    &&& has_temporal(rels)
    &&& exists|i: int| 0 <= i && i + 1 < ds.len() && #[trigger] temporal_edge(roles, ds, i, x)
}

/// A component relation of the canonical view: a star edge of its kind.
pub open spec fn component_relation(rels: Seq<CanonicalStructuralRelationV3>, x: CanonicalStructuralRelationV3) -> bool {
    &&& x.relation != StructuralRelationKindV3::AdjacentTemporalDistance
    &&& star_edge(kind_edges(rels, x.relation), x.left_role_id, x.right_role_id)
}

/// Reduces relations to their canonical form: each connected component of
/// a kind becomes a star around its least role, and temporal adjacency
/// becomes the links between the least roles of neighbouring distances.
/// The result is sorted, each relation once.
pub fn canonicalize_relation_components(
    relations: Vec<CanonicalStructuralRelationV3>,
    roles: &[CanonicalStructuralRoleV3],
) -> (r: Vec<CanonicalStructuralRelationV3>)
    ensures
        canon_sorted(r@),
        forall|x: CanonicalStructuralRelationV3| #[trigger] r@.contains(x) <==> (component_relation(relations@, x)
            || temporal_relation(relations@, roles@, x)),
{
    let mut out: Vec<CanonicalStructuralRelationV3> = Vec::new();
    let e0 = kind_edges_exec(&relations, StructuralRelationKindV3::SameValue);
    add_stars(&mut out, &e0, StructuralRelationKindV3::SameValue);
    let e1 = kind_edges_exec(&relations, StructuralRelationKindV3::SameCallLineage);
    add_stars(&mut out, &e1, StructuralRelationKindV3::SameCallLineage);
    let e2 = kind_edges_exec(&relations, StructuralRelationKindV3::SameTopologyNeighborhood);
    add_stars(&mut out, &e2, StructuralRelationKindV3::SameTopologyNeighborhood);
    assert forall|x: CanonicalStructuralRelationV3| out@.contains(x) <==> component_relation(relations@, x) by {
        match x.relation {
            StructuralRelationKindV3::SameValue => {},
            StructuralRelationKindV3::SameCallLineage => {},
            StructuralRelationKindV3::SameTopologyNeighborhood => {},
            StructuralRelationKindV3::AdjacentTemporalDistance => {},
        }
    }
    let mut temporal = false;
    let mut k: usize = 0;
    while k < relations.len()
        invariant
            k <= relations@.len(),
            temporal <==> exists|j: int| 0 <= j < k && (#[trigger] relations@[j]).relation
                == StructuralRelationKindV3::AdjacentTemporalDistance,
        decreases relations@.len() - k,
    {
        if relations[k].relation == StructuralRelationKindV3::AdjacentTemporalDistance {
            temporal = true;
        }
        k = k + 1;
    }
    let ghost rv = relations@;
    let ghost comp = out@;
    if !temporal {
        assert forall|x: CanonicalStructuralRelationV3| #[trigger] out@.contains(x) <==> (component_relation(rv, x)
            || temporal_relation(rv, roles@, x)) by {}
        return out;
    }
    let mut dists: Vec<u64> = Vec::new();
    let mut i: usize = 0;
    while i < roles.len()
        invariant
            i <= roles@.len(),
            dists@ == role_distances(roles@.take(i as int)),
        decreases roles@.len() - i,
    {
        dists.push(roles[i].features.temporal_distance as u64);
        assert(dists@ =~= role_distances(roles@.take(i + 1)));
        i = i + 1;
    }
    assert(roles@.take(roles@.len() as int) =~= roles@);
    let ds = sort_dedup_u64(dists.as_slice());
    let ghost dv = ds@;
    assert(dv == sorted_unique(role_distances(roles@)));
    let mut p: usize = 0;
    let last: usize = if ds.len() > 0 { ds.len() - 1 } else { 0 };
    while p < last
        invariant
            dv == ds@,
            dv == sorted_unique(role_distances(roles@)),
            last == (if dv.len() > 0 { dv.len() - 1 } else { 0 }),
            p <= last,
            has_temporal(rv),
            canon_sorted(out@),
            forall|x: CanonicalStructuralRelationV3| #[trigger] out@.contains(x) <==> (comp.contains(x)
                || exists|j: int| 0 <= j < p && j + 1 < dv.len() && #[trigger] temporal_edge(roles@, dv, j, x)),
            forall|x: CanonicalStructuralRelationV3| comp.contains(x) <==> component_relation(rv, x),
        decreases ds@.len() - p,
    {
        let a = least_role_exec(roles, ds[p] as u16);
        let b = least_role_exec(roles, ds[p + 1] as u16);
        let ghost before = out@;
        match (a, b) {
            (Some(a), Some(b)) => {
                let e = CanonicalStructuralRelationV3 {
                    left_role_id: if a <= b { a } else { b },
                    right_role_id: if a <= b { b } else { a },
                    relation: StructuralRelationKindV3::AdjacentTemporalDistance,
                };
                insert_canon(&mut out, e);
                assert(temporal_edge(roles@, dv, p as int, e));
            },
            _ => {},
        }
        proof {
            assert forall|x: CanonicalStructuralRelationV3| #[trigger] out@.contains(x) <==> (comp.contains(x)
                || exists|j: int| 0 <= j < p + 1 && j + 1 < dv.len() && #[trigger] temporal_edge(roles@, dv, j, x)) by {
                if exists|j: int| 0 <= j < p + 1 && j + 1 < dv.len() && #[trigger] temporal_edge(roles@, dv, j, x) {
                    let j = choose|j: int| 0 <= j < p + 1 && j + 1 < dv.len() && #[trigger] temporal_edge(roles@, dv, j, x);
                    if j < p {
                        assert(before.contains(x));
                    }
                }
                if before.contains(x) && !comp.contains(x) {
                    let j = choose|j: int| 0 <= j < p && j + 1 < dv.len() && #[trigger] temporal_edge(roles@, dv, j, x);
                    assert(temporal_edge(roles@, dv, j, x));
                }
            }
        }
        p = p + 1;
    }
    assert forall|x: CanonicalStructuralRelationV3| #[trigger] out@.contains(x) <==> (component_relation(rv, x)
        || temporal_relation(rv, roles@, x)) by {
        if exists|j: int| 0 <= j < p && j + 1 < dv.len() && #[trigger] temporal_edge(roles@, dv, j, x) {
            let j = choose|j: int| 0 <= j < p && j + 1 < dv.len() && #[trigger] temporal_edge(roles@, dv, j, x);
            assert(temporal_relation(rv, roles@, x));
        }
        if temporal_relation(rv, roles@, x) {
            let j = choose|j: int| 0 <= j && j + 1 < dv.len() && #[trigger] temporal_edge(roles@, dv, j, x);
            assert(j < p);
        }
    }
    out
}

// ---------------------------------------------------------------- laws of the canonical relations

/// An edge of a kind comes from a relation of that kind.
proof fn lemma_kind_edges_member(rels: Seq<CanonicalStructuralRelationV3>, kind: StructuralRelationKindV3, e: (u16, u16))
    ensures
        kind_edges(rels, kind).contains(e) <==> rels.contains(CanonicalStructuralRelationV3 {
            left_role_id: e.0, right_role_id: e.1, relation: kind }),
    decreases rels.len(),
{
    let x = CanonicalStructuralRelationV3 { left_role_id: e.0, right_role_id: e.1, relation: kind };
    if rels.len() > 0 {
        let d = rels.drop_last();
        lemma_kind_edges_member(d, kind, e);
        let kd = kind_edges(d, kind);
        let k = kind_edges(rels, kind);
        let tail = if rels.last().relation == kind {
            seq![(rels.last().left_role_id, rels.last().right_role_id)]
        } else {
            Seq::<(u16, u16)>::empty()
        };
        assert(k == kd + tail);
        if k.contains(e) {
            let i = choose|i: int| 0 <= i < k.len() && k[i] == e;
            if i < kd.len() {
                assert(kd[i] == e);
                let j = choose|j: int| 0 <= j < d.len() && d[j] == x;
                assert(rels[j] == x);
            } else {
                assert(rels[rels.len() - 1] == x);
            }
        }
        if rels.contains(x) {
            let j = choose|j: int| 0 <= j < rels.len() && rels[j] == x;
            if j < d.len() {
                assert(d[j] == x);
                let i = choose|i: int| 0 <= i < kd.len() && kd[i] == e;
                assert(k[i] == e);
            } else {
                assert(k[kd.len() as int] == e);
            }
        }
    }
}

/// Closure under edges depends only on which edges there are.
proof fn lemma_closed_same_edges(es1: Seq<(u16, u16)>, es2: Seq<(u16, u16)>, s: Set<u16>)
    requires
        forall|e: (u16, u16)| es1.contains(e) <==> es2.contains(e),
        closed_under(es1, s),
    ensures
        closed_under(es2, s),
{
    assert forall|i: int| 0 <= i < es2.len() implies (s.contains(#[trigger] es2[i].0) <==> s.contains(es2[i].1)) by {
        assert(es2.contains(es2[i]));
        let j = choose|j: int| 0 <= j < es1.len() && es1[j] == es2[i];
        assert(s.contains(es1[j].0) <==> s.contains(es1[j].1));
    }
}

proof fn lemma_linked_same_edges(es1: Seq<(u16, u16)>, es2: Seq<(u16, u16)>, a: u16, b: u16)
    requires
        forall|e: (u16, u16)| es1.contains(e) <==> es2.contains(e),
    ensures
        linked(es1, a, b) <==> linked(es2, a, b),
{
    reveal(linked);
    if linked(es1, a, b) {
        assert forall|s: Set<u16>| #![trigger closed_under(es2, s)] closed_under(es2, s) && s.contains(a) implies s.contains(b) by {
            lemma_closed_same_edges(es2, es1, s);
        }
    }
    if linked(es2, a, b) {
        assert forall|s: Set<u16>| #![trigger closed_under(es1, s)] closed_under(es1, s) && s.contains(a) implies s.contains(b) by {
            lemma_closed_same_edges(es1, es2, s);
        }
    }
}

proof fn lemma_star_same_edges(es1: Seq<(u16, u16)>, es2: Seq<(u16, u16)>, l: u16, r: u16)
    requires
        forall|e: (u16, u16)| es1.contains(e) <==> es2.contains(e),
    ensures
        star_edge(es1, l, r) <==> star_edge(es2, l, r),
{
    lemma_linked_same_edges(es1, es2, r, l);
    assert forall|m: u16| linked(es1, r, m) <==> linked(es2, r, m) by {
        lemma_linked_same_edges(es1, es2, r, m);
    }
}

/// Two sorted lists of distinct relations with the same members are equal.
proof fn lemma_sorted_same_members(r1: Seq<CanonicalStructuralRelationV3>, r2: Seq<CanonicalStructuralRelationV3>)
    requires
        canon_sorted(r1),
        canon_sorted(r2),
        forall|x: CanonicalStructuralRelationV3| r1.contains(x) <==> r2.contains(x),
    ensures
        r1 == r2,
    decreases r1.len() + r2.len(),
{
    if r1.len() == 0 {
        if r2.len() > 0 {
            assert(r2.contains(r2[0]));
        }
        assert(r1 =~= r2);
    } else if r2.len() == 0 {
        assert(r1.contains(r1[0]));
    } else {
        assert(r1.contains(r1[0]) && r2.contains(r2[0]));
        if r1[0] != r2[0] {
            let j = choose|j: int| 0 <= j < r2.len() && r2[j] == r1[0];
            let i = choose|i: int| 0 <= i < r1.len() && r1[i] == r2[0];
            assert(j > 0 && i > 0);
            assert(canon_lt(r2[0], r2[j]));
            assert(canon_lt(r1[0], r1[i]));
            lemma_canon_lt_trans(r1[0], r2[0], r1[0]);
        }
        let t1 = r1.drop_first();
        let t2 = r2.drop_first();
        assert forall|i: int, j: int| 0 <= i < j < t1.len() implies canon_lt(#[trigger] t1[i], #[trigger] t1[j]) by {
            assert(canon_lt(r1[i + 1], r1[j + 1]));
        }
        assert forall|i: int, j: int| 0 <= i < j < t2.len() implies canon_lt(#[trigger] t2[i], #[trigger] t2[j]) by {
            assert(canon_lt(r2[i + 1], r2[j + 1]));
        }
        assert forall|x: CanonicalStructuralRelationV3| t1.contains(x) <==> t2.contains(x) by {
            if t1.contains(x) {
                let i = choose|i: int| 0 <= i < t1.len() && t1[i] == x;
                assert(r1[i + 1] == x);
                assert(r1.contains(x));
                let j = choose|j: int| 0 <= j < r2.len() && r2[j] == x;
                if j == 0 {
                    assert(canon_lt(r1[0], r1[i + 1]));
                }
                assert(t2[j - 1] == x);
            }
            if t2.contains(x) {
                let j = choose|j: int| 0 <= j < t2.len() && t2[j] == x;
                assert(r2[j + 1] == x);
                assert(r2.contains(x));
                let i = choose|i: int| 0 <= i < r1.len() && r1[i] == x;
                if i == 0 {
                    assert(canon_lt(r2[0], r2[j + 1]));
                }
                assert(t1[i - 1] == x);
            }
        }
        lemma_sorted_same_members(t1, t2);
        assert(r1 =~= seq![r1[0]] + t1);
        assert(r2 =~= seq![r2[0]] + t2);
    }
}

/// The canonical relations depend only on which relations are given, not
/// on their order or repetition: two results for lists with the same
/// members are equal.
pub proof fn lemma_canonical_relations_ignore_order(
    rels1: Seq<CanonicalStructuralRelationV3>, rels2: Seq<CanonicalStructuralRelationV3>,
    roles: Seq<CanonicalStructuralRoleV3>,
    r1: Seq<CanonicalStructuralRelationV3>, r2: Seq<CanonicalStructuralRelationV3>,
)
    requires
        forall|x: CanonicalStructuralRelationV3| rels1.contains(x) <==> rels2.contains(x),
        canon_sorted(r1),
        canon_sorted(r2),
        forall|x: CanonicalStructuralRelationV3| #[trigger] r1.contains(x) <==> (component_relation(rels1, x)
            || temporal_relation(rels1, roles, x)),
        forall|x: CanonicalStructuralRelationV3| #[trigger] r2.contains(x) <==> (component_relation(rels2, x)
            || temporal_relation(rels2, roles, x)),
    ensures
        r1 == r2,
{
    assert forall|x: CanonicalStructuralRelationV3| r1.contains(x) <==> r2.contains(x) by {
        let k = x.relation;
        assert forall|e: (u16, u16)| kind_edges(rels1, k).contains(e) <==> kind_edges(rels2, k).contains(e) by {
            lemma_kind_edges_member(rels1, k, e);
            lemma_kind_edges_member(rels2, k, e);
        }
        lemma_star_same_edges(kind_edges(rels1, k), kind_edges(rels2, k), x.left_role_id, x.right_role_id);
        if has_temporal(rels1) {
            let j = choose|j: int| 0 <= j < rels1.len() && (#[trigger] rels1[j]).relation == StructuralRelationKindV3::AdjacentTemporalDistance;
            assert(rels1.contains(rels1[j]));
            let i = choose|i: int| 0 <= i < rels2.len() && rels2[i] == rels1[j];
            assert(has_temporal(rels2));
        }
        if has_temporal(rels2) {
            let j = choose|j: int| 0 <= j < rels2.len() && (#[trigger] rels2[j]).relation == StructuralRelationKindV3::AdjacentTemporalDistance;
            assert(rels2.contains(rels2[j]));
            let i = choose|i: int| 0 <= i < rels1.len() && rels1[i] == rels2[j];
            assert(has_temporal(rels1));
        }
        assert(temporal_relation(rels1, roles, x) <==> temporal_relation(rels2, roles, x));
        assert(component_relation(rels1, x) <==> component_relation(rels2, x));
    }
    lemma_sorted_same_members(r1, r2);
}

// ---------------------------------------------------------------- the order of candidates

/// Candidates order by features, occurrences, value digest, then source id.
pub open spec fn candidate_lt(a: StructuralCandidateObservationV3, b: StructuralCandidateObservationV3) -> bool {
    let fa = feature_model(a.features);
    let fb = feature_model(b.features);
    if fa != fb {
        features_lt(fa, fb)
    } else if a.occurrence_count != b.occurrence_count {
        a.occurrence_count < b.occurrence_count
    } else if a.value_sha256@ != b.value_sha256@ {
        lex_lt(utf8(a.value_sha256@), utf8(b.value_sha256@))
    } else {
        a.source_role_id < b.source_role_id
    }
}

fn candidate_less(a: &StructuralCandidateObservationV3, b: &StructuralCandidateObservationV3) -> (r: bool)
    ensures
        r == candidate_lt(*a, *b),
{
    if !features_equal(&a.features, &b.features) {
        features_less(&a.features, &b.features)
    } else if a.occurrence_count != b.occurrence_count {
        a.occurrence_count < b.occurrence_count
    } else if !str_eq(a.value_sha256.as_str(), b.value_sha256.as_str()) {
        bytes_lt(a.value_sha256.as_str().as_bytes(), b.value_sha256.as_str().as_bytes())
    } else {
        a.source_role_id < b.source_role_id
    }
}

/// Puts a candidate after every candidate that does not sort after it.
pub open spec fn insert_candidate(s: Seq<StructuralCandidateObservationV3>, x: StructuralCandidateObservationV3) -> Seq<StructuralCandidateObservationV3>
    decreases s.len(),
{
    if s.len() == 0 {
        seq![x]
    } else if candidate_lt(x, s[0]) {
        seq![x] + s
    } else {
        seq![s[0]] + insert_candidate(s.subrange(1, s.len() as int), x)
    }
}

/// The candidates in order; equal ones keep their order.
pub open spec fn order_candidates(s: Seq<StructuralCandidateObservationV3>) -> Seq<StructuralCandidateObservationV3>
    decreases s.len(),
{
    if s.len() == 0 { s } else { insert_candidate(order_candidates(s.drop_last()), s.last()) }
}

proof fn lemma_insert_candidate_at(s: Seq<StructuralCandidateObservationV3>, x: StructuralCandidateObservationV3, p: int)
    requires
        0 <= p <= s.len(),
        forall|k: int| 0 <= k < p ==> !candidate_lt(x, #[trigger] s[k]),
        p == s.len() || candidate_lt(x, s[p]),
    ensures
        insert_candidate(s, x) == s.insert(p, x),
    decreases s.len(),
{
    if s.len() == 0 {
        assert(s.insert(p, x) =~= seq![x]);
    } else if p == 0 {
        assert(s.insert(0, x) =~= seq![x] + s);
    } else {
        let t = s.subrange(1, s.len() as int);
        assert forall|k: int| 0 <= k < p - 1 implies !candidate_lt(x, #[trigger] t[k]) by {
            assert(t[k] == s[k + 1]);
        }
        if p - 1 < t.len() {
            assert(t[p - 1] == s[p]);
        }
        assert(!candidate_lt(x, s[0]));
        lemma_insert_candidate_at(t, x, p - 1);
        assert(s.insert(p, x) =~= seq![s[0]] + t.insert(p - 1, x));
    }
}

pub open spec fn picked(v: Seq<StructuralCandidateObservationV3>, ix: Seq<usize>) -> Seq<StructuralCandidateObservationV3> {
    ix.map_values(|i: usize| v[i as int])
}

/// The positions of the candidates, in candidate order.
fn order_candidate_positions(v: &Vec<StructuralCandidateObservationV3>) -> (r: Vec<usize>)
    ensures
        forall|k: int| 0 <= k < r@.len() ==> #[trigger] r@[k] < v@.len(),
        picked(v@, r@) == order_candidates(v@),
{
    let mut out: Vec<usize> = Vec::new();
    let mut i: usize = 0;
    while i < v.len()
        invariant
            i <= v@.len(),
            forall|k: int| 0 <= k < out@.len() ==> #[trigger] out@[k] < v@.len(),
            picked(v@, out@) == order_candidates(v@.take(i as int)),
        decreases v@.len() - i,
    {
        let mut p: usize = 0;
        while p < out.len() && !candidate_less(&v[i], &v[out[p]])
            invariant
                p <= out@.len(),
                i < v@.len(),
                forall|k: int| 0 <= k < out@.len() ==> #[trigger] out@[k] < v@.len(),
                forall|k: int| 0 <= k < p ==> !candidate_lt(v@[i as int], #[trigger] picked(v@, out@)[k]),
            decreases out@.len() - p,
        {
            p = p + 1;
        }
        proof {
            let s = picked(v@, out@);
            lemma_insert_candidate_at(s, v@[i as int], p as int);
            assert(v@.take(i + 1).drop_last() =~= v@.take(i as int));
            assert(v@.take(i + 1).last() == v@[i as int]);
        }
        let ghost before = out@;
        out.insert(p, i);
        proof {
            assert(picked(v@, out@) =~= picked(v@, before).insert(p as int, v@[i as int]));
            assert forall|k: int| 0 <= k < out@.len() implies #[trigger] out@[k] < v@.len() by {
                if k < p {
                    assert(out@[k] == before[k]);
                } else if k > p {
                    assert(out@[k] == before[k - 1]);
                }
            }
        }
        i = i + 1;
    }
    assert(v@.take(v@.len() as int) =~= v@);
    out
}

// ---------------------------------------------------------------- laws of the candidate order

/// The candidate order is a strict order, total between candidates with
/// different source ids.
proof fn lemma_candidate_lt_order(a: StructuralCandidateObservationV3, b: StructuralCandidateObservationV3, c: StructuralCandidateObservationV3)
    ensures
        !candidate_lt(a, a),
        a.source_role_id != b.source_role_id ==> candidate_lt(a, b) || candidate_lt(b, a),
        candidate_lt(a, b) && candidate_lt(b, c) ==> candidate_lt(a, c),
{
    let fa = feature_model(a.features);
    let fb = feature_model(b.features);
    let fc = feature_model(c.features);
    lemma_features_lt_order(fa, fb, fc);
    lemma_features_lt_order(fb, fa, fc);
    lemma_features_lt_order(fa, fc, fb);
    lemma_features_lt_order(fb, fc, fa);
    lemma_utf8_injective(a.value_sha256@, b.value_sha256@);
    lemma_utf8_injective(b.value_sha256@, c.value_sha256@);
    lemma_utf8_injective(a.value_sha256@, c.value_sha256@);
    lemma_lex_lt_irreflexive(utf8(a.value_sha256@));
    if a.value_sha256@ != b.value_sha256@ {
        lemma_lex_lt_total(utf8(a.value_sha256@), utf8(b.value_sha256@));
    }
    if candidate_lt(a, b) && candidate_lt(b, c) && fa == fb && fb == fc
        && a.occurrence_count == b.occurrence_count && b.occurrence_count == c.occurrence_count
        && a.value_sha256@ != b.value_sha256@ && b.value_sha256@ != c.value_sha256@ {
        lemma_lex_lt_trans(utf8(a.value_sha256@), utf8(b.value_sha256@), utf8(c.value_sha256@));
        if a.value_sha256@ == c.value_sha256@ {
            lemma_lex_lt_trans(utf8(b.value_sha256@), utf8(c.value_sha256@), utf8(b.value_sha256@));
            lemma_lex_lt_irreflexive(utf8(b.value_sha256@));
        }
    }
}

/// No candidate sorts before an earlier one.
pub open spec fn candidates_in_order(s: Seq<StructuralCandidateObservationV3>) -> bool {
    forall|i: int, j: int| 0 <= i < j < s.len() ==> !candidate_lt(#[trigger] s[j], #[trigger] s[i])
}

/// No two candidates share a source id.
pub open spec fn source_ids_distinct(s: Seq<StructuralCandidateObservationV3>) -> bool {
    forall|i: int, j: int| 0 <= i < j < s.len() ==> (#[trigger] s[i]).source_role_id != (#[trigger] s[j]).source_role_id
}

proof fn lemma_insert_candidate_multiset(s: Seq<StructuralCandidateObservationV3>, x: StructuralCandidateObservationV3)
    ensures
        insert_candidate(s, x).to_multiset() =~= s.to_multiset().insert(x),
    decreases s.len(),
{
    broadcast use vstd::seq_lib::group_to_multiset_ensures, vstd::multiset::group_multiset_axioms;
    if s.len() == 0 {
        assert(seq![x] =~= Seq::<StructuralCandidateObservationV3>::empty().push(x));
    } else if candidate_lt(x, s[0]) {
        assert(seq![x] + s =~= s.insert(0, x));
    } else {
        let rest = s.subrange(1, s.len() as int);
        lemma_insert_candidate_multiset(rest, x);
        let r = insert_candidate(rest, x);
        assert(seq![s[0]] + r =~= r.insert(0, s[0]));
        assert(s =~= rest.insert(0, s[0]));
    }
}

proof fn lemma_order_candidates_multiset(s: Seq<StructuralCandidateObservationV3>)
    ensures
        order_candidates(s).to_multiset() =~= s.to_multiset(),
    decreases s.len(),
{
    broadcast use vstd::seq_lib::group_to_multiset_ensures, vstd::multiset::group_multiset_axioms;
    if s.len() > 0 {
        lemma_order_candidates_multiset(s.drop_last());
        lemma_insert_candidate_multiset(order_candidates(s.drop_last()), s.last());
        assert(s =~= s.drop_last().push(s.last()));
    }
}

proof fn lemma_insert_candidate_in_order(s: Seq<StructuralCandidateObservationV3>, x: StructuralCandidateObservationV3)
    requires
        candidates_in_order(s),
    ensures
        candidates_in_order(insert_candidate(s, x)),
    decreases s.len(),
{
    broadcast use vstd::seq_lib::group_to_multiset_ensures, vstd::multiset::group_multiset_axioms;
    if s.len() == 0 {
    } else if candidate_lt(x, s[0]) {
        let t = seq![x] + s;
        assert forall|i: int, j: int| 0 <= i < j < t.len() implies !candidate_lt(#[trigger] t[j], #[trigger] t[i]) by {
            if i == 0 {
                assert(t[j] == s[j - 1]);
                if j - 1 > 0 {
                    assert(!candidate_lt(s[j - 1], s[0]));
                }
                lemma_candidate_lt_order(s[j - 1], x, s[0]);
                lemma_candidate_lt_order(x, s[0], x);
            } else {
                assert(t[i] == s[i - 1] && t[j] == s[j - 1]);
            }
        }
    } else {
        let rest = s.subrange(1, s.len() as int);
        assert forall|i: int, j: int| 0 <= i < j < rest.len() implies !candidate_lt(#[trigger] rest[j], #[trigger] rest[i]) by {
            assert(rest[i] == s[i + 1] && rest[j] == s[j + 1]);
        }
        lemma_insert_candidate_in_order(rest, x);
        lemma_insert_candidate_multiset(rest, x);
        let r = insert_candidate(rest, x);
        let t = seq![s[0]] + r;
        assert forall|i: int, j: int| 0 <= i < j < t.len() implies !candidate_lt(#[trigger] t[j], #[trigger] t[i]) by {
            if i == 0 {
                let e = t[j];
                assert(e == r[j - 1]);
                assert(r.contains(e));
                assert(r.to_multiset().count(e) > 0);
                if e != x {
                    assert(rest.to_multiset().count(e) > 0);
                    assert(rest.contains(e));
                    let k = choose|k: int| 0 <= k < rest.len() && rest[k] == e;
                    assert(s[k + 1] == e);
                    assert(!candidate_lt(s[k + 1], s[0]));
                }
            } else {
                assert(t[i] == r[i - 1] && t[j] == r[j - 1]);
            }
        }
    }
}

proof fn lemma_order_candidates_in_order(s: Seq<StructuralCandidateObservationV3>)
    ensures
        candidates_in_order(order_candidates(s)),
    decreases s.len(),
{
    if s.len() > 0 {
        lemma_order_candidates_in_order(s.drop_last());
        lemma_insert_candidate_in_order(order_candidates(s.drop_last()), s.last());
    }
}

/// Two ordered lists of the same candidates, no source id twice, are equal.
proof fn lemma_ordered_candidates_unique(t: Seq<StructuralCandidateObservationV3>, u: Seq<StructuralCandidateObservationV3>)
    requires
        candidates_in_order(t),
        candidates_in_order(u),
        source_ids_distinct(u),
        t.to_multiset() =~= u.to_multiset(),
    ensures
        t == u,
    decreases u.len(),
{
    broadcast use vstd::seq_lib::group_to_multiset_ensures, vstd::multiset::group_multiset_axioms;
    assert(t.to_multiset().len() == u.to_multiset().len());
    assert(t.len() == u.len());
    if u.len() == 0 {
        assert(t =~= u);
    } else {
        let n = u.len() as int;
        let a = t[n - 1];
        let b = u[n - 1];
        assert(t.contains(a));
        assert(u.to_multiset().count(a) > 0);
        assert(u.contains(a));
        let ka = choose|k: int| 0 <= k < n && u[k] == a;
        assert(u.contains(b));
        assert(t.to_multiset().count(b) > 0);
        assert(t.contains(b));
        let kb = choose|k: int| 0 <= k < n && t[k] == b;
        if a != b {
            assert(ka != n - 1);
            assert(u[ka].source_role_id != u[n - 1].source_role_id);
            lemma_candidate_lt_order(a, b, a);
            assert(kb != n - 1);
            assert(!candidate_lt(t[n - 1], t[kb]));
            assert(!candidate_lt(u[n - 1], u[ka]));
        }
        let t1 = t.drop_last();
        let u1 = u.drop_last();
        assert(t1 =~= t.remove(n - 1));
        assert(u1 =~= u.remove(n - 1));
        assert(t1.to_multiset() =~= u1.to_multiset());
        assert forall|i: int, j: int| 0 <= i < j < t1.len() implies !candidate_lt(#[trigger] t1[j], #[trigger] t1[i]) by {
            assert(t1[i] == t[i] && t1[j] == t[j]);
        }
        assert forall|i: int, j: int| 0 <= i < j < u1.len() implies !candidate_lt(#[trigger] u1[j], #[trigger] u1[i]) by {
            assert(u1[i] == u[i] && u1[j] == u[j]);
        }
        assert forall|i: int, j: int| 0 <= i < j < u1.len() implies (#[trigger] u1[i]).source_role_id != (#[trigger] u1[j]).source_role_id by {
            assert(u1[i] == u[i] && u1[j] == u[j]);
        }
        lemma_ordered_candidates_unique(t1, u1);
        assert(t =~= t1.push(a));
        assert(u =~= u1.push(b));
    }
}

/// The order of candidates does not depend on the order in which they are
/// given, when no source id appears twice.
pub proof fn lemma_candidate_order_ignores_input_order(
    a: Seq<StructuralCandidateObservationV3>, b: Seq<StructuralCandidateObservationV3>,
)
    requires
        a.to_multiset() =~= b.to_multiset(),
        source_ids_distinct(a),
    ensures
        order_candidates(a) == order_candidates(b),
{
    broadcast use vstd::seq_lib::group_to_multiset_ensures, vstd::multiset::group_multiset_axioms;
    lemma_order_candidates_multiset(a);
    lemma_order_candidates_multiset(b);
    lemma_order_candidates_in_order(a);
    lemma_order_candidates_in_order(b);
    let oa = order_candidates(a);
    assert forall|i: int, j: int| 0 <= i < j < oa.len() implies (#[trigger] oa[i]).source_role_id != (#[trigger] oa[j]).source_role_id by {
        lemma_distinct_ids_survive(a, oa, i, j);
    }
    lemma_ordered_candidates_unique(order_candidates(b), oa);
}

/// Rearranging a list with no repeated source id repeats none.
proof fn lemma_distinct_ids_survive(a: Seq<StructuralCandidateObservationV3>, o: Seq<StructuralCandidateObservationV3>, i: int, j: int)
    requires
        o.to_multiset() =~= a.to_multiset(),
        source_ids_distinct(a),
        0 <= i < j < o.len(),
    ensures
        o[i].source_role_id != o[j].source_role_id,
{
    broadcast use vstd::seq_lib::group_to_multiset_ensures, vstd::multiset::group_multiset_axioms;
    if o[i].source_role_id == o[j].source_role_id {
        assert(o.contains(o[i]) && o.contains(o[j]));
        assert(a.to_multiset().count(o[i]) > 0 && a.to_multiset().count(o[j]) > 0);
        assert(a.contains(o[i]) && a.contains(o[j]));
        let p = choose|p: int| 0 <= p < a.len() && a[p] == o[i];
        let q = choose|q: int| 0 <= q < a.len() && a[q] == o[j];
        if p == q {
            // the same element twice in `o` means it counts twice in `a`
            let oi = o.remove(j);
            assert(oi.to_multiset() =~= o.to_multiset().remove(o[j]));
            assert(oi[i] == o[i]);
            assert(oi.contains(o[i]));
            assert(o[i] == o[j]);
            assert(oi.to_multiset().count(o[i]) > 0);
            assert(o.to_multiset().count(o[i]) >= 2);
            assert(a.to_multiset().count(o[i]) >= 2);
            let ap = a.remove(p);
            assert(ap.to_multiset() =~= a.to_multiset().remove(a[p]));
            assert(ap.to_multiset().count(o[i]) > 0);
            assert(ap.contains(o[i]));
            let r = choose|r: int| 0 <= r < ap.len() && ap[r] == o[i];
            if r < p {
                assert(ap[r] == a[r]);
                assert(a[r].source_role_id == a[p].source_role_id);
            } else {
                assert(ap[r] == a[r + 1]);
                assert(a[r + 1].source_role_id == a[p].source_role_id);
            }
        } else if p < q {
            assert(a[p].source_role_id != a[q].source_role_id);
        } else {
            assert(a[q].source_role_id != a[p].source_role_id);
        }
    }
}

// ---------------------------------------------------------------- roles and sources

/// The first position from `q` on of a candidate with a source id (the
/// length when none).
pub open spec fn source_position(s: Seq<StructuralCandidateObservationV3>, id: u16, q: int) -> int
    decreases s.len() - q,
{
    if q < 0 || q >= s.len() { s.len() as int } else if s[q].source_role_id == id { q } else { source_position(s, id, q + 1) }
}

/// A source id met earlier in the order.
pub open spec fn repeated_at(s: Seq<StructuralCandidateObservationV3>, j: int) -> bool {
    exists|i: int| 0 <= i < j && s[i].source_role_id == (#[trigger] s[j]).source_role_id
}

/// Some source id repeats among the first 65536 candidates.
pub open spec fn repeats_early(s: Seq<StructuralCandidateObservationV3>) -> bool {
    exists|j: int| 0 <= j < s.len() && j <= 0xffff && #[trigger] repeated_at(s, j)
}

/// A relation between sources, as one between the roles they became.
pub open spec fn mapped_relation(s: Seq<StructuralCandidateObservationV3>, e: StructuralSourceRelationV3) -> Option<CanonicalStructuralRelationV3> {
    let l = source_position(s, e.left_source_role_id, 0);
    let r = source_position(s, e.right_source_role_id, 0);
    if l < s.len() && r < s.len() {
        Some(CanonicalStructuralRelationV3 {
            left_role_id: (if l <= r { l } else { r }) as u16,
            right_role_id: (if l <= r { r } else { l }) as u16,
            relation: e.relation,
        })
    } else {
        None
    }
}

pub open spec fn all_mapped(s: Seq<StructuralCandidateObservationV3>, rels: Seq<StructuralSourceRelationV3>) -> bool {
    forall|k: int| 0 <= k < rels.len() ==> (#[trigger] mapped_relation(s, rels[k])) is Some
}

pub open spec fn mapped_relations(s: Seq<StructuralCandidateObservationV3>, rels: Seq<StructuralSourceRelationV3>) -> Seq<CanonicalStructuralRelationV3> {
    rels.map_values(|e: StructuralSourceRelationV3| match mapped_relation(s, e) {
        Some(c) => c,
        None => CanonicalStructuralRelationV3 { left_role_id: 0, right_role_id: 0, relation: e.relation },
    })
}

/// The role a candidate becomes at its place.
pub open spec fn role_at(c: StructuralCandidateObservationV3, j: int) -> CanonicalStructuralRoleV3 {
    CanonicalStructuralRoleV3 { role_id: j as u16, features: c.features, occurrence_count: c.occurrence_count }
}

pub open spec fn roles_of(s: Seq<StructuralCandidateObservationV3>) -> Seq<CanonicalStructuralRoleV3> {
    Seq::new(s.len(), |j: int| role_at(s[j], j))
}

pub open spec fn bindings_of(s: Seq<StructuralCandidateObservationV3>) -> Seq<CanonicalStructuralSourceBindingV3> {
    Seq::new(s.len(), |j: int| CanonicalStructuralSourceBindingV3 { source_role_id: s[j].source_role_id, canonical_role_id: j as u16 })
}

fn copy_features(f: &StructuralCandidateFeaturesV3) -> (r: StructuralCandidateFeaturesV3)
    ensures
        r == *f,
{
    StructuralCandidateFeaturesV3 {
        source_event_class: f.source_event_class,
        call_lineage: f.call_lineage,
        capability_class: f.capability_class,
        temporal_distance: f.temporal_distance,
        completion_state: f.completion_state,
        event_candidate_cardinality: f.event_candidate_cardinality,
        value_type: f.value_type,
        request_relation: f.request_relation,
        topology_neighborhood_root_sha256: f.topology_neighborhood_root_sha256.clone(),
    }
}

/// The position of a source id among the first `n` ids, if there.
fn find_source(ids: &Vec<u16>, id: u16, Ghost(s): Ghost<Seq<StructuralCandidateObservationV3>>) -> (r: Option<usize>)
    requires
        ids@.len() == s.len(),
        forall|j: int| 0 <= j < s.len() ==> #[trigger] ids@[j] == s[j].source_role_id,
    ensures
        r matches Some(p) ==> p < s.len() && p == source_position(s, id, 0),
        r is None ==> source_position(s, id, 0) == s.len(),
{
    let mut q: usize = 0;
    while q < ids.len()
        invariant
            q <= ids@.len(),
            ids@.len() == s.len(),
            forall|j: int| 0 <= j < s.len() ==> #[trigger] ids@[j] == s[j].source_role_id,
            source_position(s, id, q as int) == source_position(s, id, 0),
        decreases ids@.len() - q,
    {
        if ids[q] == id {
            return Some(q);
        }
        q = q + 1;
    }
    None
}

/// What a canonical projection holds of the ordered candidates and the
/// relations between their roles.
pub open spec fn projection_matches(
    view: CanonicalRuntimeStructuralViewV3, bindings: Seq<CanonicalStructuralSourceBindingV3>,
    context: StructuralContextV3, ord: Seq<StructuralCandidateObservationV3>, rels: Seq<StructuralSourceRelationV3>,
) -> bool {
    let mapped = mapped_relations(ord, rels);
    &&& view.schema@ == CANONICAL_RUNTIME_STRUCTURAL_VIEW_SCHEMA_V3@
    &&& view.context == context
    &&& view.roles@ == roles_of(ord)
    &&& canon_sorted(view.relations@)
    &&& forall|x: CanonicalStructuralRelationV3| #[trigger] view.relations@.contains(x) <==> (component_relation(mapped, x)
        || temporal_relation(mapped, view.roles@, x))
    &&& utf8(view.structural_view_sha256@) == structural_view_identity(view)
    &&& bindings == bindings_of(ord)
}

/// The outcome of a projection, error by error in the order they are checked.
pub open spec fn projection_outcome_ok(
    context: StructuralContextV3, extraction: StructuralExtractionV3,
    r: Result<(CanonicalRuntimeStructuralViewV3, Vec<CanonicalStructuralSourceBindingV3>), StructuralExtractionErrorV3>,
) -> bool {
    let ord = order_candidates(extraction.candidates@);
    if !is_sha256_text(utf8(context.topology_neighborhood_root_sha256@)) {
        r == Err::<(CanonicalRuntimeStructuralViewV3, Vec<CanonicalStructuralSourceBindingV3>), StructuralExtractionErrorV3>(
            StructuralExtractionErrorV3::InvalidContext)
    } else if extraction.candidate_budget_exhausted || extraction.relation_budget_exhausted {
        r == Err::<(CanonicalRuntimeStructuralViewV3, Vec<CanonicalStructuralSourceBindingV3>), StructuralExtractionErrorV3>(
            StructuralExtractionErrorV3::BudgetExhausted)
    } else if repeats_early(ord) {
        r == Err::<(CanonicalRuntimeStructuralViewV3, Vec<CanonicalStructuralSourceBindingV3>), StructuralExtractionErrorV3>(
            StructuralExtractionErrorV3::InvalidSource)
    } else if ord.len() > 0x10000 {
        r == Err::<(CanonicalRuntimeStructuralViewV3, Vec<CanonicalStructuralSourceBindingV3>), StructuralExtractionErrorV3>(
            StructuralExtractionErrorV3::BudgetExhausted)
    } else if !all_mapped(ord, extraction.relations@) {
        r == Err::<(CanonicalRuntimeStructuralViewV3, Vec<CanonicalStructuralSourceBindingV3>), StructuralExtractionErrorV3>(
            StructuralExtractionErrorV3::InvalidSource)
    } else {
        r matches Ok((view, bindings)) && projection_matches(view, bindings@, context, ord, extraction.relations@)
    }
}

/// The canonical structural view of an extraction, with the role that each
/// source candidate became: roles are the candidates in order, relations
/// are mapped to roles and reduced to stars per component.
pub fn canonicalize_runtime_structural_projection_v3(
    context: StructuralContextV3,
    extraction: &StructuralExtractionV3,
) -> (r: Result<(CanonicalRuntimeStructuralViewV3, Vec<CanonicalStructuralSourceBindingV3>), StructuralExtractionErrorV3>)
    ensures
        projection_outcome_ok(context, *extraction, r),
{
    match context.validate() {
        Ok(()) => {},
        Err(e) => {
            return Err(e);
        },
    }
    if extraction.candidate_budget_exhausted || extraction.relation_budget_exhausted {
        return Err(StructuralExtractionErrorV3::BudgetExhausted);
    }
    let cands = &extraction.candidates;
    let order = order_candidate_positions(cands);
    let ghost ord = order_candidates(cands@);
    assert(ord.len() == order@.len());
    let mut ids: Vec<u16> = Vec::new();
    let mut roles: Vec<CanonicalStructuralRoleV3> = Vec::new();
    let mut bindings: Vec<CanonicalStructuralSourceBindingV3> = Vec::new();
    let mut j: usize = 0;
    while j < order.len()
        invariant
            j <= order@.len(),
            is_sha256_text(utf8(context.topology_neighborhood_root_sha256@)),
            !extraction.candidate_budget_exhausted && !extraction.relation_budget_exhausted,
            cands == &extraction.candidates,
            ord == order_candidates(cands@),
            ord == picked(cands@, order@),
            ord.len() == order@.len(),
            forall|k: int| 0 <= k < order@.len() ==> #[trigger] order@[k] < cands@.len(),
            ids@.len() == j,
            forall|k: int| 0 <= k < j ==> #[trigger] ids@[k] == ord[k].source_role_id,
            forall|k: int| 0 <= k < j ==> !#[trigger] repeated_at(ord, k),
            j <= 0x10000,
            roles@ == roles_of(ord.take(j as int)),
            bindings@ == bindings_of(ord.take(j as int)),
        decreases order@.len() - j,
    {
        if j > 0xffff {
            proof {
                assert forall|k: int| 0 <= k < ord.len() && k <= 0xffff implies !#[trigger] repeated_at(ord, k) by {}
                assert(!repeats_early(ord));
                assert(ord.len() > 0x10000);
                assert(is_sha256_text(utf8(context.topology_neighborhood_root_sha256@)));
            }
            return Err(StructuralExtractionErrorV3::BudgetExhausted);
        }
        let c = &cands[order[j]];
        assert(ord[j as int] == cands@[order@[j as int] as int]);
        if contains_role(&ids, c.source_role_id) {
            proof {
                let i = choose|i: int| 0 <= i < ids@.len() && ids@[i] == c.source_role_id;
                assert(ord[i].source_role_id == ord[j as int].source_role_id);
                assert(repeated_at(ord, j as int));
                assert(repeats_early(ord));
                assert(is_sha256_text(utf8(context.topology_neighborhood_root_sha256@)));
            }
            return Err(StructuralExtractionErrorV3::InvalidSource);
        }
        proof {
            assert(!repeated_at(ord, j as int)) by {
                if repeated_at(ord, j as int) {
                    let i = choose|i: int| 0 <= i < j && ord[i].source_role_id == (#[trigger] ord[j as int]).source_role_id;
                    assert(ids@[i] == c.source_role_id);
                }
            }
        }
        ids.push(c.source_role_id);
        roles.push(CanonicalStructuralRoleV3 {
            role_id: j as u16,
            features: copy_features(&c.features),
            occurrence_count: c.occurrence_count,
        });
        bindings.push(CanonicalStructuralSourceBindingV3 { source_role_id: c.source_role_id, canonical_role_id: j as u16 });
        proof {
            assert(roles@ =~= roles_of(ord.take(j + 1)));
            assert(bindings@ =~= bindings_of(ord.take(j + 1)));
        }
        j = j + 1;
    }
    assert(ord.take(ord.len() as int) =~= ord);
    assert(!repeats_early(ord));
    let rels = &extraction.relations;
    let mut mapped: Vec<CanonicalStructuralRelationV3> = Vec::new();
    let mut k: usize = 0;
    while k < rels.len()
        invariant
            k <= rels@.len(),
            is_sha256_text(utf8(context.topology_neighborhood_root_sha256@)),
            !extraction.candidate_budget_exhausted && !extraction.relation_budget_exhausted,
            ord == order_candidates(extraction.candidates@),
            rels == &extraction.relations,
            !repeats_early(ord),
            ids@.len() == ord.len(),
            ord.len() <= 0x10000,
            forall|q: int| 0 <= q < ord.len() ==> #[trigger] ids@[q] == ord[q].source_role_id,
            mapped@ == mapped_relations(ord, rels@.take(k as int)),
            forall|q: int| 0 <= q < k ==> (#[trigger] mapped_relation(ord, rels@[q])) is Some,
        decreases rels@.len() - k,
    {
        let e = rels[k];
        let l = find_source(&ids, e.left_source_role_id, Ghost(ord));
        let r = find_source(&ids, e.right_source_role_id, Ghost(ord));
        match (l, r) {
            (Some(l), Some(r)) => {
                let lo = if l <= r { l } else { r };
                let hi = if l <= r { r } else { l };
                mapped.push(CanonicalStructuralRelationV3 { left_role_id: lo as u16, right_role_id: hi as u16, relation: e.relation });
                proof {
                    assert(mapped_relation(ord, rels@[k as int]) == Some(CanonicalStructuralRelationV3 {
                        left_role_id: lo as u16, right_role_id: hi as u16, relation: e.relation }));
                    assert(mapped@ =~= mapped_relations(ord, rels@.take(k + 1)));
                }
            },
            _ => {
                proof {
                    assert(mapped_relation(ord, rels@[k as int]) is None);
                    assert(!all_mapped(ord, rels@));
                    assert(!repeats_early(ord));
                    assert(is_sha256_text(utf8(context.topology_neighborhood_root_sha256@)));
                }
                return Err(StructuralExtractionErrorV3::InvalidSource);
            },
        }
        k = k + 1;
    }
    assert(rels@.take(rels@.len() as int) =~= rels@);
    assert(all_mapped(ord, rels@));
    let relations = canonicalize_relation_components(mapped, roles.as_slice());
    let mut view = CanonicalRuntimeStructuralViewV3 {
        schema: CANONICAL_RUNTIME_STRUCTURAL_VIEW_SCHEMA_V3.to_owned(),
        structural_view_sha256: String::new(),
        context,
        roles,
        relations,
    };
    let id = match structural_view_digest(&view) {
        Ok(d) => d,
        Err(e) => {
            return Err(e);
        },
    };
    let ghost v0 = view;
    view.structural_view_sha256 = id;
    assert(structural_view_identity(view) == structural_view_identity(v0));
    Ok((view, bindings))
}

/// The canonical structural view of an extraction.
pub fn canonicalize_runtime_structural_view_v3(
    context: StructuralContextV3,
    extraction: &StructuralExtractionV3,
) -> (r: Result<CanonicalRuntimeStructuralViewV3, StructuralExtractionErrorV3>)
    ensures
        exists|p: Result<(CanonicalRuntimeStructuralViewV3, Vec<CanonicalStructuralSourceBindingV3>), StructuralExtractionErrorV3>|
            #[trigger] projection_outcome_ok(context, *extraction, p) && match p {
                Ok(v) => r == Ok::<CanonicalRuntimeStructuralViewV3, StructuralExtractionErrorV3>(v.0),
                Err(e) => r == Err::<CanonicalRuntimeStructuralViewV3, StructuralExtractionErrorV3>(e),
            },
{
    let p = canonicalize_runtime_structural_projection_v3(context, extraction);
    match p {
        Ok(v) => Ok(v.0),
        Err(e) => Err(e),
    }
}

} // verus!
