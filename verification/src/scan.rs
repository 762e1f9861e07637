//! Sequential checks: the first failing position of a scan, strict orders
//! of adjacent elements, and lexicographic order of byte strings.
use vstd::prelude::*;
use crate::text::utf8;

verus! {

/// The first error reported by `f` at the positions `0 .. n`, in order.
pub open spec fn first_error(f: spec_fn(int) -> Option<&'static str>, n: int) -> Option<&'static str>
    decreases n,
{
    if n <= 0 {
        None
    } else {
        match first_error(f, n - 1) {
            Some(e) => Some(e),
            None => f(n - 1),
        }
    }
}

/// Once a scan has failed, extending it does not change its result.
pub proof fn lemma_first_error_stable(f: spec_fn(int) -> Option<&'static str>, i: int, n: int)
    requires
        0 <= i <= n,
        first_error(f, i) is Some,
    ensures
        first_error(f, n) == first_error(f, i),
    decreases n - i,
{
    if i < n {
        lemma_first_error_stable(f, i, n - 1);
    }
}

/// A clean prefix followed by a failure at `i` makes that failure the result.
pub proof fn lemma_first_error_at(f: spec_fn(int) -> Option<&'static str>, i: int, n: int)
    requires
        0 <= i < n,
        first_error(f, i) is None,
        f(i) is Some,
    ensures
        first_error(f, n) == f(i),
{
    lemma_first_error_stable(f, i + 1, n);
}

/// Lexicographic order of byte strings (the order of `str` and `String`).
pub open spec fn lex_lt(a: Seq<u8>, b: Seq<u8>) -> bool
    decreases a.len(),
{
    if b.len() == 0 {
        false
    } else if a.len() == 0 {
        true
    } else if a[0] != b[0] {
        a[0] < b[0]
    } else {
        lex_lt(a.subrange(1, a.len() as int), b.subrange(1, b.len() as int))
    }
}

proof fn lemma_lex_lt_step(a: Seq<u8>, b: Seq<u8>, k: int)
    requires
        0 <= k <= a.len(),
        k <= b.len(),
        a.subrange(0, k) == b.subrange(0, k),
    ensures
        lex_lt(a, b) == lex_lt(a.subrange(k, a.len() as int), b.subrange(k, b.len() as int)),
    decreases k,
{
    if k > 0 {
        let a1 = a.subrange(1, a.len() as int);
        let b1 = b.subrange(1, b.len() as int);
        assert(a[0] == a.subrange(0, k)[0]);
        assert(b[0] == b.subrange(0, k)[0]);
        assert(a1.subrange(0, k - 1) =~= a.subrange(0, k).subrange(1, k));
        assert(b1.subrange(0, k - 1) =~= b.subrange(0, k).subrange(1, k));
        lemma_lex_lt_step(a1, b1, k - 1);
        assert(a1.subrange(k - 1, a1.len() as int) =~= a.subrange(k, a.len() as int));
        assert(b1.subrange(k - 1, b1.len() as int) =~= b.subrange(k, b.len() as int));
    } else {
        assert(a.subrange(0, a.len() as int) =~= a);
        assert(b.subrange(0, b.len() as int) =~= b);
    }
}

/// Of two different byte strings, one sorts strictly before the other.
pub proof fn lemma_lex_lt_total(a: Seq<u8>, b: Seq<u8>)
    requires
        a != b,
    ensures
        lex_lt(a, b) || lex_lt(b, a),
    decreases a.len(),
{
    if a.len() > 0 && b.len() > 0 && a[0] == b[0] {
        let a1 = a.subrange(1, a.len() as int);
        let b1 = b.subrange(1, b.len() as int);
        if a1 == b1 {
            assert(a =~= seq![a[0]] + a1);
            assert(b =~= seq![b[0]] + b1);
        }
        lemma_lex_lt_total(a1, b1);
    } else if a.len() == 0 && b.len() == 0 {
        assert(a =~= b);
    }
}

/// No byte string sorts before itself.
pub proof fn lemma_lex_lt_irreflexive(a: Seq<u8>)
    ensures
        !lex_lt(a, a),
    decreases a.len(),
{
    if a.len() > 0 {
        lemma_lex_lt_irreflexive(a.subrange(1, a.len() as int));
    }
}

/// The byte order is transitive.
pub proof fn lemma_lex_lt_trans(a: Seq<u8>, b: Seq<u8>, c: Seq<u8>)
    requires
        lex_lt(a, b),
        lex_lt(b, c),
    ensures
        lex_lt(a, c),
    decreases a.len(),
{
    if a.len() > 0 && a[0] == b[0] && b[0] == c[0] {
        lemma_lex_lt_trans(a.subrange(1, a.len() as int), b.subrange(1, b.len() as int), c.subrange(1, c.len() as int));
    }
}

/// Whether `a` sorts strictly before `b`, byte by byte.
pub fn bytes_lt(a: &[u8], b: &[u8]) -> (r: bool)
    ensures
        r == lex_lt(a@, b@),
{
    let mut k: usize = 0;
    while k < a.len() && k < b.len() && a[k] == b[k]
        invariant
            k <= a@.len(),
            k <= b@.len(),
            a@.subrange(0, k as int) == b@.subrange(0, k as int),
        decreases a@.len() - k,
    {
        assert(a@.subrange(0, k + 1) =~= a@.subrange(0, k as int).push(a@[k as int]));
        assert(b@.subrange(0, k + 1) =~= b@.subrange(0, k as int).push(b@[k as int]));
        k = k + 1;
    }
    proof {
        lemma_lex_lt_step(a@, b@, k as int);
    }
    let ghost ra = a@.subrange(k as int, a@.len() as int);
    let ghost rb = b@.subrange(k as int, b@.len() as int);
    if k == b.len() {
        assert(rb.len() == 0);
        false
    } else if k == a.len() {
        assert(ra.len() == 0);
        true
    } else {
        assert(ra[0] == a@[k as int]);
        assert(rb[0] == b@[k as int]);
        a[k] < b[k]
    }
}

/// `s[i] < s[i + 1]`.
pub open spec fn adjacent_lt(s: Seq<u64>, i: int) -> bool {
    s[i] < s[i + 1]
}

/// Every element is strictly below its successor.
pub open spec fn strictly_increasing(s: Seq<u64>) -> bool {
    forall|i: int| 0 <= i && i + 1 < s.len() ==> #[trigger] adjacent_lt(s, i)
}

pub fn increasing_u64(s: &[u64]) -> (r: bool)
    ensures
        r == strictly_increasing(s@),
{
    let mut i: usize = 0;
    while i < s.len() && i + 1 < s.len()
        invariant
            i <= s@.len(),
            forall|k: int| 0 <= k < i && k + 1 < s@.len() ==> #[trigger] adjacent_lt(s@, k),
        decreases s@.len() - i,
    {
        if s[i] >= s[i + 1] {
            assert(!adjacent_lt(s@, i as int));
            return false;
        }
        i = i + 1;
    }
    true
}

/// `s[i] < s[i + 1]` for small integers.
pub open spec fn adjacent_lt_u16(s: Seq<u16>, i: int) -> bool {
    s[i] < s[i + 1]
}

pub open spec fn strictly_increasing_u16(s: Seq<u16>) -> bool {
    forall|i: int| 0 <= i && i + 1 < s.len() ==> #[trigger] adjacent_lt_u16(s, i)
}

pub fn increasing_u16(s: &[u16]) -> (r: bool)
    ensures
        r == strictly_increasing_u16(s@),
{
    let mut i: usize = 0;
    while i < s.len() && i + 1 < s.len()
        invariant
            i <= s@.len(),
            forall|k: int| 0 <= k < i && k + 1 < s@.len() ==> #[trigger] adjacent_lt_u16(s@, k),
        decreases s@.len() - i,
    {
        if s[i] >= s[i + 1] {
            assert(!adjacent_lt_u16(s@, i as int));
            return false;
        }
        i = i + 1;
    }
    true
}

/// `s[i] < s[i + 1]` for bytes.
pub open spec fn adjacent_lt_u8(s: Seq<u8>, i: int) -> bool {
    s[i] < s[i + 1]
}

pub open spec fn strictly_increasing_u8(s: Seq<u8>) -> bool {
    forall|i: int| 0 <= i && i + 1 < s.len() ==> #[trigger] adjacent_lt_u8(s, i)
}

pub fn increasing_u8(s: &[u8]) -> (r: bool)
    ensures
        r == strictly_increasing_u8(s@),
{
    let mut i: usize = 0;
    while i < s.len() && i + 1 < s.len()
        invariant
            i <= s@.len(),
            forall|k: int| 0 <= k < i && k + 1 < s@.len() ==> #[trigger] adjacent_lt_u8(s@, k),
        decreases s@.len() - i,
    {
        if s[i] >= s[i + 1] {
            assert(!adjacent_lt_u8(s@, i as int));
            return false;
        }
        i = i + 1;
    }
    true
}

/// The UTF-8 bytes of `s[i]` sort strictly before those of `s[i + 1]`.
pub open spec fn adjacent_lt_text(s: Seq<Seq<u8>>, i: int) -> bool {
    lex_lt(s[i], s[i + 1])
}

pub open spec fn strictly_increasing_text(s: Seq<Seq<u8>>) -> bool {
    forall|i: int| 0 <= i && i + 1 < s.len() ==> #[trigger] adjacent_lt_text(s, i)
}

/// The UTF-8 bytes of each string.
pub open spec fn texts(v: Seq<String>) -> Seq<Seq<u8>> {
    v.map_values(|s: String| utf8(s@))
}

/// Whether the strings are strictly increasing in byte order.
pub fn strings_increasing(v: &[String]) -> (r: bool)
    ensures
        r == strictly_increasing_text(texts(v@)),
{
    let mut i: usize = 0;
    while i < v.len() && i + 1 < v.len()
        invariant
            i <= v@.len(),
            forall|k: int| 0 <= k < i && k + 1 < v@.len() ==> #[trigger] adjacent_lt_text(texts(v@), k),
        decreases v@.len() - i,
    {
        let lt = bytes_lt(v[i].as_str().as_bytes(), v[i + 1].as_str().as_bytes());
        assert(texts(v@)[i as int] == utf8(v@[i as int]@));
        assert(texts(v@)[i + 1] == utf8(v@[i + 1]@));
        if !lt {
            assert(!adjacent_lt_text(texts(v@), i as int));
            return false;
        }
        i = i + 1;
    }
    true
}

/// The first failure reported by `f` at the positions `0 .. n`, in order.
pub open spec fn first_failure<E>(f: spec_fn(int) -> Option<E>, n: int) -> Option<E>
    decreases n,
{
    if n <= 0 {
        None
    } else {
        match first_failure(f, n - 1) {
            Some(e) => Some(e),
            None => f(n - 1),
        }
    }
}

pub proof fn lemma_first_failure_stable<E>(f: spec_fn(int) -> Option<E>, i: int, n: int)
    requires
        0 <= i <= n,
        first_failure(f, i) is Some,
    ensures
        first_failure(f, n) == first_failure(f, i),
    decreases n - i,
{
    if i < n {
        lemma_first_failure_stable(f, i, n - 1);
    }
}

pub proof fn lemma_first_failure_at<E>(f: spec_fn(int) -> Option<E>, i: int, n: int)
    requires
        0 <= i < n,
        first_failure(f, i) is None,
        f(i) is Some,
    ensures
        first_failure(f, n) == f(i),
{
    lemma_first_failure_stable(f, i + 1, n);
}

/// The number of distinct values.
pub open spec fn distinct_count<A>(s: Seq<A>) -> nat
    decreases s.len(),
{
    if s.len() == 0 {
        0
    } else {
        distinct_count(s.drop_last()) + if s.drop_last().contains(s.last()) { 0nat } else { 1nat }
    }
}

// ---------------------------------------------------------------- ordered insertion

/// `lt` is a strict total order: irreflexive, transitive, and relating any
/// two different values one way or the other.
pub open spec fn strict_total_order<T>(lt: spec_fn(T, T) -> bool) -> bool {
    &&& forall|a: T| !#[trigger] lt(a, a)
    &&& forall|a: T, b: T, c: T| #[trigger] lt(a, b) && #[trigger] lt(b, c) ==> lt(a, c)
    &&& forall|a: T, b: T| a != b ==> #[trigger] lt(a, b) || #[trigger] lt(b, a)
}

/// No element sorts before an earlier one.
pub open spec fn sorted_by<T>(s: Seq<T>, lt: spec_fn(T, T) -> bool) -> bool {
    forall|i: int, j: int| 0 <= i < j < s.len() ==> !lt(#[trigger] s[j], #[trigger] s[i])
}

/// `x` inserted before the first element that is not below it.
pub open spec fn insert_ordered<T>(s: Seq<T>, x: T, lt: spec_fn(T, T) -> bool) -> Seq<T>
    decreases s.len(),
{
    if s.len() == 0 {
        seq![x]
    } else if lt(s[0], x) {
        seq![s[0]] + insert_ordered(s.subrange(1, s.len() as int), x, lt)
    } else {
        seq![x] + s
    }
}

/// The elements in ascending order under `lt` (insertion sort).
pub open spec fn sort_ordered<T>(s: Seq<T>, lt: spec_fn(T, T) -> bool) -> Seq<T>
    decreases s.len(),
{
    if s.len() == 0 {
        s
    } else {
        insert_ordered(sort_ordered(s.drop_last(), lt), s.last(), lt)
    }
}

proof fn lemma_insert_ordered_multiset<T>(s: Seq<T>, x: T, lt: spec_fn(T, T) -> bool)
    ensures
        insert_ordered(s, x, lt).to_multiset() =~= s.to_multiset().insert(x),
    decreases s.len(),
{
    broadcast use vstd::seq_lib::group_to_multiset_ensures, vstd::multiset::group_multiset_axioms;
    if s.len() == 0 {
        assert(seq![x] =~= Seq::<T>::empty().push(x));
    } else if lt(s[0], x) {
        let rest = s.subrange(1, s.len() as int);
        lemma_insert_ordered_multiset(rest, x, lt);
        let r = insert_ordered(rest, x, lt);
        assert(seq![s[0]] + r =~= r.insert(0, s[0]));
        assert(s =~= rest.insert(0, s[0]));
    } else {
        assert(seq![x] + s =~= s.insert(0, x));
    }
}

/// Sorting keeps the elements, each as often as it occurs.
pub proof fn lemma_sort_ordered_multiset<T>(s: Seq<T>, lt: spec_fn(T, T) -> bool)
    ensures
        sort_ordered(s, lt).to_multiset() =~= s.to_multiset(),
    decreases s.len(),
{
    broadcast use vstd::seq_lib::group_to_multiset_ensures, vstd::multiset::group_multiset_axioms;
    if s.len() > 0 {
        lemma_sort_ordered_multiset(s.drop_last(), lt);
        lemma_insert_ordered_multiset(sort_ordered(s.drop_last(), lt), s.last(), lt);
        assert(s =~= s.drop_last().push(s.last()));
    }
}

proof fn lemma_insert_ordered_sorted<T>(s: Seq<T>, x: T, lt: spec_fn(T, T) -> bool)
    requires
        strict_total_order(lt),
        sorted_by(s, lt),
    ensures
        sorted_by(insert_ordered(s, x, lt), lt),
    decreases s.len(),
{
    broadcast use vstd::seq_lib::group_to_multiset_ensures, vstd::multiset::group_multiset_axioms;
    if s.len() == 0 {
    } else if lt(s[0], x) {
        let rest = s.subrange(1, s.len() as int);
        assert forall|i: int, j: int| 0 <= i < j < rest.len() implies !lt(#[trigger] rest[j], #[trigger] rest[i]) by {
            assert(rest[i] == s[i + 1] && rest[j] == s[j + 1]);
        }
        lemma_insert_ordered_sorted(rest, x, lt);
        lemma_insert_ordered_multiset(rest, x, lt);
        let r = insert_ordered(rest, x, lt);
        let t = seq![s[0]] + r;
        assert forall|i: int, j: int| 0 <= i < j < t.len() implies !lt(#[trigger] t[j], #[trigger] t[i]) by {
            if i == 0 {
                let e = t[j];
                assert(e == r[j - 1]);
                assert(r.contains(e));
                assert(r.to_multiset().count(e) > 0);
                if e == x {
                    if lt(x, s[0]) {
                        assert(lt(x, x));
                    }
                } else {
                    assert(rest.to_multiset().count(e) > 0);
                    assert(rest.contains(e));
                    let k = choose|k: int| 0 <= k < rest.len() && rest[k] == e;
                    assert(s[k + 1] == e);
                    assert(!lt(s[k + 1], s[0]));
                }
            } else {
                assert(t[i] == r[i - 1] && t[j] == r[j - 1]);
            }
        }
    } else {
        let t = seq![x] + s;
        assert forall|i: int, j: int| 0 <= i < j < t.len() implies !lt(#[trigger] t[j], #[trigger] t[i]) by {
            if i == 0 {
                let e = s[j - 1];
                assert(t[j] == e);
                if lt(e, x) {
                    if j - 1 > 0 {
                        assert(!lt(s[j - 1], s[0]));
                    }
                    if x != s[0] {
                        assert(lt(x, s[0]) || lt(s[0], x));
                        assert(lt(e, s[0]));
                    }
                }
            } else {
                assert(t[i] == s[i - 1] && t[j] == s[j - 1]);
            }
        }
    }
}

/// Sorting under a strict total order gives a sorted sequence.
pub proof fn lemma_sort_ordered_sorted<T>(s: Seq<T>, lt: spec_fn(T, T) -> bool)
    requires
        strict_total_order(lt),
    ensures
        sorted_by(sort_ordered(s, lt), lt),
    decreases s.len(),
{
    if s.len() > 0 {
        lemma_sort_ordered_sorted(s.drop_last(), lt);
        lemma_insert_ordered_sorted(sort_ordered(s.drop_last(), lt), s.last(), lt);
    }
}

/// Two sorted sequences of the same elements, each as often, are equal.
pub proof fn lemma_sorted_permutations_equal<T>(t: Seq<T>, u: Seq<T>, lt: spec_fn(T, T) -> bool)
    requires
        strict_total_order(lt),
        sorted_by(t, lt),
        sorted_by(u, lt),
        t.to_multiset() =~= u.to_multiset(),
    ensures
        t == u,
    decreases u.len(),
{
    broadcast use vstd::seq_lib::group_to_multiset_ensures, vstd::multiset::group_multiset_axioms;
    assert(t.to_multiset().len() == u.to_multiset().len());
    assert(t.len() == u.len());
    if u.len() == 0 {
        assert(t =~= u);
    } else {
        let n = u.len() as int;
        let a = t[n - 1];
        let b = u[n - 1];
        assert(t.contains(a));
        assert(u.to_multiset().count(a) > 0);
        assert(u.contains(a));
        let ka = choose|k: int| 0 <= k < n && u[k] == a;
        assert(u.contains(b));
        assert(t.to_multiset().count(b) > 0);
        assert(t.contains(b));
        let kb = choose|k: int| 0 <= k < n && t[k] == b;
        if a != b {
            assert(lt(a, b) || lt(b, a));
            assert(ka != n - 1 && kb != n - 1);
            assert(!lt(u[n - 1], u[ka]));
            assert(!lt(t[n - 1], t[kb]));
        }
        let t1 = t.drop_last();
        let u1 = u.drop_last();
        assert(t1 =~= t.remove(n - 1));
        assert(u1 =~= u.remove(n - 1));
        assert(t1.to_multiset() =~= u1.to_multiset());
        assert forall|i: int, j: int| 0 <= i < j < t1.len() implies !lt(#[trigger] t1[j], #[trigger] t1[i]) by {
            assert(t1[i] == t[i] && t1[j] == t[j]);
        }
        assert forall|i: int, j: int| 0 <= i < j < u1.len() implies !lt(#[trigger] u1[j], #[trigger] u1[i]) by {
            assert(u1[i] == u[i] && u1[j] == u[j]);
        }
        lemma_sorted_permutations_equal(t1, u1, lt);
        assert(t =~= t1.push(a));
        assert(u =~= u1.push(b));
    }
}

/// Under a strict total order, sorting gives the same sequence for any two
/// arrangements of the same elements.
pub proof fn lemma_sort_ordered_permutation<T>(a: Seq<T>, b: Seq<T>, lt: spec_fn(T, T) -> bool)
    requires
        strict_total_order(lt),
        a.to_multiset() =~= b.to_multiset(),
    ensures
        sort_ordered(a, lt) == sort_ordered(b, lt),
{
    lemma_sort_ordered_multiset(a, lt);
    lemma_sort_ordered_multiset(b, lt);
    lemma_sort_ordered_sorted(a, lt);
    lemma_sort_ordered_sorted(b, lt);
    lemma_sorted_permutations_equal(sort_ordered(a, lt), sort_ordered(b, lt), lt);
}

// ---------------------------------------------------------------- filtering

/// The values `f` gives for the elements it keeps, in order.
pub open spec fn filter_map<T, U>(s: Seq<T>, f: spec_fn(T) -> Option<U>) -> Seq<U>
    decreases s.len(),
{
    if s.len() == 0 {
        Seq::empty()
    } else {
        filter_map(s.drop_last(), f) + match f(s.last()) {
            Some(u) => seq![u],
            None => Seq::empty(),
        }
    }
}

pub proof fn lemma_filter_map_add<T, U>(a: Seq<T>, b: Seq<T>, f: spec_fn(T) -> Option<U>)
    ensures
        filter_map(a + b, f) == filter_map(a, f) + filter_map(b, f),
    decreases b.len(),
{
    if b.len() == 0 {
        assert(a + b =~= a);
        assert(filter_map(a, f) + filter_map(b, f) =~= filter_map(a, f));
    } else {
        lemma_filter_map_add(a, b.drop_last(), f);
        assert((a + b).drop_last() =~= a + b.drop_last());
        assert((a + b).last() == b.last());
        let tail = match f(b.last()) {
            Some(u) => seq![u],
            None => Seq::<U>::empty(),
        };
        assert(filter_map(a, f) + filter_map(b.drop_last(), f) + tail
            =~= filter_map(a, f) + (filter_map(b.drop_last(), f) + tail));
    }
}

/// Filtering two arrangements of the same elements keeps the same values,
/// each as often.
pub proof fn lemma_filter_map_permutation<T, U>(a: Seq<T>, b: Seq<T>, f: spec_fn(T) -> Option<U>)
    requires
        a.to_multiset() =~= b.to_multiset(),
    ensures
        filter_map(a, f).to_multiset() =~= filter_map(b, f).to_multiset(),
    decreases a.len(),
{
    broadcast use vstd::seq_lib::group_to_multiset_ensures, vstd::multiset::group_multiset_axioms;
    assert(a.len() == a.to_multiset().len() && b.len() == b.to_multiset().len());
    if a.len() == 0 {
        assert(b.len() == 0);
        assert(b =~= Seq::<T>::empty());
    } else {
        let x = a.last();
        assert(a.contains(x));
        assert(b.to_multiset().count(x) > 0);
        assert(b.contains(x));
        let k = choose|k: int| 0 <= k < b.len() && b[k] == x;
        let b1 = b.remove(k);
        assert(b1.to_multiset() =~= b.to_multiset().remove(x));
        assert(a.drop_last() =~= a.remove(a.len() - 1));
        assert(a.drop_last().to_multiset() =~= a.to_multiset().remove(x));
        lemma_filter_map_permutation(a.drop_last(), b1, f);
        let left = b.subrange(0, k);
        let right = b.subrange(k + 1, b.len() as int);
        assert(b =~= left + seq![x] + right);
        assert(b1 =~= left + right);
        lemma_filter_map_add(left + seq![x], right, f);
        lemma_filter_map_add(left, seq![x], f);
        lemma_filter_map_add(left, right, f);
        assert(seq![x].drop_last() =~= Seq::<T>::empty());
        let fx = match f(x) {
            Some(u) => seq![u],
            None => Seq::<U>::empty(),
        };
        assert(seq![x].last() == x);
        assert(filter_map(Seq::<T>::empty(), f) =~= Seq::<U>::empty());
        assert(filter_map(seq![x], f) =~= fx);
        let fl = filter_map(left, f);
        let fr = filter_map(right, f);
        vstd::seq_lib::lemma_multiset_commutative(fl + fx, fr);
        vstd::seq_lib::lemma_multiset_commutative(fl, fx);
        vstd::seq_lib::lemma_multiset_commutative(fl, fr);
        vstd::seq_lib::lemma_multiset_commutative(filter_map(a.drop_last(), f), fx);
        assert(filter_map(a, f) == filter_map(a.drop_last(), f) + fx);
    }
}

/// The byte order of byte strings, as a function.
pub open spec fn lex_order() -> spec_fn(Seq<u8>, Seq<u8>) -> bool {
    |a: Seq<u8>, b: Seq<u8>| lex_lt(a, b)
}

/// The byte order is a strict total order.
pub proof fn lemma_lex_order_total()
    ensures
        strict_total_order(lex_order()),
{
    let lt = lex_order();
    assert forall|a: Seq<u8>| !#[trigger] lt(a, a) by {
        lemma_lex_lt_irreflexive(a);
    }
    assert forall|a: Seq<u8>, b: Seq<u8>, c: Seq<u8>| #[trigger] lt(a, b) && #[trigger] lt(b, c) implies lt(a, c) by {
        lemma_lex_lt_trans(a, b, c);
    }
    assert forall|a: Seq<u8>, b: Seq<u8>| a != b implies #[trigger] lt(a, b) || #[trigger] lt(b, a) by {
        lemma_lex_lt_total(a, b);
    }
}

} // verus!
