//! Stable sorting by a rank that the element type defines.

use vstd::prelude::*;
use vstd::seq_lib::*;

verus! {

/// A type whose values stand in a total preorder: any two can be ranked, and
/// ranking is transitive. Values that rank each way are tied.
pub trait Ranked: Sized {
    /// `self` may stand at or before `other`.
    spec fn rank_le(&self, other: &Self) -> bool;

    /// Decides [`Ranked::rank_le`].
    fn ranks_before(&self, other: &Self) -> (le: bool)
        ensures
            le == self.rank_le(other),
    ;

    /// Of two values one ranks at or before the other.
    proof fn lemma_rank_total(a: &Self, b: &Self)
        ensures
            a.rank_le(b) || b.rank_le(a),
    ;

    /// Ranking is transitive.
    proof fn lemma_rank_transitive(a: &Self, b: &Self, c: &Self)
        requires
            a.rank_le(b),
            b.rank_le(c),
        ensures
            a.rank_le(c),
    ;
}

/// `a` and `b` rank each way.
pub open spec fn tied<T: Ranked>(a: T, b: T) -> bool {
    a.rank_le(&b) && b.rank_le(&a)
}

/// The predicate "is tied with `k`".
pub open spec fn tied_to<T: Ranked>(k: T) -> spec_fn(T) -> bool {
    |e: T| tied(e, k)
}

/// The elements of `s` that are tied with `k`, in the order in which `s`
/// holds them.
pub open spec fn tied_with<T: Ranked>(s: Seq<T>, k: T) -> Seq<T> {
    s.filter(tied_to(k))
}

/// No element of `s` ranks strictly after a later one.
pub open spec fn ranked<T: Ranked>(s: Seq<T>) -> bool {
    forall|i: int, j: int| #![trigger s[i], s[j]] 0 <= i < j < s.len() ==> s[i].rank_le(&s[j])
}

/// `r` is `s` sorted stably: `r` is in rank order, and for every value the
/// elements tied with it are the same in both, in the same order. So `r`
/// holds the elements of `s`, and ties keep the order they had in `s`.
pub open spec fn stable_sort_of<T: Ranked>(r: Seq<T>, s: Seq<T>) -> bool {
    &&& ranked(r)
    &&& r.len() == s.len()
    &&& forall|k: T| #[trigger] tied_with(r, k) == tied_with(s, k)
}

proof fn lemma_filter_one<T>(x: T, pred: spec_fn(T) -> bool)
    ensures
        seq![x].filter(pred) == if pred(x) {
            seq![x]
        } else {
            Seq::<T>::empty()
        },
{
    reveal_with_fuel(Seq::filter, 2);
    assert(seq![x].drop_last() =~= Seq::<T>::empty());
    assert(Seq::<T>::empty().push(x) =~= seq![x]);
}

proof fn lemma_filter_none<T>(s: Seq<T>, pred: spec_fn(T) -> bool)
    requires
        forall|i: int| 0 <= i < s.len() ==> !pred(#[trigger] s[i]),
    ensures
        s.filter(pred) == Seq::<T>::empty(),
    decreases s.len(),
{
    reveal(Seq::filter);
    if s.len() > 0 {
        let front = s.drop_last();
        assert forall|i: int| 0 <= i < front.len() implies !pred(#[trigger] front[i]) by {
            assert(front[i] == s[i]);
        }
        lemma_filter_none(front, pred);
    }
}

/// Putting `x` in front of everything that it may stand before keeps a
/// stable sort stable, with `x` as the new first element of the input.
proof fn lemma_insert_keeps_stable<T: Ranked>(r: Seq<T>, tail: Seq<T>, x: T, p: int)
    requires
        stable_sort_of(r, tail),
        0 <= p <= r.len(),
        forall|i: int| #![trigger r[i]] 0 <= i < p ==> !x.rank_le(&r[i]),
        p < r.len() ==> x.rank_le(&r[p]),
    ensures
        stable_sort_of(r.insert(p, x), seq![x] + tail),
{
    let grown = r.insert(p, x);
    assert forall|i: int, j: int|
        #![trigger grown[i], grown[j]]
        0 <= i < j < grown.len() implies grown[i].rank_le(&grown[j]) by {
        if j < p {
            assert(grown[i] == r[i] && grown[j] == r[j]);
        } else if j == p {
            assert(grown[i] == r[i]);
            T::lemma_rank_total(&x, &r[i]);
        } else if i < p {
            assert(grown[i] == r[i] && grown[j] == r[j - 1]);
        } else if i == p {
            assert(grown[j] == r[j - 1]);
            if j - 1 > p {
                assert(r[p].rank_le(&r[j - 1]));
                T::lemma_rank_transitive(&x, &r[p], &r[j - 1]);
            }
        } else {
            assert(grown[i] == r[i - 1] && grown[j] == r[j - 1]);
        }
    }
    assert forall|k: T| #[trigger] tied_with(grown, k) == tied_with(seq![x] + tail, k) by {
        let pred = tied_to(k);
        let head = r.take(p);
        let rest = r.skip(p);
        assert(r =~= head + rest);
        assert(grown =~= (head + seq![x]) + rest);
        Seq::filter_distributes_over_add(head, rest, pred);
        Seq::filter_distributes_over_add(head, seq![x], pred);
        Seq::filter_distributes_over_add(head + seq![x], rest, pred);
        Seq::filter_distributes_over_add(seq![x], tail, pred);
        lemma_filter_one(x, pred);
        assert(tied_with(r, k) == tied_with(tail, k));
        if pred(x) {
            assert forall|i: int| 0 <= i < head.len() implies !pred(#[trigger] head[i]) by {
                assert(head[i] == r[i]);
                if pred(head[i]) {
                    T::lemma_rank_transitive(&x, &k, &head[i]);
                }
            }
            lemma_filter_none(head, pred);
            assert(grown.filter(pred) =~= seq![x] + rest.filter(pred));
            assert(r.filter(pred) =~= rest.filter(pred));
        } else {
            assert(grown.filter(pred) =~= head.filter(pred) + rest.filter(pred));
            assert((seq![x] + tail).filter(pred) =~= tail.filter(pred));
        }
    }
}

/// Finds where `x` goes in the sorted `sorted` so that it stands before
/// everything that it may stand before.
fn insertion_point<T: Ranked>(sorted: &Vec<T>, x: &T) -> (p: usize)
    ensures
        p <= sorted@.len(),
        forall|i: int| #![trigger sorted@[i]] 0 <= i < p ==> !x.rank_le(&sorted@[i]),
        p < sorted@.len() ==> x.rank_le(&sorted@[p as int]),
{
    let mut p: usize = 0;
    while p < sorted.len()
        invariant
            p <= sorted@.len(),
            forall|i: int| #![trigger sorted@[i]] 0 <= i < p ==> !x.rank_le(&sorted@[i]),
        decreases sorted@.len() - p,
    {
        if x.ranks_before(&sorted[p]) {
            return p;
        }
        p += 1;
    }
    p
}

/// Sorts `items` by rank; tied elements keep their order.
pub fn stable_sort<T: Ranked>(items: Vec<T>) -> (sorted: Vec<T>)
    ensures
        stable_sort_of(sorted@, items@),
        sorted@.to_multiset() == items@.to_multiset(),
{
    let ghost given = items@;
    let mut rest = items;
    let mut sorted: Vec<T> = Vec::new();
    proof {
        assert(given.skip(given.len() as int) =~= Seq::<T>::empty());
        assert(given.take(given.len() as int) =~= given);
        assert forall|k: T| #[trigger]
            tied_with(Seq::<T>::empty(), k) == tied_with(Seq::<T>::empty(), k) by {}
    }
    while rest.len() > 0
        invariant
            rest@ == given.take(rest@.len() as int),
            rest@.len() <= given.len(),
            stable_sort_of(sorted@, given.skip(rest@.len() as int)),
            sorted@.to_multiset() == given.skip(rest@.len() as int).to_multiset(),
        decreases rest@.len(),
    {
        let ghost n = rest@.len() as int;
        let ghost before = sorted@;
        let x = rest.pop().unwrap();
        let p = insertion_point(&sorted, &x);
        sorted.insert(p, x);
        proof {
            let tail = given.skip(n);
            assert(x == given[n - 1]);
            assert(given.skip(n - 1) =~= seq![x] + tail);
            assert(rest@ =~= given.take(n - 1));
            lemma_insert_keeps_stable(before, tail, x, p as int);
            to_multiset_insert(before, p as int, x);
            to_multiset_insert(tail, 0, x);
            assert(tail.insert(0, x) =~= seq![x] + tail);
        }
    }
    proof {
        assert(given.skip(0) =~= given);
    }
    sorted
}

/// An element of a sequence is among those of the sequence that are tied
/// with it.
proof fn lemma_tied_with_itself<T: Ranked>(s: Seq<T>, i: int)
    requires
        0 <= i < s.len(),
    ensures
        tied_with(s, s[i]).contains(s[i]),
{
    T::lemma_rank_total(&s[i], &s[i]);
    assert(tied_to(s[i])(s[i]));
    s.lemma_filter_contains(tied_to(s[i]), i);
}

/// The first element of a sequence in rank order is `x`, if `x` occurs in
/// it and is tied with its first element.
proof fn lemma_first_of_ties<T: Ranked>(s: Seq<T>, x: T)
    requires
        s.len() > 0,
        tied(s[0], x),
    ensures
        tied_with(s, x).len() > 0,
        tied_with(s, x)[0] == s[0],
{
    let rest = s.drop_first();
    assert(s =~= seq![s[0]] + rest);
    rest.lemma_filter_prepend(s[0], tied_to(x));
    assert(tied_to(x)(s[0]));
}

/// An element that occurs in a sequence in rank order does not rank
/// before the first.
proof fn lemma_first_ranks_first<T: Ranked>(s: Seq<T>, x: T)
    requires
        ranked(s),
        s.contains(x),
    ensures
        s[0].rank_le(&x),
{
    let m = choose|m: int| 0 <= m < s.len() && s[m] == x;
    if m > 0 {
        assert(s[0].rank_le(&s[m]));
    } else {
        T::lemma_rank_total(&x, &x);
    }
}

/// Two sequences in rank order with the same ties begin with the same
/// element.
proof fn lemma_same_first<T: Ranked>(a: Seq<T>, b: Seq<T>)
    requires
        ranked(a),
        ranked(b),
        a.len() == b.len(),
        a.len() > 0,
        tied_with(a, a[0]) == tied_with(b, a[0]),
        tied_with(a, b[0]) == tied_with(b, b[0]),
    ensures
        a[0] == b[0],
{
    let x = a[0];
    let y = b[0];
    lemma_tied_with_itself(a, 0);
    b.lemma_filter_contains_rev(tied_to(x), x);
    lemma_first_ranks_first(b, x);
    lemma_tied_with_itself(b, 0);
    a.lemma_filter_contains_rev(tied_to(y), y);
    lemma_first_ranks_first(a, y);
    T::lemma_rank_total(&x, &x);
    lemma_first_of_ties(a, x);
    lemma_first_of_ties(b, x);
}

/// Two sequences with the same first element and the same elements tied
/// with `k` have, after the first, the same elements tied with `k`.
proof fn lemma_rest_ties<T: Ranked>(a: Seq<T>, b: Seq<T>, k: T)
    requires
        a.len() > 0,
        b.len() > 0,
        a[0] == b[0],
        tied_with(a, k) == tied_with(b, k),
    ensures
        tied_with(a.drop_first(), k) == tied_with(b.drop_first(), k),
{
    let p = tied_to(k);
    let x = a[0];
    let rest_a = a.drop_first();
    let rest_b = b.drop_first();
    assert(a =~= seq![x] + rest_a);
    assert(b =~= seq![x] + rest_b);
    rest_a.lemma_filter_prepend(x, p);
    rest_b.lemma_filter_prepend(x, p);
    let head = if p(x) {
        seq![x]
    } else {
        Seq::<T>::empty()
    };
    assert((head + rest_a.filter(p)).skip(head.len() as int) =~= rest_a.filter(p));
    assert((head + rest_b.filter(p)).skip(head.len() as int) =~= rest_b.filter(p));
}

/// What follows the first element of a sequence in rank order is in rank
/// order.
proof fn lemma_rest_ranked<T: Ranked>(s: Seq<T>)
    requires
        ranked(s),
        s.len() > 0,
    ensures
        ranked(s.drop_first()),
{
    let rest = s.drop_first();
    assert forall|i: int, j: int|
        #![trigger rest[i], rest[j]]
        0 <= i < j < rest.len() implies rest[i].rank_le(&rest[j]) by {
        assert(s[i + 1].rank_le(&s[j + 1]));
    }
}

/// Two sequences in rank order that agree, for every value, on the
/// elements tied with it and on their order, are the same sequence. So a
/// sequence has one stable sort and no other.
pub proof fn lemma_stable_sort_unique<T: Ranked>(a: Seq<T>, b: Seq<T>)
    requires
        ranked(a),
        ranked(b),
        a.len() == b.len(),
        forall|k: T| #[trigger] tied_with(a, k) == tied_with(b, k),
    ensures
        a == b,
    decreases a.len(),
{
    if a.len() == 0 {
        assert(a =~= b);
    } else {
        assert(tied_with(a, a[0]) == tied_with(b, a[0]));
        assert(tied_with(a, b[0]) == tied_with(b, b[0]));
        lemma_same_first(a, b);
        let rest_a = a.drop_first();
        let rest_b = b.drop_first();
        assert forall|k: T| #[trigger] tied_with(rest_a, k) == tied_with(rest_b, k) by {
            assert(tied_with(a, k) == tied_with(b, k));
            lemma_rest_ties(a, b, k);
        }
        lemma_rest_ranked(a);
        lemma_rest_ranked(b);
        lemma_stable_sort_unique(rest_a, rest_b);
        assert(a =~= seq![a[0]] + rest_a);
        assert(b =~= seq![b[0]] + rest_b);
    }
}

} // verus!
