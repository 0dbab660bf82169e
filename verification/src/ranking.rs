//! Stable ordering of keyed entries, best key first.

use vstd::prelude::*;

verus! {

/// A key by which entries are ranked.
pub trait RankKey: Sized {
    /// Whether the key can be compared by machine arithmetic.
    spec fn comparable(&self) -> bool;

    /// Whether `self` ranks strictly above `other`.
    spec fn outranks(&self, other: &Self) -> bool;

    /// Decides [`RankKey::outranks`].
    fn ranks_above(&self, other: &Self) -> (b: bool)
        requires
            self.comparable(),
            other.comparable(),
        ensures
            b == self.outranks(other),
    ;

    /// Keys are ordered strictly and weakly: of two keys at most one
    /// outranks the other, and a key that is not outranked by a second,
    /// which is not outranked by a third, is not outranked by the third.
    proof fn lemma_outranks_orders(a: &Self, b: &Self, c: &Self)
        ensures
            !(a.outranks(b) && b.outranks(a)),
            !b.outranks(a) && !c.outranks(b) ==> !c.outranks(a),
    ;
}

impl RankKey for u32 {
    open spec fn comparable(&self) -> bool {
        true
    }

    open spec fn outranks(&self, other: &Self) -> bool {
        *self > *other
    }

    fn ranks_above(&self, other: &Self) -> (b: bool) {
        *self > *other
    }

    proof fn lemma_outranks_orders(a: &Self, b: &Self, c: &Self) {
    }
}

/// Compared by the first component, then by the second.
impl RankKey for (u32, u32) {
    open spec fn comparable(&self) -> bool {
        true
    }

    open spec fn outranks(&self, other: &Self) -> bool {
        self.0 > other.0 || (self.0 == other.0 && self.1 > other.1)
    }

    fn ranks_above(&self, other: &Self) -> (b: bool) {
        self.0 > other.0 || (self.0 == other.0 && self.1 > other.1)
    }

    proof fn lemma_outranks_orders(a: &Self, b: &Self, c: &Self) {
    }
}

/// Where a new entry with key `k` goes into the ranked sequence `s`: behind
/// every entry that it does not outrank, so behind its equals.
pub open spec fn insertion_point<K: RankKey, T>(s: Seq<(K, T)>, k: K) -> int
    decreases s.len(),
{
    if s.len() > 0 && k.outranks(&s.last().0) {
        insertion_point(s.drop_last(), k)
    } else {
        s.len() as int
    }
}

/// The entries of `s` ordered best key first, entries of equal rank in the
/// order in which `s` lists them.
pub open spec fn ranked<K: RankKey, T>(s: Seq<(K, T)>) -> Seq<(K, T)>
    decreases s.len(),
{
    if s.len() == 0 {
        s
    } else {
        let head = ranked(s.drop_last());
        head.insert(insertion_point(head, s.last().0), s.last())
    }
}

/// The items of keyed entries.
pub open spec fn without_keys<K, T>(s: Seq<(K, T)>) -> Seq<T> {
    s.map_values(|e: (K, T)| e.1)
}

/// Whether every key in `s` can be compared.
pub open spec fn all_comparable<K: RankKey, T>(s: Seq<(K, T)>) -> bool {
    forall|i: int| 0 <= i < s.len() ==> (#[trigger] s[i]).0.comparable()
}

/// Ranking keeps the number of entries.
pub proof fn lemma_ranked_len<K: RankKey, T>(s: Seq<(K, T)>)
    ensures
        ranked(s).len() == s.len(),
    decreases s.len(),
{
    if s.len() > 0 {
        lemma_ranked_len::<K, T>(s.drop_last());
        lemma_insertion_point_bounds(ranked(s.drop_last()), s.last().0);
    }
}

/// The insertion point lies within the sequence or at its end.
pub proof fn lemma_insertion_point_bounds<K: RankKey, T>(s: Seq<(K, T)>, k: K)
    ensures
        0 <= insertion_point(s, k) <= s.len(),
    decreases s.len(),
{
    if s.len() > 0 && k.outranks(&s.last().0) {
        lemma_insertion_point_bounds(s.drop_last(), k);
    }
}

/// Whether two keys rank the same: neither outranks the other.
pub open spec fn same_rank<K: RankKey>(a: K, b: K) -> bool {
    !a.outranks(&b) && !b.outranks(&a)
}

/// Whether no entry of `s` is outranked by one behind it.
pub open spec fn in_rank_order<K: RankKey, T>(s: Seq<(K, T)>) -> bool {
    forall|i: int, j: int| 0 <= i < j < s.len() ==> !(#[trigger] s[j]).0.outranks(&(#[trigger] s[i]).0)
}

/// The entries of `s` that rank the same as `k`, in the order of `s`.
pub open spec fn of_rank<K: RankKey, T>(s: Seq<(K, T)>, k: K) -> Seq<(K, T)> {
    s.filter(|e: (K, T)| same_rank(e.0, k))
}

/// In a sequence in rank order, a new key outranks exactly the entries
/// from its insertion point on.
pub proof fn lemma_insertion_point_divides<K: RankKey, T>(s: Seq<(K, T)>, k: K)
    requires
        in_rank_order(s),
    ensures
        0 <= insertion_point(s, k) <= s.len(),
        forall|i: int| insertion_point(s, k) <= i < s.len() ==> k.outranks(&(#[trigger] s[i]).0),
        forall|i: int| 0 <= i < insertion_point(s, k) ==> !k.outranks(&(#[trigger] s[i]).0),
    decreases s.len(),
{
    if s.len() > 0 {
        let head = s.drop_last();
        assert(forall|i: int| 0 <= i < head.len() ==> head[i] == s[i]);
        if k.outranks(&s.last().0) {
            lemma_insertion_point_divides(head, k);
        } else {
            assert forall|i: int| 0 <= i < s.len() implies !k.outranks(&(#[trigger] s[i]).0) by {
                if i < s.len() - 1 {
                    assert(!s[s.len() - 1].0.outranks(&s[i].0));
                    K::lemma_outranks_orders(&s[i].0, &s.last().0, &k);
                }
            }
        }
    }
}

/// What is ranked is in rank order: no entry is outranked by one behind
/// it.
pub proof fn lemma_ranked_in_order<K: RankKey, T>(s: Seq<(K, T)>)
    ensures
        in_rank_order(ranked(s)),
    decreases s.len(),
{
    if s.len() > 0 {
        let head = ranked(s.drop_last());
        let x = s.last();
        let p = insertion_point(head, x.0);
        lemma_ranked_in_order(s.drop_last());
        lemma_insertion_point_divides(head, x.0);
        let out = head.insert(p, x);
        assert forall|i: int, j: int| 0 <= i < j < out.len() implies !(#[trigger] out[j]).0.outranks(
            &(#[trigger] out[i]).0,
        ) by {
            if j == p {
                assert(out[i] == head[i]);
            } else if i == p {
                assert(out[j] == head[j - 1]);
                K::lemma_outranks_orders(&out[j].0, &x.0, &x.0);
            } else {
                let a = if i < p { i } else { i - 1 };
                let b = if j < p { j } else { j - 1 };
                assert(out[i] == head[a]);
                assert(out[j] == head[b]);
            }
        }
    }
}

/// Ranking rearranges: it holds each entry as often as the input does.
pub proof fn lemma_ranked_rearranges<K: RankKey, T>(s: Seq<(K, T)>)
    ensures
        ranked(s).to_multiset() == s.to_multiset(),
    decreases s.len(),
{
    if s.len() > 0 {
        let head = ranked(s.drop_last());
        lemma_ranked_rearranges(s.drop_last());
        lemma_insertion_point_bounds(head, s.last().0);
        vstd::seq_lib::to_multiset_insert(head, insertion_point(head, s.last().0), s.last());
        vstd::seq_lib::to_multiset_build(s.drop_last(), s.last());
        assert(s.drop_last().push(s.last()) =~= s);
    }
}

/// Ranking entries of which no two are equal gives a ranking of which no
/// two entries are equal.
pub proof fn lemma_ranked_keeps_entries_apart<K: RankKey, T>(s: Seq<(K, T)>)
    requires
        s.no_duplicates(),
    ensures
        ranked(s).no_duplicates(),
{
    lemma_ranked_rearranges(s);
    s.lemma_multiset_has_no_duplicates();
    ranked(s).lemma_multiset_has_no_duplicates_conv();
}

/// Every entry of a ranking is an entry of what was ranked.
pub proof fn lemma_ranked_entries_are_given<K: RankKey, T>(s: Seq<(K, T)>, i: int)
    requires
        0 <= i < ranked(s).len(),
    ensures
        s.contains(ranked(s)[i]),
    decreases s.len(),
{
    if s.len() > 0 {
        let init = s.drop_last();
        let head = ranked(init);
        let p = insertion_point(head, s.last().0);
        lemma_insertion_point_bounds(head, s.last().0);
        if i == p {
            assert(s[s.len() - 1] == s.last());
        } else {
            let j = if i < p { i } else { i - 1 };
            assert(ranked(s)[i] == head[j]);
            lemma_ranked_entries_are_given(init, j);
            let k = choose|k: int| 0 <= k < init.len() && init[k] == head[j];
            assert(s[k] == init[k]);
        }
    }
}

/// Ranking is stable: the entries of one rank stand in the order in which
/// the input has them.
pub proof fn lemma_ranked_keeps_order_of_equals<K: RankKey, T>(s: Seq<(K, T)>, k: K)
    ensures
        of_rank(ranked(s), k) == of_rank(s, k),
    decreases s.len(),
{
    let same = |e: (K, T)| same_rank(e.0, k);
    if s.len() == 0 {
    } else {
        let init = s.drop_last();
        let head = ranked(init);
        let x = s.last();
        let p = insertion_point(head, x.0);
        lemma_ranked_keeps_order_of_equals(init, k);
        lemma_ranked_in_order(init);
        lemma_insertion_point_divides(head, x.0);
        let front = head.take(p);
        let back = head.skip(p);
        assert(head =~= front + back);
        assert(head.insert(p, x) =~= front.push(x) + back);
        assert(s =~= init.push(x));
        Seq::filter_distributes_over_add(front, back, same);
        Seq::filter_distributes_over_add(front.push(x), back, same);
        front.lemma_filter_push(x, same);
        init.lemma_filter_push(x, same);
        if same_rank(x.0, k) {
            assert forall|i: int| 0 <= i < back.len() implies !same(#[trigger] back[i]) by {
                assert(back[i] == head[p + i]);
                assert(x.0.outranks(&back[i].0));
                K::lemma_outranks_orders(&back[i].0, &k, &x.0);
            }
            back.lemma_all_neg_filter_empty(same);
            assert(back.filter(same) =~= Seq::<(K, T)>::empty());
            assert(front.filter(same) + Seq::<(K, T)>::empty() =~= front.filter(same));
            assert(front.filter(same).push(x) + Seq::<(K, T)>::empty() =~= front.filter(same).push(
                x,
            ));
        }
    }
}

/// Two sequences in rank order that hold the same entries, those of each
/// rank in the same order, are one sequence.
pub proof fn lemma_rank_order_is_unique<K: RankKey, T>(t: Seq<(K, T)>, r: Seq<(K, T)>)
    requires
        in_rank_order(t),
        in_rank_order(r),
        t.to_multiset() == r.to_multiset(),
        forall|k: K| of_rank(t, k) == of_rank(r, k),
    ensures
        t == r,
    decreases t.len(),
{
    vstd::seq_lib::to_multiset_len(t);
    vstd::seq_lib::to_multiset_len(r);
    if t.len() == 0 {
        assert(t =~= r);
    } else {
        let x = t[0];
        let y = r[0];
        let t1 = t.drop_first();
        let r1 = r.drop_first();
        assert(t =~= seq![x] + t1);
        assert(r =~= seq![y] + r1);
        let k = x.0;
        let same = |e: (K, T)| same_rank(e.0, k);
        K::lemma_outranks_orders(&k, &k, &k);
        assert(same(x));
        assert(x == y) by {
            vstd::seq_lib::to_multiset_contains(t, y);
            vstd::seq_lib::to_multiset_contains(r, y);
            vstd::seq_lib::to_multiset_contains(t, x);
            vstd::seq_lib::to_multiset_contains(r, x);
            assert(r.contains(y));
            assert(t.contains(x));
            let j = choose|j: int| 0 <= j < t.len() && t[j] == y;
            let i = choose|i: int| 0 <= i < r.len() && r[i] == x;
            if j == 0 {
            } else if i == 0 {
            } else {
                assert(!t[j].0.outranks(&t[0].0));
                assert(!r[i].0.outranks(&r[0].0));
                assert(same(y));
                t1.lemma_filter_prepend(x, same);
                r1.lemma_filter_prepend(y, same);
                assert(of_rank(t, k)[0] == x);
                assert(of_rank(r, k)[0] == y);
            }
        }
        assert(in_rank_order(t1)) by {
            assert forall|a: int, b: int| 0 <= a < b < t1.len() implies !(#[trigger] t1[b]).0.outranks(
                &(#[trigger] t1[a]).0,
            ) by {
                assert(t1[a] == t[a + 1]);
                assert(t1[b] == t[b + 1]);
            }
        }
        assert(in_rank_order(r1)) by {
            assert forall|a: int, b: int| 0 <= a < b < r1.len() implies !(#[trigger] r1[b]).0.outranks(
                &(#[trigger] r1[a]).0,
            ) by {
                assert(r1[a] == r[a + 1]);
                assert(r1[b] == r[b + 1]);
            }
        }
        assert(t1.to_multiset() == r1.to_multiset()) by {
            vstd::seq_lib::to_multiset_remove(t, 0);
            vstd::seq_lib::to_multiset_remove(r, 0);
            assert(t.remove(0) =~= t1);
            assert(r.remove(0) =~= r1);
        }
        assert forall|k2: K| of_rank(t1, k2) == of_rank(r1, k2) by {
            let p = |e: (K, T)| same_rank(e.0, k2);
            t1.lemma_filter_prepend(x, p);
            r1.lemma_filter_prepend(x, p);
            assert(of_rank(t, k2) == of_rank(r, k2));
            let head = if p(x) { seq![x] } else { Seq::<(K, T)>::empty() };
            assert(head + t1.filter(p) == head + r1.filter(p));
            assert(t1.filter(p) =~= (head + t1.filter(p)).skip(head.len() as int));
            assert(r1.filter(p) =~= (head + r1.filter(p)).skip(head.len() as int));
        }
        lemma_rank_order_is_unique(t1, r1);
    }
}

/// The ranking of `s` is the one sequence in rank order that holds the
/// entries of `s`, those of each rank in the order in which `s` has them.
pub proof fn lemma_ranked_is_the_stable_order<K: RankKey, T>(s: Seq<(K, T)>, t: Seq<(K, T)>)
    requires
        in_rank_order(t),
        t.to_multiset() == s.to_multiset(),
        forall|k: K| of_rank(t, k) == of_rank(s, k),
    ensures
        t == ranked(s),
{
    lemma_ranked_in_order(s);
    lemma_ranked_rearranges(s);
    assert forall|k: K| of_rank(t, k) == of_rank(ranked(s), k) by {
        lemma_ranked_keeps_order_of_equals(s, k);
    }
    lemma_rank_order_is_unique(t, ranked(s));
}

/// Of two entries the second goes first only if it outranks the first.
pub proof fn lemma_ranked_pair<K: RankKey, T>(x: (K, T), y: (K, T))
    ensures
        ranked(seq![x, y]) == if y.0.outranks(&x.0) {
            seq![y, x]
        } else {
            seq![x, y]
        },
{
    let one = seq![x];
    assert(one.drop_last() =~= Seq::<(K, T)>::empty());
    assert(ranked(one.drop_last()) =~= Seq::<(K, T)>::empty());
    assert(ranked(one) =~= one);
    let two = seq![x, y];
    assert(two.drop_last() =~= one);
    assert(two.last() == y);
    if y.0.outranks(&x.0) {
        assert(insertion_point(one, y.0) == insertion_point(one.drop_last(), y.0));
        assert(ranked(two) =~= seq![y, x]);
    } else {
        assert(ranked(two) =~= seq![x, y]);
    }
}

/// Orders keyed entries best key first; entries of equal rank keep their
/// order.
pub fn rank_entries<K: RankKey, T>(entries: Vec<(K, T)>) -> (out: Vec<(K, T)>)
    requires
        all_comparable(entries@),
    ensures
        out@ == ranked(entries@),
        out@.len() == entries@.len(),
{
    let ghost input = entries@;
    let mut out: Vec<(K, T)> = Vec::new();
    proof {
        assert(input.take(0) =~= Seq::<(K, T)>::empty());
    }
    for entry in it: entries
        invariant
            it.seq() == input,
            all_comparable(input),
            out@ == ranked(input.take(it.index() as int)),
            out@.len() == it.index(),
            all_comparable(out@),
    {
        let ghost i = it.index() as int;
        let ghost before = out@;
        let mut pos: usize = out.len();
        proof {
            assert(out@.take(pos as int) =~= out@);
        }
        while pos > 0 && entry.0.ranks_above(&out[pos - 1].0)
            invariant
                0 <= pos <= out@.len(),
                out@ == before,
                all_comparable(out@),
                entry.0.comparable(),
                insertion_point(out@, entry.0) == insertion_point(out@.take(pos as int), entry.0),
            decreases pos,
        {
            proof {
                assert(out@.take(pos as int).drop_last() =~= out@.take(pos as int - 1));
            }
            pos = pos - 1;
        }
        proof {
            assert(input.take(i + 1).drop_last() =~= input.take(i));
            assert(input.take(i + 1).last() == entry);
        }
        out.insert(pos, entry);
    }
    proof {
        assert(input.take(input.len() as int) =~= input);
    }
    out
}

/// Drops the keys of keyed entries.
pub fn drop_keys<K, T>(entries: Vec<(K, T)>) -> (out: Vec<T>)
    ensures
        out@ == without_keys(entries@),
{
    let ghost input = entries@;
    let mut out: Vec<T> = Vec::new();
    for entry in it: entries
        invariant
            it.seq() == input,
            out@ =~= without_keys(input.take(it.index() as int)),
    {
        proof {
            let i = it.index() as int;
            assert(input.take(i + 1) =~= input.take(i).push(entry));
        }
        out.push(entry.1);
    }
    proof {
        assert(input.take(input.len() as int) =~= input);
    }
    out
}

} // verus!
