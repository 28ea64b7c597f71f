use vstd::prelude::*;

verus! {

/// One element queued for ranking: `idx` is its 0-based position in the
/// source order, `key` the composite sort key, `item` the carried payload.
pub struct Scored<T> {
    pub idx: usize,
    pub key: i64,
    pub item: T,
}

/// `a` must stand before `b`: larger key first, equal keys in source order.
pub open spec fn ranks_before<T>(a: Scored<T>, b: Scored<T>) -> bool {
    a.key > b.key || (a.key == b.key && a.idx < b.idx)
}

/// Strictly ordered: keys descending, ties in ascending source order.
pub open spec fn ranked<T>(s: Seq<Scored<T>>) -> bool {
    forall|i: int, j: int| 0 <= i < j < s.len() ==> ranks_before(s[i], s[j])
}

/// Insert `x` behind every element whose key is at least `x.key`; with the
/// elements already ranked and `x` drawn from behind them in the source,
/// this is the step of a stable descending insertion sort.
pub open spec fn insert_ranked<T>(s: Seq<Scored<T>>, x: Scored<T>) -> Seq<Scored<T>>
    decreases s.len(),
{
    if s.len() == 0 {
        seq![x]
    } else if s[0].key >= x.key {
        seq![s[0]] + insert_ranked(s.drop_first(), x)
    } else {
        seq![x] + s
    }
}

/// Stable sort by descending key: each element is inserted behind the
/// already-sorted elements that rank at or above it, so elements with equal
/// keys keep their source order.
pub open spec fn sort_ranked<T>(s: Seq<Scored<T>>) -> Seq<Scored<T>>
    decreases s.len(),
{
    if s.len() == 0 {
        s
    } else {
        insert_ranked(sort_ranked(s.drop_last()), s.last())
    }
}

pub proof fn lemma_insert_ranked_multiset<T>(s: Seq<Scored<T>>, x: Scored<T>)
    ensures
        insert_ranked(s, x).to_multiset() == s.to_multiset().insert(x),
        insert_ranked(s, x).len() == s.len() + 1,
    decreases s.len(),
{
    broadcast use vstd::seq_lib::group_to_multiset_ensures;
    broadcast use vstd::seq_lib::lemma_multiset_commutative;

    if s.len() == 0 {
        assert(seq![x] =~= Seq::<Scored<T>>::empty().push(x));
        assert(insert_ranked(s, x).to_multiset() =~= s.to_multiset().insert(x));
    } else if s[0].key >= x.key {
        lemma_insert_ranked_multiset(s.drop_first(), x);
        assert(s =~= seq![s[0]] + s.drop_first());
        assert((seq![s[0]] + insert_ranked(s.drop_first(), x)).to_multiset() =~= s.to_multiset()
            .insert(x));
    } else {
        assert(seq![x] + s =~= (seq![x] + s));
        assert((seq![x] + s).to_multiset() =~= s.to_multiset().insert(x));
    }
}

/// Every element of `insert_ranked(s, x)` is an element of `s` or is `x`.
proof fn lemma_insert_ranked_contains<T>(s: Seq<Scored<T>>, x: Scored<T>, e: Scored<T>)
    requires
        insert_ranked(s, x).contains(e),
    ensures
        s.contains(e) || e == x,
{
    broadcast use vstd::seq_lib::group_to_multiset_ensures;

    lemma_insert_ranked_multiset(s, x);
    assert(insert_ranked(s, x).to_multiset().count(e) > 0);
    if e != x {
        assert(s.to_multiset().count(e) > 0);
    }
}

pub proof fn lemma_insert_ranked_sorted<T>(s: Seq<Scored<T>>, x: Scored<T>)
    requires
        ranked(s),
        forall|k: int| 0 <= k < s.len() ==> (#[trigger] s[k]).idx < x.idx,
    ensures
        ranked(insert_ranked(s, x)),
    decreases s.len(),
{
    if s.len() == 0 {
    } else if s[0].key >= x.key {
        let tail = s.drop_first();
        assert forall|i: int, j: int| 0 <= i < j < tail.len() implies ranks_before(
            tail[i],
            tail[j],
        ) by {
            assert(ranks_before(s[i + 1], s[j + 1]));
        }
        assert forall|k: int| 0 <= k < tail.len() implies (#[trigger] tail[k]).idx < x.idx by {
            assert(s[k + 1].idx < x.idx);
        }
        lemma_insert_ranked_sorted(tail, x);
        let r = seq![s[0]] + insert_ranked(tail, x);
        assert forall|i: int, j: int| 0 <= i < j < r.len() implies ranks_before(r[i], r[j]) by {
            if i == 0 {
                let e = insert_ranked(tail, x)[j - 1];
                assert(insert_ranked(tail, x).contains(e));
                lemma_insert_ranked_contains(tail, x, e);
                if e == x {
                    assert(s[0].idx < x.idx);
                } else {
                    let w = choose|w: int| 0 <= w < tail.len() && tail[w] == e;
                    assert(ranks_before(s[0], s[w + 1]));
                }
            } else {
                assert(ranks_before(insert_ranked(tail, x)[i - 1], insert_ranked(tail, x)[j - 1]));
            }
        }
    } else {
        let r = seq![x] + s;
        assert forall|i: int, j: int| 0 <= i < j < r.len() implies ranks_before(r[i], r[j]) by {
            if i == 0 {
                if j - 1 > 0 {
                    assert(ranks_before(s[0], s[j - 1]));
                }
                assert(x.key > s[j - 1].key);
            } else {
                assert(ranks_before(s[i - 1], s[j - 1]));
            }
        }
    }
}

/// A stable descending sort of a sequence whose elements are tagged with
/// their own positions: the result is a permutation of the input, keys
/// descend, and elements with equal keys keep their source order.
pub proof fn lemma_sort_ranked<T>(s: Seq<Scored<T>>)
    requires
        forall|k: int| 0 <= k < s.len() ==> (#[trigger] s[k]).idx == k,
    ensures
        sort_ranked(s).to_multiset() == s.to_multiset(),
        sort_ranked(s).len() == s.len(),
        ranked(sort_ranked(s)),
    decreases s.len(),
{
    broadcast use vstd::seq_lib::group_to_multiset_ensures;

    if s.len() == 0 {
    } else {
        let pre = s.drop_last();
        let x = s.last();
        assert forall|k: int| 0 <= k < pre.len() implies (#[trigger] pre[k]).idx == k by {
            assert(s[k].idx == k);
        }
        lemma_sort_ranked(pre);
        assert forall|k: int| 0 <= k < sort_ranked(pre).len() implies (#[trigger] sort_ranked(
            pre,
        )[k]).idx < x.idx by {
            let e = sort_ranked(pre)[k];
            assert(sort_ranked(pre).contains(e));
            assert(sort_ranked(pre).to_multiset().count(e) > 0);
            assert(pre.to_multiset().count(e) > 0);
            let w = choose|w: int| 0 <= w < pre.len() && pre[w] == e;
            assert(pre[w].idx == w);
        }
        lemma_insert_ranked_sorted(sort_ranked(pre), x);
        lemma_insert_ranked_multiset(sort_ranked(pre), x);
        assert(s =~= pre.push(x));
        assert(sort_ranked(s).to_multiset() =~= s.to_multiset());
    }
}

fn insert_by_rank<T>(v: Vec<Scored<T>>, x: Scored<T>) -> (r: Vec<Scored<T>>)
    ensures
        r@ == insert_ranked(v@, x),
    decreases v@.len(),
{
    let mut v = v;
    if v.len() == 0 {
        v.push(x);
        assert(v@ =~= seq![x]);
        v
    } else if v[0].key >= x.key {
        let ghost orig = v@;
        let h = v.remove(0);
        assert(v@ =~= orig.drop_first());
        let mut r = insert_by_rank(v, x);
        r.insert(0, h);
        assert(r@ =~= seq![h] + insert_ranked(orig.drop_first(), x));
        r
    } else {
        let ghost orig = v@;
        v.insert(0, x);
        assert(v@ =~= seq![x] + orig);
        v
    }
}

/// Stable insertion sort by descending key, ties in source order.
pub fn sort_by_rank<T>(v: Vec<Scored<T>>) -> (r: Vec<Scored<T>>)
    ensures
        r@ == sort_ranked(v@),
    decreases v@.len(),
{
    let mut v = v;
    if v.len() == 0 {
        v
    } else {
        let ghost orig = v@;
        let x = v.pop().unwrap();
        assert(v@ =~= orig.drop_last());
        let sorted = sort_by_rank(v);
        insert_by_rank(sorted, x)
    }
}

} // verus!
