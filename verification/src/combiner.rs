use vstd::prelude::*;
use crate::desktop::Desktop;
use crate::history::{History, freq_of};
use crate::rank::{Scored, lemma_sort_ranked, ranked, sort_by_rank, sort_ranked};

verus! {

/// The longest match list the combiner accepts: it keeps every fuzzy rank
/// within `u32` and every composite key within `i64`.
pub const MAX_MATCHED: usize = 0xFFFF_FFFF;

/// One fuzzy-matched entry: `fuzzy_rank` is its 0-based position in the
/// engine's best-to-worst ordering, which is what ranking consumes.
pub struct MatchResult {
    pub entry: Desktop,
    pub fuzzy_rank: u32,
}

/// A match list is well formed when each element's fuzzy rank is its
/// position.
pub open spec fn wf_matched(m: Seq<MatchResult>) -> bool {
    forall|i: int| 0 <= i < m.len() ==> (#[trigger] m[i]).fuzzy_rank == i
}

pub open spec fn entries_of(m: Seq<MatchResult>) -> Seq<Desktop> {
    m.map_values(|mr: MatchResult| mr.entry)
}

/// One element of the final list: the entry and the single sortable value
/// its place was decided by.
pub struct RankedItem {
    pub entry: Desktop,
    pub composite_key: i64,
}

pub open spec fn to_ranked_item(sc: Scored<Desktop>) -> RankedItem {
    RankedItem { entry: sc.item, composite_key: sc.key }
}

/// The scoring rule: with an empty pattern an entry's key is its frequency
/// alone; otherwise the i-th best of n fuzzy matches gets
/// `(n - i) + frequency * 5`, so a handful of prior launches can outrank a
/// marginally better fresh match.
pub open spec fn composite_key_of(n: int, i: int, freq: int, pattern_is_empty: bool) -> int {
    if pattern_is_empty {
        freq
    } else {
        (n - i) + freq * 5
    }
}

/// The matched entries, each tagged with its position and its composite
/// key, still in match order.
pub open spec fn scored_of(
    entries: Seq<Desktop>,
    hist: Map<Seq<char>, u32>,
    pattern_is_empty: bool,
) -> Seq<Scored<Desktop>> {
    Seq::new(
        entries.len(),
        |i: int|
            Scored {
                idx: i as usize,
                key: composite_key_of(
                    entries.len() as int,
                    i,
                    freq_of(hist, entries[i].name@) as int,
                    pattern_is_empty,
                ) as i64,
                item: entries[i],
            },
    )
}

/// The fully sorted ranking, before the length cap.
pub open spec fn ranked_scored(
    entries: Seq<Desktop>,
    hist: Map<Seq<char>, u32>,
    pattern_is_empty: bool,
) -> Seq<Scored<Desktop>> {
    sort_ranked(scored_of(entries, hist, pattern_is_empty))
}

/// What `rebuild` returns: the sorted ranking, capped at `max_items`.
pub open spec fn rebuild_spec(
    entries: Seq<Desktop>,
    hist: Map<Seq<char>, u32>,
    pattern_is_empty: bool,
    max_items: int,
) -> Seq<RankedItem> {
    ranked_scored(entries, hist, pattern_is_empty).take(
        vstd::math::min(max_items, entries.len() as int),
    ).map_values(|sc: Scored<Desktop>| to_ranked_item(sc))
}

/// Merge the engine's match order with the usage history into the final
/// ordered, length-capped list. A pure function of its arguments: calling
/// it again on the same snapshot and history returns the same list.
pub fn rebuild(
    matched: Vec<MatchResult>,
    history: &History,
    pattern_is_empty: bool,
    max_items: usize,
) -> (r: Vec<RankedItem>)
    requires
        history.wf(),
        matched@.len() <= MAX_MATCHED,
        wf_matched(matched@),
    ensures
        r@ == rebuild_spec(entries_of(matched@), history@, pattern_is_empty, max_items as int),
        r@.len() == vstd::math::min(max_items as int, matched@.len() as int),
{
    let ghost m0 = matched@;
    let ghost entries = entries_of(m0);
    let ghost target = scored_of(entries, history@, pattern_is_empty);
    let n = matched.len();
    let mut matched = matched;
    let mut scored: Vec<Scored<Desktop>> = Vec::new();
    let mut i: usize = 0;
    while i < n
        invariant
            history.wf(),
            n == m0.len(),
            n <= MAX_MATCHED,
            i <= n,
            matched@ == m0.skip(i as int),
            entries == entries_of(m0),
            target == scored_of(entries, history@, pattern_is_empty),
            scored@ == target.take(i as int),
        decreases n - i,
    {
        let mr = matched.remove(0);
        proof {
            assert(m0.skip(i as int)[0] == m0[i as int]);
            assert(matched@ =~= m0.skip(i + 1));
        }
        let f = history.get(mr.entry.name.as_str());
        let key: i64 = if pattern_is_empty {
            f as i64
        } else {
            ((n - i) as i64) + (f as i64) * 5
        };
        proof {
            assert(entries[i as int] == m0[i as int].entry);
            assert(target[i as int].item == mr.entry);
            assert(target[i as int].idx == i);
            assert(target[i as int].key == key);
        }
        scored.push(Scored { idx: i, key, item: mr.entry });
        proof {
            assert(scored@ =~= target.take(i + 1));
        }
        i = i + 1;
    }
    proof {
        assert(target.take(n as int) =~= target);
        assert forall|k: int| 0 <= k < target.len() implies (#[trigger] target[k]).idx == k by {}
        lemma_sort_ranked(target);
    }
    let mut sorted = sort_by_rank(scored);
    let ghost full = sort_ranked(target);
    let total = sorted.len();
    let k = if max_items < total {
        max_items
    } else {
        total
    };
    let mut r: Vec<RankedItem> = Vec::new();
    let mut j: usize = 0;
    while j < k
        invariant
            k <= full.len(),
            j <= k,
            sorted@ == full.skip(j as int),
            r@ == full.take(j as int).map_values(|sc: Scored<Desktop>| to_ranked_item(sc)),
        decreases k - j,
    {
        let sc = sorted.remove(0);
        proof {
            assert(full.skip(j as int)[0] == full[j as int]);
            assert(sorted@ =~= full.skip(j + 1));
        }
        r.push(RankedItem { entry: sc.item, composite_key: sc.key });
        proof {
            assert(full.take(j + 1) =~= full.take(j as int).push(full[j as int]));
            assert(r@ =~= full.take(j + 1).map_values(|x: Scored<Desktop>| to_ranked_item(x)));
        }
        j = j + 1;
    }
    proof {
        assert(k as int == vstd::math::min(max_items as int, n as int));
        assert(r@ =~= rebuild_spec(entries, history@, pattern_is_empty, max_items as int));
    }
    r
}

/// Tag each snapshot entry with its fuzzy rank: its position in the
/// best-to-worst order the engine published.
pub fn to_match_results(entries: Vec<Desktop>) -> (r: Vec<MatchResult>)
    requires
        entries@.len() <= MAX_MATCHED,
    ensures
        wf_matched(r@),
        entries_of(r@) == entries@,
        r@.len() == entries@.len(),
{
    let ghost src = entries@;
    let n = entries.len();
    let mut entries = entries;
    let mut r: Vec<MatchResult> = Vec::new();
    let mut i: usize = 0;
    while i < n
        invariant
            n == src.len(),
            n <= MAX_MATCHED,
            i <= n,
            entries@ == src.skip(i as int),
            r@.len() == i,
            wf_matched(r@),
            entries_of(r@) == src.take(i as int),
        decreases n - i,
    {
        let e = entries.remove(0);
        proof {
            assert(src.skip(i as int)[0] == src[i as int]);
            assert(entries@ =~= src.skip(i + 1));
        }
        r.push(MatchResult { entry: e, fuzzy_rank: i as u32 });
        proof {
            assert(entries_of(r@) =~= src.take(i + 1));
        }
        i = i + 1;
    }
    proof {
        assert(src.take(n as int) =~= src);
    }
    r
}

/// Each scored element in match order: position `i`, the entry at `i`, and
/// the composite rule's value as its key, faithfully held in `i64`.
pub proof fn lemma_scored_of_keys(
    entries: Seq<Desktop>,
    hist: Map<Seq<char>, u32>,
    pattern_is_empty: bool,
)
    requires
        entries.len() <= MAX_MATCHED,
    ensures
        scored_of(entries, hist, pattern_is_empty).len() == entries.len(),
        forall|i: int|
            0 <= i < entries.len() ==> {
                let sc = #[trigger] scored_of(entries, hist, pattern_is_empty)[i];
                sc.idx == i && sc.item == entries[i] && sc.key as int == composite_key_of(
                    entries.len() as int,
                    i,
                    freq_of(hist, entries[i].name@) as int,
                    pattern_is_empty,
                )
            },
{
    assert forall|i: int| 0 <= i < entries.len() implies {
        let sc = #[trigger] scored_of(entries, hist, pattern_is_empty)[i];
        sc.idx == i && sc.item == entries[i] && sc.key as int == composite_key_of(
            entries.len() as int,
            i,
            freq_of(hist, entries[i].name@) as int,
            pattern_is_empty,
        )
    } by {
        let freq = freq_of(hist, entries[i].name@) as int;
        assert(0 <= freq <= u32::MAX);
        assert(composite_key_of(entries.len() as int, i, freq, pattern_is_empty)
            <= MAX_MATCHED + u32::MAX * 5);
    }
}

/// The sorted ranking, characterized completely: it is a permutation of
/// the scored match list, its keys descend with ties kept in match order,
/// and each element is the scored element of its own source position.
pub proof fn lemma_ranking_characterized(
    entries: Seq<Desktop>,
    hist: Map<Seq<char>, u32>,
    pattern_is_empty: bool,
)
    requires
        entries.len() <= MAX_MATCHED,
    ensures
        ranked_scored(entries, hist, pattern_is_empty).to_multiset() == scored_of(
            entries,
            hist,
            pattern_is_empty,
        ).to_multiset(),
        ranked_scored(entries, hist, pattern_is_empty).len() == entries.len(),
        ranked(ranked_scored(entries, hist, pattern_is_empty)),
        forall|j: int|
            0 <= j < entries.len() ==> {
                let sc = #[trigger] ranked_scored(entries, hist, pattern_is_empty)[j];
                sc.idx < entries.len() && sc == scored_of(entries, hist, pattern_is_empty)[sc.idx
                    as int]
            },
{
    broadcast use vstd::seq_lib::group_to_multiset_ensures;

    let scored = scored_of(entries, hist, pattern_is_empty);
    let sorted = ranked_scored(entries, hist, pattern_is_empty);
    assert forall|k: int| 0 <= k < scored.len() implies (#[trigger] scored[k]).idx == k by {}
    lemma_sort_ranked(scored);
    assert forall|j: int| 0 <= j < entries.len() implies {
        let sc = #[trigger] sorted[j];
        sc.idx < entries.len() && sc == scored[sc.idx as int]
    } by {
        let sc = sorted[j];
        assert(sorted.contains(sc));
        assert(sorted.to_multiset().count(sc) > 0);
        assert(scored.to_multiset().count(sc) > 0);
        assert(scored.contains(sc));
        let w = choose|w: int| 0 <= w < scored.len() && scored[w] == sc;
        assert(scored[w].idx == w);
    }
}

/// The entries of the uncapped ranking are exactly the entries the fuzzy
/// engine reported as matching: no extras, no omissions. This holds for
/// any pattern; for a non-empty one the match list is what the engine
/// found for it, for an empty one it is the whole corpus.
pub proof fn lemma_ranked_entries_exact(
    entries: Seq<Desktop>,
    hist: Map<Seq<char>, u32>,
    pattern_is_empty: bool,
)
    requires
        entries.len() <= MAX_MATCHED,
    ensures
        forall|e: Desktop|
            (exists|j: int|
                0 <= j < ranked_scored(entries, hist, pattern_is_empty).len()
                    && (#[trigger] ranked_scored(entries, hist, pattern_is_empty)[j]).item == e)
                <==> entries.contains(e),
{
    broadcast use vstd::seq_lib::group_to_multiset_ensures;

    let scored = scored_of(entries, hist, pattern_is_empty);
    let sorted = ranked_scored(entries, hist, pattern_is_empty);
    assert forall|k: int| 0 <= k < scored.len() implies (#[trigger] scored[k]).idx == k by {}
    lemma_sort_ranked(scored);
    assert forall|e: Desktop|
        (exists|j: int| 0 <= j < sorted.len() && (#[trigger] sorted[j]).item == e)
            <==> entries.contains(e) by {
        if exists|j: int| 0 <= j < sorted.len() && (#[trigger] sorted[j]).item == e {
            let j = choose|j: int| 0 <= j < sorted.len() && (#[trigger] sorted[j]).item == e;
            let sc = sorted[j];
            assert(sorted.contains(sc));
            assert(sorted.to_multiset().count(sc) > 0);
            assert(scored.to_multiset().count(sc) > 0);
            assert(scored.contains(sc));
            let w = choose|w: int| 0 <= w < scored.len() && scored[w] == sc;
            assert(entries[w] == sc.item);
        }
        if entries.contains(e) {
            let i = choose|i: int| 0 <= i < entries.len() && entries[i] == e;
            let sc = scored[i];
            assert(scored.contains(sc));
            assert(scored.to_multiset().count(sc) > 0);
            assert(sorted.to_multiset().count(sc) > 0);
            assert(sorted.contains(sc));
            let j = choose|j: int| 0 <= j < sorted.len() && sorted[j] == sc;
            assert(sorted[j].item == e);
        }
    }
}

/// The capped list too holds exactly the matched entries, whenever the cap
/// is no smaller than the match list.
pub proof fn lemma_rebuild_entries_exact(
    entries: Seq<Desktop>,
    hist: Map<Seq<char>, u32>,
    pattern_is_empty: bool,
    max_items: int,
)
    requires
        entries.len() <= MAX_MATCHED,
        entries.len() <= max_items,
    ensures
        rebuild_spec(entries, hist, pattern_is_empty, max_items).len() == entries.len(),
        forall|e: Desktop|
            (exists|j: int|
                0 <= j < rebuild_spec(entries, hist, pattern_is_empty, max_items).len()
                    && (#[trigger] rebuild_spec(entries, hist, pattern_is_empty, max_items)[j]).entry
                    == e) <==> entries.contains(e),
{
    lemma_ranking_characterized(entries, hist, pattern_is_empty);
    lemma_ranked_entries_exact(entries, hist, pattern_is_empty);
    let sorted = ranked_scored(entries, hist, pattern_is_empty);
    let capped = rebuild_spec(entries, hist, pattern_is_empty, max_items);
    assert(sorted.take(vstd::math::min(max_items, entries.len() as int)) =~= sorted);
    assert(capped.len() == entries.len());
    assert forall|e: Desktop|
        (exists|j: int| 0 <= j < capped.len() && (#[trigger] capped[j]).entry == e)
            <==> entries.contains(e) by {
        if exists|j: int| 0 <= j < capped.len() && (#[trigger] capped[j]).entry == e {
            let j = choose|j: int| 0 <= j < capped.len() && (#[trigger] capped[j]).entry == e;
            assert(sorted[j].item == e);
        }
        if entries.contains(e) {
            let j = choose|j: int| 0 <= j < sorted.len() && (#[trigger] sorted[j]).item == e;
            assert(capped[j].entry == e);
        }
    }
}

/// With an empty pattern the ranking is the corpus ordered by usage
/// frequency descending, ties kept in corpus order: it is a permutation of
/// the scored corpus, each element carries the entry of its own corpus
/// position with that entry's frequency as its key, and the whole list is
/// sorted as `ranked` demands. `rebuild` then returns its first
/// `max_items` elements.
pub proof fn lemma_empty_pattern_frequency_order(entries: Seq<Desktop>, hist: Map<Seq<char>, u32>)
    requires
        entries.len() <= MAX_MATCHED,
    ensures
        ranked_scored(entries, hist, true).len() == entries.len(),
        ranked(ranked_scored(entries, hist, true)),
        ranked_scored(entries, hist, true).to_multiset() == scored_of(
            entries,
            hist,
            true,
        ).to_multiset(),
        forall|j: int|
            0 <= j < entries.len() ==> {
                let sc = #[trigger] ranked_scored(entries, hist, true)[j];
                sc.idx < entries.len() && sc.item == entries[sc.idx as int] && sc.key == freq_of(
                    hist,
                    entries[sc.idx as int].name@,
                ) as i64
            },
{
    lemma_ranking_characterized(entries, hist, true);
    lemma_scored_of_keys(entries, hist, true);
    assert forall|j: int| 0 <= j < entries.len() implies {
        let sc = #[trigger] ranked_scored(entries, hist, true)[j];
        sc.idx < entries.len() && sc.item == entries[sc.idx as int] && sc.key == freq_of(
            hist,
            entries[sc.idx as int].name@,
        ) as i64
    } by {
        let sc = ranked_scored(entries, hist, true)[j];
        assert(sc == scored_of(entries, hist, true)[sc.idx as int]);
        assert(sc.key as int == composite_key_of(
            entries.len() as int,
            sc.idx as int,
            freq_of(hist, entries[sc.idx as int].name@) as int,
            true,
        ));
    }
}

} // verus!
