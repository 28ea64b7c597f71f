use vstd::prelude::*;
use crate::text::str_eq;

verus! {

/// The usage-frequency store: a mapping from entry name to the number of
/// times that entry was committed, mutated only on commit. Loading and
/// persisting the backing file is the caller's affair; this type holds the
/// map itself and keeps one count per name.
pub struct History {
    pairs: Vec<(String, u32)>,
}

/// The map a pair list denotes, later pairs winning; with distinct names the
/// order never matters.
pub open spec fn pairs_map(s: Seq<(String, u32)>) -> Map<Seq<char>, u32>
    decreases s.len(),
{
    if s.len() == 0 {
        Map::empty()
    } else {
        pairs_map(s.drop_last()).insert(s.last().0@, s.last().1)
    }
}

/// The map a pair list denotes when the first occurrence of a name wins;
/// this is how a list with repeated names is read on load.
pub open spec fn first_wins_map(s: Seq<(String, u32)>) -> Map<Seq<char>, u32>
    decreases s.len(),
{
    if s.len() == 0 {
        Map::empty()
    } else {
        let m = first_wins_map(s.drop_last());
        if m.contains_key(s.last().0@) {
            m
        } else {
            m.insert(s.last().0@, s.last().1)
        }
    }
}

pub open spec fn distinct_names(s: Seq<(String, u32)>) -> bool {
    forall|i: int, j: int| 0 <= i < j < s.len() ==> (#[trigger] s[i]).0@ != (#[trigger] s[j]).0@
}

/// The frequency of `name`: its stored count, or 0 when it was never used.
pub open spec fn freq_of(m: Map<Seq<char>, u32>, name: Seq<char>) -> u32 {
    if m.contains_key(name) {
        m[name]
    } else {
        0
    }
}

proof fn lemma_pairs_map_domain(s: Seq<(String, u32)>, k: Seq<char>)
    ensures
        pairs_map(s).contains_key(k) <==> exists|i: int| 0 <= i < s.len() && (#[trigger] s[i]).0@
            == k,
    decreases s.len(),
{
    if s.len() > 0 {
        lemma_pairs_map_domain(s.drop_last(), k);
        if pairs_map(s).contains_key(k) {
            if s.last().0@ != k {
                let i = choose|i: int| 0 <= i < s.drop_last().len() && (#[trigger] s.drop_last(
                )[i]).0@ == k;
                assert(s[i].0@ == k);
            }
        }
        if exists|i: int| 0 <= i < s.len() && (#[trigger] s[i]).0@ == k {
            let i = choose|i: int| 0 <= i < s.len() && (#[trigger] s[i]).0@ == k;
            if i < s.len() - 1 {
                assert(s.drop_last()[i].0@ == k);
            }
        }
    }
}

proof fn lemma_pairs_map_index(s: Seq<(String, u32)>, i: int)
    requires
        distinct_names(s),
        0 <= i < s.len(),
    ensures
        pairs_map(s).contains_key(s[i].0@),
        pairs_map(s)[s[i].0@] == s[i].1,
    decreases s.len(),
{
    if i == s.len() - 1 {
        lemma_pairs_map_domain(s, s[i].0@);
    } else {
        lemma_pairs_map_index(s.drop_last(), i);
        assert(s.drop_last()[i] == s[i]);
        assert(s.last().0@ != s[i].0@);
    }
}

impl History {
    /// One count per name.
    pub closed spec fn wf(self) -> bool {
        distinct_names(self.pairs@)
    }

    pub closed spec fn view(self) -> Map<Seq<char>, u32> {
        pairs_map(self.pairs@)
    }

    pub fn new() -> (h: History)
        ensures
            h.wf(),
            h@ == Map::<Seq<char>, u32>::empty(),
    {
        History { pairs: Vec::new() }
    }

    /// Build the store from loaded pairs; with a repeated name the first
    /// occurrence wins.
    pub fn from_pairs(pairs: Vec<(String, u32)>) -> (h: History)
        ensures
            h.wf(),
            h@ == first_wins_map(pairs@),
    {
        let n = pairs.len();
        let mut pairs = pairs;
        let ghost src = pairs@;
        let mut h = History::new();
        let mut i: usize = 0;
        while i < n
            invariant
                n == src.len(),
                i <= n,
                pairs@ == src.skip(i as int),
                h.wf(),
                h@ == first_wins_map(src.take(i as int)),
            decreases n - i,
        {
            assert(src.take(i + 1).drop_last() =~= src.take(i as int));
            assert(src.take(i + 1).last() == src[i as int]);
            let p = pairs.remove(0);
            assert(p == src[i as int]);
            assert(pairs@ =~= src.skip(i + 1));
            if !h.contains_name(p.0.as_str()) {
                h.push_fresh(p);
            }
            i = i + 1;
        }
        assert(src.take(n as int) =~= src);
        h
    }

    /// Whether a name is present in the store.
    pub fn contains_name(&self, name: &str) -> (r: bool)
        ensures
            r == self@.contains_key(name@),
    {
        let mut i: usize = 0;
        while i < self.pairs.len()
            invariant
                i <= self.pairs@.len(),
                forall|j: int| 0 <= j < i ==> (#[trigger] self.pairs@[j]).0@ != name@,
            decreases self.pairs@.len() - i,
        {
            if str_eq(self.pairs[i].0.as_str(), name) {
                proof {
                    lemma_pairs_map_domain(self.pairs@, name@);
                }
                return true;
            }
            i = i + 1;
        }
        proof {
            lemma_pairs_map_domain(self.pairs@, name@);
        }
        false
    }

    /// Append a pair whose name is not yet present.
    fn push_fresh(&mut self, p: (String, u32))
        requires
            old(self).wf(),
            !old(self)@.contains_key(p.0@),
        ensures
            final(self).wf(),
            final(self)@ == old(self)@.insert(p.0@, p.1),
    {
        proof {
            lemma_pairs_map_domain(self.pairs@, p.0@);
        }
        let ghost orig = self.pairs@;
        self.pairs.push(p);
        assert(self.pairs@.drop_last() =~= orig);
        assert forall|i: int, j: int| 0 <= i < j < self.pairs@.len() implies (
        #[trigger] self.pairs@[i]).0@ != (#[trigger] self.pairs@[j]).0@ by {
            if j < self.pairs@.len() - 1 {
                assert(orig[i] == self.pairs@[i]);
                assert(orig[j] == self.pairs@[j]);
            } else {
                assert(orig[i] == self.pairs@[i]);
                lemma_pairs_map_index(orig, i);
            }
        }
    }

    /// The stored count of `name`, or 0 when it is absent.
    pub fn get(&self, name: &str) -> (r: u32)
        requires
            self.wf(),
        ensures
            r == freq_of(self@, name@),
    {
        let mut i: usize = 0;
        while i < self.pairs.len()
            invariant
                self.wf(),
                i <= self.pairs@.len(),
                forall|j: int| 0 <= j < i ==> (#[trigger] self.pairs@[j]).0@ != name@,
            decreases self.pairs@.len() - i,
        {
            if str_eq(self.pairs[i].0.as_str(), name) {
                proof {
                    lemma_pairs_map_index(self.pairs@, i as int);
                }
                return self.pairs[i].1;
            }
            i = i + 1;
        }
        proof {
            lemma_pairs_map_domain(self.pairs@, name@);
        }
        0
    }

    /// Record one use of `name`: its count grows by exactly 1 (a count
    /// already at the maximum stays put, so no count ever wraps).
    pub fn increment(&mut self, name: &str)
        requires
            old(self).wf(),
        ensures
            final(self).wf(),
            freq_of(old(self)@, name@) < u32::MAX ==> final(self)@ == old(self)@.insert(
                name@,
                (freq_of(old(self)@, name@) + 1) as u32,
            ),
            freq_of(old(self)@, name@) == u32::MAX ==> final(self)@ == old(self)@,
    {
        let mut i: usize = 0;
        while i < self.pairs.len()
            invariant
                self == old(self),
                self.wf(),
                i <= self.pairs@.len(),
                forall|j: int| 0 <= j < i ==> (#[trigger] self.pairs@[j]).0@ != name@,
            decreases self.pairs@.len() - i,
        {
            if str_eq(self.pairs[i].0.as_str(), name) {
                proof {
                    lemma_pairs_map_index(self.pairs@, i as int);
                }
                let c = self.pairs[i].1;
                if c < u32::MAX {
                    let ghost orig = self.pairs@;
                    let p = self.pairs.remove(i);
                    self.pairs.insert(i, (p.0, c + 1));
                    assert(self.pairs@ =~= orig.update(i as int, (orig[i as int].0, (c
                        + 1) as u32)));
                    proof {
                        lemma_updated_pair(orig, i as int, (c + 1) as u32);
                    }
                }
                return ;
            }
            i = i + 1;
        }
        proof {
            lemma_pairs_map_domain(self.pairs@, name@);
        }
        let owned = name.to_owned();
        assert(owned@ == name@);
        self.push_fresh((owned, 1));
    }

    /// The stored pairs, for persistence; one pair per name.
    pub fn pairs(&self) -> (r: &Vec<(String, u32)>)
        ensures
            r@ == self.pairs_seq(),
    {
        &self.pairs
    }

    pub closed spec fn pairs_seq(self) -> Seq<(String, u32)> {
        self.pairs@
    }
}

/// Replacing the count at one position rewrites exactly that name's entry in
/// the denoted map.
proof fn lemma_updated_pair(s: Seq<(String, u32)>, i: int, v: u32)
    requires
        distinct_names(s),
        0 <= i < s.len(),
    ensures
        distinct_names(s.update(i, (s[i].0, v))),
        pairs_map(s.update(i, (s[i].0, v))) == pairs_map(s).insert(s[i].0@, v),
    decreases s.len(),
{
    let t = s.update(i, (s[i].0, v));
    assert forall|a: int, b: int| 0 <= a < b < t.len() implies (#[trigger] t[a]).0@ != (
    #[trigger] t[b]).0@ by {
        assert(s[a].0@ != s[b].0@);
    }
    if i == s.len() - 1 {
        assert(t.drop_last() =~= s.drop_last());
        assert(pairs_map(t) =~= pairs_map(s).insert(s[i].0@, v));
    } else {
        assert(t.drop_last() =~= s.drop_last().update(i, (s[i].0, v)));
        assert(s.drop_last()[i] == s[i]);
        lemma_updated_pair(s.drop_last(), i, v);
        assert(t.last() == s.last());
        assert(s.last().0@ != s[i].0@);
        assert(pairs_map(t) =~= pairs_map(s).insert(s[i].0@, v));
    }
}

} // verus!
