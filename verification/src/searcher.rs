use vstd::prelude::*;
use crate::application::Application;
use crate::rank::{Scored, lemma_sort_ranked, sort_by_rank, sort_ranked};

verus! {

#[verifier::external_type_specification]
#[verifier::external_body]
pub struct ExMatcher(nucleo_matcher::Matcher);

/// The substring-match score of a needle within a haystack under the
/// default matcher configuration, or nothing when the needle does not
/// occur. A function of the two character sequences alone.
pub uninterp spec fn substring_score_of(haystack: Seq<char>, needle: Seq<char>) -> Option<u16>;

/// The applications that score against a needle, each tagged with its
/// position among the kept ones and its score as the sort key, still in
/// corpus order; an application whose name outruns the matcher's length
/// limit is never matched.
pub open spec fn scored_apps(apps: Seq<Application>, needle: Seq<char>) -> Seq<Scored<usize>>
    decreases apps.len(),
{
    if apps.len() == 0 {
        Seq::empty()
    } else {
        let pre = scored_apps(apps.drop_last(), needle);
        if apps.last().chars@.len() > u32::MAX {
            pre
        } else {
            match substring_score_of(apps.last().chars@, needle) {
                Option::None => pre,
                Option::Some(sc) => pre.push(
                    Scored {
                        idx: pre.len() as usize,
                        key: sc as i64,
                        item: (apps.len() - 1) as usize,
                    },
                ),
            }
        }
    }
}

/// What a search returns, as positions into the corpus: the matching
/// applications, best score first, ties in corpus order.
pub open spec fn search_spec(apps: Seq<Application>, needle: Seq<char>) -> Seq<usize> {
    sort_ranked(scored_apps(apps, needle)).map_values(|sc: Scored<usize>| sc.item)
}

/// Two applications equal field for field.
pub open spec fn same_app(a: Application, b: Application) -> bool {
    &&& a.name == b.name
    &&& a.chars@ == b.chars@
    &&& a.app_type == b.app_type
    &&& a.no_display == b.no_display
}

proof fn lemma_scored_apps_bounds(apps: Seq<Application>, needle: Seq<char>)
    requires
        apps.len() <= usize::MAX,
    ensures
        scored_apps(apps, needle).len() <= apps.len(),
        forall|k: int|
            0 <= k < scored_apps(apps, needle).len() ==> (#[trigger] scored_apps(apps, needle)[k]).idx
                == k && scored_apps(apps, needle)[k].item < apps.len(),
    decreases apps.len(),
{
    if apps.len() > 0 {
        let pre = scored_apps(apps.drop_last(), needle);
        let cur = scored_apps(apps, needle);
        lemma_scored_apps_bounds(apps.drop_last(), needle);
        assert forall|k: int| 0 <= k < cur.len() implies (#[trigger] cur[k]).idx == k
            && cur[k].item < apps.len() by {
            if k < pre.len() {
                assert(cur[k] == pre[k]);
                assert(pre[k].item < apps.drop_last().len());
            } else {
                assert(cur[k] == cur.last());
            }
        }
    }
}

/// The sorted positions stay within the corpus.
proof fn lemma_search_spec_bounds(apps: Seq<Application>, needle: Seq<char>)
    requires
        apps.len() <= usize::MAX,
    ensures
        search_spec(apps, needle).len() == scored_apps(apps, needle).len(),
        forall|j: int|
            0 <= j < search_spec(apps, needle).len() ==> (#[trigger] search_spec(apps, needle)[j])
                < apps.len(),
{
    broadcast use vstd::seq_lib::group_to_multiset_ensures;

    let scored = scored_apps(apps, needle);
    let sorted = sort_ranked(scored);
    lemma_scored_apps_bounds(apps, needle);
    lemma_sort_ranked(scored);
    assert forall|j: int| 0 <= j < search_spec(apps, needle).len() implies (#[trigger] search_spec(
        apps,
        needle,
    )[j]) < apps.len() by {
        let sc = sorted[j];
        assert(sorted.contains(sc));
        assert(sorted.to_multiset().count(sc) > 0);
        assert(scored.to_multiset().count(sc) > 0);
        assert(scored.contains(sc));
        let w = choose|w: int| 0 <= w < scored.len() && scored[w] == sc;
        assert(scored[w].item < apps.len());
    }
}

/// The in-memory searcher of the one-shot variant: it owns the loaded
/// applications and a fuzzy matcher, and ranks by raw substring score
/// alone, without usage history.
pub struct Searcher {
    applications: Vec<Application>,
    matcher: nucleo_matcher::Matcher,
}

/// Relies on nucleo_matcher::Matcher::new: a scratch matcher with the
/// default configuration.
#[verifier::external_body]
fn default_matcher() -> nucleo_matcher::Matcher {
    nucleo_matcher::Matcher::new(nucleo_matcher::Config::DEFAULT)
}

/// Relies on nucleo_matcher::Matcher::substring_match: under one fixed
/// configuration the score is a function of the two character sequences
/// alone; this library builds every matcher through default_matcher. The
/// matcher refuses haystacks past `u32::MAX` codepoints, so those are
/// kept out.
#[verifier::external_body]
fn substring_score(
    m: &mut nucleo_matcher::Matcher,
    haystack: &Vec<char>,
    needle: &str,
) -> (r: Option<u16>)
    requires
        haystack@.len() <= u32::MAX,
    ensures
        r == substring_score_of(haystack@, needle@),
{
    let mut buf: Vec<char> = Vec::new();
    let needle_utf = nucleo_matcher::Utf32Str::new(needle, &mut buf);
    let hay = nucleo_matcher::Utf32Str::Unicode(haystack.as_slice());
    m.substring_match(hay, needle_utf)
}

impl Searcher {
    /// The applications this searcher holds, in load order.
    pub closed spec fn apps(self) -> Seq<Application> {
        self.applications@
    }

    pub fn new(applications: Vec<Application>) -> (s: Searcher)
        ensures
            s.apps() == applications@,
    {
        Searcher { applications, matcher: default_matcher() }
    }

    /// The matching applications as positions into the corpus, best score
    /// first, ties in corpus order.
    pub fn search_indices(&mut self, pattern: &str) -> (r: Vec<usize>)
        ensures
            final(self).apps() == old(self).apps(),
            r@ == search_spec(old(self).apps(), pattern@),
            forall|j: int| 0 <= j < r@.len() ==> (#[trigger] r@[j]) < old(self).apps().len(),
    {
        let ghost apps = self.applications@;
        let n = self.applications.len();
        let mut scored: Vec<Scored<usize>> = Vec::new();
        let mut i: usize = 0;
        while i < n
            invariant
                self.applications@ == apps,
                n == apps.len(),
                i <= n,
                scored@ == scored_apps(apps.take(i as int), pattern@),
            decreases n - i,
        {
            proof {
                assert(apps.take(i + 1).drop_last() =~= apps.take(i as int));
                assert(apps.take(i + 1).last() == apps[i as int]);
                lemma_scored_apps_bounds(apps.take(i as int), pattern@);
            }
            if self.applications[i].chars.len() <= u32::MAX as usize {
                let sc = substring_score(&mut self.matcher, &self.applications[i].chars, pattern);
                if let Some(score) = sc {
                    scored.push(Scored { idx: scored.len(), key: score as i64, item: i });
                }
            }
            i = i + 1;
        }
        proof {
            assert(apps.take(n as int) =~= apps);
            lemma_search_spec_bounds(apps, pattern@);
        }
        let mut sorted = sort_by_rank(scored);
        let ghost full = sort_ranked(scored_apps(apps, pattern@));
        let total = sorted.len();
        let mut r: Vec<usize> = Vec::new();
        let mut j: usize = 0;
        while j < total
            invariant
                self.applications@ == apps,
                total == full.len(),
                j <= total,
                sorted@ == full.skip(j as int),
                r@ == full.take(j as int).map_values(|sc: Scored<usize>| sc.item),
            decreases total - j,
        {
            let sc = sorted.remove(0);
            proof {
                assert(full.skip(j as int)[0] == full[j as int]);
                assert(sorted@ =~= full.skip(j + 1));
            }
            r.push(sc.item);
            proof {
                assert(full.take(j + 1) =~= full.take(j as int).push(full[j as int]));
                assert(r@ =~= full.take(j + 1).map_values(|x: Scored<usize>| x.item));
            }
            j = j + 1;
        }
        proof {
            assert(full.take(total as int) =~= full);
        }
        r
    }

    /// The matching applications themselves, best score first, ties in
    /// corpus order; each returned entry is a field-for-field copy of the
    /// corpus entry at the position the ranking chose.
    pub fn search(&mut self, pattern: &str) -> (r: Vec<Application>)
        ensures
            final(self).apps() == old(self).apps(),
            r@.len() == search_spec(old(self).apps(), pattern@).len(),
            forall|j: int|
                0 <= j < r@.len() ==> same_app(
                    #[trigger] r@[j],
                    old(self).apps()[search_spec(old(self).apps(), pattern@)[j] as int],
                ),
    {
        let ghost apps = self.applications@;
        let idxs = self.search_indices(pattern);
        let ghost spec_idxs = search_spec(apps, pattern@);
        let count = idxs.len();
        let mut r: Vec<Application> = Vec::new();
        let mut j: usize = 0;
        while j < count
            invariant
                self.applications@ == apps,
                count == spec_idxs.len(),
                idxs@ == spec_idxs,
                forall|k: int| 0 <= k < count ==> (#[trigger] idxs@[k]) < apps.len(),
                j <= count,
                r@.len() == j,
                forall|k: int|
                    0 <= k < j ==> same_app(#[trigger] r@[k], apps[spec_idxs[k] as int]),
            decreases count - j,
        {
            let pos = idxs[j];
            let copy = self.applications[pos].duplicate();
            r.push(copy);
            j = j + 1;
        }
        r
    }
}

} // verus!
