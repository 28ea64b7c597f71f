use vstd::prelude::*;
use crate::desktop::Desktop;

verus! {

/// How the pattern's case is treated: `Smart` matches case-sensitively only
/// when the pattern holds an uppercase letter; `Ignore` never does.
#[derive(Clone, Copy, Debug, PartialEq, Eq, Structural)]
pub enum CaseMode {
    Smart,
    Ignore,
}

/// What one bounded tick reports: whether the published snapshot changed,
/// and whether scoring still runs in the background.
#[derive(Clone, Copy, Debug, PartialEq, Eq, Structural)]
pub struct TickStatus {
    pub changed: bool,
    pub running: bool,
}

#[verifier::external_type_specification]
#[verifier::external_body]
#[verifier::reject_recursive_types(T)]
pub struct ExNucleo<T: Sync + Send + 'static>(nucleo::Nucleo<T>);

/// The entries injected into an engine so far, in injection order.
pub uninterp spec fn engine_entries(n: nucleo::Nucleo<Desktop>) -> Seq<Desktop>;

/// The incremental fuzzy-match engine: it owns the corpus, accepts pattern
/// updates, advances scoring in bounded ticks across a worker pool, and
/// publishes atomically swapped snapshots of the matches in best-to-worst
/// order.
pub struct MatchEngine {
    pub inner: nucleo::Nucleo<Desktop>,
}

impl MatchEngine {
    /// The engine's corpus: every entry injected so far.
    pub open spec fn corpus(self) -> Seq<Desktop> {
        engine_entries(self.inner)
    }

    /// Relies on nucleo::Nucleo::new: a fresh engine, matching over one
    /// column, holds no entries. `None` worker threads means one per
    /// hardware thread.
    #[verifier::external_body]
    pub fn new(num_threads: Option<usize>) -> (e: MatchEngine)
        ensures
            engine_entries(e.inner) == Seq::<Desktop>::empty(),
    {
        let inner = nucleo::Nucleo::new(
            nucleo::Config::DEFAULT,
            std::sync::Arc::new(|| {}),
            num_threads,
            1,
        );
        MatchEngine { inner }
    }

    /// Relies on nucleo::Injector::push, reached through Nucleo::injector:
    /// the entry joins the corpus; its single match column is the
    /// precomputed character sequence of its name.
    #[verifier::external_body]
    pub fn push(&mut self, entry: Desktop)
        ensures
            engine_entries(final(self).inner) == engine_entries(old(self).inner).push(entry),
    {
        self.inner.injector().push(
            entry,
            |d, cols| { cols[0] = nucleo::Utf32String::Unicode(d.chars.clone().into_boxed_slice());
            },
        );
    }

    /// Relies on nucleo::pattern::MultiPattern::reparse: replaces the
    /// active pattern wholesale; scoring for the old pattern is superseded
    /// and its results are never published. The corpus stays as it is.
    #[verifier::external_body]
    pub fn reparse(&mut self, query: &str, case_mode: CaseMode)
        ensures
            engine_entries(final(self).inner) == engine_entries(old(self).inner),
    {
        let cm = match case_mode {
            CaseMode::Smart => nucleo::pattern::CaseMatching::Smart,
            CaseMode::Ignore => nucleo::pattern::CaseMatching::Ignore,
        };
        self.inner.pattern.reparse(0, query, cm, nucleo::pattern::Normalization::Smart, false);
    }

    /// Relies on nucleo::Nucleo::tick: advances scoring for up to
    /// `timeout_ms` milliseconds of wall time and reports whether the
    /// published snapshot changed; the report depends on timing and the
    /// worker pool, so nothing more is claimed. The corpus stays as it is.
    #[verifier::external_body]
    pub fn tick(&mut self, timeout_ms: u64) -> (st: TickStatus)
        ensures
            engine_entries(final(self).inner) == engine_entries(old(self).inner),
    {
        let st = self.inner.tick(timeout_ms);
        TickStatus { changed: st.changed, running: st.running }
    }

    /// Relies on nucleo::Nucleo::snapshot and nucleo::Snapshot::
    /// matched_items: the published snapshot's entries, best match first;
    /// every one of them is an entry of the corpus. Which entries appear
    /// depends on how far background scoring has come, so nothing more is
    /// claimed.
    #[verifier::external_body]
    pub fn matched(&self) -> (r: Vec<Desktop>)
        ensures
            forall|i: int| 0 <= i < r@.len() ==> engine_entries(self.inner).contains(r@[i]),
    {
        let snapshot = self.inner.snapshot();
        snapshot.matched_items(..).map(|item| item.data.clone()).collect()
    }
}

} // verus!
