use vstd::prelude::*;
use crate::combiner::{
    MAX_MATCHED,
    RankedItem,
    entries_of,
    rebuild,
    rebuild_spec,
    to_match_results,
};
use crate::desktop::{Desktop, Type};
use crate::engine::{CaseMode, MatchEngine};
use crate::history::{History, freq_of};
use crate::selection::SelectionState;
use crate::text::str_eq;

verus! {

/// One keyboard action of the input cycle.
#[derive(Clone, Copy, Debug, PartialEq, Eq, Structural)]
pub enum InputEvent {
    MoveDown,
    MoveUp,
    Commit,
    Cancel,
}

/// What a commit asks the caller to do: invoke the launch target, if the
/// committed entry carries one, and persist the history.
pub struct CommitRequest {
    pub name: String,
    pub launch_target: Option<String>,
}

/// The launch target of an entry: only an application carries one.
pub open spec fn launch_target_of(e: Desktop) -> Option<String> {
    match e.entry_type {
        Type::Application(o) => o,
        Type::Link(_) => None,
        Type::Directory => None,
    }
}

/// The per-tick driver of one launcher session: detects query changes,
/// ticks the match engine, rebuilds the ranked list only when the engine
/// reports a change, keeps the cursor in range, and turns commit and
/// cancel into requests for the caller.
pub struct Session {
    pub engine: MatchEngine,
    pub history: History,
    pub last_query: String,
    pub selection: SelectionState,
    pub ranked: Vec<RankedItem>,
    pub max_items: usize,
    pub case_mode: CaseMode,
    pub close: bool,
    /// The snapshot entries the ranked list was last built from.
    pub snap: Ghost<Seq<Desktop>>,
    /// The history the ranked list was last built against.
    pub hist_at_build: Ghost<Map<Seq<char>, u32>>,
    /// Whether the pattern was empty at the last rebuild.
    pub empty_at_build: Ghost<bool>,
}

impl Session {
    /// The session's standing invariant: the history is well formed, the
    /// cursor stays within the ranked list, the list never exceeds
    /// `max_items`, and it is exactly the combiner's output for the
    /// recorded snapshot and the history it was built against.
    pub open spec fn wf(self) -> bool {
        &&& self.history.wf()
        &&& self.selection.wf()
        &&& self.selection.bound == self.ranked@.len()
        &&& self.ranked@.len() <= self.max_items
        &&& self.snap@.len() <= MAX_MATCHED
        &&& self.ranked@ == rebuild_spec(
            self.snap@,
            self.hist_at_build@,
            self.empty_at_build@,
            self.max_items as int,
        )
        &&& forall|i: int|
            0 <= i < self.snap@.len() ==> self.engine.corpus().contains(#[trigger] self.snap@[i])
    }

    /// A fresh session over a loaded engine and history: empty query, the
    /// cursor at the top of an empty list, not closing.
    pub fn new(engine: MatchEngine, history: History, max_items: usize, case_mode: CaseMode) -> (s:
        Session)
        requires
            history.wf(),
        ensures
            s.wf(),
            s.engine == engine,
            s.history == history,
            s.last_query@ == Seq::<char>::empty(),
            s.selection.index == 0,
            s.ranked@ == Seq::<RankedItem>::empty(),
            s.max_items == max_items,
            s.case_mode == case_mode,
            !s.close,
    {
        let s = Session {
            engine,
            history,
            last_query: String::new(),
            selection: SelectionState::new(),
            ranked: Vec::new(),
            max_items,
            case_mode,
            close: false,
            snap: Ghost(Seq::empty()),
            hist_at_build: Ghost(Map::empty()),
            empty_at_build: Ghost(true),
        };
        proof {
            assert(s.ranked@ =~= rebuild_spec(
                s.snap@,
                s.hist_at_build@,
                s.empty_at_build@,
                s.max_items as int,
            ));
        }
        s
    }

    /// One input cycle: on a changed query, reparse the pattern and reset
    /// the cursor; tick the engine for `budget_ms`; when the engine
    /// reports a change, rebuild the ranked list from the new snapshot and
    /// the current history and pull the cursor back in range. Returns
    /// whether the list was rebuilt. A session already asked to close does
    /// nothing. While the engine keeps reporting no change for a stable
    /// query, the list and the cursor stay exactly as they are.
    pub fn frame(&mut self, query: &str, budget_ms: u64) -> (rebuilt: bool)
        requires
            old(self).wf(),
        ensures
            final(self).wf(),
            final(self).history == old(self).history,
            final(self).close == old(self).close,
            final(self).max_items == old(self).max_items,
            final(self).case_mode == old(self).case_mode,
            old(self).close ==> *final(self) == *old(self) && !rebuilt,
            !old(self).close ==> final(self).last_query@ == query@,
            !old(self).close && query@ != old(self).last_query@ ==> final(self).selection.index
                == 0,
            !rebuilt ==> final(self).ranked == old(self).ranked && final(self).snap
                == old(self).snap,
            !rebuilt && query@ == old(self).last_query@ ==> final(self).selection == old(self).selection,
            rebuilt ==> final(self).hist_at_build@ == old(self).history@ && final(self).empty_at_build@ == (query@.len() == 0),
    {
        if self.close {
            return false;
        }
        if !str_eq(self.last_query.as_str(), query) {
            self.engine.reparse(query, self.case_mode);
            self.selection.reset();
            self.last_query = query.to_owned();
        }
        let st = self.engine.tick(budget_ms);
        if st.changed {
            let mut snapshot = self.engine.matched();
            if snapshot.len() > MAX_MATCHED {
                snapshot.truncate(MAX_MATCHED);
            }
            let pattern_is_empty = self.last_query.as_str().is_empty();
            let matched = to_match_results(snapshot);
            let list = rebuild(matched, &self.history, pattern_is_empty, self.max_items);
            self.snap = Ghost(entries_of(matched@));
            self.hist_at_build = Ghost(self.history@);
            self.empty_at_build = Ghost(pattern_is_empty);
            self.ranked = list;
            let bound = self.ranked.len();
            self.selection.clamp(bound);
            true
        } else {
            false
        }
    }

    /// Commit the highlighted entry: its count grows by exactly 1 in the
    /// history and the caller is asked to persist and to launch; the
    /// session then closes. On an empty list nothing changes and the
    /// session stays open.
    pub fn commit(&mut self) -> (r: Option<CommitRequest>)
        requires
            old(self).wf(),
        ensures
            final(self).wf(),
            final(self).engine == old(self).engine,
            final(self).ranked == old(self).ranked,
            final(self).selection == old(self).selection,
            final(self).last_query == old(self).last_query,
            final(self).max_items == old(self).max_items,
            final(self).case_mode == old(self).case_mode,
            old(self).ranked@.len() == 0 ==> *final(self) == *old(self) && r is None,
            old(self).ranked@.len() > 0 ==> {
                let e = old(self).ranked@[old(self).selection.index as int].entry;
                &&& final(self).close
                &&& (freq_of(old(self).history@, e.name@) < u32::MAX ==> final(self).history@
                    == old(self).history@.insert(
                    e.name@,
                    (freq_of(old(self).history@, e.name@) + 1) as u32,
                ))
                &&& (freq_of(old(self).history@, e.name@) == u32::MAX ==> final(self).history@
                    == old(self).history@)
                &&& (r matches Some(req) && req.name == e.name && req.launch_target
                    == launch_target_of(e))
            },
    {
        if self.ranked.len() == 0 {
            return None;
        }
        let idx = self.selection.index;
        let name = self.ranked[idx].entry.name.clone();
        let launch_target = match &self.ranked[idx].entry.entry_type {
            Type::Application(Some(cmd)) => Some(cmd.clone()),
            Type::Application(None) => None,
            Type::Link(_) => None,
            Type::Directory => None,
        };
        self.history.increment(name.as_str());
        self.close = true;
        Some(CommitRequest { name, launch_target })
    }

    /// Ask to close without touching the history.
    pub fn cancel(&mut self)
        requires
            old(self).wf(),
        ensures
            final(self).wf(),
            final(self).close,
            final(self).engine == old(self).engine,
            final(self).history == old(self).history,
            final(self).ranked == old(self).ranked,
            final(self).selection == old(self).selection,
            final(self).last_query == old(self).last_query,
            final(self).max_items == old(self).max_items,
            final(self).case_mode == old(self).case_mode,
    {
        self.close = true;
    }

    /// Turn one keyboard action into its transition: tab and shift-tab
    /// move the cursor with wraparound, enter commits, escape cancels.
    pub fn dispatch(&mut self, event: InputEvent) -> (r: Option<CommitRequest>)
        requires
            old(self).wf(),
        ensures
            final(self).wf(),
            final(self).engine == old(self).engine,
            final(self).ranked == old(self).ranked,
            final(self).last_query == old(self).last_query,
            final(self).max_items == old(self).max_items,
            final(self).case_mode == old(self).case_mode,
            event is MoveDown || event is MoveUp ==> final(self).history == old(self).history
                && final(self).close == old(self).close && r is None && final(self).selection.bound == old(self).selection.bound,
            event is MoveDown && old(self).selection.bound > 0 ==> final(self).selection.index == (
            old(self).selection.index + 1) % (old(self).selection.bound as int),
            event is MoveUp && old(self).selection.bound > 0 && old(self).selection.index == 0
                ==> final(self).selection.index == old(self).selection.bound - 1,
            event is MoveUp && old(self).selection.index > 0 ==> final(self).selection.index == old(self).selection.index - 1,
            (event is MoveDown || event is MoveUp) && old(self).selection.bound == 0 ==> final(self).selection.index == old(self).selection.index,
            event is Cancel ==> final(self).close && final(self).history == old(self).history
                && final(self).selection == old(self).selection && r is None,
            event is Commit && old(self).ranked@.len() == 0 ==> *final(self) == *old(self) && r
                is None,
            event is Commit && old(self).ranked@.len() > 0 ==> {
                let e = old(self).ranked@[old(self).selection.index as int].entry;
                &&& final(self).close
                &&& (freq_of(old(self).history@, e.name@) < u32::MAX ==> final(self).history@
                    == old(self).history@.insert(
                    e.name@,
                    (freq_of(old(self).history@, e.name@) + 1) as u32,
                ))
                &&& (r matches Some(req) && req.name == e.name && req.launch_target
                    == launch_target_of(e))
            },
    {
        match event {
            InputEvent::MoveDown => {
                self.selection.move_down();
                None
            },
            InputEvent::MoveUp => {
                self.selection.move_up();
                None
            },
            InputEvent::Commit => self.commit(),
            InputEvent::Cancel => {
                self.cancel();
                None
            },
        }
    }
}

} // verus!
