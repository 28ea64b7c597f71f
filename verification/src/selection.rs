use vstd::prelude::*;

verus! {

/// Cursor over the currently visible ranked results.
///
/// `bound` is the number of visible items; `index` is the highlighted
/// position. Navigation wraps around at both ends and is a no-op while no
/// item is visible.
pub struct SelectionState {
    pub index: usize,
    pub bound: usize,
}

impl SelectionState {
    /// The cursor stays strictly below `bound` whenever any item is visible,
    /// and is pinned to 0 when none is.
    pub open spec fn wf(self) -> bool {
        if self.bound > 0 {
            self.index < self.bound
        } else {
            self.index == 0
        }
    }

    pub fn new() -> (s: SelectionState)
        ensures
            s.index == 0,
            s.bound == 0,
            s.wf(),
    {
        SelectionState { index: 0, bound: 0 }
    }

    /// Advance the cursor by one, wrapping from the last valid index to 0;
    /// a no-op while no item is visible.
    pub fn move_down(&mut self)
        requires
            old(self).wf(),
        ensures
            final(self).wf(),
            final(self).bound == old(self).bound,
            old(self).bound == 0 ==> final(self).index == old(self).index,
            old(self).bound > 0 ==> final(self).index == (old(self).index + 1) % (
            old(self).bound as int),
            old(self).index + 1 == old(self).bound ==> final(self).index == 0,
    {
        if self.bound > 0 {
            if self.index + 1 >= self.bound {
                proof {
                    vstd::arithmetic::div_mod::lemma_mod_self_0(self.bound as int);
                }
                self.index = 0;
            } else {
                proof {
                    vstd::arithmetic::div_mod::lemma_small_mod(
                        (self.index + 1) as nat,
                        self.bound as nat,
                    );
                }
                self.index = self.index + 1;
            }
        }
    }

    /// Move the cursor back by one, wrapping from 0 to the last valid index;
    /// a no-op while no item is visible.
    pub fn move_up(&mut self)
        requires
            old(self).wf(),
        ensures
            final(self).wf(),
            final(self).bound == old(self).bound,
            old(self).bound == 0 ==> final(self).index == old(self).index,
            old(self).bound > 0 && old(self).index == 0 ==> final(self).index == old(
                self,
            ).bound - 1,
            old(self).index > 0 ==> final(self).index == old(self).index - 1,
    {
        if self.bound > 0 {
            if self.index == 0 {
                self.index = self.bound - 1;
            } else {
                self.index = self.index - 1;
            }
        }
    }

    /// Jump back to the top of the list; invoked whenever the query changes.
    pub fn reset(&mut self)
        ensures
            final(self).index == 0,
            final(self).bound == old(self).bound,
    {
        self.index = 0;
    }

    /// Adopt the bound of a freshly rebuilt list, pulling the cursor back in
    /// range if the list shrank past it.
    pub fn clamp(&mut self, new_bound: usize)
        ensures
            final(self).wf(),
            final(self).bound == new_bound,
            old(self).index < new_bound ==> final(self).index == old(self).index,
            old(self).index >= new_bound && new_bound > 0 ==> final(self).index == new_bound - 1,
            old(self).index >= new_bound && new_bound == 0 ==> final(self).index == 0,
    {
        self.bound = new_bound;
        if self.index >= new_bound {
            if new_bound > 0 {
                self.index = new_bound - 1;
            } else {
                self.index = 0;
            }
        }
    }
}

} // verus!
