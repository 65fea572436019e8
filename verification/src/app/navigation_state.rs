//! The sequential jump-to-match cursor.
//!
//! The cursor walks a frozen snapshot of the match ids taken when a
//! filter was applied.  Loading a new order always clears the cursor; on
//! an empty order neither direction ever yields an id.  Stepping back
//! from the first match clears the cursor entirely rather than staying
//! at it: the next forward step then starts over at the first match.

use vstd::prelude::*;

verus! {

/// A frozen match-id ordering and a cursor into it.
#[derive(Debug)]
pub struct NavigationState {
    pub nav_order: Vec<usize>,
    pub current_idx: Option<usize>,
}

impl NavigationState {
    /// The cursor, when set, points into the order.
    pub open spec fn wf(&self) -> bool {
        match self.current_idx {
            Some(i) => i < self.nav_order@.len(),
            None => true,
        }
    }

    pub fn new() -> (r: Self)
        ensures
            r.nav_order@ =~= Seq::<usize>::empty(),
            r.current_idx is None,
            r.wf(),
    {
        NavigationState { nav_order: Vec::new(), current_idx: None }
    }

    /// Replaces the order; the cursor always resets.
    pub fn load_nav_order(&mut self, order: Vec<usize>)
        ensures
            final(self).nav_order == order,
            final(self).current_idx is None,
            final(self).wf(),
    {
        self.nav_order = order;
        self.current_idx = None;
    }

    /// Drops the order; the cursor resets.
    pub fn clear_nav_order(&mut self)
        ensures
            final(self).nav_order@ =~= Seq::<usize>::empty(),
            final(self).current_idx is None,
            final(self).wf(),
    {
        self.nav_order.clear();
        self.current_idx = None;
    }

    /// Steps to the next match: the first match when no cursor is set,
    /// the following one otherwise.  Past the last match nothing changes
    /// and no id is reported.
    pub fn next_event(&mut self) -> (r: Option<usize>)
        requires
            old(self).wf(),
        ensures
            final(self).wf(),
            final(self).nav_order == old(self).nav_order,
            old(self).nav_order@.len() == 0 ==> r is None && *final(self) == *old(self),
            ({
                let next = match old(self).current_idx {
                    None => 0int,
                    Some(e) => e + 1,
                };
                if next < old(self).nav_order@.len() {
                    r == Some(old(self).nav_order@[next]) && final(self).current_idx == Some(
                        next as usize,
                    )
                } else {
                    r is None && final(self).current_idx == old(self).current_idx
                }
            }),
    {
        let n = self.nav_order.len();
        let next_idx = match self.current_idx {
            None => 0usize,
            Some(existing) => {
                proof {
                    assert(existing < n);
                }
                existing + 1
            },
        };
        if next_idx < n {
            self.current_idx = Some(next_idx);
            Some(self.nav_order[next_idx])
        } else {
            None
        }
    }

    /// Steps to the previous match.  With no cursor there is nothing to
    /// report; at the first match the cursor clears and nothing is
    /// reported.
    pub fn prev_event(&mut self) -> (r: Option<usize>)
        requires
            old(self).wf(),
        ensures
            final(self).wf(),
            final(self).nav_order == old(self).nav_order,
            old(self).nav_order@.len() == 0 ==> r is None,
            match old(self).current_idx {
                None => r is None && final(self).current_idx is None && final(self).current_idx
                    == old(self).current_idx,
                Some(e) => {
                    if e == 0 {
                        r is None && final(self).current_idx is None
                    } else {
                        r == Some(old(self).nav_order@[e - 1]) && final(self).current_idx == Some(
                            (e - 1) as usize,
                        )
                    }
                },
            },
    {
        let existing = match self.current_idx {
            None => {
                return None;
            },
            Some(e) => e,
        };
        if existing == 0 {
            self.current_idx = None;
            return None;
        }
        let prev_idx = existing - 1;
        self.current_idx = Some(prev_idx);
        Some(self.nav_order[prev_idx])
    }
}

} // verus!
