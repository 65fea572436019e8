//! The active query and its match set.
//!
//! The match set is fully recomputed on every push, so it is always
//! consistent with the stored query, never stale.

use vstd::prelude::*;

use crate::dsl::filters::{spec_query_match_seq, spec_query_matches_event};
use crate::dsl::query_ast::EventQuery;
use crate::event::{events_wf, Event};

verus! {

/// The currently active filter, if any, and the ids that match it, in
/// corpus order.
#[derive(Debug)]
pub struct FilterState {
    pub event_filter: Option<EventQuery>,
    pub matching_events: Vec<usize>,
}

impl FilterState {
    /// The stored match set is exactly what the stored query matches
    /// over `events`: with no query nothing matches, and the set is
    /// never stale.
    pub open spec fn consistent_with(&self, events: Seq<Event>) -> bool {
        match &self.event_filter {
            Some(q) => self.matching_events@ == spec_query_match_seq(q, events),
            None => self.matching_events@ == Seq::<usize>::empty(),
        }
    }

    /// No filter: nothing matches.
    pub fn new() -> (r: Self)
        ensures
            r.event_filter is None,
            r.matching_events@ =~= Seq::<usize>::empty(),
            forall|evs: Seq<Event>| r.consistent_with(evs),
    {
        let r = FilterState { event_filter: None, matching_events: Vec::new() };
        proof {
            assert(r.matching_events@ =~= Seq::<usize>::empty());
        }
        r
    }

    /// The matching ids, in corpus order.
    pub fn matching_events(&self) -> (r: &Vec<usize>)
        ensures
            r == &self.matching_events,
    {
        &self.matching_events
    }

    /// A copy of the matching ids, for the navigation cursor to freeze.
    pub fn nav_order(&self) -> (r: Vec<usize>)
        ensures
            r@ == self.matching_events@,
    {
        let n = self.matching_events.len();
        let mut out: Vec<usize> = Vec::new();
        let mut i: usize = 0;
        while i < n
            invariant
                i <= n,
                n == self.matching_events@.len(),
                out@ =~= self.matching_events@.subrange(0, i as int),
            decreases n - i,
        {
            out.push(self.matching_events[i]);
            i = i + 1;
        }
        proof {
            assert(out@ =~= self.matching_events@);
        }
        out
    }

    /// Drops the query and its matches.
    pub fn clear_filter(&mut self)
        ensures
            final(self).event_filter is None,
            final(self).matching_events@ =~= Seq::<usize>::empty(),
            forall|evs: Seq<Event>| final(self).consistent_with(evs),
    {
        self.matching_events.clear();
        self.event_filter = None;
        proof {
            assert(self.matching_events@ =~= Seq::<usize>::empty());
        }
    }

    /// Stores a new query and fully rebuilds the match set over the
    /// complete corpus.
    pub fn push_new_filter(&mut self, event_query: EventQuery, events: &Vec<Event>)
        requires
            events_wf(events@),
        ensures
            final(self).event_filter == Some(event_query),
            final(self).matching_events@ == spec_query_match_seq(&event_query, events@),
            final(self).consistent_with(events@),
    {
        self.matching_events = event_query.matching_ids(events);
        self.event_filter = Some(event_query);
    }

    /// Whether a query is currently stored.
    pub fn has_active_filter(&self) -> (r: bool)
        ensures
            r == (self.event_filter is Some),
    {
        match &self.event_filter {
            Some(_) => true,
            None => false,
        }
    }
}

} // verus!
