//! The query evaluator: what it means for an event to match a predicate,
//! and the scan that collects the matching ids.
//!
//! Leaf failures -- a path that does not resolve, or a comparison against
//! a structured value -- make that leaf non-matching; they never abort
//! the evaluation of siblings or of the rest of the corpus.

use vstd::prelude::*;

use crate::abstract_object::{spec_loose_eq, ObjModel};
use crate::dsl::query_ast::{EventNameFilter, EventQuery, FindEventNode, Operator, spec_lookup};
use crate::event::{events_wf, Event};
use crate::text::str_eq;

verus! {

/// Why a leaf of the predicate tree failed to produce a boolean.
#[derive(Debug, PartialEq, Eq, Structural, Clone, Copy)]
pub enum EventFilterError {
    KeyNotFound,
    MismatchTypes,
}

/// What a predicate node says of one event, leaf failures contained as
/// non-matches.
pub open spec fn spec_test_op(op: &Operator, payload: ObjModel, originator: Seq<char>) -> bool
    decreases op,
{
    match op {
        Operator::Eq { prop_name, comparison } => match spec_lookup(prop_name@, payload) {
            Some(v) => spec_loose_eq(v, comparison@) == Some(true),
            None => false,
        },
        Operator::Has(p) => spec_lookup(p@, payload) is Some,
        Operator::Server(sid) => originator == sid@,
        Operator::Not(inner) => !spec_test_op(&**inner, payload, originator),
        Operator::And(ops) => forall|i: int|
            0 <= i < ops@.len() ==> spec_test_op(&(#[trigger] ops@[i]), payload, originator),
        Operator::Or(ops) => exists|i: int|
            0 <= i < ops@.len() && spec_test_op(&(#[trigger] ops@[i]), payload, originator),
    }
}

/// What the name filter says of one payload.
pub open spec fn spec_name_ok(f: &EventNameFilter, payload: ObjModel) -> bool {
    match f {
        EventNameFilter::Any => true,
        EventNameFilter::Named(n) => payload.name == n@,
    }
}

/// Whether one find-node accepts an event: the name filter must pass and
/// the predicate tree must hold.
pub open spec fn spec_matches_event(node: &FindEventNode, ev: Event) -> bool {
    spec_name_ok(&node.event_type, ev.event_obj@) && spec_test_op(
        &node.operator,
        ev.event_obj@,
        ev.originator@,
    )
}

/// The ids of the events a find-node accepts, in corpus order.
pub open spec fn spec_match_seq(node: &FindEventNode, evs: Seq<Event>) -> Seq<usize>
    decreases evs.len(),
{
    if evs.len() == 0 {
        Seq::empty()
    } else {
        spec_match_seq(node, evs.drop_last()) + (if spec_matches_event(node, evs.last()) {
            seq![evs.last().id]
        } else {
            Seq::empty()
        })
    }
}

/// Whether a whole query accepts an event: some find-node does.
pub open spec fn spec_query_matches_event(q: &EventQuery, ev: Event) -> bool {
    match q {
        EventQuery::Find { queries } => exists|i: int|
            0 <= i < queries@.len() && spec_matches_event(&(#[trigger] queries@[i]), ev),
    }
}

/// The ids of the events a whole query accepts, in corpus order.
pub open spec fn spec_query_match_seq(q: &EventQuery, evs: Seq<Event>) -> Seq<usize>
    decreases evs.len(),
{
    if evs.len() == 0 {
        Seq::empty()
    } else {
        spec_query_match_seq(q, evs.drop_last()) + (if spec_query_matches_event(q, evs.last()) {
            seq![evs.last().id]
        } else {
            Seq::empty()
        })
    }
}

/// Over a corpus whose ids strictly ascend, the match set is an
/// ascending sequence of event ids: an ordered set, frozen in corpus
/// order.
pub proof fn lemma_match_ids_ascending(q: &EventQuery, evs: Seq<Event>)
    requires
        forall|i: int, j: int| 0 <= i < j < evs.len() ==> (#[trigger] evs[i]).id < (#[trigger] evs[j]).id,
    ensures
        forall|a: int, b: int|
            0 <= a < b < spec_query_match_seq(q, evs).len() ==> spec_query_match_seq(q, evs)[a]
                < spec_query_match_seq(q, evs)[b],
        forall|k: int|
            0 <= k < spec_query_match_seq(q, evs).len() ==> exists|i: int|
                0 <= i < evs.len() && #[trigger] spec_query_match_seq(q, evs)[k] == (
                #[trigger] evs[i]).id,
    decreases evs.len(),
{
    if evs.len() > 0 {
        let pre = evs.drop_last();
        assert(forall|i: int| 0 <= i < pre.len() ==> pre[i] == #[trigger] evs[i]);
        lemma_match_ids_ascending(q, pre);
        let rp = spec_query_match_seq(q, pre);
        let r = spec_query_match_seq(q, evs);
        assert forall|k: int| 0 <= k < r.len() implies exists|i: int|
            0 <= i < evs.len() && #[trigger] r[k] == (#[trigger] evs[i]).id by {
            if k < rp.len() {
                let i = choose|i: int| 0 <= i < pre.len() && rp[k] == (#[trigger] pre[i]).id;
                assert(r[k] == evs[i].id);
            } else {
                assert(r[k] == evs[evs.len() - 1].id);
            }
        }
        assert forall|a: int, b: int| 0 <= a < b < r.len() implies r[a] < r[b] by {
            if b < rp.len() {
                assert(rp[a] < rp[b]);
            } else {
                assert(b == rp.len() && r[b] == evs[evs.len() - 1].id);
                let i = choose|i: int| 0 <= i < pre.len() && rp[a] == (#[trigger] pre[i]).id;
                assert(evs[i].id < evs[evs.len() - 1].id);
            }
        }
    }
}

impl Operator {
    /// Tests one event, per [`spec_test_op`].
    pub fn test(&self, event: &Event) -> (r: bool)
        requires
            event.wf(),
        ensures
            r == spec_test_op(self, event.event_obj@, event.originator@),
        decreases self,
    {
        match self {
            Operator::Eq { prop_name, comparison } => match prop_name.lookup_value(event) {
                Ok(v) => match v.try_eq_raw_str(comparison.as_str()) {
                    Some(b) => b,
                    None => false,
                },
                Err(_) => false,
            },
            Operator::Has(p) => match p.lookup_value(event) {
                Ok(_) => true,
                Err(_) => false,
            },
            Operator::Server(sid) => str_eq(sid.as_str(), event.originator()),
            Operator::Not(inner) => !inner.test(event),
            Operator::And(ops) => {
                let n = ops.len();
                let mut i: usize = 0;
                while i < n
                    invariant
                        i <= n,
                        n == ops@.len(),
                        event.wf(),
                        *self == Operator::And(*ops),
                        forall|j: int|
                            0 <= j < i ==> spec_test_op(
                                &(#[trigger] ops@[j]),
                                event.event_obj@,
                                event.originator@,
                            ),
                    decreases n - i,
                {
                    proof {
                        assert(decreases_to!(*self => (*self)->And_0));
                        assert((*self)->And_0 == *ops);
                        assert(decreases_to!(*ops => ops@));
                        assert(decreases_to!(ops@ => ops@[i as int]));
                    }
                    if !ops[i].test(event) {
                        return false;
                    }
                    i = i + 1;
                }
                true
            },
            Operator::Or(ops) => {
                let n = ops.len();
                let mut i: usize = 0;
                while i < n
                    invariant
                        i <= n,
                        n == ops@.len(),
                        event.wf(),
                        *self == Operator::Or(*ops),
                        forall|j: int|
                            0 <= j < i ==> !spec_test_op(
                                &(#[trigger] ops@[j]),
                                event.event_obj@,
                                event.originator@,
                            ),
                    decreases n - i,
                {
                    proof {
                        assert(decreases_to!(*self => (*self)->Or_0));
                        assert((*self)->Or_0 == *ops);
                        assert(decreases_to!(*ops => ops@));
                        assert(decreases_to!(ops@ => ops@[i as int]));
                    }
                    if ops[i].test(event) {
                        return true;
                    }
                    i = i + 1;
                }
                false
            },
        }
    }
}

impl EventNameFilter {
    /// Tests one event's payload name, per [`spec_name_ok`].
    pub fn test(&self, event: &Event) -> (r: bool)
        ensures
            r == spec_name_ok(self, event.event_obj@),
    {
        match self {
            EventNameFilter::Any => true,
            EventNameFilter::Named(n) => str_eq(event.event_obj.name(), n.as_str()),
        }
    }
}

impl FindEventNode {
    /// Collects the ids of the matching events, in corpus order.
    pub fn eval(&self, events: &Vec<Event>) -> (r: Vec<usize>)
        requires
            events_wf(events@),
        ensures
            r@ == spec_match_seq(self, events@),
    {
        let n = events.len();
        let mut out: Vec<usize> = Vec::new();
        let mut i: usize = 0;
        while i < n
            invariant
                i <= n,
                n == events@.len(),
                events_wf(events@),
                out@ == spec_match_seq(self, events@.subrange(0, i as int)),
            decreases n - i,
        {
            let ev = &events[i];
            proof {
                let pre = events@.subrange(0, i as int);
                let post = events@.subrange(0, i + 1);
                assert(post.drop_last() =~= pre);
                assert(post.last() == events@[i as int]);
            }
            if self.event_type.test(ev) && self.operator.test(ev) {
                out.push(ev.id);
            }
            i = i + 1;
        }
        proof {
            assert(events@.subrange(0, n as int) =~= events@);
        }
        out
    }
}

impl EventQuery {
    /// Whether any of the query's find-nodes accepts the event.
    pub fn accepts(&self, event: &Event) -> (r: bool)
        requires
            event.wf(),
        ensures
            r == spec_query_matches_event(self, *event),
    {
        match self {
            EventQuery::Find { queries } => {
                let m = queries.len();
                let mut j: usize = 0;
                while j < m
                    invariant
                        j <= m,
                        m == queries@.len(),
                        event.wf(),
                        *self == (EventQuery::Find { queries: *queries }),
                        forall|k: int|
                            0 <= k < j ==> !spec_matches_event(
                                &(#[trigger] queries@[k]),
                                *event,
                            ),
                    decreases m - j,
                {
                    if queries[j].event_type.test(event) && queries[j].operator.test(event) {
                        proof {
                            assert((*self)->Find_queries == *queries);
                            assert(spec_matches_event(&((*self)->Find_queries@[j as int]), *event));
                            assert(spec_query_matches_event(self, *event));
                        }
                        return true;
                    }
                    j = j + 1;
                }
                false
            },
        }
    }

    /// Collects the ids of the events any of the query's find-nodes
    /// accepts, in corpus order.
    pub fn matching_ids(&self, events: &Vec<Event>) -> (r: Vec<usize>)
        requires
            events_wf(events@),
        ensures
            r@ == spec_query_match_seq(self, events@),
    {
        let n = events.len();
        let mut out: Vec<usize> = Vec::new();
        let mut i: usize = 0;
        while i < n
            invariant
                i <= n,
                n == events@.len(),
                events_wf(events@),
                out@ == spec_query_match_seq(self, events@.subrange(0, i as int)),
            decreases n - i,
        {
            let ev = &events[i];
            proof {
                let pre = events@.subrange(0, i as int);
                let post = events@.subrange(0, i + 1);
                assert(post.drop_last() =~= pre);
                assert(post.last() == events@[i as int]);
            }
            if self.accepts(ev) {
                out.push(ev.id);
            }
            i = i + 1;
        }
        proof {
            assert(events@.subrange(0, n as int) =~= events@);
        }
        out
    }
}

} // verus!
