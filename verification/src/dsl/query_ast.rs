//! The query AST, and dotted-path resolution into a payload.

use vstd::prelude::*;

use crate::abstract_object::{AbstractValue, ObjModel, ValModel};
use crate::dsl::filters::EventFilterError;
use crate::event::Event;

verus! {

/// A whole query: find the events that one or more find-nodes accept.
/// The grammar currently builds exactly one node; the list anticipates
/// sequencing several.
#[derive(Debug)]
pub enum EventQuery {
    Find { queries: Vec<FindEventNode> },
}

/// Restricts a find to payloads of one name, or lets every event through.
#[derive(Debug)]
pub enum EventNameFilter {
    Any,
    Named(String),
}

/// One find: a name filter and a predicate over the payload.
#[derive(Debug)]
pub struct FindEventNode {
    pub event_type: EventNameFilter,
    pub operator: Operator,
}

/// A dot-separated property path for descending into nested objects and
/// maps.
#[derive(Debug)]
pub struct PropPath {
    pub segments: Vec<String>,
}

/// A node of the boolean predicate tree.
#[derive(Debug)]
pub enum Operator {
    /// True when the value at the path loosely equals the literal text.
    Eq { prop_name: PropPath, comparison: String },
    /// True when the path resolves at all.
    Has(PropPath),
    /// True when the event's originator is the given name.
    Server(String),
    Not(Box<Operator>),
    And(Vec<Operator>),
    Or(Vec<Operator>),
}

/// Mathematical model of an [`Operator`].
pub enum OpModel {
    Eq { path: Seq<Seq<char>>, value: Seq<char> },
    Has(Seq<Seq<char>>),
    Server(Seq<char>),
    Not(Box<OpModel>),
    And(Seq<OpModel>),
    Or(Seq<OpModel>),
}

/// Mathematical model of an [`EventNameFilter`].
pub enum NameFilterModel {
    Any,
    Named(Seq<char>),
}

/// Mathematical model of a [`FindEventNode`].
pub struct FindModel {
    pub event_type: NameFilterModel,
    pub operator: OpModel,
}

/// The models of a vector of operators, in order.
pub open spec fn ops_deep_view(s: Seq<Operator>) -> Seq<OpModel>
    decreases s,
{
    Seq::new(
        s.len(),
        |i: int|
            if 0 <= i < s.len() {
                s[i].deep_view()
            } else {
                arbitrary()
            },
    )
}

/// What [`ops_deep_view`] holds at each index.
pub proof fn lemma_ops_deep_view(s: Seq<Operator>)
    ensures
        ops_deep_view(s).len() == s.len(),
        forall|i: int| 0 <= i < s.len() ==> ops_deep_view(s)[i] == (#[trigger] s[i]).deep_view(),
{
}

impl DeepView for Operator {
    type V = OpModel;

    open spec fn deep_view(&self) -> OpModel
        decreases self,
    {
        match self {
            Operator::Eq { prop_name, comparison } => OpModel::Eq {
                path: prop_name.segments.deep_view(),
                value: comparison@,
            },
            Operator::Has(p) => OpModel::Has(p.segments.deep_view()),
            Operator::Server(sid) => OpModel::Server(sid@),
            Operator::Not(inner) => OpModel::Not(Box::new((**inner).deep_view())),
            Operator::And(ops) => OpModel::And(ops_deep_view(ops@)),
            Operator::Or(ops) => OpModel::Or(ops_deep_view(ops@)),
        }
    }
}

impl View for Operator {
    type V = OpModel;

    open spec fn view(&self) -> OpModel {
        self.deep_view()
    }
}

impl View for EventNameFilter {
    type V = NameFilterModel;

    open spec fn view(&self) -> NameFilterModel {
        match self {
            EventNameFilter::Any => NameFilterModel::Any,
            EventNameFilter::Named(n) => NameFilterModel::Named(n@),
        }
    }
}

impl View for FindEventNode {
    type V = FindModel;

    open spec fn view(&self) -> FindModel {
        FindModel { event_type: self.event_type@, operator: self.operator@ }
    }
}

impl View for EventQuery {
    type V = Seq<FindModel>;

    open spec fn view(&self) -> Seq<FindModel> {
        match self {
            EventQuery::Find { queries } => Seq::new(
                queries@.len(),
                |i: int|
                    if 0 <= i < queries@.len() {
                        queries@[i]@
                    } else {
                        arbitrary()
                    },
            ),
        }
    }
}

/// Resolution of `segs[i ..]` against a property mapping: each segment
/// must be present at its level; descent continues only through objects
/// and maps; the value at path exhaustion is the result.
pub open spec fn spec_resolve(
    segs: Seq<Seq<char>>,
    props: Map<Seq<char>, ValModel>,
    i: int,
) -> Option<ValModel>
    decreases segs.len() - i,
{
    if i < 0 || i >= segs.len() {
        None
    } else {
        let k = segs[i];
        if !props.dom().contains(k) {
            None
        } else {
            let v = props[k];
            if i == segs.len() - 1 {
                Some(v)
            } else {
                match v {
                    ValModel::Object(o) => spec_resolve(segs, o.props, i + 1),
                    ValModel::MapV(m) => spec_resolve(segs, m, i + 1),
                    _ => None,
                }
            }
        }
    }
}

/// Resolution of a whole path against a payload; an empty path resolves
/// to nothing.
pub open spec fn spec_lookup(segs: Seq<Seq<char>>, payload: ObjModel) -> Option<ValModel> {
    spec_resolve(segs, payload.props, 0)
}

impl View for PropPath {
    type V = Seq<Seq<char>>;

    open spec fn view(&self) -> Seq<Seq<char>> {
        self.segments.deep_view()
    }
}

impl PropPath {
    /// Resolves this path against an event's payload, per
    /// [`spec_lookup`]; a failure is always `KeyNotFound`.
    pub fn lookup_value<'ev>(&self, event: &'ev Event) -> (r: Result<
        &'ev AbstractValue,
        EventFilterError,
    >)
        requires
            event.wf(),
        ensures
            match r {
                Ok(v) => spec_lookup(self@, event.event_obj@) == Some(v@) && v.wf(),
                Err(e) => spec_lookup(self@, event.event_obj@) is None && e
                    == EventFilterError::KeyNotFound,
            },
    {
        let n = self.segments.len();
        if n == 0 {
            return Err(EventFilterError::KeyNotFound);
        }
        let mut cur: &crate::abstract_object::PropMap = event.event_obj.props();
        let mut i: usize = 0;
        proof {
            assert(cur@ == event.event_obj@.props);
        }
        loop
            invariant
                i < n,
                n == self.segments@.len(),
                cur.wf(),
                spec_resolve(self@, event.event_obj@.props, 0) == spec_resolve(
                    self@,
                    cur@,
                    i as int,
                ),
            decreases n - i,
        {
            let seg = &self.segments[i];
            proof {
                assert(self@[i as int] == self.segments@[i as int]@);
            }
            match cur.get(seg.as_str()) {
                None => {
                    return Err(EventFilterError::KeyNotFound);
                },
                Some(v) => {
                    if i + 1 == n {
                        return Ok(v);
                    }
                    match v {
                        AbstractValue::Object(o) => {
                            proof {
                                assert(o.wf());
                                assert(o.props.wf());
                                assert(v@ == ValModel::Object(o@));
                                assert(o@.props == o.props@);
                                assert(spec_resolve(self@, cur@, i as int) == spec_resolve(
                                    self@,
                                    o.props@,
                                    i + 1,
                                ));
                            }
                            cur = &o.props;
                        },
                        AbstractValue::MapValue(m) => {
                            proof {
                                assert(m.wf());
                                assert(v@ == ValModel::MapV(m@));
                                assert(spec_resolve(self@, cur@, i as int) == spec_resolve(
                                    self@,
                                    m@,
                                    i + 1,
                                ));
                            }
                            cur = m;
                        },
                        _ => {
                            return Err(EventFilterError::KeyNotFound);
                        },
                    }
                    i = i + 1;
                },
            }
        }
    }
}

} // verus!
