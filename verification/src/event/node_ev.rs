//! Node events: the payload shapes a distributed-systems node emits --
//! message sends and receipts, timer sets and deliveries, and custom
//! events.

use vstd::prelude::*;

use crate::abstract_object::{AbstractObject, AbstractValue, ObjModel, ValModel};
use crate::err::AppError;
use crate::event::parser::{parse_node_event, spec_parse_node_event};

verus! {

/// A message on its way out: who sent it, to whom, and its payload.
#[derive(Debug)]
pub struct MessageSendEvent {
    pub sender: String,
    pub dest: String,
    pub payload: AbstractObject,
}

impl MessageSendEvent {
    pub fn sender(&self) -> (r: &str)
        ensures
            r@ == self.sender@,
    {
        self.sender.as_str()
    }

    pub fn dest(&self) -> (r: &str)
        ensures
            r@ == self.dest@,
    {
        self.dest.as_str()
    }

    pub fn payload(&self) -> (r: &AbstractObject)
        ensures
            r == &self.payload,
    {
        &self.payload
    }
}

/// A message arriving: who sent it, to whom, and its payload.
#[derive(Debug)]
pub struct MessageReceiveEvent {
    pub sender: String,
    pub dest: String,
    pub payload: AbstractObject,
}

impl MessageReceiveEvent {
    pub fn sender(&self) -> (r: &str)
        ensures
            r@ == self.sender@,
    {
        self.sender.as_str()
    }

    pub fn dest(&self) -> (r: &str)
        ensures
            r@ == self.dest@,
    {
        self.dest.as_str()
    }

    pub fn payload(&self) -> (r: &AbstractObject)
        ensures
            r == &self.payload,
    {
        &self.payload
    }
}

/// A timer being set on a node.
#[derive(Debug)]
pub struct TimerSetEvent {
    pub dest: String,
    pub payload: AbstractObject,
}

impl TimerSetEvent {
    pub fn dest(&self) -> (r: &str)
        ensures
            r@ == self.dest@,
    {
        self.dest.as_str()
    }

    pub fn payload(&self) -> (r: &AbstractObject)
        ensures
            r == &self.payload,
    {
        &self.payload
    }
}

/// A timer firing on a node.
#[derive(Debug)]
pub struct TimerDeliverEvent {
    pub dest: String,
    pub payload: AbstractObject,
}

impl TimerDeliverEvent {
    pub fn dest(&self) -> (r: &str)
        ensures
            r@ == self.dest@,
    {
        self.dest.as_str()
    }

    pub fn payload(&self) -> (r: &AbstractObject)
        ensures
            r == &self.payload,
    {
        &self.payload
    }
}

/// What a custom event may carry: a structured object or free text.
#[derive(Debug)]
pub enum CustomEventPayload {
    Object(AbstractObject),
    Message(String),
}

/// An event outside the four fixed kinds, under its own name.
#[derive(Debug)]
pub struct CustomEventNode {
    pub name: String,
    pub sender: Option<String>,
    pub dest: String,
    pub payload: AbstractValue,
}

impl CustomEventNode {
    pub fn dest(&self) -> (r: &str)
        ensures
            r@ == self.dest@,
    {
        self.dest.as_str()
    }

    pub fn sender(&self) -> (r: Option<&str>)
        ensures
            match r {
                Some(x) => self.sender matches Some(s) && x@ == s@,
                None => self.sender is None,
            },
    {
        match &self.sender {
            Some(s) => Some(s.as_str()),
            None => None,
        }
    }
}

/// Mathematical model of a [`NodeEvent`].
pub enum NodeEvModel {
    MsgSend { sender: Seq<char>, dest: Seq<char>, payload: ObjModel },
    MsgRecv { sender: Seq<char>, dest: Seq<char>, payload: ObjModel },
    TimerSet { dest: Seq<char>, payload: ObjModel },
    TimerRecv { dest: Seq<char>, payload: ObjModel },
    Custom { name: Seq<char>, sender: Option<Seq<char>>, dest: Seq<char>, payload: ValModel },
}

/// One event a node logged.
#[derive(Debug)]
pub enum NodeEvent {
    MsgSend(MessageSendEvent),
    MsgRecv(MessageReceiveEvent),
    TimerSet(TimerSetEvent),
    TimerRecv(TimerDeliverEvent),
    Custom(CustomEventNode),
}

impl View for NodeEvent {
    type V = NodeEvModel;

    open spec fn view(&self) -> NodeEvModel {
        match self {
            NodeEvent::MsgSend(n) => NodeEvModel::MsgSend {
                sender: n.sender@,
                dest: n.dest@,
                payload: n.payload@,
            },
            NodeEvent::MsgRecv(n) => NodeEvModel::MsgRecv {
                sender: n.sender@,
                dest: n.dest@,
                payload: n.payload@,
            },
            NodeEvent::TimerSet(n) => NodeEvModel::TimerSet {
                dest: n.dest@,
                payload: n.payload@,
            },
            NodeEvent::TimerRecv(n) => NodeEvModel::TimerRecv {
                dest: n.dest@,
                payload: n.payload@,
            },
            NodeEvent::Custom(n) => NodeEvModel::Custom {
                name: n.name@,
                sender: match &n.sender {
                    Some(s) => Some(s@),
                    None => None,
                },
                dest: n.dest@,
                payload: n.payload@,
            },
        }
    }
}

/// What [`NodeEvent::type_str`] reports for each kind.
pub open spec fn spec_type_str(ev: &NodeEvent) -> Seq<char> {
    match ev {
        NodeEvent::MsgSend(_) => "Message Send"@,
        NodeEvent::MsgRecv(_) => "Message Recv"@,
        NodeEvent::TimerSet(_) => "Timer Set"@,
        NodeEvent::TimerRecv(_) => "Timer Recv"@,
        NodeEvent::Custom(n) => n.name@,
    }
}

impl NodeEvent {
    /// Reads one node event from the head of `input`, per
    /// [`spec_parse_node_event`].
    pub fn parse(input: &str) -> (r: Result<Self, AppError>)
        ensures
            match r {
                Ok(ev) => {
                    &&& spec_parse_node_event(input@, 0) matches Some((m, _))
                    &&& ev@ == m
                    &&& ev.wf()
                },
                Err(_) => spec_parse_node_event(input@, 0) is None,
            },
    {
        match parse_node_event(input) {
            Some((_, ev)) => Ok(ev),
            None => Err(AppError::new("failed to parse node event".to_owned())),
        }
    }

    /// Every payload inside is well-formed.
    pub open spec fn wf(&self) -> bool {
        match self {
            NodeEvent::MsgSend(n) => n.payload.wf(),
            NodeEvent::MsgRecv(n) => n.payload.wf(),
            NodeEvent::TimerSet(n) => n.payload.wf(),
            NodeEvent::TimerRecv(n) => n.payload.wf(),
            NodeEvent::Custom(n) => n.payload.wf(),
        }
    }

    /// The sending node, for kinds that have one.
    pub fn sender(&self) -> (r: Option<&str>)
        ensures
            match self {
                NodeEvent::MsgSend(n) => r matches Some(x) && x@ == n.sender@,
                NodeEvent::MsgRecv(n) => r matches Some(x) && x@ == n.sender@,
                NodeEvent::Custom(n) => match r {
                    Some(x) => n.sender matches Some(s) && x@ == s@,
                    None => n.sender is None,
                },
                _ => r is None,
            },
    {
        match self {
            NodeEvent::MsgSend(n) => Some(n.sender()),
            NodeEvent::MsgRecv(n) => Some(n.sender()),
            NodeEvent::Custom(n) => n.sender(),
            _ => None,
        }
    }

    /// The node the event lands on.
    pub fn dest(&self) -> (r: &str)
        ensures
            match self {
                NodeEvent::MsgSend(n) => r@ == n.dest@,
                NodeEvent::MsgRecv(n) => r@ == n.dest@,
                NodeEvent::TimerSet(n) => r@ == n.dest@,
                NodeEvent::TimerRecv(n) => r@ == n.dest@,
                NodeEvent::Custom(n) => r@ == n.dest@,
            },
    {
        match self {
            NodeEvent::MsgSend(n) => n.dest(),
            NodeEvent::MsgRecv(n) => n.dest(),
            NodeEvent::TimerSet(n) => n.dest(),
            NodeEvent::TimerRecv(n) => n.dest(),
            NodeEvent::Custom(n) => n.dest(),
        }
    }

    /// The structured payload.  A custom event must carry an object; the
    /// caller checks that first.
    pub fn payload(&self) -> (r: &AbstractObject)
        requires
            self matches NodeEvent::Custom(n) ==> n.payload is Object,
        ensures
            match self {
                NodeEvent::MsgSend(n) => r == &n.payload,
                NodeEvent::MsgRecv(n) => r == &n.payload,
                NodeEvent::TimerSet(n) => r == &n.payload,
                NodeEvent::TimerRecv(n) => r == &n.payload,
                NodeEvent::Custom(n) => n.payload matches AbstractValue::Object(o) && r == o,
            },
    {
        match self {
            NodeEvent::MsgSend(n) => n.payload(),
            NodeEvent::MsgRecv(n) => n.payload(),
            NodeEvent::TimerSet(n) => n.payload(),
            NodeEvent::TimerRecv(n) => n.payload(),
            NodeEvent::Custom(n) => match &n.payload {
                AbstractValue::Object(obj) => obj,
                _ => vstd::pervasive::unreached(),
            },
        }
    }

    /// A short label for the event's kind; a custom event is labelled by
    /// its own name.
    pub fn type_str(&self) -> (r: &str)
        ensures
            r@ == spec_type_str(self),
    {
        match self {
            NodeEvent::MsgSend(_) => "Message Send",
            NodeEvent::MsgRecv(_) => "Message Recv",
            NodeEvent::TimerSet(_) => "Timer Set",
            NodeEvent::TimerRecv(_) => "Timer Recv",
            NodeEvent::Custom(n) => n.name.as_str(),
        }
    }
}

} // verus!
