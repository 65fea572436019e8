//! Recursive-descent parser for node events.
//!
//! Grammar (alternatives tried in the order written; the first that
//! parses wins):
//!
//! ```text
//! NodeEvent := 'MessageSend'    '(' Dispatch ',' space* Object ')'
//!            | 'MessageReceive' '(' Dispatch ',' space* Object ')'
//!            | 'TimerSet'       '(' Dispatch ',' space* Object ')'
//!            | 'TimerReceive'   '(' Dispatch ',' space* Object ')'
//!            | Name             '(' Dispatch ',' space* Body   ')'
//! Dispatch  := sender? space* '->' space* receiver
//! Body      := Object | maximal nonempty run without '"' or '\'
//! ```
//!
//! where sender, receiver and the custom event's name are nonempty
//! alphanumeric runs.  A message send or receipt needs a sender; one
//! written without a sender falls through to the custom alternative, so
//! nothing here ever gives up on a line that a later alternative can
//! read.

use vstd::prelude::*;

use crate::abstract_object::{AbstractObject, AbstractValue, ObjModel, ValModel};
use crate::abstract_object::parser::{p_object, spec_parse_object, spec_parse_sep};
use crate::event::node_ev::{
    CustomEventNode, MessageReceiveEvent, MessageSendEvent, NodeEvModel, NodeEvent,
    TimerDeliverEvent, TimerSetEvent,
};
use crate::text::{
    alnum_char, alnum_pred, chars_string, kw_at, lemma_scan_bounds, message_char_pred, scan,
    space_char, space_pred, spec_kw_at, str_chars,
};

verus! {

broadcast use lemma_scan_bounds;

/// `Dispatch`: an optional sender, an arrow, and a receiver.
pub open spec fn spec_parse_dispatch(s: Seq<char>, pos: int) -> Option<
    ((Option<Seq<char>>, Seq<char>), int),
> {
    if 0 <= pos <= s.len() {
        let e0 = scan(s, pos, alnum_pred());
        let snd = if e0 > pos {
            Some(s.subrange(pos, e0))
        } else {
            None::<Seq<char>>
        };
        let m1 = scan(s, e0, space_pred());
        if m1 + 1 < s.len() && s[m1] == '-' && s[m1 + 1] == '>' {
            let m2 = scan(s, m1 + 2, space_pred());
            let e1 = scan(s, m2, alnum_pred());
            if e1 == m2 {
                None
            } else {
                Some(((snd, s.subrange(m2, e1)), e1))
            }
        } else {
            None
        }
    } else {
        None
    }
}

/// The shared shape of the four fixed kinds, after their keyword: a
/// parenthesised dispatch, separator, and object payload.
pub open spec fn spec_parse_dispatch_obj(s: Seq<char>, pos: int) -> Option<
    ((Option<Seq<char>>, Seq<char>, ObjModel), int),
> {
    if 0 <= pos < s.len() && s[pos] == '(' {
        match spec_parse_dispatch(s, pos + 1) {
            None => None,
            Some(((snd, rcv), d)) => match spec_parse_sep(s, d) {
                None => None,
                Some(d1) => match spec_parse_object(s, d1) {
                    None => None,
                    Some((om, q)) => {
                        if q < s.len() && s[q] == ')' {
                            Some(((snd, rcv, om), q + 1))
                        } else {
                            None
                        }
                    },
                },
            },
        }
    } else {
        None
    }
}

/// A custom event's body: an object, else a nonempty free-text run.
pub open spec fn spec_parse_custom_body(s: Seq<char>, pos: int) -> Option<(ValModel, int)> {
    match spec_parse_object(s, pos) {
        Some((om, q)) => Some((ValModel::Object(om), q)),
        None => {
            if 0 <= pos <= s.len() {
                let e = scan(s, pos, message_char_pred());
                if e == pos {
                    None
                } else {
                    Some((ValModel::Symbol(s.subrange(pos, e)), e))
                }
            } else {
                None
            }
        },
    }
}

/// A custom event: its own name, then a parenthesised dispatch,
/// separator, and body.
pub open spec fn spec_parse_custom(s: Seq<char>, pos: int) -> Option<(NodeEvModel, int)> {
    if 0 <= pos <= s.len() {
        let e = scan(s, pos, alnum_pred());
        if e == pos || e >= s.len() || s[e] != '(' {
            None
        } else {
            match spec_parse_dispatch(s, e + 1) {
                None => None,
                Some(((snd, rcv), d)) => match spec_parse_sep(s, d) {
                    None => None,
                    Some(d1) => match spec_parse_custom_body(s, d1) {
                        None => None,
                        Some((body, q)) => {
                            if q < s.len() && s[q] == ')' {
                                Some(
                                    (
                                        NodeEvModel::Custom {
                                            name: s.subrange(pos, e),
                                            sender: snd,
                                            dest: rcv,
                                            payload: body,
                                        },
                                        q + 1,
                                    ),
                                )
                            } else {
                                None
                            }
                        },
                    },
                },
            }
        }
    } else {
        None
    }
}

/// One node event: the four fixed kinds, tried in order, then a custom
/// event.  A message kind without a sender does not parse as that kind.
pub open spec fn spec_parse_node_event(s: Seq<char>, pos: int) -> Option<(NodeEvModel, int)> {
    if 0 <= pos <= s.len() {
        if spec_kw_at(s, pos, "MessageSend"@) && (match spec_parse_dispatch_obj(s, pos + 11) {
            Some(((snd, _, _), _)) => snd is Some,
            None => false,
        }) {
            match spec_parse_dispatch_obj(s, pos + 11) {
                Some(((snd, rcv, om), q)) => Some(
                    (
                        NodeEvModel::MsgSend { sender: snd->Some_0, dest: rcv, payload: om },
                        q,
                    ),
                ),
                None => None,
            }
        } else if spec_kw_at(s, pos, "MessageReceive"@) && (match spec_parse_dispatch_obj(
            s,
            pos + 14,
        ) {
            Some(((snd, _, _), _)) => snd is Some,
            None => false,
        }) {
            match spec_parse_dispatch_obj(s, pos + 14) {
                Some(((snd, rcv, om), q)) => Some(
                    (
                        NodeEvModel::MsgRecv { sender: snd->Some_0, dest: rcv, payload: om },
                        q,
                    ),
                ),
                None => None,
            }
        } else if spec_kw_at(s, pos, "TimerSet"@) && spec_parse_dispatch_obj(s, pos + 8)
            is Some {
            match spec_parse_dispatch_obj(s, pos + 8) {
                Some(((_, rcv, om), q)) => Some(
                    (NodeEvModel::TimerSet { dest: rcv, payload: om }, q),
                ),
                None => None,
            }
        } else if spec_kw_at(s, pos, "TimerReceive"@) && spec_parse_dispatch_obj(s, pos + 12)
            is Some {
            match spec_parse_dispatch_obj(s, pos + 12) {
                Some(((_, rcv, om), q)) => Some(
                    (NodeEvModel::TimerRecv { dest: rcv, payload: om }, q),
                ),
                None => None,
            }
        } else {
            spec_parse_custom(s, pos)
        }
    } else {
        None
    }
}

// ---------------------------------------------------------------------
// Executable parsers.
// ---------------------------------------------------------------------

fn scan_alnum_run(cs: &Vec<char>, pos: usize) -> (e: usize)
    requires
        pos <= cs@.len(),
    ensures
        e == scan(cs@, pos as int, alnum_pred()),
        pos <= e <= cs@.len(),
{
    let n = cs.len();
    let mut e = pos;
    while e < n && alnum_char(cs[e])
        invariant
            pos <= e <= n,
            n == cs@.len(),
            scan(cs@, pos as int, alnum_pred()) == scan(cs@, e as int, alnum_pred()),
        decreases n - e,
    {
        e = e + 1;
    }
    e
}

fn scan_space_run(cs: &Vec<char>, pos: usize) -> (e: usize)
    requires
        pos <= cs@.len(),
    ensures
        e == scan(cs@, pos as int, space_pred()),
        pos <= e <= cs@.len(),
{
    let n = cs.len();
    let mut e = pos;
    while e < n && space_char(cs[e])
        invariant
            pos <= e <= n,
            n == cs@.len(),
            scan(cs@, pos as int, space_pred()) == scan(cs@, e as int, space_pred()),
        decreases n - e,
    {
        e = e + 1;
    }
    e
}

fn scan_message_run(cs: &Vec<char>, pos: usize) -> (e: usize)
    requires
        pos <= cs@.len(),
    ensures
        e == scan(cs@, pos as int, message_char_pred()),
        pos <= e <= cs@.len(),
{
    let n = cs.len();
    let mut e = pos;
    while e < n && cs[e] != '"' && cs[e] != '\\'
        invariant
            pos <= e <= n,
            n == cs@.len(),
            scan(cs@, pos as int, message_char_pred()) == scan(
                cs@,
                e as int,
                message_char_pred(),
            ),
        decreases n - e,
    {
        e = e + 1;
    }
    e
}

fn p_dispatch(cs: &Vec<char>, pos: usize) -> (r: Option<((Option<String>, String), usize)>)
    requires
        pos <= cs@.len(),
    ensures
        ({
            let m = spec_parse_dispatch(cs@, pos as int);
            match (r, m) {
                (Some(((snd, rcv), p)), Some(((snds, rcvs), ps))) => {
                    &&& (match (snd, snds) {
                        (Some(a), Some(b)) => a@ == b,
                        (None, None) => true,
                        _ => false,
                    })
                    &&& rcv@ == rcvs
                    &&& p == ps
                    &&& pos < p <= cs@.len()
                },
                (None, None) => true,
                _ => false,
            }
        }),
{
    let n = cs.len();
    let e0 = scan_alnum_run(cs, pos);
    let snd = if e0 > pos {
        Some(chars_string(cs, pos, e0))
    } else {
        None
    };
    let m1 = scan_space_run(cs, e0);
    if n > 1 && m1 < n - 1 && cs[m1] == '-' && cs[m1 + 1] == '>' {
        let m2 = scan_space_run(cs, m1 + 2);
        let e1 = scan_alnum_run(cs, m2);
        if e1 == m2 {
            None
        } else {
            Some(((snd, chars_string(cs, m2, e1)), e1))
        }
    } else {
        None
    }
}

fn p_dispatch_obj(cs: &Vec<char>, pos: usize) -> (r: Option<
    ((Option<String>, String, AbstractObject), usize),
>)
    requires
        pos <= cs@.len(),
    ensures
        ({
            let m = spec_parse_dispatch_obj(cs@, pos as int);
            match (r, m) {
                (Some(((snd, rcv, ob), p)), Some(((snds, rcvs, oms), ps))) => {
                    &&& (match (snd, snds) {
                        (Some(a), Some(b)) => a@ == b,
                        (None, None) => true,
                        _ => false,
                    })
                    &&& rcv@ == rcvs
                    &&& ob@ == oms
                    &&& ob.wf()
                    &&& p == ps
                    &&& pos < p <= cs@.len()
                },
                (None, None) => true,
                _ => false,
            }
        }),
{
    if pos < cs.len() && cs[pos] == '(' {
        match p_dispatch(cs, pos + 1) {
            None => None,
            Some(((snd, rcv), d)) => match crate::abstract_object::parser::p_sep(cs, d) {
                None => None,
                Some(d1) => match p_object(cs, d1) {
                    None => None,
                    Some((ob, q)) => {
                        if q < cs.len() && cs[q] == ')' {
                            Some(((snd, rcv, ob), q + 1))
                        } else {
                            None
                        }
                    },
                },
            },
        }
    } else {
        None
    }
}

fn p_custom_body(cs: &Vec<char>, pos: usize) -> (r: Option<(AbstractValue, usize)>)
    requires
        pos <= cs@.len(),
    ensures
        ({
            let m = spec_parse_custom_body(cs@, pos as int);
            match (r, m) {
                (Some((v, p)), Some((vm, ps))) => v@ == vm && v.wf() && p == ps && pos < p
                    <= cs@.len(),
                (None, None) => true,
                _ => false,
            }
        }),
{
    match p_object(cs, pos) {
        Some((ob, q)) => Some((AbstractValue::Object(ob), q)),
        None => {
            let e = scan_message_run(cs, pos);
            if e == pos {
                None
            } else {
                Some((AbstractValue::Symbol(chars_string(cs, pos, e)), e))
            }
        },
    }
}

fn p_custom(cs: &Vec<char>, pos: usize) -> (r: Option<(NodeEvent, usize)>)
    requires
        pos <= cs@.len(),
    ensures
        ({
            let m = spec_parse_custom(cs@, pos as int);
            match (r, m) {
                (Some((ev, p)), Some((em, ps))) => ev@ == em && ev.wf() && p == ps && pos < p
                    <= cs@.len(),
                (None, None) => true,
                _ => false,
            }
        }),
{
    let e = scan_alnum_run(cs, pos);
    if e == pos || e >= cs.len() {
        return None;
    }
    if cs[e] != '(' {
        return None;
    }
    match p_dispatch(cs, e + 1) {
        None => None,
        Some(((snd, rcv), d)) => match crate::abstract_object::parser::p_sep(cs, d) {
            None => None,
            Some(d1) => match p_custom_body(cs, d1) {
                None => None,
                Some((body, q)) => {
                    if q < cs.len() && cs[q] == ')' {
                        let node = CustomEventNode {
                            name: chars_string(cs, pos, e),
                            sender: snd,
                            dest: rcv,
                            payload: body,
                        };
                        Some((NodeEvent::Custom(node), q + 1))
                    } else {
                        None
                    }
                },
            },
        },
    }
}

/// Reads one node event at the head of `input`; returns the remainder
/// and the event.
pub fn parse_node_event(input: &str) -> (r: Option<(String, NodeEvent)>)
    ensures
        ({
            let m = spec_parse_node_event(input@, 0);
            match (r, m) {
                (Some((rem, ev)), Some((em, p))) => ev@ == em && ev.wf() && rem@
                    == input@.subrange(p, input@.len() as int),
                (None, None) => true,
                _ => false,
            }
        }),
{
    let cs = str_chars(input);
    let n = cs.len();
    proof {
        reveal_strlit("MessageSend");
        reveal_strlit("MessageReceive");
        reveal_strlit("TimerSet");
        reveal_strlit("TimerReceive");
        assert("MessageSend"@.len() == 11);
        assert("MessageReceive"@.len() == 14);
        assert("TimerSet"@.len() == 8);
        assert("TimerReceive"@.len() == 12);
    }
    let ev_pos = if kw_at(&cs, 0, "MessageSend") && (match p_dispatch_obj(&cs, 11) {
        Some(((Some(_), _, _), _)) => true,
        _ => false,
    }) {
        match p_dispatch_obj(&cs, 11) {
            Some(((snd, rcv, ob), q)) => {
                let sender = match snd {
                    Some(sv) => sv,
                    None => {
                        return None;
                    },
                };
                let ev = NodeEvent::MsgSend(
                    MessageSendEvent { sender, dest: rcv, payload: ob },
                );
                Some((ev, q))
            },
            None => None,
        }
    } else if kw_at(&cs, 0, "MessageReceive") && (match p_dispatch_obj(&cs, 14) {
        Some(((Some(_), _, _), _)) => true,
        _ => false,
    }) {
        match p_dispatch_obj(&cs, 14) {
            Some(((snd, rcv, ob), q)) => {
                let sender = match snd {
                    Some(sv) => sv,
                    None => {
                        return None;
                    },
                };
                let ev = NodeEvent::MsgRecv(
                    MessageReceiveEvent { sender, dest: rcv, payload: ob },
                );
                Some((ev, q))
            },
            None => None,
        }
    } else if kw_at(&cs, 0, "TimerSet") && (match p_dispatch_obj(&cs, 8) {
        Some(_) => true,
        None => false,
    }) {
        match p_dispatch_obj(&cs, 8) {
            Some(((_, rcv, ob), q)) => {
                let ev = NodeEvent::TimerSet(TimerSetEvent { dest: rcv, payload: ob });
                Some((ev, q))
            },
            None => None,
        }
    } else if kw_at(&cs, 0, "TimerReceive") && (match p_dispatch_obj(&cs, 12) {
        Some(_) => true,
        None => false,
    }) {
        match p_dispatch_obj(&cs, 12) {
            Some(((_, rcv, ob), q)) => {
                let ev = NodeEvent::TimerRecv(TimerDeliverEvent { dest: rcv, payload: ob });
                Some((ev, q))
            },
            None => None,
        }
    } else {
        p_custom(&cs, 0)
    };
    match ev_pos {
        Some((ev, p)) => Some((chars_string(&cs, p, n), ev)),
        None => None,
    }
}

} // verus!
