//! Recursive-descent parser for the query language.
//!
//! Grammar (whitespace is insignificant where `ws` appears; each
//! alternative is tried in the order written):
//!
//! ```text
//! Query     := ws 'find' ws NameFilter Operator
//! NameFilter:= ws 'any' ws | ws Identifier ws
//! Operator  := Eq | Has | Not | And | Or | Server
//! Eq        := 'eq' '(' Path ws ',' ws Literal ')'
//! Has       := ws 'has' ws '(' Path ')'
//! Not       := ws 'not' ws '(' Operator ')'
//! And       := 'and' ws '{' ws Operator (ws ';' ws Operator)* ws '}' ws
//! Or        := 'or'  ws '{' ws Operator (ws ';' ws Operator)* ws '}' ws
//! Server    := 'server' '(' Literal ')'
//! Path      := Segment ('.' Segment)*
//! Literal   := '"' non-quotes '"' | integer literal   (kept verbatim)
//! Segment   := (letter|'_') (letter|digit|'_')*
//! ```
//!
//! A keyword match commits to its branch; the keywords share no prefix,
//! so this reads the same language as trying every alternative.  The
//! grammar builds exactly one find-node per query.

use vstd::prelude::*;

use crate::abstract_object::parser::spec_parse_name;
use crate::dsl::query_ast::{
    ops_deep_view, lemma_ops_deep_view, EventNameFilter, EventQuery, FindEventNode, FindModel,
    NameFilterModel, OpModel, Operator, PropPath,
};
use crate::text::{
    chars_string, digit_char, is_name_start_char, kw_at, lemma_scan_bounds, multispace_char,
    multispace_pred, name_start_char, not_quote_pred, parse_i64_range, scan, spec_kw_at,
    spec_parse_i64, str_chars, word_char, word_pred,
};

verus! {

broadcast use lemma_scan_bounds;

/// Where the whitespace run starting at `pos` ends.
pub open spec fn ms0(s: Seq<char>, pos: int) -> int {
    scan(s, pos, multispace_pred())
}

/// `Segment`: a name-start character, then word characters (no dots).
pub open spec fn spec_q_segment(s: Seq<char>, pos: int) -> Option<(Seq<char>, int)> {
    if 0 <= pos < s.len() && is_name_start_char(s[pos]) {
        let e = scan(s, pos + 1, word_pred());
        Some((s.subrange(pos, e), e))
    } else {
        None
    }
}

/// `Path`: one or more segments separated by dots; a dot not followed by
/// a segment is left unconsumed.
pub open spec fn spec_q_path(s: Seq<char>, pos: int) -> Option<(Seq<Seq<char>>, int)>
    decreases s.len() - pos, 0int,
{
    match spec_q_segment(s, pos) {
        None => None,
        Some((seg, p)) => {
            if p <= pos || p >= s.len() || s[p] != '.' {
                Some((seq![seg], p))
            } else {
                match spec_q_segment(s, p + 1) {
                    None => Some((seq![seg], p)),
                    Some(_) => match spec_q_path(s, p + 1) {
                        Some((rest, q)) => Some((seq![seg] + rest, q)),
                        None => Some((seq![seg], p)),
                    },
                }
            }
        },
    }
}

/// A quoted literal: its text without the quotes.
pub open spec fn spec_q_str_value(s: Seq<char>, pos: int) -> Option<(Seq<char>, int)> {
    if 0 <= pos < s.len() && s[pos] == '"' {
        let e = scan(s, pos + 1, not_quote_pred());
        if e < s.len() && s[e] == '"' {
            Some((s.subrange(pos + 1, e), e + 1))
        } else {
            None
        }
    } else {
        None
    }
}

/// `Literal`: a quoted string, or the verbatim text of an integer
/// literal in 64-bit range.
pub open spec fn spec_q_eq_value(s: Seq<char>, pos: int) -> Option<(Seq<char>, int)> {
    match spec_q_str_value(s, pos) {
        Some(r) => Some(r),
        None => {
            if 0 <= pos <= s.len() {
                let e0 = if pos < s.len() && (s[pos] == '+' || s[pos] == '-') {
                    pos + 1
                } else {
                    pos
                };
                let e = scan(s, e0, crate::text::digit_pred());
                if e == e0 || spec_parse_i64(s.subrange(pos, e)) is None {
                    None
                } else {
                    Some((s.subrange(pos, e), e))
                }
            } else {
                None
            }
        },
    }
}

/// `NameFilter`: the keyword `any`, or an identifier naming an event
/// type; whitespace on both sides.
pub open spec fn spec_q_name_filter(s: Seq<char>, pos: int) -> Option<(NameFilterModel, int)> {
    let m = ms0(s, pos);
    if spec_kw_at(s, m, "any"@) {
        Some((NameFilterModel::Any, ms0(s, m + 3)))
    } else {
        match spec_parse_name(s, m) {
            Some((nm, p)) => Some((NameFilterModel::Named(nm), ms0(s, p))),
            None => None,
        }
    }
}

/// `Eq`: `eq '(' Path ws ',' ws Literal ')'`.
pub open spec fn spec_q_eq(s: Seq<char>, pos: int) -> Option<(OpModel, int)> {
    let a = pos + 2;
    if a < s.len() && s[a] == '(' {
        match spec_q_path(s, a + 1) {
            None => None,
            Some((segs, p)) => {
                let m1 = ms0(s, p);
                if m1 < s.len() && s[m1] == ',' {
                    let m2 = ms0(s, m1 + 1);
                    match spec_q_eq_value(s, m2) {
                        None => None,
                        Some((txt, q)) => {
                            if q < s.len() && s[q] == ')' {
                                Some((OpModel::Eq { path: segs, value: txt }, q + 1))
                            } else {
                                None
                            }
                        },
                    }
                } else {
                    None
                }
            },
        }
    } else {
        None
    }
}

/// `Has`: `ws has ws '(' Path ')'`.
pub open spec fn spec_q_has(s: Seq<char>, pos: int) -> Option<(OpModel, int)> {
    let m = ms0(s, pos);
    let h = ms0(s, m + 3);
    if h < s.len() && s[h] == '(' {
        match spec_q_path(s, h + 1) {
            None => None,
            Some((segs, p)) => {
                if p < s.len() && s[p] == ')' {
                    Some((OpModel::Has(segs), p + 1))
                } else {
                    None
                }
            },
        }
    } else {
        None
    }
}

/// `Server`: `server '(' Literal ')'`.
pub open spec fn spec_q_server(s: Seq<char>, pos: int) -> Option<(OpModel, int)> {
    let a = pos + 6;
    if a < s.len() && s[a] == '(' {
        match spec_q_eq_value(s, a + 1) {
            None => None,
            Some((txt, q)) => {
                if q < s.len() && s[q] == ')' {
                    Some((OpModel::Server(txt), q + 1))
                } else {
                    None
                }
            },
        }
    } else {
        None
    }
}

/// `Not`: `ws not ws '(' Operator ')'`.
pub open spec fn spec_q_not(s: Seq<char>, pos: int) -> Option<(OpModel, int)>
    decreases s.len() - pos, 0int,
{
    let m = ms0(s, pos);
    let h = ms0(s, m + 3);
    if pos <= m && h < s.len() && s[h] == '(' {
        match spec_q_operator(s, h + 1) {
            None => None,
            Some((op, p)) => {
                if p < s.len() && s[p] == ')' {
                    Some((OpModel::Not(Box::new(op)), p + 1))
                } else {
                    None
                }
            },
        }
    } else {
        None
    }
}

/// The braced, semicolon-separated body of `And` and `Or`: the keyword
/// is already consumed at `pos`.
pub open spec fn spec_q_body(s: Seq<char>, pos: int) -> Option<(Seq<OpModel>, int)>
    decreases s.len() - pos, 1int,
{
    let m1 = ms0(s, pos);
    if pos <= m1 && m1 < s.len() && s[m1] == '{' {
        let m2 = ms0(s, m1 + 1);
        match spec_q_oplist(s, m2) {
            None => None,
            Some((ops, p)) => {
                let m3 = ms0(s, p);
                if m3 < s.len() && s[m3] == '}' {
                    Some((ops, ms0(s, m3 + 1)))
                } else {
                    None
                }
            },
        }
    } else {
        None
    }
}

/// One or more operators separated by `ws ';' ws`; a separator not
/// followed by an operator is left unconsumed.
pub open spec fn spec_q_oplist(s: Seq<char>, pos: int) -> Option<(Seq<OpModel>, int)>
    decreases s.len() - pos, 3int,
{
    match spec_q_operator(s, pos) {
        None => None,
        Some((op, p)) => {
            if p <= pos || p > s.len() {
                Some((seq![op], p))
            } else {
                let m = ms0(s, p);
                if m < s.len() && s[m] == ';' {
                    let p1 = ms0(s, m + 1);
                    match spec_q_operator(s, p1) {
                        None => Some((seq![op], p)),
                        Some(_) => match spec_q_oplist(s, p1) {
                            Some((rest, q)) => Some((seq![op] + rest, q)),
                            None => Some((seq![op], p)),
                        },
                    }
                } else {
                    Some((seq![op], p))
                }
            }
        },
    }
}

/// `Operator`: the branch whose keyword stands at `pos` (after optional
/// whitespace for `has` and `not`).
pub open spec fn spec_q_operator(s: Seq<char>, pos: int) -> Option<(OpModel, int)>
    decreases s.len() - pos, 2int,
{
    if pos < 0 || pos > s.len() {
        None
    } else if spec_kw_at(s, pos, "eq"@) {
        spec_q_eq(s, pos)
    } else if spec_kw_at(s, ms0(s, pos), "has"@) {
        spec_q_has(s, pos)
    } else if spec_kw_at(s, ms0(s, pos), "not"@) {
        spec_q_not(s, pos)
    } else if spec_kw_at(s, pos, "and"@) && pos + 3 <= s.len() {
        match spec_q_body(s, pos + 3) {
            Some((ops, q)) => Some((OpModel::And(ops), q)),
            None => None,
        }
    } else if spec_kw_at(s, pos, "or"@) && pos + 2 <= s.len() {
        match spec_q_body(s, pos + 2) {
            Some((ops, q)) => Some((OpModel::Or(ops), q)),
            None => None,
        }
    } else if spec_kw_at(s, pos, "server"@) {
        spec_q_server(s, pos)
    } else {
        None
    }
}

/// One find: a name filter, then an operator.
pub open spec fn spec_q_find(s: Seq<char>, pos: int) -> Option<(FindModel, int)> {
    match spec_q_name_filter(s, pos) {
        None => None,
        Some((f, p)) => match spec_q_operator(s, p) {
            None => None,
            Some((op, q)) => Some((FindModel { event_type: f, operator: op }, q)),
        },
    }
}

/// `Query`: `ws find ws`, then one find-node.
pub open spec fn spec_q_query(s: Seq<char>, pos: int) -> Option<(Seq<FindModel>, int)> {
    let m = ms0(s, pos);
    if spec_kw_at(s, m, "find"@) {
        let m2 = ms0(s, m + 4);
        match spec_q_find(s, m2) {
            None => None,
            Some((fm, q)) => Some((seq![fm], q)),
        }
    } else {
        None
    }
}

// ---------------------------------------------------------------------
// Executable parsers.  Each returns exactly what its spec function says.
// ---------------------------------------------------------------------

fn scan_ms(cs: &Vec<char>, pos: usize) -> (e: usize)
    requires
        pos <= cs@.len(),
    ensures
        e == ms0(cs@, pos as int),
        pos <= e <= cs@.len(),
{
    let n = cs.len();
    let mut e = pos;
    while e < n && multispace_char(cs[e])
        invariant
            pos <= e <= n,
            n == cs@.len(),
            scan(cs@, pos as int, multispace_pred()) == scan(cs@, e as int, multispace_pred()),
        decreases n - e,
    {
        e = e + 1;
    }
    e
}

fn scan_word_run(cs: &Vec<char>, pos: usize) -> (e: usize)
    requires
        pos <= cs@.len(),
    ensures
        e == scan(cs@, pos as int, word_pred()),
        pos <= e <= cs@.len(),
{
    let n = cs.len();
    let mut e = pos;
    while e < n && word_char(cs[e])
        invariant
            pos <= e <= n,
            n == cs@.len(),
            scan(cs@, pos as int, word_pred()) == scan(cs@, e as int, word_pred()),
        decreases n - e,
    {
        e = e + 1;
    }
    e
}

fn scan_quote_run(cs: &Vec<char>, pos: usize) -> (e: usize)
    requires
        pos <= cs@.len(),
    ensures
        e == scan(cs@, pos as int, not_quote_pred()),
        pos <= e <= cs@.len(),
{
    let n = cs.len();
    let mut e = pos;
    while e < n && cs[e] != '"'
        invariant
            pos <= e <= n,
            n == cs@.len(),
            scan(cs@, pos as int, not_quote_pred()) == scan(cs@, e as int, not_quote_pred()),
        decreases n - e,
    {
        e = e + 1;
    }
    e
}

fn scan_digit_run(cs: &Vec<char>, pos: usize) -> (e: usize)
    requires
        pos <= cs@.len(),
    ensures
        e == scan(cs@, pos as int, crate::text::digit_pred()),
        pos <= e <= cs@.len(),
{
    let n = cs.len();
    let mut e = pos;
    while e < n && digit_char(cs[e])
        invariant
            pos <= e <= n,
            n == cs@.len(),
            scan(cs@, pos as int, crate::text::digit_pred()) == scan(
                cs@,
                e as int,
                crate::text::digit_pred(),
            ),
        decreases n - e,
    {
        e = e + 1;
    }
    e
}

fn p_segment(cs: &Vec<char>, pos: usize) -> (r: Option<(String, usize)>)
    requires
        pos <= cs@.len(),
    ensures
        ({
            let m = spec_q_segment(cs@, pos as int);
            match (r, m) {
                (Some((seg, p)), Some((segs, ps))) => seg@ == segs && p == ps && pos < p
                    <= cs@.len(),
                (None, None) => true,
                _ => false,
            }
        }),
{
    if pos < cs.len() && name_start_char(cs[pos]) {
        let e = scan_word_run(cs, pos + 1);
        Some((chars_string(cs, pos, e), e))
    } else {
        None
    }
}

fn p_path(cs: &Vec<char>, pos: usize) -> (r: Option<(Vec<String>, usize)>)
    requires
        pos <= cs@.len(),
    ensures
        ({
            let m = spec_q_path(cs@, pos as int);
            match (r, m) {
                (Some((segs, p)), Some((sm, ps))) => segs.deep_view() == sm && p == ps && pos < p
                    <= cs@.len(),
                (None, None) => true,
                _ => false,
            }
        }),
    decreases cs@.len() - pos, 0int,
{
    match p_segment(cs, pos) {
        None => None,
        Some((seg, p)) => {
            if p < cs.len() && cs[p] == '.' {
                match p_segment(cs, p + 1) {
                    None => {
                        let mut out: Vec<String> = Vec::new();
                        out.push(seg);
                        proof {
                            assert(out.deep_view() =~= seq![seg@]);
                        }
                        Some((out, p))
                    },
                    Some(_) => {
                        match p_path(cs, p + 1) {
                            Some((rest, q)) => {
                                let mut out = rest;
                                out.insert(0, seg);
                                proof {
                                    let (sm, _qs) = spec_q_path(cs@, pos as int)->Some_0;
                                    assert(out.deep_view() =~= seq![seg@]
                                        + spec_q_path(cs@, p + 1)->Some_0.0);
                                }
                                Some((out, q))
                            },
                            None => None,
                        }
                    },
                }
            } else {
                let mut out: Vec<String> = Vec::new();
                out.push(seg);
                proof {
                    assert(out.deep_view() =~= seq![seg@]);
                }
                Some((out, p))
            }
        },
    }
}

fn p_str_value(cs: &Vec<char>, pos: usize) -> (r: Option<(String, usize)>)
    requires
        pos <= cs@.len(),
    ensures
        ({
            let m = spec_q_str_value(cs@, pos as int);
            match (r, m) {
                (Some((v, p)), Some((vm, ps))) => v@ == vm && p == ps && pos < p <= cs@.len(),
                (None, None) => true,
                _ => false,
            }
        }),
{
    if pos < cs.len() && cs[pos] == '"' {
        let e = scan_quote_run(cs, pos + 1);
        if e < cs.len() && cs[e] == '"' {
            Some((chars_string(cs, pos + 1, e), e + 1))
        } else {
            None
        }
    } else {
        None
    }
}

fn p_eq_value(cs: &Vec<char>, pos: usize) -> (r: Option<(String, usize)>)
    requires
        pos <= cs@.len(),
    ensures
        ({
            let m = spec_q_eq_value(cs@, pos as int);
            match (r, m) {
                (Some((v, p)), Some((vm, ps))) => v@ == vm && p == ps && pos < p <= cs@.len(),
                (None, None) => true,
                _ => false,
            }
        }),
{
    match p_str_value(cs, pos) {
        Some(r) => Some(r),
        None => {
            let e0 = if pos < cs.len() && (cs[pos] == '+' || cs[pos] == '-') {
                pos + 1
            } else {
                pos
            };
            let e = scan_digit_run(cs, e0);
            if e == e0 {
                return None;
            }
            match parse_i64_range(cs, pos, e) {
                None => None,
                Some(_) => Some((chars_string(cs, pos, e), e)),
            }
        },
    }
}

fn p_name_filter(cs: &Vec<char>, pos: usize) -> (r: Option<(EventNameFilter, usize)>)
    requires
        pos <= cs@.len(),
    ensures
        ({
            let m = spec_q_name_filter(cs@, pos as int);
            match (r, m) {
                (Some((f, p)), Some((fm, ps))) => f@ == fm && p == ps && pos <= p <= cs@.len(),
                (None, None) => true,
                _ => false,
            }
        }),
{
    let n = cs.len();
    let m = scan_ms(cs, pos);
    if kw_at(cs, m, "any") {
        proof {
            reveal_strlit("any");
            assert("any"@.len() == 3);
            assert(m + 3 <= n);
        }
        let p = scan_ms(cs, m + 3);
        Some((EventNameFilter::Any, p))
    } else {
        match crate::abstract_object::parser::p_name(cs, m) {
            Some((nm, p)) => Some((EventNameFilter::Named(nm), scan_ms(cs, p))),
            None => None,
        }
    }
}

fn p_eq(cs: &Vec<char>, pos: usize) -> (r: Option<(Operator, usize)>)
    requires
        pos + 2 <= cs@.len(),
    ensures
        ({
            let m = spec_q_eq(cs@, pos as int);
            match (r, m) {
                (Some((op, p)), Some((om, ps))) => op@ == om && p == ps && pos < p <= cs@.len(),
                (None, None) => true,
                _ => false,
            }
        }),
{
    let n = cs.len();
    proof {
        assert(pos + 2 <= n);
    }
    let a = pos + 2;
    if a < cs.len() && cs[a] == '(' {
        match p_path(cs, a + 1) {
            None => None,
            Some((segs, p)) => {
                let m1 = scan_ms(cs, p);
                if m1 < cs.len() && cs[m1] == ',' {
                    let m2 = scan_ms(cs, m1 + 1);
                    match p_eq_value(cs, m2) {
                        None => None,
                        Some((txt, q)) => {
                            if q < cs.len() && cs[q] == ')' {
                                let op = Operator::Eq {
                                    prop_name: PropPath { segments: segs },
                                    comparison: txt,
                                };
                                Some((op, q + 1))
                            } else {
                                None
                            }
                        },
                    }
                } else {
                    None
                }
            },
        }
    } else {
        None
    }
}

fn p_has(cs: &Vec<char>, pos: usize) -> (r: Option<(Operator, usize)>)
    requires
        pos <= cs@.len(),
    ensures
        ({
            let m = spec_q_has(cs@, pos as int);
            match (r, m) {
                (Some((op, p)), Some((om, ps))) => op@ == om && p == ps && pos < p <= cs@.len(),
                (None, None) => true,
                _ => false,
            }
        }),
{
    let m = scan_ms(cs, pos);
    let h = if cs.len() >= 3 && m <= cs.len() - 3 {
        scan_ms(cs, m + 3)
    } else {
        proof {
            assert(scan(cs@, m + 3, multispace_pred()) == m + 3);
        }
        return None;
    };
    if h < cs.len() && cs[h] == '(' {
        match p_path(cs, h + 1) {
            None => None,
            Some((segs, p)) => {
                if p < cs.len() && cs[p] == ')' {
                    Some((Operator::Has(PropPath { segments: segs }), p + 1))
                } else {
                    None
                }
            },
        }
    } else {
        None
    }
}

fn p_server(cs: &Vec<char>, pos: usize) -> (r: Option<(Operator, usize)>)
    requires
        pos + 6 <= cs@.len(),
    ensures
        ({
            let m = spec_q_server(cs@, pos as int);
            match (r, m) {
                (Some((op, p)), Some((om, ps))) => op@ == om && p == ps && pos < p <= cs@.len(),
                (None, None) => true,
                _ => false,
            }
        }),
{
    let n = cs.len();
    proof {
        assert(pos + 6 <= n);
    }
    let a = pos + 6;
    if a < cs.len() && cs[a] == '(' {
        match p_eq_value(cs, a + 1) {
            None => None,
            Some((txt, q)) => {
                if q < cs.len() && cs[q] == ')' {
                    Some((Operator::Server(txt), q + 1))
                } else {
                    None
                }
            },
        }
    } else {
        None
    }
}

fn p_not(cs: &Vec<char>, pos: usize) -> (r: Option<(Operator, usize)>)
    requires
        pos <= cs@.len(),
    ensures
        ({
            let m = spec_q_not(cs@, pos as int);
            match (r, m) {
                (Some((op, p)), Some((om, ps))) => op@ == om && p == ps && pos < p <= cs@.len(),
                (None, None) => true,
                _ => false,
            }
        }),
    decreases cs@.len() - pos, 0int,
{
    let m = scan_ms(cs, pos);
    let h = if cs.len() >= 3 && m <= cs.len() - 3 {
        scan_ms(cs, m + 3)
    } else {
        proof {
            assert(scan(cs@, m + 3, multispace_pred()) == m + 3);
        }
        return None;
    };
    if h < cs.len() && cs[h] == '(' {
        match p_operator(cs, h + 1) {
            None => None,
            Some((op, p)) => {
                if p < cs.len() && cs[p] == ')' {
                    Some((Operator::Not(Box::new(op)), p + 1))
                } else {
                    None
                }
            },
        }
    } else {
        None
    }
}

fn p_body(cs: &Vec<char>, pos: usize) -> (r: Option<(Vec<Operator>, usize)>)
    requires
        pos <= cs@.len(),
    ensures
        ({
            let m = spec_q_body(cs@, pos as int);
            match (r, m) {
                (Some((ops, p)), Some((om, ps))) => ops_deep_view(ops@) == om && p == ps && pos
                    < p <= cs@.len(),
                (None, None) => true,
                _ => false,
            }
        }),
    decreases cs@.len() - pos, 1int,
{
    let m1 = scan_ms(cs, pos);
    if m1 < cs.len() && cs[m1] == '{' {
        let m2 = scan_ms(cs, m1 + 1);
        match p_oplist(cs, m2) {
            None => None,
            Some((ops, p)) => {
                let m3 = scan_ms(cs, p);
                if m3 < cs.len() && cs[m3] == '}' {
                    Some((ops, scan_ms(cs, m3 + 1)))
                } else {
                    None
                }
            },
        }
    } else {
        None
    }
}

fn p_oplist(cs: &Vec<char>, pos: usize) -> (r: Option<(Vec<Operator>, usize)>)
    requires
        pos <= cs@.len(),
    ensures
        ({
            let m = spec_q_oplist(cs@, pos as int);
            match (r, m) {
                (Some((ops, p)), Some((om, ps))) => ops_deep_view(ops@) == om && p == ps && pos
                    < p <= cs@.len(),
                (None, None) => true,
                _ => false,
            }
        }),
    decreases cs@.len() - pos, 3int,
{
    match p_operator(cs, pos) {
        None => None,
        Some((op, p)) => {
            let ghost om = op@;
            let m = scan_ms(cs, p);
            if m < cs.len() && cs[m] == ';' {
                let p1 = scan_ms(cs, m + 1);
                match p_operator(cs, p1) {
                    None => {
                        let mut out: Vec<Operator> = Vec::new();
                        out.push(op);
                        proof {
                            lemma_ops_deep_view(out@);
                            assert(ops_deep_view(out@) =~= seq![om]);
                        }
                        Some((out, p))
                    },
                    Some(_) => {
                        match p_oplist(cs, p1) {
                            Some((rest, q)) => {
                                let mut out = rest;
                                out.insert(0, op);
                                proof {
                                    lemma_ops_deep_view(out@);
                                    lemma_ops_deep_view(rest@);
                                    assert(ops_deep_view(out@) =~= seq![om] + ops_deep_view(
                                        rest@,
                                    ));
                                }
                                Some((out, q))
                            },
                            None => None,
                        }
                    },
                }
            } else {
                let mut out: Vec<Operator> = Vec::new();
                out.push(op);
                proof {
                    lemma_ops_deep_view(out@);
                    assert(ops_deep_view(out@) =~= seq![om]);
                }
                Some((out, p))
            }
        },
    }
}

fn p_operator(cs: &Vec<char>, pos: usize) -> (r: Option<(Operator, usize)>)
    requires
        pos <= cs@.len(),
    ensures
        ({
            let m = spec_q_operator(cs@, pos as int);
            match (r, m) {
                (Some((op, p)), Some((om, ps))) => op@ == om && p == ps && pos < p <= cs@.len(),
                (None, None) => true,
                _ => false,
            }
        }),
    decreases cs@.len() - pos, 2int,
{
    proof {
        reveal_strlit("eq");
        reveal_strlit("has");
        reveal_strlit("not");
        reveal_strlit("and");
        reveal_strlit("or");
        reveal_strlit("server");
        assert("eq"@.len() == 2);
        assert("has"@.len() == 3);
        assert("not"@.len() == 3);
        assert("and"@.len() == 3);
        assert("or"@.len() == 2);
        assert("server"@.len() == 6);
    }
    if kw_at(cs, pos, "eq") {
        p_eq(cs, pos)
    } else {
        let m = scan_ms(cs, pos);
        if kw_at(cs, m, "has") {
            p_has(cs, pos)
        } else if kw_at(cs, m, "not") {
            p_not(cs, pos)
        } else if kw_at(cs, pos, "and") {
            proof {
                assert(pos + 3 <= cs@.len());
                assert(cs@.len() == cs.len());
            }
            match p_body(cs, pos + 3) {
                Some((ops, q)) => Some((Operator::And(ops), q)),
                None => None,
            }
        } else if kw_at(cs, pos, "or") {
            proof {
                assert(pos + 2 <= cs@.len());
                assert(cs@.len() == cs.len());
            }
            match p_body(cs, pos + 2) {
                Some((ops, q)) => Some((Operator::Or(ops), q)),
                None => None,
            }
        } else if kw_at(cs, pos, "server") {
            p_server(cs, pos)
        } else {
            None
        }
    }
}

fn p_find(cs: &Vec<char>, pos: usize) -> (r: Option<(FindEventNode, usize)>)
    requires
        pos <= cs@.len(),
    ensures
        ({
            let m = spec_q_find(cs@, pos as int);
            match (r, m) {
                (Some((nd, p)), Some((nm, ps))) => nd@ == nm && p == ps && pos <= p <= cs@.len(),
                (None, None) => true,
                _ => false,
            }
        }),
{
    match p_name_filter(cs, pos) {
        None => None,
        Some((f, p)) => match p_operator(cs, p) {
            None => None,
            Some((op, q)) => Some((FindEventNode { event_type: f, operator: op }, q)),
        },
    }
}

/// Parses query text; returns the unconsumed remainder and the query.
pub fn parse_event_query(input: &str) -> (r: Option<(String, EventQuery)>)
    ensures
        ({
            let m = spec_q_query(input@, 0);
            match (r, m) {
                (Some((rem, q)), Some((qm, p))) => q@ == qm && rem@ == input@.subrange(
                    p,
                    input@.len() as int,
                ),
                (None, None) => true,
                _ => false,
            }
        }),
{
    let cs = str_chars(input);
    let m = scan_ms(&cs, 0);
    if kw_at(&cs, m, "find") {
        proof {
            reveal_strlit("find");
            assert("find"@.len() == 4);
        }
        let m2 = scan_ms(&cs, m + 4);
        match p_find(&cs, m2) {
            None => None,
            Some((nd, q)) => {
                let ghost nm = nd@;
                let mut queries: Vec<FindEventNode> = Vec::new();
                queries.push(nd);
                let eq = EventQuery::Find { queries };
                proof {
                    assert(eq@ =~= seq![nm]);
                }
                let n = cs.len();
                Some((chars_string(&cs, q, n), eq))
            },
        }
    } else {
        None
    }
}

/// Parses one `eq` operator at the head of `input`; returns the
/// remainder and the operator.
pub fn parse_eq_op(input: &str) -> (r: Option<(String, Operator)>)
    ensures
        ({
            let m = spec_q_eq(input@, 0);
            match (r, m) {
                (Some((rem, op)), Some((om, p))) => op@ == om && rem@ == input@.subrange(
                    p,
                    input@.len() as int,
                ),
                (None, None) => true,
                _ => false,
            }
        }),
{
    let cs = str_chars(input);
    if cs.len() < 2 {
        return None;
    }
    match p_eq(&cs, 0) {
        Some((op, p)) => {
            let n = cs.len();
            Some((chars_string(&cs, p, n), op))
        },
        None => None,
    }
}

} // verus!
