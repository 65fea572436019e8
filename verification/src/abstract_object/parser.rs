//! Recursive-descent parser for the payload value literal.
//!
//! Grammar (each alternative is tried in the order written, and the first
//! that parses wins -- the order is load-bearing):
//!
//! ```text
//! Object     := Name '(' PropList ')'
//! PropList   := (Prop (',' space* Prop)*)?
//! Prop       := PropName '=' Value
//! PropName   := Name | alphanumeric-run
//! Value      := Object | Map | Collection | Number | Symbol
//! Map        := '{' PropList '}'
//! Collection := '[' (Value (',' space* Value)*)? ']'
//! Number     := integer literal immediately followed (lookahead) by , ) ]
//! Symbol     := maximal nonempty run of characters excluding , ) ]
//! Name       := (letter|'_') (letter|digit|'_'|'.')*
//! ```
//!
//! Trying `Object` before `Symbol` keeps a symbol from swallowing an
//! object's leading name; the terminator lookahead on `Number` keeps
//! tokens like `client5-5` or `7uocFqRu` from being misread as numbers.
//! The spec functions below are the grammar's meaning; each executable
//! parser returns exactly what its spec function says.

use vstd::prelude::*;

use crate::abstract_object::{AbstractObject, AbstractValue, ObjModel, PropMap, ValModel};
use crate::abstract_object::seq_deep_view;
use crate::text::{
    alnum_pred, alnum_char, chars_string, digit_pred, digit_char, is_name_start_char,
    name_char, name_char_pred, name_start_char, scan, space_char, space_pred, str_chars,
    spec_parse_i64, parse_i64_range, lemma_scan_bounds,
};

verus! {

broadcast use lemma_scan_bounds;

// ---------------------------------------------------------------------
// The grammar's meaning, as spec functions over character sequences.
// Each returns the parsed model and the position just past what it
// consumed, or `None` when its production does not match at `pos`.
// ---------------------------------------------------------------------

/// Binds a pair list onto `m0`, left to right: a later pair with the same
/// key overwrites an earlier one.
pub open spec fn pairs_map(
    m0: Map<Seq<char>, ValModel>,
    ps: Seq<(Seq<char>, ValModel)>,
) -> Map<Seq<char>, ValModel>
    decreases ps.len(),
{
    if ps.len() == 0 {
        m0
    } else {
        pairs_map(m0.insert(ps[0].0, ps[0].1), ps.skip(1))
    }
}

/// `Name`: a name-start character followed by the maximal run of name
/// characters.
pub open spec fn spec_parse_name(s: Seq<char>, pos: int) -> Option<(Seq<char>, int)> {
    if 0 <= pos < s.len() && is_name_start_char(s[pos]) {
        let e = scan(s, pos + 1, name_char_pred());
        Some((s.subrange(pos, e), e))
    } else {
        None
    }
}

/// `PropName`: a `Name`, or failing that a nonempty alphanumeric run.
pub open spec fn spec_parse_prop_name(s: Seq<char>, pos: int) -> Option<(Seq<char>, int)> {
    match spec_parse_name(s, pos) {
        Some(r) => Some(r),
        None => {
            if 0 <= pos <= s.len() {
                let e = scan(s, pos, alnum_pred());
                if e == pos {
                    None
                } else {
                    Some((s.subrange(pos, e), e))
                }
            } else {
                None
            }
        },
    }
}

/// The separator between list items: a comma, then any spaces and tabs.
pub open spec fn spec_parse_sep(s: Seq<char>, pos: int) -> Option<int> {
    if 0 <= pos < s.len() && s[pos] == ',' {
        Some(scan(s, pos + 1, space_pred()))
    } else {
        None
    }
}

/// `Number` with its terminator lookahead: a signed integer literal in
/// 64-bit range whose next character is one of `,` `)` `]`.
pub open spec fn spec_parse_number(s: Seq<char>, pos: int) -> Option<(int, int)> {
    if 0 <= pos <= s.len() {
        let e0 = if pos < s.len() && (s[pos] == '+' || s[pos] == '-') {
            pos + 1
        } else {
            pos
        };
        let e = scan(s, e0, digit_pred());
        if e == e0 {
            None
        } else {
            match spec_parse_i64(s.subrange(pos, e)) {
                None => None,
                Some(v) => {
                    if e < s.len() && (s[e] == ',' || s[e] == ')' || s[e] == ']') {
                        Some((v, e))
                    } else {
                        None
                    }
                },
            }
        }
    } else {
        None
    }
}

/// `Symbol`: the maximal nonempty run of characters other than `,` `)`
/// `]`.
pub open spec fn spec_parse_symbol(s: Seq<char>, pos: int) -> Option<(Seq<char>, int)> {
    if 0 <= pos <= s.len() {
        let e = scan(s, pos, crate::text::symbol_char_pred());
        if e == pos {
            None
        } else {
            Some((s.subrange(pos, e), e))
        }
    } else {
        None
    }
}

/// `Object`: a name, then a parenthesised property list.
pub open spec fn spec_parse_object(s: Seq<char>, pos: int) -> Option<(ObjModel, int)>
    decreases s.len() - pos, 0int,
{
    match spec_parse_name(s, pos) {
        None => None,
        Some((nm, p)) => {
            if p < s.len() && s[p] == '(' {
                let (ps, q) = spec_parse_props(s, p + 1);
                if q < s.len() && s[q] == ')' {
                    Some((ObjModel { name: nm, props: pairs_map(Map::empty(), ps) }, q + 1))
                } else {
                    None
                }
            } else {
                None
            }
        },
    }
}

/// `PropList`: properties separated by `',' space*`.  An empty list is
/// itself a parse; a separator not followed by a property is left
/// unconsumed.
pub open spec fn spec_parse_props(s: Seq<char>, pos: int) -> (Seq<(Seq<char>, ValModel)>, int)
    decreases s.len() - pos, 2int,
{
    match spec_parse_prop(s, pos) {
        None => (Seq::empty(), pos),
        Some((kv, p)) => {
            if p <= pos || p > s.len() {
                (seq![kv], p)
            } else {
                match spec_parse_sep(s, p) {
                    None => (seq![kv], p),
                    Some(p1) => match spec_parse_prop(s, p1) {
                        None => (seq![kv], p),
                        Some(_) => {
                            let (rest, q) = spec_parse_props(s, p1);
                            (seq![kv] + rest, q)
                        },
                    },
                }
            }
        },
    }
}

/// `Prop`: a property name, `'='`, and a value.
pub open spec fn spec_parse_prop(s: Seq<char>, pos: int) -> Option<((Seq<char>, ValModel), int)>
    decreases s.len() - pos, 1int,
{
    match spec_parse_prop_name(s, pos) {
        None => None,
        Some((nm, p)) => {
            if p < s.len() && s[p] == '=' && pos < p {
                match spec_parse_value(s, p + 1) {
                    None => None,
                    Some((v, q)) => Some(((nm, v), q)),
                }
            } else {
                None
            }
        },
    }
}

/// `Map`: a braced property list.
pub open spec fn spec_parse_map(s: Seq<char>, pos: int) -> Option<(Map<Seq<char>, ValModel>, int)>
    decreases s.len() - pos, 0int,
{
    if 0 <= pos < s.len() && s[pos] == '{' {
        let (ps, q) = spec_parse_props(s, pos + 1);
        if q < s.len() && s[q] == '}' {
            Some((pairs_map(Map::empty(), ps), q + 1))
        } else {
            None
        }
    } else {
        None
    }
}

/// `Collection`: bracketed values separated by `',' space*`.
pub open spec fn spec_parse_collection(s: Seq<char>, pos: int) -> Option<(Seq<ValModel>, int)>
    decreases s.len() - pos, 0int,
{
    if 0 <= pos < s.len() && s[pos] == '[' {
        let (vs, q) = spec_parse_items(s, pos + 1);
        if q < s.len() && s[q] == ']' {
            Some((vs, q + 1))
        } else {
            None
        }
    } else {
        None
    }
}

/// The items of a `Collection`, with the same separator handling as a
/// property list.
pub open spec fn spec_parse_items(s: Seq<char>, pos: int) -> (Seq<ValModel>, int)
    decreases s.len() - pos, 4int,
{
    match spec_parse_value(s, pos) {
        None => (Seq::empty(), pos),
        Some((v, p)) => {
            if p <= pos || p > s.len() {
                (seq![v], p)
            } else {
                match spec_parse_sep(s, p) {
                    None => (seq![v], p),
                    Some(p1) => match spec_parse_value(s, p1) {
                        None => (seq![v], p),
                        Some(_) => {
                            let (rest, q) = spec_parse_items(s, p1);
                            (seq![v] + rest, q)
                        },
                    },
                }
            }
        },
    }
}

/// `Value`: the first of Object, Map, Collection, Number, Symbol that
/// parses.
pub open spec fn spec_parse_value(s: Seq<char>, pos: int) -> Option<(ValModel, int)>
    decreases s.len() - pos, 3int,
{
    match spec_parse_object(s, pos) {
        Some((o, p)) => Some((ValModel::Object(o), p)),
        None => match spec_parse_map(s, pos) {
            Some((m, p)) => Some((ValModel::MapV(m), p)),
            None => match spec_parse_collection(s, pos) {
                Some((vs, p)) => Some((ValModel::Collection(vs), p)),
                None => match spec_parse_number(s, pos) {
                    Some((n, p)) => Some((ValModel::Number(n), p)),
                    None => match spec_parse_symbol(s, pos) {
                        Some((sym, p)) => Some((ValModel::Symbol(sym), p)),
                        None => None,
                    },
                },
            },
        },
    }
}

/// Parsing is a function of the text alone: independent parses of
/// identical payload text denote the same value tree.  Since
/// [`parse_abstract_object`] returns exactly what [`spec_parse_object`]
/// denotes, two calls on equal strings build structurally equal objects.
pub proof fn lemma_parse_deterministic(s1: Seq<char>, s2: Seq<char>)
    requires
        s1 == s2,
    ensures
        spec_parse_object(s1, 0) == spec_parse_object(s2, 0),
        spec_parse_value(s1, 0) == spec_parse_value(s2, 0),
{
}

// ---------------------------------------------------------------------
// Executable scanners: one per character class.
// ---------------------------------------------------------------------

fn scan_name_run(cs: &Vec<char>, pos: usize) -> (e: usize)
    requires
        pos <= cs@.len(),
    ensures
        e == scan(cs@, pos as int, name_char_pred()),
        pos <= e <= cs@.len(),
{
    let n = cs.len();
    let mut e = pos;
    while e < n && name_char(cs[e])
        invariant
            pos <= e <= n,
            n == cs@.len(),
            scan(cs@, pos as int, name_char_pred()) == scan(cs@, e as int, name_char_pred()),
        decreases n - e,
    {
        e = e + 1;
    }
    e
}

fn scan_alnum_run(cs: &Vec<char>, pos: usize) -> (e: usize)
    requires
        pos <= cs@.len(),
    ensures
        e == scan(cs@, pos as int, alnum_pred()),
        pos <= e <= cs@.len(),
{
    let n = cs.len();
    let mut e = pos;
    while e < n && alnum_char(cs[e])
        invariant
            pos <= e <= n,
            n == cs@.len(),
            scan(cs@, pos as int, alnum_pred()) == scan(cs@, e as int, alnum_pred()),
        decreases n - e,
    {
        e = e + 1;
    }
    e
}

fn scan_digit_run(cs: &Vec<char>, pos: usize) -> (e: usize)
    requires
        pos <= cs@.len(),
    ensures
        e == scan(cs@, pos as int, digit_pred()),
        pos <= e <= cs@.len(),
{
    let n = cs.len();
    let mut e = pos;
    while e < n && digit_char(cs[e])
        invariant
            pos <= e <= n,
            n == cs@.len(),
            scan(cs@, pos as int, digit_pred()) == scan(cs@, e as int, digit_pred()),
        decreases n - e,
    {
        e = e + 1;
    }
    e
}

fn scan_space_run(cs: &Vec<char>, pos: usize) -> (e: usize)
    requires
        pos <= cs@.len(),
    ensures
        e == scan(cs@, pos as int, space_pred()),
        pos <= e <= cs@.len(),
{
    let n = cs.len();
    let mut e = pos;
    while e < n && space_char(cs[e])
        invariant
            pos <= e <= n,
            n == cs@.len(),
            scan(cs@, pos as int, space_pred()) == scan(cs@, e as int, space_pred()),
        decreases n - e,
    {
        e = e + 1;
    }
    e
}

fn scan_symbol_run(cs: &Vec<char>, pos: usize) -> (e: usize)
    requires
        pos <= cs@.len(),
    ensures
        e == scan(cs@, pos as int, crate::text::symbol_char_pred()),
        pos <= e <= cs@.len(),
{
    let n = cs.len();
    let mut e = pos;
    while e < n && cs[e] != ',' && cs[e] != ')' && cs[e] != ']'
        invariant
            pos <= e <= n,
            n == cs@.len(),
            scan(cs@, pos as int, crate::text::symbol_char_pred()) == scan(
                cs@,
                e as int,
                crate::text::symbol_char_pred(),
            ),
        decreases n - e,
    {
        e = e + 1;
    }
    e
}

// ---------------------------------------------------------------------
// Executable parsers.  Each returns exactly what its spec function says
// of the same input, along with well-formedness of what it built and
// progress of the position.
// ---------------------------------------------------------------------

pub(crate) fn p_name(cs: &Vec<char>, pos: usize) -> (r: Option<(String, usize)>)
    requires
        pos <= cs@.len(),
    ensures
        ({
            let m = spec_parse_name(cs@, pos as int);
            match (r, m) {
                (Some((nm, p)), Some((nms, ps))) => nm@ == nms && p == ps && pos < p <= cs@.len(),
                (None, None) => true,
                _ => false,
            }
        }),
{
    if pos < cs.len() && name_start_char(cs[pos]) {
        let e = scan_name_run(cs, pos + 1);
        Some((chars_string(cs, pos, e), e))
    } else {
        None
    }
}

fn p_prop_name(cs: &Vec<char>, pos: usize) -> (r: Option<(String, usize)>)
    requires
        pos <= cs@.len(),
    ensures
        ({
            let m = spec_parse_prop_name(cs@, pos as int);
            match (r, m) {
                (Some((nm, p)), Some((nms, ps))) => nm@ == nms && p == ps && pos < p <= cs@.len(),
                (None, None) => true,
                _ => false,
            }
        }),
{
    match p_name(cs, pos) {
        Some(r) => Some(r),
        None => {
            let e = scan_alnum_run(cs, pos);
            if e == pos {
                None
            } else {
                Some((chars_string(cs, pos, e), e))
            }
        },
    }
}

pub(crate) fn p_sep(cs: &Vec<char>, pos: usize) -> (r: Option<usize>)
    requires
        pos <= cs@.len(),
    ensures
        ({
            let m = spec_parse_sep(cs@, pos as int);
            match (r, m) {
                (Some(p), Some(ps)) => p == ps && pos < p <= cs@.len(),
                (None, None) => true,
                _ => false,
            }
        }),
{
    if pos < cs.len() && cs[pos] == ',' {
        Some(scan_space_run(cs, pos + 1))
    } else {
        None
    }
}

fn p_number(cs: &Vec<char>, pos: usize) -> (r: Option<(i64, usize)>)
    requires
        pos <= cs@.len(),
    ensures
        ({
            let m = spec_parse_number(cs@, pos as int);
            match (r, m) {
                (Some((v, p)), Some((vs, ps))) => v == vs && p == ps && pos < p <= cs@.len(),
                (None, None) => true,
                _ => false,
            }
        }),
{
    let e0 = if pos < cs.len() && (cs[pos] == '+' || cs[pos] == '-') {
        pos + 1
    } else {
        pos
    };
    let e = scan_digit_run(cs, e0);
    if e == e0 {
        return None;
    }
    match parse_i64_range(cs, pos, e) {
        None => None,
        Some(v) => {
            if e < cs.len() && (cs[e] == ',' || cs[e] == ')' || cs[e] == ']') {
                Some((v, e))
            } else {
                None
            }
        },
    }
}

fn p_symbol(cs: &Vec<char>, pos: usize) -> (r: Option<(String, usize)>)
    requires
        pos <= cs@.len(),
    ensures
        ({
            let m = spec_parse_symbol(cs@, pos as int);
            match (r, m) {
                (Some((sym, p)), Some((syms, ps))) => sym@ == syms && p == ps && pos < p
                    <= cs@.len(),
                (None, None) => true,
                _ => false,
            }
        }),
{
    let e = scan_symbol_run(cs, pos);
    if e == pos {
        None
    } else {
        Some((chars_string(cs, pos, e), e))
    }
}

/// Binding one more pair onto `m0` first binds it, then the rest.
proof fn lemma_pairs_map_cons(
    m0: Map<Seq<char>, ValModel>,
    kv: (Seq<char>, ValModel),
    rest: Seq<(Seq<char>, ValModel)>,
)
    ensures
        pairs_map(m0, seq![kv]) == m0.insert(kv.0, kv.1),
        pairs_map(m0, seq![kv] + rest) == pairs_map(m0.insert(kv.0, kv.1), rest),
{
    assert(seq![kv][0] == kv);
    assert(seq![kv].skip(1) =~= Seq::<(Seq<char>, ValModel)>::empty());
    assert(pairs_map(m0.insert(kv.0, kv.1), Seq::empty()) == m0.insert(kv.0, kv.1));
    assert((seq![kv] + rest)[0] == kv);
    assert((seq![kv] + rest).skip(1) =~= rest);
}

/// Binding pairs over `m0` is binding them over nothing, then letting
/// the pairs win where both bind a key.
proof fn lemma_pairs_map_prefer(m0: Map<Seq<char>, ValModel>, ps: Seq<(Seq<char>, ValModel)>)
    ensures
        pairs_map(m0, ps) == m0.union_prefer_right(pairs_map(Map::empty(), ps)),
    decreases ps.len(),
{
    if ps.len() == 0 {
        assert(pairs_map(m0, ps) =~= m0.union_prefer_right(pairs_map(Map::empty(), ps)));
    } else {
        let h = ps[0];
        let t = ps.skip(1);
        lemma_pairs_map_prefer(m0.insert(h.0, h.1), t);
        lemma_pairs_map_prefer(Map::<Seq<char>, ValModel>::empty().insert(h.0, h.1), t);
        assert(m0.insert(h.0, h.1).union_prefer_right(pairs_map(Map::empty(), t))
            =~= m0.union_prefer_right(
            Map::<Seq<char>, ValModel>::empty().insert(h.0, h.1).union_prefer_right(
                pairs_map(Map::empty(), t),
            ),
        ));
    }
}

pub(crate) fn p_object(cs: &Vec<char>, pos: usize) -> (r: Option<(AbstractObject, usize)>)
    requires
        pos <= cs@.len(),
    ensures
        ({
            let m = spec_parse_object(cs@, pos as int);
            match (r, m) {
                (Some((o, p)), Some((om, ps))) => o@ == om && o.wf() && p == ps && pos < p
                    <= cs@.len(),
                (None, None) => true,
                _ => false,
            }
        }),
    decreases cs@.len() - pos, 0int,
{
    match p_name(cs, pos) {
        None => None,
        Some((nm, p)) => {
            if p < cs.len() && cs[p] == '(' {
                let (pm, q, _) = p_props(cs, p + 1);
                if q < cs.len() && cs[q] == ')' {
                    Some((AbstractObject::new_complete(nm, pm), q + 1))
                } else {
                    None
                }
            } else {
                None
            }
        },
    }
}

fn p_prop(cs: &Vec<char>, pos: usize) -> (r: Option<((String, AbstractValue), usize)>)
    requires
        pos <= cs@.len(),
    ensures
        ({
            let m = spec_parse_prop(cs@, pos as int);
            match (r, m) {
                (Some(((k, v), p)), Some(((ks, vs), ps))) => k@ == ks && v@ == vs && v.wf() && p
                    == ps && pos < p <= cs@.len(),
                (None, None) => true,
                _ => false,
            }
        }),
    decreases cs@.len() - pos, 1int,
{
    match p_prop_name(cs, pos) {
        None => None,
        Some((nm, p)) => {
            if p < cs.len() && cs[p] == '=' {
                match p_value(cs, p + 1) {
                    None => None,
                    Some((v, q)) => Some(((nm, v), q)),
                }
            } else {
                None
            }
        },
    }
}

fn p_props(cs: &Vec<char>, pos: usize) -> (r: (PropMap, usize, bool))
    requires
        pos <= cs@.len(),
    ensures
        ({
            let (ps, q) = spec_parse_props(cs@, pos as int);
            r.0@ == pairs_map(Map::empty(), ps) && r.0.wf() && r.1 == q && pos <= q <= cs@.len()
                && r.2 == (spec_parse_prop(cs@, pos as int) is Some)
        }),
    decreases cs@.len() - pos, 2int,
{
    match p_prop(cs, pos) {
        None => (PropMap::new(), pos, false),
        Some(((k, v), p)) => {
            let ghost kv = (k@, v@);
            match p_sep(cs, p) {
                None => {
                    let mut pm = PropMap::new();
                    proof {
                        lemma_pairs_map_cons(Map::empty(), kv, Seq::empty());
                    }
                    pm.insert(k, v);
                    (pm, p, true)
                },
                Some(p1) => {
                    let (rest_pm, q, parsed) = p_props(cs, p1);
                    if parsed {
                        let ghost (rest_ps, _qq) = spec_parse_props(cs@, p1 as int);
                        proof {
                            lemma_pairs_map_cons(Map::empty(), kv, rest_ps);
                            lemma_pairs_map_prefer(
                                Map::<Seq<char>, ValModel>::empty().insert(kv.0, kv.1),
                                rest_ps,
                            );
                        }
                        let mut pm = rest_pm;
                        if !pm.contains_key(k.as_str()) {
                            pm.insert(k, v);
                        }
                        proof {
                            assert(pm@ =~= pairs_map(
                                Map::<Seq<char>, ValModel>::empty().insert(kv.0, kv.1),
                                rest_ps,
                            ));
                        }
                        (pm, q, true)
                    } else {
                        let mut pm = PropMap::new();
                        proof {
                            lemma_pairs_map_cons(Map::empty(), kv, Seq::empty());
                        }
                        pm.insert(k, v);
                        (pm, p, true)
                    }
                },
            }
        },
    }
}

fn p_map(cs: &Vec<char>, pos: usize) -> (r: Option<(PropMap, usize)>)
    requires
        pos <= cs@.len(),
    ensures
        ({
            let m = spec_parse_map(cs@, pos as int);
            match (r, m) {
                (Some((pm, p)), Some((ms, ps))) => pm@ == ms && pm.wf() && p == ps && pos < p
                    <= cs@.len(),
                (None, None) => true,
                _ => false,
            }
        }),
    decreases cs@.len() - pos, 0int,
{
    if pos < cs.len() && cs[pos] == '{' {
        let (pm, q, _) = p_props(cs, pos + 1);
        if q < cs.len() && cs[q] == '}' {
            Some((pm, q + 1))
        } else {
            None
        }
    } else {
        None
    }
}

fn p_items(cs: &Vec<char>, pos: usize) -> (r: (Vec<AbstractValue>, usize, bool))
    requires
        pos <= cs@.len(),
    ensures
        ({
            let (vs, q) = spec_parse_items(cs@, pos as int);
            seq_deep_view(r.0@) == vs && r.1 == q && pos <= q <= cs@.len() && r.2
                == (spec_parse_value(cs@, pos as int) is Some) && forall|i: int|
                0 <= i < r.0@.len() ==> (#[trigger] r.0@[i]).wf()
        }),
    decreases cs@.len() - pos, 4int,
{
    match p_value(cs, pos) {
        None => {
            let r: Vec<AbstractValue> = Vec::new();
            proof {
                crate::abstract_object::lemma_seq_deep_view(r@);
                assert(seq_deep_view(r@) =~= Seq::<ValModel>::empty());
            }
            (r, pos, false)
        },
        Some((v, p)) => {
            let ghost vm = v@;
            match p_sep(cs, p) {
                None => {
                    let mut out: Vec<AbstractValue> = Vec::new();
                    out.push(v);
                    proof {
                        crate::abstract_object::lemma_seq_deep_view(out@);
                        assert(seq_deep_view(out@) =~= seq![vm]);
                    }
                    (out, p, true)
                },
                Some(p1) => {
                    let (rest, q, parsed) = p_items(cs, p1);
                    if parsed {
                        let mut out = rest;
                        out.insert(0, v);
                        proof {
                            let (vs_spec, _qq) = spec_parse_items(cs@, pos as int);
                            crate::abstract_object::lemma_seq_deep_view(out@);
                            crate::abstract_object::lemma_seq_deep_view(rest@);
                            assert(seq_deep_view(out@) =~= seq![vm] + seq_deep_view(rest@));
                        }
                        (out, q, true)
                    } else {
                        let mut out: Vec<AbstractValue> = Vec::new();
                        out.push(v);
                        proof {
                            crate::abstract_object::lemma_seq_deep_view(out@);
                            assert(seq_deep_view(out@) =~= seq![vm]);
                        }
                        (out, p, true)
                    }
                },
            }
        },
    }
}

fn p_value(cs: &Vec<char>, pos: usize) -> (r: Option<(AbstractValue, usize)>)
    requires
        pos <= cs@.len(),
    ensures
        ({
            let m = spec_parse_value(cs@, pos as int);
            match (r, m) {
                (Some((v, p)), Some((vs, ps))) => v@ == vs && v.wf() && p == ps && pos < p
                    <= cs@.len(),
                (None, None) => true,
                _ => false,
            }
        }),
    decreases cs@.len() - pos, 3int,
{
    match p_object(cs, pos) {
        Some((o, p)) => Some((AbstractValue::Object(o), p)),
        None => match p_map(cs, pos) {
            Some((m, p)) => Some((AbstractValue::MapValue(m), p)),
            None => match p_collection_items(cs, pos) {
                Some((vs, p)) => Some((AbstractValue::Collection(vs), p)),
                None => match p_number(cs, pos) {
                    Some((n, p)) => Some((AbstractValue::Number(n), p)),
                    None => match p_symbol(cs, pos) {
                        Some((sym, p)) => Some((AbstractValue::Symbol(sym), p)),
                        None => None,
                    },
                },
            },
        },
    }
}

fn p_collection_items(cs: &Vec<char>, pos: usize) -> (r: Option<(Vec<AbstractValue>, usize)>)
    requires
        pos <= cs@.len(),
    ensures
        ({
            let m = spec_parse_collection(cs@, pos as int);
            match (r, m) {
                (Some((vs, p)), Some((ms, ps))) => seq_deep_view(vs@) == ms && p == ps && pos < p
                    <= cs@.len() && forall|i: int|
                    0 <= i < vs@.len() ==> (#[trigger] vs@[i]).wf(),
                (None, None) => true,
                _ => false,
            }
        }),
    decreases cs@.len() - pos, 0int,
{
    if pos < cs.len() && cs[pos] == '[' {
        let (vs, q, _) = p_items(cs, pos + 1);
        if q < cs.len() && cs[q] == ']' {
            Some((vs, q + 1))
        } else {
            None
        }
    } else {
        None
    }
}

// ---------------------------------------------------------------------
// The public entry points, over string slices.  Each returns the
// unconsumed remainder alongside what it parsed.
// ---------------------------------------------------------------------

/// Parses a payload object at the head of `input`; returns the remainder
/// and the object.
pub fn parse_abstract_object(input: &str) -> (r: Option<(String, AbstractObject)>)
    ensures
        ({
            let m = spec_parse_object(input@, 0);
            match (r, m) {
                (Some((rem, obj)), Some((om, p))) => obj@ == om && obj.wf() && rem@
                    == input@.subrange(p, input@.len() as int),
                (None, None) => true,
                _ => false,
            }
        }),
{
    let cs = str_chars(input);
    match p_object(&cs, 0) {
        Some((o, p)) => {
            let n = cs.len();
            Some((chars_string(&cs, p, n), o))
        },
        None => None,
    }
}

/// Parses a single value at the head of `input`, as a property's value
/// position would.
pub fn parse_prop_value(input: &str) -> (r: Option<(String, AbstractValue)>)
    ensures
        ({
            let m = spec_parse_value(input@, 0);
            match (r, m) {
                (Some((rem, v)), Some((vm, p))) => v@ == vm && v.wf() && rem@ == input@.subrange(
                    p,
                    input@.len() as int,
                ),
                (None, None) => true,
                _ => false,
            }
        }),
{
    let cs = str_chars(input);
    match p_value(&cs, 0) {
        Some((v, p)) => {
            let n = cs.len();
            Some((chars_string(&cs, p, n), v))
        },
        None => None,
    }
}

/// Parses a bracketed collection at the head of `input`.
pub fn parse_collection(input: &str) -> (r: Option<(String, Vec<AbstractValue>)>)
    ensures
        ({
            let m = spec_parse_collection(input@, 0);
            match (r, m) {
                (Some((rem, vs)), Some((ms, p))) => seq_deep_view(vs@) == ms && rem@
                    == input@.subrange(p, input@.len() as int) && forall|i: int|
                    0 <= i < vs@.len() ==> (#[trigger] vs@[i]).wf(),
                (None, None) => true,
                _ => false,
            }
        }),
{
    let cs = str_chars(input);
    match p_collection_items(&cs, 0) {
        Some((vs, p)) => {
            let n = cs.len();
            Some((chars_string(&cs, p, n), vs))
        },
        None => None,
    }
}

} // verus!
