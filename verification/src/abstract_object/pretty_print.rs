//! Rendering of payload values: a compact one-line form for lists, and an
//! indented multi-line form for the details view.
//!
//! Properties render in their sorted key order, so equal mappings render
//! alike.

use vstd::prelude::*;

use crate::abstract_object::{AbstractObject, AbstractValue, PropMap};
use crate::text::{i64_string, push_str, spec_i64_chars};

verus! {

// ---------------------------------------------------------------------
// The compact one-line form.
// ---------------------------------------------------------------------

/// The one-line rendering of a value.
pub open spec fn spec_render_value(v: &AbstractValue) -> Seq<char>
    decreases v,
{
    match v {
        AbstractValue::Number(n) => spec_i64_chars(*n as int),
        AbstractValue::Symbol(s) => s@,
        AbstractValue::Object(o) => spec_render_object(o),
        AbstractValue::MapValue(m) => seq!['{'] + spec_render_entries(m.entries@) + seq!['}'],
        AbstractValue::Collection(vs) => seq!['['] + spec_render_items(vs@) + seq![']'],
    }
}

/// The one-line rendering of an object: its name, then each property as
/// `key=value, ` inside parentheses.
pub open spec fn spec_render_object(o: &AbstractObject) -> Seq<char>
    decreases o,
{
    o.name@ + seq!['('] + spec_render_entries(o.props.entries@) + seq![')']
}

/// Each entry as `key=value, `, in order.
pub open spec fn spec_render_entries(s: Seq<(String, AbstractValue)>) -> Seq<char>
    decreases s,
{
    if s.len() == 0 {
        Seq::empty()
    } else {
        spec_render_entries(s.drop_last()) + s[s.len() - 1].0@ + seq!['='] + spec_render_value(
            &s[s.len() - 1].1,
        ) + seq![',', ' ']
    }
}

/// Each item as `value, `, in order.
pub open spec fn spec_render_items(s: Seq<AbstractValue>) -> Seq<char>
    decreases s,
{
    if s.len() == 0 {
        Seq::empty()
    } else {
        spec_render_items(s.drop_last()) + spec_render_value(&s[s.len() - 1]) + seq![',', ' ']
    }
}

impl AbstractValue {
    /// Renders this value on one line.
    pub fn render(&self) -> (r: String)
        ensures
            r@ == spec_render_value(self),
        decreases self,
    {
        match self {
            AbstractValue::Number(n) => i64_string(*n),
            AbstractValue::Symbol(s) => {
                let mut r = String::new();
                push_str(&mut r, s.as_str());
                proof {
                    assert(r@ =~= s@);
                }
                r
            },
            AbstractValue::Object(o) => o.render(),
            AbstractValue::MapValue(m) => {
                let mut r = String::new();
                push_str(&mut r, "{");
                render_entries_into(&mut r, m);
                push_str(&mut r, "}");
                proof {
                    reveal_strlit("{");
                    reveal_strlit("}");
                    assert(r@ =~= spec_render_value(self));
                }
                r
            },
            AbstractValue::Collection(vs) => {
                let mut r = String::new();
                push_str(&mut r, "[");
                proof {
                    reveal_strlit("[");
                    assert(r@ =~= seq!['['] + spec_render_items(vs@.subrange(0, 0)));
                }
                let n = vs.len();
                let mut i: usize = 0;
                while i < n
                    invariant
                        i <= n,
                        n == vs@.len(),
                        *self == AbstractValue::Collection(*vs),
                        r@ =~= seq!['['] + spec_render_items(vs@.subrange(0, i as int)),
                    decreases n - i,
                {
                    proof {
                        assert(decreases_to!(*self => (*self)->Collection_0));
                        assert((*self)->Collection_0 == *vs);
                        assert(decreases_to!(*vs => vs@));
                        assert(decreases_to!(vs@ => vs@[i as int]));
                    }
                    let item = vs[i].render();
                    push_str(&mut r, item.as_str());
                    push_str(&mut r, ", ");
                    proof {
                        reveal_strlit(", ");
                        let pre = vs@.subrange(0, i as int);
                        let post = vs@.subrange(0, i + 1);
                        assert(post.drop_last() =~= pre);
                        assert(post[post.len() - 1] == vs@[i as int]);
                        assert(r@ =~= seq!['['] + spec_render_items(post));
                    }
                    i = i + 1;
                }
                push_str(&mut r, "]");
                proof {
                    reveal_strlit("[");
                    reveal_strlit("]");
                    assert(vs@.subrange(0, n as int) =~= vs@);
                    assert(r@ =~= spec_render_value(self));
                }
                r
            },
        }
    }
}

impl AbstractObject {
    /// Renders this object on one line.
    pub fn render(&self) -> (r: String)
        ensures
            r@ == spec_render_object(self),
        decreases self,
    {
        let mut r = String::new();
        push_str(&mut r, self.name.as_str());
        push_str(&mut r, "(");
        render_entries_into(&mut r, &self.props);
        push_str(&mut r, ")");
        proof {
            reveal_strlit("(");
            reveal_strlit(")");
            assert(r@ =~= spec_render_object(self));
        }
        r
    }
}

/// Appends each `key=value, ` of `m` to `out`.
fn render_entries_into(out: &mut String, m: &PropMap)
    ensures
        final(out)@ == old(out)@ + spec_render_entries(m.entries@),
    decreases m,
{
    let n = m.entries.len();
    let mut i: usize = 0;
    proof {
        assert(old(out)@ + spec_render_entries(m.entries@.subrange(0, 0)) =~= old(out)@);
    }
    while i < n
        invariant
            i <= n,
            n == m.entries@.len(),
            out@ =~= old(out)@ + spec_render_entries(m.entries@.subrange(0, i as int)),
        decreases n - i,
    {
        push_str(out, m.entries[i].0.as_str());
        push_str(out, "=");
        proof {
            assert(decreases_to!(*m => m.entries));
            assert(decreases_to!(m.entries => m.entries@));
            assert(decreases_to!(m.entries@ => m.entries@[i as int]));
        }
        let val = m.entries[i].1.render();
        push_str(out, val.as_str());
        push_str(out, ", ");
        proof {
            reveal_strlit("=");
            reveal_strlit(", ");
            let pre = m.entries@.subrange(0, i as int);
            let post = m.entries@.subrange(0, i + 1);
            assert(post.drop_last() =~= pre);
            assert(post[post.len() - 1] == m.entries@[i as int]);
            assert(out@ =~= old(out)@ + spec_render_entries(post));
        }
        i = i + 1;
    }
    proof {
        assert(m.entries@.subrange(0, n as int) =~= m.entries@);
    }
}

// ---------------------------------------------------------------------
// The indented multi-line form.
// ---------------------------------------------------------------------

/// `n` levels of two-space indentation.
pub open spec fn spec_indent(n: int) -> Seq<char>
    decreases n,
{
    if n <= 0 {
        Seq::empty()
    } else {
        spec_indent(n - 1) + seq![' ', ' ']
    }
}

/// The next indent level; saturates rather than wrapping.
pub open spec fn spec_next_indent(n: usize) -> usize {
    if n < usize::MAX {
        (n + 1) as usize
    } else {
        n
    }
}

/// The multi-line rendering of an object: the name and `(`, one `key =
/// value` line per property, and a closing `)` on the base indent.
pub open spec fn spec_pp_object(o: &AbstractObject, indent: usize, indent_start: bool) -> Seq<
    char,
>
    decreases o, 1int,
{
    (if indent_start {
        spec_indent(indent as int)
    } else {
        Seq::empty()
    }) + o.name@ + seq!['(', '\n'] + spec_pp_entries(o.props.entries@, indent) + spec_indent(
        indent as int,
    ) + seq![')']
}

/// One `key = value` line per entry, at one more indent level.
pub open spec fn spec_pp_entries(s: Seq<(String, AbstractValue)>, indent: usize) -> Seq<char>
    decreases s, 2int,
{
    if s.len() == 0 {
        Seq::empty()
    } else {
        spec_pp_entries(s.drop_last(), indent) + spec_indent(spec_next_indent(indent) as int)
            + s[s.len() - 1].0@ + seq![' ', '=', ' '] + spec_pp_value(&s[s.len() - 1].1, indent)
            + seq!['\n']
    }
}

/// A property's value: nested objects render multi-line at one more
/// level, anything else in its one-line form.
pub open spec fn spec_pp_value(v: &AbstractValue, indent: usize) -> Seq<char>
    decreases v, 3int,
{
    match v {
        AbstractValue::Object(o) => spec_pp_object(o, spec_next_indent(indent), false),
        _ => spec_render_value(v),
    }
}

/// Renders an object over several lines, two spaces of indentation per
/// level.
#[derive(Debug)]
pub struct AbstractObjectPrettyPrinter<'a> {
    pub obj: &'a AbstractObject,
    pub indent_level: usize,
    pub should_indent_start: bool,
}

impl<'a> AbstractObjectPrettyPrinter<'a> {
    /// A printer at the left margin that indents its first line.
    pub fn new(object: &'a AbstractObject) -> (r: Self)
        ensures
            r.obj == object,
            r.indent_level == 0,
            r.should_indent_start,
    {
        AbstractObjectPrettyPrinter { obj: object, indent_level: 0, should_indent_start: true }
    }

    /// The same printer, at the given indent level.
    pub fn with_indent(self, indent: usize) -> (r: Self)
        ensures
            r.obj == self.obj,
            r.indent_level == indent,
            r.should_indent_start == self.should_indent_start,
    {
        AbstractObjectPrettyPrinter { indent_level: indent, ..self }
    }

    /// The same printer, choosing whether the first line is indented.
    pub fn with_should_indent_start(self, status: bool) -> (r: Self)
        ensures
            r.obj == self.obj,
            r.indent_level == self.indent_level,
            r.should_indent_start == status,
    {
        AbstractObjectPrettyPrinter { should_indent_start: status, ..self }
    }

    /// The indentation of this printer's own level.
    pub fn compute_base_indent_str(&self) -> (r: String)
        ensures
            r@ == spec_indent(self.indent_level as int),
    {
        indent_string(self.indent_level)
    }

    /// The indentation of this printer's property lines.
    pub fn compute_prop_indent_str(&self) -> (r: String)
        ensures
            r@ == spec_indent(spec_next_indent(self.indent_level) as int),
    {
        indent_string(next_indent(self.indent_level))
    }

    /// The rendered text.
    pub fn render(&self) -> (r: String)
        ensures
            r@ == spec_pp_object(self.obj, self.indent_level, self.should_indent_start),
    {
        pp_object(self.obj, self.indent_level, self.should_indent_start)
    }
}

/// The next indent level, saturating.
fn next_indent(n: usize) -> (r: usize)
    ensures
        r == spec_next_indent(n),
{
    if n < usize::MAX {
        n + 1
    } else {
        n
    }
}

/// Builds `n` levels of two-space indentation.
fn indent_string(n: usize) -> (r: String)
    ensures
        r@ == spec_indent(n as int),
{
    let mut r = String::new();
    let mut i: usize = 0;
    while i < n
        invariant
            i <= n,
            r@ =~= spec_indent(i as int),
        decreases n - i,
    {
        push_str(&mut r, "  ");
        proof {
            reveal_strlit("  ");
            assert(r@ =~= spec_indent(i + 1));
        }
        i = i + 1;
    }
    r
}

/// Renders one object per [`spec_pp_object`].
fn pp_object(o: &AbstractObject, indent: usize, indent_start: bool) -> (r: String)
    ensures
        r@ == spec_pp_object(o, indent, indent_start),
    decreases o, 1int,
{
    let mut r = String::new();
    if indent_start {
        let ind = indent_string(indent);
        push_str(&mut r, ind.as_str());
    }
    push_str(&mut r, o.name.as_str());
    push_str(&mut r, "(\n");
    let n = o.props.entries.len();
    let mut i: usize = 0;
    let ghost base = r@;
    proof {
        assert(base + spec_pp_entries(o.props.entries@.subrange(0, 0), indent) =~= base);
    }
    while i < n
        invariant
            i <= n,
            n == o.props.entries@.len(),
            r@ =~= base + spec_pp_entries(o.props.entries@.subrange(0, i as int), indent),
        decreases n - i, 0int,
    {
        let ind = indent_string(next_indent(indent));
        push_str(&mut r, ind.as_str());
        push_str(&mut r, o.props.entries[i].0.as_str());
        push_str(&mut r, " = ");
        proof {
            assert(decreases_to!(*o => o.props));
            assert(decreases_to!(o.props => o.props.entries));
            assert(decreases_to!(o.props.entries => o.props.entries@));
            assert(decreases_to!(o.props.entries@ => o.props.entries@[i as int]));
        }
        let val = pp_value(&o.props.entries[i].1, indent);
        push_str(&mut r, val.as_str());
        push_str(&mut r, "\n");
        proof {
            reveal_strlit(" = ");
            reveal_strlit("\n");
            let pre = o.props.entries@.subrange(0, i as int);
            let post = o.props.entries@.subrange(0, i + 1);
            assert(post.drop_last() =~= pre);
            assert(post[post.len() - 1] == o.props.entries@[i as int]);
            assert(r@ =~= base + spec_pp_entries(post, indent));
        }
        i = i + 1;
    }
    let ind = indent_string(indent);
    push_str(&mut r, ind.as_str());
    push_str(&mut r, ")");
    proof {
        reveal_strlit("(\n");
        reveal_strlit(")");
        assert(o.props.entries@.subrange(0, n as int) =~= o.props.entries@);
        assert(r@ =~= spec_pp_object(o, indent, indent_start));
    }
    r
}

/// Renders one property value per [`spec_pp_value`].
fn pp_value(v: &AbstractValue, indent: usize) -> (r: String)
    ensures
        r@ == spec_pp_value(v, indent),
    decreases v, 3int,
{
    match v {
        AbstractValue::Object(o) => pp_object(o, next_indent(indent), false),
        _ => v.render(),
    }
}

} // verus!
