//! The value model: the recursive, dynamically shaped payload of a log line.
//!
//! A payload is a named record ([`AbstractObject`]) whose properties map
//! string keys to nested [`AbstractValue`]s.  Property maps are unordered:
//! their mathematical meaning is a [`Map`] from key to value, and both
//! structural equality and the canonical hash are independent of the order
//! in which properties were inserted.  The representation keeps entries
//! sorted by key, so that one representation stands for each mapping.


pub mod parser;
pub mod pretty_print;

use vstd::prelude::*;

use crate::text::{lex_lt, str_eq, str_lex_lt};

verus! {

/// Mathematical model of an [`AbstractValue`]: integers become `int`,
/// strings become `Seq<char>`, and property maps become `Map`s, which have
/// no insertion order.
#[verifier::ext_equal]
pub enum ValModel {
    Number(int),
    Symbol(Seq<char>),
    Object(ObjModel),
    MapV(Map<Seq<char>, ValModel>),
    Collection(Seq<ValModel>),
}

/// Mathematical model of an [`AbstractObject`].
#[verifier::ext_equal]
pub struct ObjModel {
    pub name: Seq<char>,
    pub props: Map<Seq<char>, ValModel>,
}

/// A parsed value: a tagged union over integers, free-form symbols, nested
/// objects, brace-delimited maps and bracket-delimited collections.
#[derive(Debug)]
pub enum AbstractValue {
    Number(i64),
    Symbol(String),
    Object(AbstractObject),
    MapValue(PropMap),
    Collection(Vec<AbstractValue>),
}

/// A named record with string-keyed properties; the payload unit of each
/// log line.
#[derive(Debug)]
pub struct AbstractObject {
    pub name: String,
    pub props: PropMap,
}

/// A string-keyed property mapping with no observable order.  Entries are
/// kept strictly sorted by key, so equal mappings have equal
/// representations; duplicate insertion overwrites.
#[derive(Debug)]
pub struct PropMap {
    pub entries: Vec<(String, AbstractValue)>,
}

/// The models of the elements of `s`, in order.
pub open spec fn seq_deep_view(s: Seq<AbstractValue>) -> Seq<ValModel>
    decreases s,
{
    Seq::new(
        s.len(),
        |i: int|
            if 0 <= i < s.len() {
                s[i].deep_view()
            } else {
                arbitrary()
            },
    )
}

/// True when `s` has an entry with key `k`.
pub open spec fn entries_have_key(s: Seq<(String, AbstractValue)>, k: Seq<char>) -> bool {
    exists|i: int| 0 <= i < s.len() && #[trigger] s[i].0@ == k
}

/// An index of the entry of `s` with key `k` (unique when keys are unique).
pub open spec fn entries_key_idx(s: Seq<(String, AbstractValue)>, k: Seq<char>) -> int {
    choose|i: int| 0 <= i < s.len() && #[trigger] s[i].0@ == k
}

/// What [`seq_deep_view`] holds at each index.
pub proof fn lemma_seq_deep_view(s: Seq<AbstractValue>)
    ensures
        seq_deep_view(s).len() == s.len(),
        forall|i: int| 0 <= i < s.len() ==> seq_deep_view(s)[i] == (#[trigger] s[i]).deep_view(),
{
}

impl DeepView for AbstractValue {
    type V = ValModel;

    /// The mathematical value this representation stands for.
    open spec fn deep_view(&self) -> ValModel
        decreases self,
    {
        match self {
            AbstractValue::Number(n) => ValModel::Number(*n as int),
            AbstractValue::Symbol(s) => ValModel::Symbol(s@),
            AbstractValue::Object(o) => ValModel::Object(o.deep_view()),
            AbstractValue::MapValue(m) => ValModel::MapV(m.deep_view()),
            AbstractValue::Collection(vs) => ValModel::Collection(seq_deep_view(vs@)),
        }
    }
}

impl DeepView for AbstractObject {
    type V = ObjModel;

    /// The mathematical value this representation stands for.
    open spec fn deep_view(&self) -> ObjModel
        decreases self,
    {
        ObjModel { name: self.name@, props: self.props.deep_view() }
    }
}

impl DeepView for PropMap {
    type V = Map<Seq<char>, ValModel>;

    /// The mapping this representation stands for.
    open spec fn deep_view(&self) -> Map<Seq<char>, ValModel>
        decreases self,
    {
        Map::new(
            |k: Seq<char>| entries_have_key(self.entries@, k),
            |k: Seq<char>|
                if entries_have_key(self.entries@, k) {
                    self.entries@[entries_key_idx(self.entries@, k)].1.deep_view()
                } else {
                    arbitrary()
                },
        )
    }
}

// ---------------------------------------------------------------------
// Well-formedness: every property mapping in a value keeps its entries
// strictly sorted by key, so that one representation stands for each
// mapping.
// ---------------------------------------------------------------------

/// Entries strictly sorted by key in lexicographic order (hence keys are
/// unique).
pub open spec fn entries_sorted(s: Seq<(String, AbstractValue)>) -> bool {
    forall|i: int, j: int|
        0 <= i < j < s.len() ==> lex_lt(#[trigger] s[i].0@, #[trigger] s[j].0@)
}

impl AbstractValue {
    /// Every property mapping inside this value is in its sorted form.
    pub open spec fn wf(&self) -> bool
        decreases self,
    {
        match self {
            AbstractValue::Number(_) => true,
            AbstractValue::Symbol(_) => true,
            AbstractValue::Object(o) => o.wf(),
            AbstractValue::MapValue(m) => m.wf(),
            AbstractValue::Collection(vs) => forall|i: int|
                0 <= i < vs@.len() ==> (#[trigger] vs@[i]).wf(),
        }
    }
}

impl AbstractObject {
    /// Every property mapping inside this object is in its sorted form.
    pub open spec fn wf(&self) -> bool
        decreases self,
    {
        self.props.wf()
    }
}

impl PropMap {
    /// The entries are strictly sorted by key and every nested value is
    /// well-formed.
    pub open spec fn wf(&self) -> bool
        decreases self,
    {
        entries_sorted(self.entries@) && forall|i: int|
            0 <= i < self.entries@.len() ==> (#[trigger] self.entries@[i]).1.wf()
    }
}

// ---------------------------------------------------------------------
// Facts about sorted entry sequences and the mapping they stand for.
// ---------------------------------------------------------------------

/// Strictly sorted entries have pairwise distinct keys.
pub proof fn lemma_sorted_keys_unique(s: Seq<(String, AbstractValue)>, i: int, j: int)
    requires
        entries_sorted(s),
        0 <= i < s.len(),
        0 <= j < s.len(),
        i != j,
    ensures
        s[i].0@ != s[j].0@,
{
    if i < j {
        crate::text::lemma_lex_trichotomy(s[i].0@, s[j].0@);
    } else {
        crate::text::lemma_lex_trichotomy(s[j].0@, s[i].0@);
    }
}

/// When keys are unique, the chosen index of a present key is the one
/// index holding it.
pub proof fn lemma_key_idx(s: Seq<(String, AbstractValue)>, k: Seq<char>, i: int)
    requires
        entries_sorted(s),
        0 <= i < s.len(),
        s[i].0@ == k,
    ensures
        entries_key_idx(s, k) == i,
        entries_have_key(s, k),
{
    assert(entries_have_key(s, k));
    let j = entries_key_idx(s, k);
    assert(0 <= j < s.len() && s[j].0@ == k);
    if i != j {
        lemma_sorted_keys_unique(s, i, j);
    }
}

impl View for AbstractValue {
    type V = ValModel;

    open spec fn view(&self) -> ValModel {
        self.deep_view()
    }
}

impl View for AbstractObject {
    type V = ObjModel;

    open spec fn view(&self) -> ObjModel {
        self.deep_view()
    }
}

impl View for PropMap {
    type V = Map<Seq<char>, ValModel>;

    open spec fn view(&self) -> Map<Seq<char>, ValModel> {
        self.deep_view()
    }
}

/// The mapping a plain entry sequence stands for.
pub open spec fn entries_map(s: Seq<(String, AbstractValue)>) -> Map<Seq<char>, ValModel> {
    Map::new(
        |k: Seq<char>| entries_have_key(s, k),
        |k: Seq<char>|
            if entries_have_key(s, k) {
                s[entries_key_idx(s, k)].1.deep_view()
            } else {
                arbitrary()
            },
    )
}

/// A property map means the mapping of its entry sequence.
pub proof fn lemma_propmap_view(m: &PropMap)
    ensures
        m.deep_view() == entries_map(m.entries@),
{
    assert(m.deep_view() =~= entries_map(m.entries@));
}

/// Inserting a pair at its sorted position keeps the entries sorted and
/// updates the mapping at exactly that key.
proof fn lemma_insert_entry(
    s: Seq<(String, AbstractValue)>,
    p: int,
    key: String,
    val: AbstractValue,
)
    requires
        entries_sorted(s),
        0 <= p <= s.len(),
        forall|i: int| 0 <= i < p ==> lex_lt((#[trigger] s[i]).0@, key@),
        forall|j: int| p <= j < s.len() ==> lex_lt(key@, (#[trigger] s[j]).0@),
    ensures
        entries_sorted(s.insert(p, (key, val))),
        entries_map(s.insert(p, (key, val))) == entries_map(s).insert(key@, val.deep_view()),
{
    let t = s.insert(p, (key, val));
    assert(t.len() == s.len() + 1);
    assert forall|i: int| 0 <= i < t.len() implies #[trigger] t[i] == (if i < p {
        s[i]
    } else if i == p {
        (key, val)
    } else {
        s[i - 1]
    }) by {}
    assert forall|i: int, j: int| 0 <= i < j < t.len() implies lex_lt(
        (#[trigger] t[i]).0@,
        (#[trigger] t[j]).0@,
    ) by {
        if i == p || j == p {
        } else if i < p && j > p {
            if p < s.len() {
                crate::text::lemma_lex_transitive(s[i].0@, key@, s[j - 1].0@);
            } else {
                // j - 1 < p would contradict i < j with j > p
                assert(p <= j - 1 < s.len());
                crate::text::lemma_lex_transitive(s[i].0@, key@, s[j - 1].0@);
            }
        }
    }
    assert(entries_sorted(t));
    assert forall|k: Seq<char>| true implies (entries_have_key(t, k) <==> (entries_have_key(s, k)
        || k == key@)) by {
        if entries_have_key(s, k) {
            let i = entries_key_idx(s, k);
            if i < p {
                assert(t[i].0@ == k);
            } else {
                assert(t[i + 1].0@ == k);
            }
        }
        if entries_have_key(t, k) && k != key@ {
            let i = entries_key_idx(t, k);
            if i < p {
                assert(s[i].0@ == k);
            } else {
                assert(i != p);
                assert(s[i - 1].0@ == k);
            }
        }
        if k == key@ {
            assert(t[p].0@ == k);
            assert(entries_have_key(t, k));
        }
    }
    assert(entries_map(t) =~= entries_map(s).insert(key@, val.deep_view())) by {
        assert forall|k: Seq<char>| entries_have_key(t, k) implies entries_map(t)[k]
            == entries_map(s).insert(key@, val.deep_view())[k] by {
            if k == key@ {
                lemma_key_idx(t, k, p);
                assert(entries_map(t)[k] == val.deep_view());
            } else {
                let i = entries_key_idx(s, k);
                assert(0 <= i < s.len() && s[i].0@ == k);
                if i < p {
                    lemma_key_idx(t, k, i);
                } else {
                    lemma_key_idx(t, k, i + 1);
                }
                lemma_key_idx(s, k, i);
            }
        }
    }
}

/// Overwriting the entry that holds a key keeps the entries sorted and
/// updates the mapping at exactly that key.
proof fn lemma_replace_entry(
    s: Seq<(String, AbstractValue)>,
    p: int,
    key: String,
    val: AbstractValue,
)
    requires
        entries_sorted(s),
        0 <= p < s.len(),
        s[p].0@ == key@,
    ensures
        entries_sorted(s.update(p, (key, val))),
        entries_map(s.update(p, (key, val))) == entries_map(s).insert(key@, val.deep_view()),
{
    let t = s.update(p, (key, val));
    assert(entries_sorted(t));
    assert forall|k: Seq<char>| true implies (entries_have_key(t, k) <==> entries_have_key(
        s,
        k,
    )) by {
        if entries_have_key(s, k) {
            let i = entries_key_idx(s, k);
            assert(t[i].0@ == k);
        }
        if entries_have_key(t, k) {
            let i = entries_key_idx(t, k);
            assert(s[i].0@ == k);
        }
    }
    assert(entries_map(t) =~= entries_map(s).insert(key@, val.deep_view())) by {
        assert forall|k: Seq<char>| entries_have_key(t, k) implies entries_map(t)[k]
            == entries_map(s).insert(key@, val.deep_view())[k] by {
            if k == key@ {
                lemma_key_idx(t, k, p);
            } else {
                let i = entries_key_idx(s, k);
                assert(0 <= i < s.len() && s[i].0@ == k);
                assert(i != p);
                lemma_key_idx(t, k, i);
                lemma_key_idx(s, k, i);
            }
        }
    }
}

// ---------------------------------------------------------------------
// Executable operations.
// ---------------------------------------------------------------------

impl PropMap {
    /// An empty mapping.
    pub fn new() -> (r: Self)
        ensures
            r@ == Map::<Seq<char>, ValModel>::empty(),
            r.wf(),
            r.entries@.len() == 0,
    {
        let r = PropMap { entries: Vec::new() };
        proof {
            assert(r@ =~= Map::<Seq<char>, ValModel>::empty());
        }
        r
    }

    /// How many properties the mapping holds.
    pub fn len(&self) -> (n: usize)
        ensures
            n == self.entries@.len(),
    {
        self.entries.len()
    }

    /// Looks a key up.
    pub fn get(&self, key: &str) -> (r: Option<&AbstractValue>)
        requires
            self.wf(),
        ensures
            match r {
                Some(v) => self@.dom().contains(key@) && v.deep_view() == self@[key@] && v.wf(),
                None => !self@.dom().contains(key@),
            },
    {
        let n = self.entries.len();
        let mut i: usize = 0;
        while i < n
            invariant
                self.wf(),
                i <= n,
                n == self.entries@.len(),
                forall|j: int| 0 <= j < i ==> (#[trigger] self.entries@[j]).0@ != key@,
            decreases n - i,
        {
            if str_eq(self.entries[i].0.as_str(), key) {
                proof {
                    lemma_key_idx(self.entries@, key@, i as int);
                }
                return Some(&self.entries[i].1);
            }
            i = i + 1;
        }
        proof {
            assert(!entries_have_key(self.entries@, key@));
        }
        None
    }

    /// Whether the mapping holds a key.
    pub fn contains_key(&self, key: &str) -> (r: bool)
        requires
            self.wf(),
        ensures
            r == self@.dom().contains(key@),
    {
        match self.get(key) {
            Some(_) => true,
            None => false,
        }
    }

    /// Binds `key` to `val`; a key already present is overwritten.
    pub fn insert(&mut self, key: String, val: AbstractValue)
        requires
            old(self).wf(),
            val.wf(),
        ensures
            final(self).wf(),
            final(self)@ == old(self)@.insert(key@, val.deep_view()),
    {
        proof {
            lemma_propmap_view(&*self);
        }
        let n = self.entries.len();
        let mut p: usize = 0;
        while p < n && str_lex_lt(self.entries[p].0.as_str(), key.as_str())
            invariant
                p <= n,
                n == self.entries@.len(),
                self.wf(),
                forall|i: int| 0 <= i < p ==> lex_lt((#[trigger] self.entries@[i]).0@, key@),
            decreases n - p,
        {
            p = p + 1;
        }
        let ghost s = self.entries@;
        if p < n && str_eq(self.entries[p].0.as_str(), key.as_str()) {
            self.entries.remove(p);
            self.entries.insert(p, (key, val));
            proof {
                assert(self.entries@ =~= s.update(p as int, (key, val)));
                lemma_replace_entry(s, p as int, key, val);
                lemma_propmap_view(&*self);
                assert forall|i: int|
                    0 <= i < self.entries@.len() implies (#[trigger] self.entries@[i]).1.wf() by {
                    if i != p {
                        assert(self.entries@[i] == s[i]);
                    }
                }
            }
        } else {
            proof {
                assert forall|j: int| p <= j < s.len() implies lex_lt(
                    key@,
                    (#[trigger] s[j]).0@,
                ) by {
                    if j == p {
                        crate::text::lemma_lex_trichotomy(s[p as int].0@, key@);
                    } else {
                        crate::text::lemma_lex_trichotomy(s[p as int].0@, key@);
                        crate::text::lemma_lex_transitive(key@, s[p as int].0@, s[j].0@);
                    }
                }
                lemma_insert_entry(s, p as int, key, val);
            }
            self.entries.insert(p, (key, val));
            proof {
                lemma_propmap_view(&*self);
                assert forall|i: int|
                    0 <= i < self.entries@.len() implies (#[trigger] self.entries@[i]).1.wf() by {
                    if i < p {
                        assert(self.entries@[i] == s[i]);
                    } else if i > p {
                        assert(self.entries@[i] == s[i - 1]);
                    }
                }
            }
        }
    }
}

impl AbstractObject {
    /// A named object with no properties yet.
    pub fn new(name: String) -> (r: Self)
        ensures
            r@.name == name@,
            r@.props == Map::<Seq<char>, ValModel>::empty(),
            r.wf(),
    {
        AbstractObject { name, props: PropMap::new() }
    }

    /// A named object over an already built property mapping.
    pub(crate) fn new_complete(name: String, props: PropMap) -> (r: Self)
        ensures
            r@.name == name@,
            r@.props == props@,
            props.wf() ==> r.wf(),
    {
        AbstractObject { name, props }
    }

    /// Builder form of [`Self::insert_prop`].
    pub fn with_prop(self, name: &str, val: AbstractValue) -> (r: Self)
        requires
            self.wf(),
            val.wf(),
        ensures
            r.wf(),
            r@.name == self@.name,
            r@.props == self@.props.insert(name@, val@),
    {
        let mut this = self;
        this.insert_prop(name, val);
        this
    }

    /// Binds a property; a name already present is overwritten.
    pub fn insert_prop(&mut self, name: &str, val: AbstractValue)
        requires
            old(self).wf(),
            val.wf(),
        ensures
            final(self).wf(),
            final(self)@.name == old(self)@.name,
            final(self)@.props == old(self)@.props.insert(name@, val@),
    {
        let key = name.to_owned();
        self.props.insert(key, val);
    }

    /// The object's name.
    pub fn name(&self) -> (r: &str)
        ensures
            r@ == self@.name,
    {
        self.name.as_str()
    }

    /// The object's properties.
    pub fn props(&self) -> (r: &PropMap)
        ensures
            r == &self.props,
            r@ == self@.props,
    {
        &self.props
    }
}

// ---------------------------------------------------------------------
// Loose comparison against raw query text.
// ---------------------------------------------------------------------

/// How a value compares against the raw text of a query literal: a number
/// by reading the text as an integer, a symbol by exact character
/// equality; a structured value has no such comparison (`None`, the type
/// mismatch).  A number compared against text that is no integer literal
/// is also a mismatch.
pub open spec fn spec_loose_eq(m: ValModel, s: Seq<char>) -> Option<bool> {
    match m {
        ValModel::Number(n) => match crate::text::spec_parse_i64(s) {
            Some(v) => Some(v == n),
            None => None,
        },
        ValModel::Symbol(t) => Some(t == s),
        _ => None,
    }
}

impl AbstractValue {
    /// Compares this value against raw query text, per [`spec_loose_eq`].
    pub fn try_eq_raw_str(&self, val: &str) -> (r: Option<bool>)
        ensures
            r == spec_loose_eq(self@, val@),
    {
        match self {
            AbstractValue::Number(n) => match crate::text::parse_i64_str(val) {
                Some(v) => Some(v == *n),
                None => None,
            },
            AbstractValue::Symbol(sym) => Some(str_eq(sym.as_str(), val)),
            _ => None,
        }
    }
}

// ---------------------------------------------------------------------
// Structural equality.  Two representations are `==` when they agree
// entry for entry; because entries are kept sorted, well-formed values
// are `==` exactly when their mathematical values are equal
// (`lemma_value_eq_is_model_eq`).
// ---------------------------------------------------------------------

/// Entry-for-entry equality of two values.
pub open spec fn value_rep_eq(a: &AbstractValue, b: &AbstractValue) -> bool
    decreases a,
{
    match (a, b) {
        (AbstractValue::Number(x), AbstractValue::Number(y)) => x == y,
        (AbstractValue::Symbol(x), AbstractValue::Symbol(y)) => x@ == y@,
        (AbstractValue::Object(x), AbstractValue::Object(y)) => x.name@ == y.name@
            && propmap_rep_eq(&x.props, &y.props),
        (AbstractValue::MapValue(x), AbstractValue::MapValue(y)) => propmap_rep_eq(x, y),
        (AbstractValue::Collection(x), AbstractValue::Collection(y)) => x@.len() == y@.len()
            && forall|i: int|
            0 <= i < x@.len() ==> value_rep_eq(&(#[trigger] x@[i]), &y@[i]),
        _ => false,
    }
}

/// Entry-for-entry equality of two property maps.
pub open spec fn propmap_rep_eq(a: &PropMap, b: &PropMap) -> bool
    decreases a,
{
    a.entries@.len() == b.entries@.len() && forall|i: int|
        0 <= i < a.entries@.len() ==> ((#[trigger] a.entries@[i]).0@ == b.entries@[i].0@
            && value_rep_eq(&a.entries@[i].1, &b.entries@[i].1))
}

/// Two strictly sorted entry sequences with the same keys list them in
/// the same positions.
proof fn lemma_sorted_same_keys(s: Seq<(String, AbstractValue)>, t: Seq<(String, AbstractValue)>)
    requires
        entries_sorted(s),
        entries_sorted(t),
        forall|k: Seq<char>| entries_have_key(s, k) <==> entries_have_key(t, k),
    ensures
        s.len() == t.len(),
        forall|i: int| 0 <= i < s.len() ==> (#[trigger] s[i]).0@ == t[i].0@,
    decreases s.len(),
{
    if s.len() == 0 {
        if t.len() > 0 {
            assert(entries_have_key(t, t[0].0@));
        }
    } else if t.len() == 0 {
        assert(entries_have_key(s, s[0].0@));
    } else {
        let ks = s[0].0@;
        let kt = t[0].0@;
        assert(entries_have_key(s, ks));
        assert(entries_have_key(t, kt));
        let j = entries_key_idx(t, ks);
        assert(0 <= j < t.len() && t[j].0@ == ks) by {
            assert(entries_have_key(t, ks));
        }
        let i = entries_key_idx(s, kt);
        assert(0 <= i < s.len() && s[i].0@ == kt) by {
            assert(entries_have_key(s, kt));
        }
        if j > 0 && i > 0 {
            assert(lex_lt(kt, ks));
            assert(lex_lt(ks, kt));
            crate::text::lemma_lex_trichotomy(ks, kt);
        }
        assert(ks == kt);
        let s1 = s.skip(1);
        let t1 = t.skip(1);
        assert forall|k: Seq<char>| entries_have_key(s1, k) implies entries_have_key(t1, k) by {
            let a = entries_key_idx(s1, k);
            assert(0 <= a < s1.len() && s1[a].0@ == k);
            assert(s[a + 1].0@ == k);
            assert(entries_have_key(s, k));
            let b = entries_key_idx(t, k);
            assert(0 <= b < t.len() && t[b].0@ == k);
            assert(k != ks) by {
                lemma_sorted_keys_unique(s, 0, a + 1);
            }
            assert(b != 0);
            assert(t1[b - 1].0@ == k);
        }
        assert forall|k: Seq<char>| entries_have_key(t1, k) implies entries_have_key(s1, k) by {
            let a = entries_key_idx(t1, k);
            assert(0 <= a < t1.len() && t1[a].0@ == k);
            assert(t[a + 1].0@ == k);
            assert(entries_have_key(t, k));
            let b = entries_key_idx(s, k);
            assert(0 <= b < s.len() && s[b].0@ == k);
            assert(k != kt) by {
                lemma_sorted_keys_unique(t, 0, a + 1);
            }
            assert(b != 0);
            assert(s1[b - 1].0@ == k);
        }
        assert(entries_sorted(s1));
        assert(entries_sorted(t1));
        lemma_sorted_same_keys(s1, t1);
        assert forall|i2: int| 0 <= i2 < s.len() implies (#[trigger] s[i2]).0@ == t[i2].0@ by {
            if i2 > 0 {
                assert(s1[i2 - 1].0@ == t1[i2 - 1].0@);
                assert(s[i2].0@ == s1[i2 - 1].0@);
                assert(t[i2].0@ == t1[i2 - 1].0@);
            }
        }
    }
}

/// For well-formed values, entry-for-entry equality and equality of the
/// mathematical values coincide: the sorted representation is canonical.
pub proof fn lemma_value_eq_is_model_eq(a: &AbstractValue, b: &AbstractValue)
    requires
        a.wf(),
        b.wf(),
    ensures
        value_rep_eq(a, b) <==> a@ == b@,
    decreases a,
{
    match (a, b) {
        (AbstractValue::Number(x), AbstractValue::Number(y)) => {},
        (AbstractValue::Symbol(x), AbstractValue::Symbol(y)) => {},
        (AbstractValue::Object(x), AbstractValue::Object(y)) => {
            assert(x.wf());
            assert(y.wf());
            lemma_propmap_eq_is_model_eq(&x.props, &y.props);
        },
        (AbstractValue::MapValue(x), AbstractValue::MapValue(y)) => {
            lemma_propmap_eq_is_model_eq(x, y);
            assert(a@ == ValModel::MapV(x.deep_view()));
            assert(b@ == ValModel::MapV(y.deep_view()));
        },
        (AbstractValue::Collection(x), AbstractValue::Collection(y)) => {
            let xm = seq_deep_view(x@);
            let ym = seq_deep_view(y@);
            lemma_seq_deep_view(x@);
            lemma_seq_deep_view(y@);
            assert(a@ == ValModel::Collection(xm));
            assert(b@ == ValModel::Collection(ym));
            assert(xm.len() == x@.len());
            assert(ym.len() == y@.len());
            assert(forall|i: int| 0 <= i < x@.len() ==> xm[i] == (#[trigger] x@[i])@);
            assert(forall|i: int| 0 <= i < y@.len() ==> ym[i] == (#[trigger] y@[i])@);
            if x@.len() == y@.len() {
                assert forall|i: int| 0 <= i < x@.len() implies (value_rep_eq(
                    &(#[trigger] x@[i]),
                    &y@[i],
                ) <==> x@[i]@ == y@[i]@) by {
                    lemma_value_eq_is_model_eq(&x@[i], &y@[i]);
                }
                if value_rep_eq(a, b) {
                    assert(xm =~= ym);
                    assert(a@ =~= b@);
                }
                if a@ == b@ {
                    assert forall|i: int| 0 <= i < x@.len() implies value_rep_eq(
                        &(#[trigger] x@[i]),
                        &y@[i],
                    ) by {
                        assert(xm[i] == ym[i]);
                    }
                }
            } else {
                assert(a@ != b@);
            }
        },
        _ => {
            assert(!value_rep_eq(a, b));
            assert(a@ != b@);
        },
    }
}

/// For well-formed property maps, entry-for-entry equality and equality
/// of the mappings coincide.
pub proof fn lemma_propmap_eq_is_model_eq(a: &PropMap, b: &PropMap)
    requires
        a.wf(),
        b.wf(),
    ensures
        propmap_rep_eq(a, b) <==> a@ == b@,
    decreases a,
{
    let s = a.entries@;
    let t = b.entries@;
    if propmap_rep_eq(a, b) {
        assert forall|i: int| 0 <= i < s.len() implies (#[trigger] s[i]).1@ == t[i].1@ by {
            lemma_value_eq_is_model_eq(&s[i].1, &t[i].1);
        }
        assert(a@ =~= b@) by {
            assert forall|k: Seq<char>| true implies (entries_have_key(s, k) <==> entries_have_key(
                t,
                k,
            )) by {
                if entries_have_key(s, k) {
                    let i = entries_key_idx(s, k);
                    assert(t[i].0@ == k);
                }
                if entries_have_key(t, k) {
                    let i = entries_key_idx(t, k);
                    assert(s[i].0@ == k);
                }
            }
            assert forall|k: Seq<char>| entries_have_key(s, k) implies a@[k] == b@[k] by {
                let i = entries_key_idx(s, k);
                assert(0 <= i < s.len() && s[i].0@ == k);
                lemma_key_idx(s, k, i);
                lemma_key_idx(t, k, i);
            }
        }
    }
    if a@ == b@ {
        assert forall|k: Seq<char>| true implies (entries_have_key(s, k) <==> entries_have_key(
            t,
            k,
        )) by {
            assert(a@.dom() =~= b@.dom());
            assert(a@.dom().contains(k) == entries_have_key(s, k));
            assert(b@.dom().contains(k) == entries_have_key(t, k));
        }
        lemma_sorted_same_keys(s, t);
        assert forall|i: int| 0 <= i < s.len() implies ((#[trigger] s[i]).0@ == t[i].0@
            && value_rep_eq(&s[i].1, &t[i].1)) by {
            let k = s[i].0@;
            lemma_key_idx(s, k, i);
            lemma_key_idx(t, k, i);
            assert(a@[k] == s[i].1@);
            assert(b@[k] == t[i].1@);
            lemma_value_eq_is_model_eq(&s[i].1, &t[i].1);
        }
        assert(propmap_rep_eq(a, b));
    }
}

/// Decides entry-for-entry equality of two values.
fn value_eq_exec(a: &AbstractValue, b: &AbstractValue) -> (r: bool)
    ensures
        r == value_rep_eq(a, b),
    decreases a,
{
    match (a, b) {
        (AbstractValue::Number(x), AbstractValue::Number(y)) => *x == *y,
        (AbstractValue::Symbol(x), AbstractValue::Symbol(y)) => str_eq(x.as_str(), y.as_str()),
        (AbstractValue::Object(x), AbstractValue::Object(y)) => {
            if !str_eq(x.name.as_str(), y.name.as_str()) {
                return false;
            }
            propmap_eq_exec(&x.props, &y.props)
        },
        (AbstractValue::MapValue(x), AbstractValue::MapValue(y)) => propmap_eq_exec(x, y),
        (AbstractValue::Collection(x), AbstractValue::Collection(y)) => {
            let n = x.len();
            if n != y.len() {
                return false;
            }
            let mut i: usize = 0;
            while i < n
                invariant
                    i <= n,
                    n == x@.len(),
                    n == y@.len(),
                    *a == AbstractValue::Collection(*x),
                    *b == AbstractValue::Collection(*y),
                    forall|j: int| 0 <= j < i ==> value_rep_eq(&(#[trigger] x@[j]), &y@[j]),
                decreases n - i,
            {
                proof {
                    assert(decreases_to!(*a => (*a)->Collection_0));
                    assert((*a)->Collection_0 == *x);
                    assert(decreases_to!(*x => x@));
                    assert(decreases_to!(x@ => x@[i as int]));
                }
                if !value_eq_exec(&x[i], &y[i]) {
                    proof {
                        assert(!value_rep_eq(&(x@[i as int]), &y@[i as int]));
                        assert(!value_rep_eq(a, b));
                    }
                    return false;
                }
                i = i + 1;
            }
            true
        },
        _ => false,
    }
}

/// Decides entry-for-entry equality of two property maps.
fn propmap_eq_exec(a: &PropMap, b: &PropMap) -> (r: bool)
    ensures
        r == propmap_rep_eq(a, b),
    decreases a,
{
    let n = a.entries.len();
    if n != b.entries.len() {
        return false;
    }
    let mut i: usize = 0;
    while i < n
        invariant
            i <= n,
            n == a.entries@.len(),
            n == b.entries@.len(),
            forall|j: int|
                0 <= j < i ==> ((#[trigger] a.entries@[j]).0@ == b.entries@[j].0@ && value_rep_eq(
                    &a.entries@[j].1,
                    &b.entries@[j].1,
                )),
        decreases n - i,
    {
        if !str_eq(a.entries[i].0.as_str(), b.entries[i].0.as_str()) {
            return false;
        }
        if !value_eq_exec(&a.entries[i].1, &b.entries[i].1) {
            return false;
        }
        i = i + 1;
    }
    true
}

impl PartialEq for AbstractValue {
    fn eq(&self, other: &Self) -> (r: bool) {
        value_eq_exec(self, other)
    }
}

impl Eq for AbstractValue {}

impl vstd::std_specs::cmp::PartialEqSpecImpl for AbstractValue {
    open spec fn obeys_eq_spec() -> bool {
        true
    }

    open spec fn eq_spec(&self, other: &Self) -> bool {
        value_rep_eq(self, other)
    }
}

impl PartialEq for AbstractObject {
    fn eq(&self, other: &Self) -> (r: bool) {
        str_eq(self.name.as_str(), other.name.as_str()) && propmap_eq_exec(
            &self.props,
            &other.props,
        )
    }
}

impl Eq for AbstractObject {}

impl vstd::std_specs::cmp::PartialEqSpecImpl for AbstractObject {
    open spec fn obeys_eq_spec() -> bool {
        true
    }

    open spec fn eq_spec(&self, other: &Self) -> bool {
        self.name@ == other.name@ && propmap_rep_eq(&self.props, &other.props)
    }
}

impl PartialEq for PropMap {
    fn eq(&self, other: &Self) -> (r: bool) {
        propmap_eq_exec(self, other)
    }
}

impl Eq for PropMap {}

impl vstd::std_specs::cmp::PartialEqSpecImpl for PropMap {
    open spec fn obeys_eq_spec() -> bool {
        true
    }

    open spec fn eq_spec(&self, other: &Self) -> bool {
        propmap_rep_eq(self, other)
    }
}

// ---------------------------------------------------------------------
// Canonical hashing.  The hash folds a value's structure into a 64-bit
// accumulator.  Property maps are folded in sorted key order -- the order
// the representation already keeps -- so the hash of a well-formed value
// depends only on its mathematical value
// (`lemma_equal_models_equal_hashes`); a collection is folded in sequence
// order, so its hash is order-sensitive.
// ---------------------------------------------------------------------

/// One folding step: multiply by an odd constant, truncate, mix the next
/// word in.
pub open spec fn hash_mix(h: u64, x: u64) -> u64 {
    (((h * 0x100000001b3) % 0x10000000000000000) as u64) ^ x
}

/// Folds the characters of `s` into `h`, left to right.
pub open spec fn spec_hash_chars(h: u64, s: Seq<char>) -> u64
    decreases s.len(),
{
    if s.len() == 0 {
        h
    } else {
        hash_mix(spec_hash_chars(h, s.drop_last()), s.last() as u64)
    }
}

proof fn lemma_hash_chars_push(h: u64, s: Seq<char>, c: char)
    ensures
        spec_hash_chars(h, s.push(c)) == hash_mix(spec_hash_chars(h, s), c as u64),
{
    assert(s.push(c).drop_last() =~= s);
    assert(s.push(c).last() == c);
}

impl AbstractValue {
    /// Folds this value into a 64-bit accumulator; see the module note.
    pub open spec fn spec_hash(&self) -> u64
        decreases self,
    {
        match self {
            AbstractValue::Number(n) => if *n >= 0 {
                hash_mix(hash_mix(0, 1), *n as u64)
            } else {
                hash_mix(hash_mix(0, 6), (-(*n as int)) as u64)
            },
            AbstractValue::Symbol(sym) => spec_hash_chars(hash_mix(0, 2), sym@),
            AbstractValue::Object(o) => o.spec_hash(),
            AbstractValue::MapValue(m) => spec_hash_entries(hash_mix(0, 4), m.entries@),
            AbstractValue::Collection(vs) => spec_hash_seq(hash_mix(0, 5), vs@),
        }
    }
}

impl AbstractObject {
    /// The object's name folded first, then its properties in sorted key
    /// order.
    pub open spec fn spec_hash(&self) -> u64
        decreases self,
    {
        spec_hash_entries(spec_hash_chars(hash_mix(0, 3), self.name@), self.props.entries@)
    }
}

/// Folds key/value entries into `h`, left to right.
pub open spec fn spec_hash_entries(h: u64, s: Seq<(String, AbstractValue)>) -> u64
    decreases s,
{
    if s.len() == 0 {
        h
    } else {
        hash_mix(
            spec_hash_chars(spec_hash_entries(h, s.drop_last()), s[s.len() - 1].0@),
            s[s.len() - 1].1.spec_hash(),
        )
    }
}

/// Folds collection elements into `h`, left to right.
pub open spec fn spec_hash_seq(h: u64, s: Seq<AbstractValue>) -> u64
    decreases s,
{
    if s.len() == 0 {
        h
    } else {
        hash_mix(spec_hash_seq(h, s.drop_last()), s[s.len() - 1].spec_hash())
    }
}

/// Entry-for-entry equal values hash alike.
proof fn lemma_rep_eq_same_hash(a: &AbstractValue, b: &AbstractValue)
    requires
        value_rep_eq(a, b),
    ensures
        a.spec_hash() == b.spec_hash(),
    decreases a,
{
    match (a, b) {
        (AbstractValue::Object(x), AbstractValue::Object(y)) => {
            assert(propmap_rep_eq(&x.props, &y.props));
            assert(x.props.entries@.len() == y.props.entries@.len());
            lemma_rep_eq_same_entry_hash(
                spec_hash_chars(hash_mix(0, 3), x.name@),
                x.props.entries@,
                y.props.entries@,
            );
        },
        (AbstractValue::MapValue(x), AbstractValue::MapValue(y)) => {
            assert(propmap_rep_eq(x, y));
            assert(x.entries@.len() == y.entries@.len());
            lemma_rep_eq_same_entry_hash(hash_mix(0, 4), x.entries@, y.entries@);
        },
        (AbstractValue::Collection(x), AbstractValue::Collection(y)) => {
            lemma_rep_eq_same_seq_hash(hash_mix(0, 5), x@, y@);
        },
        _ => {},
    }
}

/// Pointwise equal entry sequences fold alike.
proof fn lemma_rep_eq_same_entry_hash(
    h: u64,
    s: Seq<(String, AbstractValue)>,
    t: Seq<(String, AbstractValue)>,
)
    requires
        s.len() == t.len(),
        forall|i: int|
            0 <= i < s.len() ==> ((#[trigger] s[i]).0@ == t[i].0@ && value_rep_eq(
                &s[i].1,
                &t[i].1,
            )),
    ensures
        spec_hash_entries(h, s) == spec_hash_entries(h, t),
    decreases s,
{
    if s.len() > 0 {
        assert forall|i: int|
            0 <= i < s.len() - 1 implies ((#[trigger] s.drop_last()[i]).0@ == t.drop_last()[i].0@
            && value_rep_eq(&s.drop_last()[i].1, &t.drop_last()[i].1)) by {
            assert(s.drop_last()[i] == s[i]);
            assert(t.drop_last()[i] == t[i]);
        }
        lemma_rep_eq_same_entry_hash(h, s.drop_last(), t.drop_last());
        lemma_rep_eq_same_hash(&s[s.len() - 1].1, &t[t.len() - 1].1);
    }
}

/// Pointwise equal element sequences fold alike.
proof fn lemma_rep_eq_same_seq_hash(h: u64, s: Seq<AbstractValue>, t: Seq<AbstractValue>)
    requires
        s.len() == t.len(),
        forall|i: int| 0 <= i < s.len() ==> value_rep_eq(&(#[trigger] s[i]), &t[i]),
    ensures
        spec_hash_seq(h, s) == spec_hash_seq(h, t),
    decreases s,
{
    if s.len() > 0 {
        assert forall|i: int| 0 <= i < s.len() - 1 implies value_rep_eq(
            &(#[trigger] s.drop_last()[i]),
            &t.drop_last()[i],
        ) by {
            assert(s.drop_last()[i] == s[i]);
            assert(t.drop_last()[i] == t[i]);
        }
        lemma_rep_eq_same_seq_hash(h, s.drop_last(), t.drop_last());
        lemma_rep_eq_same_hash(&s[s.len() - 1], &t[t.len() - 1]);
    }
}

/// Well-formed values with equal mathematical values hash identically,
/// however their property maps were built up: the hash is a function of
/// the unordered mapping, not of insertion order.
pub proof fn lemma_equal_models_equal_hashes(a: &AbstractValue, b: &AbstractValue)
    requires
        a.wf(),
        b.wf(),
        a@ == b@,
    ensures
        a.spec_hash() == b.spec_hash(),
{
    lemma_value_eq_is_model_eq(a, b);
    lemma_rep_eq_same_hash(a, b);
}

/// The same, stated of whole objects.
pub proof fn lemma_equal_object_models_equal_hashes(a: &AbstractObject, b: &AbstractObject)
    requires
        a.wf(),
        b.wf(),
        a@ == b@,
    ensures
        a.spec_hash() == b.spec_hash(),
{
    lemma_propmap_eq_is_model_eq(&a.props, &b.props);
    lemma_rep_eq_same_entry_hash(
        spec_hash_chars(hash_mix(0, 3), a.name@),
        a.props.entries@,
        b.props.entries@,
    );
}

/// Binding the same pairs in either order builds the same mapping when
/// the keys differ; with equal keys, the later binding wins.
pub proof fn lemma_insert_order_irrelevant(
    m: Map<Seq<char>, ValModel>,
    k1: Seq<char>,
    v1: ValModel,
    k2: Seq<char>,
    v2: ValModel,
)
    requires
        k1 != k2,
    ensures
        m.insert(k1, v1).insert(k2, v2) == m.insert(k2, v2).insert(k1, v1),
{
    assert(m.insert(k1, v1).insert(k2, v2) =~= m.insert(k2, v2).insert(k1, v1));
}

// Executable hashing.

/// Folds the characters of `s` into `h`.
fn hash_chars(h: u64, s: &str) -> (r: u64)
    ensures
        r == spec_hash_chars(h, s@),
{
    let n = s.unicode_len();
    let mut acc = h;
    let mut i: usize = 0;
    while i < n
        invariant
            i <= n,
            n == s@.len(),
            acc == spec_hash_chars(h, s@.subrange(0, i as int)),
        decreases n - i,
    {
        let c = s.get_char(i);
        proof {
            lemma_hash_chars_push(h, s@.subrange(0, i as int), c);
            assert(s@.subrange(0, i as int).push(c) =~= s@.subrange(0, i + 1));
        }
        acc = acc.wrapping_mul(0x100000001b3) ^ (c as u64);
        i = i + 1;
    }
    proof {
        assert(s@.subrange(0, n as int) =~= s@);
    }
    acc
}

impl AbstractValue {
    /// The canonical hash of this value: independent of property
    /// insertion order, sensitive to collection order.
    pub fn canonical_hash(&self) -> (r: u64)
        ensures
            r == self.spec_hash(),
        decreases self,
    {
        match self {
            AbstractValue::Number(n) => {
                if *n >= 0 {
                    hash_mix_exec(hash_mix_exec(0, 1), *n as u64)
                } else {
                    let mag: u64 = ((-(*n + 1)) as u64) + 1;
                    proof {
                        assert(mag == (-(*n as int)) as u64);
                    }
                    hash_mix_exec(hash_mix_exec(0, 6), mag)
                }
            },
            AbstractValue::Symbol(sym) => hash_chars(hash_mix_exec(0, 2), sym.as_str()),
            AbstractValue::Object(o) => o.canonical_hash(),
            AbstractValue::MapValue(m) => hash_entries(hash_mix_exec(0, 4), m),
            AbstractValue::Collection(vs) => {
                let n = vs.len();
                let mut acc = hash_mix_exec(0, 5);
                let mut i: usize = 0;
                while i < n
                    invariant
                        i <= n,
                        n == vs@.len(),
                        *self == AbstractValue::Collection(*vs),
                        acc == spec_hash_seq(hash_mix(0, 5), vs@.subrange(0, i as int)),
                    decreases n - i,
                {
                    proof {
                        assert(decreases_to!(*self => (*self)->Collection_0));
                        assert((*self)->Collection_0 == *vs);
                        assert(decreases_to!(*vs => vs@));
                        assert(decreases_to!(vs@ => vs@[i as int]));
                    }
                    let eh = vs[i].canonical_hash();
                    proof {
                        let pre = vs@.subrange(0, i as int);
                        let post = vs@.subrange(0, i + 1);
                        assert(post.drop_last() =~= pre);
                        assert(post[post.len() - 1] == vs@[i as int]);
                    }
                    acc = acc.wrapping_mul(0x100000001b3) ^ eh;
                    i = i + 1;
                }
                proof {
                    assert(vs@.subrange(0, n as int) =~= vs@);
                }
                acc
            },
        }
    }
}

impl AbstractObject {
    /// The canonical hash of this object; see [`AbstractValue::canonical_hash`].
    pub fn canonical_hash(&self) -> (r: u64)
        ensures
            r == self.spec_hash(),
        decreases self,
    {
        let h = hash_chars(hash_mix_exec(0, 3), self.name.as_str());
        hash_entries(h, &self.props)
    }
}

/// One folding step, executable form.
fn hash_mix_exec(h: u64, x: u64) -> (r: u64)
    ensures
        r == hash_mix(h, x),
{
    h.wrapping_mul(0x100000001b3) ^ x
}

/// Folds a property map's entries into `h`, in their sorted order.
fn hash_entries(h: u64, m: &PropMap) -> (r: u64)
    ensures
        r == spec_hash_entries(h, m.entries@),
    decreases m,
{
    let n = m.entries.len();
    let mut acc = h;
    let mut i: usize = 0;
    while i < n
        invariant
            i <= n,
            n == m.entries@.len(),
            acc == spec_hash_entries(h, m.entries@.subrange(0, i as int)),
        decreases n - i,
    {
        acc = hash_chars(acc, m.entries[i].0.as_str());
        proof {
            assert(decreases_to!(*m => m.entries));
            assert(decreases_to!(m.entries => m.entries@));
            assert(decreases_to!(m.entries@ => m.entries@[i as int]));
        }
        let vh = m.entries[i].1.canonical_hash();
        proof {
            let pre = m.entries@.subrange(0, i as int);
            let post = m.entries@.subrange(0, i + 1);
            assert(post.drop_last() =~= pre);
            assert(post[post.len() - 1] == m.entries@[i as int]);
        }
        acc = acc.wrapping_mul(0x100000001b3) ^ vh;
        i = i + 1;
    }
    proof {
        assert(m.entries@.subrange(0, n as int) =~= m.entries@);
    }
    acc
}

} // verus!
