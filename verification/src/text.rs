//! Character-level helpers shared by the parsers: character classes, the
//! lexicographic order on strings, and small verified conversions.

use vstd::prelude::*;

verus! {

// ---------------------------------------------------------------------
// Character classes.  The grammars in this crate are delimited by ASCII
// punctuation, so the classes are ASCII.
// ---------------------------------------------------------------------

pub open spec fn is_digit_char(c: char) -> bool {
    48 <= c as u32 && c as u32 <= 57
}

pub open spec fn is_alpha_char(c: char) -> bool {
    (65 <= c as u32 && c as u32 <= 90) || (97 <= c as u32 && c as u32 <= 122)
}

pub open spec fn is_alnum_char(c: char) -> bool {
    is_alpha_char(c) || is_digit_char(c)
}

/// A word character of the line format: letter, digit or underscore.
pub open spec fn is_word_char(c: char) -> bool {
    is_alnum_char(c) || c == '_'
}

/// The first character of a name: letter or underscore.
pub open spec fn is_name_start_char(c: char) -> bool {
    is_alpha_char(c) || c == '_'
}

/// A following character of a name: letter, digit, underscore or dot.
pub open spec fn is_name_char(c: char) -> bool {
    is_alnum_char(c) || c == '_' || c == '.'
}

/// Space or tab: the blanks accepted between a property separator and the
/// next property.
pub open spec fn is_space_char(c: char) -> bool {
    c == ' ' || c == '\t'
}

/// Any whitespace the query grammar skips around its delimiters.
pub open spec fn is_multispace_char(c: char) -> bool {
    c == ' ' || c == '\t' || c == '\n' || c == '\r'
}

pub fn digit_char(c: char) -> (r: bool)
    ensures
        r == is_digit_char(c),
{
    let u = c as u32;
    48 <= u && u <= 57
}

pub fn alpha_char(c: char) -> (r: bool)
    ensures
        r == is_alpha_char(c),
{
    let u = c as u32;
    (65 <= u && u <= 90) || (97 <= u && u <= 122)
}

pub fn alnum_char(c: char) -> (r: bool)
    ensures
        r == is_alnum_char(c),
{
    alpha_char(c) || digit_char(c)
}

pub fn word_char(c: char) -> (r: bool)
    ensures
        r == is_word_char(c),
{
    alnum_char(c) || c == '_'
}

pub fn name_start_char(c: char) -> (r: bool)
    ensures
        r == is_name_start_char(c),
{
    alpha_char(c) || c == '_'
}

pub fn name_char(c: char) -> (r: bool)
    ensures
        r == is_name_char(c),
{
    alnum_char(c) || c == '_' || c == '.'
}

pub fn space_char(c: char) -> (r: bool)
    ensures
        r == is_space_char(c),
{
    c == ' ' || c == '\t'
}

pub fn multispace_char(c: char) -> (r: bool)
    ensures
        r == is_multispace_char(c),
{
    c == ' ' || c == '\t' || c == '\n' || c == '\r'
}

// ---------------------------------------------------------------------
// Conversions between strings and character vectors.
// ---------------------------------------------------------------------

/// The characters of `s`, one vector slot per character.
pub fn str_chars(s: &str) -> (r: Vec<char>)
    ensures
        r@ == s@,
{
    let n = s.unicode_len();
    let mut r: Vec<char> = Vec::new();
    let mut i: usize = 0;
    while i < n
        invariant
            i <= n,
            n == s@.len(),
            r@ =~= s@.subrange(0, i as int),
        decreases n - i,
    {
        r.push(s.get_char(i));
        i = i + 1;
    }
    proof {
        assert(r@ =~= s@);
    }
    r
}

/// Relies on `String::push`: appends one character to the string.
#[verifier::external_body]
fn push_char(s: &mut String, c: char)
    ensures
        final(s)@ == old(s)@.push(c),
{
    s.push(c)
}

/// Appends the characters of `other` to `s`.
pub fn push_str(s: &mut String, other: &str)
    ensures
        final(s)@ == old(s)@ + other@,
{
    vstd::string::StringExecFns::append(s, other)
}

/// The string whose characters are `cs[from .. to]`.
pub fn chars_string(cs: &Vec<char>, from: usize, to: usize) -> (r: String)
    requires
        from <= to <= cs@.len(),
    ensures
        r@ == cs@.subrange(from as int, to as int),
{
    let mut r = String::new();
    let mut i: usize = from;
    while i < to
        invariant
            from <= i <= to <= cs@.len(),
            r@ =~= cs@.subrange(from as int, i as int),
        decreases to - i,
    {
        let c = cs[i];
        push_char(&mut r, c);
        i = i + 1;
    }
    proof {
        assert(r@ =~= cs@.subrange(from as int, to as int));
    }
    r
}

/// Whether two strings hold the same characters.
pub fn str_eq(a: &str, b: &str) -> (r: bool)
    ensures
        r == (a@ == b@),
{
    let n = a.unicode_len();
    let m = b.unicode_len();
    if n != m {
        proof {
            assert(a@.len() != b@.len());
        }
        return false;
    }
    let mut i: usize = 0;
    while i < n
        invariant
            i <= n,
            n == a@.len(),
            n == b@.len(),
            forall|j: int| 0 <= j < i ==> a@[j] == b@[j],
        decreases n - i,
    {
        if a.get_char(i) != b.get_char(i) {
            return false;
        }
        i = i + 1;
    }
    proof {
        assert(a@ =~= b@);
    }
    true
}

// ---------------------------------------------------------------------
// Lexicographic order on character sequences, by code point.
// ---------------------------------------------------------------------

/// Strict lexicographic order by code point; a proper prefix comes first.
pub open spec fn lex_lt(a: Seq<char>, b: Seq<char>) -> bool
    decreases a.len(),
{
    if b.len() == 0 {
        false
    } else if a.len() == 0 {
        true
    } else if (a[0] as u32) < (b[0] as u32) {
        true
    } else if a[0] == b[0] {
        lex_lt(a.skip(1), b.skip(1))
    } else {
        false
    }
}

/// Of two distinct sequences, exactly one comes first.
pub proof fn lemma_lex_trichotomy(a: Seq<char>, b: Seq<char>)
    ensures
        lex_lt(a, b) || lex_lt(b, a) || a == b,
        lex_lt(a, b) ==> !lex_lt(b, a) && a != b,
        lex_lt(b, a) ==> !lex_lt(a, b) && a != b,
    decreases a.len(),
{
    if b.len() == 0 || a.len() == 0 {
        if a.len() == 0 && b.len() == 0 {
            assert(a =~= b);
        }
    } else if a[0] == b[0] {
        lemma_lex_trichotomy(a.skip(1), b.skip(1));
        if a.skip(1) == b.skip(1) {
            assert(a =~= b) by {
                assert(a.len() == b.len());
                assert forall|i: int| 0 <= i < a.len() implies a[i] == b[i] by {
                    if i >= 1 {
                        assert(a[i] == a.skip(1)[i - 1]);
                        assert(b[i] == b.skip(1)[i - 1]);
                    }
                }
            }
        }
        if a == b {
            assert(a.skip(1) == b.skip(1));
        }
    } else {
        assert((a[0] as u32) != (b[0] as u32)) by {
            vstd::utf8::char_u32_cast(a[0], a[0] as u32);
            vstd::utf8::char_u32_cast(b[0], b[0] as u32);
        }
    }
}

/// The order is transitive.
pub proof fn lemma_lex_transitive(a: Seq<char>, b: Seq<char>, c: Seq<char>)
    requires
        lex_lt(a, b),
        lex_lt(b, c),
    ensures
        lex_lt(a, c),
    decreases a.len(),
{
    if c.len() == 0 {
    } else if b.len() == 0 {
    } else if a.len() == 0 {
    } else {
        if a[0] == b[0] && b[0] == c[0] {
            lemma_lex_transitive(a.skip(1), b.skip(1), c.skip(1));
        }
    }
}

/// Whether `a` comes strictly before `b` in lexicographic order.
pub fn str_lex_lt(a: &str, b: &str) -> (r: bool)
    ensures
        r == lex_lt(a@, b@),
{
    let n = a.unicode_len();
    let m = b.unicode_len();
    let mut i: usize = 0;
    proof {
        assert(a@.skip(0) =~= a@);
        assert(b@.skip(0) =~= b@);
    }
    loop
        invariant
            i <= n,
            i <= m,
            n == a@.len(),
            m == b@.len(),
            forall|j: int| 0 <= j < i ==> a@[j] == b@[j],
            lex_lt(a@, b@) == lex_lt(a@.skip(i as int), b@.skip(i as int)),
        decreases n - i,
    {
        if i >= m {
            // b is exhausted: a is not before b
            return false;
        }
        if i >= n {
            // a is a proper prefix of b
            return true;
        }
        let ca = a.get_char(i);
        let cb = b.get_char(i);
        if (ca as u32) < (cb as u32) {
            proof {
                assert(lex_lt(a@.skip(i as int), b@.skip(i as int)));
            }
            return true;
        }
        if ca != cb {
            proof {
                assert(!lex_lt(a@.skip(i as int), b@.skip(i as int)));
            }
            return false;
        }
        proof {
            assert(a@.skip(i as int).skip(1) =~= a@.skip(i + 1));
            assert(b@.skip(i as int).skip(1) =~= b@.skip(i + 1));
        }
        i = i + 1;
    }
}

// ---------------------------------------------------------------------
// Maximal runs: `scan` finds where a run of characters of one class
// ends.  The named predicates below give every parser the same lambda
// term for each class.
// ---------------------------------------------------------------------

/// The first position at or after `pos` whose character fails `pred`, or
/// the end of `s`.
pub open spec fn scan(s: Seq<char>, pos: int, pred: spec_fn(char) -> bool) -> int
    decreases s.len() - pos,
{
    if 0 <= pos < s.len() && pred(s[pos]) {
        scan(s, pos + 1, pred)
    } else {
        pos
    }
}

/// Where `scan` can end up.
pub broadcast proof fn lemma_scan_bounds(s: Seq<char>, pos: int, pred: spec_fn(char) -> bool)
    ensures
        pos <= #[trigger] scan(s, pos, pred),
        pos <= s.len() ==> scan(s, pos, pred) <= s.len(),
    decreases s.len() - pos,
{
    if 0 <= pos < s.len() && pred(s[pos]) {
        lemma_scan_bounds(s, pos + 1, pred);
    }
}

pub open spec fn name_char_pred() -> spec_fn(char) -> bool {
    |c: char| is_name_char(c)
}

pub open spec fn alnum_pred() -> spec_fn(char) -> bool {
    |c: char| is_alnum_char(c)
}

pub open spec fn digit_pred() -> spec_fn(char) -> bool {
    |c: char| is_digit_char(c)
}

pub open spec fn word_pred() -> spec_fn(char) -> bool {
    |c: char| is_word_char(c)
}

pub open spec fn space_pred() -> spec_fn(char) -> bool {
    |c: char| is_space_char(c)
}

pub open spec fn multispace_pred() -> spec_fn(char) -> bool {
    |c: char| is_multispace_char(c)
}

/// A character a free-form symbol may hold: anything but the three
/// closers `,` `)` `]`.
pub open spec fn symbol_char_pred() -> spec_fn(char) -> bool {
    |c: char| c != ',' && c != ')' && c != ']'
}

/// Anything but a closing bracket: what a bracketed line field may hold.
pub open spec fn not_rbracket_pred() -> spec_fn(char) -> bool {
    |c: char| c != ']'
}

/// A character of an originator name: a word character or a hyphen.
pub open spec fn originator_char_pred() -> spec_fn(char) -> bool {
    |c: char| is_word_char(c) || c == '-'
}

/// Anything but a double quote: the inside of a quoted literal.
pub open spec fn not_quote_pred() -> spec_fn(char) -> bool {
    |c: char| c != '"'
}

/// What a free-form node-event message may hold: anything but a quote or
/// a backslash.
pub open spec fn message_char_pred() -> spec_fn(char) -> bool {
    |c: char| c != '"' && c != '\\'
}

/// Whether the characters of `kw` stand at `pos` in `s`.
pub open spec fn spec_kw_at(s: Seq<char>, pos: int, kw: Seq<char>) -> bool {
    0 <= pos && pos + kw.len() <= s.len() && s.subrange(pos, pos + kw.len()) == kw
}

/// Tests whether the keyword stands at `pos`.
pub fn kw_at(cs: &Vec<char>, pos: usize, kw: &str) -> (r: bool)
    requires
        pos <= cs@.len(),
    ensures
        r == spec_kw_at(cs@, pos as int, kw@),
{
    let m = kw.unicode_len();
    let n = cs.len();
    if n - pos < m {
        return false;
    }
    let mut i: usize = 0;
    while i < m
        invariant
            i <= m,
            m == kw@.len(),
            n == cs@.len(),
            pos + m <= n,
            forall|j: int| 0 <= j < i ==> cs@[pos + j] == kw@[j],
        decreases m - i,
    {
        if cs[pos + i] != kw.get_char(i) {
            proof {
                assert(cs@.subrange(pos as int, pos + kw@.len())[i as int] != kw@[i as int]);
            }
            return false;
        }
        i = i + 1;
    }
    proof {
        assert(cs@.subrange(pos as int, pos + kw@.len()) =~= kw@);
    }
    true
}

// ---------------------------------------------------------------------
// Integer literals.
// ---------------------------------------------------------------------

/// The value of a digit run read in base ten.
pub open spec fn digits_val(s: Seq<char>) -> int
    decreases s.len(),
{
    if s.len() == 0 {
        0
    } else {
        digits_val(s.drop_last()) * 10 + (s.last() as u32 - 48)
    }
}

pub open spec fn all_digit_chars(s: Seq<char>) -> bool {
    forall|i: int| 0 <= i < s.len() ==> is_digit_char(#[trigger] s[i])
}

/// What `s` denotes as a signed 64-bit integer literal: an optional sign,
/// then one or more digits, with a value in range; anything else is
/// `None`.
pub open spec fn spec_parse_i64(s: Seq<char>) -> Option<int> {
    let neg = s.len() > 0 && s[0] == '-';
    let ds = if s.len() > 0 && (s[0] == '+' || s[0] == '-') {
        s.skip(1)
    } else {
        s
    };
    if ds.len() == 0 || !all_digit_chars(ds) {
        None
    } else {
        let v = if neg {
            -digits_val(ds)
        } else {
            digits_val(ds)
        };
        if -0x8000000000000000 <= v <= 0x7fffffffffffffff {
            Some(v)
        } else {
            None
        }
    }
}

/// Appending a digit multiplies the value by ten and adds the digit.
proof fn lemma_digits_val_push(s: Seq<char>, c: char)
    ensures
        digits_val(s.push(c)) == digits_val(s) * 10 + (c as u32 - 48),
{
    assert(s.push(c).drop_last() =~= s);
    assert(s.push(c).last() == c);
}

/// A digit run's value is never negative.
pub proof fn lemma_digits_val_nonneg(s: Seq<char>)
    requires
        all_digit_chars(s),
    ensures
        digits_val(s) >= 0,
    decreases s.len(),
{
    if s.len() > 0 {
        assert(all_digit_chars(s.drop_last())) by {
            assert(forall|i: int|
                0 <= i < s.len() - 1 ==> s.drop_last()[i] == #[trigger] s[i]);
        }
        lemma_digits_val_nonneg(s.drop_last());
        assert(s.last() as u32 >= 48);
    }
}

/// Reads `cs[from .. to]` as a signed 64-bit integer literal.
pub fn parse_i64_range(cs: &Vec<char>, from: usize, to: usize) -> (r: Option<i64>)
    requires
        from <= to <= cs@.len(),
    ensures
        ({
            let m = spec_parse_i64(cs@.subrange(from as int, to as int));
            match (r, m) {
                (Some(v), Some(w)) => v == w,
                (None, None) => true,
                _ => false,
            }
        }),
{
    let ghost s = cs@.subrange(from as int, to as int);
    let mut i: usize = from;
    let mut neg = false;
    if i < to && (cs[i] == '+' || cs[i] == '-') {
        neg = cs[i] == '-';
        i = i + 1;
    }
    let ghost ds = if s.len() > 0 && (s[0] == '+' || s[0] == '-') {
        s.skip(1)
    } else {
        s
    };
    proof {
        assert(ds =~= cs@.subrange(i as int, to as int));
    }
    if i == to {
        return None;
    }
    let mut mag: u64 = 0;
    let mut over = false;
    let mut j: usize = i;
    while j < to
        invariant
            from <= i <= j <= to <= cs@.len(),
            s == cs@.subrange(from as int, to as int),
            ds == (if s.len() > 0 && (s[0] == '+' || s[0] == '-') {
                s.skip(1)
            } else {
                s
            }),
            ds == cs@.subrange(i as int, to as int),
            all_digit_chars(cs@.subrange(i as int, j as int)),
            !over ==> mag == digits_val(cs@.subrange(i as int, j as int)),
            over ==> digits_val(cs@.subrange(i as int, j as int))
                > 0x8000000000000000,
        decreases to - j,
    {
        let c = cs[j];
        if !digit_char(c) {
            proof {
                assert(ds[j - i] == c);
                assert(!all_digit_chars(ds));
            }
            return None;
        }
        let d: u64 = (c as u32 - 48) as u64;
        proof {
            assert(cs@.subrange(i as int, j + 1).drop_last() =~= cs@.subrange(
                i as int,
                j as int,
            ));
            lemma_digits_val_push(cs@.subrange(i as int, j as int), c);
            assert(cs@.subrange(i as int, j as int).push(c) =~= cs@.subrange(
                i as int,
                j + 1,
            ));
            lemma_digits_val_nonneg(cs@.subrange(i as int, j as int));
        }
        if !over {
            if mag > 922337203685477580 {
                over = true;
            } else {
                mag = mag * 10 + d;
            }
        }
        j = j + 1;
    }
    proof {
        assert(cs@.subrange(i as int, to as int) =~= ds);
        assert(all_digit_chars(ds));
        assert(ds.len() > 0);
    }
    if over {
        return None;
    }
    if neg {
        if mag <= 9223372036854775807 {
            Some(-(mag as i64))
        } else if mag == 9223372036854775808 {
            Some(i64::MIN)
        } else {
            None
        }
    } else {
        if mag <= 9223372036854775807 {
            Some(mag as i64)
        } else {
            None
        }
    }
}

/// Reads a whole string as a signed 64-bit integer literal, the way the
/// value side of an `eq` comparison is read.
pub fn parse_i64_str(s: &str) -> (r: Option<i64>)
    ensures
        ({
            let m = spec_parse_i64(s@);
            match (r, m) {
                (Some(v), Some(w)) => v == w,
                (None, None) => true,
                _ => false,
            }
        }),
{
    let cs = str_chars(s);
    let n = cs.len();
    proof {
        assert(cs@.subrange(0, n as int) =~= s@);
    }
    parse_i64_range(&cs, 0, n)
}

// ---------------------------------------------------------------------
// Decimal rendering.
// ---------------------------------------------------------------------

/// The decimal digits of `n`, most significant first.
pub open spec fn spec_u_dec(n: int) -> Seq<char>
    decreases n,
{
    if n < 10 {
        seq![((n + 48) as u8) as char]
    } else {
        spec_u_dec(n / 10).push((((n % 10) + 48) as u8) as char)
    }
}

/// The decimal rendering of a signed value: a minus sign, then digits.
pub open spec fn spec_i64_chars(v: int) -> Seq<char> {
    if v < 0 {
        seq!['-'] + spec_u_dec(-v)
    } else {
        spec_u_dec(v)
    }
}

/// Renders `n` in decimal.
pub fn u64_string(n: u64) -> (r: String)
    ensures
        r@ == spec_u_dec(n as int),
{
    let mut acc: Vec<char> = Vec::new();
    let mut m = n;
    if m < 10 {
        let c = ((m as u8) + 48) as char;
        acc.push(c);
        proof {
            assert(acc@.reverse() =~= seq![c]);
            assert(spec_u_dec(n as int) =~= acc@.reverse());
        }
        m = 0;
    }
    while m > 0
        invariant
            spec_u_dec(n as int) =~= (if m > 0 {
                spec_u_dec(m as int)
            } else {
                Seq::<char>::empty()
            }) + acc@.reverse(),
        decreases m,
    {
        let d = (m % 10) as u8;
        let c = (d + 48) as char;
        proof {
            let om = m as int;
            assert(c == (((om % 10) + 48) as u8) as char);
            assert(acc@.push(c).reverse() =~= seq![c] + acc@.reverse());
            if om < 10 {
                assert(om % 10 == om);
                assert(spec_u_dec(om) =~= seq![c]);
            } else {
                assert(spec_u_dec(om) =~= spec_u_dec(om / 10) + seq![c]);
            }
        }
        acc.push(c);
        m = m / 10;
        proof {
            assert(spec_u_dec(n as int) =~= (if m > 0 {
                spec_u_dec(m as int)
            } else {
                Seq::<char>::empty()
            }) + acc@.reverse());
        }
    }
    let mut r = String::new();
    let n2 = acc.len();
    let mut i = n2;
    while i > 0
        invariant
            i <= n2,
            n2 == acc@.len(),
            r@ =~= acc@.reverse().subrange(0, n2 - i),
        decreases i,
    {
        i = i - 1;
        let c = acc[i];
        push_char(&mut r, c);
        proof {
            assert(acc@.reverse()[n2 - i - 1] == acc@[i as int]);
            assert(r@ =~= acc@.reverse().subrange(0, n2 - i));
        }
    }
    proof {
        assert(acc@.reverse().subrange(0, n2 as int) =~= acc@.reverse());
    }
    r
}

/// Renders `v` in decimal, with a sign when negative.
pub fn i64_string(v: i64) -> (r: String)
    ensures
        r@ == spec_i64_chars(v as int),
{
    if v >= 0 {
        u64_string(v as u64)
    } else {
        let mag: u64 = ((-(v + 1)) as u64) + 1;
        proof {
            assert(mag == -(v as int));
        }
        let digits = u64_string(mag);
        let mut r = String::new();
        push_char(&mut r, '-');
        vstd::string::StringExecFns::append(&mut r, digits.as_str());
        proof {
            assert(r@ =~= seq!['-'] + spec_u_dec(-(v as int)));
        }
        r
    }
}

} // verus!
