//! Layout templates: a `---`-delimited front matter followed by a body of
//! component tags such as `<TerminalPane id="main" rows=40 />`.
//!
//! Tags are recognised as the pattern `<([A-Za-z0-9]+)\s+([^>/]+)/?>` finds
//! them and attributes as `([A-Za-z0-9_]+)\s*=\s*(?:"([^"]*)"|([A-Za-z0-9_.]+))`
//! does, with leftmost-first, non-overlapping matching and `\s` the Unicode
//! white space. The specifications below state those matches directly.

use vstd::prelude::*;
use crate::layout::{
    AccessibilityProps, ComponentKind, Display, FlexDirection, FrontMatter, LayoutDocument,
    LayoutNode, LayoutProps,
};
use crate::text::{
    chars_of, decimal, is_space, is_space_char, lemma_lines_cons, lines_of, no_newline,
    push_decimal, split_lines, string_of, strip_cr, trim, trim_chars, trim_end, trim_end_chars,
};

verus! {

/// Why a template was refused.
#[derive(Debug, Clone, Copy, PartialEq, Eq, Structural)]
pub enum TemplateError {
    /// The first line is not `---`.
    MissingFrontmatterStart,
    /// No line after the first one trims to `---`.
    MissingFrontmatterEnd,
    /// The front matter's id is empty or white space.
    MissingId,
    /// The body holds no component tag.
    NoComponents,
}

// ----------------------------------------------------------------------------
// Character classes and runs

/// The character classes the tag and attribute patterns use.
#[derive(Debug, Clone, Copy, PartialEq, Eq, Structural)]
pub enum CharClass {
    /// `[A-Za-z0-9_]`, attribute names.
    Key,
    /// `[A-Za-z0-9_.]`, unquoted attribute values.
    Value,
    /// `[A-Za-z0-9]`, tag names.
    Name,
    /// `\s`, Unicode white space.
    Space,
    /// `[^"]`, quoted attribute values.
    NotQuote,
    /// `[^>/]`, the attribute text of a tag.
    NotTagEnd,
}

/// Whether `c` is an ASCII letter or digit.
pub open spec fn is_alnum(c: char) -> bool {
    ('A' <= c <= 'Z') || ('a' <= c <= 'z') || ('0' <= c <= '9')
}

/// Whether `c` belongs to `class`.
pub open spec fn in_class(c: char, class: CharClass) -> bool {
    match class {
        CharClass::Key => is_alnum(c) || c == '_',
        CharClass::Value => is_alnum(c) || c == '_' || c == '.',
        CharClass::Name => is_alnum(c),
        CharClass::Space => is_space(c),
        CharClass::NotQuote => c != '"',
        CharClass::NotTagEnd => c != '>' && c != '/',
    }
}

fn in_class_char(c: char, class: CharClass) -> (r: bool)
    ensures
        r == in_class(c, class),
{
    let alnum = ('A' <= c && c <= 'Z') || ('a' <= c && c <= 'z') || ('0' <= c && c <= '9');
    match class {
        CharClass::Key => alnum || c == '_',
        CharClass::Value => alnum || c == '_' || c == '.',
        CharClass::Name => alnum,
        CharClass::Space => is_space_char(c),
        CharClass::NotQuote => c != '"',
        CharClass::NotTagEnd => c != '>' && c != '/',
    }
}

/// The end of the longest run of `class` characters starting at `i`.
pub open spec fn run_end(s: Seq<char>, i: int, class: CharClass) -> int
    decreases s.len() - i,
{
    if i < 0 || i >= s.len() || !in_class(s[i], class) {
        i
    } else {
        run_end(s, i + 1, class)
    }
}

/// A run stays inside the text, holds only characters of its class and
/// stops before the first one that is not.
pub proof fn lemma_run_end_bounds(s: Seq<char>, i: int, class: CharClass)
    requires
        0 <= i <= s.len(),
    ensures
        i <= run_end(s, i, class) <= s.len(),
        run_end(s, i, class) < s.len() ==> !in_class(s[run_end(s, i, class)], class),
        forall|k: int| i <= k < run_end(s, i, class) ==> in_class(#[trigger] s[k], class),
    decreases s.len() - i,
{
    if i < s.len() && in_class(s[i], class) {
        lemma_run_end_bounds(s, i + 1, class);
    }
}

fn scan(s: &Vec<char>, i: usize, class: CharClass) -> (r: usize)
    requires
        i <= s@.len(),
    ensures
        r == run_end(s@, i as int, class),
        i <= r <= s@.len(),
{
    let mut j = i;
    while j < s.len() && in_class_char(s[j], class)
        invariant
            i <= j <= s@.len(),
            run_end(s@, i as int, class) == run_end(s@, j as int, class),
        decreases s@.len() - j,
    {
        j = j + 1;
    }
    j
}

fn copy_range(s: &Vec<char>, a: usize, b: usize) -> (r: Vec<char>)
    requires
        a <= b <= s@.len(),
    ensures
        r@ == s@.subrange(a as int, b as int),
{
    let mut r: Vec<char> = Vec::new();
    let mut i = a;
    while i < b
        invariant
            a <= i <= b <= s@.len(),
            r@ == s@.subrange(a as int, i as int),
        decreases b - i,
    {
        r.push(s[i]);
        i = i + 1;
        assert(r@ =~= s@.subrange(a as int, i as int));
    }
    r
}

fn chars_equal(a: &Vec<char>, b: &Vec<char>) -> (r: bool)
    ensures
        r == (a@ == b@),
{
    if a.len() != b.len() {
        return false;
    }
    let mut i: usize = 0;
    while i < a.len()
        invariant
            a@.len() == b@.len(),
            i <= a@.len(),
            forall|k: int| 0 <= k < i ==> a@[k] == b@[k],
        decreases a@.len() - i,
    {
        if a[i] != b[i] {
            return false;
        }
        i = i + 1;
    }
    assert(a@ =~= b@);
    true
}

// ----------------------------------------------------------------------------
// Attributes

/// The attribute match of `key = value` starting exactly at `p`: its end, the
/// name and the value (the text between the quotes of a quoted value).
pub open spec fn attr_match_at(s: Seq<char>, p: int) -> Option<(int, Seq<char>, Seq<char>)> {
    let e1 = run_end(s, p, CharClass::Key);
    if p < 0 || p > s.len() || e1 == p {
        None
    } else {
        let e2 = run_end(s, e1, CharClass::Space);
        if e2 >= s.len() || s[e2] != '=' {
            None
        } else {
            let e3 = run_end(s, e2 + 1, CharClass::Space);
            let q = run_end(s, e3 + 1, CharClass::NotQuote);
            if e3 < s.len() && s[e3] == '"' && q < s.len() {
                Some((q + 1, s.subrange(p, e1), s.subrange(e3 + 1, q)))
            } else {
                let e4 = run_end(s, e3, CharClass::Value);
                if e4 == e3 {
                    None
                } else {
                    Some((e4, s.subrange(p, e1), s.subrange(e3, e4)))
                }
            }
        }
    }
}

/// An attribute match ends after the place it starts at and inside the
/// text.
pub proof fn lemma_attr_match_end(s: Seq<char>, p: int)
    requires
        0 <= p <= s.len(),
    ensures
        attr_match_at(s, p) matches Some((e, k, v)) ==> p < e <= s.len(),
{
    lemma_run_end_bounds(s, p, CharClass::Key);
    let e1 = run_end(s, p, CharClass::Key);
    lemma_run_end_bounds(s, e1, CharClass::Space);
    let e2 = run_end(s, e1, CharClass::Space);
    if e2 < s.len() {
        lemma_run_end_bounds(s, e2 + 1, CharClass::Space);
        let e3 = run_end(s, e2 + 1, CharClass::Space);
        lemma_run_end_bounds(s, e3, CharClass::Value);
        if e3 < s.len() {
            lemma_run_end_bounds(s, e3 + 1, CharClass::NotQuote);
        }
    }
}

/// The (name, value) pairs the attribute pattern finds in `s` from `i` on, in
/// order: at each position the match that starts there, else the next
/// position.
pub open spec fn attr_pairs(s: Seq<char>, i: int) -> Seq<(Seq<char>, Seq<char>)>
    decreases s.len() - i,
{
    if i < 0 || i >= s.len() {
        seq![]
    } else {
        match attr_match_at(s, i) {
            Some((e, k, v)) => if i < e <= s.len() {
                seq![(k, v)] + attr_pairs(s, e)
            } else {
                seq![]
            },
            None => attr_pairs(s, i + 1),
        }
    }
}

/// The value of the last pair named `key`, as a map that each later pair
/// overwrites gives it.
pub open spec fn attr_lookup(pairs: Seq<(Seq<char>, Seq<char>)>, key: Seq<char>) -> Option<Seq<char>>
    decreases pairs.len(),
{
    if pairs.len() == 0 {
        None
    } else if pairs.last().0 == key {
        Some(pairs.last().1)
    } else {
        attr_lookup(pairs.drop_last(), key)
    }
}

/// The number of distinct names among `pairs`: each pair counts unless an
/// earlier pair has its name.
pub open spec fn distinct_key_count(pairs: Seq<(Seq<char>, Seq<char>)>) -> nat
    decreases pairs.len(),
{
    if pairs.len() == 0 {
        0
    } else {
        distinct_key_count(pairs.drop_last()) + if attr_lookup(
            pairs.drop_last(),
            pairs.last().0,
        ) is Some {
            0nat
        } else {
            1nat
        }
    }
}

proof fn lemma_lookup_some_iff_key(pairs: Seq<(Seq<char>, Seq<char>)>, key: Seq<char>)
    ensures
        attr_lookup(pairs, key) is Some <==> pairs.map_values(
            |p: (Seq<char>, Seq<char>)| p.0,
        ).contains(key),
    decreases pairs.len(),
{
    let keys = pairs.map_values(|p: (Seq<char>, Seq<char>)| p.0);
    if pairs.len() > 0 {
        lemma_lookup_some_iff_key(pairs.drop_last(), key);
        let prev = pairs.drop_last().map_values(|p: (Seq<char>, Seq<char>)| p.0);
        assert(keys =~= prev.push(pairs.last().0));
        if prev.contains(key) {
            let j = choose|j: int| 0 <= j < prev.len() && prev[j] == key;
            assert(keys[j] == key);
        }
        if keys.contains(key) && pairs.last().0 != key {
            let j = choose|j: int| 0 <= j < keys.len() && keys[j] == key;
            assert(prev[j] == key);
        }
        if pairs.last().0 == key {
            assert(keys[keys.len() - 1] == key);
        }
    }
}

/// The distinct-name count is the number of names in the set of names.
pub proof fn law_attribute_count_is_name_set_size(pairs: Seq<(Seq<char>, Seq<char>)>)
    ensures
        distinct_key_count(pairs) == pairs.map_values(|p: (Seq<char>, Seq<char>)| p.0).to_set().len(),
    decreases pairs.len(),
{
    let keys = pairs.map_values(|p: (Seq<char>, Seq<char>)| p.0);
    if pairs.len() == 0 {
        assert(keys.to_set() =~= Set::<Seq<char>>::empty());
    } else {
        law_attribute_count_is_name_set_size(pairs.drop_last());
        let prev = pairs.drop_last().map_values(|p: (Seq<char>, Seq<char>)| p.0);
        let k = pairs.last().0;
        assert(keys =~= prev.push(k));
        assert(keys.to_set() =~= prev.to_set().insert(k)) by {
            assert forall|x: Seq<char>| keys.to_set().contains(x) <==> prev.to_set().insert(k).contains(x) by {
                if keys.contains(x) && x != k {
                    let j = choose|j: int| 0 <= j < keys.len() && keys[j] == x;
                    assert(prev[j] == x);
                }
                if prev.contains(x) {
                    let j = choose|j: int| 0 <= j < prev.len() && prev[j] == x;
                    assert(keys[j] == x);
                }
                if x == k {
                    assert(keys[keys.len() - 1] == x);
                }
            }
        }
        lemma_lookup_some_iff_key(pairs.drop_last(), k);
        vstd::seq_lib::seq_to_set_is_finite(prev);
    }
}

fn match_attribute_at(s: &Vec<char>, p: usize) -> (r: Option<(usize, Vec<char>, Vec<char>)>)
    requires
        p <= s@.len(),
    ensures
        match r {
            Some((e, k, v)) => attr_match_at(s@, p as int) == Some((e as int, k@, v@)),
            None => attr_match_at(s@, p as int) is None,
        },
{
    let n = s.len();
    let e1 = scan(s, p, CharClass::Key);
    if e1 == p {
        return None;
    }
    let e2 = scan(s, e1, CharClass::Space);
    if e2 >= n || s[e2] != '=' {
        return None;
    }
    let e3 = scan(s, e2 + 1, CharClass::Space);
    if e3 < n && s[e3] == '"' {
        let q = scan(s, e3 + 1, CharClass::NotQuote);
        if q < n {
            return Some((q + 1, copy_range(s, p, e1), copy_range(s, e3 + 1, q)));
        }
    }
    let e4 = scan(s, e3, CharClass::Value);
    proof {
        if e3 < n && s@[e3 as int] == '"' {
            lemma_run_end_bounds(s@, e3 as int, CharClass::Value);
        }
    }
    if e4 == e3 {
        return None;
    }
    Some((e4, copy_range(s, p, e1), copy_range(s, e3, e4)))
}

/// Attribute pairs in the order the template gives them; a later pair with
/// the same name overrides an earlier one.
pub struct AttributeMap {
    entries: Vec<(Vec<char>, Vec<char>)>,
}

/// The pairs as character sequences.
pub open spec fn pairs_view(entries: Seq<(Vec<char>, Vec<char>)>) -> Seq<(Seq<char>, Seq<char>)> {
    entries.map_values(|e: (Vec<char>, Vec<char>)| (e.0@, e.1@))
}

impl View for AttributeMap {
    type V = Seq<(Seq<char>, Seq<char>)>;

    closed spec fn view(&self) -> Seq<(Seq<char>, Seq<char>)> {
        pairs_view(self.entries@)
    }
}

impl AttributeMap {
    fn lookup(&self, key: &Vec<char>) -> (r: Option<Vec<char>>)
        ensures
            match r {
                Some(v) => attr_lookup(self@, key@) == Some(v@),
                None => attr_lookup(self@, key@) is None,
            },
    {
        let mut i = self.entries.len();
        assert(self.entries@.take(i as int) =~= self.entries@);
        while i > 0
            invariant
                i <= self.entries@.len(),
                attr_lookup(self@, key@) == attr_lookup(pairs_view(self.entries@.take(i as int)), key@),
            decreases i,
        {
            proof {
                assert(pairs_view(self.entries@.take(i as int)).drop_last() =~= pairs_view(
                    self.entries@.take(i - 1),
                ));
            }
            if chars_equal(&self.entries[i - 1].0, key) {
                let v = copy_range(&self.entries[i - 1].1, 0, self.entries[i - 1].1.len());
                assert(v@ =~= self.entries@[i - 1].1@);
                return Some(v);
            }
            i = i - 1;
        }
        assert(pairs_view(self.entries@.take(0)) =~= Seq::<(Seq<char>, Seq<char>)>::empty());
        None
    }

    /// The value given last to the attribute `key`.
    pub fn get(&self, key: &str) -> (r: Option<String>)
        ensures
            match r {
                Some(v) => attr_lookup(self@, key@) == Some(v@),
                None => attr_lookup(self@, key@) is None,
            },
    {
        let k = chars_of(key);
        match self.lookup(&k) {
            Some(v) => Some(string_of(v.as_slice())),
            None => None,
        }
    }

    fn key_seen(&self, key: &Vec<char>, upto: usize) -> (r: bool)
        requires
            upto <= self.entries@.len(),
        ensures
            r == attr_lookup(pairs_view(self.entries@.take(upto as int)), key@) is Some,
    {
        let mut i = upto;
        while i > 0
            invariant
                i <= upto <= self.entries@.len(),
                (attr_lookup(pairs_view(self.entries@.take(upto as int)), key@) is Some)
                    == (attr_lookup(pairs_view(self.entries@.take(i as int)), key@) is Some),
            decreases i,
        {
            proof {
                assert(pairs_view(self.entries@.take(i as int)).drop_last() =~= pairs_view(
                    self.entries@.take(i - 1),
                ));
            }
            if chars_equal(&self.entries[i - 1].0, key) {
                return true;
            }
            i = i - 1;
        }
        assert(pairs_view(self.entries@.take(0)) =~= Seq::<(Seq<char>, Seq<char>)>::empty());
        false
    }

    /// The number of distinct attribute names.
    pub fn len(&self) -> (r: usize)
        ensures
            r == distinct_key_count(self@),
    {
        let n = self.entries.len();
        let mut count: usize = 0;
        let mut i: usize = 0;
        while i < n
            invariant
                n == self.entries@.len(),
                i <= n,
                count <= i,
                count == distinct_key_count(pairs_view(self.entries@.take(i as int))),
            decreases n - i,
        {
            let seen = self.key_seen(&self.entries[i].0, i);
            proof {
                let t1 = pairs_view(self.entries@.take(i + 1));
                assert(t1.drop_last() =~= pairs_view(self.entries@.take(i as int)));
                assert(t1.last() == (self.entries@[i as int].0@, self.entries@[i as int].1@));
            }
            if !seen {
                count = count + 1;
            }
            i = i + 1;
        }
        assert(self.entries@.take(n as int) =~= self.entries@);
        count
    }
}

fn attribute_pairs(s: &Vec<char>) -> (r: AttributeMap)
    ensures
        r@ == attr_pairs(s@, 0),
{
    let mut entries: Vec<(Vec<char>, Vec<char>)> = Vec::new();
    let n = s.len();
    let mut i: usize = 0;
    while i < n
        invariant
            n == s@.len(),
            i <= n,
            pairs_view(entries@) + attr_pairs(s@, i as int) == attr_pairs(s@, 0),
        decreases n - i,
    {
        proof {
            lemma_attr_match_end(s@, i as int);
        }
        match match_attribute_at(s, i) {
            Some((e, k, v)) => {
                let ghost before = entries@;
                entries.push((k, v));
                assert(pairs_view(entries@) =~= pairs_view(before) + seq![(k@, v@)]);
                i = e;
            },
            None => {
                i = i + 1;
            },
        }
    }
    assert(attr_pairs(s@, i as int) == Seq::<(Seq<char>, Seq<char>)>::empty());
    assert(pairs_view(entries@) =~= attr_pairs(s@, 0));
    AttributeMap { entries }
}

/// The attributes the attribute pattern finds in `input`, in order.
pub fn parse_attributes(input: &str) -> (r: Result<AttributeMap, TemplateError>)
    ensures
        r matches Ok(m) && m@ == attr_pairs(input@, 0),
{
    let s = chars_of(input);
    Ok(attribute_pairs(&s))
}


// ----------------------------------------------------------------------------
// Component tags

/// The tag match starting exactly at `p`: its end, the tag name and the
/// attribute text. The name is the whole run of letters and digits after `<`;
/// the white space after it is all taken unless the attribute text would be
/// empty, in which case its last character becomes the attribute text.
pub open spec fn component_match_at(s: Seq<char>, p: int) -> Option<(int, Seq<char>, Seq<char>)> {
    if p < 0 || p >= s.len() || s[p] != '<' {
        None
    } else {
        let e1 = run_end(s, p + 1, CharClass::Name);
        let e2 = run_end(s, e1, CharClass::Space);
        let e3 = run_end(s, e2, CharClass::NotTagEnd);
        let a = if e3 > e2 {
            e2
        } else {
            e2 - 1
        };
        if e1 == p + 1 || e2 == e1 || (e3 == e2 && e2 - e1 < 2) {
            None
        } else if e3 < s.len() && s[e3] == '>' {
            Some((e3 + 1, s.subrange(p + 1, e1), s.subrange(a, e3)))
        } else if e3 + 1 < s.len() && s[e3] == '/' && s[e3 + 1] == '>' {
            Some((e3 + 2, s.subrange(p + 1, e1), s.subrange(a, e3)))
        } else {
            None
        }
    }
}

/// A tag match ends after the place it starts at and inside the text.
pub proof fn lemma_component_match_end(s: Seq<char>, p: int)
    requires
        0 <= p <= s.len(),
    ensures
        component_match_at(s, p) matches Some((e, n, a)) ==> p < e <= s.len(),
{
    if p < s.len() {
        lemma_run_end_bounds(s, p + 1, CharClass::Name);
        let e1 = run_end(s, p + 1, CharClass::Name);
        lemma_run_end_bounds(s, e1, CharClass::Space);
        let e2 = run_end(s, e1, CharClass::Space);
        lemma_run_end_bounds(s, e2, CharClass::NotTagEnd);
    }
}

/// The (name, attribute text) pairs of the tags found in `s` from `i` on.
pub open spec fn component_tags(s: Seq<char>, i: int) -> Seq<(Seq<char>, Seq<char>)>
    decreases s.len() - i,
{
    if i < 0 || i >= s.len() {
        seq![]
    } else {
        match component_match_at(s, i) {
            Some((e, n, a)) => if i < e <= s.len() {
                seq![(n, a)] + component_tags(s, e)
            } else {
                seq![]
            },
            None => component_tags(s, i + 1),
        }
    }
}

fn match_component_at(s: &Vec<char>, p: usize) -> (r: Option<(usize, Vec<char>, Vec<char>)>)
    requires
        p <= s@.len(),
    ensures
        match r {
            Some((e, k, v)) => component_match_at(s@, p as int) == Some((e as int, k@, v@)),
            None => component_match_at(s@, p as int) is None,
        },
{
    let n = s.len();
    if p >= n || s[p] != '<' {
        return None;
    }
    let e1 = scan(s, p + 1, CharClass::Name);
    let e2 = scan(s, e1, CharClass::Space);
    let e3 = scan(s, e2, CharClass::NotTagEnd);
    if e1 == p + 1 || e2 == e1 || (e3 == e2 && e2 - e1 < 2) {
        return None;
    }
    let a = if e3 > e2 {
        e2
    } else {
        e2 - 1
    };
    if e3 < n && s[e3] == '>' {
        Some((e3 + 1, copy_range(s, p + 1, e1), copy_range(s, a, e3)))
    } else if e3 < n && e3 + 1 < n && s[e3] == '/' && s[e3 + 1] == '>' {
        Some((e3 + 2, copy_range(s, p + 1, e1), copy_range(s, a, e3)))
    } else {
        None
    }
}

// ----------------------------------------------------------------------------
// Integers

/// Whether `c` is an ASCII digit.
pub open spec fn is_digit(c: char) -> bool {
    '0' <= c <= '9'
}

/// Whether every character of `d` is an ASCII digit.
pub open spec fn all_digits(d: Seq<char>) -> bool {
    forall|i: int| 0 <= i < d.len() ==> is_digit(#[trigger] d[i])
}

/// The value of a sequence of decimal digits.
pub open spec fn digits_value(d: Seq<char>) -> int
    decreases d.len(),
{
    if d.len() == 0 {
        0
    } else {
        digits_value(d.drop_last()) * 10 + (d.last() as int - 48)
    }
}

/// The `i32` that `str::parse` reads from `s`: an optional `+` or `-`, then one
/// or more ASCII digits, with a value inside the range of `i32`.
pub open spec fn parse_i32_spec(s: Seq<char>) -> Option<i32> {
    let neg = s.len() > 0 && s[0] == '-';
    let digits = if s.len() > 0 && (s[0] == '-' || s[0] == '+') {
        s.skip(1)
    } else {
        s
    };
    if digits.len() == 0 || !all_digits(digits) {
        None
    } else if neg {
        if -digits_value(digits) >= i32::MIN {
            Some((-digits_value(digits)) as i32)
        } else {
            None
        }
    } else if digits_value(digits) <= i32::MAX {
        Some(digits_value(digits) as i32)
    } else {
        None
    }
}

/// The decimal digits of `n` are digits, at least one, and their value is `n`.
pub proof fn lemma_decimal_digits(n: nat)
    ensures
        decimal(n).len() > 0,
        all_digits(decimal(n)),
        digits_value(decimal(n)) == n,
    decreases n,
{
    let d = if n < 10 { n } else { n % 10 };
    let c = ((d + 48) as u32) as char;
    assert(c as u32 == d + 48);
    if n < 10 {
        assert(decimal(n) =~= seq![c]);
        assert(decimal(n).drop_last() =~= Seq::<char>::empty());
        assert(digits_value(Seq::<char>::empty()) == 0);
    } else {
        lemma_decimal_digits(n / 10);
        vstd::arithmetic::div_mod::lemma_fundamental_div_mod(n as int, 10);
        let s = decimal(n / 10);
        assert(decimal(n) == s.push(c));
        assert(s.push(c).drop_last() =~= s);
        assert forall|i: int| 0 <= i < s.push(c).len() implies is_digit(#[trigger] s.push(c)[i]) by {
            if i < s.len() {
                assert(s.push(c)[i] == s[i]);
            }
        }
    }
}

/// Integer attributes read what a decimal number writes: the digits of `n`,
/// with an optional `+`, read back as `n`, and with a `-` as `-n`, over the
/// whole range of `i32`; text with a character that is not a digit after
/// the sign reads as no number.
pub proof fn law_parse_i32_reads_decimal(n: nat, s: Seq<char>)
    ensures
        n <= i32::MAX ==> parse_i32_spec(decimal(n)) == Some(n as i32),
        n <= i32::MAX ==> parse_i32_spec(seq!['+'] + decimal(n)) == Some(n as i32),
        n <= 0x8000_0000 ==> parse_i32_spec(seq!['-'] + decimal(n)) == Some((-n) as i32),
        n > 0x8000_0000 ==> parse_i32_spec(seq!['-'] + decimal(n)) is None,
        n > i32::MAX ==> parse_i32_spec(decimal(n)) is None,
        s.len() > 1 && !is_digit(s.last()) ==> parse_i32_spec(s) is None,
        s.len() <= 1 && !(s.len() == 1 && is_digit(s[0])) ==> parse_i32_spec(s) is None,
{
    lemma_decimal_digits(n);
    let d = decimal(n);
    assert((seq!['+'] + d).skip(1) =~= d);
    assert((seq!['-'] + d).skip(1) =~= d);
    assert(d[0] != '-' && d[0] != '+');
    if s.len() > 1 && !is_digit(s.last()) {
        let digits = if s[0] == '-' || s[0] == '+' {
            s.skip(1)
        } else {
            s
        };
        assert(digits[digits.len() - 1] == s.last());
    }
    if s.len() == 1 && !is_digit(s[0]) && (s[0] == '-' || s[0] == '+') {
        assert(s.skip(1).len() == 0);
    }
}

/// A prefix of a digit sequence has a value no larger than the whole.
pub(crate) proof fn lemma_digits_value_grows(d: Seq<char>, i: int)
    requires
        0 <= i <= d.len(),
        all_digits(d),
    ensures
        0 <= digits_value(d.take(i)) <= digits_value(d),
    decreases d.len(),
{
    if i == d.len() {
        assert(d.take(i) =~= d);
        if d.len() > 0 {
            lemma_digits_value_grows(d.drop_last(), 0);
        }
    } else {
        let e = d.drop_last();
        assert(all_digits(e)) by {
            assert forall|k: int| 0 <= k < e.len() implies is_digit(#[trigger] e[k]) by {
                assert(e[k] == d[k]);
            }
        }
        assert(e.take(i) =~= d.take(i));
        assert(is_digit(d[d.len() - 1]));
        lemma_digits_value_grows(e, i);
    }
}

/// Parses a decimal `i32` as `str::parse` does.
pub fn parse_i32(s: &Vec<char>) -> (r: Option<i32>)
    ensures
        r == parse_i32_spec(s@),
{
    let n = s.len();
    let neg = n > 0 && s[0] == '-';
    let start: usize = if n > 0 && (s[0] == '-' || s[0] == '+') {
        1
    } else {
        0
    };
    let ghost digits = s@.skip(start as int);
    assert(start == 0 ==> digits =~= s@);
    if start >= n {
        assert(digits.len() == 0);
        return None;
    }
    let mut k = start;
    while k < n
        invariant
            start <= k <= n,
            n == s@.len(),
            digits == s@.skip(start as int),
            digits == (if s@.len() > 0 && (s@[0] == '-' || s@[0] == '+') {
                s@.skip(1)
            } else {
                s@
            }),
            forall|j: int| 0 <= j < k - start ==> is_digit(#[trigger] digits[j]),
        decreases n - k,
    {
        if !('0' <= s[k] && s[k] <= '9') {
            assert(!is_digit(digits[k - start]));
            return None;
        }
        k = k + 1;
    }
    assert(all_digits(digits));
    let mut acc: u64 = 0;
    let mut over = false;
    let mut i = start;
    while i < n
        invariant
            start <= i <= n,
            n == s@.len(),
            digits == s@.skip(start as int),
            digits == (if s@.len() > 0 && (s@[0] == '-' || s@[0] == '+') {
                s@.skip(1)
            } else {
                s@
            }),
            neg == (s@.len() > 0 && s@[0] == '-'),
            all_digits(digits),
            acc <= 2147483648,
            !over ==> acc == digits_value(digits.take(i - start)),
            over ==> digits_value(digits.take(i - start)) > 2147483648,
        decreases n - i,
    {
        let ghost t = digits.take(i - start);
        let ghost t1 = digits.take(i - start + 1);
        proof {
            assert(t1.drop_last() =~= t);
            assert(t1.last() == s@[i as int]);
            assert(is_digit(digits[i - start]));
            lemma_digits_value_grows(digits, i - start);
            assert(all_digits(t)) by {
                assert forall|j: int| 0 <= j < t.len() implies is_digit(#[trigger] t[j]) by {
                    assert(t[j] == digits[j]);
                }
            }
            lemma_digits_value_grows(t, 0);
            assert(digits_value(t1) == digits_value(t) * 10 + (s@[i as int] as int - 48));
        }
        let d = (s[i] as u32 - 48) as u64;
        if !over {
            let next = acc * 10 + d;
            if next > 2147483648 {
                over = true;
                acc = 2147483648;
            } else {
                acc = next;
            }
        }
        i = i + 1;
    }
    assert(digits.take(n - start) =~= digits);
    if over {
        return None;
    }
    if neg {
        Some((0 - acc as i64) as i32)
    } else if acc <= 2147483647 {
        Some(acc as i32)
    } else {
        None
    }
}


// ----------------------------------------------------------------------------
// Nodes

/// A layout node as plain values.
pub struct NodeView {
    pub id: Seq<char>,
    pub component: ComponentKind,
    pub display: Display,
    pub flex_direction: FlexDirection,
    pub z_index: i32,
    pub label: Option<Seq<char>>,
    pub tab_index: i32,
    pub mnemonic: Option<Seq<char>>,
    pub role: Option<Seq<char>>,
}

/// An optional string as optional characters.
pub open spec fn opt_view(o: Option<String>) -> Option<Seq<char>> {
    match o {
        Some(s) => Some(s@),
        None => None,
    }
}

/// A node as plain values.
pub open spec fn node_view(n: LayoutNode) -> NodeView {
    NodeView {
        id: n.id@,
        component: n.component,
        display: n.layout.display,
        flex_direction: n.layout.flex_direction,
        z_index: n.layout.z_index,
        label: opt_view(n.accessibility.label),
        tab_index: n.accessibility.tab_index,
        mnemonic: opt_view(n.accessibility.mnemonic),
        role: opt_view(n.accessibility.role),
    }
}

/// `c` with an ASCII upper-case letter turned into its lower-case letter.
pub open spec fn ascii_lower(c: char) -> char {
    if 'A' <= c <= 'Z' {
        ((c as u32) + 32) as char
    } else {
        c
    }
}

/// The component a tag name stands for.
pub open spec fn component_of(name: Seq<char>) -> ComponentKind {
    if name == "TerminalPane"@ {
        ComponentKind::TerminalPane
    } else if name == "OverlayRegion"@ {
        ComponentKind::OverlayRegion
    } else if name == "MenuBar"@ {
        ComponentKind::MenuBar
    } else {
        ComponentKind::Unknown
    }
}

/// The tag name that stands for a known component; empty for `Unknown`,
/// which no tag names.
pub open spec fn component_tag(kind: ComponentKind) -> Seq<char> {
    match kind {
        ComponentKind::TerminalPane => "TerminalPane"@,
        ComponentKind::OverlayRegion => "OverlayRegion"@,
        ComponentKind::MenuBar => "MenuBar"@,
        ComponentKind::Unknown => Seq::empty(),
    }
}

/// Each known component is named by exactly one tag: its own tag gives it
/// back, a tag that gives a known component is that component's tag, and
/// every other name gives `Unknown`. So `TerminalPane`, `OverlayRegion` and
/// `MenuBar` each become their own kind and no two tags share one.
pub proof fn law_component_tags(name: Seq<char>, kind: ComponentKind)
    ensures
        kind != ComponentKind::Unknown ==> component_of(component_tag(kind)) == kind,
        component_of(name) != ComponentKind::Unknown ==> name == component_tag(component_of(name)),
        component_of(name) == ComponentKind::TerminalPane <==> name == "TerminalPane"@,
        component_of(name) == ComponentKind::OverlayRegion <==> name == "OverlayRegion"@,
        component_of(name) == ComponentKind::MenuBar <==> name == "MenuBar"@,
        component_of(name) == ComponentKind::Unknown <==> (name != "TerminalPane"@ && name
            != "OverlayRegion"@ && name != "MenuBar"@),
{
    reveal_strlit("TerminalPane");
    reveal_strlit("OverlayRegion");
    reveal_strlit("MenuBar");
    assert("TerminalPane"@.len() == 12);
    assert("OverlayRegion"@.len() == 13);
    assert("MenuBar"@.len() == 7);
}

/// The id of a node without an `id` attribute: the lower-cased tag name, `_`
/// and the node's position among the nodes.
pub open spec fn default_node_id(name: Seq<char>, index: nat) -> Seq<char> {
    Seq::new(name.len(), |i: int| ascii_lower(name[i])) + seq!['_'] + decimal(index)
}

/// A node without an `id` is named after its tag and position: the tag in
/// lower case (ASCII capitals become small letters, every other character
/// stays), then `_`, then the node's index in decimal.
pub proof fn law_default_node_id(name: Seq<char>, index: nat)
    ensures
        ({
            let d = default_node_id(name, index);
            &&& d.len() > name.len() + 1
            &&& forall|i: int|
                0 <= i < name.len() ==> if 'A' <= name[i] <= 'Z' {
                    #[trigger] d[i] as int == name[i] as int + 32
                } else {
                    d[i] == name[i]
                }
            &&& d[name.len() as int] == '_'
            &&& all_digits(d.skip(name.len() as int + 1))
            &&& digits_value(d.skip(name.len() as int + 1)) == index
        }),
{
    lemma_decimal_digits(index);
    let d = default_node_id(name, index);
    let low = Seq::new(name.len(), |i: int| ascii_lower(name[i]));
    assert(d.skip(name.len() as int + 1) =~= decimal(index));
    assert forall|i: int| 0 <= i < name.len() implies if 'A' <= name[i] <= 'Z' {
        #[trigger] d[i] as int == name[i] as int + 32
    } else {
        d[i] == name[i]
    } by {
        assert(d[i] == low[i]);
        if 'A' <= name[i] <= 'Z' {
            let c = ((name[i] as u32) + 32) as char;
            assert(c as u32 == name[i] as u32 + 32);
        }
    }
}

/// An integer attribute: its value when it parses as an `i32`, else 0.
pub open spec fn int_attr(attrs: Seq<(Seq<char>, Seq<char>)>, key: Seq<char>) -> i32 {
    match attr_lookup(attrs, key) {
        Some(v) => match parse_i32_spec(v) {
            Some(x) => x,
            None => 0,
        },
        None => 0,
    }
}

/// The node a tag with `name` and attribute text `raw` becomes at `index`.
pub open spec fn node_spec(name: Seq<char>, raw: Seq<char>, index: nat) -> NodeView {
    let attrs = attr_pairs(raw, 0);
    NodeView {
        id: match attr_lookup(attrs, "id"@) {
            Some(v) => v,
            None => default_node_id(name, index),
        },
        component: component_of(name),
        display: Display::Flex,
        flex_direction: FlexDirection::Column,
        z_index: int_attr(attrs, "z"@),
        label: attr_lookup(attrs, "label"@),
        tab_index: int_attr(attrs, "tabIndex"@),
        mnemonic: attr_lookup(attrs, "mnemonic"@),
        role: attr_lookup(attrs, "role"@),
    }
}

/// The nodes that a sequence of tags becomes.
pub open spec fn nodes_spec(tags: Seq<(Seq<char>, Seq<char>)>) -> Seq<NodeView> {
    Seq::new(tags.len(), |i: int| node_spec(tags[i].0, tags[i].1, i as nat))
}

fn lower_ascii(name: &Vec<char>) -> (r: Vec<char>)
    ensures
        r@ == Seq::new(name@.len(), |i: int| ascii_lower(name@[i])),
{
    let mut r: Vec<char> = Vec::new();
    let mut i: usize = 0;
    while i < name.len()
        invariant
            i <= name@.len(),
            r@ == Seq::new(i as nat, |k: int| ascii_lower(name@[k])),
        decreases name@.len() - i,
    {
        let c = name[i];
        let l = if 'A' <= c && c <= 'Z' {
            ((c as u8) + 32) as char
        } else {
            c
        };
        r.push(l);
        i = i + 1;
        assert(r@ =~= Seq::new(i as nat, |k: int| ascii_lower(name@[k])));
    }
    r
}

fn opt_string(v: Option<Vec<char>>) -> (r: Option<String>)
    ensures
        opt_view(r) == match v {
            Some(c) => Some(c@),
            None => None::<Seq<char>>,
        },
{
    match v {
        Some(c) => Some(string_of(c.as_slice())),
        None => None,
    }
}

fn int_attribute(attrs: &AttributeMap, key: &str) -> (r: i32)
    ensures
        r == int_attr(attrs@, key@),
{
    match attrs.lookup(&chars_of(key)) {
        Some(v) => match parse_i32(&v) {
            Some(x) => x,
            None => 0,
        },
        None => 0,
    }
}

fn component_kind(name: &Vec<char>) -> (r: ComponentKind)
    ensures
        r == component_of(name@),
{
    if chars_equal(name, &chars_of("TerminalPane")) {
        ComponentKind::TerminalPane
    } else if chars_equal(name, &chars_of("OverlayRegion")) {
        ComponentKind::OverlayRegion
    } else if chars_equal(name, &chars_of("MenuBar")) {
        ComponentKind::MenuBar
    } else {
        ComponentKind::Unknown
    }
}

fn build_node(name: &Vec<char>, raw: &Vec<char>, index: usize) -> (r: LayoutNode)
    ensures
        node_view(r) == node_spec(name@, raw@, index as nat),
{
    let attrs = attribute_pairs(raw);
    let id = match attrs.lookup(&chars_of("id")) {
        Some(v) => string_of(v.as_slice()),
        None => {
            let mut v = lower_ascii(name);
            v.push('_');
            push_decimal(&mut v, index as u64);
            assert(v@ =~= default_node_id(name@, index as nat));
            string_of(v.as_slice())
        },
    };
    let layout = LayoutProps {
        display: Display::Flex,
        flex_direction: FlexDirection::Column,
        z_index: int_attribute(&attrs, "z"),
    };
    let accessibility = AccessibilityProps {
        label: opt_string(attrs.lookup(&chars_of("label"))),
        tab_index: int_attribute(&attrs, "tabIndex"),
        mnemonic: opt_string(attrs.lookup(&chars_of("mnemonic"))),
        role: opt_string(attrs.lookup(&chars_of("role"))),
    };
    LayoutNode { id, component: component_kind(name), layout, accessibility }
}

/// The nodes of the component tags in `body`, in order; refused when there
/// is none.
pub fn parse_components(body: &str) -> (r: Result<Vec<LayoutNode>, TemplateError>)
    ensures
        component_tags(body@, 0).len() == 0 ==> r == Err::<Vec<LayoutNode>, TemplateError>(
            TemplateError::NoComponents,
        ),
        component_tags(body@, 0).len() > 0 ==> (r matches Ok(nodes) && nodes@.map_values(
            |n: LayoutNode| node_view(n),
        ) == nodes_spec(component_tags(body@, 0))),
{
    let s = chars_of(body);
    let n = s.len();
    let mut nodes: Vec<LayoutNode> = Vec::new();
    let ghost mut done: Seq<(Seq<char>, Seq<char>)> = seq![];
    let mut i: usize = 0;
    while i < n
        invariant
            n == s@.len(),
            s@ == body@,
            i <= n,
            done + component_tags(s@, i as int) == component_tags(s@, 0),
            nodes@.len() == done.len(),
            nodes@.map_values(|m: LayoutNode| node_view(m)) == nodes_spec(done),
        decreases n - i,
    {
        proof {
            lemma_component_match_end(s@, i as int);
        }
        match match_component_at(&s, i) {
            Some((e, name, raw)) => {
                let node = build_node(&name, &raw, nodes.len());
                let ghost old_done = done;
                let ghost before = nodes@;
                proof {
                    done = done.push((name@, raw@));
                }
                nodes.push(node);
                assert(nodes@.map_values(|m: LayoutNode| node_view(m)) =~= nodes_spec(done)) by {
                    assert forall|k: int| 0 <= k < done.len() implies nodes@.map_values(
                        |m: LayoutNode| node_view(m),
                    )[k] == nodes_spec(done)[k] by {
                        if k < old_done.len() {
                            assert(nodes@[k] == before[k]);
                            assert(done[k] == old_done[k]);
                            assert(before.map_values(|m: LayoutNode| node_view(m))[k]
                                == nodes_spec(old_done)[k]);
                        } else {
                            assert(nodes@[k] == node);
                            assert(done[k] == (name@, raw@));
                        }
                    }
                }
                i = e;
            },
            None => {
                i = i + 1;
            },
        }
    }
    assert(component_tags(s@, i as int) == Seq::<(Seq<char>, Seq<char>)>::empty());
    assert(done =~= component_tags(s@, 0));
    if nodes.len() == 0 {
        return Err(TemplateError::NoComponents);
    }
    Ok(nodes)
}


// ----------------------------------------------------------------------------
// Front matter

/// The first line at or after `i` that trims to `---`.
pub open spec fn closing_line(lines: Seq<Seq<char>>, i: int) -> Option<int>
    decreases lines.len() - i,
{
    if i < 0 || i >= lines.len() {
        None
    } else if trim(lines[i]) == "---"@ {
        Some(i)
    } else {
        closing_line(lines, i + 1)
    }
}

/// The lines, each followed by `'\n'`.
pub open spec fn with_newlines(lines: Seq<Seq<char>>) -> Seq<char>
    decreases lines.len(),
{
    if lines.len() == 0 {
        seq![]
    } else {
        with_newlines(lines.drop_last()) + lines.last() + seq!['\n']
    }
}

/// The lines joined with `'\n'` between them.
pub open spec fn joined(lines: Seq<Seq<char>>) -> Seq<char>
    decreases lines.len(),
{
    if lines.len() == 0 {
        seq![]
    } else if lines.len() == 1 {
        lines[0]
    } else {
        joined(lines.drop_last()) + seq!['\n'] + lines.last()
    }
}

/// The front matter and body of a template: the first line must be exactly
/// `---` and a later line must trim to `---`; the lines between them, each
/// with its newline and trailing white space trimmed off the whole, form the
/// front matter, and the lines after it, joined and trimmed, the body.
pub open spec fn split_frontmatter_spec(input: Seq<char>) -> Result<(Seq<char>, Seq<char>), TemplateError> {
    let ls = lines_of(input);
    if ls.len() == 0 || ls[0] != "---"@ {
        Err(TemplateError::MissingFrontmatterStart)
    } else {
        match closing_line(ls, 1) {
            None => Err(TemplateError::MissingFrontmatterEnd),
            Some(k) => Ok(
                (
                    trim_end(with_newlines(ls.subrange(1, k))),
                    trim(joined(ls.subrange(k + 1, ls.len() as int))),
                ),
            ),
        }
    }
}

proof fn lemma_with_newlines_cons(l: Seq<char>, m: Seq<Seq<char>>)
    ensures
        with_newlines(seq![l] + m) == l + seq!['\n'] + with_newlines(m),
    decreases m.len(),
{
    if m.len() > 0 {
        lemma_with_newlines_cons(l, m.drop_last());
        assert((seq![l] + m).drop_last() =~= seq![l] + m.drop_last());
        assert((seq![l] + m).last() == m.last());
        assert(with_newlines(seq![l] + m) =~= l + seq!['\n'] + with_newlines(m));
    } else {
        assert(seq![l] + m =~= seq![l]);
        assert(seq![l].drop_last() =~= Seq::<Seq<char>>::empty());
        assert(with_newlines(Seq::<Seq<char>>::empty()) =~= Seq::<char>::empty());
        assert(m =~= Seq::<Seq<char>>::empty());
        assert(with_newlines(seq![l]) == with_newlines(seq![l].drop_last()) + seq![l].last()
            + seq!['\n']);
        assert(with_newlines(seq![l] + m) =~= l + seq!['\n'] + with_newlines(m));
    }
}

/// Whether `m` can stand between the markers of a template: lines without
/// breaks, none ending in `'\r'` and none that trims to `---`.
pub open spec fn plain_meta_lines(m: Seq<Seq<char>>) -> bool {
    forall|i: int|
        0 <= i < m.len() ==> {
            &&& no_newline(#[trigger] m[i])
            &&& !(m[i].len() > 0 && m[i].last() == '\r')
            &&& trim(m[i]) != seq!['-', '-', '-']
        }
}

proof fn lemma_lines_of_meta(m: Seq<Seq<char>>, z: Seq<char>)
    requires
        plain_meta_lines(m),
    ensures
        lines_of(with_newlines(m) + z) == m + lines_of(z),
    decreases m.len(),
{
    if m.len() > 0 {
        let l = m[0];
        let rest = m.drop_first();
        assert(m =~= seq![l] + rest);
        lemma_with_newlines_cons(l, rest);
        assert(plain_meta_lines(rest)) by {
            assert forall|i: int| 0 <= i < rest.len() implies {
                &&& no_newline(#[trigger] rest[i])
                &&& !(rest[i].len() > 0 && rest[i].last() == '\r')
                &&& trim(rest[i]) != seq!['-', '-', '-']
            } by {
                assert(rest[i] == m[i + 1]);
            }
        }
        lemma_lines_of_meta(rest, z);
        assert(no_newline(m[0]));
        assert(with_newlines(m) + z =~= l + seq!['\n'] + (with_newlines(rest) + z));
        lemma_lines_cons(l, with_newlines(rest) + z);
        assert(strip_cr(l) == l);
        assert(lines_of(with_newlines(m) + z) =~= m + lines_of(z));
    } else {
        assert(with_newlines(m) + z =~= z);
        assert(m + lines_of(z) =~= lines_of(z));
    }
}

proof fn lemma_closing_line(ls: Seq<Seq<char>>, i: int, k: int)
    requires
        1 <= i <= k < ls.len(),
        trim(ls[k]) == "---"@,
        forall|j: int| i <= j < k ==> trim(#[trigger] ls[j]) != "---"@,
    ensures
        closing_line(ls, i) == Some(k),
    decreases k - i,
{
    if i < k {
        lemma_closing_line(ls, i + 1, k);
    }
}

/// A template assembled from front-matter lines and a body splits back into
/// them: the input `---`, the lines each followed by a break, `---` and the
/// body yields the lines joined (trailing white space trimmed) as its front
/// matter and the body's lines, joined and trimmed, as its body. The lines
/// must hold no break, end in no `'\r'` and not trim to `---`.
pub proof fn law_frontmatter_roundtrip(meta: Seq<Seq<char>>, body: Seq<char>)
    requires
        plain_meta_lines(meta),
    ensures
        split_frontmatter_spec(
            seq!['-', '-', '-', '\n'] + with_newlines(meta) + seq!['-', '-', '-', '\n'] + body,
        ) == Ok::<(Seq<char>, Seq<char>), TemplateError>(
            (trim_end(with_newlines(meta)), trim(joined(lines_of(body)))),
        ),
{
    reveal_strlit("---");
    let dashes = seq!['-', '-', '-'];
    assert("---"@ == dashes);
    let input = seq!['-', '-', '-', '\n'] + with_newlines(meta) + seq!['-', '-', '-', '\n'] + body;
    let tail = dashes + seq!['\n'] + body;
    assert(no_newline(dashes));
    lemma_lines_cons(dashes, body);
    assert(strip_cr(dashes) == dashes);
    lemma_lines_of_meta(meta, tail);
    assert(input =~= dashes + seq!['\n'] + (with_newlines(meta) + tail));
    lemma_lines_cons(dashes, with_newlines(meta) + tail);
    let ls = lines_of(input);
    assert(ls =~= seq![dashes] + meta + seq![dashes] + lines_of(body));
    let k: int = meta.len() as int + 1;
    assert(trim(dashes) == dashes) by {
        assert(!is_space(dashes[0]));
        assert(!is_space(dashes[2]));
        assert(crate::text::space_start_before(dashes, 3) == 3);
        assert(dashes.take(3) =~= dashes);
        assert(crate::text::space_end(dashes, 0) == 0);
        assert(dashes.skip(0) =~= dashes);
    }
    assert forall|j: int| 1 <= j < k implies trim(#[trigger] ls[j]) != "---"@ by {
        assert(ls[j] == meta[j - 1]);
    }
    lemma_closing_line(ls, 1, k);
    assert(ls.subrange(1, k) =~= meta);
    assert(ls.subrange(k + 1, ls.len() as int) =~= lines_of(body));
}

fn append_chars(out: &mut Vec<char>, s: &Vec<char>)
    ensures
        final(out)@ == old(out)@ + s@,
{
    let mut i: usize = 0;
    while i < s.len()
        invariant
            i <= s@.len(),
            out@ == old(out)@ + s@.take(i as int),
        decreases s@.len() - i,
    {
        out.push(s[i]);
        i = i + 1;
        assert(out@ =~= old(out)@ + s@.take(i as int));
    }
    assert(s@.take(s@.len() as int) =~= s@);
}

/// Splits a template into its front matter and its body.
pub fn split_frontmatter(input: &str) -> (r: Result<(String, String), TemplateError>)
    ensures
        match r {
            Ok((front, body)) => split_frontmatter_spec(input@) == Ok::<
                (Seq<char>, Seq<char>),
                TemplateError,
            >((front@, body@)),
            Err(e) => split_frontmatter_spec(input@) == Err::<(Seq<char>, Seq<char>), TemplateError>(
                e,
            ),
        },
{
    let chars = chars_of(input);
    let lines = split_lines(&chars);
    let ghost ls = lines_of(input@);
    let marker = chars_of("---");
    assert(lines@.len() == ls.len());
    if lines.len() == 0 || !chars_equal(&lines[0], &marker) {
        proof {
            if lines@.len() > 0 {
                assert(lines@.map_values(|l: Vec<char>| l@)[0] == lines@[0]@);
            }
        }
        return Err(TemplateError::MissingFrontmatterStart);
    }
    let mut front: Vec<char> = Vec::new();
    let mut i: usize = 1;
    let n = lines.len();
    let mut close: usize = n;
    while i < n
        invariant_except_break
            close == n,
        invariant
            n == lines@.len() == ls.len(),
            lines@.map_values(|l: Vec<char>| l@) == ls,
            marker@ == "---"@,
            1 <= i <= n,
            closing_line(ls, 1) == closing_line(ls, i as int),
            front@ == with_newlines(ls.subrange(1, i as int)),
        ensures
            close == n ==> closing_line(ls, 1) is None,
            close < n ==> closing_line(ls, 1) == Some(close as int) && front@ == with_newlines(
                ls.subrange(1, close as int),
            ),
            close <= n,
        decreases n - i,
    {
        assert(lines@.map_values(|l: Vec<char>| l@)[i as int] == lines@[i as int]@);
        let t = trim_chars(&lines[i]);
        if chars_equal(&t, &marker) {
            close = i;
            break;
        }
        assert(closing_line(ls, i as int) == closing_line(ls, i + 1));
        append_chars(&mut front, &lines[i]);
        front.push('\n');
        assert(ls.subrange(1, i + 1).drop_last() =~= ls.subrange(1, i as int));
        assert(front@ =~= with_newlines(ls.subrange(1, i + 1)));
        i = i + 1;
    }
    if close == n {
        return Err(TemplateError::MissingFrontmatterEnd);
    }
    let mut body: Vec<char> = Vec::new();
    let mut j = close + 1;
    while j < n
        invariant
            n == lines@.len() == ls.len(),
            lines@.map_values(|l: Vec<char>| l@) == ls,
            close < n,
            close + 1 <= j <= n,
            body@ == joined(ls.subrange(close + 1, j as int)),
        decreases n - j,
    {
        assert(lines@.map_values(|l: Vec<char>| l@)[j as int] == lines@[j as int]@);
        if j > close + 1 {
            body.push('\n');
        }
        append_chars(&mut body, &lines[j]);
        assert(ls.subrange(close + 1, j + 1).drop_last() =~= ls.subrange(close + 1, j as int));
        assert(body@ =~= joined(ls.subrange(close + 1, j + 1)));
        j = j + 1;
    }
    let front_trimmed = trim_end_chars(&front);
    let body_trimmed = trim_chars(&body);
    Ok((string_of(front_trimmed.as_slice()), string_of(body_trimmed.as_slice())))
}

/// A layout document from parsed front matter and a template body; refused
/// when the id is blank or the body holds no component tag.
pub fn build_document(meta: FrontMatter, body: &str) -> (r: Result<LayoutDocument, TemplateError>)
    ensures
        trim(meta.id@).len() == 0 ==> r == Err::<LayoutDocument, TemplateError>(
            TemplateError::MissingId,
        ),
        trim(meta.id@).len() > 0 && component_tags(body@, 0).len() == 0 ==> r == Err::<
            LayoutDocument,
            TemplateError,
        >(TemplateError::NoComponents),
        trim(meta.id@).len() > 0 && component_tags(body@, 0).len() > 0 ==> (r matches Ok(doc)
            && doc.meta == meta && doc.nodes@.map_values(|n: LayoutNode| node_view(n))
            == nodes_spec(component_tags(body@, 0))),
{
    let id = chars_of(meta.id.as_str());
    if trim_chars(&id).len() == 0 {
        return Err(TemplateError::MissingId);
    }
    match parse_components(body) {
        Err(e) => Err(e),
        Ok(nodes) => Ok(LayoutDocument { meta, nodes }),
    }
}

} // verus!
