//! Character-level text utilities: conversions between strings and character
//! vectors, Unicode white space, trimming, line splitting and decimal numbers.

use vstd::prelude::*;

verus! {

/// The characters of `s`.
pub fn chars_of(s: &str) -> (r: Vec<char>)
    ensures
        r@ == s@,
{
    broadcast use vstd::string::axiom_spec_iter;

    let mut v: Vec<char> = Vec::new();
    for c in iter: s.chars()
        invariant
            iter.seq() == s@,
            v@ == iter.seq().take(iter.index() as int),
    {
        v.push(c);
    }
    assert(v@ =~= s@);
    v
}

/// The string made of the characters `v`.
///
/// Collects the characters into a `String` with `FromIterator`.
#[verifier::external_body]
pub(crate) fn string_of(v: &[char]) -> (r: String)
    ensures
        r@ == v@,
{
    v.iter().collect()
}

/// Whether `c` has the Unicode `White_Space` property, the set of characters
/// that `char::is_whitespace`, `str::trim` and the regular-expression class
/// `\s` treat as white space.
pub open spec fn is_space(c: char) -> bool {
    ('\u{9}' <= c <= '\u{d}') || c == ' ' || c == '\u{85}' || c == '\u{a0}' || c == '\u{1680}'
        || ('\u{2000}' <= c <= '\u{200a}') || c == '\u{2028}' || c == '\u{2029}' || c == '\u{202f}'
        || c == '\u{205f}' || c == '\u{3000}'
}

/// Whether `c` is Unicode white space.
pub fn is_space_char(c: char) -> (r: bool)
    ensures
        r == is_space(c),
{
    ('\u{9}' <= c && c <= '\u{d}') || c == ' ' || c == '\u{85}' || c == '\u{a0}' || c == '\u{1680}'
        || ('\u{2000}' <= c && c <= '\u{200a}') || c == '\u{2028}' || c == '\u{2029}' || c
        == '\u{202f}' || c == '\u{205f}' || c == '\u{3000}'
}

/// The index of the first non-space character at or after `i`, or the length.
pub open spec fn space_end(s: Seq<char>, i: int) -> int
    decreases s.len() - i,
{
    if i < 0 || i >= s.len() || !is_space(s[i]) {
        i
    } else {
        space_end(s, i + 1)
    }
}

/// The index just after the last non-space character before `j`, or 0.
pub open spec fn space_start_before(s: Seq<char>, j: int) -> int
    decreases j,
{
    if j <= 0 || j > s.len() || !is_space(s[j - 1]) {
        j
    } else {
        space_start_before(s, j - 1)
    }
}

/// `s` without trailing white space.
pub open spec fn trim_end(s: Seq<char>) -> Seq<char> {
    s.take(space_start_before(s, s.len() as int))
}

/// `s` without leading white space.
pub open spec fn trim_start(s: Seq<char>) -> Seq<char> {
    s.skip(space_end(s, 0))
}

/// `s` without leading and trailing white space.
pub open spec fn trim(s: Seq<char>) -> Seq<char> {
    trim_start(trim_end(s))
}

proof fn lemma_space_end(s: Seq<char>, i: int)
    requires
        0 <= i <= s.len(),
    ensures
        i <= space_end(s, i) <= s.len(),
        forall|x: int| i <= x < space_end(s, i) ==> is_space(#[trigger] s[x]),
        space_end(s, i) < s.len() ==> !is_space(s[space_end(s, i)]),
    decreases s.len() - i,
{
    if i < s.len() && is_space(s[i]) {
        lemma_space_end(s, i + 1);
    }
}

proof fn lemma_space_start_before(s: Seq<char>, j: int)
    requires
        0 <= j <= s.len(),
    ensures
        0 <= space_start_before(s, j) <= j,
        forall|x: int| space_start_before(s, j) <= x < j ==> is_space(#[trigger] s[x]),
        space_start_before(s, j) > 0 ==> !is_space(s[space_start_before(s, j) - 1]),
    decreases j,
{
    if j > 0 && is_space(s[j - 1]) {
        lemma_space_start_before(s, j - 1);
    }
}

/// Trimming cuts white space off both ends and nothing else: the result is
/// a run of `s` that starts at some `k`, everything before `k` and after the
/// run is white space, and the result neither starts nor ends with white
/// space.
pub proof fn law_trim(s: Seq<char>)
    ensures
        trim(s).len() > 0 ==> !is_space(trim(s)[0]) && !is_space(trim(s).last()),
        exists|k: int|
            #![trigger s.subrange(k, k + trim(s).len())]
            0 <= k && k + trim(s).len() <= s.len() && s.subrange(k, k + trim(s).len()) == trim(s)
                && (forall|x: int| 0 <= x < k ==> is_space(#[trigger] s[x])) && (forall|x: int|
                k + trim(s).len() <= x < s.len() ==> is_space(#[trigger] s[x])),
{
    let e = space_start_before(s, s.len() as int);
    lemma_space_start_before(s, s.len() as int);
    let te = trim_end(s);
    assert(te =~= s.take(e));
    lemma_space_end(te, 0);
    let k = space_end(te, 0);
    let t = trim(s);
    assert(t =~= te.skip(k));
    assert(s.subrange(k, k + t.len()) =~= t);
    assert forall|x: int| 0 <= x < k implies is_space(#[trigger] s[x]) by {
        assert(s[x] == te[x]);
    }
    assert forall|x: int| k + t.len() <= x < s.len() implies is_space(#[trigger] s[x]) by {}
    if t.len() > 0 {
        assert(t[0] == te[k]);
        assert(t.last() == s[e - 1]);
    }
}

/// The index of the first non-space character at or after `i`.
pub fn skip_spaces(s: &Vec<char>, i: usize) -> (r: usize)
    requires
        i <= s@.len(),
    ensures
        r == space_end(s@, i as int),
        i <= r <= s@.len(),
{
    let mut j = i;
    while j < s.len() && is_space_char(s[j])
        invariant
            i <= j <= s@.len(),
            space_end(s@, i as int) == space_end(s@, j as int),
        decreases s@.len() - j,
    {
        j = j + 1;
    }
    j
}

/// `s` without leading and trailing white space.
pub fn trim_chars(s: &Vec<char>) -> (r: Vec<char>)
    ensures
        r@ == trim(s@),
{
    let t = trim_end_chars(s);
    let a = skip_spaces(&t, 0);
    let mut r: Vec<char> = Vec::new();
    let mut i = a;
    while i < t.len()
        invariant
            a <= i <= t@.len(),
            r@ == t@.subrange(a as int, i as int),
        decreases t@.len() - i,
    {
        r.push(t[i]);
        i = i + 1;
        assert(r@ =~= t@.subrange(a as int, i as int));
    }
    assert(r@ =~= trim_start(t@));
    r
}

/// `s` without trailing white space.
pub fn trim_end_chars(s: &Vec<char>) -> (r: Vec<char>)
    ensures
        r@ == trim_end(s@),
{
    let mut j = s.len();
    while j > 0 && is_space_char(s[j - 1])
        invariant
            j <= s@.len(),
            space_start_before(s@, s@.len() as int) == space_start_before(s@, j as int),
        decreases j,
    {
        j = j - 1;
    }
    let mut r: Vec<char> = Vec::new();
    let mut i: usize = 0;
    while i < j
        invariant
            i <= j <= s@.len(),
            r@ == s@.take(i as int),
        decreases j - i,
    {
        r.push(s[i]);
        i = i + 1;
        assert(r@ =~= s@.take(i as int));
    }
    r
}

/// The index of the first `'\n'` at or after `i`, or the length.
pub open spec fn newline_at_or_after(s: Seq<char>, i: int) -> int
    decreases s.len() - i,
{
    if i < 0 || i >= s.len() || s[i] == '\n' {
        i
    } else {
        newline_at_or_after(s, i + 1)
    }
}

/// A line terminated by `'\n'`, without a final `'\r'`.
pub open spec fn strip_cr(l: Seq<char>) -> Seq<char> {
    if l.len() > 0 && l.last() == '\r' {
        l.drop_last()
    } else {
        l
    }
}

/// The lines of `s` from index `i` on, as `str::lines` yields them: split at
/// each `'\n'`, a `'\r'` directly before the `'\n'` dropped, and no empty line
/// after a final `'\n'`.
pub open spec fn lines_from(s: Seq<char>, i: int) -> Seq<Seq<char>>
    decreases s.len() - i,
{
    if i < 0 || i >= s.len() {
        seq![]
    } else {
        let j = newline_at_or_after(s, i);
        if j >= s.len() {
            seq![s.subrange(i, s.len() as int)]
        } else if j < i {
            seq![]
        } else {
            seq![strip_cr(s.subrange(i, j))] + lines_from(s, j + 1)
        }
    }
}

/// The lines of `s`.
pub open spec fn lines_of(s: Seq<char>) -> Seq<Seq<char>> {
    lines_from(s, 0)
}

proof fn lemma_newline_bounds(s: Seq<char>, i: int)
    requires
        0 <= i <= s.len(),
    ensures
        i <= newline_at_or_after(s, i) <= s.len(),
        newline_at_or_after(s, i) < s.len() ==> s[newline_at_or_after(s, i)] == '\n',
    decreases s.len() - i,
{
    if i < s.len() && s[i] != '\n' {
        lemma_newline_bounds(s, i + 1);
    }
}

/// Whether `l` holds no line break.
pub open spec fn no_newline(l: Seq<char>) -> bool {
    forall|i: int| 0 <= i < l.len() ==> l[i] != '\n'
}

proof fn lemma_newline_shift(a: Seq<char>, b: Seq<char>, k: int)
    requires
        0 <= k <= b.len(),
    ensures
        newline_at_or_after(a + b, a.len() + k) == a.len() + newline_at_or_after(b, k),
    decreases b.len() - k,
{
    if k < b.len() {
        assert((a + b)[a.len() + k] == b[k]);
        if b[k] != '\n' {
            lemma_newline_shift(a, b, k + 1);
        }
    }
}

/// The lines of `b` from `k` on are those of any text that ends with `b`,
/// read from the same place.
pub(crate) proof fn lemma_lines_shift(a: Seq<char>, b: Seq<char>, k: int)
    requires
        0 <= k <= b.len(),
    ensures
        lines_from(a + b, a.len() + k) == lines_from(b, k),
    decreases b.len() - k,
{
    if k < b.len() {
        lemma_newline_shift(a, b, k);
        lemma_newline_bounds(b, k);
        let j = newline_at_or_after(b, k);
        if j >= b.len() {
            assert((a + b).subrange(a.len() + k, (a + b).len() as int) =~= b.subrange(
                k,
                b.len() as int,
            ));
        } else {
            assert((a + b).subrange(a.len() + k, a.len() + j) =~= b.subrange(k, j));
            lemma_lines_shift(a, b, j + 1);
        }
    }
}

proof fn lemma_newline_after_line(l: Seq<char>, rest: Seq<char>, k: int)
    requires
        no_newline(l),
        0 <= k <= l.len(),
    ensures
        newline_at_or_after(l + seq!['\n'] + rest, k) == l.len(),
    decreases l.len() - k,
{
    let x = l + seq!['\n'] + rest;
    if k < l.len() {
        assert(x[k] == l[k]);
        lemma_newline_after_line(l, rest, k + 1);
    } else {
        assert(x[k] == '\n');
    }
}

/// The lines of a line `l` followed by a break and more text: `l` (without a
/// final `'\r'`), then the lines of the rest.
pub(crate) proof fn lemma_lines_cons(l: Seq<char>, rest: Seq<char>)
    requires
        no_newline(l),
    ensures
        lines_of(l + seq!['\n'] + rest) == seq![strip_cr(l)] + lines_of(rest),
{
    let x = l + seq!['\n'] + rest;
    lemma_newline_after_line(l, rest, 0);
    assert(x.subrange(0, l.len() as int) =~= l);
    let head = l + seq!['\n'];
    assert(x =~= head + rest);
    lemma_lines_shift(head, rest, 0);
}

/// The lines of `s`, as `str::lines` yields them.
pub fn split_lines(s: &Vec<char>) -> (r: Vec<Vec<char>>)
    ensures
        r@.map_values(|l: Vec<char>| l@) == lines_of(s@),
{
    let mut r: Vec<Vec<char>> = Vec::new();
    let mut i: usize = 0;
    let n = s.len();
    let ghost mut done: Seq<Seq<char>> = seq![];
    while i < n
        invariant
            n == s@.len(),
            i <= n,
            r@.map_values(|l: Vec<char>| l@) == done,
            done + lines_from(s@, i as int) == lines_of(s@),
        decreases n - i,
    {
        let mut line: Vec<char> = Vec::new();
        let mut j = i;
        while j < n && s[j] != '\n'
            invariant
                n == s@.len(),
                i <= j <= n,
                line@ == s@.subrange(i as int, j as int),
                newline_at_or_after(s@, i as int) == newline_at_or_after(s@, j as int),
            decreases n - j,
        {
            line.push(s[j]);
            j = j + 1;
            assert(line@ =~= s@.subrange(i as int, j as int));
        }
        proof {
            lemma_newline_bounds(s@, j as int);
        }
        if j >= n {
            proof {
                done = done.push(line@);
            }
            r.push(line);
            assert(lines_from(s@, n as int) == Seq::<Seq<char>>::empty());
            i = n;
        } else {
            let ghost before = line@;
            if line.len() > 0 && line[line.len() - 1] == '\r' {
                line.pop();
                assert(line@ =~= before.drop_last());
            }
            assert(line@ == strip_cr(s@.subrange(i as int, j as int)));
            proof {
                done = done.push(line@);
            }
            r.push(line);
            i = j + 1;
        }
        assert(r@.map_values(|l: Vec<char>| l@) =~= done);
    }
    assert(lines_from(s@, i as int) == Seq::<Seq<char>>::empty());
    assert(done =~= lines_of(s@));
    r
}

/// The decimal digits of `n`.
pub open spec fn decimal(n: nat) -> Seq<char>
    decreases n,
{
    if n < 10 {
        seq![digit_char(n)]
    } else {
        decimal(n / 10).push(digit_char(n % 10))
    }
}

/// The ASCII digit of `d`.
pub open spec fn digit_char(d: nat) -> char {
    ((d + 48) as u32) as char
}

/// Appends the decimal digits of `n` to `out`.
pub fn push_decimal(out: &mut Vec<char>, n: u64)
    ensures
        final(out)@ == old(out)@ + decimal(n as nat),
    decreases n,
{
    if n >= 10 {
        push_decimal(out, n / 10);
    }
    let d = (n % 10) as u8;
    out.push((d + 48) as char);
    proof {
        assert(((d + 48) as u8) as char == digit_char((n % 10) as nat)) by {
            assert(((d + 48) as u8) as u32 == ((n % 10) + 48) as u32);
        }
        if n >= 10 {
            assert(decimal(n as nat) == decimal((n / 10) as nat).push(digit_char((n % 10) as nat)));
        }
    }
    assert(out@ =~= old(out)@ + decimal(n as nat));
}

} // verus!
