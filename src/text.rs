//! Character-level helpers shared by the rest of the library.

use vstd::prelude::*;

verus! {

/// Relies on str::chars: it yields the characters of the string in order.
#[verifier::external_body]
pub(crate) fn chars_of(s: &str) -> (r: Vec<char>)
    ensures
        r@ == s@,
{
    s.chars().collect()
}

/// Relies on String's FromIterator<char>: the string holds the characters in order.
#[verifier::external_body]
pub(crate) fn string_of(v: &[char]) -> (r: String)
    ensures
        r@ == v@,
{
    v.iter().collect()
}

/// Whether two character sequences are equal, element by element.
pub(crate) fn chars_eq(a: &[char], b: &[char]) -> (r: bool)
    ensures
        r == (a@ == b@),
{
    if a.len() != b.len() {
        return false;
    }
    let mut i: usize = 0;
    while i < a.len()
        invariant
            a@.len() == b@.len(),
            i <= a@.len(),
            forall|j: int| 0 <= j < i ==> a@[j] == b@[j],
        decreases a@.len() - i,
    {
        if a[i] != b[i] {
            return false;
        }
        i = i + 1;
    }
    assert(a@ =~= b@);
    true
}

/// Whether two strings hold the same characters.
pub(crate) fn str_eq(a: &str, b: &str) -> (r: bool)
    ensures
        r == (a@ == b@),
{
    let va = chars_of(a);
    let vb = chars_of(b);
    chars_eq(va.as_slice(), vb.as_slice())
}


/// Appends the characters of `s` to `v`.
pub(crate) fn push_str(v: &mut Vec<char>, s: &str)
    ensures
        final(v)@ == old(v)@ + s@,
{
    let cs = chars_of(s);
    push_chars(v, cs.as_slice());
}

/// Appends the characters of `s` to `v`.
pub(crate) fn push_chars(v: &mut Vec<char>, s: &[char])
    ensures
        final(v)@ == old(v)@ + s@,
{
    let ghost start = v@;
    let mut i: usize = 0;
    while i < s.len()
        invariant
            i <= s@.len(),
            v@ == start + s@.subrange(0, i as int),
        decreases s@.len() - i,
    {
        v.push(s[i]);
        i = i + 1;
        assert(v@ =~= start + s@.subrange(0, i as int));
    }
    assert(s@.subrange(0, s@.len() as int) =~= s@);
}

/// An ASCII upper-case letter.
pub open spec fn is_ascii_upper(c: char) -> bool {
    'A' <= c && c <= 'Z'
}

/// An ASCII lower-case letter.
pub open spec fn is_ascii_lower(c: char) -> bool {
    'a' <= c && c <= 'z'
}

/// An ASCII letter or digit.
pub open spec fn is_ascii_alnum(c: char) -> bool {
    is_ascii_upper(c) || is_ascii_lower(c) || ('0' <= c && c <= '9')
}

/// Two characters that are equal once ASCII letters are folded to lower case.
pub open spec fn char_eq_ignore_ascii_case(a: char, b: char) -> bool {
    a == b || (is_ascii_upper(a) && a as u32 + 32 == b as u32) || (is_ascii_upper(b) && b as u32
        + 32 == a as u32)
}

/// Two sequences of equal length that agree up to ASCII case.
pub open spec fn eq_ignore_ascii_case(a: Seq<char>, b: Seq<char>) -> bool {
    &&& a.len() == b.len()
    &&& forall|i: int| 0 <= i < a.len() ==> char_eq_ignore_ascii_case(#[trigger] a[i], b[i])
}

/// Whether `a` and `b` agree up to ASCII case.
pub(crate) fn str_eq_ignore_ascii_case(a: &str, b: &str) -> (r: bool)
    ensures
        r == eq_ignore_ascii_case(a@, b@),
{
    let va = chars_of(a);
    let vb = chars_of(b);
    if va.len() != vb.len() {
        return false;
    }
    let mut i: usize = 0;
    while i < va.len()
        invariant
            va@ == a@,
            vb@ == b@,
            va@.len() == vb@.len(),
            i <= va@.len(),
            forall|j: int| 0 <= j < i ==> char_eq_ignore_ascii_case(#[trigger] va@[j], vb@[j]),
        decreases va@.len() - i,
    {
        let x = va[i];
        let y = vb[i];
        let same = x == y || ('A' <= x && x <= 'Z' && (x as u32) + 32 == y as u32) || ('A' <= y
            && y <= 'Z' && (y as u32) + 32 == x as u32);
        if !same {
            return false;
        }
        i = i + 1;
    }
    true
}


/// What is placed before a relative component joined onto `base`: nothing for an
/// empty base, a separator unless the base already ends with one.
pub open spec fn join_prefix(base: Seq<char>) -> Seq<char> {
    if base.len() == 0 {
        base
    } else if base.last() == '/' {
        base
    } else {
        base.push('/')
    }
}

/// A relative component `part` joined onto the directory `base`.
pub open spec fn path_join(base: Seq<char>, part: Seq<char>) -> Seq<char> {
    join_prefix(base) + part
}

/// Appends the join prefix of `v` to `v`, so that a component can follow.
pub(crate) fn push_separator(v: &mut Vec<char>)
    ensures
        final(v)@ == join_prefix(old(v)@),
{
    let n = v.len();
    if n > 0 && v[n - 1] != '/' {
        v.push('/');
    }
}

/// Joining onto one base is injective in the component.
pub proof fn lemma_path_join_injective(base: Seq<char>, p1: Seq<char>, p2: Seq<char>)
    requires
        path_join(base, p1) == path_join(base, p2),
    ensures
        p1 == p2,
{
    let pre = join_prefix(base);
    assert(p1 =~= path_join(base, p1).subrange(pre.len() as int, path_join(base, p1).len() as int));
    assert(p2 =~= path_join(base, p2).subrange(pre.len() as int, path_join(base, p2).len() as int));
}


/// A character of Unicode's White_Space property, the set that `char::is_whitespace`
/// and `str::trim` use.
pub open spec fn is_ws(c: char) -> bool {
    ('\u{9}' <= c && c <= '\u{d}') || c == ' ' || c == '\u{85}' || c == '\u{a0}' || c == '\u{1680}'
        || ('\u{2000}' <= c && c <= '\u{200a}') || c == '\u{2028}' || c == '\u{2029}' || c
        == '\u{202f}' || c == '\u{205f}' || c == '\u{3000}'
}

/// What a trim removes from the ends of a sequence.
#[derive(Clone, Copy)]
pub enum Trim {
    Whitespace,
    Exactly(char),
}

/// Whether `c` is removed by the trim `t`.
pub open spec fn trims(t: Trim, c: char) -> bool {
    match t {
        Trim::Whitespace => is_ws(c),
        Trim::Exactly(x) => c == x,
    }
}

/// Whether `c` is removed by the trim `t`.
pub(crate) fn trims_char(t: Trim, c: char) -> (r: bool)
    ensures
        r == trims(t, c),
{
    match t {
        Trim::Whitespace => {
            ('\u{9}' <= c && c <= '\u{d}') || c == ' ' || c == '\u{85}' || c == '\u{a0}' || c
                == '\u{1680}' || ('\u{2000}' <= c && c <= '\u{200a}') || c == '\u{2028}' || c
                == '\u{2029}' || c == '\u{202f}' || c == '\u{205f}' || c == '\u{3000}'
        },
        Trim::Exactly(x) => c == x,
    }
}

/// `s` without its leading characters removed by `t`.
pub open spec fn trim_start(s: Seq<char>, t: Trim) -> Seq<char>
    decreases s.len(),
{
    if s.len() > 0 && trims(t, s[0]) {
        trim_start(s.drop_first(), t)
    } else {
        s
    }
}

/// `s` without its trailing characters removed by `t`.
pub open spec fn trim_end(s: Seq<char>, t: Trim) -> Seq<char>
    decreases s.len(),
{
    if s.len() > 0 && trims(t, s.last()) {
        trim_end(s.drop_last(), t)
    } else {
        s
    }
}

/// `s` without the characters removed by `t` at either end.
pub open spec fn trim(s: Seq<char>, t: Trim) -> Seq<char> {
    trim_end(trim_start(s, t), t)
}

/// The characters of `s` from `lo` to `hi`.
pub(crate) fn slice_chars(s: &[char], lo: usize, hi: usize) -> (r: Vec<char>)
    requires
        lo <= hi <= s@.len(),
    ensures
        r@ == s@.subrange(lo as int, hi as int),
{
    let mut r: Vec<char> = Vec::new();
    let mut i: usize = lo;
    while i < hi
        invariant
            lo <= i <= hi <= s@.len(),
            r@ == s@.subrange(lo as int, i as int),
        decreases hi - i,
    {
        r.push(s[i]);
        i = i + 1;
        assert(r@ =~= s@.subrange(lo as int, i as int));
    }
    r
}

/// `s` with the characters removed by `t` taken off both ends.
pub(crate) fn trimmed(s: &[char], t: Trim) -> (r: Vec<char>)
    ensures
        r@ == trim(s@, t),
{
    let n = s.len();
    let mut lo: usize = 0;
    assert(s@.subrange(0, n as int) =~= s@);
    while lo < n && trims_char(t, s[lo])
        invariant
            lo <= n == s@.len(),
            trim_start(s@, t) == trim_start(s@.subrange(lo as int, n as int), t),
        decreases n - lo,
    {
        assert(s@.subrange(lo as int, n as int).drop_first() =~= s@.subrange(lo + 1, n as int));
        lo = lo + 1;
    }
    assert(trim_start(s@, t) == s@.subrange(lo as int, n as int));
    let mut hi: usize = n;
    while hi > lo && trims_char(t, s[hi - 1])
        invariant
            lo <= hi <= n == s@.len(),
            trim(s@, t) == trim_end(s@.subrange(lo as int, hi as int), t),
        decreases hi - lo,
    {
        assert(s@.subrange(lo as int, hi as int).drop_last() =~= s@.subrange(lo as int, hi - 1));
        hi = hi - 1;
    }
    slice_chars(s, lo, hi)
}

/// Every character that survives a trim was in the input at a
/// position that the trim kept: all characters of the result satisfy what all
/// characters of the input satisfy.
pub proof fn lemma_trim_start_keeps(s: Seq<char>, t: Trim, p: spec_fn(char) -> bool)
    requires
        forall|i: int| 0 <= i < s.len() ==> p(#[trigger] s[i]),
    ensures
        forall|i: int| 0 <= i < trim_start(s, t).len() ==> p(#[trigger] trim_start(s, t)[i]),
    decreases s.len(),
{
    if s.len() > 0 && trims(t, s[0]) {
        assert forall|i: int| 0 <= i < s.drop_first().len() implies p(#[trigger] s.drop_first()[i]) by {
            assert(s.drop_first()[i] == s[i + 1]);
        }
        lemma_trim_start_keeps(s.drop_first(), t, p);
        assert(trim_start(s, t) == trim_start(s.drop_first(), t));
    } else {
        assert(trim_start(s, t) == s);
    }
}

/// The trailing-trim counterpart of `lemma_trim_start_keeps`.
pub proof fn lemma_trim_end_keeps(s: Seq<char>, t: Trim, p: spec_fn(char) -> bool)
    requires
        forall|i: int| 0 <= i < s.len() ==> p(#[trigger] s[i]),
    ensures
        forall|i: int| 0 <= i < trim_end(s, t).len() ==> p(#[trigger] trim_end(s, t)[i]),
    decreases s.len(),
{
    if s.len() > 0 && trims(t, s.last()) {
        assert forall|i: int| 0 <= i < s.drop_last().len() implies p(#[trigger] s.drop_last()[i]) by {
            assert(s.drop_last()[i] == s[i]);
        }
        lemma_trim_end_keeps(s.drop_last(), t, p);
        assert(trim_end(s, t) == trim_end(s.drop_last(), t));
    } else {
        assert(trim_end(s, t) == s);
    }
}

/// A trim keeps every property that holds of all characters.
pub proof fn lemma_trim_keeps(s: Seq<char>, t: Trim, p: spec_fn(char) -> bool)
    requires
        forall|i: int| 0 <= i < s.len() ==> p(#[trigger] s[i]),
    ensures
        forall|i: int| 0 <= i < trim(s, t).len() ==> p(#[trigger] trim(s, t)[i]),
{
    lemma_trim_start_keeps(s, t, p);
    lemma_trim_end_keeps(trim_start(s, t), t, p);
}


/// An owned copy of a string.
pub(crate) fn owned(s: &str) -> (r: String)
    ensures
        r@ == s@,
{
    let v = chars_of(s);
    string_of(v.as_slice())
}

/// Whether the characters of `v` just before position `hi` are `pat`.
pub(crate) fn ends_at(v: &[char], hi: usize, pat: &[char]) -> (r: bool)
    requires
        hi <= v@.len(),
    ensures
        r == (pat@.len() <= hi && v@.subrange(hi - pat@.len(), hi as int) == pat@),
{
    if pat.len() > hi {
        return false;
    }
    let lo = hi - pat.len();
    let mut i: usize = 0;
    while i < pat.len()
        invariant
            lo + pat@.len() == hi <= v@.len(),
            i <= pat@.len(),
            forall|j: int| 0 <= j < i ==> v@[lo + j] == pat@[j],
        decreases pat@.len() - i,
    {
        if v[lo + i] != pat[i] {
            assert(v@.subrange(lo as int, hi as int)[i as int] != pat@[i as int]);
            return false;
        }
        i = i + 1;
    }
    assert(v@.subrange(lo as int, hi as int) =~= pat@);
    true
}

/// The last position of `c` in `s`, or -1.
pub open spec fn last_index_of(s: Seq<char>, c: char) -> int
    decreases s.len(),
{
    if s.len() == 0 {
        -1
    } else if s.last() == c {
        s.len() - 1
    } else {
        last_index_of(s.drop_last(), c)
    }
}

/// The last position of `c` in `v`, if any.
pub(crate) fn find_last(v: &[char], c: char) -> (r: Option<usize>)
    ensures
        match r {
            Some(i) => i as int == last_index_of(v@, c) && i < v@.len(),
            None => last_index_of(v@, c) == -1,
        },
{
    let mut hi: usize = v.len();
    assert(v@.subrange(0, hi as int) =~= v@);
    while hi > 0
        invariant
            hi <= v@.len(),
            last_index_of(v@, c) == last_index_of(v@.subrange(0, hi as int), c),
        decreases hi,
    {
        if v[hi - 1] == c {
            return Some(hi - 1);
        }
        assert(v@.subrange(0, hi as int).drop_last() =~= v@.subrange(0, hi - 1));
        hi = hi - 1;
    }
    None
}


/// `s` holds `pat` somewhere, up to ASCII case.
pub open spec fn contains_ignore_ascii_case(s: Seq<char>, pat: Seq<char>) -> bool {
    exists|i: int|
        0 <= i && i + pat.len() <= s.len() && #[trigger] eq_ignore_ascii_case(
            s.subrange(i, i + pat.len()),
            pat,
        )
}

/// Whether the characters of `s` from `lo` agree with `pat` up to ASCII case.
fn window_eq_ignore_ascii_case(s: &[char], lo: usize, pat: &[char]) -> (r: bool)
    requires
        lo + pat@.len() <= s@.len(),
    ensures
        r == eq_ignore_ascii_case(s@.subrange(lo as int, lo + pat@.len()), pat@),
{
    let ghost w = s@.subrange(lo as int, lo + pat@.len());
    let n = s.len();
    let mut i: usize = 0;
    while i < pat.len()
        invariant
            n == s@.len(),
            lo + pat@.len() <= s@.len(),
            w == s@.subrange(lo as int, lo + pat@.len()),
            i <= pat@.len(),
            forall|j: int| 0 <= j < i ==> char_eq_ignore_ascii_case(#[trigger] w[j], pat@[j]),
        decreases pat@.len() - i,
    {
        let x = s[lo + i];
        let y = pat[i];
        assert(w[i as int] == x);
        let same = x == y || ('A' <= x && x <= 'Z' && (x as u32) + 32 == y as u32) || ('A' <= y
            && y <= 'Z' && (y as u32) + 32 == x as u32);
        if !same {
            return false;
        }
        i = i + 1;
    }
    true
}

/// Whether `s` holds `pat` somewhere, up to ASCII case.
pub(crate) fn contains_ci(s: &[char], pat: &str) -> (r: bool)
    ensures
        r == contains_ignore_ascii_case(s@, pat@),
{
    let p = chars_of(pat);
    if p.len() > s.len() {
        return false;
    }
    let mut i: usize = 0;
    let last = s.len() - p.len();
    while i <= last
        invariant
            last == s@.len() - pat@.len(),
            p@ == pat@,
            p@.len() <= s@.len(),
            i <= s@.len(),
            forall|j: int|
                0 <= j < i && j + pat@.len() <= s@.len() ==> !#[trigger] eq_ignore_ascii_case(
                    s@.subrange(j, j + pat@.len()),
                    pat@,
                ),
        decreases s@.len() - i,
    {
        if window_eq_ignore_ascii_case(s, i, p.as_slice()) {
            return true;
        }
        if i == last {
            return false;
        }
        i = i + 1;
    }
    false
}


/// The character of a decimal digit.
pub open spec fn digit_char(d: int) -> char {
    if d == 0 {
        '0'
    } else if d == 1 {
        '1'
    } else if d == 2 {
        '2'
    } else if d == 3 {
        '3'
    } else if d == 4 {
        '4'
    } else if d == 5 {
        '5'
    } else if d == 6 {
        '6'
    } else if d == 7 {
        '7'
    } else if d == 8 {
        '8'
    } else {
        '9'
    }
}

/// The decimal digits of `n`, without leading zeros.
pub open spec fn decimal(n: nat) -> Seq<char>
    decreases n,
{
    if n < 10 {
        seq![digit_char(n as int)]
    } else {
        decimal(n / 10).push(digit_char((n % 10) as int))
    }
}

fn digit(d: u64) -> (r: char)
    requires
        d < 10,
    ensures
        r == digit_char(d as int),
{
    if d == 0 {
        '0'
    } else if d == 1 {
        '1'
    } else if d == 2 {
        '2'
    } else if d == 3 {
        '3'
    } else if d == 4 {
        '4'
    } else if d == 5 {
        '5'
    } else if d == 6 {
        '6'
    } else if d == 7 {
        '7'
    } else if d == 8 {
        '8'
    } else {
        '9'
    }
}

/// Appends the decimal digits of `n` to `v`.
pub(crate) fn push_decimal(v: &mut Vec<char>, n: u64)
    ensures
        final(v)@ == old(v)@ + decimal(n as nat),
    decreases n,
{
    if n >= 10 {
        push_decimal(v, n / 10);
    }
    v.push(digit(n % 10));
    assert(v@ =~= old(v)@ + decimal(n as nat));
}

} // verus!
