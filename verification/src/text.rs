//! Character-level text handling: the pieces of `str` behaviour that the
//! scripts, configuration files and command outputs of this tool go through
//! (`replace`, `trim`, `lines`, `contains`), stated over `Seq<char>` and
//! implemented on character vectors.
use vstd::prelude::*;

verus! {

broadcast use vstd::string::group_string_axioms;

// ---------------------------------------------------------------------------
// Specifications
// ---------------------------------------------------------------------------

/// The Unicode `White_Space` property, which `str::trim` strips.
pub open spec fn is_white_space(c: char) -> bool {
    let u = c as u32;
    ||| 0x09 <= u <= 0x0d
    ||| u == 0x20
    ||| u == 0x85
    ||| u == 0xa0
    ||| u == 0x1680
    ||| 0x2000 <= u <= 0x200a
    ||| u == 0x2028
    ||| u == 0x2029
    ||| u == 0x202f
    ||| u == 0x205f
    ||| u == 0x3000
}

/// `s` without its leading white space.
pub open spec fn trim_start(s: Seq<char>) -> Seq<char>
    decreases s.len(),
{
    if s.len() > 0 && is_white_space(s[0]) {
        trim_start(s.drop_first())
    } else {
        s
    }
}

/// `s` without its trailing white space.
pub open spec fn trim_end(s: Seq<char>) -> Seq<char>
    decreases s.len(),
{
    if s.len() > 0 && is_white_space(s.last()) {
        trim_end(s.drop_last())
    } else {
        s
    }
}

/// `s` without leading and trailing white space (`str::trim`).
pub open spec fn trim(s: Seq<char>) -> Seq<char> {
    trim_end(trim_start(s))
}

/// `p` occurs in `s` starting at index `i`.
pub open spec fn occurs_at(s: Seq<char>, p: Seq<char>, i: int) -> bool {
    0 <= i && i + p.len() <= s.len() && s.subrange(i, i + p.len()) == p
}

/// `p` occurs somewhere in `s` (`str::contains`).
pub open spec fn contains(s: Seq<char>, p: Seq<char>) -> bool {
    exists|i: int| occurs_at(s, p, i)
}

/// `s` begins with `p`.
pub open spec fn starts_with(s: Seq<char>, p: Seq<char>) -> bool {
    p.len() <= s.len() && s.take(p.len() as int) == p
}

/// `str::replace`: every occurrence of `pat`, taken from the left without
/// overlap, is replaced by `rep`. An empty pattern matches before every
/// character and at the end.
pub open spec fn replace(s: Seq<char>, pat: Seq<char>, rep: Seq<char>) -> Seq<char>
    decreases s.len(),
{
    if pat.len() == 0 {
        if s.len() == 0 {
            rep
        } else {
            rep + seq![s[0]] + replace(s.drop_first(), pat, rep)
        }
    } else if s.len() == 0 {
        Seq::empty()
    } else if starts_with(s, pat) {
        rep + replace(s.skip(pat.len() as int), pat, rep)
    } else {
        seq![s[0]] + replace(s.drop_first(), pat, rep)
    }
}

/// Length of the first line of `s`: the index of the first `'\n'`, or the
/// length of `s` when there is none.
pub open spec fn line_end(s: Seq<char>) -> nat
    decreases s.len(),
{
    if s.len() == 0 {
        0
    } else if s[0] == '\n' {
        0
    } else {
        1 + line_end(s.drop_first())
    }
}

/// A line that was ended by `"\r\n"` loses its `'\r'`.
pub open spec fn strip_cr(l: Seq<char>) -> Seq<char> {
    if l.len() > 0 && l.last() == '\r' {
        l.drop_last()
    } else {
        l
    }
}

/// `str::lines`: the text split at `'\n'`, with a `'\r'` before a `'\n'`
/// removed; a final line ending does not start another line.
pub open spec fn lines(s: Seq<char>) -> Seq<Seq<char>>
    decreases s.len(),
{
    if s.len() == 0 {
        Seq::empty()
    } else {
        let k = line_end(s);
        if k >= s.len() {
            seq![s]
        } else {
            seq![strip_cr(s.take(k as int))] + lines(s.skip(k as int + 1))
        }
    }
}

/// The first of `ls` that contains `p`.
pub open spec fn first_containing(ls: Seq<Seq<char>>, p: Seq<char>) -> Option<Seq<char>>
    decreases ls.len(),
{
    if ls.len() == 0 {
        None
    } else if contains(ls[0], p) {
        Some(ls[0])
    } else {
        first_containing(ls.drop_first(), p)
    }
}

/// The character of a decimal digit.
pub open spec fn digit_char(d: int) -> char {
    if d == 0 {
        '0'
    } else if d == 1 {
        '1'
    } else if d == 2 {
        '2'
    } else if d == 3 {
        '3'
    } else if d == 4 {
        '4'
    } else if d == 5 {
        '5'
    } else if d == 6 {
        '6'
    } else if d == 7 {
        '7'
    } else if d == 8 {
        '8'
    } else {
        '9'
    }
}

/// The decimal notation of `n`, as `Display` writes an unsigned integer.
pub open spec fn decimal(n: nat) -> Seq<char>
    decreases n,
{
    if n < 10 {
        seq![digit_char(n as int)]
    } else {
        decimal(n / 10).push(digit_char((n % 10) as int))
    }
}

// ---------------------------------------------------------------------------
// Lemmas
// ---------------------------------------------------------------------------

proof fn lemma_line_end_is(s: Seq<char>, m: int)
    requires
        0 <= m <= s.len(),
        forall|i: int| 0 <= i < m ==> s[i] != '\n',
        m < s.len() ==> s[m] == '\n',
    ensures
        line_end(s) == m,
    decreases m,
{
    if m > 0 {
        assert forall|i: int| 0 <= i < m - 1 implies s.drop_first()[i] != '\n' by {
            assert(s.drop_first()[i] == s[i + 1]);
        }
        lemma_line_end_is(s.drop_first(), m - 1);
    }
}


/// Where `trim` cuts: the result is the part of `s` from `a` to `b`, what
/// lies before `a` and from `b` on is white space, and the result neither
/// starts nor ends with white space.
pub proof fn lemma_trim_shape(s: Seq<char>) -> (ab: (int, int))
    ensures
        0 <= ab.0 <= ab.1 <= s.len(),
        trim(s) == s.subrange(ab.0, ab.1),
        forall|i: int| 0 <= i < ab.0 ==> is_white_space(#[trigger] s[i]),
        forall|i: int| ab.1 <= i < s.len() ==> is_white_space(#[trigger] s[i]),
        ab.0 < ab.1 ==> !is_white_space(s[ab.0]) && !is_white_space(s[ab.1 - 1]),
{
    let a = lemma_trim_start_shape(s);
    let t = s.skip(a);
    let m = lemma_trim_end_shape(t);
    assert(trim(s) =~= s.subrange(a, a + m));
    assert forall|i: int| a + m <= i < s.len() implies is_white_space(#[trigger] s[i]) by {
        assert(s[i] == t[i - a]);
    }
    if m > 0 {
        assert(t[0] == s[a]);
        assert(t[m - 1] == s[a + m - 1]);
    }
    (a, a + m)
}

proof fn lemma_trim_start_shape(s: Seq<char>) -> (a: int)
    ensures
        0 <= a <= s.len(),
        trim_start(s) == s.skip(a),
        forall|i: int| 0 <= i < a ==> is_white_space(#[trigger] s[i]),
        a < s.len() ==> !is_white_space(s[a]),
    decreases s.len(),
{
    if s.len() > 0 && is_white_space(s[0]) {
        let a1 = lemma_trim_start_shape(s.drop_first());
        assert(s.drop_first().skip(a1) =~= s.skip(a1 + 1));
        assert forall|i: int| 0 <= i < a1 + 1 implies is_white_space(#[trigger] s[i]) by {
            if i > 0 {
                assert(s[i] == s.drop_first()[i - 1]);
            }
        }
        if a1 + 1 < s.len() {
            assert(s[a1 + 1] == s.drop_first()[a1]);
        }
        a1 + 1
    } else {
        assert(s.skip(0) =~= s);
        0
    }
}

proof fn lemma_trim_end_shape(s: Seq<char>) -> (m: int)
    ensures
        0 <= m <= s.len(),
        trim_end(s) == s.take(m),
        forall|i: int| m <= i < s.len() ==> is_white_space(#[trigger] s[i]),
        m > 0 ==> !is_white_space(s[m - 1]),
    decreases s.len(),
{
    if s.len() > 0 && is_white_space(s.last()) {
        let m1 = lemma_trim_end_shape(s.drop_last());
        assert(s.drop_last().take(m1) =~= s.take(m1));
        assert forall|i: int| m1 <= i < s.len() implies is_white_space(#[trigger] s[i]) by {
            if i < s.len() - 1 {
                assert(s[i] == s.drop_last()[i]);
            }
        }
        if m1 > 0 {
            assert(s[m1 - 1] == s.drop_last()[m1 - 1]);
        }
        m1
    } else {
        assert(s.take(s.len() as int) =~= s);
        s.len() as int
    }
}

/// Trimming twice trims no more than trimming once.
pub proof fn lemma_trim_idempotent(s: Seq<char>)
    ensures
        trim(trim(s)) == trim(s),
{
    let ab = lemma_trim_shape(s);
    let t = trim(s);
    let cd = lemma_trim_shape(t);
    if cd.0 > 0 {
        assert(is_white_space(t[0]));
        assert(t[0] == s[ab.0]);
    }
    if cd.1 < t.len() {
        assert(is_white_space(t[t.len() - 1]));
        assert(t[t.len() - 1] == s[ab.1 - 1]);
    }
    assert(trim(t) =~= t);
}

/// An occurrence of a pattern that neither starts nor ends with white space
/// survives trimming.
pub proof fn lemma_trim_keeps(s: Seq<char>, p: Seq<char>)
    requires
        contains(s, p),
        p.len() > 0,
        !is_white_space(p[0]),
        !is_white_space(p.last()),
    ensures
        contains(trim(s), p),
{
    let i = choose|i: int| occurs_at(s, p, i);
    let ab = lemma_trim_shape(s);
    assert(s[i] == s.subrange(i, i + p.len())[0]);
    assert(s[i + p.len() - 1] == s.subrange(i, i + p.len())[p.len() - 1]);
    assert(ab.0 <= i);
    assert(i + p.len() <= ab.1);
    let t = trim(s);
    assert(t.subrange(i - ab.0, i - ab.0 + p.len()) =~= s.subrange(i, i + p.len()));
    assert(occurs_at(t, p, i - ab.0));
}

/// `l` holds no line break.
pub open spec fn no_newline(l: Seq<char>) -> bool {
    forall|i: int| 0 <= i < l.len() ==> l[i] != '\n'
}

proof fn lemma_line_end_bound(s: Seq<char>)
    ensures
        line_end(s) <= s.len(),
        forall|i: int| 0 <= i < line_end(s) ==> s[i] != '\n',
    decreases s.len(),
{
    if s.len() > 0 && s[0] != '\n' {
        lemma_line_end_bound(s.drop_first());
        assert forall|i: int| 0 <= i < line_end(s) implies s[i] != '\n' by {
            if i > 0 {
                assert(s[i] == s.drop_first()[i - 1]);
            }
        }
    }
}

pub proof fn lemma_contains_within(s: Seq<char>, l: Seq<char>, t: Seq<char>)
    requires
        contains(s, l),
        contains(l, t),
    ensures
        contains(s, t),
{
    let i = choose|i: int| occurs_at(s, l, i);
    let j = choose|j: int| occurs_at(l, t, j);
    assert(s.subrange(i + j, i + j + t.len()) =~= l.subrange(j, j + t.len()));
    assert(occurs_at(s, t, i + j));
}

/// Every line of `s` is a part of `s` without a line break.
pub proof fn lemma_lines_in(s: Seq<char>)
    ensures
        forall|k: int|
            0 <= k < lines(s).len() ==> no_newline(#[trigger] lines(s)[k]) && contains(
                s,
                lines(s)[k],
            ),
    decreases s.len(),
{
    if s.len() > 0 {
        let k = line_end(s);
        lemma_line_end_bound(s);
        if k >= s.len() {
            assert(s.subrange(0, s.len() as int) =~= s);
            assert(occurs_at(s, s, 0));
        } else {
            let first = strip_cr(s.take(k as int));
            let rest = s.skip(k as int + 1);
            lemma_lines_in(rest);
            assert(s.subrange(0, first.len() as int) =~= first);
            assert(occurs_at(s, first, 0));
            let k1 = k as int + 1;
            assert(s.subrange(k1, k1 + rest.len()) =~= rest);
            assert(occurs_at(s, rest, k1));
            let ls = lines(s);
            assert(ls == seq![first] + lines(rest));
            assert forall|j: int| 0 <= j < ls.len() implies no_newline(#[trigger] ls[j])
                && contains(s, ls[j]) by {
                if j == 0 {
                    assert(ls[0] == first);
                } else {
                    assert(ls[j] == lines(rest)[j - 1]);
                    lemma_contains_within(s, rest, ls[j]);
                }
            }
        }
    }
}

/// The first line that contains a pattern is a line of the text.
pub proof fn lemma_first_containing_in(ls: Seq<Seq<char>>, p: Seq<char>, s: Seq<char>)
    requires
        forall|k: int| 0 <= k < ls.len() ==> no_newline(#[trigger] ls[k]) && contains(s, ls[k]),
    ensures
        first_containing(ls, p) matches Some(l) ==> no_newline(l) && contains(s, l) && contains(
            l,
            p,
        ),
    decreases ls.len(),
{
    if ls.len() > 0 {
        assert(no_newline(ls[0]));
        if !contains(ls[0], p) {
            assert forall|k: int| 0 <= k < ls.drop_first().len() implies no_newline(
                #[trigger] ls.drop_first()[k],
            ) && contains(s, ls.drop_first()[k]) by {
                assert(ls.drop_first()[k] == ls[k + 1]);
            }
            lemma_first_containing_in(ls.drop_first(), p, s);
        }
    }
}

/// Trimming keeps a part of the text and adds no line break.
pub proof fn lemma_trim_within(l: Seq<char>)
    ensures
        contains(l, trim(l)),
        no_newline(l) ==> no_newline(trim(l)),
{
    let ab = lemma_trim_shape(l);
    assert(l.subrange(ab.0, ab.0 + trim(l).len()) =~= trim(l));
    assert(occurs_at(l, trim(l), ab.0));
    if no_newline(l) {
        assert forall|i: int| 0 <= i < trim(l).len() implies trim(l)[i] != '\n' by {
            assert(trim(l)[i] == l[ab.0 + i]);
        }
    }
}

/// `c` is one of the digits `'0'` to `'9'`.
pub open spec fn is_digit(c: char) -> bool {
    48 <= (c as u32) <= 57
}

/// The number that a string of digits denotes in base ten, each character
/// counting as its distance from `'0'`.
pub open spec fn decimal_value(s: Seq<char>) -> int
    decreases s.len(),
{
    if s.len() == 0 {
        0
    } else {
        decimal_value(s.drop_last()) * 10 + ((s.last() as u32) - 48)
    }
}

proof fn lemma_digit_char(d: int)
    requires
        0 <= d <= 9,
    ensures
        (digit_char(d) as u32) == 48 + d,
{
}

/// The decimal notation of `n` is made of digits only, starts with a
/// nonzero digit unless it is `"0"`, and read in base ten it is `n` again.
pub proof fn law_decimal_reads_back(n: nat)
    ensures
        decimal(n).len() >= 1,
        forall|i: int| 0 <= i < decimal(n).len() ==> is_digit(#[trigger] decimal(n)[i]),
        decimal_value(decimal(n)) == n,
        n >= 1 ==> decimal(n)[0] != '0',
    decreases n,
{
    if n < 10 {
        lemma_digit_char(n as int);
        assert(decimal(n).drop_last() =~= Seq::<char>::empty());
        assert(decimal_value(Seq::<char>::empty()) == 0);
        assert(decimal(n).last() == digit_char(n as int));
        assert(decimal_value(decimal(n)) == decimal_value(decimal(n).drop_last()) * 10 + ((
        decimal(n).last() as u32) - 48));
    } else {
        law_decimal_reads_back(n / 10);
        lemma_digit_char((n % 10) as int);
        let d = decimal(n / 10);
        assert(decimal(n).drop_last() =~= d);
        assert forall|i: int| 0 <= i < decimal(n).len() implies is_digit(#[trigger] decimal(n)[i]) by {
            if i < d.len() {
                assert(decimal(n)[i] == d[i]);
            }
        }
        assert(decimal(n)[0] == d[0]);
        assert((n / 10) * 10 + n % 10 == n);
        assert(decimal(n).last() == digit_char((n % 10) as int));
        assert(decimal_value(decimal(n)) == decimal_value(d) * 10 + ((decimal(n).last() as u32)
            - 48));
    }
}

/// Replacing a pattern that does not occur leaves the text as it is.
pub proof fn law_replace_absent(s: Seq<char>, pat: Seq<char>, rep: Seq<char>)
    requires
        pat.len() > 0,
        !contains(s, pat),
    ensures
        replace(s, pat, rep) == s,
    decreases s.len(),
{
    if s.len() > 0 {
        assert(!starts_with(s, pat)) by {
            if starts_with(s, pat) {
                assert(s.subrange(0, pat.len() as int) =~= s.take(pat.len() as int));
                assert(occurs_at(s, pat, 0));
            }
        }
        let t = s.drop_first();
        assert(!contains(t, pat)) by {
            if contains(t, pat) {
                let i = choose|i: int| occurs_at(t, pat, i);
                assert(s.subrange(i + 1, i + 1 + pat.len()) =~= t.subrange(i, i + pat.len()));
                assert(occurs_at(s, pat, i + 1));
            }
        }
        law_replace_absent(t, pat, rep);
        assert(seq![s[0]] + t =~= s);
    }
}

// ---------------------------------------------------------------------------
// Executable pieces
// ---------------------------------------------------------------------------

/// Collects characters into a `String` through `FromIterator<&char> for
/// String`; the result holds exactly those characters, in order.
#[verifier::external_body]
pub(crate) fn string_from_chars(v: &[char]) -> (s: String)
    ensures
        s@ == v@,
{
    String::from_iter(v)
}

/// The characters of `s`, in order.
pub fn chars_of(s: &str) -> (v: Vec<char>)
    ensures
        v@ == s@,
{
    let mut v: Vec<char> = Vec::new();
    for c in it: s.chars()
        invariant
            v@ == it.seq().take(it.index() as int),
            it.seq() == s@,
    {
        v.push(c);
    }
    v
}

/// Appends `src` to `out`.
pub fn push_all(out: &mut Vec<char>, src: &[char])
    ensures
        final(out)@ == old(out)@ + src@,
{
    let ghost start = out@;
    let mut i: usize = 0;
    while i < src.len()
        invariant
            i <= src.len(),
            out@ == start + src@.take(i as int),
        decreases src.len() - i,
    {
        out.push(src[i]);
        i = i + 1;
        assert(src@.take(i as int) =~= src@.take(i - 1).push(src@[i - 1]));
    }
    assert(src@.take(i as int) =~= src@);
}

/// The characters of `s` from index `i` up to, not including, `j`.
pub fn slice_chars(s: &[char], i: usize, j: usize) -> (v: Vec<char>)
    requires
        i <= j <= s.len(),
    ensures
        v@ == s@.subrange(i as int, j as int),
{
    let mut v: Vec<char> = Vec::new();
    let mut k: usize = i;
    while k < j
        invariant
            i <= k <= j <= s.len(),
            v@ == s@.subrange(i as int, k as int),
        decreases j - k,
    {
        v.push(s[k]);
        k = k + 1;
        assert(s@.subrange(i as int, k as int) =~= s@.subrange(i as int, k - 1).push(s@[k - 1]));
    }
    v
}

/// Whether `c` has the Unicode `White_Space` property (`char::is_whitespace`).
pub fn white_space(c: char) -> (b: bool)
    ensures
        b == is_white_space(c),
{
    let u = c as u32;
    (0x09 <= u && u <= 0x0d) || u == 0x20 || u == 0x85 || u == 0xa0 || u == 0x1680 || (0x2000
        <= u && u <= 0x200a) || u == 0x2028 || u == 0x2029 || u == 0x202f || u == 0x205f || u
        == 0x3000
}

/// `s` without leading and trailing white space.
pub fn trim_chars(s: &[char]) -> (r: Vec<char>)
    ensures
        r@ == trim(s@),
{
    let n = s.len();
    let mut i: usize = 0;
    assert(s@.skip(0) =~= s@);
    while i < n && white_space(s[i])
        invariant
            i <= n == s@.len(),
            trim_start(s@.skip(i as int)) == trim_start(s@),
        decreases n - i,
    {
        assert(s@.skip(i as int).drop_first() =~= s@.skip(i + 1));
        i = i + 1;
    }
    assert(trim_start(s@) == s@.skip(i as int));
    let mut j: usize = n;
    while j > i && white_space(s[j - 1])
        invariant
            i <= j <= n == s@.len(),
            trim_end(s@.subrange(i as int, j as int)) == trim_end(s@.skip(i as int)),
        decreases j,
    {
        assert(s@.subrange(i as int, j as int).drop_last() =~= s@.subrange(i as int, j - 1));
        j = j - 1;
    }
    assert(s@.skip(i as int) =~= s@.subrange(i as int, n as int));
    slice_chars(s, i, j)
}

/// `s` without leading and trailing white space (`str::trim`).
pub fn trim_str(s: &str) -> (r: String)
    ensures
        r@ == trim(s@),
{
    let v = chars_of(s);
    let t = trim_chars(v.as_slice());
    string_from_chars(t.as_slice())
}

/// Whether `p` occurs in `s` at index `i`.
pub fn occurs_at_index(s: &[char], p: &[char], i: usize) -> (b: bool)
    requires
        i <= s.len(),
    ensures
        b == occurs_at(s@, p@, i as int),
{
    if p.len() > s.len() - i {
        return false;
    }
    let mut k: usize = 0;
    while k < p.len()
        invariant
            k <= p.len(),
            i + p.len() <= s.len(),
            forall|m: int| 0 <= m < k ==> s@[i + m] == p@[m],
        decreases p.len() - k,
    {
        if s[i + k] != p[k] {
            assert(s@.subrange(i as int, i + p.len())[k as int] != p@[k as int]);
            return false;
        }
        k = k + 1;
    }
    assert(s@.subrange(i as int, i + p.len()) =~= p@);
    true
}

/// Whether `p` occurs in `s` (`str::contains`).
pub fn contains_chars(s: &[char], p: &[char]) -> (b: bool)
    ensures
        b == contains(s@, p@),
{
    if p.len() == 0 {
        assert(s@.subrange(0, 0) =~= p@);
        assert(occurs_at(s@, p@, 0));
        return true;
    }
    let mut i: usize = 0;
    while p.len() <= s.len() - i
        invariant
            i <= s.len(),
            p.len() > 0,
            forall|m: int| 0 <= m < i ==> !occurs_at(s@, p@, m),
        decreases s.len() + 1 - i,
    {
        if occurs_at_index(s, p, i) {
            return true;
        }
        i = i + 1;
    }
    assert forall|m: int| !occurs_at(s@, p@, m) by {
        if 0 <= m && m < i {
        }
    }
    false
}

/// `s` with every occurrence of `pat` replaced by `rep` (`str::replace`).
pub fn replace_chars(s: &[char], pat: &[char], rep: &[char]) -> (r: Vec<char>)
    ensures
        r@ == replace(s@, pat@, rep@),
{
    let mut out: Vec<char> = Vec::new();
    let mut i: usize = 0;
    assert(s@.skip(0) =~= s@);
    assert(out@ + replace(s@, pat@, rep@) =~= replace(s@, pat@, rep@));
    if pat.len() == 0 {
        while i < s.len()
            invariant
                i <= s.len(),
                pat@.len() == 0,
                out@ + replace(s@.skip(i as int), pat@, rep@) == replace(s@, pat@, rep@),
            decreases s.len() - i,
        {
            let ghost before = out@;
            let ghost rest = s@.skip(i as int);
            assert(rest.drop_first() =~= s@.skip(i + 1));
            assert(rest[0] == s@[i as int]);
            push_all(&mut out, rep);
            out.push(s[i]);
            assert(out@ =~= before + rep@ + seq![s@[i as int]]);
            assert(before + (rep@ + seq![rest[0]] + replace(rest.drop_first(), pat@, rep@))
                =~= out@ + replace(s@.skip(i + 1), pat@, rep@));
            i = i + 1;
        }
        assert(s@.skip(i as int) =~= Seq::<char>::empty());
        push_all(&mut out, rep);
        assert(out@ =~= replace(s@, pat@, rep@));
    } else {
        while i < s.len()
            invariant
                i <= s.len(),
                pat@.len() > 0,
                out@ + replace(s@.skip(i as int), pat@, rep@) == replace(s@, pat@, rep@),
            decreases s.len() - i,
        {
            let ghost before = out@;
            let ghost rest = s@.skip(i as int);
            if occurs_at_index(s, pat, i) {
                assert(rest.take(pat@.len() as int) =~= s@.subrange(i as int, i + pat@.len()));
                assert(rest.skip(pat@.len() as int) =~= s@.skip(i + pat@.len()));
                push_all(&mut out, rep);
                assert(before + (rep@ + replace(rest.skip(pat@.len() as int), pat@, rep@))
                    =~= out@ + replace(s@.skip(i + pat@.len()), pat@, rep@));
                i = i + pat.len();
            } else {
                assert(!starts_with(rest, pat@)) by {
                    if starts_with(rest, pat@) {
                        assert(rest.take(pat@.len() as int) =~= s@.subrange(
                            i as int,
                            i + pat@.len(),
                        ));
                    }
                }
                assert(rest.drop_first() =~= s@.skip(i + 1));
                assert(rest[0] == s@[i as int]);
                out.push(s[i]);
                assert(before + (seq![rest[0]] + replace(rest.drop_first(), pat@, rep@))
                    =~= out@ + replace(s@.skip(i + 1), pat@, rep@));
                i = i + 1;
            }
        }
        assert(s@.skip(i as int) =~= Seq::<char>::empty());
        assert(out@ + replace(s@.skip(i as int), pat@, rep@) =~= out@);
    }
    out
}

/// `s` with every occurrence of `from` replaced by `to` (`str::replace`).
pub fn replace_str(s: &str, from: &str, to: &str) -> (r: String)
    ensures
        r@ == replace(s@, from@, to@),
{
    let sv = chars_of(s);
    let fv = chars_of(from);
    let tv = chars_of(to);
    let r = replace_chars(sv.as_slice(), fv.as_slice(), tv.as_slice());
    string_from_chars(r.as_slice())
}

/// The first line of `s` that contains `p`, without leading and trailing
/// white space.
pub fn first_line_containing(s: &[char], p: &[char]) -> (r: Option<Vec<char>>)
    ensures
        r matches Some(l) ==> first_containing(lines(s@), p@) matches Some(m) && l@ == trim(m),
        r is None ==> first_containing(lines(s@), p@) is None,
{
    let n = s.len();
    let mut i: usize = 0;
    assert(s@.skip(0) =~= s@);
    while i < n
        invariant
            i <= n == s@.len(),
            first_containing(lines(s@.skip(i as int)), p@) == first_containing(lines(s@), p@),
        decreases n - i,
    {
        let ghost rest = s@.skip(i as int);
        let mut j: usize = i;
        while j < n && s[j] != '\n'
            invariant
                i <= j <= n == s@.len(),
                forall|m: int| i <= m < j ==> s@[m] != '\n',
            decreases n - j,
        {
            j = j + 1;
        }
        proof {
            assert forall|m: int| 0 <= m < j - i implies rest[m] != '\n' by {
                assert(rest[m] == s@[i + m]);
            }
            lemma_line_end_is(rest, j - i);
        }
        let mut line = slice_chars(s, i, j);
        assert(line@ =~= rest.take(j - i));
        if j < n && line.len() > 0 && line[line.len() - 1] == '\r' {
            line.pop();
        }
        proof {
            if j < n {
                assert(line@ == strip_cr(rest.take(j - i)));
                assert(rest.skip(j - i + 1) =~= s@.skip(j + 1));
                assert(lines(rest) == seq![line@] + lines(s@.skip(j + 1)));
                assert((seq![line@] + lines(s@.skip(j + 1))).drop_first() =~= lines(
                    s@.skip(j + 1),
                ));
            } else {
                assert(rest.take(j - i) =~= rest);
                assert(lines(rest) == seq![line@]);
                assert(seq![line@].drop_first() =~= Seq::<Seq<char>>::empty());
                assert(s@.skip(n as int) =~= Seq::<char>::empty());
            }
        }
        if contains_chars(line.as_slice(), p) {
            return Some(trim_chars(line.as_slice()));
        }
        if j < n {
            i = j + 1;
        } else {
            i = n;
        }
    }
    assert(s@.skip(i as int) =~= Seq::<char>::empty());
    None
}

/// The decimal notation of `n`.
pub fn decimal_chars(n: u32) -> (v: Vec<char>)
    ensures
        v@ == decimal(n as nat),
    decreases n,
{
    let d = n % 10;
    let c = if d == 0 {
        '0'
    } else if d == 1 {
        '1'
    } else if d == 2 {
        '2'
    } else if d == 3 {
        '3'
    } else if d == 4 {
        '4'
    } else if d == 5 {
        '5'
    } else if d == 6 {
        '6'
    } else if d == 7 {
        '7'
    } else if d == 8 {
        '8'
    } else {
        '9'
    };
    if n < 10 {
        let mut v: Vec<char> = Vec::new();
        v.push(c);
        v
    } else {
        let mut v = decimal_chars(n / 10);
        v.push(c);
        v
    }
}

} // verus!
