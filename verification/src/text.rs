//! Character-level helpers shared by the parsers and renderers.

use vstd::prelude::*;

verus! {

/// The characters of `s`, one element per Unicode scalar value.
pub(crate) fn chars_of(s: &str) -> (v: Vec<char>)
    ensures
        v@ == s@,
{
    broadcast use vstd::string::axiom_spec_iter, vstd::string::next_postcondition;

    let mut v: Vec<char> = Vec::new();
    for c in it: s.chars()
        invariant
            it.seq() == s@,
            v@ == it.seq().take(it.index() as int),
    {
        v.push(c);
    }
    v
}

/// The string made of the characters of `v`, in order.
///
/// Trusted: collects the characters with `FromIterator<char> for String`.
#[verifier::external_body]
pub(crate) fn text_from_chars(v: &[char]) -> (s: String)
    ensures
        s@ == v@,
{
    v.iter().collect()
}

/// Whether two string slices hold the same characters.
pub(crate) fn text_eq(a: &str, b: &str) -> (r: bool)
    ensures
        r == (a@ == b@),
{
    let left = a.to_owned();
    let right = b.to_owned();
    left == right
}

pub open spec fn is_ascii_upper(c: char) -> bool {
    'A' <= c && c <= 'Z'
}

pub open spec fn ascii_lower(c: char) -> char {
    if is_ascii_upper(c) {
        ((c as u32) + 32) as char
    } else {
        c
    }
}

pub fn lower_char(c: char) -> (r: char)
    ensures
        r == ascii_lower(c),
{
    if 'A' <= c && c <= 'Z' {
        ((c as u8) + 32) as char
    } else {
        c
    }
}

/// The text of `cs[a..b]`.
pub fn text_of_range(cs: &Vec<char>, a: usize, b: usize) -> (s: String)
    requires
        a <= b <= cs@.len(),
    ensures
        s@ == cs@.subrange(a as int, b as int),
{
    let all = cs.as_slice();
    text_from_chars(&all[a..b])
}

/// A copy of `cs[a..b]`.
pub fn chars_range(cs: &Vec<char>, a: usize, b: usize) -> (r: Vec<char>)
    requires
        a <= b <= cs@.len(),
    ensures
        r@ == cs@.subrange(a as int, b as int),
{
    let mut out: Vec<char> = Vec::new();
    for k in a..b
        invariant
            b <= cs@.len(),
            out@ == cs@.subrange(a as int, k as int),
    {
        out.push(cs[k]);
        assert(out@ =~= cs@.subrange(a as int, k + 1));
    }
    out
}

/// Whether `c` occurs in `s` at some index `>= from`.
pub open spec fn occurs_from(s: Seq<char>, c: char, from: int) -> bool {
    exists|k: int| from <= k < s.len() && s[k] == c
}

/// The index of the last occurrence of `c` in `s`, or `-1`.
pub open spec fn last_index(s: Seq<char>, c: char) -> int
    decreases s.len(),
{
    if s.len() == 0 {
        -1
    } else if s.last() == c {
        s.len() - 1
    } else {
        last_index(s.drop_last(), c)
    }
}

pub proof fn lemma_last_index_bounds(s: Seq<char>, c: char)
    ensures
        -1 <= last_index(s, c) < s.len(),
        last_index(s, c) >= 0 ==> s[last_index(s, c)] == c,
        !occurs_from(s, c, last_index(s, c) + 1),
    decreases s.len(),
{
    if s.len() > 0 && s.last() != c {
        lemma_last_index_bounds(s.drop_last(), c);
        assert forall|k: int| last_index(s, c) + 1 <= k < s.len() implies s[k] != c by {
            if k < s.len() - 1 {
                assert(s.drop_last()[k] == s[k]);
            }
        }
    }
}

/// The index of the last occurrence of `c` in `s`, if any.
pub fn last_index_of(s: &Vec<char>, c: char) -> (r: Option<usize>)
    ensures
        match r {
            Some(i) => i == last_index(s@, c),
            None => last_index(s@, c) == -1,
        },
        match r {
            Some(i) => i < s@.len() && s@[i as int] == c && !occurs_from(s@, c, i + 1),
            None => !occurs_from(s@, c, 0),
        },
{
    proof {
        lemma_last_index_bounds(s@, c);
    }
    let mut k = s.len();
    assert(s@.take(k as int) =~= s@);
    while k > 0
        invariant
            k <= s@.len(),
            last_index(s@, c) == last_index(s@.take(k as int), c),
            !occurs_from(s@, c, last_index(s@, c) + 1),
            -1 <= last_index(s@, c) < s@.len(),
            last_index(s@, c) >= 0 ==> s@[last_index(s@, c)] == c,
        decreases k,
    {
        assert(s@.take(k as int).drop_last() =~= s@.take(k - 1));
        if s[k - 1] == c {
            return Some(k - 1);
        }
        k = k - 1;
    }
    None
}

/// The index of the first occurrence of `c` in `s[from..]`, if any.
pub fn index_of_from(s: &Vec<char>, c: char, from: usize) -> (r: Option<usize>)
    requires
        from <= s@.len(),
    ensures
        match r {
            Some(i) => from <= i < s@.len() && s@[i as int] == c && forall|k: int|
                from <= k < i ==> s@[k] != c,
            None => forall|k: int| from <= k < s@.len() ==> s@[k] != c,
        },
{
    let mut k = from;
    while k < s.len()
        invariant
            from <= k <= s@.len(),
            forall|j: int| from <= j < k ==> s@[j] != c,
        decreases s@.len() - k,
    {
        if s[k] == c {
            return Some(k);
        }
        k = k + 1;
    }
    None
}

/// `char::is_whitespace`: the characters with the Unicode `White_Space`
/// property.
pub open spec fn is_whitespace(c: char) -> bool {
    ||| c == '\t'
    ||| c == '\n'
    ||| c == '\u{0B}'
    ||| c == '\u{0C}'
    ||| c == '\r'
    ||| c == ' '
    ||| c == '\u{85}'
    ||| c == '\u{A0}'
    ||| c == '\u{1680}'
    ||| ('\u{2000}' <= c && c <= '\u{200A}')
    ||| c == '\u{2028}'
    ||| c == '\u{2029}'
    ||| c == '\u{202F}'
    ||| c == '\u{205F}'
    ||| c == '\u{3000}'
}

pub fn is_whitespace_char(c: char) -> (r: bool)
    ensures
        r == is_whitespace(c),
{
    c == '\t' || c == '\n' || c == '\u{0B}' || c == '\u{0C}' || c == '\r' || c == ' ' || c
        == '\u{85}' || c == '\u{A0}' || c == '\u{1680}' || ('\u{2000}' <= c && c <= '\u{200A}')
        || c == '\u{2028}' || c == '\u{2029}' || c == '\u{202F}' || c == '\u{205F}' || c
        == '\u{3000}'
}

/// `str::trim_start`.
pub open spec fn trim_start(s: Seq<char>) -> Seq<char>
    decreases s.len(),
{
    if s.len() > 0 && is_whitespace(s[0]) {
        trim_start(s.drop_first())
    } else {
        s
    }
}

/// `str::trim_end`.
pub open spec fn trim_end(s: Seq<char>) -> Seq<char>
    decreases s.len(),
{
    if s.len() > 0 && is_whitespace(s.last()) {
        trim_end(s.drop_last())
    } else {
        s
    }
}

/// `str::trim`: leading and trailing whitespace removed.
pub open spec fn trim(s: Seq<char>) -> Seq<char> {
    trim_end(trim_start(s))
}

/// The bounds of `trim(cs[lo..hi])` inside `cs`.
pub fn trim_range(cs: &Vec<char>, lo: usize, hi: usize) -> (r: (usize, usize))
    requires
        lo <= hi <= cs@.len(),
    ensures
        lo <= r.0 <= r.1 <= hi,
        cs@.subrange(r.0 as int, r.1 as int) == trim(cs@.subrange(lo as int, hi as int)),
{
    let mut a = lo;
    while a < hi && is_whitespace_char(cs[a])
        invariant
            lo <= a <= hi <= cs@.len(),
            trim_start(cs@.subrange(lo as int, hi as int)) == trim_start(
                cs@.subrange(a as int, hi as int),
            ),
        decreases hi - a,
    {
        assert(cs@.subrange(a as int, hi as int).drop_first() =~= cs@.subrange(a + 1, hi as int));
        a = a + 1;
    }
    let mut b = hi;
    while b > a && is_whitespace_char(cs[b - 1])
        invariant
            lo <= a <= b <= hi <= cs@.len(),
            trim_end(cs@.subrange(a as int, hi as int)) == trim_end(cs@.subrange(a as int, b as int)),
        decreases b - a,
    {
        assert(cs@.subrange(a as int, b as int).drop_last() =~= cs@.subrange(a as int, b - 1));
        b = b - 1;
    }
    (a, b)
}

/// Whether `pat` occurs in `s` at index `i`.
pub open spec fn occurs_at(s: Seq<char>, pat: Seq<char>, i: int) -> bool {
    0 <= i && i + pat.len() <= s.len() && s.subrange(i, i + pat.len()) == pat
}

/// Whether `pat` occurs in `cs` at index `i`.
pub fn matches_at(cs: &Vec<char>, pat: &Vec<char>, i: usize) -> (r: bool)
    ensures
        r == occurs_at(cs@, pat@, i as int),
{
    if i > cs.len() || pat.len() > cs.len() - i {
        return false;
    }
    let mut k: usize = 0;
    while k < pat.len()
        invariant
            i + pat@.len() <= cs@.len(),
            cs@.len() <= usize::MAX,
            k <= pat@.len(),
            forall|j: int| 0 <= j < k ==> cs@[i + j] == pat@[j],
        decreases pat@.len() - k,
    {
        if cs[i + k] != pat[k] {
            assert(cs@.subrange(i as int, i + pat@.len())[k as int] != pat@[k as int]);
            return false;
        }
        k = k + 1;
    }
    assert(cs@.subrange(i as int, i + pat@.len()) =~= pat@);
    true
}

/// Whether `pat` occurs anywhere in `s`.
pub open spec fn contains_text(s: Seq<char>, pat: Seq<char>) -> bool {
    exists|i: int| occurs_at(s, pat, i)
}

/// `str::contains` with a string pattern.
pub fn contains_chars(cs: &Vec<char>, pat: &Vec<char>) -> (r: bool)
    ensures
        r == contains_text(cs@, pat@),
{
    let mut i: usize = 0;
    while i < cs.len()
        invariant
            i <= cs@.len(),
            forall|j: int| 0 <= j < i ==> !occurs_at(cs@, pat@, j),
        decreases cs@.len() - i,
    {
        if matches_at(cs, pat, i) {
            return true;
        }
        i = i + 1;
    }
    if matches_at(cs, pat, i) {
        return true;
    }
    assert forall|j: int| !occurs_at(cs@, pat@, j) by {
        if 0 <= j && j <= i {
        }
    }
    false
}

/// `str::contains` with a string pattern.
pub fn text_contains(s: &str, pat: &str) -> (r: bool)
    ensures
        r == contains_text(s@, pat@),
{
    let cs = chars_of(s);
    let ps = chars_of(pat);
    contains_chars(&cs, &ps)
}

/// Whether `s` begins with `prefix`.
pub open spec fn starts_with(s: Seq<char>, prefix: Seq<char>) -> bool {
    prefix.len() <= s.len() && s.take(prefix.len() as int) == prefix
}

/// Whether `s` ends with `suffix`.
pub open spec fn ends_with(s: Seq<char>, suffix: Seq<char>) -> bool {
    suffix.len() <= s.len() && s.skip(s.len() - suffix.len()) == suffix
}

/// `str::trim_end_matches` with a non-empty string pattern: every trailing
/// repetition of `pat` removed.
pub open spec fn trim_end_matches(s: Seq<char>, pat: Seq<char>) -> Seq<char>
    decreases s.len(),
{
    if pat.len() > 0 && ends_with(s, pat) {
        trim_end_matches(s.take(s.len() - pat.len()), pat)
    } else {
        s
    }
}

/// `str::trim_start_matches` with a non-empty string pattern: every leading
/// repetition of `pat` removed.
pub open spec fn trim_start_matches(s: Seq<char>, pat: Seq<char>) -> Seq<char>
    decreases s.len(),
{
    if pat.len() > 0 && starts_with(s, pat) {
        trim_start_matches(s.skip(pat.len() as int), pat)
    } else {
        s
    }
}

/// `str::replace` with a non-empty pattern: the leftmost non-overlapping
/// occurrences of `from`, scanning left to right, each replaced by `to`.
pub open spec fn replace_all(s: Seq<char>, from: Seq<char>, to: Seq<char>) -> Seq<char>
    decreases s.len(),
{
    if from.len() == 0 || s.len() == 0 {
        s
    } else if starts_with(s, from) {
        to + replace_all(s.skip(from.len() as int), from, to)
    } else {
        seq![s[0]] + replace_all(s.drop_first(), from, to)
    }
}

/// `str::strip_prefix`.
pub open spec fn strip_prefix(s: Seq<char>, prefix: Seq<char>) -> Option<Seq<char>> {
    if starts_with(s, prefix) {
        Some(s.skip(prefix.len() as int))
    } else {
        None
    }
}

/// Index of the first `c` in `s`, or the length of `s`.
pub open spec fn index_or_len(s: Seq<char>, c: char) -> int
    decreases s.len(),
{
    if s.len() == 0 || s[0] == c {
        0
    } else {
        1 + index_or_len(s.drop_first(), c)
    }
}

pub proof fn lemma_index_or_len_bounds(s: Seq<char>, c: char)
    ensures
        0 <= index_or_len(s, c) <= s.len(),
    decreases s.len(),
{
    if s.len() > 0 && s[0] != c {
        lemma_index_or_len_bounds(s.drop_first(), c);
    }
}

pub proof fn lemma_index_or_len_is(s: Seq<char>, c: char, e: int)
    requires
        0 <= e <= s.len(),
        forall|k: int| 0 <= k < e ==> s[k] != c,
        e == s.len() || s[e] == c,
    ensures
        index_or_len(s, c) == e,
    decreases s.len(),
{
    if s.len() > 0 && s[0] != c {
        lemma_index_or_len_is(s.drop_first(), c, e - 1);
    }
}

/// The length `n` such that `cs[..n]` is `trim_end_matches(cs, pat)`.
pub fn trim_end_matches_len(cs: &Vec<char>, pat: &Vec<char>) -> (n: usize)
    requires
        pat@.len() > 0,
    ensures
        n <= cs@.len(),
        cs@.take(n as int) == trim_end_matches(cs@, pat@),
{
    let mut n = cs.len();
    assert(cs@.take(n as int) =~= cs@);
    while n >= pat.len() && matches_at(cs, pat, n - pat.len())
        invariant
            pat@.len() > 0,
            n <= cs@.len(),
            trim_end_matches(cs@, pat@) == trim_end_matches(cs@.take(n as int), pat@),
        decreases n,
    {
        let ghost t = cs@.take(n as int);
        assert(t.skip(t.len() - pat@.len()) =~= cs@.subrange(n - pat@.len(), n as int));
        assert(t.take(t.len() - pat@.len()) =~= cs@.take(n - pat@.len()));
        n = n - pat.len();
    }
    proof {
        let t = cs@.take(n as int);
        if ends_with(t, pat@) {
            assert(t.skip(t.len() - pat@.len()) =~= cs@.subrange(n - pat@.len(), n as int));
        }
    }
    n
}

/// The index `k >= from` such that `cs[k..]` is
/// `trim_start_matches(cs[from..], pat)`.
pub fn trim_start_matches_from(cs: &Vec<char>, pat: &Vec<char>, from: usize) -> (k: usize)
    requires
        pat@.len() > 0,
        from <= cs@.len(),
    ensures
        from <= k <= cs@.len(),
        cs@.skip(k as int) == trim_start_matches(cs@.skip(from as int), pat@),
{
    let mut k = from;
    let total = cs.len();
    while matches_at(cs, pat, k)
        invariant
            total == cs@.len(),
            pat@.len() > 0,
            from <= k <= cs@.len(),
            trim_start_matches(cs@.skip(from as int), pat@) == trim_start_matches(
                cs@.skip(k as int),
                pat@,
            ),
        decreases cs@.len() - k,
    {
        let ghost t = cs@.skip(k as int);
        assert(occurs_at(cs@, pat@, k as int));
        assert(k + pat@.len() <= cs@.len());
        assert(t.take(pat@.len() as int) =~= cs@.subrange(k as int, k + pat@.len()));
        assert(t.skip(pat@.len() as int) =~= cs@.skip(k + pat@.len()));
        k = k + pat.len();
    }
    proof {
        let t = cs@.skip(k as int);
        if starts_with(t, pat@) {
            assert(t.take(pat@.len() as int) =~= cs@.subrange(k as int, k + pat@.len()));
        }
    }
    k
}

/// `replace_all(cs, from, to)`.
pub fn replace_chars(cs: &Vec<char>, from: &Vec<char>, to: &Vec<char>) -> (r: Vec<char>)
    requires
        from@.len() > 0,
    ensures
        r@ == replace_all(cs@, from@, to@),
{
    let mut out: Vec<char> = Vec::new();
    let mut i: usize = 0;
    assert(cs@.skip(0) =~= cs@);
    while i < cs.len()
        invariant
            from@.len() > 0,
            i <= cs@.len(),
            out@ + replace_all(cs@.skip(i as int), from@, to@) == replace_all(cs@, from@, to@),
        decreases cs@.len() - i,
    {
        let ghost rest = cs@.skip(i as int);
        let ghost before = out@;
        if matches_at(cs, from, i) {
            assert(rest.take(from@.len() as int) =~= cs@.subrange(i as int, i + from@.len()));
            assert(rest.skip(from@.len() as int) =~= cs@.skip(i + from@.len()));
            for j in 0..to.len()
                invariant
                    out@ == before + to@.take(j as int),
            {
                out.push(to[j]);
                assert(out@ =~= before + to@.take(j + 1));
            }
            assert(to@.take(to@.len() as int) =~= to@);
            assert(out@ + replace_all(cs@.skip(i + from@.len()), from@, to@) =~= before + (to@
                + replace_all(rest.skip(from@.len() as int), from@, to@)));
            i = i + from.len();
        } else {
            proof {
                if starts_with(rest, from@) {
                    assert(rest.take(from@.len() as int) =~= cs@.subrange(
                        i as int,
                        i + from@.len(),
                    ));
                }
            }
            out.push(cs[i]);
            assert(rest.drop_first() =~= cs@.skip(i + 1));
            assert(out@ + replace_all(cs@.skip(i + 1), from@, to@) =~= before + (seq![rest[0]]
                + replace_all(rest.drop_first(), from@, to@)));
            i = i + 1;
        }
    }
    assert(cs@.skip(i as int) =~= Seq::<char>::empty());
    assert(out@ + Seq::<char>::empty() =~= out@);
    out
}

/// `parts` joined by `sep`, as `[T]::join` does.
pub open spec fn join_with(parts: Seq<Seq<char>>, sep: Seq<char>) -> Seq<char>
    decreases parts.len(),
{
    if parts.len() == 0 {
        seq![]
    } else if parts.len() == 1 {
        parts[0]
    } else {
        join_with(parts.drop_last(), sep) + sep + parts.last()
    }
}

/// `parts.join(sep)`.
pub fn join_strings(parts: &Vec<String>, sep: &str) -> (r: String)
    ensures
        r@ == join_with(crate::model::texts(*parts), sep@),
{
    let ghost views = crate::model::texts(*parts);
    let mut out = String::new();
    for i in 0..parts.len()
        invariant
            views == crate::model::texts(*parts),
            out@ == join_with(views.take(i as int), sep@),
    {
        assert(views.take(i + 1).drop_last() =~= views.take(i as int));
        if i > 0 {
            out.append(sep);
        }
        out.append(parts[i].as_str());
        assert(views.take(i + 1).last() == parts@[i as int]@);
    }
    assert(views.take(parts@.len() as int) =~= views);
    out
}

/// The decimal digit for `d < 10`.
pub open spec fn digit_char(d: nat) -> char {
    (d + 48) as char
}

/// The decimal representation of `n`.
pub open spec fn decimal(n: nat) -> Seq<char>
    decreases n,
{
    if n < 10 {
        seq![digit_char(n)]
    } else {
        decimal(n / 10).push(digit_char(n % 10))
    }
}

/// The decimal representation of `n`.
pub fn decimal_text(n: usize) -> (r: String)
    ensures
        r@ == decimal(n as nat),
{
    let digits = decimal_chars(n);
    text_from_chars(digits.as_slice())
}

fn decimal_chars(n: usize) -> (r: Vec<char>)
    ensures
        r@ == decimal(n as nat),
    decreases n,
{
    if n < 10 {
        let mut v: Vec<char> = Vec::new();
        v.push(((n as u8) + 48) as char);
        assert(v@ =~= seq![digit_char(n as nat)]);
        v
    } else {
        let mut v = decimal_chars(n / 10);
        v.push((((n % 10) as u8) + 48) as char);
        v
    }
}

} // verus!
