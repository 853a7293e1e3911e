//! Character-level text utilities over the view of a string: whitespace,
//! trimming, substring search, splitting and decimal numbers.
use vstd::prelude::*;
use vstd::string::*;

verus! {

/// The Unicode `White_Space` property, which is what `char::is_whitespace` tests.
pub open spec fn is_ws(c: char) -> bool {
    ||| ('\u{9}' <= c && c <= '\u{d}')
    ||| c == ' '
    ||| c == '\u{85}'
    ||| c == '\u{a0}'
    ||| c == '\u{1680}'
    ||| ('\u{2000}' <= c && c <= '\u{200a}')
    ||| c == '\u{2028}'
    ||| c == '\u{2029}'
    ||| c == '\u{202f}'
    ||| c == '\u{205f}'
    ||| c == '\u{3000}'
}

/// `s` without its leading whitespace.
pub open spec fn trim_start(s: Seq<char>) -> Seq<char>
    decreases s.len(),
{
    if s.len() > 0 && is_ws(s[0]) {
        trim_start(s.drop_first())
    } else {
        s
    }
}

/// `s` without its trailing whitespace.
pub open spec fn trim_end(s: Seq<char>) -> Seq<char>
    decreases s.len(),
{
    if s.len() > 0 && is_ws(s.last()) {
        trim_end(s.drop_last())
    } else {
        s
    }
}

/// `s` without leading and trailing whitespace (`str::trim`).
pub open spec fn trim(s: Seq<char>) -> Seq<char> {
    trim_end(trim_start(s))
}

/// Whether `c` is Unicode whitespace.
pub fn is_whitespace(c: char) -> (b: bool)
    ensures
        b == is_ws(c),
{
    ('\u{9}' <= c && c <= '\u{d}') || c == ' ' || c == '\u{85}' || c == '\u{a0}' || c
        == '\u{1680}' || ('\u{2000}' <= c && c <= '\u{200a}') || c == '\u{2028}' || c
        == '\u{2029}' || c == '\u{202f}' || c == '\u{205f}' || c == '\u{3000}'
}

/// The characters of `s`, in order.
pub fn chars_of(s: &str) -> (v: Vec<char>)
    ensures
        v@ == s@,
{
    let n = s.unicode_len();
    let mut v: Vec<char> = Vec::new();
    let mut i: usize = 0;
    while i < n
        invariant
            n == s@.len(),
            i <= n,
            v@ == s@.take(i as int),
        decreases n - i,
    {
        let c = s.get_char(i);
        v.push(c);
        i = i + 1;
        assert(v@ =~= s@.take(i as int));
    }
    assert(v@ =~= s@);
    v
}

/// The bounds of `v[lo..hi]` once its leading and trailing whitespace is
/// removed.
pub fn trim_bounds(v: &Vec<char>, lo: usize, hi: usize) -> (r: (usize, usize))
    requires
        lo <= hi <= v@.len(),
    ensures
        lo <= r.0 <= r.1 <= hi,
        v@.subrange(r.0 as int, r.1 as int) == trim(v@.subrange(lo as int, hi as int)),
{
    let mut a = lo;
    while a < hi && is_whitespace(v[a])
        invariant
            lo <= a <= hi <= v@.len(),
            trim_start(v@.subrange(lo as int, hi as int)) == trim_start(
                v@.subrange(a as int, hi as int),
            ),
        decreases hi - a,
    {
        assert(v@.subrange(a as int, hi as int).drop_first() =~= v@.subrange(
            a + 1,
            hi as int,
        ));
        a = a + 1;
    }
    let mut b = hi;
    while b > a && is_whitespace(v[b - 1])
        invariant
            lo <= a <= b <= hi <= v@.len(),
            trim_end(v@.subrange(a as int, hi as int)) == trim_end(
                v@.subrange(a as int, b as int),
            ),
        decreases b - a,
    {
        assert(v@.subrange(a as int, b as int).drop_last() =~= v@.subrange(
            a as int,
            b - 1,
        ));
        b = b - 1;
    }
    (a, b)
}


/// Whether `p` occurs in `s` at index `i`.
pub open spec fn matches_at(s: Seq<char>, p: Seq<char>, i: int) -> bool {
    0 <= i && i + p.len() <= s.len() && s.subrange(i, i + p.len()) == p
}

/// The first index, not below `i`, at which `p` occurs in `s`.
pub open spec fn find_from(s: Seq<char>, p: Seq<char>, i: int) -> Option<int>
    decreases s.len() + 1 - i,
{
    if i < 0 || i + p.len() > s.len() {
        None
    } else if matches_at(s, p, i) {
        Some(i)
    } else {
        find_from(s, p, i + 1)
    }
}

/// The index of the first occurrence of `p` in `s` (`str::find`).
pub open spec fn find(s: Seq<char>, p: Seq<char>) -> Option<int> {
    find_from(s, p, 0)
}

/// What `find_from` returns is an occurrence, with none before it.
pub proof fn lemma_find_from(s: Seq<char>, p: Seq<char>, i: int)
    requires
        0 <= i,
    ensures
        find_from(s, p, i) matches Some(k) ==> i <= k && matches_at(s, p, k) && forall|j: int|
            i <= j < k ==> !matches_at(s, p, j),
        find_from(s, p, i) is None ==> forall|j: int| i <= j ==> !matches_at(s, p, j),
    decreases s.len() + 1 - i,
{
    if i + p.len() > s.len() {
    } else if matches_at(s, p, i) {
    } else {
        lemma_find_from(s, p, i + 1);
    }
}

/// `s` cut at every non-overlapping occurrence of a non-empty `p`, searched
/// from the left (`str::split` with a string pattern).
pub open spec fn split_str(s: Seq<char>, p: Seq<char>) -> Seq<Seq<char>>
    decreases s.len(),
{
    if p.len() == 0 {
        seq![s]
    } else {
        match find(s, p) {
            Some(k) => if 0 <= k && k + p.len() <= s.len() {
                seq![s.take(k)] + split_str(s.skip(k + p.len()), p)
            } else {
                seq![s]
            },
            None => seq![s],
        }
    }
}

/// `find` gives the occurrence at `k` where none comes before it.
pub proof fn lemma_find_first(s: Seq<char>, p: Seq<char>, k: int)
    requires
        matches_at(s, p, k),
        forall|j: int| 0 <= j < k ==> !matches_at(s, p, j),
    ensures
        find(s, p) == Some(k),
{
    lemma_find_from_first(s, p, 0, k);
}

proof fn lemma_find_from_first(s: Seq<char>, p: Seq<char>, i: int, k: int)
    requires
        0 <= i <= k,
        matches_at(s, p, k),
        forall|j: int| i <= j < k ==> !matches_at(s, p, j),
    ensures
        find_from(s, p, i) == Some(k),
    decreases k - i,
{
    if i < k {
        lemma_find_from_first(s, p, i + 1, k);
    }
}

/// `find` gives nothing where `p` occurs nowhere.
pub proof fn lemma_find_none(s: Seq<char>, p: Seq<char>)
    requires
        forall|j: int| 0 <= j ==> !matches_at(s, p, j),
    ensures
        find(s, p) is None,
{
    lemma_find_from_none(s, p, 0);
}

proof fn lemma_find_from_none(s: Seq<char>, p: Seq<char>, i: int)
    requires
        0 <= i,
        forall|j: int| i <= j ==> !matches_at(s, p, j),
    ensures
        find_from(s, p, i) is None,
    decreases s.len() + 1 - i,
{
    if i + p.len() <= s.len() {
        lemma_find_from_none(s, p, i + 1);
    }
}

/// `p` does not occur at `j` where one of its characters differs.
pub proof fn lemma_mismatch(s: Seq<char>, p: Seq<char>, j: int, t: int)
    requires
        0 <= t < p.len(),
        0 <= j,
        j + t < s.len(),
        s[j + t] != p[t],
    ensures
        !matches_at(s, p, j),
{
    if matches_at(s, p, j) {
        assert(s.subrange(j, j + p.len())[t] == p[t]);
    }
}

/// Whether the character `c` does not occur in `s`.
pub open spec fn lacks(s: Seq<char>, c: char) -> bool {
    forall|i: int| 0 <= i < s.len() ==> s[i] != c
}

/// A non-empty `p` does not occur in a text that lacks its first character.
pub proof fn lemma_find_lacking(s: Seq<char>, p: Seq<char>)
    requires
        p.len() > 0,
        lacks(s, p[0]),
    ensures
        find(s, p) is None,
{
    assert forall|j: int| 0 <= j implies !matches_at(s, p, j) by {
        if j < s.len() {
            lemma_mismatch(s, p, j, 0);
        }
    }
    lemma_find_none(s, p);
}

/// A non-empty `p` is found at `k` where it occurs there and the text before
/// lacks its first character.
pub proof fn lemma_find_after_lacking(s: Seq<char>, p: Seq<char>, k: int)
    requires
        p.len() > 0,
        matches_at(s, p, k),
        lacks(s.take(k), p[0]),
    ensures
        find(s, p) == Some(k),
{
    assert forall|j: int| 0 <= j < k implies !matches_at(s, p, j) by {
        assert(s.take(k)[j] == s[j]);
        lemma_mismatch(s, p, j, 0);
    }
    lemma_find_first(s, p, k);
}

/// `n` spaces.
pub open spec fn spaces(n: nat) -> Seq<char> {
    Seq::new(n, |i: int| ' ')
}

/// Leading spaces are trimmed up to a text that starts with no whitespace.
pub proof fn lemma_trim_start_spaces(n: nat, d: Seq<char>)
    requires
        d.len() == 0 || !is_ws(d[0]),
    ensures
        trim_start(spaces(n) + d) == d,
    decreases n,
{
    if n == 0 {
        assert(spaces(n) + d =~= d);
    } else {
        assert((spaces(n) + d).drop_first() =~= spaces((n - 1) as nat) + d);
        lemma_trim_start_spaces((n - 1) as nat, d);
    }
}

/// A text without whitespace ends a word where whitespace follows it.
pub proof fn lemma_take_until_ws(d: Seq<char>, tail: Seq<char>)
    requires
        forall|i: int| 0 <= i < d.len() ==> !is_ws(#[trigger] d[i]),
        tail.len() > 0,
        is_ws(tail[0]),
    ensures
        take_until_ws(d + tail) == d,
    decreases d.len(),
{
    if d.len() == 0 {
        assert(d + tail =~= tail);
    } else {
        assert((d + tail).drop_first() =~= d.drop_first() + tail);
        lemma_take_until_ws(d.drop_first(), tail);
        assert(seq![d[0]] + d.drop_first() =~= d);
    }
}

/// The decimal writing of `n` is not empty, starts with a digit, and holds
/// neither whitespace nor any of the characters `c`, `m`, `,`, `D` and line
/// feed.
pub proof fn lemma_decimal_chars(n: nat)
    ensures
        decimal(n).len() > 0,
        forall|i: int| 0 <= i < decimal(n).len() ==> !is_ws(#[trigger] decimal(n)[i]),
        lacks(decimal(n), 'c'),
        lacks(decimal(n), 'm'),
        lacks(decimal(n), ','),
        lacks(decimal(n), 'D'),
        lacks(decimal(n), '\n'),
        is_digit(decimal(n)[0]),
{
    lemma_decimal_digits(n);
    let d = decimal(n);
    assert forall|i: int| 0 <= i < d.len() implies !is_ws(#[trigger] d[i]) && d[i] != 'c' && d[i]
        != 'm' && d[i] != ',' && d[i] != 'D' && d[i] != '\n' by {
        assert(is_digit(d[i]));
    }
}

/// No occurrence of `p` starts within the range `s[off..off + flen]` where
/// `p` does not occur in that range and the character that follows it is
/// none of `p`'s.
pub proof fn lemma_no_match_in_field(s: Seq<char>, p: Seq<char>, off: int, flen: int)
    requires
        0 <= off,
        0 <= flen,
        off + flen < s.len(),
        find(s.subrange(off, off + flen), p) is None,
        forall|t: int| 0 <= t < p.len() ==> p[t] != s[off + flen],
    ensures
        forall|j: int| off <= j < off + flen ==> !matches_at(s, p, j),
{
    let f = s.subrange(off, off + flen);
    lemma_find_from(f, p, 0);
    assert forall|j: int| off <= j < off + flen implies !matches_at(s, p, j) by {
        if j + p.len() <= off + flen {
            if matches_at(s, p, j) {
                assert(f.subrange(j - off, j - off + p.len()) =~= s.subrange(j, j + p.len()));
                assert(matches_at(f, p, j - off));
            }
        } else if j + p.len() <= s.len() {
            lemma_mismatch(s, p, j, off + flen - j);
        }
    }
}

/// An occurrence in a prefix is an occurrence in the whole.
pub proof fn lemma_find_none_prefix(f: Seq<char>, p: Seq<char>, k: int)
    requires
        0 <= k <= f.len(),
        find(f, p) is None,
    ensures
        find(f.take(k), p) is None,
{
    lemma_find_from(f, p, 0);
    assert forall|j: int| 0 <= j implies !matches_at(f.take(k), p, j) by {
        if matches_at(f.take(k), p, j) {
            assert(f.subrange(j, j + p.len()) =~= f.take(k).subrange(j, j + p.len()));
            assert(matches_at(f, p, j));
        }
    }
    lemma_find_none(f.take(k), p);
}

/// Whether `p` is a prefix of `s` (`str::starts_with`).
pub open spec fn starts_with(s: Seq<char>, p: Seq<char>) -> bool {
    matches_at(s, p, 0)
}

/// Where `p` occurs in `t`, `split_str` yields the text before it, then the
/// pieces of the text after it.
pub proof fn lemma_split_found(t: Seq<char>, p: Seq<char>, k: int)
    requires
        p.len() > 0,
        find(t, p) == Some(k),
    ensures
        0 <= k,
        k + p.len() <= t.len(),
        matches_at(t, p, k),
        split_str(t, p).len() >= 2,
        split_str(t, p)[0] == t.take(k),
        split_str(t, p).drop_first() == split_str(t.skip(k + p.len()), p),
{
    lemma_find_from(t, p, 0);
    let rest = split_str(t.skip(k + p.len()), p);
    lemma_split_len(t.skip(k + p.len()), p);
    assert((seq![t.take(k)] + rest).drop_first() =~= rest);
}

/// `split_str` always yields at least one piece.
pub proof fn lemma_split_len(t: Seq<char>, p: Seq<char>)
    ensures
        split_str(t, p).len() >= 1,
    decreases t.len(),
{
    if p.len() > 0 {
        if let Some(k) = find(t, p) {
            if 0 <= k && k + p.len() <= t.len() {
                lemma_split_len(t.skip(k + p.len()), p);
            }
        }
    }
}

/// Where `p` does not occur in `t`, `split_str` yields `t` alone.
pub proof fn lemma_split_not_found(t: Seq<char>, p: Seq<char>)
    requires
        find(t, p) is None,
    ensures
        split_str(t, p) == seq![t],
        split_str(t, p).drop_first() == Seq::<Seq<char>>::empty(),
{
    assert(seq![t].drop_first() =~= Seq::<Seq<char>>::empty());
}

/// Whether `v[i..]` starts with `p`.
pub fn matches_here(v: &Vec<char>, i: usize, hi: usize, p: &Vec<char>) -> (b: bool)
    requires
        i <= hi <= v@.len(),
    ensures
        b == matches_at(v@.subrange(i as int, hi as int), p@, 0),
{
    let ghost sub = v@.subrange(i as int, hi as int);
    if p.len() > hi - i {
        return false;
    }
    let mut j: usize = 0;
    while j < p.len()
        invariant
            i <= hi <= v@.len(),
            p@.len() <= hi - i,
            j <= p@.len(),
            sub == v@.subrange(i as int, hi as int),
            forall|t: int| 0 <= t < j ==> v@[i + t] == p@[t],
        decreases p@.len() - j,
    {
        if v[i + j] != p[j] {
            assert(sub.subrange(0, p@.len() as int)[j as int] != p@[j as int]);
            return false;
        }
        j = j + 1;
    }
    assert(sub.subrange(0, p@.len() as int) =~= p@);
    true
}

/// The index of the first occurrence of `p` in `v[lo..hi]`, counted from the
/// start of `v`.
pub fn find_in(v: &Vec<char>, lo: usize, hi: usize, p: &Vec<char>) -> (r: Option<usize>)
    requires
        lo <= hi <= v@.len(),
    ensures
        match r {
            Some(k) => lo <= k && k + p@.len() <= hi && find(
                v@.subrange(lo as int, hi as int),
                p@,
            ) == Some(k - lo),
            None => find(v@.subrange(lo as int, hi as int), p@) is None,
        },
{
    let ghost sub = v@.subrange(lo as int, hi as int);
    let mut i = lo;
    while i <= hi
        invariant
            lo <= i <= hi + 1,
            hi <= v@.len(),
            sub == v@.subrange(lo as int, hi as int),
            i <= hi ==> find(sub, p@) == find_from(sub, p@, i - lo),
            i > hi ==> find(sub, p@) is None,
        decreases hi + 1 - i,
    {
        if p.len() > hi - i {
            return None;
        }
        let m = matches_here(v, i, hi, p);
        proof {
            let k = (i - lo) as int;
            assert(v@.subrange(i as int, hi as int) =~= sub.subrange(k, sub.len() as int));
            if matches_at(sub, p@, k) {
                assert(sub.subrange(k, k + p@.len()) =~= v@.subrange(i as int, hi as int).subrange(0, p@.len() as int));
            }
            if m {
                assert(sub.subrange(k, k + p@.len()) =~= v@.subrange(i as int, hi as int).subrange(0, p@.len() as int));
            } else {
                assert(find_from(sub, p@, k) == find_from(sub, p@, k + 1));
                if i == hi {
                    assert(find_from(sub, p@, k + 1) is None);
                }
            }
        }
        if m {
            return Some(i);
        }
        if i == hi {
            return None;
        }
        i = i + 1;
    }
    None
}


/// The leading run of non-whitespace characters of `s`.
pub open spec fn take_until_ws(s: Seq<char>) -> Seq<char>
    decreases s.len(),
{
    if s.len() == 0 || is_ws(s[0]) {
        seq![]
    } else {
        seq![s[0]] + take_until_ws(s.drop_first())
    }
}

/// The first whitespace-separated word of `s`, if any
/// (`str::split_whitespace().next()`).
pub open spec fn first_word(s: Seq<char>) -> Option<Seq<char>> {
    let u = trim_start(s);
    if u.len() == 0 {
        None
    } else {
        Some(take_until_ws(u))
    }
}

/// The index in `v` where `v[a..hi]` ends once leading whitespace is skipped.
pub fn skip_ws(v: &Vec<char>, a: usize, hi: usize) -> (r: usize)
    requires
        a <= hi <= v@.len(),
    ensures
        a <= r <= hi,
        v@.subrange(r as int, hi as int) == trim_start(v@.subrange(a as int, hi as int)),
{
    let mut i = a;
    while i < hi && is_whitespace(v[i])
        invariant
            a <= i <= hi <= v@.len(),
            trim_start(v@.subrange(a as int, hi as int)) == trim_start(
                v@.subrange(i as int, hi as int),
            ),
        decreases hi - i,
    {
        assert(v@.subrange(i as int, hi as int).drop_first() =~= v@.subrange(
            i + 1,
            hi as int,
        ));
        i = i + 1;
    }
    i
}

/// The index in `v` where the leading run of non-whitespace of `v[a..hi]`
/// ends.
pub fn word_end(v: &Vec<char>, a: usize, hi: usize) -> (r: usize)
    requires
        a <= hi <= v@.len(),
    ensures
        a <= r <= hi,
        v@.subrange(a as int, r as int) == take_until_ws(v@.subrange(a as int, hi as int)),
{
    let mut i = a;
    while i < hi && !is_whitespace(v[i])
        invariant
            a <= i <= hi <= v@.len(),
            take_until_ws(v@.subrange(a as int, hi as int)) == v@.subrange(a as int, i as int)
                + take_until_ws(v@.subrange(i as int, hi as int)),
        decreases hi - i,
    {
        let ghost rest = v@.subrange(i as int, hi as int);
        assert(rest.drop_first() =~= v@.subrange(i + 1, hi as int));
        assert(v@.subrange(a as int, i as int) + seq![rest[0]] =~= v@.subrange(a as int, i + 1));
        assert(v@.subrange(a as int, i as int) + (seq![rest[0]] + take_until_ws(rest.drop_first()))
            =~= (v@.subrange(a as int, i as int) + seq![rest[0]]) + take_until_ws(rest.drop_first()));
        i = i + 1;
    }
    assert(v@.subrange(a as int, i as int) + seq![] =~= v@.subrange(a as int, i as int));
    i
}

/// Whether `c` is an ASCII decimal digit.
pub open spec fn is_digit(c: char) -> bool {
    '0' <= c && c <= '9'
}

/// The value of the decimal digit `c`.
pub open spec fn digit_val(c: char) -> nat {
    (c as int - '0' as int) as nat
}

/// Whether every character of `s` is a decimal digit.
pub open spec fn all_digits(s: Seq<char>) -> bool {
    forall|i: int| 0 <= i < s.len() ==> #[trigger] is_digit(s[i])
}

/// The number that the decimal digits `s` write.
pub open spec fn digits_value(s: Seq<char>) -> nat
    decreases s.len(),
{
    if s.len() == 0 {
        0
    } else {
        digits_value(s.drop_last()) * 10 + digit_val(s.last())
    }
}

/// `s` without one leading `+` sign.
pub open spec fn unsigned_digits(s: Seq<char>) -> Seq<char> {
    if s.len() > 0 && s[0] == '+' {
        s.drop_first()
    } else {
        s
    }
}

/// What `str::parse::<u8>` gives: an optional `+` followed by at least one
/// decimal digit, whose value fits in a `u8`.
pub open spec fn parse_u8(s: Seq<char>) -> Option<u8> {
    let ds = unsigned_digits(s);
    if ds.len() > 0 && all_digits(ds) && digits_value(ds) <= 255 {
        Some(digits_value(ds) as u8)
    } else {
        None
    }
}

/// A prefix of a run of digits is worth no more than the whole run.
pub proof fn lemma_digits_value_prefix(s: Seq<char>, j: int)
    requires
        0 <= j <= s.len(),
    ensures
        digits_value(s.take(j)) <= digits_value(s),
    decreases s.len(),
{
    if j < s.len() {
        lemma_digits_value_prefix(s.drop_last(), j);
        assert(s.drop_last().take(j) =~= s.take(j));
    } else {
        assert(s.take(j) =~= s);
    }
}

/// The `u8` that `v[lo..hi]` writes in decimal, as `str::parse::<u8>` reads it.
pub fn parse_u8_in(v: &Vec<char>, lo: usize, hi: usize) -> (r: Option<u8>)
    requires
        lo <= hi <= v@.len(),
    ensures
        r == parse_u8(v@.subrange(lo as int, hi as int)),
{
    let ghost s = v@.subrange(lo as int, hi as int);
    let mut start = lo;
    if lo < hi && v[lo] == '+' {
        start = lo + 1;
    }
    let ghost ds = v@.subrange(start as int, hi as int);
    assert(unsigned_digits(s) =~= ds);
    if start == hi {
        return None;
    }
    let mut i = start;
    let mut acc: u32 = 0;
    while i < hi
        invariant
            lo <= start <= i <= hi <= v@.len(),
            ds == v@.subrange(start as int, hi as int),
            unsigned_digits(s) == ds,
            s == v@.subrange(lo as int, hi as int),
            ds.len() > 0,
            all_digits(ds.take(i - start)),
            acc == digits_value(ds.take(i - start)),
            acc <= 255,
        decreases hi - i,
    {
        let c = v[i];
        let ghost k = (i - start) as int;
        assert(ds[k] == c);
        if !('0' <= c && c <= '9') {
            assert(!is_digit(ds[k]));
            return None;
        }
        let d = (c as u32) - ('0' as u32);
        acc = acc * 10 + d;
        assert(ds.take(k + 1).drop_last() =~= ds.take(k));
        assert(all_digits(ds.take(k + 1))) by {
            assert forall|t: int| 0 <= t < k + 1 implies #[trigger] is_digit(ds.take(k + 1)[t]) by {
                if t < k {
                    assert(ds.take(k + 1)[t] == ds.take(k)[t]);
                }
            }
        }
        if acc > 255 {
            proof {
                if all_digits(ds) {
                    lemma_digits_value_prefix(ds, k + 1);
                }
            }
            return None;
        }
        i = i + 1;
    }
    assert(ds.take(ds.len() as int) =~= ds);
    Some(acc as u8)
}

/// The character of the decimal digit `d`.
pub open spec fn digit_char(d: nat) -> char {
    ('0' as nat + d) as char
}

/// `n` written in decimal with no leading zero (`u8::to_string`).
pub open spec fn decimal(n: nat) -> Seq<char>
    decreases n,
{
    if n < 10 {
        seq![digit_char(n)]
    } else {
        decimal(n / 10).push(digit_char(n % 10))
    }
}


/// Digit characters are digits and read back as their value.
pub proof fn lemma_digit_char(d: nat)
    requires
        d < 10,
    ensures
        is_digit(digit_char(d)),
        digit_val(digit_char(d)) == d,
{
}

/// The decimal writing of `n` is a non-empty run of digits worth `n`.
pub proof fn lemma_decimal_digits(n: nat)
    ensures
        decimal(n).len() > 0,
        all_digits(decimal(n)),
        digits_value(decimal(n)) == n,
    decreases n,
{
    if n < 10 {
        lemma_digit_char(n);
        assert(decimal(n).drop_last() =~= Seq::<char>::empty());
        assert(digits_value(Seq::<char>::empty()) == 0);
        assert(decimal(n).last() == digit_char(n));
    } else {
        lemma_decimal_digits(n / 10);
        lemma_digit_char(n % 10);
        let d = decimal(n);
        assert(d.drop_last() =~= decimal(n / 10));
        assert(d.last() == digit_char(n % 10));
        assert((n / 10) * 10 + n % 10 == n);
        assert forall|i: int| 0 <= i < d.len() implies #[trigger] is_digit(d[i]) by {
            if i < d.len() - 1 {
                assert(d[i] == decimal(n / 10)[i]);
            }
        }
    }
}

/// Reading back the decimal writing of a `u8` gives that `u8`.
pub proof fn lemma_parse_decimal(n: u8)
    ensures
        parse_u8(decimal(n as nat)) == Some(n),
{
    lemma_decimal_digits(n as nat);
    let d = decimal(n as nat);
    assert(is_digit(d[0]));
    assert(unsigned_digits(d) == d);
}


/// The one-character string of the decimal digit `d`.
fn digit_str(d: u8) -> (s: &'static str)
    requires
        d < 10,
    ensures
        s@ == seq![digit_char(d as nat)],
{
    proof {
        reveal_strlit("0");
        reveal_strlit("1");
        reveal_strlit("2");
        reveal_strlit("3");
        reveal_strlit("4");
        reveal_strlit("5");
        reveal_strlit("6");
        reveal_strlit("7");
        reveal_strlit("8");
        reveal_strlit("9");
    }
    let s = if d == 0 {
        "0"
    } else if d == 1 {
        "1"
    } else if d == 2 {
        "2"
    } else if d == 3 {
        "3"
    } else if d == 4 {
        "4"
    } else if d == 5 {
        "5"
    } else if d == 6 {
        "6"
    } else if d == 7 {
        "7"
    } else if d == 8 {
        "8"
    } else {
        "9"
    };
    assert(s@ =~= seq![digit_char(d as nat)]);
    s
}

/// `n` written in decimal, as `u8::to_string` writes it.
pub fn u8_to_decimal(n: u8) -> (s: String)
    ensures
        s@ == decimal(n as nat),
{
    let mut s = String::new();
    if n >= 100 {
        s.append(digit_str(n / 100));
    }
    if n >= 10 {
        s.append(digit_str((n / 10) % 10));
    }
    s.append(digit_str(n % 10));
    proof {
        let m = n as nat;
        if m >= 100 {
            assert(decimal(m / 10) =~= decimal(m / 100).push(digit_char((m / 10) % 10)));
            assert(decimal(m / 100) == seq![digit_char(m / 100)]);
            assert((m / 10) % 10 == (n / 10) % 10);
        } else if m >= 10 {
            assert(decimal(m / 10) == seq![digit_char(m / 10)]);
        }
    }
    s
}


/// The contents of each string of `v`.
pub open spec fn strings_view(v: Seq<String>) -> Seq<Seq<char>> {
    v.map_values(|s: String| s@)
}

/// The string that `String::from_utf8_lossy` makes of `bytes`: valid UTF-8
/// decoded, each invalid sequence replaced by U+FFFD.
pub uninterp spec fn lossy_utf8(bytes: Seq<u8>) -> Seq<char>;

/// Decodes `bytes` with `String::from_utf8_lossy`. Trusted: the result is
/// the one that `lossy_utf8` names, a function of the bytes alone.
#[verifier::external_body]
pub(crate) fn decode_lossy(bytes: &[u8]) -> (s: String)
    ensures
        s@ == lossy_utf8(bytes@),
{
    String::from_utf8_lossy(bytes).into_owned()
}

/// `s` without leading and trailing whitespace, as a new string.
pub fn trimmed(s: &str) -> (r: String)
    ensures
        r@ == trim(s@),
{
    let v = chars_of(s);
    let n = v.len();
    let (a, b) = trim_bounds(&v, 0, n);
    assert(v@.subrange(0, n as int) =~= s@);
    String::from_str(s.substring_char(a, b))
}

/// The leading whitespace that `trim_start` drops.
proof fn lemma_trim_start_shape(s: Seq<char>) -> (a: int)
    ensures
        0 <= a <= s.len(),
        trim_start(s) == s.skip(a),
        forall|i: int| 0 <= i < a ==> is_ws(#[trigger] s[i]),
        a < s.len() ==> !is_ws(s[a]),
    decreases s.len(),
{
    if s.len() > 0 && is_ws(s[0]) {
        let a1 = lemma_trim_start_shape(s.drop_first());
        assert(s.drop_first().skip(a1) =~= s.skip(a1 + 1));
        assert forall|i: int| 0 <= i < a1 + 1 implies is_ws(#[trigger] s[i]) by {
            if i > 0 {
                assert(s[i] == s.drop_first()[i - 1]);
            }
        }
        a1 + 1
    } else {
        assert(s.skip(0) =~= s);
        0
    }
}

/// The trailing whitespace that `trim_end` drops.
proof fn lemma_trim_end_shape(s: Seq<char>) -> (b: int)
    ensures
        0 <= b <= s.len(),
        trim_end(s) == s.take(b),
        forall|i: int| b <= i < s.len() ==> is_ws(#[trigger] s[i]),
        b > 0 ==> !is_ws(s[b - 1]),
    decreases s.len(),
{
    if s.len() > 0 && is_ws(s.last()) {
        let b1 = lemma_trim_end_shape(s.drop_last());
        assert(s.drop_last().take(b1) =~= s.take(b1));
        assert forall|i: int| b1 <= i < s.len() implies is_ws(#[trigger] s[i]) by {
            if i < s.len() - 1 {
                assert(s[i] == s.drop_last()[i]);
            }
        }
        b1
    } else {
        assert(s.take(s.len() as int) =~= s);
        s.len() as int
    }
}

/// Law: trimming keeps a contiguous part of the text and drops only
/// whitespace, from both ends; what it keeps starts and ends with a
/// character that is not whitespace.
pub proof fn law_trim(s: Seq<char>) -> (r: (int, int))
    ensures
        0 <= r.0 <= r.1 <= s.len(),
        trim(s) == s.subrange(r.0, r.1),
        forall|i: int| 0 <= i < r.0 ==> is_ws(#[trigger] s[i]),
        forall|i: int| r.1 <= i < s.len() ==> is_ws(#[trigger] s[i]),
        r.0 < r.1 ==> !is_ws(s[r.0]) && !is_ws(s[r.1 - 1]),
{
    let a = lemma_trim_start_shape(s);
    let t = s.skip(a);
    let b = lemma_trim_end_shape(t);
    assert(t.take(b) =~= s.subrange(a, a + b));
    assert forall|i: int| a + b <= i < s.len() implies is_ws(#[trigger] s[i]) by {
        assert(s[i] == t[i - a]);
    }
    if b > 0 {
        assert(s[a + b - 1] == t[b - 1]);
    }
    (a, a + b)
}

/// Law: the decimal writing of a `u8` has no leading zero: one digit below
/// ten, two below a hundred, three above; it starts with `0` only for zero.
pub proof fn law_decimal_shortest(n: u8)
    ensures
        decimal(n as nat).len() == if n < 10 {
            1int
        } else if n < 100 {
            2int
        } else {
            3int
        },
        decimal(n as nat)[0] == '0' <==> n == 0,
{
    let m = n as nat;
    if m >= 100 {
        assert(decimal(m / 10) =~= decimal(m / 100).push(digit_char((m / 10) % 10)));
        assert(decimal(m / 100) == seq![digit_char(m / 100)]);
        assert(decimal(m) =~= seq![digit_char(m / 100), digit_char((m / 10) % 10), digit_char(m % 10)]);
        lemma_digit_char(m / 100);
    } else if m >= 10 {
        assert(decimal(m / 10) == seq![digit_char(m / 10)]);
        assert(decimal(m) =~= seq![digit_char(m / 10), digit_char(m % 10)]);
        lemma_digit_char(m / 10);
    } else {
        lemma_digit_char(m);
    }
}

} // verus!
