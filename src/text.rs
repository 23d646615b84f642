use vstd::prelude::*;

verus! {

/// Unicode `White_Space`, the set that `char::is_whitespace` tests.
pub open spec fn is_ws(c: char) -> bool {
    c == ' ' || ('\t' <= c && c <= '\r') || c == '\u{85}' || c == '\u{a0}' || c == '\u{1680}'
        || ('\u{2000}' <= c && c <= '\u{200a}') || c == '\u{2028}' || c == '\u{2029}'
        || c == '\u{202f}' || c == '\u{205f}' || c == '\u{3000}'
}

/// `s` without its leading whitespace.
pub open spec fn trim_start(s: Seq<char>) -> Seq<char>
    decreases s.len(),
{
    if s.len() > 0 && is_ws(s[0]) {
        trim_start(s.drop_first())
    } else {
        s
    }
}

/// `s` without its trailing whitespace.
pub open spec fn trim_end(s: Seq<char>) -> Seq<char>
    decreases s.len(),
{
    if s.len() > 0 && is_ws(s.last()) {
        trim_end(s.drop_last())
    } else {
        s
    }
}

/// `s` without leading and trailing whitespace.
pub open spec fn trim(s: Seq<char>) -> Seq<char> {
    trim_end(trim_start(s))
}

/// `pat` occurs in `s` starting at index `i`.
pub open spec fn occurs_at(s: Seq<char>, pat: Seq<char>, i: int) -> bool {
    0 <= i && i + pat.len() <= s.len() && s.subrange(i, i + pat.len()) == pat
}

/// The first index at or after `i` where `pat` occurs in `s`.
pub open spec fn find_from(s: Seq<char>, pat: Seq<char>, i: int) -> Option<int>
    decreases s.len() + 1 - i,
{
    if i < 0 || i + pat.len() > s.len() {
        None
    } else if occurs_at(s, pat, i) {
        Some(i)
    } else {
        find_from(s, pat, i + 1)
    }
}

/// The first index where `pat` occurs in `s`.
pub open spec fn find(s: Seq<char>, pat: Seq<char>) -> Option<int> {
    find_from(s, pat, 0)
}

/// The part of `s` before the first occurrence of `pat`, or all of `s`.
pub open spec fn before(s: Seq<char>, pat: Seq<char>) -> Seq<char> {
    match find(s, pat) {
        Some(i) => s.take(i),
        None => s,
    }
}

/// `s[a..b]` is one line of `s`: it lies between two line feeds, or an end of `s`.
pub open spec fn is_line(s: Seq<char>, a: int, b: int) -> bool {
    &&& 0 <= a <= b <= s.len()
    &&& (a == 0 || s[a - 1] == '\n')
    &&& (b == s.len() || s[b] == '\n')
    &&& forall|k: int| a <= k < b ==> s[k] != '\n'
}

/// The maximal run of non-whitespace characters at the end of `s`.
pub open spec fn tail_token(s: Seq<char>) -> Seq<char>
    decreases s.len(),
{
    if s.len() == 0 || is_ws(s.last()) {
        Seq::empty()
    } else {
        tail_token(s.drop_last()).push(s.last())
    }
}

/// `s` is a non-empty run of ASCII decimal digits.
pub open spec fn all_digits(s: Seq<char>) -> bool {
    s.len() > 0 && forall|k: int| 0 <= k < s.len() ==> '0' <= #[trigger] s[k] && s[k] <= '9'
}

/// The number that the decimal digits of `s` denote.
pub open spec fn digits_value(s: Seq<char>) -> nat
    decreases s.len(),
{
    if s.len() == 0 {
        0
    } else {
        digits_value(s.drop_last()) * 10 + ((s.last() as u32 - '0' as u32) as nat)
    }
}

/// The `u64` that `s` spells in decimal, with an optional leading `+`, if any.
pub open spec fn parse_u64_spec(s: Seq<char>) -> Option<u64> {
    let d = if s.len() > 0 && s[0] == '+' {
        s.drop_first()
    } else {
        s
    };
    if all_digits(d) && digits_value(d) <= u64::MAX {
        Some(digits_value(d) as u64)
    } else {
        None
    }
}

/// The characters of `s`, in order, as a vector.
pub fn chars_of(s: &str) -> (v: Vec<char>)
    ensures
        v@ == s@,
{
    broadcast use vstd::string::group_string_axioms;

    let mut v: Vec<char> = Vec::new();
    for c in it: s.chars()
        invariant
            it.seq() == s@,
            v@ == it.seq().take(it.index() as int),
    {
        v.push(c);
    }
    v
}

/// Whether `c` is whitespace.
pub fn is_whitespace(c: char) -> (r: bool)
    ensures
        r == is_ws(c),
{
    c == ' ' || ('\t' <= c && c <= '\r') || c == '\u{85}' || c == '\u{a0}' || c == '\u{1680}'
        || ('\u{2000}' <= c && c <= '\u{200a}') || c == '\u{2028}' || c == '\u{2029}'
        || c == '\u{202f}' || c == '\u{205f}' || c == '\u{3000}'
}

/// The bounds of `s[lo..hi]` with surrounding whitespace removed.
pub fn trim_window(s: &Vec<char>, lo: usize, hi: usize) -> (r: (usize, usize))
    requires
        lo <= hi <= s.len(),
    ensures
        lo <= r.0 <= r.1 <= hi,
        s@.subrange(r.0 as int, r.1 as int) == trim(s@.subrange(lo as int, hi as int)),
{
    let mut a: usize = lo;
    while a < hi && is_whitespace(s[a])
        invariant
            lo <= a <= hi <= s.len(),
            trim_start(s@.subrange(lo as int, hi as int)) == trim_start(
                s@.subrange(a as int, hi as int),
            ),
        decreases hi - a,
    {
        assert(s@.subrange(a as int, hi as int).drop_first() =~= s@.subrange(
            a + 1,
            hi as int,
        ));
        a = a + 1;
    }
    let mut b: usize = hi;
    while b > a && is_whitespace(s[b - 1])
        invariant
            lo <= a <= b <= hi <= s.len(),
            trim_end(s@.subrange(a as int, hi as int)) == trim_end(
                s@.subrange(a as int, b as int),
            ),
        decreases b - a,
    {
        assert(s@.subrange(a as int, b as int).drop_last() =~= s@.subrange(
            a as int,
            b - 1,
        ));
        b = b - 1;
    }
    (a, b)
}

/// Whether `pat` occurs in `s[lo..hi]` at offset `i`.
pub fn occurs_in_window(s: &Vec<char>, lo: usize, hi: usize, pat: &Vec<char>, i: usize) -> (r:
    bool)
    requires
        lo <= hi <= s.len(),
    ensures
        r == occurs_at(s@.subrange(lo as int, hi as int), pat@, i as int),
{
    let ghost w = s@.subrange(lo as int, hi as int);
    if i > hi - lo || pat.len() > hi - lo - i {
        return false;
    }
    let mut j: usize = 0;
    while j < pat.len()
        invariant
            j <= pat.len(),
            lo + i + pat.len() <= hi <= s.len(),
            w == s@.subrange(lo as int, hi as int),
            forall|k: int| 0 <= k < j ==> w[i + k] == pat@[k],
        decreases pat.len() - j,
    {
        if s[lo + i + j] != pat[j] {
            assert(w.subrange(i as int, i + pat.len())[j as int] != pat@[j as int]);
            return false;
        }
        j = j + 1;
    }
    assert(w.subrange(i as int, i + pat.len()) =~= pat@);
    true
}

/// The first offset in `s[lo..hi]` where `pat` occurs.
pub fn find_in_window(s: &Vec<char>, lo: usize, hi: usize, pat: &Vec<char>) -> (r: Option<usize>)
    requires
        lo <= hi <= s.len(),
    ensures
        match r {
            Some(i) => find(s@.subrange(lo as int, hi as int), pat@) == Some(i as int) && i + pat.len()
                <= hi - lo,
            None => find(s@.subrange(lo as int, hi as int), pat@) is None,
        },
{
    let ghost w = s@.subrange(lo as int, hi as int);
    if pat.len() > hi - lo {
        return None;
    }
    let n: usize = hi - lo - pat.len();
    let mut i: usize = 0;
    loop
        invariant
            i <= n,
            n == hi - lo - pat.len(),
            lo <= hi <= s.len(),
            w == s@.subrange(lo as int, hi as int),
            find(w, pat@) == find_from(w, pat@, i as int),
        decreases n - i,
    {
        if occurs_in_window(s, lo, hi, pat, i) {
            return Some(i);
        }
        if i == n {
            assert(find_from(w, pat@, i + 1) is None);
            return None;
        }
        i = i + 1;
    }
}

/// The index of the first line feed at or after `pos`, or the length of `s`.
pub fn line_end(s: &Vec<char>, pos: usize) -> (r: usize)
    requires
        pos <= s.len(),
    ensures
        pos <= r <= s.len(),
        r == s.len() || s@[r as int] == '\n',
        forall|k: int| pos <= k < r ==> s@[k] != '\n',
{
    let mut e: usize = pos;
    while e < s.len() && s[e] != '\n'
        invariant
            pos <= e <= s.len(),
            forall|k: int| pos <= k < e ==> s@[k] != '\n',
        decreases s.len() - e,
    {
        e = e + 1;
    }
    e
}

/// The start offset, in `s[lo..hi]`, of the last whitespace-free run of it.
pub fn tail_token_start(s: &Vec<char>, lo: usize, hi: usize) -> (r: usize)
    requires
        lo <= hi <= s.len(),
    ensures
        lo <= r <= hi,
        s@.subrange(r as int, hi as int) == tail_token(s@.subrange(lo as int, hi as int)),
{
    let mut k: usize = hi;
    while k > lo && !is_whitespace(s[k - 1])
        invariant
            lo <= k <= hi <= s.len(),
            tail_token(s@.subrange(lo as int, hi as int)) == tail_token(
                s@.subrange(lo as int, k as int),
            ) + s@.subrange(k as int, hi as int),
        decreases k - lo,
    {
        let ghost u = s@.subrange(lo as int, k as int);
        assert(u.drop_last() =~= s@.subrange(lo as int, k - 1));
        assert(tail_token(u) == tail_token(u.drop_last()).push(u.last()));
        assert(tail_token(u) + s@.subrange(k as int, hi as int) =~= tail_token(
            s@.subrange(lo as int, k - 1),
        ) + s@.subrange(k - 1, hi as int));
        k = k - 1;
    }
    assert(tail_token(s@.subrange(lo as int, k as int)) =~= Seq::<char>::empty());
    assert(s@.subrange(k as int, hi as int) =~= Seq::<char>::empty() + s@.subrange(
        k as int,
        hi as int,
    ));
    k
}

/// A digit string denotes at least as much as each of its prefixes.
pub proof fn lemma_digits_value_prefix(d: Seq<char>, i: int)
    requires
        all_digits(d),
        0 <= i <= d.len(),
    ensures
        digits_value(d) >= digits_value(d.take(i)),
    decreases d.len(),
{
    if i == d.len() {
        assert(d.take(i) =~= d);
    } else if i == 0 {
        assert(d.take(0) =~= Seq::<char>::empty());
    } else {
        let e = d.drop_last();
        assert(all_digits(e)) by {
            assert forall|k: int| 0 <= k < e.len() implies '0' <= #[trigger] e[k] && e[k] <= '9' by {
                assert(e[k] == d[k]);
            }
        }
        lemma_digits_value_prefix(e, i);
        assert(e.take(i) =~= d.take(i));
    }
}

/// The `u64` spelled in decimal by `s[lo..hi]`, with an optional leading `+`.
pub fn parse_u64_window(s: &Vec<char>, lo: usize, hi: usize) -> (r: Option<u64>)
    requires
        lo <= hi <= s.len(),
    ensures
        r == parse_u64_spec(s@.subrange(lo as int, hi as int)),
{
    let ghost w = s@.subrange(lo as int, hi as int);
    let start: usize = if lo < hi && s[lo] == '+' {
        lo + 1
    } else {
        lo
    };
    let ghost d = s@.subrange(start as int, hi as int);
    assert(d =~= (if w.len() > 0 && w[0] == '+' {
        w.drop_first()
    } else {
        w
    }));
    if start == hi {
        return None;
    }
    let mut acc: u64 = 0;
    let mut k: usize = start;
    while k < hi
        invariant
            start <= k <= hi <= s.len(),
            start < hi,
            d == s@.subrange(start as int, hi as int),
            w == s@.subrange(lo as int, hi as int),
            d == (if w.len() > 0 && w[0] == '+' {
                w.drop_first()
            } else {
                w
            }),
            forall|j: int| start <= j < k ==> '0' <= #[trigger] s@[j] && s@[j] <= '9',
            acc as nat == digits_value(s@.subrange(start as int, k as int)),
        decreases hi - k,
    {
        let c = s[k];
        if c < '0' || c > '9' {
            assert(d[k - start] == c);
            assert(!all_digits(d));
            assert(parse_u64_spec(w) is None);
            return None;
        }
        let ghost p = s@.subrange(start as int, k + 1);
        assert(p.drop_last() =~= s@.subrange(start as int, k as int));
        assert(digits_value(p) == acc * 10 + (c as u32 - '0' as u32));
        let digit: u64 = (c as u32 - '0' as u32) as u64;
        match acc.checked_mul(10) {
            None => {
                proof {
                    assert(d.take(k + 1 - start) =~= p);
                    assert(acc * 10 > u64::MAX);
                    if all_digits(d) {
                        lemma_digits_value_prefix(d, k + 1 - start);
                    }
                    assert(parse_u64_spec(w) is None);
                }
                return None;
            },
            Some(m) => match m.checked_add(digit) {
                None => {
                    proof {
                        assert(d.take(k + 1 - start) =~= p);
                        if all_digits(d) {
                            lemma_digits_value_prefix(d, k + 1 - start);
                        }
                    }
                    return None;
                },
                Some(v) => {
                    acc = v;
                },
            },
        }
        k = k + 1;
    }
    assert(all_digits(d)) by {
        assert forall|j: int| 0 <= j < d.len() implies '0' <= #[trigger] d[j] && d[j] <= '9' by {
            assert(d[j] == s@[start + j]);
        }
    }
    Some(acc)
}

} // verus!
