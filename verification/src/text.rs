//! Whitespace, trimming and substring search over sequences of characters.

use crate::chars::{from_chars, to_chars};
use vstd::prelude::*;

verus! {

/// Whether `c` has the Unicode `White_Space` property.
pub open spec fn is_space(c: char) -> bool {
    let u = c as u32;
    ||| 0x09 <= u <= 0x0D
    ||| u == 0x20
    ||| u == 0x85
    ||| u == 0xA0
    ||| u == 0x1680
    ||| 0x2000 <= u <= 0x200A
    ||| u == 0x2028
    ||| u == 0x2029
    ||| u == 0x202F
    ||| u == 0x205F
    ||| u == 0x3000
}

/// `s` without its leading whitespace.
pub open spec fn trim_start(s: Seq<char>) -> Seq<char>
    decreases s.len(),
{
    if s.len() > 0 && is_space(s.first()) {
        trim_start(s.drop_first())
    } else {
        s
    }
}

/// `s` without its trailing whitespace.
pub open spec fn trim_end(s: Seq<char>) -> Seq<char>
    decreases s.len(),
{
    if s.len() > 0 && is_space(s.last()) {
        trim_end(s.drop_last())
    } else {
        s
    }
}

/// `s` without its leading and trailing whitespace.
pub open spec fn trim(s: Seq<char>) -> Seq<char> {
    trim_end(trim_start(s))
}

/// Whether every character of `s` in `[from, to)` is whitespace.
pub open spec fn all_space(s: Seq<char>, from: int, to: int) -> bool {
    forall|k: int| from <= k < to ==> is_space(#[trigger] s[k])
}

/// Whether some character of `s` is no whitespace.
pub open spec fn has_visible(s: Seq<char>) -> bool {
    exists|i: int| 0 <= i < s.len() && !is_space(#[trigger] s[i])
}

/// Whether `pat` stands in `s` at index `i`.
pub open spec fn occurs_at(s: Seq<char>, pat: Seq<char>, i: int) -> bool {
    &&& 0 <= i
    &&& i + pat.len() <= s.len()
    &&& s.subrange(i, i + pat.len()) == pat
}

/// Whether `pat` stands somewhere in `s`.
pub open spec fn occurs(s: Seq<char>, pat: Seq<char>) -> bool {
    exists|i: int| occurs_at(s, pat, i)
}

/// Whether `i` is the least index at which `pat` stands in `s`.
pub open spec fn is_first_occurrence(s: Seq<char>, pat: Seq<char>, i: int) -> bool {
    &&& occurs_at(s, pat, i)
    &&& forall|j: int| 0 <= j < i ==> !occurs_at(s, pat, j)
}

/// The least index at which `pat` stands in `s`, if it stands there at all.
pub open spec fn first_occurrence(s: Seq<char>, pat: Seq<char>) -> Option<int> {
    if occurs(s, pat) {
        Some(choose|i: int| is_first_occurrence(s, pat, i))
    } else {
        None
    }
}

/// A first occurrence is the first occurrence: there is only one.
pub proof fn lemma_first_occurrence_unique(s: Seq<char>, pat: Seq<char>, i: int)
    requires
        is_first_occurrence(s, pat, i),
    ensures
        first_occurrence(s, pat) == Some(i),
{
    assert(occurs_at(s, pat, i));
    let j = choose|j: int| is_first_occurrence(s, pat, j);
    assert(is_first_occurrence(s, pat, j));
    if j < i {
        assert(!occurs_at(s, pat, j));
    }
    if i < j {
        assert(!occurs_at(s, pat, i));
    }
}

/// The least index, from `lo` on, at which `pat` stands in `s`.
proof fn lemma_least_occurrence(s: Seq<char>, pat: Seq<char>, lo: int, w: int) -> (i: int)
    requires
        0 <= lo <= w,
        occurs_at(s, pat, w),
        forall|j: int| 0 <= j < lo ==> !occurs_at(s, pat, j),
    ensures
        is_first_occurrence(s, pat, i),
    decreases w - lo,
{
    if occurs_at(s, pat, lo) {
        lo
    } else {
        lemma_least_occurrence(s, pat, lo + 1, w)
    }
}

/// The first occurrence is an occurrence with none before it; there is none
/// only where `pat` does not stand in `s`.
pub proof fn lemma_first_occurrence_is_first(s: Seq<char>, pat: Seq<char>)
    ensures
        match first_occurrence(s, pat) {
            Some(i) => is_first_occurrence(s, pat, i),
            None => forall|j: int| !occurs_at(s, pat, j),
        },
{
    if occurs(s, pat) {
        let w = choose|w: int| occurs_at(s, pat, w);
        let i = lemma_least_occurrence(s, pat, 0, w);
    }
}

/// Trimming the start removes a run of whitespace and stops at the first
/// character that is none.
pub proof fn lemma_trim_start_is_skip(s: Seq<char>, n: int)
    requires
        0 <= n <= s.len(),
        all_space(s, 0, n),
        n < s.len() ==> !is_space(s[n]),
    ensures
        trim_start(s) == s.skip(n),
    decreases n,
{
    if n == 0 {
        assert(s.skip(0) =~= s);
    } else {
        assert(is_space(s[0]));
        let t = s.drop_first();
        assert forall|k: int| 0 <= k < n - 1 implies is_space(#[trigger] t[k]) by {
            assert(t[k] == s[k + 1]);
        }
        lemma_trim_start_is_skip(t, n - 1);
        assert(t.skip(n - 1) =~= s.skip(n));
    }
}

/// Trimming the end removes a run of whitespace and stops behind the last
/// character that is none.
pub proof fn lemma_trim_end_is_take(s: Seq<char>, n: int)
    requires
        0 <= n <= s.len(),
        all_space(s, n, s.len() as int),
        n > 0 ==> !is_space(s[n - 1]),
    ensures
        trim_end(s) == s.take(n),
    decreases s.len() - n,
{
    if n == s.len() {
        assert(s.take(n) =~= s);
    } else {
        assert(is_space(s[s.len() - 1]));
        let t = s.drop_last();
        lemma_trim_end_is_take(t, n);
        assert(t.take(n) =~= s.take(n));
    }
}

/// The number of whitespace characters at the start of `s`.
proof fn lemma_leading_space(s: Seq<char>) -> (n: int)
    ensures
        0 <= n <= s.len(),
        all_space(s, 0, n),
        n < s.len() ==> !is_space(s[n]),
    decreases s.len(),
{
    if s.len() > 0 && is_space(s.first()) {
        let t = s.drop_first();
        let k = lemma_leading_space(t);
        assert forall|i: int| 0 <= i < k + 1 implies is_space(#[trigger] s[i]) by {
            if i > 0 {
                assert(is_space(t[i - 1]));
            }
        }
        k + 1
    } else {
        0
    }
}

/// The index behind the last character of `s` that is no whitespace.
proof fn lemma_trailing_space(s: Seq<char>) -> (n: int)
    ensures
        0 <= n <= s.len(),
        all_space(s, n, s.len() as int),
        n > 0 ==> !is_space(s[n - 1]),
    decreases s.len(),
{
    if s.len() > 0 && is_space(s.last()) {
        let t = s.drop_last();
        let k = lemma_trailing_space(t);
        assert forall|i: int| k <= i < s.len() implies is_space(#[trigger] s[i]) by {
            if i < t.len() {
                assert(is_space(t[i]));
            }
        }
        k
    } else {
        s.len() as int
    }
}

/// A trimmed text is a part of the text that neither begins nor ends with
/// whitespace: the bounds of that part.
pub proof fn lemma_trim_is_subrange(s: Seq<char>) -> (bounds: (int, int))
    ensures
        0 <= bounds.0 <= bounds.1 <= s.len(),
        trim(s) == s.subrange(bounds.0, bounds.1),
        bounds.0 < bounds.1 ==> !is_space(s[bounds.0]) && !is_space(s[bounds.1 - 1]),
{
    let a = lemma_leading_space(s);
    lemma_trim_start_is_skip(s, a);
    let r = s.skip(a);
    let k = lemma_trailing_space(r);
    lemma_trim_end_is_take(r, k);
    assert(r.take(k) =~= s.subrange(a, a + k));
    if k > 0 {
        assert(r[k - 1] == s[a + k - 1]);
        assert(r[0] == s[a]);
    }
    (a, a + k)
}

/// Trimming a trimmed text changes nothing more.
pub proof fn lemma_trim_twice(s: Seq<char>)
    ensures
        trim(trim(s)) == trim(s),
{
    let (a, b) = lemma_trim_is_subrange(s);
    let t = trim(s);
    lemma_trim_start_is_skip(t, 0);
    assert(t.skip(0) =~= t);
    lemma_trim_end_is_take(t, t.len() as int);
    assert(t.take(t.len() as int) =~= t);
}

/// Trimming the start leaves a character that is no whitespace where it is.
pub proof fn lemma_trim_start_keeps_visible(s: Seq<char>)
    requires
        has_visible(s),
    ensures
        has_visible(trim_start(s)),
    decreases s.len(),
{
    if s.len() > 0 && is_space(s.first()) {
        let i = choose|i: int| 0 <= i < s.len() && !is_space(#[trigger] s[i]);
        let t = s.drop_first();
        assert(!is_space(t[i - 1]));
        lemma_trim_start_keeps_visible(t);
    }
}

/// Trimming the end leaves a character that is no whitespace where it is.
pub proof fn lemma_trim_end_keeps_visible(s: Seq<char>)
    requires
        has_visible(s),
    ensures
        has_visible(trim_end(s)),
    decreases s.len(),
{
    if s.len() > 0 && is_space(s.last()) {
        let i = choose|i: int| 0 <= i < s.len() && !is_space(#[trigger] s[i]);
        let t = s.drop_last();
        assert(!is_space(t[i]));
        lemma_trim_end_keeps_visible(t);
    }
}

/// A text with a character that is no whitespace is not trimmed to nothing.
pub proof fn lemma_trim_keeps_visible(s: Seq<char>)
    requires
        has_visible(s),
    ensures
        trim(s).len() > 0,
{
    lemma_trim_start_keeps_visible(s);
    lemma_trim_end_keeps_visible(trim_start(s));
}

/// Whether `c` is whitespace.
pub fn is_whitespace(c: char) -> (b: bool)
    ensures
        b == is_space(c),
{
    let u: u32 = c as u32;
    (0x09 <= u && u <= 0x0D) || u == 0x20 || u == 0x85 || u == 0xA0 || u == 0x1680 || (0x2000 <= u
        && u <= 0x200A) || u == 0x2028 || u == 0x2029 || u == 0x202F || u == 0x205F || u == 0x3000
}

/// The characters of `s` between its leading and its trailing whitespace.
pub fn trimmed(s: &Vec<char>) -> (t: Vec<char>)
    ensures
        t@ == trim(s@),
{
    let n: usize = s.len();
    let mut a: usize = 0;
    while a < n && is_whitespace(s[a])
        invariant
            a <= n,
            n == s.len(),
            all_space(s@, 0, a as int),
        decreases n - a,
    {
        a += 1;
    }
    let mut b: usize = n;
    while b > a && is_whitespace(s[b - 1])
        invariant
            a <= b <= n,
            n == s.len(),
            all_space(s@, b as int, n as int),
        decreases b,
    {
        b -= 1;
    }
    let mut t: Vec<char> = Vec::new();
    let mut i: usize = a;
    while i < b
        invariant
            a <= i <= b <= s.len(),
            t@ == s@.subrange(a as int, i as int),
        decreases b - i,
    {
        t.push(s[i]);
        i += 1;
    }
    proof {
        lemma_trim_start_is_skip(s@, a as int);
        let r = s@.skip(a as int);
        assert forall|k: int| b - a <= k < r.len() implies is_space(#[trigger] r[k]) by {
            assert(r[k] == s@[k + a]);
        }
        lemma_trim_end_is_take(r, b - a);
        assert(r.take(b - a) =~= s@.subrange(a as int, b as int));
    }
    t
}

/// `s` without its leading and trailing whitespace.
pub fn trim_text(s: &str) -> (t: String)
    ensures
        t@ == trim(s@),
{
    from_chars(&trimmed(&to_chars(s)))
}

/// The least index at which `pat` stands in `s`, if it stands there at all.
pub fn find(s: &Vec<char>, pat: &Vec<char>) -> (r: Option<usize>)
    ensures
        match r {
            Some(i) => first_occurrence(s@, pat@) == Some(i as int) && occurs_at(
                s@,
                pat@,
                i as int,
            ),
            None => first_occurrence(s@, pat@) is None,
        },
{
    let n: usize = s.len();
    let m: usize = pat.len();
    if m > n {
        assert(forall|i: int| !occurs_at(s@, pat@, i));
        return None;
    }
    let mut i: usize = 0;
    while i <= n - m
        invariant
            m <= n,
            m > 0 || i == 0,
            n == s.len(),
            m == pat.len(),
            i <= n - m + 1,
            forall|j: int| 0 <= j < i ==> !occurs_at(s@, pat@, j),
        decreases n - m + 1 - i,
    {
        if matches_at(s, pat, i) {
            proof {
                lemma_first_occurrence_unique(s@, pat@, i as int);
            }
            return Some(i);
        }
        assert(m > 0) by {
            if m == 0 {
                assert(s@.subrange(0, 0) =~= pat@);
            }
        }
        i += 1;
    }
    assert(forall|j: int| !occurs_at(s@, pat@, j));
    None
}

/// Whether `pat` stands in `s` at index `i`.
pub fn matches_at(s: &Vec<char>, pat: &Vec<char>, i: usize) -> (b: bool)
    ensures
        b == occurs_at(s@, pat@, i as int),
{
    let m: usize = pat.len();
    if i > s.len() || m > s.len() - i {
        return false;
    }
    let mut k: usize = 0;
    while k < m
        invariant
            m == pat.len(),
            i + m <= s.len(),
            k <= m,
            forall|j: int| 0 <= j < k ==> s@[i + j] == pat@[j],
        decreases m - k,
    {
        if s[i + k] != pat[k] {
            proof {
                let sub = s@.subrange(i as int, i + m);
                assert(sub[k as int] == s@[i + k]);
            }
            return false;
        }
        k += 1;
    }
    assert(s@.subrange(i as int, i + m) =~= pat@);
    true
}

} // verus!
