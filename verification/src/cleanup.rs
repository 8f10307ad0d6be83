//! Cleaning tool output of the traces that the staging location leaves in it.
//!
//! A compiler names the source file by the path under which it was staged.
//! Cleaning cuts the directory part off every such path, so that only the
//! file's own name remains, and trims the text.

use crate::chars::{from_chars, to_chars};
use crate::text::{
    has_visible, is_space, is_whitespace, lemma_trim_is_subrange, lemma_trim_keeps_visible,
    lemma_trim_twice, matches_at, occurs_at, trim, trimmed,
};
use vstd::prelude::*;

verus! {

/// The end of a staged path: a slash and the file's name.
pub open spec fn path_end(name: Seq<char>) -> Seq<char> {
    seq!['/'] + name
}

/// Whether no character of `s` in `[from, to)` is whitespace.
pub open spec fn no_space(s: Seq<char>, from: int, to: int) -> bool {
    forall|k: int| from <= k < to ==> !is_space(#[trigger] s[k])
}

/// Whether a staged path runs from index `i` of `s` to a slash and `name` at
/// index `p`: whether these stand at `p`, at `i` or behind it, with no
/// whitespace from `i` to their end.
pub open spec fn path_runs(s: Seq<char>, name: Seq<char>, i: int, p: int) -> bool {
    i <= p && occurs_at(s, path_end(name), p) && no_space(s, i, p + 1 + name.len())
}

/// Whether the character at index `i` of `s` belongs to the directory part of
/// a staged path: whether it is the slash before `name` or stands before that
/// slash with no whitespace between them.
pub open spec fn in_directory(s: Seq<char>, name: Seq<char>, i: int) -> bool {
    exists|p: int| path_runs(s, name, i, p)
}

/// The first `n` characters of `s` without those that belong to the directory
/// part of a staged path.
pub open spec fn without_directories_upto(s: Seq<char>, name: Seq<char>, n: int) -> Seq<char>
    decreases n,
{
    if n <= 0 {
        Seq::empty()
    } else if in_directory(s, name, n - 1) {
        without_directories_upto(s, name, n - 1)
    } else {
        without_directories_upto(s, name, n - 1).push(s[n - 1])
    }
}

/// `s` with every staged path cut down to the file's name.
pub open spec fn without_directories(s: Seq<char>, name: Seq<char>) -> Seq<char> {
    without_directories_upto(s, name, s.len() as int)
}

/// `s` with every staged path cut down to the file's name, and trimmed.
pub open spec fn clean_text(s: Seq<char>, name: Seq<char>) -> Seq<char> {
    trim(without_directories(s, name))
}

/// Where no character belongs to a staged path's directory, none is cut.
pub proof fn lemma_nothing_to_cut(s: Seq<char>, name: Seq<char>, n: int)
    requires
        0 <= n <= s.len(),
        forall|i: int| 0 <= i < n ==> !in_directory(s, name, i),
    ensures
        without_directories_upto(s, name, n) == s.take(n),
    decreases n,
{
    if n > 0 {
        lemma_nothing_to_cut(s, name, n - 1);
        assert(s.take(n - 1).push(s[n - 1]) =~= s.take(n));
    } else {
        assert(s.take(0) =~= Seq::<char>::empty());
    }
}

/// A text in which no slash is followed by the file's name is left as it is.
pub proof fn lemma_text_without_path_stays(s: Seq<char>, name: Seq<char>)
    requires
        forall|p: int| !occurs_at(s, path_end(name), p),
    ensures
        without_directories(s, name) == s,
{
    lemma_nothing_to_cut(s, name, s.len() as int);
    assert(s.take(s.len() as int) =~= s);
}

/// A staged path is replaced by the file's name: of a word, all that stands
/// before the end of the last slash and name in it gives way to the name.
pub proof fn lemma_path_becomes_name(w: Seq<char>, name: Seq<char>, p: int)
    requires
        no_space(w, 0, w.len() as int),
        occurs_at(w, path_end(name), p),
        forall|q: int| q > p ==> !occurs_at(w, path_end(name), q),
    ensures
        without_directories(w, name) == name + w.skip(p + 1 + name.len()),
{
    assert forall|i: int| 0 <= i < w.len() implies (in_directory(w, name, i) <==> i <= p) by {
        if i <= p {
            assert(path_runs(w, name, i, p));
        }
    }
    lemma_path_is_cut(w, name, p, w.len() as int);
    let pat = path_end(name);
    let cut = w.skip(p + 1);
    let named = name + w.skip(p + 1 + name.len());
    assert(cut.len() == named.len());
    assert forall|k: int| 0 <= k < cut.len() implies cut[k] == named[k] by {
        if k < name.len() {
            assert(w.subrange(p, p + pat.len())[k + 1] == pat[k + 1]);
        }
    }
    assert(cut =~= named);
}

/// Where the characters up to index `p` are cut and those behind it kept,
/// what is left of the first `n` is what stands behind `p`.
proof fn lemma_path_is_cut(w: Seq<char>, name: Seq<char>, p: int, n: int)
    requires
        0 <= p < w.len(),
        0 <= n <= w.len(),
        forall|i: int| 0 <= i < w.len() ==> (in_directory(w, name, i) <==> i <= p),
    ensures
        without_directories_upto(w, name, n) == if n <= p + 1 {
            Seq::<char>::empty()
        } else {
            w.subrange(p + 1, n)
        },
    decreases n,
{
    if n > 0 {
        lemma_path_is_cut(w, name, p, n - 1);
        if n > p + 1 {
            assert(w.subrange(p + 1, n - 1).push(w[n - 1]) =~= w.subrange(p + 1, n));
            assert(w.subrange(p + 1, p + 1) =~= Seq::<char>::empty());
        }
    }
}

/// Texts that agree on their first `n` characters, and on which of these
/// belong to a directory, are cut alike up to there.
proof fn lemma_cut_alike(s: Seq<char>, t: Seq<char>, name: Seq<char>, n: int)
    requires
        0 <= n <= s.len(),
        n <= t.len(),
        forall|i: int| 0 <= i < n ==> s[i] == t[i],
        forall|i: int| 0 <= i < n ==> in_directory(s, name, i) == in_directory(t, name, i),
    ensures
        without_directories_upto(s, name, n) == without_directories_upto(t, name, n),
    decreases n,
{
    if n > 0 {
        lemma_cut_alike(s, t, name, n - 1);
    }
}

/// What is left of a text is what is left of its first `d` characters and
/// then what is left of the rest, where the rest is cut as it would be alone.
proof fn lemma_cut_in_parts(s: Seq<char>, t: Seq<char>, name: Seq<char>, d: int, n: int)
    requires
        0 <= d,
        0 <= n <= t.len(),
        s.len() == d + t.len(),
        forall|i: int| 0 <= i < n ==> s[d + i] == t[i],
        forall|i: int| 0 <= i < n ==> in_directory(s, name, d + i) == in_directory(t, name, i),
    ensures
        without_directories_upto(s, name, d + n) == without_directories_upto(s, name, d)
            + without_directories_upto(t, name, n),
    decreases n,
{
    let head = without_directories_upto(s, name, d);
    if n > 0 {
        lemma_cut_in_parts(s, t, name, d, n - 1);
        let tail = without_directories_upto(t, name, n - 1);
        assert((head + tail).push(t[n - 1]) =~= head + tail.push(t[n - 1]));
    } else {
        assert(head + Seq::<char>::empty() =~= head);
    }
}

/// Whitespace parts a text: what stands before it and what stands behind it
/// are cleaned of paths each for itself, and the whitespace stays.
pub proof fn lemma_whitespace_parts(a: Seq<char>, c: char, b: Seq<char>, name: Seq<char>)
    requires
        is_space(c),
    ensures
        without_directories(a + seq![c] + b, name) == without_directories(a, name) + seq![c]
            + without_directories(b, name),
{
    let s = a + seq![c] + b;
    let na = a.len() as int;
    let m = name.len() + 1;
    let pat = path_end(name);
    assert(s[na] == c);
    assert forall|i: int| 0 <= i < na implies in_directory(s, name, i) == in_directory(
        a,
        name,
        i,
    ) by {
        if in_directory(s, name, i) {
            let p = choose|p: int| path_runs(s, name, i, p);
            if p + m > na {
                assert(!is_space(s[na]));
            }
            assert(a.subrange(p, p + m) =~= s.subrange(p, p + m));
            assert forall|k: int| i <= k < p + m implies !is_space(#[trigger] a[k]) by {
                assert(a[k] == s[k]);
            }
            assert(path_runs(a, name, i, p));
        }
        if in_directory(a, name, i) {
            let p = choose|p: int| path_runs(a, name, i, p);
            assert(a.subrange(p, p + m) =~= s.subrange(p, p + m));
            assert forall|k: int| i <= k < p + m implies !is_space(#[trigger] s[k]) by {
                assert(a[k] == s[k]);
            }
            assert(path_runs(s, name, i, p));
        }
    }
    assert(!in_directory(s, name, na)) by {
        if in_directory(s, name, na) {
            let p = choose|p: int| path_runs(s, name, na, p);
            assert(!is_space(s[na]));
        }
    }
    let d = na + 1;
    assert forall|i: int| 0 <= i < b.len() implies in_directory(s, name, d + i) == in_directory(
        b,
        name,
        i,
    ) by {
        let x = d + i;
        if in_directory(s, name, x) {
            let p = choose|p: int| path_runs(s, name, x, p);
            assert(b.subrange(p - d, p - d + m) =~= s.subrange(p, p + m));
            assert forall|k: int| i <= k < p - d + m implies !is_space(#[trigger] b[k]) by {
                assert(b[k] == s[k + d]);
            }
            assert(path_runs(b, name, i, p - d));
        }
        if in_directory(b, name, i) {
            let p = choose|p: int| path_runs(b, name, i, p);
            assert(b.subrange(p, p + m) =~= s.subrange(p + d, p + d + m));
            assert forall|k: int| d + i <= k < p + d + m implies !is_space(#[trigger] s[k]) by {
                assert(b[k - d] == s[k]);
            }
            assert(path_runs(s, name, x, p + d));
        }
    }
    lemma_cut_alike(s, a, name, na);
    lemma_cut_in_parts(s, b, name, d, b.len() as int);
    assert(without_directories_upto(s, name, d) == without_directories(a, name).push(c));
    assert(without_directories(a, name).push(c) =~= without_directories(a, name) + seq![c]);
}

/// The index in `s` of the character that stands at index `j` of what is
/// left of the first `n` characters of `s`.
spec fn origin(s: Seq<char>, name: Seq<char>, n: int, j: int) -> int
    decreases n,
{
    if n <= 0 {
        0
    } else if !in_directory(s, name, n - 1) && j == without_directories_upto(s, name, n - 1).len() {
        n - 1
    } else {
        origin(s, name, n - 1, j)
    }
}

/// Every character that is left was kept from `s`, in the order of `s`, and
/// every character of `s` between two that are left side by side was cut.
proof fn lemma_origin(s: Seq<char>, name: Seq<char>, n: int)
    requires
        0 <= n <= s.len(),
    ensures
        ({
            let out = without_directories_upto(s, name, n);
            &&& forall|j: int|
                0 <= j < out.len() ==> {
                    let i = #[trigger] origin(s, name, n, j);
                    0 <= i < n && out[j] == s[i] && !in_directory(s, name, i)
                }
            &&& forall|j: int, k: int|
                #![trigger origin(s, name, n, j), origin(s, name, n, k)]
                0 <= j < k < out.len() ==> origin(s, name, n, j) < origin(s, name, n, k)
            &&& forall|j: int, k: int, x: int|
                #![trigger origin(s, name, n, j), origin(s, name, n, k), in_directory(s, name, x)]
                0 <= j && k == j + 1 && k < out.len() && origin(s, name, n, j) < x < origin(
                    s,
                    name,
                    n,
                    k,
                ) ==> in_directory(s, name, x)
        }),
    decreases n,
{
    if n > 0 {
        lemma_origin(s, name, n - 1);
        let before = without_directories_upto(s, name, n - 1);
        let out = without_directories_upto(s, name, n);
        assert forall|j: int| 0 <= j < before.len() implies origin(s, name, n, j) == origin(
            s,
            name,
            n - 1,
            j,
        ) by {}
        lemma_tail_is_cut(s, name, n - 1);
        assert forall|j: int, k: int|
            #![trigger origin(s, name, n, j), origin(s, name, n, k)]
            0 <= j < k < out.len() implies origin(s, name, n, j) < origin(s, name, n, k) by {
            assert(origin(s, name, n, j) == origin(s, name, n - 1, j));
            if k < before.len() {
                assert(origin(s, name, n, k) == origin(s, name, n - 1, k));
            }
        }
        assert forall|j: int, k: int, x: int|
            #![trigger origin(s, name, n, j), origin(s, name, n, k), in_directory(s, name, x)]
            0 <= j && k == j + 1 && k < out.len() && origin(s, name, n, j) < x < origin(
                s,
                name,
                n,
                k,
            ) implies in_directory(s, name, x) by {
            assert(origin(s, name, n, j) == origin(s, name, n - 1, j));
            if k < before.len() {
                assert(origin(s, name, n, k) == origin(s, name, n - 1, k));
            }
        }
    }
}

/// Every character of the first `n` that stands behind the last that is left
/// was cut.
proof fn lemma_tail_is_cut(s: Seq<char>, name: Seq<char>, n: int)
    requires
        0 <= n <= s.len(),
    ensures
        ({
            let out = without_directories_upto(s, name, n);
            forall|x: int|
                out.len() > 0 && origin(s, name, n, out.len() - 1) < x < n ==> #[trigger] in_directory(
                    s,
                    name,
                    x,
                )
        }),
    decreases n,
{
    if n > 0 {
        lemma_tail_is_cut(s, name, n - 1);
        let before = without_directories_upto(s, name, n - 1);
        if before.len() > 0 {
            assert(origin(s, name, n, before.len() - 1) == origin(
                s,
                name,
                n - 1,
                before.len() - 1,
            ));
        }
    }
}

/// Characters that are left side by side, with no whitespace among them,
/// stood side by side in `s`.
proof fn lemma_run_stood_together(s: Seq<char>, name: Seq<char>, p: int, k: int)
    requires
        0 <= p,
        0 <= k,
        p + k < without_directories(s, name).len(),
        no_space(without_directories(s, name), p, p + k + 1),
    ensures
        origin(s, name, s.len() as int, p + k) == origin(s, name, s.len() as int, p) + k,
    decreases k,
{
    let n = s.len() as int;
    let out = without_directories(s, name);
    if k > 0 {
        lemma_run_stood_together(s, name, p, k - 1);
        lemma_origin(s, name, n);
        let j = p + k - 1;
        let a = origin(s, name, n, j);
        let b = origin(s, name, n, j + 1);
        assert(a < b);
        if b > a + 1 {
            let x = a + 1;
            assert(in_directory(s, name, x));
            let q = choose|q: int| path_runs(s, name, x, q);
            assert(!is_space(out[j]));
            assert(path_runs(s, name, a, q));
        }
    }
}

/// What is left holds no staged path.
pub proof fn lemma_no_path_is_left(s: Seq<char>, name: Seq<char>)
    ensures
        forall|i: int| !in_directory(without_directories(s, name), name, i),
{
    let n = s.len() as int;
    let out = without_directories(s, name);
    let m = name.len() + 1;
    let pat = path_end(name);
    lemma_origin(s, name, n);
    assert forall|i: int| !in_directory(out, name, i) by {
        if in_directory(out, name, i) {
            let p = choose|p: int| path_runs(out, name, i, p);
            let at = origin(s, name, n, p);
            assert forall|k: int| 0 <= k < m implies s[at + k] == #[trigger] pat[k] by {
                lemma_run_stood_together(s, name, p, k);
                assert(out.subrange(p, p + m)[k] == pat[k]);
                assert(out[p + k] == s[origin(s, name, n, p + k)]);
            }
            lemma_run_stood_together(s, name, p, m - 1);
            assert(s.subrange(at, at + m) =~= pat);
            assert forall|x: int| at <= x < at + m implies !is_space(#[trigger] s[x]) by {
                let k = x - at;
                lemma_run_stood_together(s, name, p, k);
                assert(!is_space(out[p + k]));
                assert(out[p + k] == s[origin(s, name, n, p + k)]);
            }
            assert(path_runs(s, name, at, at));
        }
    }
}

/// A cleaned text holds no staged path.
pub proof fn lemma_clean_text_holds_no_path(s: Seq<char>, name: Seq<char>)
    ensures
        forall|i: int| !in_directory(clean_text(s, name), name, i),
{
    let out = without_directories(s, name);
    let clean = clean_text(s, name);
    let m = name.len() + 1;
    let (a, b) = lemma_trim_is_subrange(out);
    lemma_no_path_is_left(s, name);
    assert forall|i: int| !in_directory(clean, name, i) by {
        if in_directory(clean, name, i) {
            let p = choose|p: int| path_runs(clean, name, i, p);
            assert(out.subrange(p + a, p + a + m) =~= clean.subrange(p, p + m));
            assert forall|k: int| p + a <= k < p + a + m implies !is_space(#[trigger] out[k]) by {
                assert(out[k] == clean[k - a]);
            }
            assert(path_runs(out, name, p + a, p + a));
            assert(in_directory(out, name, p + a));
        }
    }
}

/// Cleaning a cleaned text changes nothing more.
pub proof fn lemma_clean_twice(s: Seq<char>, name: Seq<char>)
    ensures
        clean_text(clean_text(s, name), name) == clean_text(s, name),
{
    let clean = clean_text(s, name);
    lemma_clean_text_holds_no_path(s, name);
    lemma_nothing_to_cut(clean, name, clean.len() as int);
    assert(clean.take(clean.len() as int) =~= clean);
    lemma_trim_twice(without_directories(s, name));
}

/// The last index at or below `hi` to which a staged path runs from `i`.
proof fn lemma_longest_path(s: Seq<char>, name: Seq<char>, i: int, hi: int) -> (p: int)
    requires
        exists|q: int| q <= hi && path_runs(s, name, i, q),
        forall|q: int| q > hi ==> !path_runs(s, name, i, q),
    ensures
        path_runs(s, name, i, p),
        forall|q: int| q > p ==> !path_runs(s, name, i, q),
    decreases hi - i,
{
    if path_runs(s, name, i, hi) {
        hi
    } else {
        lemma_longest_path(s, name, i, hi - 1)
    }
}

/// A character that is kept and is no whitespace shows in the result.
proof fn lemma_kept_character_shows(s: Seq<char>, name: Seq<char>, n: int, v: int)
    requires
        0 <= v < n <= s.len(),
        !is_space(s[v]),
        !in_directory(s, name, v),
    ensures
        has_visible(without_directories_upto(s, name, n)),
    decreases n,
{
    let out = without_directories_upto(s, name, n);
    if v == n - 1 {
        assert(!is_space(out[out.len() - 1]));
    } else {
        lemma_kept_character_shows(s, name, n - 1, v);
        let before = without_directories_upto(s, name, n - 1);
        let i = choose|i: int| 0 <= i < before.len() && !is_space(#[trigger] before[i]);
        assert(!is_space(out[i]));
    }
}

/// Cutting the directory off a path leaves the file's name: a text with a
/// character that is no whitespace is not cleaned to nothing, unless the
/// file's name is empty.
pub proof fn lemma_clean_keeps_visible(s: Seq<char>, name: Seq<char>)
    requires
        has_visible(s),
        name.len() > 0,
    ensures
        clean_text(s, name).len() > 0,
{
    let k = choose|k: int| 0 <= k < s.len() && !is_space(#[trigger] s[k]);
    let n = s.len() as int;
    if in_directory(s, name, k) {
        let p = lemma_longest_path(s, name, k, n);
        let v = p + 1;
        assert(!is_space(s[v]));
        if in_directory(s, name, v) {
            let q = choose|q: int| path_runs(s, name, v, q);
            assert(path_runs(s, name, k, q));
        }
        lemma_kept_character_shows(s, name, n, v);
    } else {
        lemma_kept_character_shows(s, name, n, k);
    }
    lemma_trim_keeps_visible(without_directories(s, name));
}

/// `s` with every staged path cut down to the file's name.
pub fn strip_directories(s: &Vec<char>, name: &Vec<char>) -> (out: Vec<char>)
    ensures
        out@ == without_directories(s@, name@),
{
    let n: usize = s.len();
    let mut pat: Vec<char> = Vec::new();
    pat.push('/');
    let mut k: usize = 0;
    while k < name.len()
        invariant
            k <= name.len(),
            pat@ == seq!['/'] + name@.take(k as int),
        decreases name.len() - k,
    {
        pat.push(name[k]);
        k += 1;
    }
    assert(pat@ == path_end(name@)) by {
        assert(name@.take(name@.len() as int) =~= name@);
    }
    let m: usize = pat.len();
    let mut out: Vec<char> = Vec::new();
    let mut i: usize = 0;
    while i < n
        invariant
            n == s.len(),
            m == pat.len(),
            m == name.len() + 1,
            pat@ == path_end(name@),
            i <= n,
            out@ == without_directories_upto(s@, name@, i as int),
        decreases n - i,
    {
        if is_whitespace(s[i]) {
            out.push(s[i]);
            i += 1;
        } else {
            let a: usize = i;
            let mut b: usize = i + 1;
            while b < n && !is_whitespace(s[b])
                invariant
                    n == s.len(),
                    a < b <= n,
                    no_space(s@, a as int, b as int),
                decreases n - b,
            {
                b += 1;
            }
            let mut found: bool = false;
            let mut p: usize = a;
            if m <= b - a {
                let mut q: usize = b - m + 1;
                while !found && q > a
                    invariant
                        n == s.len(),
                        m == pat.len(),
                        1 <= m <= b - a,
                        b <= n,
                        a <= q <= b - m + 1,
                        !found ==> forall|j: int| q <= j <= b - m ==> !occurs_at(s@, pat@, j),
                        found ==> a <= p <= b - m && occurs_at(s@, pat@, p as int) && forall|j: int|
                            p < j <= b - m ==> !occurs_at(s@, pat@, j),
                    decreases q + (if found { 0int } else { 1int }),
                {
                    q -= 1;
                    if matches_at(s, &pat, q) {
                        found = true;
                        p = q;
                    }
                }
            }
            proof {
                assert forall|j: int| a <= j < b implies (in_directory(s@, name@, j) <==> (found
                    && j <= p)) by {
                    if found && j <= p {
                        assert(path_runs(s@, name@, j, p as int));
                    }
                    if in_directory(s@, name@, j) {
                        let w = choose|w: int| path_runs(s@, name@, j, w);
                        if b < n {
                            if w + m > b {
                                assert(!is_space(s@[b as int]));
                            }
                        }
                        assert(w + m <= b);
                        assert(a <= w <= b - m);
                    }
                }
            }
            let mut j: usize = a;
            while j < b
                invariant
                    n == s.len(),
                    a <= j <= b <= n,
                    forall|x: int| a <= x < b ==> (in_directory(s@, name@, x) <==> (found && x <= p)),
                    out@ == without_directories_upto(s@, name@, j as int),
                decreases b - j,
            {
                if !found || j > p {
                    out.push(s[j]);
                }
                j += 1;
            }
            i = b;
        }
    }
    out
}

/// Cleans tool output of the staging location: every path that ends in a
/// slash and `filename` is cut down to `filename`, and the text is trimmed.
pub fn clean_error_content(content: String, filename: &str) -> (cleaned: String)
    ensures
        cleaned@ == clean_text(content@, filename@),
{
    let s = to_chars(content.as_str());
    let name = to_chars(filename);
    let stripped = strip_directories(&s, &name);
    let t = trimmed(&stripped);
    from_chars(&t)
}

} // verus!
