//! Character-sequence helpers shared by the parsers: pattern search,
//! Unicode whitespace, trimming, splitting into words and joining.
use vstd::prelude::*;

verus! {

/// `pat` occurs in `s` starting at index `i`.
pub open spec fn matches_at(s: Seq<char>, pat: Seq<char>, i: int) -> bool {
    &&& 0 <= i
    &&& i + pat.len() <= s.len()
    &&& s.subrange(i, i + pat.len()) == pat
}

/// The first index `k >= from` at which `pat` occurs in `s`.
pub open spec fn find_from(s: Seq<char>, pat: Seq<char>, from: int) -> Option<int>
    decreases s.len() + 1 - from,
{
    if from < 0 || from + pat.len() > s.len() {
        None
    } else if matches_at(s, pat, from) {
        Some(from)
    } else {
        find_from(s, pat, from + 1)
    }
}

/// `find_from` returns exactly the first match at or after `from`.
pub proof fn lemma_find_from(s: Seq<char>, pat: Seq<char>, from: int)
    requires
        0 <= from,
    ensures
        match find_from(s, pat, from) {
            Some(k) => from <= k && matches_at(s, pat, k) && forall|j: int|
                from <= j < k ==> !#[trigger] matches_at(s, pat, j),
            None => forall|j: int| from <= j ==> !#[trigger] matches_at(s, pat, j),
        },
    decreases s.len() + 1 - from,
{
    if from + pat.len() > s.len() {
    } else if matches_at(s, pat, from) {
    } else {
        lemma_find_from(s, pat, from + 1);
    }
}

/// A match at `k` with no match in `[from, k)` is what `find_from` returns.
pub proof fn lemma_find_from_first(s: Seq<char>, pat: Seq<char>, from: int, k: int)
    requires
        0 <= from <= k,
        matches_at(s, pat, k),
        forall|j: int| from <= j < k ==> !#[trigger] matches_at(s, pat, j),
    ensures
        find_from(s, pat, from) == Some(k),
    decreases k - from,
{
    if from < k {
        assert(!matches_at(s, pat, from));
        lemma_find_from_first(s, pat, from + 1, k);
    }
}

/// No match at or after `from`: `find_from` gives `None`.
pub proof fn lemma_find_from_none(s: Seq<char>, pat: Seq<char>, from: int)
    requires
        0 <= from,
        forall|j: int| from <= j ==> !#[trigger] matches_at(s, pat, j),
    ensures
        find_from(s, pat, from) is None,
    decreases s.len() + 1 - from,
{
    if from + pat.len() <= s.len() {
        if pat.len() == 0 {
            assert(s.subrange(from, from) =~= pat);
        }
        assert(!matches_at(s, pat, from));
        lemma_find_from_none(s, pat, from + 1);
    }
}

/// Whether `pat` occurs in `v` at `i` (executable).
pub fn matches_at_exec(v: &Vec<char>, pat: &Vec<char>, i: usize) -> (b: bool)
    ensures
        b == matches_at(v@, pat@, i as int),
{
    if i > v.len() || pat.len() > v.len() - i {
        return false;
    }
    let mut j: usize = 0;
    while j < pat.len()
        invariant
            i + pat.len() <= v.len(),
            j <= pat.len(),
            forall|t: int| 0 <= t < j ==> v@[i + t] == pat@[t],
        decreases pat.len() - j,
    {
        if v[i + j] != pat[j] {
            assert(v@.subrange(i as int, i + pat.len())[j as int] != pat@[j as int]);
            return false;
        }
        j = j + 1;
    }
    assert(v@.subrange(i as int, i + pat.len()) =~= pat@);
    true
}

/// The first occurrence of `pat` in `v` at or after `from` (executable `find`).
pub fn find_from_exec(v: &Vec<char>, pat: &Vec<char>, from: usize) -> (r: Option<usize>)
    ensures
        match r {
            Some(k) => find_from(v@, pat@, from as int) == Some(k as int),
            None => find_from(v@, pat@, from as int) is None,
        },
{
    let mut i: usize = from;
    if i > v.len() || pat.len() > v.len() - i {
        return None;
    }
    while pat.len() <= v.len() - i
        invariant
            from <= i <= v.len(),
            find_from(v@, pat@, from as int) == find_from(v@, pat@, i as int),
        decreases v.len() - i,
    {
        if pat.len() == 0 {
            assert(v@.subrange(i as int, i as int) =~= pat@);
        }
        if matches_at_exec(v, pat, i) {
            return Some(i);
        }
        i = i + 1;
    }
    assert(find_from(v@, pat@, i as int) is None);
    None
}

/// The characters of `s`, in order.
pub fn chars_of(s: &str) -> (v: Vec<char>)
    ensures
        v@ == s@,
{
    let mut v: Vec<char> = Vec::new();
    for c in it: s.chars()
        invariant
            it.seq() == s@,
            v@ == s@.take(it.index() as int),
    {
        v.push(c);
    }
    v
}

/// Appends one character to a string (`String::push`).
#[verifier::external_body]
pub(crate) fn push_char(s: &mut String, c: char)
    ensures
        final(s)@ == old(s)@.push(c),
{
    s.push(c);
}

/// A string holding `v[lo..hi]`.
pub fn string_of_range(v: &Vec<char>, lo: usize, hi: usize) -> (s: String)
    requires
        lo <= hi <= v.len(),
    ensures
        s@ == v@.subrange(lo as int, hi as int),
{
    let mut s = String::new();
    let mut i = lo;
    while i < hi
        invariant
            lo <= i <= hi <= v.len(),
            s@ == v@.subrange(lo as int, i as int),
        decreases hi - i,
    {
        push_char(&mut s, v[i]);
        assert(v@.subrange(lo as int, i + 1) =~= v@.subrange(lo as int, i as int).push(v@[i as int]));
        i = i + 1;
    }
    s
}

/// A string holding all of `v`.
pub fn string_of(v: &Vec<char>) -> (s: String)
    ensures
        s@ == v@,
{
    let s = string_of_range(v, 0, v.len());
    assert(v@.subrange(0, v@.len() as int) =~= v@);
    s
}

/// Unicode `White_Space`, as `char::is_whitespace` defines it.
pub open spec fn is_ws(c: char) -> bool {
    ||| ('\t' <= c && c <= '\r')
    ||| c == ' '
    ||| c == '\u{85}'
    ||| c == '\u{a0}'
    ||| c == '\u{1680}'
    ||| ('\u{2000}' <= c && c <= '\u{200a}')
    ||| c == '\u{2028}'
    ||| c == '\u{2029}'
    ||| c == '\u{202f}'
    ||| c == '\u{205f}'
    ||| c == '\u{3000}'
}

/// Executable `is_ws`.
pub fn is_ws_exec(c: char) -> (b: bool)
    ensures
        b == is_ws(c),
{
    ('\t' <= c && c <= '\r') || c == ' ' || c == '\u{85}' || c == '\u{a0}' || c == '\u{1680}'
        || ('\u{2000}' <= c && c <= '\u{200a}') || c == '\u{2028}' || c == '\u{2029}' || c
        == '\u{202f}' || c == '\u{205f}' || c == '\u{3000}'
}

/// Index of the first non-whitespace character at or after `i` (or `s.len()`).
pub open spec fn skip_ws(s: Seq<char>, i: int) -> int
    decreases s.len() - i,
{
    if i < 0 || i >= s.len() {
        if i < 0 { 0 } else { i }
    } else if is_ws(s[i]) {
        skip_ws(s, i + 1)
    } else {
        i
    }
}

/// Index of the first whitespace character at or after `i` (or `s.len()`).
pub open spec fn word_end(s: Seq<char>, i: int) -> int
    decreases s.len() - i,
{
    if i < 0 || i >= s.len() {
        if i < 0 { 0 } else { i }
    } else if !is_ws(s[i]) {
        word_end(s, i + 1)
    } else {
        i
    }
}

/// Count of trailing whitespace characters among the first `n` of `s`.
pub open spec fn trailing_ws_end(s: Seq<char>, n: int) -> int
    decreases n,
{
    if n <= 0 {
        0
    } else if is_ws(s[n - 1]) {
        trailing_ws_end(s, n - 1)
    } else {
        n
    }
}

/// `str::trim`: `s` without leading and trailing whitespace.
pub open spec fn trim(s: Seq<char>) -> Seq<char> {
    let a = skip_ws(s, 0);
    let b = trailing_ws_end(s, s.len() as int);
    if a >= b {
        Seq::empty()
    } else {
        s.subrange(a, b)
    }
}

/// `word_end` stays within `[i, s.len()]`.
pub proof fn lemma_word_end_bounds(s: Seq<char>, i: int)
    requires
        0 <= i <= s.len(),
    ensures
        i <= word_end(s, i) <= s.len(),
        forall|k: int| i <= k < word_end(s, i) ==> !is_ws(#[trigger] s[k]),
        word_end(s, i) < s.len() ==> is_ws(s[word_end(s, i)]),
    decreases s.len() - i,
{
    if i < s.len() && !is_ws(s[i]) {
        lemma_word_end_bounds(s, i + 1);
    }
}

/// `skip_ws` stays within `[i, s.len()]`.
pub proof fn lemma_skip_ws_bounds(s: Seq<char>, i: int)
    requires
        0 <= i <= s.len(),
    ensures
        i <= skip_ws(s, i) <= s.len(),
        forall|k: int| i <= k < skip_ws(s, i) ==> is_ws(#[trigger] s[k]),
        skip_ws(s, i) < s.len() ==> !is_ws(s[skip_ws(s, i)]),
    decreases s.len() - i,
{
    if i < s.len() && is_ws(s[i]) {
        lemma_skip_ws_bounds(s, i + 1);
    }
}

/// `str::split_whitespace` from index `i`: the maximal runs of non-whitespace.
pub open spec fn words_from(s: Seq<char>, i: int) -> Seq<Seq<char>>
    decreases s.len() - i,
{
    if i < 0 || i >= s.len() {
        Seq::empty()
    } else if is_ws(s[i]) {
        words_from(s, i + 1)
    } else {
        let b = word_end(s, i);
        proof {
            lemma_word_end_bounds(s, i + 1);
        }
        seq![s.subrange(i, b)] + words_from(s, b)
    }
}

/// `str::split_whitespace`.
pub open spec fn words(s: Seq<char>) -> Seq<Seq<char>> {
    words_from(s, 0)
}

/// `ws.join(sep)`.
pub open spec fn join(ws: Seq<Seq<char>>, sep: Seq<char>) -> Seq<char>
    decreases ws.len(),
{
    if ws.len() == 0 {
        Seq::empty()
    } else if ws.len() == 1 {
        ws[0]
    } else {
        join(ws.drop_last(), sep) + sep + ws.last()
    }
}


/// Whether `a` and `b` hold the same characters.
pub fn eq_chars(a: &Vec<char>, b: &Vec<char>) -> (r: bool)
    ensures
        r == (a@ == b@),
{
    if a.len() != b.len() {
        return false;
    }
    let mut i: usize = 0;
    while i < a.len()
        invariant
            a.len() == b.len(),
            i <= a.len(),
            forall|k: int| 0 <= k < i ==> a@[k] == b@[k],
        decreases a.len() - i,
    {
        if a[i] != b[i] {
            return false;
        }
        i = i + 1;
    }
    assert(a@ =~= b@);
    true
}

/// Whether `s` begins with `pre`.
pub fn starts_with_exec(s: &Vec<char>, pre: &Vec<char>) -> (r: bool)
    ensures
        r == (pre.len() <= s.len() && s@.take(pre@.len() as int) == pre@),
{
    if pre.len() > s.len() {
        return false;
    }
    let r = matches_at_exec(s, pre, 0);
    assert(s@.subrange(0, pre@.len() as int) =~= s@.take(pre@.len() as int));
    r
}

/// `s` without leading and trailing whitespace.
pub fn trim_exec(s: &Vec<char>) -> (t: Vec<char>)
    ensures
        t@ == trim(s@),
{
    let mut a: usize = 0;
    while a < s.len() && is_ws_exec(s[a])
        invariant
            a <= s.len(),
            skip_ws(s@, 0) == skip_ws(s@, a as int),
        decreases s.len() - a,
    {
        a = a + 1;
    }
    let mut b: usize = s.len();
    while b > 0 && is_ws_exec(s[b - 1])
        invariant
            b <= s.len(),
            trailing_ws_end(s@, s@.len() as int) == trailing_ws_end(s@, b as int),
        decreases b,
    {
        b = b - 1;
    }
    if a >= b {
        Vec::new()
    } else {
        let mut t: Vec<char> = Vec::new();
        let mut i = a;
        while i < b
            invariant
                a <= i <= b <= s.len(),
                t@ == s@.subrange(a as int, i as int),
            decreases b - i,
        {
            t.push(s[i]);
            assert(s@.subrange(a as int, i + 1) =~= s@.subrange(a as int, i as int).push(s@[i as int]));
            i = i + 1;
        }
        t
    }
}

/// The whitespace-separated words of `s`.
pub fn words_exec(s: &Vec<char>) -> (ws: Vec<Vec<char>>)
    ensures
        ws@.map_values(|w: Vec<char>| w@) == words(s@),
{
    let mut ws: Vec<Vec<char>> = Vec::new();
    let mut i: usize = 0;
    while i < s.len()
        invariant
            i <= s.len(),
            words(s@) == ws@.map_values(|w: Vec<char>| w@) + words_from(s@, i as int),
        decreases s.len() - i,
    {
        if is_ws_exec(s[i]) {
            i = i + 1;
        } else {
            let mut j: usize = i + 1;
            proof {
                lemma_word_end_bounds(s@, i as int);
            }
            while j < s.len() && !is_ws_exec(s[j])
                invariant
                    i < j <= s.len(),
                    word_end(s@, i as int) == word_end(s@, j as int),
                decreases s.len() - j,
            {
                j = j + 1;
            }
            let mut w: Vec<char> = Vec::new();
            let mut k = i;
            while k < j
                invariant
                    i <= k <= j <= s.len(),
                    w@ == s@.subrange(i as int, k as int),
                decreases j - k,
            {
                w.push(s[k]);
                assert(s@.subrange(i as int, k + 1) =~= s@.subrange(i as int, k as int).push(s@[k as int]));
                k = k + 1;
            }
            let ghost old_ws = ws@;
            ws.push(w);
            assert(ws@.map_values(|w: Vec<char>| w@) =~= old_ws.map_values(|w: Vec<char>| w@).push(s@.subrange(i as int, j as int)));
            assert(ws@.map_values(|w: Vec<char>| w@) + words_from(s@, j as int) =~= old_ws.map_values(|w: Vec<char>| w@) + (seq![s@.subrange(i as int, j as int)] + words_from(s@, j as int)));
            i = j;
        }
    }
    assert(ws@.map_values(|w: Vec<char>| w@) + words_from(s@, i as int) =~= ws@.map_values(|w: Vec<char>| w@));
    ws
}

/// `ws.join(sep)`.
pub fn join_exec(ws: &Vec<Vec<char>>, sep: &Vec<char>) -> (r: Vec<char>)
    ensures
        r@ == join(ws@.map_values(|w: Vec<char>| w@), sep@),
{
    let ghost wv = ws@.map_values(|w: Vec<char>| w@);
    let mut r: Vec<char> = Vec::new();
    let mut i: usize = 0;
    assert(wv.take(0).len() == 0);
    while i < ws.len()
        invariant
            i <= ws.len(),
            wv == ws@.map_values(|w: Vec<char>| w@),
            r@ == join(wv.take(i as int), sep@),
        decreases ws.len() - i,
    {
        let ghost before = r@;
        if i > 0 {
            append_chars(&mut r, sep);
        }
        append_chars(&mut r, &ws[i]);
        proof {
            let t = wv.take(i + 1);
            assert(t.drop_last() =~= wv.take(i as int));
            assert(t.last() == ws@[i as int]@);
            if i == 0 {
                assert(r@ =~= t[0]);
            } else {
                assert(r@ =~= before + sep@ + t.last());
            }
        }
        i = i + 1;
    }
    assert(wv.take(ws.len() as int) =~= wv);
    r
}

/// Appends the characters of `b` to `a`.
pub fn append_chars(a: &mut Vec<char>, b: &Vec<char>)
    ensures
        final(a)@ == old(a)@ + b@,
{
    let mut i: usize = 0;
    while i < b.len()
        invariant
            i <= b.len(),
            a@ == old(a)@ + b@.take(i as int),
        decreases b.len() - i,
    {
        a.push(b[i]);
        assert(b@.take(i + 1) =~= b@.take(i as int).push(b@[i as int]));
        i = i + 1;
    }
    assert(b@.take(b.len() as int) =~= b@);
}


/// A copy of `v`.
pub fn copy_chars(v: &Vec<char>) -> (r: Vec<char>)
    ensures
        r@ == v@,
{
    let mut r: Vec<char> = Vec::new();
    append_chars(&mut r, v);
    assert(Seq::<char>::empty() + v@ =~= v@);
    r
}


/// `trailing_ws_end` stays within `[0, n]`.
pub proof fn lemma_trailing_bounds(s: Seq<char>, n: int)
    requires
        0 <= n <= s.len(),
    ensures
        0 <= trailing_ws_end(s, n) <= n,
        forall|k: int| trailing_ws_end(s, n) <= k < n ==> is_ws(#[trigger] s[k]),
        trailing_ws_end(s, n) > 0 ==> !is_ws(s[trailing_ws_end(s, n) - 1]),
    decreases n,
{
    if n > 0 && is_ws(s[n - 1]) {
        lemma_trailing_bounds(s, n - 1);
    }
}

/// Whitespace around a text does not change what `trim` gives.
pub proof fn lemma_trim_surrounded(pre: Seq<char>, x: Seq<char>, post: Seq<char>)
    requires
        forall|i: int| 0 <= i < pre.len() ==> is_ws(#[trigger] pre[i]),
        forall|i: int| 0 <= i < post.len() ==> is_ws(#[trigger] post[i]),
    ensures
        trim(pre + x + post) == trim(x),
{
    let s = pre + x + post;
    let p = pre.len() as int;
    lemma_skip_ws_bounds(s, 0);
    lemma_skip_ws_bounds(x, 0);
    lemma_trailing_bounds(s, s.len() as int);
    lemma_trailing_bounds(x, x.len() as int);
    let a_s = skip_ws(s, 0);
    let b_s = trailing_ws_end(s, s.len() as int);
    let a_x = skip_ws(x, 0);
    let b_x = trailing_ws_end(x, x.len() as int);
    assert forall|k: int| p <= k < p + x.len() implies s[k] == x[k - p] by {}
    if a_x < x.len() {
        // the first non-whitespace character of s is that of x
        if a_s < p + a_x {
            if a_s < p {
                assert(s[a_s] == pre[a_s]);
            } else {
                assert(s[a_s] == x[a_s - p]);
            }
        }
        if a_s > p + a_x {
            assert(s[p + a_x] == x[a_x]);
        }
        assert(a_s == p + a_x);
        // and so is the last
        assert(b_x > 0);
        if b_s > p + b_x {
            let k = b_s - 1;
            if k < p + x.len() {
                assert(s[k] == x[k - p]);
            } else {
                assert(s[k] == post[k - p - x.len()]);
            }
        }
        if b_s < p + b_x {
            let k = p + b_x - 1;
            assert(s[k] == x[b_x - 1]);
        }
        assert(b_s == p + b_x);
        assert(s.subrange(a_s, b_s) =~= x.subrange(a_x, b_x));
    } else {
        // x is all whitespace, and so is s
        assert forall|k: int| 0 <= k < s.len() implies is_ws(#[trigger] s[k]) by {
            if k < p {
                assert(s[k] == pre[k]);
            } else if k < p + x.len() {
                assert(s[k] == x[k - p]);
            } else {
                assert(s[k] == post[k - p - x.len()]);
            }
        }
        if a_s < s.len() {
            assert(is_ws(s[a_s]));
        }
        if b_x > 0 {
            assert(is_ws(x[b_x - 1]));
        }
        if b_s > 0 {
            assert(is_ws(s[b_s - 1]));
        }
    }
}

} // verus!
