//! SEARCH/REPLACE blocks: parsing a diff into blocks and applying the blocks
//! to a file's content.
use vstd::prelude::*;

use crate::text::{
    chars_of, find_from, find_from_exec, lemma_find_from, lemma_find_from_first,
    lemma_find_from_none, matches_at, push_char, string_of, string_of_range,
};

verus! {

/// The marker that opens a block.
pub open spec fn search_marker() -> Seq<char> {
    "<<<<<<< SEARCH"@
}

/// The marker between the search text and the replacement.
pub open spec fn separator_marker() -> Seq<char> {
    "======="@
}

/// The marker that closes a block.
pub open spec fn replace_marker() -> Seq<char> {
    ">>>>>>> REPLACE"@
}

/// A one-character newline pattern.
pub open spec fn newline() -> Seq<char> {
    seq!['\n']
}

/// Every CRLF pair becomes LF; every other character is kept.
pub open spec fn normalize(s: Seq<char>) -> Seq<char>
    decreases s.len(),
{
    if s.len() == 0 {
        Seq::empty()
    } else if s.len() >= 2 && s[0] == '\r' && s[1] == '\n' {
        seq!['\n'] + normalize(s.skip(2))
    } else {
        seq![s[0]] + normalize(s.skip(1))
    }
}

/// One SEARCH/REPLACE block.
pub struct Block {
    pub search: String,
    pub replace: String,
}

impl View for Block {
    type V = (Seq<char>, Seq<char>);

    open spec fn view(&self) -> (Seq<char>, Seq<char>) {
        (self.search@, self.replace@)
    }
}

/// The views of a sequence of blocks.
pub open spec fn blocks_view(bs: Seq<Block>) -> Seq<(Seq<char>, Seq<char>)> {
    bs.map_values(|b: Block| b@)
}

/// Why a diff could not be parsed.
#[derive(PartialEq, Eq, Structural, Clone, Copy, Debug)]
pub enum DiffError {
    MissingSearchNewline,
    MissingSeparator,
    MissingSeparatorNewline,
    MissingEndMarker,
    NoBlocks,
}

/// The text that reports a `DiffError`.
pub open spec fn diff_error_text(e: DiffError) -> Seq<char> {
    match e {
        DiffError::MissingSearchNewline => "Invalid diff format: Missing newline after SEARCH marker"@,
        DiffError::MissingSeparator => "Invalid diff format: Missing separator"@,
        DiffError::MissingSeparatorNewline => "Invalid diff format: Missing newline after separator"@,
        DiffError::MissingEndMarker => "Invalid diff format: Missing end marker"@,
        DiffError::NoBlocks => "Invalid diff format: No valid blocks found"@,
    }
}

impl DiffError {
    /// The message the tool reports for this error.
    pub fn message(&self) -> (s: String)
        ensures
            s@ == diff_error_text(*self),
    {
        match self {
            DiffError::MissingSearchNewline => String::from_str(
                "Invalid diff format: Missing newline after SEARCH marker",
            ),
            DiffError::MissingSeparator => String::from_str("Invalid diff format: Missing separator"),
            DiffError::MissingSeparatorNewline => String::from_str(
                "Invalid diff format: Missing newline after separator",
            ),
            DiffError::MissingEndMarker => String::from_str("Invalid diff format: Missing end marker"),
            DiffError::NoBlocks => String::from_str("Invalid diff format: No valid blocks found"),
        }
    }
}

/// Prepends `bs` to a successful scan result.
pub open spec fn prepend(
    bs: Seq<(Seq<char>, Seq<char>)>,
    r: Result<Seq<(Seq<char>, Seq<char>)>, DiffError>,
) -> Result<Seq<(Seq<char>, Seq<char>)>, DiffError> {
    match r {
        Ok(rest) => Ok(bs + rest),
        Err(e) => Err(e),
    }
}

/// Where scanning resumes after a block whose end marker starts at `re`:
/// past the next newline, if there is one.
pub open spec fn resume_at(d: Seq<char>, re: int) -> int {
    let p = re + replace_marker().len();
    match find_from(d, newline(), p) {
        Some(n) => n + 1,
        None => p,
    }
}

/// The blocks of the (normalized) diff `d`, scanning from `pos`.
pub open spec fn scan(d: Seq<char>, pos: int) -> Result<Seq<(Seq<char>, Seq<char>)>, DiffError>
    decreases d.len() + 1 - pos,
{
    if pos < 0 || pos > d.len() {
        Ok(Seq::empty())
    } else {
        match find_from(d, search_marker(), pos) {
            None => Ok(Seq::empty()),
            Some(k) => match find_from(d, newline(), k + search_marker().len()) {
                None => Err(DiffError::MissingSearchNewline),
                Some(n1) => match find_from(d, separator_marker(), n1 + 1) {
                    None => Err(DiffError::MissingSeparator),
                    Some(sep) => match find_from(d, newline(), sep + separator_marker().len()) {
                        None => Err(DiffError::MissingSeparatorNewline),
                        Some(n2) => match find_from(d, replace_marker(), n2 + 1) {
                            None => Err(DiffError::MissingEndMarker),
                            Some(re) => {
                                let block = (d.subrange(n1 + 1, sep), d.subrange(n2 + 1, re));
                                proof {
                                    lemma_find_from(d, search_marker(), pos);
                                    lemma_find_from(d, newline(), k + search_marker().len());
                                    lemma_find_from(d, separator_marker(), n1 + 1);
                                    lemma_find_from(d, newline(), sep + separator_marker().len());
                                    lemma_find_from(d, replace_marker(), n2 + 1);
                                    lemma_find_from(d, newline(), re + replace_marker().len());
                                }
                                prepend(seq![block], scan(d, resume_at(d, re)))
                            },
                        },
                    },
                },
            },
        }
    }
}

/// The blocks of `diff`, or why it is not a valid diff.
pub open spec fn spec_parse_blocks(diff: Seq<char>) -> Result<Seq<(Seq<char>, Seq<char>)>, DiffError> {
    match scan(normalize(diff), 0) {
        Ok(bs) => if bs.len() == 0 {
            Err(DiffError::NoBlocks)
        } else {
            Ok(bs)
        },
        Err(e) => Err(e),
    }
}

/// Replaces every CRLF pair of `text` with LF and keeps every other character.
pub fn normalize_line_endings(text: &str) -> (r: String)
    ensures
        r@ == normalize(text@),
{
    let v = chars_of(text);
    let mut result = String::new();
    let mut i: usize = 0;
    assert(v@.skip(0) =~= v@);
    assert(result@ + normalize(v@) =~= normalize(v@));
    while i < v.len()
        invariant
            i <= v.len(),
            v@ == text@,
            normalize(v@) == result@ + normalize(v@.skip(i as int)),
        decreases v.len() - i,
    {
        let ghost rest = v@.skip(i as int);
        if v[i] == '\r' && i + 1 < v.len() && v[i + 1] == '\n' {
            assert(rest.skip(2) =~= v@.skip(i + 2));
            push_char(&mut result, '\n');
            i = i + 2;
        } else {
            assert(rest.skip(1) =~= v@.skip(i + 1));
            push_char(&mut result, v[i]);
            i = i + 1;
        }
        assert(normalize(v@) == result@ + normalize(v@.skip(i as int)));
    }
    assert(normalize(v@.skip(i as int)) =~= Seq::empty());
    assert(result@ + Seq::<char>::empty() =~= result@);
    result
}


/// Splits `diff` into its SEARCH/REPLACE blocks (after normalizing CRLF to LF).
pub fn parse_blocks(diff: &str) -> (r: Result<Vec<Block>, DiffError>)
    ensures
        match r {
            Ok(bs) => spec_parse_blocks(diff@) == Ok::<_, DiffError>(blocks_view(bs@)),
            Err(e) => spec_parse_blocks(diff@) == Err::<Seq<(Seq<char>, Seq<char>)>, _>(e),
        },
{
    let norm = normalize_line_endings(diff);
    let d = chars_of(norm.as_str());
    let search = chars_of("<<<<<<< SEARCH");
    let sep_m = chars_of("=======");
    let end_m = chars_of(">>>>>>> REPLACE");
    let nl = chars_of("\n");
    proof {
        reveal_strlit("\n");
        assert(nl@ =~= newline());
    }
    let ghost dv = d@;
    let mut blocks: Vec<Block> = Vec::new();
    let mut pos: usize = 0;
    assert(blocks_view(blocks@) + scan(dv, 0)->Ok_0 =~= scan(dv, 0)->Ok_0);
    loop
        invariant
            d@ == dv,
            dv == normalize(diff@),
            search@ == search_marker(),
            sep_m@ == separator_marker(),
            end_m@ == replace_marker(),
            nl@ == newline(),
            pos <= d.len(),
            scan(dv, 0) == prepend(blocks_view(blocks@), scan(dv, pos as int)),
        ensures
            scan(dv, pos as int) is Ok,
            scan(dv, pos as int)->Ok_0.len() == 0,
        decreases d.len() + 1 - pos,
    {
        let k: usize = match find_from_exec(&d, &search, pos) {
            None => {
                break;
            },
            Some(k) => k,
        };
        proof {
            lemma_find_from(dv, search_marker(), pos as int);
        }
        let a: usize = k + search.len();
        let n1: usize = match find_from_exec(&d, &nl, a) {
            None => {
                return Err(DiffError::MissingSearchNewline);
            },
            Some(n) => n,
        };
        proof {
            lemma_find_from(dv, newline(), a as int);
        }
        let ss: usize = n1 + 1;
        let sep: usize = match find_from_exec(&d, &sep_m, ss) {
            None => {
                return Err(DiffError::MissingSeparator);
            },
            Some(p) => p,
        };
        proof {
            lemma_find_from(dv, separator_marker(), ss as int);
        }
        let se: usize = sep + sep_m.len();
        let n2: usize = match find_from_exec(&d, &nl, se) {
            None => {
                return Err(DiffError::MissingSeparatorNewline);
            },
            Some(n) => n,
        };
        proof {
            lemma_find_from(dv, newline(), se as int);
        }
        let rs: usize = n2 + 1;
        let re: usize = match find_from_exec(&d, &end_m, rs) {
            None => {
                return Err(DiffError::MissingEndMarker);
            },
            Some(p) => p,
        };
        proof {
            lemma_find_from(dv, replace_marker(), rs as int);
        }
        let block = Block { search: string_of_range(&d, ss, sep), replace: string_of_range(&d, rs, re) };
        let ghost old_blocks = blocks@;
        blocks.push(block);
        let p1: usize = re + end_m.len();
        proof {
            lemma_find_from(dv, newline(), p1 as int);
        }
        let next: usize = match find_from_exec(&d, &nl, p1) {
            Some(n) => n + 1,
            None => p1,
        };
        proof {
            lemma_find_from(dv, newline(), p1 as int);
            assert(blocks_view(blocks@) =~= blocks_view(old_blocks) + seq![(dv.subrange(ss as int, sep as int), dv.subrange(rs as int, re as int))]);
            assert(next as int == resume_at(dv, re as int));
            match scan(dv, next as int) {
                Ok(rest) => {
                    assert(blocks_view(blocks@) + rest =~= blocks_view(old_blocks) + (seq![(dv.subrange(ss as int, sep as int), dv.subrange(rs as int, re as int))] + rest));
                },
                Err(_) => {},
            }
        }
        pos = next;
    }
    proof {
        assert(blocks_view(blocks@) + scan(dv, pos as int)->Ok_0 =~= blocks_view(blocks@));
    }
    if blocks.len() == 0 {
        return Err(DiffError::NoBlocks);
    }
    Ok(blocks)
}


/// `s` with its first occurrence of `search` replaced by `replace`;
/// `s` itself when `search` does not occur.
pub open spec fn replace_first(s: Seq<char>, search: Seq<char>, replace: Seq<char>) -> Seq<char> {
    match find_from(s, search, 0) {
        Some(i) => s.subrange(0, i) + replace + s.subrange(i + search.len(), s.len() as int),
        None => s,
    }
}

/// The blocks applied one after another, each to the result of the ones before.
pub open spec fn apply_all(s: Seq<char>, bs: Seq<(Seq<char>, Seq<char>)>) -> Seq<char>
    decreases bs.len(),
{
    if bs.len() == 0 {
        s
    } else {
        replace_first(apply_all(s, bs.drop_last()), bs.last().0, bs.last().1)
    }
}

/// The content written for a block with an empty search text: the
/// replacement, with a final newline added when it is non-empty and lacks one.
pub open spec fn new_file_content(replace: Seq<char>) -> Seq<char> {
    if replace.len() == 0 {
        replace
    } else if replace.last() == '\n' {
        replace
    } else {
        replace.push('\n')
    }
}

/// The content after applying `bs` to `content`: when the first block's
/// search text is empty the whole content is the new-file content of its
/// replacement; otherwise every block replaces its first match in turn.
pub open spec fn spec_apply_blocks(content: Seq<char>, bs: Seq<(Seq<char>, Seq<char>)>) -> Seq<char>
    recommends
        bs.len() > 0,
{
    if bs[0].0.len() == 0 {
        new_file_content(bs[0].1)
    } else {
        apply_all(content, bs)
    }
}

/// `v[..lo] + ins + v[hi..]`.
fn splice(v: &Vec<char>, lo: usize, hi: usize, ins: &Vec<char>) -> (r: Vec<char>)
    requires
        lo <= hi <= v.len(),
    ensures
        r@ == v@.subrange(0, lo as int) + ins@ + v@.subrange(hi as int, v.len() as int),
{
    let mut r: Vec<char> = Vec::new();
    let mut i: usize = 0;
    while i < lo
        invariant
            i <= lo <= hi <= v.len(),
            r@ == v@.subrange(0, i as int),
        decreases lo - i,
    {
        r.push(v[i]);
        assert(v@.subrange(0, i + 1) =~= v@.subrange(0, i as int).push(v@[i as int]));
        i = i + 1;
    }
    let mut j: usize = 0;
    while j < ins.len()
        invariant
            j <= ins.len(),
            r@ == v@.subrange(0, lo as int) + ins@.subrange(0, j as int),
        decreases ins.len() - j,
    {
        r.push(ins[j]);
        assert(ins@.subrange(0, j + 1) =~= ins@.subrange(0, j as int).push(ins@[j as int]));
        j = j + 1;
    }
    assert(ins@.subrange(0, ins.len() as int) =~= ins@);
    let mut k: usize = hi;
    while k < v.len()
        invariant
            lo <= hi <= k <= v.len(),
            r@ == v@.subrange(0, lo as int) + ins@ + v@.subrange(hi as int, k as int),
        decreases v.len() - k,
    {
        r.push(v[k]);
        assert(v@.subrange(hi as int, k + 1) =~= v@.subrange(hi as int, k as int).push(v@[k as int]));
        k = k + 1;
    }
    r
}

/// Replaces the first occurrence of `search` in `s` by `replace`.
pub fn replace_first_exec(s: &Vec<char>, search: &Vec<char>, replace: &Vec<char>) -> (r: Vec<char>)
    ensures
        r@ == replace_first(s@, search@, replace@),
{
    match find_from_exec(s, search, 0) {
        Some(i) => {
            proof {
                lemma_find_from(s@, search@, 0);
                assert(matches_at(s@, search@, i as int));
                assert(i + search.len() <= s.len());
            }
            let e: usize = i + search.len();
            splice(s, i, e, replace)
        },
        None => s.clone(),
    }
}

/// Applies `blocks` to `content`, as `spec_apply_blocks` says.
pub fn apply_blocks(content: &str, blocks: &Vec<Block>) -> (r: String)
    requires
        blocks.len() > 0,
    ensures
        r@ == spec_apply_blocks(content@, blocks_view(blocks@)),
{
    let ghost bv = blocks_view(blocks@);
    let first_search = chars_of(blocks[0].search.as_str());
    if first_search.len() == 0 {
        let mut r = String::from_str(blocks[0].replace.as_str());
        let rv = chars_of(blocks[0].replace.as_str());
        if rv.len() > 0 && rv[rv.len() - 1] != '\n' {
            push_char(&mut r, '\n');
        }
        return r;
    }
    let mut result = chars_of(content);
    let mut i: usize = 0;
    while i < blocks.len()
        invariant
            i <= blocks.len(),
            bv == blocks_view(blocks@),
            result@ == apply_all(content@, bv.take(i as int)),
        decreases blocks.len() - i,
    {
        let search = chars_of(blocks[i].search.as_str());
        let replace = chars_of(blocks[i].replace.as_str());
        result = replace_first_exec(&result, &search, &replace);
        assert(bv.take(i + 1).drop_last() =~= bv.take(i as int));
        i = i + 1;
    }
    assert(bv.take(blocks.len() as int) =~= bv);
    string_of(&result)
}


/// A block replaces only the first place its search text occurs: the text
/// before that place holds no occurrence, and is kept, and so is the text
/// after the matched part.
pub proof fn law_replace_first_match_only(s: Seq<char>, search: Seq<char>, replace: Seq<char>)
    requires
        exists|j: int| matches_at(s, search, j),
    ensures
        exists|i: int|
            {
                &&& matches_at(s, search, i)
                &&& forall|j: int| 0 <= j < i ==> !#[trigger] matches_at(s, search, j)
                &&& replace_first(s, search, replace) == s.subrange(0, i) + replace + s.subrange(
                    i + search.len(),
                    s.len() as int,
                )
            },
{
    lemma_find_from(s, search, 0);
    let j = choose|j: int| matches_at(s, search, j);
    assert(matches_at(s, search, j));
    let i = find_from(s, search, 0)->Some_0;
    assert(matches_at(s, search, i));
}

/// A block whose search text does not occur leaves the content unchanged.
pub proof fn law_replace_missing_unchanged(s: Seq<char>, search: Seq<char>, replace: Seq<char>)
    requires
        forall|j: int| !#[trigger] matches_at(s, search, j),
    ensures
        replace_first(s, search, replace) == s,
{
    lemma_find_from(s, search, 0);
    if find_from(s, search, 0) is Some {
        assert(matches_at(s, search, find_from(s, search, 0)->Some_0));
    }
}

/// A block whose replacement equals its search text leaves the content unchanged.
pub proof fn law_replace_same_text_unchanged(s: Seq<char>, x: Seq<char>)
    ensures
        replace_first(s, x, x) == s,
{
    lemma_find_from(s, x, 0);
    match find_from(s, x, 0) {
        Some(i) => {
            assert(s.subrange(0, i) + x + s.subrange(i + x.len(), s.len() as int) =~= s);
        },
        None => {},
    }
}

/// Applying any number of blocks whose replacement equals their search text
/// leaves the content unchanged.
pub proof fn law_apply_same_text_unchanged(s: Seq<char>, bs: Seq<(Seq<char>, Seq<char>)>)
    requires
        forall|k: int| 0 <= k < bs.len() ==> (#[trigger] bs[k]).0 == bs[k].1,
    ensures
        apply_all(s, bs) == s,
    decreases bs.len(),
{
    if bs.len() > 0 {
        let init = bs.drop_last();
        assert forall|k: int| 0 <= k < init.len() implies (#[trigger] init[k]).0 == init[k].1 by {
            assert(init[k] == bs[k]);
        }
        law_apply_same_text_unchanged(s, init);
        assert(bs.last() == bs[bs.len() - 1]);
        law_replace_same_text_unchanged(s, bs.last().0);
    }
}

/// Text without a carriage return is not changed by line-ending normalization.
pub proof fn law_normalize_without_cr(s: Seq<char>)
    requires
        forall|i: int| 0 <= i < s.len() ==> s[i] != '\r',
    ensures
        normalize(s) == s,
    decreases s.len(),
{
    if s.len() > 0 {
        let t = s.skip(1);
        assert forall|i: int| 0 <= i < t.len() implies t[i] != '\r' by {
            assert(t[i] == s[i + 1]);
        }
        law_normalize_without_cr(t);
        assert(seq![s[0]] + t =~= s);
    }
}


/// Moving the start of a search over positions where `pat` does not occur
/// does not change what is found.
proof fn lemma_find_skip(d: Seq<char>, pat: Seq<char>, a: int, b: int)
    requires
        0 <= a <= b,
        forall|j: int| a <= j < b ==> !#[trigger] matches_at(d, pat, j),
    ensures
        find_from(d, pat, a) == find_from(d, pat, b),
    decreases b - a,
{
    if a < b {
        lemma_find_skip(d, pat, a + 1, b);
        assert(!matches_at(d, pat, a));
    }
}

/// A match found in `s` is found at the same place in `s + t`.
proof fn lemma_find_prefix(s: Seq<char>, t: Seq<char>, pat: Seq<char>, i: int)
    requires
        0 <= i,
        find_from(s, pat, i) is Some,
    ensures
        find_from(s + t, pat, i) == find_from(s, pat, i),
{
    let k = find_from(s, pat, i)->Some_0;
    lemma_find_from(s, pat, i);
    let d = s + t;
    assert forall|j: int| i <= j < k implies !#[trigger] matches_at(d, pat, j) by {
        assert(!matches_at(s, pat, j));
        assert(d.subrange(j, j + pat.len()) =~= s.subrange(j, j + pat.len()));
    }
    assert(d.subrange(k, k + pat.len()) =~= s.subrange(k, k + pat.len()));
    lemma_find_from_first(d, pat, i, k);
}

/// Searching `p + d` from `p.len() + j` finds what searching `d` from `j`
/// finds, moved by `p.len()`.
proof fn lemma_find_shift(p: Seq<char>, d: Seq<char>, pat: Seq<char>, j: int)
    requires
        0 <= j,
    ensures
        match find_from(d, pat, j) {
            Some(k) => find_from(p + d, pat, p.len() + j) == Some(p.len() + k),
            None => find_from(p + d, pat, p.len() + j) is None,
        },
    decreases d.len() + 1 - j,
{
    let e = p + d;
    let q = p.len() as int;
    if j + pat.len() <= d.len() {
        assert(e.subrange(q + j, q + j + pat.len()) =~= d.subrange(j, j + pat.len()));
        if !matches_at(d, pat, j) {
            lemma_find_shift(p, d, pat, j + 1);
        }
    }
}

/// `resume_at` in `p + d` is `resume_at` in `d`, moved by `p.len()`.
proof fn lemma_resume_shift(p: Seq<char>, d: Seq<char>, re: int)
    requires
        0 <= re,
    ensures
        resume_at(p + d, p.len() + re) == p.len() + resume_at(d, re),
{
    lemma_marker_facts();
    lemma_find_shift(p, d, newline(), re + replace_marker().len());
}

/// Scanning `p + d` from `p.len() + j` gives what scanning `d` from `j` gives.
proof fn lemma_scan_shift(p: Seq<char>, d: Seq<char>, j: int)
    requires
        0 <= j,
    ensures
        scan(p + d, p.len() + j) == scan(d, j),
    decreases d.len() + 1 - j,
{
    lemma_marker_facts();
    let e = p + d;
    let q = p.len() as int;
    if j <= d.len() {
        lemma_find_shift(p, d, search_marker(), j);
        match find_from(d, search_marker(), j) {
            None => {},
            Some(k) => {
                lemma_find_from(d, search_marker(), j);
                lemma_find_shift(p, d, newline(), k + 14);
                match find_from(d, newline(), k + 14) {
                    None => {},
                    Some(n1) => {
                        lemma_find_from(d, newline(), k + 14);
                        lemma_find_shift(p, d, separator_marker(), n1 + 1);
                        match find_from(d, separator_marker(), n1 + 1) {
                            None => {},
                            Some(sep) => {
                                lemma_find_from(d, separator_marker(), n1 + 1);
                                lemma_find_shift(p, d, newline(), sep + 7);
                                match find_from(d, newline(), sep + 7) {
                                    None => {},
                                    Some(n2) => {
                                        lemma_find_from(d, newline(), sep + 7);
                                        lemma_find_shift(p, d, replace_marker(), n2 + 1);
                                        match find_from(d, replace_marker(), n2 + 1) {
                                            None => {},
                                            Some(re) => {
                                                lemma_find_from(d, replace_marker(), n2 + 1);
                                                lemma_resume_shift(p, d, re);
                                                lemma_find_from(d, newline(), re + 15);
                                                let r = resume_at(d, re);
                                                assert(r > j);
                                                lemma_scan_shift(p, d, r);
                                                assert(e.subrange(q + n1 + 1, q + sep) =~= d.subrange(n1 + 1, sep));
                                                assert(e.subrange(q + n2 + 1, q + re) =~= d.subrange(n2 + 1, re));
                                            },
                                        }
                                    },
                                }
                            },
                        }
                    },
                }
            },
        }
    }
}

/// The search marker holds no newline and the end marker does not end
/// with one.
proof fn lemma_marker_newlines()
    ensures
        forall|i: int| 0 <= i < search_marker().len() ==> search_marker()[i] != '\n',
        replace_marker()[14] != '\n',
{
    reveal_strlit("<<<<<<< SEARCH");
    reveal_strlit(">>>>>>> REPLACE");
}

/// Scanning `d1 + d2` from a position in `d1` gives the blocks that
/// scanning `d1` gives, then those of `d2`, when `d1` ends with a newline.
proof fn lemma_scan_concat(d1: Seq<char>, d2: Seq<char>, pos: int)
    requires
        0 <= pos <= d1.len(),
        d1.len() > 0,
        d1.last() == '\n',
        scan(d1, pos) is Ok,
    ensures
        scan(d1 + d2, pos) == prepend(scan(d1, pos)->Ok_0, scan(d2, 0)),
    decreases d1.len() + 1 - pos,
{
    lemma_marker_facts();
    lemma_marker_newlines();
    let d = d1 + d2;
    let q = d1.len() as int;
    assert(d[q - 1] == '\n');
    match find_from(d1, search_marker(), pos) {
        None => {
            lemma_find_from(d1, search_marker(), pos);
            assert forall|j: int| pos <= j < q implies !#[trigger] matches_at(d, search_marker(), j) by {
                if j + 14 <= q {
                    assert(d.subrange(j, j + 14) =~= d1.subrange(j, j + 14));
                    assert(!matches_at(d1, search_marker(), j));
                } else if matches_at(d, search_marker(), j) {
                    assert(d.subrange(j, j + 14)[q - 1 - j] == d[q - 1]);
                    assert(search_marker()[q - 1 - j] != '\n');
                }
            }
            lemma_find_skip(d, search_marker(), pos, q);
            lemma_scan_shift(d1, d2, 0);
            lemma_find_shift(d1, d2, search_marker(), 0);
            assert(scan(d1, pos) == Ok::<_, DiffError>(Seq::<(Seq<char>, Seq<char>)>::empty()));
            assert(scan(d, pos) == scan(d, q));
            match scan(d2, 0) {
                Ok(b2) => {
                    assert(Seq::<(Seq<char>, Seq<char>)>::empty() + b2 =~= b2);
                },
                Err(_) => {},
            }
        },
        Some(k) => {
            lemma_find_from(d1, search_marker(), pos);
            lemma_find_prefix(d1, d2, search_marker(), pos);
            let n1 = find_from(d1, newline(), k + 14)->Some_0;
            lemma_find_from(d1, newline(), k + 14);
            lemma_find_prefix(d1, d2, newline(), k + 14);
            let sep = find_from(d1, separator_marker(), n1 + 1)->Some_0;
            lemma_find_from(d1, separator_marker(), n1 + 1);
            lemma_find_prefix(d1, d2, separator_marker(), n1 + 1);
            let n2 = find_from(d1, newline(), sep + 7)->Some_0;
            lemma_find_from(d1, newline(), sep + 7);
            lemma_find_prefix(d1, d2, newline(), sep + 7);
            let re = find_from(d1, replace_marker(), n2 + 1)->Some_0;
            lemma_find_from(d1, replace_marker(), n2 + 1);
            lemma_find_prefix(d1, d2, replace_marker(), n2 + 1);
            // the end marker does not end `d1`, so a newline follows it there
            assert(d1.subrange(re, re + 15)[14] == replace_marker()[14]);
            assert(re + 15 < q);
            assert(d1.subrange(q - 1, q) =~= newline());
            assert(matches_at(d1, newline(), q - 1));
            lemma_find_from(d1, newline(), re + 15);
            lemma_find_prefix(d1, d2, newline(), re + 15);
            let r = resume_at(d1, re);
            assert(resume_at(d, re) == r);
            assert(r <= q);
            lemma_scan_concat(d1, d2, r);
            assert(d.subrange(n1 + 1, sep) =~= d1.subrange(n1 + 1, sep));
            assert(d.subrange(n2 + 1, re) =~= d1.subrange(n2 + 1, re));
            let block = (d1.subrange(n1 + 1, sep), d1.subrange(n2 + 1, re));
            match scan(d2, 0) {
                Ok(b2) => {
                    let rest = scan(d1, r)->Ok_0;
                    assert(seq![block] + (rest + b2) =~= (seq![block] + rest) + b2);
                },
                Err(_) => {},
            }
        },
    }
}

/// A diff that ends with a newline, followed by another diff: every CRLF
/// pair lies in one of the two, so normalizing the whole normalizes each.
#[verifier::spinoff_prover]
proof fn lemma_normalize_concat(d1: Seq<char>, d2: Seq<char>)
    requires
        d1.len() > 0,
        d1.last() == '\n',
    ensures
        normalize(d1 + d2) == normalize(d1) + normalize(d2),
        normalize(d1).len() > 0,
        normalize(d1).last() == '\n',
    decreases d1.len(),
{
    let d = d1 + d2;
    let e = Seq::<char>::empty();
    assert(normalize(e) == e);
    assert(d[0] == d1[0]);
    if d1.len() == 1 {
        assert(d1[0] == '\n');
        assert(d.skip(1) =~= d2);
        assert(d1.skip(1) =~= e);
        assert(normalize(d) == seq![d[0]] + normalize(d.skip(1)));
        assert(normalize(d1) == seq![d1[0]] + normalize(d1.skip(1)));
        assert(normalize(d1) =~= seq!['\n']);
        assert(normalize(d) =~= normalize(d1) + normalize(d2));
    } else if d1[0] == '\r' && d1[1] == '\n' {
        assert(d[1] == d1[1]);
        let t = d1.skip(2);
        assert(d.skip(2) =~= t + d2);
        assert(normalize(d) == seq!['\n'] + normalize(d.skip(2)));
        assert(normalize(d1) == seq!['\n'] + normalize(t));
        if d1.len() == 2 {
            assert(t =~= e);
            assert(t + d2 =~= d2);
            assert(normalize(d1) =~= seq!['\n']);
            assert(normalize(d) =~= normalize(d1) + normalize(d2));
        } else {
            assert(t.last() == d1.last());
            lemma_normalize_concat(t, d2);
            assert(normalize(d) =~= normalize(d1) + normalize(d2));
            assert(normalize(d1).last() == normalize(t).last());
        }
    } else {
        assert(d[1] == d1[1]);
        let t = d1.skip(1);
        assert(d.skip(1) =~= t + d2);
        assert(normalize(d) == seq![d[0]] + normalize(d.skip(1)));
        assert(normalize(d1) == seq![d1[0]] + normalize(t));
        assert(t.last() == d1.last());
        lemma_normalize_concat(t, d2);
        assert(normalize(d) =~= normalize(d1) + normalize(d2));
        assert(normalize(d1).last() == normalize(t).last());
    }
}

/// Two diffs written one after the other, the first ending with a newline,
/// parse to the blocks of the first followed by those of the second.
pub proof fn law_parse_concatenated(d1: Seq<char>, d2: Seq<char>)
    requires
        spec_parse_blocks(d1) is Ok,
        spec_parse_blocks(d2) is Ok,
        d1.len() > 0,
        d1.last() == '\n',
    ensures
        spec_parse_blocks(d1 + d2) == Ok::<_, DiffError>(
            spec_parse_blocks(d1)->Ok_0 + spec_parse_blocks(d2)->Ok_0,
        ),
{
    lemma_normalize_concat(d1, d2);
    let n1 = normalize(d1);
    let n2 = normalize(d2);
    lemma_scan_concat(n1, n2, 0);
}

/// A first block with an empty search text writes a new file: the result
/// does not depend on the old content, starts with the replacement, and
/// ends with a newline unless it is empty; one newline at most is added.
pub proof fn law_empty_search_writes_replacement(
    c1: Seq<char>,
    c2: Seq<char>,
    bs: Seq<(Seq<char>, Seq<char>)>,
)
    requires
        bs.len() > 0,
        bs[0].0.len() == 0,
    ensures
        spec_apply_blocks(c1, bs) == spec_apply_blocks(c2, bs),
        spec_apply_blocks(c1, bs).take(bs[0].1.len() as int) == bs[0].1,
        spec_apply_blocks(c1, bs).len() == bs[0].1.len() || spec_apply_blocks(c1, bs).len() == bs[0].1.len() + 1,
        spec_apply_blocks(c1, bs).len() == 0 <==> bs[0].1.len() == 0,
        spec_apply_blocks(c1, bs).len() > 0 ==> spec_apply_blocks(c1, bs).last() == '\n',
{
    let r = bs[0].1;
    assert(r.take(r.len() as int) =~= r);
    assert(r.push('\n').take(r.len() as int) =~= r);
}

/// Blocks apply in diff order: the first block replaces its first match in
/// the content, and the rest apply to that result.
pub proof fn law_blocks_apply_in_order(
    s: Seq<char>,
    b: (Seq<char>, Seq<char>),
    rest: Seq<(Seq<char>, Seq<char>)>,
)
    ensures
        apply_all(s, seq![b] + rest) == apply_all(replace_first(s, b.0, b.1), rest),
    decreases rest.len(),
{
    let all = seq![b] + rest;
    if rest.len() == 0 {
        assert(all =~= seq![b]);
        assert(all.drop_last() =~= Seq::<(Seq<char>, Seq<char>)>::empty());
        assert(all.last() == b);
        assert(apply_all(s, all.drop_last()) == s);
        assert(apply_all(s, all) == replace_first(s, b.0, b.1));
        assert(apply_all(replace_first(s, b.0, b.1), rest) == replace_first(s, b.0, b.1));
    } else {
        assert(all.drop_last() =~= seq![b] + rest.drop_last());
        assert(all.last() == rest.last());
        law_blocks_apply_in_order(s, b, rest.drop_last());
        assert(apply_all(s, all) == replace_first(apply_all(s, all.drop_last()), all.last().0, all.last().1));
    }
}

/// Editing with two blocks whose first search text is non-empty changes
/// the content by the first block and then the result by the second.
pub proof fn law_two_blocks_in_diff_order(
    s: Seq<char>,
    b1: (Seq<char>, Seq<char>),
    b2: (Seq<char>, Seq<char>),
)
    requires
        b1.0.len() > 0,
    ensures
        spec_apply_blocks(s, seq![b1, b2]) == replace_first(replace_first(s, b1.0, b1.1), b2.0, b2.1),
{
    law_blocks_apply_in_order(s, b1, seq![b2]);
    assert(seq![b1] + seq![b2] =~= seq![b1, b2]);
    law_blocks_apply_in_order(replace_first(s, b1.0, b1.1), b2, Seq::empty());
    assert(seq![b2] + Seq::<(Seq<char>, Seq<char>)>::empty() =~= seq![b2]);
}

/// Normalizing text without a carriage return in front of a diff keeps
/// that text and normalizes the diff.
proof fn lemma_normalize_prefix(p: Seq<char>, d: Seq<char>)
    requires
        no_cr(p),
    ensures
        normalize(p + d) == p + normalize(d),
    decreases p.len(),
{
    if p.len() == 0 {
        assert(p + d =~= d);
        assert(p + normalize(d) =~= normalize(d));
    } else {
        let e = p + d;
        assert(e[0] == p[0]);
        assert(e.skip(1) =~= p.skip(1) + d);
        lemma_normalize_prefix(p.skip(1), d);
        assert(seq![p[0]] + (p.skip(1) + normalize(d)) =~= p + normalize(d));
    }
}

/// Text before the first block is skipped: a prefix with no `<` and no
/// carriage return does not change how a diff parses.
pub proof fn law_leading_text_skipped(p: Seq<char>, d: Seq<char>)
    requires
        forall|i: int| 0 <= i < p.len() ==> p[i] != '<' && p[i] != '\r',
    ensures
        spec_parse_blocks(p + d) == spec_parse_blocks(d),
{
    lemma_marker_facts();
    reveal_strlit("<<<<<<< SEARCH");
    lemma_normalize_prefix(p, d);
    let n = normalize(d);
    let e = p + n;
    let q = p.len() as int;
    assert forall|j: int| 0 <= j < q implies !#[trigger] matches_at(e, search_marker(), j) by {
        if matches_at(e, search_marker(), j) {
            assert(e.subrange(j, j + 14)[0] == e[j]);
            assert(e[j] == p[j]);
        }
    }
    lemma_find_skip(e, search_marker(), 0, q);
    lemma_find_shift(p, n, search_marker(), 0);
    assert(scan(e, 0) == scan(e, q));
    lemma_scan_shift(p, n, 0);
}

/// A well-formed diff after leading text with no `<` and no carriage return
/// parses to its blocks.
pub proof fn law_rendered_blocks_after_text(p: Seq<char>, bs: Seq<(Seq<char>, Seq<char>)>)
    requires
        forall|i: int| 0 <= i < p.len() ==> p[i] != '<' && p[i] != '\r',
        bs.len() > 0,
        forall|k: int| 0 <= k < bs.len() ==> writable_block(#[trigger] bs[k]),
    ensures
        spec_parse_blocks(p + render_blocks(bs)) == Ok::<_, DiffError>(bs),
{
    law_leading_text_skipped(p, render_blocks(bs));
    law_parse_rendered_blocks(bs);
}

/// A block written out in the diff format.
pub open spec fn render_block(b: (Seq<char>, Seq<char>)) -> Seq<char> {
    search_marker() + newline() + b.0 + separator_marker() + newline() + b.1 + replace_marker()
        + newline()
}

/// Blocks written out one after another.
pub open spec fn render_blocks(bs: Seq<(Seq<char>, Seq<char>)>) -> Seq<char>
    decreases bs.len(),
{
    if bs.len() == 0 {
        Seq::empty()
    } else {
        render_block(bs[0]) + render_blocks(bs.drop_first())
    }
}

/// `s` holds no carriage return.
pub open spec fn no_cr(s: Seq<char>) -> bool {
    forall|i: int| 0 <= i < s.len() ==> s[i] != '\r'
}

/// A block that the diff format can carry: no carriage returns, no
/// separator marker that starts inside the search text, and no end marker
/// that starts inside the replacement.
pub open spec fn writable_block(b: (Seq<char>, Seq<char>)) -> bool {
    &&& no_cr(b.0)
    &&& no_cr(b.1)
    &&& find_from(b.0 + separator_marker(), separator_marker(), 0) == Some(b.0.len() as int)
    &&& find_from(b.1 + replace_marker(), replace_marker(), 0) == Some(b.1.len() as int)
}

/// The first match of `pat` in a window of `d` that starts at `a` and holds
/// `t` is found at the same place in `d`.
proof fn lemma_find_in_window(d: Seq<char>, a: int, t: Seq<char>, pat: Seq<char>, m: int)
    requires
        0 <= a,
        a + t.len() <= d.len(),
        d.subrange(a, a + t.len()) == t,
        find_from(t, pat, 0) == Some(m),
    ensures
        find_from(d, pat, a) == Some(a + m),
{
    lemma_find_from(t, pat, 0);
    assert forall|j: int| a <= j < a + m implies !#[trigger] matches_at(d, pat, j) by {
        assert(!matches_at(t, pat, j - a));
        assert(t.subrange(j - a, j - a + pat.len()) =~= d.subrange(j, j + pat.len()));
    }
    assert(t.subrange(m, m + pat.len()) =~= d.subrange(a + m, a + m + pat.len()));
    lemma_find_from_first(d, pat, a, a + m);
}

/// A pattern is found at the start of itself.
proof fn lemma_find_self(pat: Seq<char>)
    ensures
        find_from(pat, pat, 0) == Some(0int),
{
    assert(pat.subrange(0, pat.len() as int) =~= pat);
}

proof fn lemma_marker_facts()
    ensures
        search_marker().len() == 14,
        separator_marker().len() == 7,
        replace_marker().len() == 15,
        no_cr(search_marker()),
        no_cr(separator_marker()),
        no_cr(replace_marker()),
        no_cr(newline()),
{
    reveal_strlit("<<<<<<< SEARCH");
    reveal_strlit("=======");
    reveal_strlit(">>>>>>> REPLACE");
}

/// Scanning written-out blocks that follow any prefix gives the blocks back.
proof fn lemma_scan_rendered(p: Seq<char>, bs: Seq<(Seq<char>, Seq<char>)>)
    requires
        forall|k: int| 0 <= k < bs.len() ==> writable_block(#[trigger] bs[k]),
    ensures
        scan(p + render_blocks(bs), p.len() as int) == Ok::<_, DiffError>(bs),
    decreases bs.len(),
{
    lemma_marker_facts();
    let d = p + render_blocks(bs);
    let pos = p.len() as int;
    if bs.len() == 0 {
        assert(d =~= p);
        lemma_find_from_none(d, search_marker(), pos);
        assert(bs =~= Seq::<(Seq<char>, Seq<char>)>::empty());
    } else {
        let b = bs[0];
        let rest = bs.drop_first();
        assert(writable_block(b));
        let sm = search_marker();
        let sp = separator_marker();
        let rm = replace_marker();
        let nl = newline();
        let rb = render_block(b);
        let ss = pos + 15;
        let sep = ss + b.0.len();
        let rs = sep + 8;
        let re = rs + b.1.len();
        let next = re + 16;
        assert(rb.len() == 39 + b.0.len() + b.1.len());
        assert(d =~= p + rb + render_blocks(rest));
        // the pieces of the block in place
        assert(d.subrange(pos, pos + 14) =~= sm);
        assert(d.subrange(pos + 14, pos + 15) =~= nl);
        assert(d.subrange(ss, sep + 7) =~= b.0 + sp);
        assert(d.subrange(sep + 7, sep + 8) =~= nl);
        assert(d.subrange(rs, re + 15) =~= b.1 + rm);
        assert(d.subrange(re + 15, re + 16) =~= nl);
        lemma_find_self(sm);
        lemma_find_self(nl);
        lemma_find_in_window(d, pos, sm, sm, 0);
        lemma_find_in_window(d, pos + 14, nl, nl, 0);
        lemma_find_in_window(d, ss, b.0 + sp, sp, b.0.len() as int);
        lemma_find_in_window(d, sep + 7, nl, nl, 0);
        lemma_find_in_window(d, rs, b.1 + rm, rm, b.1.len() as int);
        lemma_find_in_window(d, re + 15, nl, nl, 0);
        assert(d.subrange(ss, sep) =~= b.0);
        assert(d.subrange(rs, re) =~= b.1);
        assert(resume_at(d, re) == next);
        let p2 = p + rb;
        assert(p2.len() == next);
        assert(d =~= p2 + render_blocks(rest));
        assert forall|k: int| 0 <= k < rest.len() implies writable_block(#[trigger] rest[k]) by {
            assert(rest[k] == bs[k + 1]);
        }
        lemma_scan_rendered(p2, rest);
        assert(seq![(d.subrange(ss, sep), d.subrange(rs, re))] + rest =~= bs);
    }
}

/// Written-out blocks hold no carriage return.
proof fn lemma_render_no_cr(bs: Seq<(Seq<char>, Seq<char>)>)
    requires
        forall|k: int| 0 <= k < bs.len() ==> writable_block(#[trigger] bs[k]),
    ensures
        no_cr(render_blocks(bs)),
    decreases bs.len(),
{
    lemma_marker_facts();
    if bs.len() > 0 {
        let rest = bs.drop_first();
        assert forall|k: int| 0 <= k < rest.len() implies writable_block(#[trigger] rest[k]) by {
            assert(rest[k] == bs[k + 1]);
        }
        lemma_render_no_cr(rest);
        assert(writable_block(bs[0]));
        let b = bs[0];
        let whole = search_marker() + newline() + b.0 + separator_marker() + newline() + b.1
            + replace_marker() + newline() + render_blocks(rest);
        assert(whole =~= render_blocks(bs));
    }
}

/// Parsing a diff written from writable blocks gives back exactly those blocks.
pub proof fn law_parse_rendered_blocks(bs: Seq<(Seq<char>, Seq<char>)>)
    requires
        bs.len() > 0,
        forall|k: int| 0 <= k < bs.len() ==> writable_block(#[trigger] bs[k]),
    ensures
        spec_parse_blocks(render_blocks(bs)) == Ok::<_, DiffError>(bs),
{
    let d = render_blocks(bs);
    lemma_render_no_cr(bs);
    law_normalize_without_cr(d);
    lemma_scan_rendered(Seq::empty(), bs);
    assert(Seq::<char>::empty() + d =~= d);
}


/// The input of the replace tool: the file to change and the diff to apply.
pub struct FSReplaceInput {
    pub path: String,
    pub diff: String,
}

/// Replace sections of content in an existing file using SEARCH/REPLACE blocks
/// that define exact changes to specific parts of the file.
pub struct FSReplace;

/// The file content `edit` produces from `diff` and `content`, or the
/// message of the parse error.
pub open spec fn spec_edit(diff: Seq<char>, content: Seq<char>) -> Result<Seq<char>, Seq<char>> {
    match spec_parse_blocks(diff) {
        Ok(bs) => Ok(spec_apply_blocks(content, bs)),
        Err(e) => Err(diff_error_text(e)),
    }
}

impl FSReplace {
    /// The new content of a file whose current content is `content`, after
    /// applying `diff`; or the message that says why `diff` is not valid.
    pub fn edit(&self, diff: &str, content: &str) -> (r: Result<String, String>)
        ensures
            match r {
                Ok(s) => spec_edit(diff@, content@) == Ok::<_, Seq<char>>(s@),
                Err(m) => spec_edit(diff@, content@) == Err::<Seq<char>, _>(m@),
            },
    {
        match parse_blocks(diff) {
            Ok(blocks) => {
                proof {
                    assert(blocks_view(blocks@).len() == blocks@.len());
                }
                Ok(apply_blocks(content, &blocks))
            },
            Err(e) => Err(e.message()),
        }
    }

    /// The message reported after a successful replacement in `path`.
    pub fn success_message(path: &str) -> (m: String)
        ensures
            m@ == "Successfully replaced content in "@ + path@,
    {
        let mut m = String::from_str("Successfully replaced content in ");
        m.append(path);
        m
    }
}

} // verus!
