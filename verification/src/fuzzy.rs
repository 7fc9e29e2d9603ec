//! Fuzzy matching of "matchfuzzy()" and "matchfuzzypos()": which items
//! match a pattern, how the scores of its words add up, and in what order
//! the matches come back. The fzy score of one word against one text is
//! computed in floating point and is handed in by the caller.

use vstd::prelude::*;
use vstd::multiset::Multiset;
use crate::charset::char_len_at;
use crate::typval_defs::{typval_T, typval_vval_union, list_T, TypVal, VVal, ListVal, VarType, VarLockStatus, list_tv, num_tv, items_view};
use crate::typval::{string_or_empty, tv_get_string, tv_get_number, number_chk_result};
use crate::typval_dict::{dict_get, tv_dict_find};
use crate::typval_list::{list_from_items, list_value, number_tv};
use crate::dup::tv_dup;
use crate::mbyte::{cell_len, code_at, lemma_cell_len_bounds, cell_len_exec, char_code_at, utf8_decode};

verus! {

/// The base code point of each cell of `s` from byte `i` on.
pub open spec fn cells_from(s: Seq<u8>, i: int) -> Seq<int>
    decreases s.len() - i,
{
    if i < 0 || i >= s.len() {
        Seq::empty()
    } else {
        let n = cell_len(s, i);
        if n < 1 || i + n > s.len() { Seq::empty() } else { seq![code_at(s, i)] + cells_from(s, i + n) }
    }
}

/// The base code point of each cell of `s`.
pub open spec fn cells(s: Seq<u8>) -> Seq<int> {
    cells_from(s, 0)
}

/// The upper-case form of a code point (ASCII letters).
pub open spec fn upper(c: int) -> int {
    if 97 <= c <= 122 { c - 32 } else { c }
}

/// A needle character matches a text character that is itself or its
/// upper-case form.
pub open spec fn char_matches(n: int, h: int) -> bool {
    n == h || upper(n) == h
}

/// Whether the needle characters occur in order in the text.
pub open spec fn subseq_match(n: Seq<int>, h: Seq<int>) -> bool
    decreases h.len(),
{
    if n.len() == 0 {
        true
    } else if h.len() == 0 {
        false
    } else if char_matches(n[0], h[0]) {
        subseq_match(n.drop_first(), h.drop_first())
    } else {
        subseq_match(n, h.drop_first())
    }
}

/// A non-empty needle whose characters all occur, in order, in the text.
pub open spec fn has_match_spec(needle: Seq<u8>, haystack: Seq<u8>) -> bool {
    needle.len() > 0 && subseq_match(cells(needle), cells(haystack))
}

/// The base code point of each cell of a text.
pub fn cell_codes(s: &[u8]) -> (r: Vec<u32>)
    ensures
        r@.len() == cells(s@).len(),
        forall|k: int| 0 <= k < r@.len() ==> r@[k] as int == #[trigger] cells(s@)[k],
{
    let mut out: Vec<u32> = Vec::new();
    let mut i: usize = 0;
    while i < s.len()
        invariant
            i <= s@.len(),
            out@.len() + cells_from(s@, i as int).len() == cells(s@).len(),
            forall|k: int| 0 <= k < out@.len() ==> out@[k] as int == #[trigger] cells(s@)[k],
            forall|k: int| 0 <= k < cells_from(s@, i as int).len() ==>
                #[trigger] cells_from(s@, i as int)[k] == cells(s@)[out@.len() + k],
        decreases s@.len() - i,
    {
        let n = cell_len_exec(s, i);
        let c = char_code_at(s, i);
        let ghost rest = cells_from(s@, (i + n) as int);
        assert(cells_from(s@, i as int) == seq![code_at(s@, i as int)] + rest);
        assert(cells_from(s@, i as int)[0] == code_at(s@, i as int));
        assert forall|k: int| 0 <= k < rest.len() implies #[trigger] rest[k] == cells(s@)[out@.len() + 1 + k] by {
            assert(rest[k] == cells_from(s@, i as int)[k + 1]);
        }
        out.push(c);
        i = i + n;
    }
    out
}

fn upper_exec(c: u32) -> (r: u32)
    ensures r as int == upper(c as int),
{
    if 97 <= c && c <= 122 { c - 32 } else { c }
}

/// Do all the needle characters occur in order in the text, each as itself
/// or as its upper-case form? An empty needle matches nothing.
pub fn has_match(needle: &[u8], haystack: &[u8]) -> (r: bool)
    ensures r == has_match_spec(needle@, haystack@),
{
    if needle.len() == 0 {
        return false;
    }
    let n = cell_codes(needle);
    let h = cell_codes(haystack);
    let ghost nv = cells(needle@);
    let ghost hv = cells(haystack@);
    let mut a: usize = 0;
    let mut b: usize = 0;
    assert(nv.subrange(0, nv.len() as int) =~= nv);
    assert(hv.subrange(0, hv.len() as int) =~= hv);
    while a < n.len() && b < h.len()
        invariant
            a <= n@.len() == nv.len(), b <= h@.len() == hv.len(),
            forall|k: int| 0 <= k < n@.len() ==> n@[k] as int == #[trigger] nv[k],
            forall|k: int| 0 <= k < h@.len() ==> h@[k] as int == #[trigger] hv[k],
            subseq_match(nv, hv) == subseq_match(nv.subrange(a as int, nv.len() as int), hv.subrange(b as int, hv.len() as int)),
        decreases h@.len() - b,
    {
        let ghost ns = nv.subrange(a as int, nv.len() as int);
        let ghost hs = hv.subrange(b as int, hv.len() as int);
        assert(ns[0] == nv[a as int] && hs[0] == hv[b as int]);
        assert(hs.drop_first() =~= hv.subrange(b + 1, hv.len() as int));
        assert(ns.drop_first() =~= nv.subrange(a + 1, nv.len() as int));
        let x = n[a];
        if x == h[b] || upper_exec(x) == h[b] {
            a = a + 1;
        }
        b = b + 1;
    }
    proof {
        let ns = nv.subrange(a as int, nv.len() as int);
        let hs = hv.subrange(b as int, hv.len() as int);
        if a >= n.len() { assert(ns.len() == 0); } else { assert(hs.len() == 0); }
    }
    a >= n.len()
}

/// Room for matched positions across all the words of a pattern.
pub open spec fn max_len() -> int { 1024 }

/// The score that means "no match".
pub open spec fn score_none() -> int { i32::MIN as int }

/// What the scorer gives for one word against one text: the score, if there
/// is one, and the matched positions it wrote.
pub open spec fn out_view(o: (Option<i32>, Vec<u32>)) -> (Option<i32>, Seq<u32>) {
    (o.0, o.1@)
}

/// A scorer that may be called on any word and text and answers one way.
pub open spec fn scorer_ok<S: Fn(&[u8], &[u8]) -> (Option<i32>, Vec<u32>)>(sc: S) -> bool {
    (forall|x: (&[u8], &[u8])| call_requires(sc, x))
    && (forall|x1: (&[u8], &[u8]), x2: (&[u8], &[u8]), r1: (Option<i32>, Vec<u32>), r2: (Option<i32>, Vec<u32>)|
        x1.0@ == x2.0@ && x1.1@ == x2.1@ && call_ensures(sc, x1, r1) && call_ensures(sc, x2, r2)
            ==> out_view(r1) == out_view(r2))
}

/// The scorer's answer for word `w` against text `s`.
pub open spec fn score_of<S: Fn(&[u8], &[u8]) -> (Option<i32>, Vec<u32>)>(sc: S, w: Seq<u8>, s: Seq<u8>) -> (Option<i32>, Seq<u32>) {
    out_view((choose|p: ((&[u8], &[u8]), (Option<i32>, Vec<u32>))|
        p.0.0@ == w && p.0.1@ == s && #[trigger] call_ensures(sc, p.0, p.1)).1)
}

fn call_scorer<S: Fn(&[u8], &[u8]) -> (Option<i32>, Vec<u32>)>(sc: &S, w: &[u8], s: &[u8]) -> (r: (Option<i32>, Vec<u32>))
    requires scorer_ok(*sc),
    ensures out_view(r) == score_of(*sc, w@, s@),
{
    let r = sc(w, s);
    proof {
        let x = (w, s);
        assert(call_ensures(*sc, x, r));
        let p = (x, r);
        assert(p.0.0@ == w@ && p.0.1@ == s@ && call_ensures(*sc, p.0, p.1));
    }
    r
}

/// A blank: space or tab.
pub open spec fn is_blank(b: u8) -> bool { b == 32 || b == 9 }

/// The first byte from `i` on that is not blank.
pub open spec fn skip_blank(p: Seq<u8>, i: int) -> int
    decreases p.len() - i,
{
    if i < p.len() && is_blank(p[i]) { skip_blank(p, i + 1) } else { i }
}

/// The first blank byte from `i` on, or the end.
pub open spec fn word_end(p: Seq<u8>, i: int) -> int
    decreases p.len() - i,
{
    if i < p.len() && !is_blank(p[i]) { word_end(p, i + 1) } else { i }
}

/// `m` with `p` written from `off` on, as far as it has room.
pub open spec fn write_at(m: Seq<u32>, off: int, p: Seq<u32>) -> Seq<u32> {
    Seq::new(m.len(), |j: int| if off <= j < off + p.len() { p[j - off] } else { m[j] })
}

/// Scores add up, held between the largest score and one above "no match".
pub open spec fn sat_add(acc: int, score: int) -> int {
    if score > 0 && acc > i32::MAX - score { i32::MAX as int }
    else if score < 0 && acc < i32::MIN + 1 - score { i32::MIN + 1 }
    else { acc + score }
}

/// Matching the pattern from byte `rest` on, with `num` positions taken,
/// the score `acc` so far and the position buffer `m`: whether anything
/// matched, the score, and the buffer afterwards. Each blank-separated word
/// must match (the whole rest with `seq_mode`); a word that does not, or
/// that finds no room for its positions, fails the whole pattern.
pub open spec fn fz_loop<S: Fn(&[u8], &[u8]) -> (Option<i32>, Vec<u32>)>(
    sc: S, s: Seq<u8>, pat: Seq<u8>, seq_mode: bool, rest: int, num: int, acc: int, m: Seq<u32>,
) -> (bool, int, Seq<u32>)
    decreases pat.len() - rest,
{
    let r2 = if seq_mode { rest } else { skip_blank(pat, rest) };
    if !seq_mode && r2 >= pat.len() {
        (num != 0, acc, m)
    } else {
        let end = if seq_mode { pat.len() as int } else { word_end(pat, r2) };
        let w = pat.subrange(r2, end);
        let complete = seq_mode || end == pat.len();
        let pc = if cells(w).len() > max_len() { max_len() } else { cells(w).len() as int };
        if num > max_len() - pc {
            (false, score_none(), m)
        } else {
            let hm = has_match_spec(w, s);
            let o = score_of(sc, w, s);
            let m2 = if hm { write_at(m, num, o.1) } else { m };
            let score = if hm && o.0 is Some { o.0->Some_0 as int } else { score_none() };
            if score == score_none() {
                (false, score_none(), m2)
            } else {
                let acc2 = sat_add(acc, score);
                let num2 = num + pc;
                if complete || num2 >= max_len() || end <= rest || end > pat.len() {
                    (num2 != 0, acc2, m2)
                } else {
                    fz_loop(sc, s, pat, seq_mode, end, num2, acc2, m2)
                }
            }
        }
    }
}

/// The result of matching pattern `pat` against text `s`.
pub open spec fn fuzzy_match_spec<S: Fn(&[u8], &[u8]) -> (Option<i32>, Vec<u32>)>(
    sc: S, s: Seq<u8>, pat: Seq<u8>, seq_mode: bool, m: Seq<u32>,
) -> (bool, int, Seq<u32>) {
    fz_loop(sc, s, pat, seq_mode, 0, 0, 0, m)
}

fn skip_blank_exec(p: &[u8], i: usize) -> (r: usize)
    requires i <= p@.len(),
    ensures r as int == skip_blank(p@, i as int), i <= r <= p@.len(),
{
    let mut j = i;
    while j < p.len() && (p[j] == 32u8 || p[j] == 9u8)
        invariant i <= j <= p@.len(), skip_blank(p@, i as int) == skip_blank(p@, j as int),
        decreases p@.len() - j,
    {
        j = j + 1;
    }
    j
}

fn word_end_exec(p: &[u8], i: usize) -> (r: usize)
    requires i <= p@.len(),
    ensures r as int == word_end(p@, i as int), i <= r <= p@.len(),
        i < p@.len() && !is_blank(p@[i as int]) ==> r > i,
{
    let mut j = i;
    while j < p.len() && !(p[j] == 32u8 || p[j] == 9u8)
        invariant i <= j <= p@.len(), word_end(p@, i as int) == word_end(p@, j as int),
            i < p@.len() && !is_blank(p@[i as int]) ==> j > i || (j == i && j < p@.len() && !is_blank(p@[j as int])),
        decreases p@.len() - j,
    {
        j = j + 1;
    }
    j
}

fn write_positions(m: &mut Vec<u32>, off: usize, p: &Vec<u32>)
    ensures final(m)@ == write_at(old(m)@, off as int, p@),
{
    let mut k: usize = 0;
    while k < p.len() && off < m.len() && k < m.len() - off
        invariant
            k <= p@.len(), m@.len() == old(m)@.len(),
            forall|j: int| 0 <= j < m@.len() ==> #[trigger] m@[j] == (if off <= j < off + k { p@[j - off] } else { old(m)@[j] }),
        decreases p@.len() - k,
    {
        m.set(off + k, p[k]);
        k = k + 1;
    }
    proof {
        assert forall|j: int| 0 <= j < m@.len() implies #[trigger] m@[j] == write_at(old(m)@, off as int, p@)[j] by {
            if off <= j < off + p@.len() && !(j < off + k) {
                assert(off + k >= m@.len());
            }
        }
    }
    assert(m@ =~= write_at(old(m)@, off as int, p@));
}

fn sat_add_exec(acc: i32, score: i32) -> (r: i32)
    ensures r as int == sat_add(acc as int, score as int),
{
    if score > 0 && acc > i32::MAX - score { i32::MAX }
    else if score < 0 && acc < i32::MIN + 1 - score { i32::MIN + 1 }
    else { acc + score }
}

fn count_cells(s: &[u8]) -> (r: usize)
    ensures r as int == cells(s@).len(),
{
    cell_codes(s).len()
}

/// Match every blank-separated word of `pat` against `s` (the whole of `pat`
/// at once with `seq_mode`), summing the scores that `sc` gives and writing
/// the matched positions into `matches`: whether anything matched, and the
/// score ("no match" where nothing did).
pub fn fuzzy_match<S: Fn(&[u8], &[u8]) -> (Option<i32>, Vec<u32>)>(
    s: &[u8], pat: &[u8], seq_mode: bool, matches: &mut Vec<u32>, sc: &S,
) -> (r: (bool, i32))
    requires scorer_ok(*sc), old(matches)@.len() == max_len(),
    ensures
        (r.0, r.1 as int, final(matches)@) == fuzzy_match_spec(*sc, s@, pat@, seq_mode, old(matches)@),
        final(matches)@.len() == max_len(),
{
    let mut rest: usize = 0;
    let mut num: usize = 0;
    let mut acc: i32 = 0;
    loop
        invariant
            scorer_ok(*sc), rest <= pat@.len(), num <= max_len(), matches@.len() == max_len(),
            acc > i32::MIN,
            fuzzy_match_spec(*sc, s@, pat@, seq_mode, old(matches)@)
                == fz_loop(*sc, s@, pat@, seq_mode, rest as int, num as int, acc as int, matches@),
        decreases pat@.len() - rest,
    {
        let r2 = if seq_mode { rest } else { skip_blank_exec(pat, rest) };
        if !seq_mode && r2 >= pat.len() {
            return (num != 0, acc);
        }
        let end = if seq_mode { pat.len() } else { word_end_exec(pat, r2) };
        let w = &pat[r2..end];
        assert(w@ == pat@.subrange(r2 as int, end as int));
        let complete = seq_mode || end == pat.len();
        let n = count_cells(w);
        let pc: usize = if n > 1024 { 1024 } else { n };
        if num > 1024 - pc {
            return (false, i32::MIN);
        }
        let hm = has_match(w, s);
        let mut score: i32 = i32::MIN;
        if hm {
            let o = call_scorer(sc, w, s);
            write_positions(matches, num, &o.1);
            match o.0 {
                Some(v) => { score = v; }
                None => {}
            }
        }
        if score == i32::MIN {
            return (false, i32::MIN);
        }
        acc = sat_add_exec(acc, score);
        num = num + pc;
        if complete || num >= 1024 || end <= rest {
            return (num != 0, acc);
        }
        rest = end;
    }
}

/// One match: its place among the matches in list order, the index of the
/// item in the list, its score, its first matched position, its text and
/// the matched position of each pattern character.
pub struct FuzzyItem {
    pub idx: usize,
    pub item: usize,
    pub score: i32,
    pub startpos: u32,
    pub itemstr: Vec<u8>,
    pub lmatchpos: Vec<u32>,
}

/// A match as plain values.
pub struct FzEntry {
    pub idx: int,
    pub item: int,
    pub score: int,
    pub startpos: int,
    pub text: Seq<u8>,
    pub pos: Seq<u32>,
}

impl View for FuzzyItem {
    type V = FzEntry;
    open spec fn view(&self) -> FzEntry {
        FzEntry {
            idx: self.idx as int, item: self.item as int, score: self.score as int,
            startpos: self.startpos as int, text: self.itemstr@, pos: self.lmatchpos@,
        }
    }
}

pub open spec fn entries(s: Seq<FuzzyItem>) -> Seq<FzEntry> {
    s.map_values(|f: FuzzyItem| f@)
}

/// The pattern stands verbatim in the text at the first matched position.
pub open spec fn is_exact(e: FzEntry, pat: Seq<u8>) -> bool {
    0 <= e.startpos && e.startpos + pat.len() <= e.text.len()
        && e.text.subrange(e.startpos, e.startpos + pat.len()) == pat
}

/// The order of the result: higher score first; at equal scores a match
/// that holds the pattern verbatim first; then list order.
pub open spec fn fz_before(a: FzEntry, b: FzEntry, pat: Seq<u8>) -> bool {
    a.score > b.score || (a.score == b.score && (
        (is_exact(a, pat) && !is_exact(b, pat)) || (is_exact(a, pat) == is_exact(b, pat) && a.idx < b.idx)))
}

pub open spec fn sorted_by(s: Seq<FzEntry>, pat: Seq<u8>) -> bool {
    forall|i: int, j: int| 0 <= i < j < s.len() ==> fz_before(#[trigger] s[i], #[trigger] s[j], pat)
}

pub proof fn lemma_before_trans(a: FzEntry, b: FzEntry, c: FzEntry, pat: Seq<u8>)
    requires fz_before(a, b, pat), fz_before(b, c, pat),
    ensures fz_before(a, c, pat),
{
}

pub proof fn lemma_before_total(a: FzEntry, b: FzEntry, pat: Seq<u8>)
    requires a.idx != b.idx, !fz_before(a, b, pat),
    ensures fz_before(b, a, pat),
{
}

fn is_exact_exec(f: &FuzzyItem, pat: &[u8]) -> (r: bool)
    ensures r == is_exact(f@, pat@),
{
    let sp = f.startpos as usize;
    if sp > f.itemstr.len() || pat.len() > f.itemstr.len() || f.itemstr.len() - sp < pat.len() {
        return false;
    }
    let mut k: usize = 0;
    while k < pat.len()
        invariant
            k <= pat@.len(), sp + pat@.len() <= f.itemstr@.len(), sp == f.startpos, f.itemstr@.len() <= usize::MAX,
            forall|q: int| 0 <= q < k ==> f.itemstr@[sp + q] == pat@[q],
        decreases pat@.len() - k,
    {
        assert(sp + k < f.itemstr@.len());
        if f.itemstr[sp + k] != pat[k] {
            assert(f.itemstr@.subrange(sp as int, sp + pat@.len())[k as int] != pat@[k as int]);
            return false;
        }
        k = k + 1;
    }
    assert(f.itemstr@.subrange(sp as int, sp + pat@.len()) =~= pat@);
    true
}

fn before_exec(a: &FuzzyItem, b: &FuzzyItem, pat: &[u8]) -> (r: bool)
    ensures r == fz_before(a@, b@, pat@),
{
    if a.score != b.score {
        return a.score > b.score;
    }
    let ea = is_exact_exec(a, pat);
    let eb = is_exact_exec(b, pat);
    if ea != eb { ea } else { a.idx < b.idx }
}

/// Sort the matches: the result holds the same matches, in the order of
/// `fz_before`.
pub fn sort_matches(found: Vec<FuzzyItem>, pat: &[u8]) -> (r: Vec<FuzzyItem>)
    requires forall|k: int| 0 <= k < found@.len() ==> (#[trigger] found@[k]).idx == k,
    ensures
        sorted_by(entries(r@), pat@),
        entries(r@).to_multiset() == entries(found@).to_multiset(),
        forall|k: int| 0 <= k < r@.len() ==> #[trigger] found@.contains(r@[k]),
{
    broadcast use vstd::seq_lib::to_multiset_build, vstd::seq_lib::to_multiset_insert;
    let ghost orig = found@;
    let mut rest = found;
    let mut out: Vec<FuzzyItem> = Vec::new();
    proof {
        entries(out@).to_multiset_ensures();
        vstd::multiset::lemma_multiset_empty_len(entries(out@).to_multiset());
        assert(entries(out@).to_multiset().add(entries(rest@).to_multiset()) =~= entries(orig).to_multiset());
    }
    assert(rest@ == orig);
    while rest.len() > 0
        invariant
            rest@.len() <= orig.len(),
            forall|k: int| 0 <= k < rest@.len() ==> #[trigger] rest@[k] == orig[k],
            forall|k: int| 0 <= k < orig.len() ==> (#[trigger] orig[k]).idx == k,
            forall|k: int| 0 <= k < out@.len() ==> (#[trigger] out@[k]).idx >= rest@.len(),
            sorted_by(entries(out@), pat@),
            entries(out@).to_multiset().add(entries(rest@).to_multiset()) == entries(orig).to_multiset(),
            forall|k: int| 0 <= k < out@.len() ==> #[trigger] orig.contains(out@[k]),
        decreases rest@.len(),
    {
        let ghost before_rest = rest@;
        let x = rest.pop().unwrap();
        assert(before_rest =~= rest@.push(x));
        assert(entries(before_rest) =~= entries(rest@).push(x@));
        assert(x == orig[rest@.len() as int]);
        let mut p: usize = 0;
        while p < out.len() && !before_exec(&x, &out[p], pat)
            invariant
                p <= out@.len(),
                forall|k: int| 0 <= k < p ==> !fz_before(x@, (#[trigger] out@[k])@, pat@),
            decreases out@.len() - p,
        {
            p = p + 1;
        }
        let ghost ov = entries(out@);
        let ghost old_out = out@;
        proof {
            assert forall|k: int| 0 <= k < p implies fz_before(#[trigger] ov[k], x@, pat@) by {
                assert(ov[k] == out@[k]@);
                lemma_before_total(x@, ov[k], pat@);
            }
            if p < out@.len() {
                assert(fz_before(x@, ov[p as int], pat@));
                assert forall|k: int| p <= k < ov.len() implies fz_before(x@, #[trigger] ov[k], pat@) by {
                    if k > p { lemma_before_trans(x@, ov[p as int], ov[k], pat@); }
                }
            }
        }
        out.insert(p, x);
        proof {
            let nv = entries(out@);
            assert(nv =~= ov.insert(p as int, x@));
            assert forall|i: int, j: int| 0 <= i < j < nv.len() implies fz_before(#[trigger] nv[i], #[trigger] nv[j], pat@) by {
                if j < p { assert(nv[i] == ov[i] && nv[j] == ov[j]); }
                else if j == p { assert(nv[i] == ov[i]); }
                else if i < p { assert(nv[i] == ov[i] && nv[j] == ov[j - 1]); lemma_before_trans(ov[i], x@, ov[j - 1], pat@); }
                else if i == p { assert(nv[j] == ov[j - 1]); }
                else { assert(nv[i] == ov[i - 1] && nv[j] == ov[j - 1]); }
            }
            vstd::seq_lib::to_multiset_insert(ov, p as int, x@);
            vstd::seq_lib::to_multiset_build(entries(rest@), x@);
            assert(nv.to_multiset().add(entries(rest@).to_multiset()) =~= ov.to_multiset().add(entries(before_rest).to_multiset()));
            assert forall|k: int| 0 <= k < out@.len() implies #[trigger] orig.contains(out@[k]) by {
                if k == p { assert(out@[k] == orig[rest@.len() as int]); }
                else if k < p { assert(out@[k] == old_out[k]); }
                else { assert(out@[k] == old_out[k - 1]); }
            }
            assert forall|k: int| 0 <= k < out@.len() implies (#[trigger] out@[k]).idx >= rest@.len() by {
                if k < p { assert(out@[k]@ == ov[k]); } else if k > p { assert(out@[k]@ == ov[k - 1]); }
            }
        }
    }
    proof {
        entries(rest@).to_multiset_ensures();
        vstd::multiset::lemma_multiset_empty_len(entries(rest@).to_multiset());
        assert(entries(out@).to_multiset().add(Multiset::empty()) =~= entries(out@).to_multiset());
        assert(orig == found@);
    }
    out
}

pub open spec fn key_view(key: Option<&[u8]>) -> Option<Seq<u8>> {
    match key { Some(k) => Some(k@), None => None }
}

/// The text an item is matched by: a String item itself; with a key, the
/// String form of that entry of a Dictionary item. Other items are passed
/// over.
pub open spec fn item_text(t: TypVal, key: Option<Seq<u8>>) -> Option<Seq<u8>> {
    match key {
        Some(k) => match t.v {
            VVal::Dict(Some(d)) => if t.ty == VarType::VAR_DICT {
                match dict_get(d, k) { Some(v) => Some(string_or_empty(v)), None => None }
            } else { None },
            _ => None,
        },
        None => if t.ty == VarType::VAR_STRING { Some(string_or_empty(t)) } else { None },
    }
}

fn item_text_exec(t: &typval_T, key: Option<&[u8]>) -> (r: Option<Vec<u8>>)
    ensures
        match r { Some(v) => item_text(t@, key_view(key)) == Some(v@), None => item_text(t@, key_view(key)) is None },
{
    match key {
        Some(k) => {
            if t.v_type != VarType::VAR_DICT {
                return None;
            }
            match &t.vval {
                typval_vval_union::v_dict(Some(d)) => match tv_dict_find(d, k) {
                    Some(v) => Some(tv_get_string(v)),
                    None => None,
                },
                _ => None,
            }
        }
        None => if t.v_type == VarType::VAR_STRING { Some(tv_get_string(t)) } else { None },
    }
}

/// The matched position of each pattern character (of each non-blank one
/// unless `seq_mode`), read from the buffer from slot `j` on.
pub open spec fn pos_list(codes: Seq<int>, seq_mode: bool, m: Seq<u32>, j: int) -> Seq<u32>
    decreases codes.len(),
{
    if codes.len() == 0 || j < 0 || j >= max_len() {
        Seq::empty()
    } else if !(codes[0] == 32 || codes[0] == 9) || seq_mode {
        seq![m[j]] + pos_list(codes.drop_first(), seq_mode, m, j + 1)
    } else {
        pos_list(codes.drop_first(), seq_mode, m, j)
    }
}

fn pos_list_exec(pat: &[u8], seq_mode: bool, m: &Vec<u32>) -> (r: Vec<u32>)
    requires m@.len() == max_len(),
    ensures r@ == pos_list(cells(pat@), seq_mode, m@, 0),
{
    let codes = cell_codes(pat);
    let ghost cv = cells(pat@);
    let mut out: Vec<u32> = Vec::new();
    let mut i: usize = 0;
    let mut j: usize = 0;
    assert(cv.subrange(0, cv.len() as int) =~= cv);
    while i < codes.len() && j < 1024
        invariant
            i <= codes@.len() == cv.len(), j <= max_len(), m@.len() == max_len(),
            forall|k: int| 0 <= k < codes@.len() ==> codes@[k] as int == #[trigger] cv[k],
            out@ + pos_list(cv.subrange(i as int, cv.len() as int), seq_mode, m@, j as int) == pos_list(cv, seq_mode, m@, 0),
        decreases codes@.len() - i,
    {
        let ghost sub = cv.subrange(i as int, cv.len() as int);
        assert(sub.drop_first() =~= cv.subrange(i + 1, cv.len() as int));
        assert(sub[0] == cv[i as int]);
        let c = codes[i];
        if !(c == 32 || c == 9) || seq_mode {
            let ghost tail = pos_list(sub.drop_first(), seq_mode, m@, j + 1);
            assert(out@.push(m@[j as int]) + tail =~= out@ + (seq![m@[j as int]] + tail));
            out.push(m[j]);
            j = j + 1;
        }
        i = i + 1;
    }
    proof {
        let sub = cv.subrange(i as int, cv.len() as int);
        assert(pos_list(sub, seq_mode, m@, j as int) =~= Seq::empty());
        assert(out@ + Seq::<u32>::empty() =~= out@);
    }
    out
}

/// A fresh position buffer.
pub open spec fn zeros() -> Seq<u32> {
    Seq::new(1024, |_k: int| 0u32)
}

/// The matches among the items from index `i` on, after `found` and with
/// the buffer `m`: at most `limit` of them when `limit` is positive, taken in
/// list order.
pub open spec fn collect<S: Fn(&[u8], &[u8]) -> (Option<i32>, Vec<u32>)>(
    sc: S, items: Seq<TypVal>, pat: Seq<u8>, seq_mode: bool, key: Option<Seq<u8>>, retpos: bool,
    limit: int, i: int, found: Seq<FzEntry>, m: Seq<u32>,
) -> Seq<FzEntry>
    decreases items.len() - i,
{
    if i < 0 || i >= items.len() || (limit > 0 && found.len() >= limit) {
        found
    } else {
        match item_text(items[i], key) {
            None => collect(sc, items, pat, seq_mode, key, retpos, limit, i + 1, found, m),
            Some(txt) => {
                let res = fuzzy_match_spec(sc, txt, pat, seq_mode, m);
                let m2 = res.2;
                if res.0 {
                    let e = FzEntry {
                        idx: found.len() as int, item: i, score: res.1, startpos: m2[0] as int, text: txt,
                        pos: if retpos { pos_list(cells(pat), seq_mode, m2, 0) } else { Seq::empty() },
                    };
                    collect(sc, items, pat, seq_mode, key, retpos, limit, i + 1, found.push(e), m2)
                } else {
                    collect(sc, items, pat, seq_mode, key, retpos, limit, i + 1, found, m2)
                }
            }
        }
    }
}

/// What is returned for the sorted matches: the matching items, or with
/// `retpos` the List of them, the List of their position Lists and the List
/// of their scores.
pub open spec fn fz_output(items: Seq<TypVal>, srt: Seq<FzEntry>, retpos: bool) -> Seq<TypVal> {
    let matched = Seq::new(srt.len(), |k: int| items[srt[k].item]);
    if !retpos {
        matched
    } else {
        seq![
            list_tv(matched),
            list_tv(Seq::new(srt.len(), |k: int| list_tv(Seq::new(srt[k].pos.len(), |q: int| num_tv(srt[k].pos[q] as int))))),
            list_tv(Seq::new(srt.len(), |k: int| num_tv(srt[k].score))),
        ]
    }
}

fn positions_value(p: &Vec<u32>) -> (r: typval_T)
    ensures r@ == list_tv(Seq::new(p@.len(), |q: int| num_tv(p@[q] as int))),
{
    let mut v: Vec<typval_T> = Vec::new();
    let mut q: usize = 0;
    while q < p.len()
        invariant q <= p@.len(), v@.len() == q,
            forall|k: int| 0 <= k < q ==> (#[trigger] v@[k])@ == num_tv(p@[k] as int),
        decreases p@.len() - q,
    {
        v.push(number_tv(p[q] as i64));
        q = q + 1;
    }
    let r = list_value(list_from_items(v));
    assert(items_view(v@) =~= Seq::new(p@.len(), |q: int| num_tv(p@[q] as int)));
    r
}

/// Match every String item (with `key`, the `key` entry of every Dictionary
/// item) against `pat`, keep the first `max_matches` matches when that is
/// positive, and return them best first (see `fz_output`).
pub fn fuzzy_match_in_list<S: Fn(&[u8], &[u8]) -> (Option<i32>, Vec<u32>)>(
    items: &[typval_T], pat: &[u8], seq_mode: bool, key: Option<&[u8]>, retmatchpos: bool, max_matches: i64, sc: &S,
) -> (r: Vec<typval_T>)
    requires scorer_ok(*sc),
    ensures
        exists|srt: Seq<FzEntry>|
            sorted_by(srt, pat@)
            && srt.to_multiset() == collect(*sc, items_view(items@), pat@, seq_mode, key_view(key), retmatchpos,
                max_matches as int, 0, Seq::empty(), zeros()).to_multiset()
            && #[trigger] items_view(r@) == fz_output(items_view(items@), srt, retmatchpos),
{
    let ghost iv = items_view(items@);
    let ghost kv = key_view(key);
    let mut matches: Vec<u32> = Vec::new();
    while matches.len() < 1024
        invariant matches@.len() <= 1024, forall|k: int| 0 <= k < matches@.len() ==> matches@[k] == 0u32,
        decreases 1024 - matches@.len(),
    {
        matches.push(0u32);
    }
    assert(matches@ =~= zeros());
    let mut found: Vec<FuzzyItem> = Vec::new();
    let mut i: usize = 0;
    assert(entries(found@) =~= Seq::<FzEntry>::empty());
    while i < items.len() && !(max_matches > 0 && found.len() as u64 >= max_matches as u64)
        invariant
            scorer_ok(*sc), i <= items@.len(), matches@.len() == max_len(), iv == items_view(items@), kv == key_view(key),
            found@.len() <= i,
            forall|k: int| 0 <= k < found@.len() ==> (#[trigger] found@[k]).idx == k && found@[k].item < items@.len(),
            collect(*sc, iv, pat@, seq_mode, kv, retmatchpos, max_matches as int, 0, Seq::empty(), zeros())
                == collect(*sc, iv, pat@, seq_mode, kv, retmatchpos, max_matches as int, i as int, entries(found@), matches@),
        decreases items@.len() - i,
    {
        let txt = item_text_exec(&items[i], key);
        assert(iv[i as int] == items@[i as int]@);
        match txt {
            None => {}
            Some(s) => {
                let res = fuzzy_match(&s, pat, seq_mode, &mut matches, sc);
                if res.0 {
                    let lm = if retmatchpos { pos_list_exec(pat, seq_mode, &matches) } else { Vec::new() };
                    let ghost before = entries(found@);
                    let f = FuzzyItem { idx: found.len(), item: i, score: res.1, startpos: matches[0], itemstr: s, lmatchpos: lm };
                    found.push(f);
                    assert(entries(found@) =~= before.push(f@));
                }
            }
        }
        i = i + 1;
    }
    let ghost fv = entries(found@);
    assert(collect(*sc, iv, pat@, seq_mode, kv, retmatchpos, max_matches as int, i as int, fv, matches@) == fv);
    let srt = sort_matches(found, pat);
    let ghost sv = entries(srt@);
    let mut matched: Vec<typval_T> = Vec::new();
    let mut posl: Vec<typval_T> = Vec::new();
    let mut scores: Vec<typval_T> = Vec::new();
    let mut k: usize = 0;
    while k < srt.len()
        invariant
            k <= srt@.len(), sv == entries(srt@), matched@.len() == k, posl@.len() == k, scores@.len() == k,
            forall|q: int| 0 <= q < srt@.len() ==> #[trigger] found@.contains(srt@[q]),
            forall|q: int| 0 <= q < found@.len() ==> (#[trigger] found@[q]).item < items@.len(),
            forall|q: int| 0 <= q < k ==> (#[trigger] matched@[q])@ == items_view(items@)[sv[q].item],
            forall|q: int| 0 <= q < k ==> (#[trigger] posl@[q])@ == list_tv(Seq::new(sv[q].pos.len(), |z: int| num_tv(sv[q].pos[z] as int))),
            forall|q: int| 0 <= q < k ==> (#[trigger] scores@[q])@ == num_tv(sv[q].score),
        decreases srt@.len() - k,
    {
        let f = &srt[k];
        assert(found@.contains(srt@[k as int]));
        assert(f.item < items.len());
        matched.push(tv_dup(&items[f.item]));
        posl.push(positions_value(&f.lmatchpos));
        scores.push(number_tv(f.score as i64));
        k = k + 1;
    }
    let ghost mv = Seq::new(sv.len(), |q: int| iv[sv[q].item]);
    assert(items_view(matched@) =~= mv);
    if !retmatchpos {
        assert(items_view(matched@) == fz_output(iv, sv, retmatchpos));
        return matched;
    }
    let a = list_value(list_from_items(matched));
    assert(items_view(posl@) =~= Seq::new(sv.len(), |q: int| list_tv(Seq::new(sv[q].pos.len(), |z: int| num_tv(sv[q].pos[z] as int)))));
    assert(items_view(scores@) =~= Seq::new(sv.len(), |q: int| num_tv(sv[q].score)));
    let b = list_value(list_from_items(posl));
    let c = list_value(list_from_items(scores));
    let out = vec![a, b, c];
    assert(items_view(out@) =~= fz_output(iv, sv, retmatchpos));
    out
}

pub open spec fn fk_key() -> Seq<u8> { seq![107u8, 101, 121] }
pub open spec fn fk_limit() -> Seq<u8> { seq![108u8, 105, 109, 105, 116] }
pub open spec fn fk_matchseq() -> Seq<u8> { seq![109u8, 97, 116, 99, 104, 115, 101, 113] }

/// The arguments of "matchfuzzy()" read: the items of the List, the
/// pattern, the `key`, the `limit` and whether `matchseq` is present; `None`
/// where an argument is refused: the first is not a List, the second not a
/// String, the third given but not a Dictionary, its `key` not a non-empty
/// String or its `limit` not a Number.
pub open spec fn fz_args(a: Seq<TypVal>) -> Option<(Seq<TypVal>, Seq<u8>, Option<Seq<u8>>, int, bool)> {
    match a[0].v {
        VVal::List(Some(l)) => if a[0].ty != VarType::VAR_LIST || a[1].ty != VarType::VAR_STRING {
            None
        } else if a.len() >= 3 && a[2].ty != VarType::VAR_UNKNOWN {
            match a[2].v {
                VVal::Dict(Some(d)) => if a[2].ty != VarType::VAR_DICT {
                    None
                } else {
                    let kg = dict_get(d, fk_key());
                    let lg = dict_get(d, fk_limit());
                    if kg is Some && (kg->Some_0.ty != VarType::VAR_STRING || string_or_empty(kg->Some_0).len() == 0) {
                        None
                    } else if lg is Some && lg->Some_0.ty != VarType::VAR_NUMBER {
                        None
                    } else {
                        Some((l.items, string_or_empty(a[1]),
                            match kg { Some(v) => Some(string_or_empty(v)), None => None },
                            match lg { Some(v) => number_chk_result(v, true), None => 0 },
                            dict_get(d, fk_matchseq()) is Some))
                    }
                },
                _ => None,
            }
        } else {
            Some((l.items, string_or_empty(a[1]), None, 0, false))
        },
        _ => None,
    }
}

fn key_bytes() -> (r: Vec<u8>)
    ensures r@ == fk_key(),
{
    let v: Vec<u8> = vec![107u8, 101, 121];
    assert(v@ =~= fk_key());
    v
}

fn limit_bytes() -> (r: Vec<u8>)
    ensures r@ == fk_limit(),
{
    let v: Vec<u8> = vec![108u8, 105, 109, 105, 116];
    assert(v@ =~= fk_limit());
    v
}

fn matchseq_bytes() -> (r: Vec<u8>)
    ensures r@ == fk_matchseq(),
{
    let v: Vec<u8> = vec![109u8, 97, 116, 99, 104, 115, 101, 113];
    assert(v@ =~= fk_matchseq());
    v
}

/// The body of "matchfuzzy()" and "matchfuzzypos()" (`retmatchpos`): on
/// refused arguments `rettv` is left as it was; else it becomes a List of
/// the best matches first, as `fuzzy_match_in_list` gives them.
pub fn do_fuzzymatch<S: Fn(&[u8], &[u8]) -> (Option<i32>, Vec<u32>)>(
    argvars: &[typval_T], rettv: &mut typval_T, retmatchpos: bool, sc: &S,
)
    requires scorer_ok(*sc), argvars@.len() >= 2,
    ensures
        match fz_args(items_view(argvars@)) {
            None => *final(rettv) == *old(rettv),
            Some(x) => exists|srt: Seq<FzEntry>|
                sorted_by(srt, x.1)
                && srt.to_multiset() == collect(*sc, x.0, x.1, x.4, x.2, retmatchpos, x.3, 0, Seq::empty(), zeros()).to_multiset()
                && #[trigger] final(rettv)@ == (TypVal { ty: VarType::VAR_LIST, lock: old(rettv)@.lock,
                    v: VVal::List(Some(ListVal { items: fz_output(x.0, srt, retmatchpos), lock: VarLockStatus::VAR_UNLOCKED, refcount: 0 })) }),
        },
{
    let ghost av = items_view(argvars@);
    assert(av[0] == argvars@[0]@ && av[1] == argvars@[1]@);
    let l = match &argvars[0].vval {
        typval_vval_union::v_list(Some(l)) => l,
        _ => { return; }
    };
    if argvars[0].v_type != VarType::VAR_LIST || argvars[1].v_type != VarType::VAR_STRING {
        return;
    }
    let pat = tv_get_string(&argvars[1]);
    let mut key: Option<Vec<u8>> = None;
    let mut matchseq = false;
    let mut max_matches: i64 = 0;
    if argvars.len() >= 3 && argvars[2].v_type != VarType::VAR_UNKNOWN {
        assert(av[2] == argvars@[2]@);
        let d = match &argvars[2].vval {
            typval_vval_union::v_dict(Some(d)) => d,
            _ => { return; }
        };
        if argvars[2].v_type != VarType::VAR_DICT {
            return;
        }
        match tv_dict_find(d, key_bytes().as_slice()) {
            Some(v) => {
                let s = tv_get_string(v);
                if v.v_type != VarType::VAR_STRING || s.len() == 0 {
                    return;
                }
                key = Some(s);
            }
            None => {}
        }
        match tv_dict_find(d, limit_bytes().as_slice()) {
            Some(v) => {
                if v.v_type != VarType::VAR_NUMBER {
                    return;
                }
                max_matches = tv_get_number(v);
            }
            None => {}
        }
        matchseq = tv_dict_find(d, matchseq_bytes().as_slice()).is_some();
    }
    let kref: Option<&[u8]> = match &key { Some(k) => Some(k.as_slice()), None => None };
    let out = fuzzy_match_in_list(l.lv_items.as_slice(), pat.as_slice(), matchseq, kref, retmatchpos, max_matches, sc);
    assert(items_view(l.lv_items@) == l@.items);
    let ghost ov = items_view(out@);
    rettv.v_type = VarType::VAR_LIST;
    rettv.vval = typval_vval_union::v_list(Some(list_from_items(out)));
    proof {
        let x = fz_args(av);
        assert(x is Some);
        let x = x->Some_0;
        assert(x.0 == l@.items);
        assert(x.1 == pat@);
        assert(x.2 == key_view(kref));
        assert(x.3 == max_matches as int);
        assert(x.4 == matchseq);
        let srt = choose|srt: Seq<FzEntry>| sorted_by(srt, pat@)
            && srt.to_multiset() == collect(*sc, items_view(l.lv_items@), pat@, matchseq, key_view(kref), retmatchpos,
                max_matches as int, 0, Seq::empty(), zeros()).to_multiset()
            && #[trigger] items_view(out@) == fz_output(items_view(l.lv_items@), srt, retmatchpos);
        assert(ov == fz_output(x.0, srt, retmatchpos));
    }
}

/// "matchfuzzy({list}, {str} [, {dict}])": the matching items, best first.
pub fn f_matchfuzzy<S: Fn(&[u8], &[u8]) -> (Option<i32>, Vec<u32>)>(argvars: &[typval_T], rettv: &mut typval_T, sc: &S)
    requires scorer_ok(*sc), argvars@.len() >= 2,
    ensures
        match fz_args(items_view(argvars@)) {
            None => *final(rettv) == *old(rettv),
            Some(x) => exists|srt: Seq<FzEntry>|
                sorted_by(srt, x.1)
                && srt.to_multiset() == collect(*sc, x.0, x.1, x.4, x.2, false, x.3, 0, Seq::empty(), zeros()).to_multiset()
                && #[trigger] final(rettv)@ == (TypVal { ty: VarType::VAR_LIST, lock: old(rettv)@.lock,
                    v: VVal::List(Some(ListVal { items: fz_output(x.0, srt, false), lock: VarLockStatus::VAR_UNLOCKED, refcount: 0 })) }),
        },
{
    do_fuzzymatch(argvars, rettv, false, sc);
}

/// "matchfuzzypos({list}, {str} [, {dict}])": the matching items, their
/// matched positions and their scores, best first.
pub fn f_matchfuzzypos<S: Fn(&[u8], &[u8]) -> (Option<i32>, Vec<u32>)>(argvars: &[typval_T], rettv: &mut typval_T, sc: &S)
    requires scorer_ok(*sc), argvars@.len() >= 2,
    ensures
        match fz_args(items_view(argvars@)) {
            None => *final(rettv) == *old(rettv),
            Some(x) => exists|srt: Seq<FzEntry>|
                sorted_by(srt, x.1)
                && srt.to_multiset() == collect(*sc, x.0, x.1, x.4, x.2, true, x.3, 0, Seq::empty(), zeros()).to_multiset()
                && #[trigger] final(rettv)@ == (TypVal { ty: VarType::VAR_LIST, lock: old(rettv)@.lock,
                    v: VVal::List(Some(ListVal { items: fz_output(x.0, srt, true), lock: VarLockStatus::VAR_UNLOCKED, refcount: 0 })) }),
        },
{
    do_fuzzymatch(argvars, rettv, true, sc);
}

/// The matches come back with their scores from highest to lowest.
pub proof fn lemma_scores_descending(srt: Seq<FzEntry>, pat: Seq<u8>, i: int, j: int)
    requires sorted_by(srt, pat), 0 <= i < j < srt.len(),
    ensures srt[i].score >= srt[j].score,
{
    assert(fz_before(srt[i], srt[j], pat));
}

/// With a positive limit, no more matches are kept than the limit.
pub proof fn lemma_collect_limit<S: Fn(&[u8], &[u8]) -> (Option<i32>, Vec<u32>)>(
    sc: S, items: Seq<TypVal>, pat: Seq<u8>, seq_mode: bool, key: Option<Seq<u8>>, retpos: bool,
    limit: int, i: int, found: Seq<FzEntry>, m: Seq<u32>,
)
    requires limit > 0, found.len() <= limit,
    ensures collect(sc, items, pat, seq_mode, key, retpos, limit, i, found, m).len() <= limit,
    decreases items.len() - i,
{
    if i < 0 || i >= items.len() || found.len() >= limit {
    } else {
        match item_text(items[i], key) {
            None => lemma_collect_limit(sc, items, pat, seq_mode, key, retpos, limit, i + 1, found, m),
            Some(txt) => {
                let res = fuzzy_match_spec(sc, txt, pat, seq_mode, m);
                let m2 = res.2;
                if res.0 {
                    let e = FzEntry {
                        idx: found.len() as int, item: i, score: res.1, startpos: m2[0] as int, text: txt,
                        pos: if retpos { pos_list(cells(pat), seq_mode, m2, 0) } else { Seq::empty() },
                    };
                    lemma_collect_limit(sc, items, pat, seq_mode, key, retpos, limit, i + 1, found.push(e), m2);
                } else {
                    lemma_collect_limit(sc, items, pat, seq_mode, key, retpos, limit, i + 1, found, m2);
                }
            }
        }
    }
}

/// Every match kept names an item of the list that has a text to match by,
/// and holds that text.
pub proof fn lemma_collect_items<S: Fn(&[u8], &[u8]) -> (Option<i32>, Vec<u32>)>(
    sc: S, items: Seq<TypVal>, pat: Seq<u8>, seq_mode: bool, key: Option<Seq<u8>>, retpos: bool,
    limit: int, i: int, found: Seq<FzEntry>, m: Seq<u32>,
)
    requires
        forall|k: int| 0 <= k < found.len() ==> 0 <= (#[trigger] found[k]).item < items.len()
            && item_text(items[found[k].item], key) == Some(found[k].text),
    ensures
        ({
            let r = collect(sc, items, pat, seq_mode, key, retpos, limit, i, found, m);
            forall|k: int| 0 <= k < r.len() ==> 0 <= (#[trigger] r[k]).item < items.len()
                && item_text(items[r[k].item], key) == Some(r[k].text)
        }),
    decreases items.len() - i,
{
    if i < 0 || i >= items.len() || (limit > 0 && found.len() >= limit) {
    } else {
        match item_text(items[i], key) {
            None => lemma_collect_items(sc, items, pat, seq_mode, key, retpos, limit, i + 1, found, m),
            Some(txt) => {
                let res = fuzzy_match_spec(sc, txt, pat, seq_mode, m);
                let m2 = res.2;
                if res.0 {
                    let e = FzEntry {
                        idx: found.len() as int, item: i, score: res.1, startpos: m2[0] as int, text: txt,
                        pos: if retpos { pos_list(cells(pat), seq_mode, m2, 0) } else { Seq::empty() },
                    };
                    let f2 = found.push(e);
                    assert forall|k: int| 0 <= k < f2.len() implies 0 <= (#[trigger] f2[k]).item < items.len()
                        && item_text(items[f2[k].item], key) == Some(f2[k].text) by {
                        if k < found.len() { assert(f2[k] == found[k]); }
                    }
                    lemma_collect_items(sc, items, pat, seq_mode, key, retpos, limit, i + 1, f2, m2);
                } else {
                    lemma_collect_items(sc, items, pat, seq_mode, key, retpos, limit, i + 1, found, m2);
                }
            }
        }
    }
}

} // verus!
