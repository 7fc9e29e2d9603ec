//! "match()", "matchend()", "matchstr()", "matchlist()" and
//! "matchstrpos()": which match of a pattern is chosen in a String or a
//! List, and what each builtin returns of it. Finding a match of one
//! pattern in one text is the pattern engine's work, handed in by the
//! caller.

use vstd::prelude::*;
use crate::typval_defs::{typval_T, typval_vval_union, list_T, TypVal, VVal, ListVal, VarType, VarLockStatus,
    num_tv, str_tv, list_tv, items_view, dummy_tv};
use crate::typval::{string_or_empty, number_chk_result, tv_get_string, tv_get_number};
use crate::typval_list::{list_from_items, number_tv, string_tv, lemma_items_view_index_all};
use crate::charset::{utf8_split, char_len_at, char_len_exec, lemma_char_len_shift};
use crate::mbyte::bytes_between;
use crate::dup::tv_dup;
use crate::highlight::names_view;
use crate::charset::utf8_chars;
use crate::funcs_basic::{with_number, with_string, set_number, set_string};

verus! {

/// A match as the engine reports it: start and end as character indices,
/// and the whole match followed by the groups.
pub open spec fn hit_view(o: Option<(i64, i64, Vec<Vec<u8>>)>) -> Option<(int, int, Seq<Seq<u8>>)> {
    match o { Some(h) => Some((h.0 as int, h.1 as int, names_view(h.2@))), None => None }
}

/// An engine that can be asked anything, answers one way for one question,
/// and reports positions within the text it searched.
pub open spec fn matcher_ok<M: Fn(&[u8], &[u8], bool, usize, i64) -> Option<(i64, i64, Vec<Vec<u8>>)>>(m: M) -> bool {
    &&& forall|x: (&[u8], &[u8], bool, usize, i64)| call_requires(m, x)
    &&& forall|x1: (&[u8], &[u8], bool, usize, i64), x2: (&[u8], &[u8], bool, usize, i64),
            r1: Option<(i64, i64, Vec<Vec<u8>>)>, r2: Option<(i64, i64, Vec<Vec<u8>>)>|
            x1.0@ == x2.0@ && x1.1@ == x2.1@ && x1.2 == x2.2 && x1.3 == x2.3 && x1.4 == x2.4
            && call_ensures(m, x1, r1) && call_ensures(m, x2, r2) ==> hit_view(r1) == hit_view(r2)
    &&& forall|x: (&[u8], &[u8], bool, usize, i64), r: Option<(i64, i64, Vec<Vec<u8>>)>|
            call_ensures(m, x, r) && r is Some ==> 0 <= r->Some_0.0 <= x.1@.len() && 0 <= r->Some_0.1 <= x.1@.len()
}

/// The `count`-th match of `pat` in `s` from character `col` on, as the
/// engine reports it (`ic`: ignoring case).
pub open spec fn search_of<M: Fn(&[u8], &[u8], bool, usize, i64) -> Option<(i64, i64, Vec<Vec<u8>>)>>(
    m: M, pat: Seq<u8>, s: Seq<u8>, ic: bool, col: int, count: int,
) -> Option<(int, int, Seq<Seq<u8>>)> {
    hit_view((choose|p: ((&[u8], &[u8], bool, usize, i64), Option<(i64, i64, Vec<Vec<u8>>)>)|
        p.0.0@ == pat && p.0.1@ == s && p.0.2 == ic && p.0.3 as int == col && p.0.4 as int == count
        && #[trigger] call_ensures(m, p.0, p.1)).1)
}

fn search<M: Fn(&[u8], &[u8], bool, usize, i64) -> Option<(i64, i64, Vec<Vec<u8>>)>>(
    m: &M, pat: &[u8], s: &[u8], ic: bool, col: usize, count: i64,
) -> (r: Option<(i64, i64, Vec<Vec<u8>>)>)
    requires matcher_ok(*m),
    ensures
        hit_view(r) == search_of(*m, pat@, s@, ic, col as int, count as int),
        r is Some ==> 0 <= r->Some_0.0 <= s@.len() && 0 <= r->Some_0.1 <= s@.len(),
{
    let r = m(pat, s, ic, col, count);
    proof {
        let p = ((pat, s, ic, col, count), r);
        assert(call_ensures(*m, p.0, p.1));
    }
    r
}

/// The byte offset of character `ci` of `s` (the end of `s` past its last
/// character).
pub open spec fn char_byte_off(s: Seq<u8>, ci: int) -> int
    decreases s.len(),
{
    if ci <= 0 || s.len() == 0 {
        if ci == 0 || s.len() == 0 { 0 } else { s.len() as int }
    } else {
        let n = char_len_at(s, 0);
        if n < 1 || n > s.len() { s.len() as int } else { n + char_byte_off(s.subrange(n, s.len() as int), ci - 1) }
    }
}

fn char_byte_off_exec(s: &[u8], ci: i64) -> (r: usize)
    ensures r as int == char_byte_off(s@, ci as int), r <= s@.len(),
{
    if ci < 0 {
        return s.len();
    }
    let mut i: usize = 0;
    let mut k: i64 = 0;
    assert(s@.subrange(0, s@.len() as int) =~= s@);
    while k < ci && i < s.len()
        invariant
            0 <= k <= ci, i <= s@.len(),
            char_byte_off(s@, ci as int) == i + char_byte_off(s@.subrange(i as int, s@.len() as int), ci - k),
        decreases ci - k,
    {
        let n = char_len_exec(s, i);
        proof {
            let rest = s@.subrange(i as int, s@.len() as int);
            lemma_char_len_shift(s@, i as int);
            assert(rest.subrange(n as int, rest.len() as int) =~= s@.subrange(i + n, s@.len() as int));
        }
        i = i + n;
        k = k + 1;
    }
    proof {
        let rest = s@.subrange(i as int, s@.len() as int);
        if i == s@.len() { assert(rest.len() == 0); }
    }
    i
}

/// The number of characters of `s`.
pub open spec fn char_count(s: Seq<u8>) -> int {
    utf8_split(s).len() as int
}

/// The match that was chosen: the index of the List item it is in (none
/// for a String), its start and end as byte offsets, the whole match
/// followed by the groups, and the List item.
pub struct SomeMatch {
    pub list_idx: Option<i64>,
    pub start: i64,
    pub end: i64,
    pub groups: Vec<Vec<u8>>,
    pub item: typval_T,
}

pub struct SomeMatchV {
    pub list_idx: Option<int>,
    pub start: int,
    pub end: int,
    pub groups: Seq<Seq<u8>>,
    pub item: TypVal,
}

impl View for SomeMatch {
    type V = SomeMatchV;
    open spec fn view(&self) -> SomeMatchV {
        SomeMatchV {
            list_idx: match self.list_idx { Some(i) => Some(i as int), None => None },
            start: self.start as int, end: self.end as int, groups: names_view(self.groups@), item: self.item@,
        }
    }
}

/// The `remaining`-th List item from `idx` on whose text has a match.
pub open spec fn list_scan<M: Fn(&[u8], &[u8], bool, usize, i64) -> Option<(i64, i64, Vec<Vec<u8>>)>>(
    m: M, pat: Seq<u8>, echo: Seq<Seq<u8>>, ic: bool, idx: int, remaining: int,
) -> Option<(int, (int, int, Seq<Seq<u8>>))>
    decreases echo.len() - idx,
{
    if idx < 0 || idx >= echo.len() {
        None
    } else {
        match search_of(m, pat, echo[idx], ic, 0, 1) {
            Some(h) => if remaining <= 1 { Some((idx, h)) } else { list_scan(m, pat, echo, ic, idx + 1, remaining - 1) },
            None => list_scan(m, pat, echo, ic, idx + 1, remaining),
        }
    }
}

pub open spec fn arg_given(a: Seq<TypVal>, i: int) -> bool {
    a.len() > i && a[i].ty != VarType::VAR_UNKNOWN
}

/// The match the builtins report for their arguments `a`, where `echo`
/// holds the text of each item of a List subject, and `ic` tells whether
/// case is ignored: in a List, the `{count}`-th item from `{start}` whose
/// text matches; in a String, the `{count}`-th match from character
/// `{start}` (with `{count}` the String is searched from that column,
/// without it the String is cut there).
pub open spec fn find_spec<M: Fn(&[u8], &[u8], bool, usize, i64) -> Option<(i64, i64, Vec<Vec<u8>>)>>(
    m: M, a: Seq<TypVal>, echo: Seq<Seq<u8>>, ic: bool,
) -> Option<SomeMatchV> {
    let pat = string_or_empty(a[1]);
    let count = if arg_given(a, 3) { number_chk_result(a[3], true) } else { 1 };
    if a[0].ty == VarType::VAR_LIST {
        match a[0].v {
            VVal::List(Some(l)) => {
                let len = l.items.len() as int;
                let s0 = if arg_given(a, 2) { number_chk_result(a[2], true) } else { 0 };
                let start = if s0 < 0 { s0 + len } else { s0 };
                if arg_given(a, 2) && (start < 0 || start >= len) {
                    None
                } else {
                    match list_scan(m, pat, echo, ic, start, if count < 1 { 1 } else { count }) {
                        Some((idx, h)) => Some(SomeMatchV {
                            list_idx: Some(idx),
                            start: char_byte_off(echo[idx], h.0), end: char_byte_off(echo[idx], h.1),
                            groups: h.2, item: l.items[idx],
                        }),
                        None => None,
                    }
                }
            },
            _ => None,
        }
    } else {
        let s = string_or_empty(a[0]);
        let hit = if !arg_given(a, 2) {
            search_of(m, pat, s, ic, 0, count)
        } else {
            let st0 = number_chk_result(a[2], true);
            let st = if st0 < 0 { 0 } else { st0 };
            if st > char_count(s) {
                None
            } else if arg_given(a, 3) {
                search_of(m, pat, s, ic, st, count)
            } else {
                match search_of(m, pat, s.subrange(char_byte_off(s, st), s.len() as int), ic, 0, count) {
                    Some(h) => Some((h.0 + st, h.1 + st, h.2)),
                    None => None,
                }
            }
        };
        match hit {
            Some(h) => Some(SomeMatchV {
                list_idx: None, start: char_byte_off(s, h.0), end: char_byte_off(s, h.1), groups: h.2, item: dummy_tv(),
            }),
            None => None,
        }
    }
}

/// A text has no more characters than bytes.
pub proof fn lemma_char_count_le(s: Seq<u8>)
    ensures char_count(s) <= s.len(),
    decreases s.len(),
{
    if s.len() > 0 {
        let n = char_len_at(s, 0);
        lemma_char_count_le(s.subrange(n, s.len() as int));
    }
}

pub open spec fn match_opt(r: Option<SomeMatch>) -> Option<SomeMatchV> {
    match r { Some(x) => Some(x@), None => None }
}

/// What the builtins ask of their arguments: the texts of the items of a
/// List subject, and sizes that byte offsets fit in.
pub open spec fn match_args_ok(a: Seq<typval_T>, echo: Seq<Vec<u8>>) -> bool {
    &&& a.len() >= 2
    &&& (a[0]@.ty == VarType::VAR_LIST && a[0]@.v is List && a[0]@.v->List_0 is Some)
            ==> echo.len() == a[0]@.v->List_0->Some_0.items.len()
    &&& echo.len() < 0x7fff_ffff_ffff_ffff
    &&& forall|k: int| 0 <= k < echo.len() ==> (#[trigger] echo[k])@.len() < 0x4000_0000_0000_0000
    &&& string_or_empty(a[0]@).len() < 0x4000_0000_0000_0000
}

/// The match that "match()" and its relatives report (see `find_spec`).
pub fn find_some_match<M: Fn(&[u8], &[u8], bool, usize, i64) -> Option<(i64, i64, Vec<Vec<u8>>)>>(
    argvars: &[typval_T], echo: &Vec<Vec<u8>>, ic: bool, m: &M,
) -> (r: Option<SomeMatch>)
    requires matcher_ok(*m), match_args_ok(argvars@, echo@),
    ensures match_opt(r) == find_spec(*m, items_view(argvars@), names_view(echo@), ic),
{
    let ghost a = items_view(argvars@);
    let ghost ev = names_view(echo@);
    proof { lemma_items_view_index_all(argvars@); }
    let pat = tv_get_string(&argvars[1]);
    let has_count = argvars.len() > 3 && argvars[3].v_type != VarType::VAR_UNKNOWN;
    let count: i64 = if has_count { tv_get_number(&argvars[3]) } else { 1 };
    let has_start = argvars.len() > 2 && argvars[2].v_type != VarType::VAR_UNKNOWN;
    assert(has_count == arg_given(a, 3) && has_start == arg_given(a, 2));
    if argvars[0].v_type == VarType::VAR_LIST {
        match &argvars[0].vval {
            typval_vval_union::v_list(Some(l)) => {
                proof { lemma_items_view_index_all(l.lv_items@); }
                let len = l.lv_items.len();
                let s0: i64 = if has_start { tv_get_number(&argvars[2]) } else { 0 };
                let start: i128 = if s0 < 0 { s0 as i128 + len as i128 } else { s0 as i128 };
                if has_start && (start < 0 || start >= len as i128) {
                    return None;
                }
                let ghost rem0: int = if count < 1 { 1 } else { count as int };
                let mut remaining: i64 = if count < 1 { 1 } else { count };
                let mut idx: usize = start as usize;
                assert(echo@.len() == len);
                assert(a[0].ty == VarType::VAR_LIST && a[0].v == VVal::List(Some(l@)));
                #[verifier::loop_isolation(false)]
                while idx < len
                    invariant
                        matcher_ok(*m), idx <= len, len == echo@.len(), remaining >= 1, start <= idx,
                        ev == names_view(echo@), echo@.len() < 0x7fff_ffff_ffff_ffff,
                        len == l.lv_items@.len(), l@.items.len() == len,
                        forall|k: int| 0 <= k < len ==> #[trigger] l@.items[k] == l.lv_items@[k]@,
                        forall|k: int| 0 <= k < echo@.len() ==> (#[trigger] echo@[k])@.len() < 0x4000_0000_0000_0000,
                        list_scan(*m, pat@, ev, ic, start as int, rem0) == list_scan(*m, pat@, ev, ic, idx as int, remaining as int),
                    decreases len - idx,
                {
                    assert(ev[idx as int] == echo@[idx as int]@);
                    let h = search(m, pat.as_slice(), echo[idx].as_slice(), ic, 0, 1);
                    match h {
                        Some(h) => {
                            if remaining <= 1 {
                                let st = char_byte_off_exec(echo[idx].as_slice(), h.0);
                                let en = char_byte_off_exec(echo[idx].as_slice(), h.1);
                                let r = SomeMatch {
                                    list_idx: Some(idx as i64), start: st as i64, end: en as i64, groups: h.2,
                                    item: tv_dup(&l.lv_items[idx]),
                                };
                                proof {
                                    assert(list_scan(*m, pat@, ev, ic, idx as int, remaining as int)
                                        == Some((idx as int, (h.0 as int, h.1 as int, names_view(h.2@)))));
                                }
                                return Some(r);
                            }
                            remaining = remaining - 1;
                        },
                        None => {},
                    }
                    idx = idx + 1;
                }
                None
            },
            _ => None,
        }
    } else {
        let s = tv_get_string(&argvars[0]);
        let hit: Option<(i64, i64, Vec<Vec<u8>>)> = if !has_start {
            search(m, pat.as_slice(), s.as_slice(), ic, 0, count)
        } else {
            let st0 = tv_get_number(&argvars[2]);
            let st: i64 = if st0 < 0 { 0 } else { st0 };
            let nchars = utf8_chars(s.as_slice()).len();
            proof { lemma_char_count_le(s@); }
            if (st as u64) > (nchars as u64) {
                None
            } else if has_count {
                search(m, pat.as_slice(), s.as_slice(), ic, st as usize, count)
            } else {
                let off = char_byte_off_exec(s.as_slice(), st);
                let suffix = bytes_between(s.as_slice(), off, s.len());
                match search(m, pat.as_slice(), suffix.as_slice(), ic, 0, count) {
                    Some(h) => Some((h.0 + st, h.1 + st, h.2)),
                    None => None,
                }
            }
        };
        match hit {
            Some(h) => {
                let st = char_byte_off_exec(s.as_slice(), h.0);
                let en = char_byte_off_exec(s.as_slice(), h.1);
                let unknown = typval_T { v_type: VarType::VAR_UNKNOWN, v_lock: VarLockStatus::VAR_UNLOCKED, vval: typval_vval_union::v_number(0) };
                Some(SomeMatch { list_idx: None, start: st as i64, end: en as i64, groups: h.2, item: unknown })
            },
            None => None,
        }
    }
}

/// The Number "match()" reports: the index of the matching List item, or
/// the start of the match in a String; -1 for none.
pub open spec fn match_number(f: Option<SomeMatchV>, end: bool) -> int {
    match f {
        Some(x) => match x.list_idx { Some(i) => i, None => if end { x.end } else { x.start } },
        None => -1,
    }
}

/// The first text of a match (the whole match), empty when there is none.
pub open spec fn whole(g: Seq<Seq<u8>>) -> Seq<u8> {
    if g.len() > 0 { g[0] } else { Seq::empty() }
}

fn whole_exec(g: &Vec<Vec<u8>>) -> (r: Vec<u8>)
    ensures r@ == whole(names_view(g@)),
{
    if g.len() > 0 { bytes_between(g[0].as_slice(), 0, g[0].len()) } else { Vec::new() }
}

fn number_of_match(r: &Option<SomeMatch>, end: bool) -> (n: i64)
    ensures n as int == match_number(match_opt(*r), end),
{
    match r {
        Some(x) => match x.list_idx { Some(i) => i, None => if end { x.end } else { x.start } },
        None => -1,
    }
}

/// "match({expr}, {pat} [, {start} [, {count}]])": the index of the
/// matching List item, or the byte offset where the match starts in a
/// String; -1 when there is no match.
pub fn f_match<M: Fn(&[u8], &[u8], bool, usize, i64) -> Option<(i64, i64, Vec<Vec<u8>>)>>(
    argvars: &[typval_T], rettv: &mut typval_T, echo: &Vec<Vec<u8>>, ic: bool, m: &M,
)
    requires matcher_ok(*m), match_args_ok(argvars@, echo@),
    ensures final(rettv)@ == with_number(old(rettv)@, match_number(find_spec(*m, items_view(argvars@), names_view(echo@), ic), false)),
{
    let r = find_some_match(argvars, echo, ic, m);
    set_number(rettv, number_of_match(&r, false));
}

/// "matchend({expr}, {pat} [, {start} [, {count}]])": like "match()", with
/// the byte offset just past the match in a String.
pub fn f_matchend<M: Fn(&[u8], &[u8], bool, usize, i64) -> Option<(i64, i64, Vec<Vec<u8>>)>>(
    argvars: &[typval_T], rettv: &mut typval_T, echo: &Vec<Vec<u8>>, ic: bool, m: &M,
)
    requires matcher_ok(*m), match_args_ok(argvars@, echo@),
    ensures final(rettv)@ == with_number(old(rettv)@, match_number(find_spec(*m, items_view(argvars@), names_view(echo@), ic), true)),
{
    let r = find_some_match(argvars, echo, ic, m);
    set_number(rettv, number_of_match(&r, true));
}

/// "matchstr({expr}, {pat} [, {start} [, {count}]])": the matching List
/// item itself, or the matched text of a String; the empty String when
/// there is no match.
pub fn f_matchstr<M: Fn(&[u8], &[u8], bool, usize, i64) -> Option<(i64, i64, Vec<Vec<u8>>)>>(
    argvars: &[typval_T], rettv: &mut typval_T, echo: &Vec<Vec<u8>>, ic: bool, m: &M,
)
    requires matcher_ok(*m), match_args_ok(argvars@, echo@),
    ensures
        final(rettv)@ == match find_spec(*m, items_view(argvars@), names_view(echo@), ic) {
            Some(x) => if x.list_idx is Some { x.item } else { with_string(old(rettv)@, whole(x.groups)) },
            None => with_string(old(rettv)@, Seq::empty()),
        },
{
    let r = find_some_match(argvars, echo, ic, m);
    match r {
        Some(x) => {
            if x.list_idx.is_some() {
                *rettv = x.item;
            } else {
                let w = whole_exec(&x.groups);
                set_string(rettv, w);
            }
        },
        None => set_string(rettv, Vec::new()),
    }
}

/// The List value made of `items`.
pub open spec fn list_of(r: TypVal, items: Seq<TypVal>) -> TypVal {
    TypVal { ty: VarType::VAR_LIST, lock: r.lock, v: VVal::List(Some(ListVal { items, lock: VarLockStatus::VAR_UNLOCKED, refcount: 0 })) }
}

fn set_list_items(rettv: &mut typval_T, items: Vec<typval_T>)
    ensures final(rettv)@ == list_of(old(rettv)@, items_view(items@)),
{
    rettv.v_type = VarType::VAR_LIST;
    rettv.vval = typval_vval_union::v_list(Some(list_from_items(items)));
}

/// "matchlist({expr}, {pat} [, {start} [, {count}]])": the whole match and
/// its groups as Strings; an empty List when there is no match.
pub fn f_matchlist<M: Fn(&[u8], &[u8], bool, usize, i64) -> Option<(i64, i64, Vec<Vec<u8>>)>>(
    argvars: &[typval_T], rettv: &mut typval_T, echo: &Vec<Vec<u8>>, ic: bool, m: &M,
)
    requires matcher_ok(*m), match_args_ok(argvars@, echo@),
    ensures
        final(rettv)@ == list_of(old(rettv)@, match find_spec(*m, items_view(argvars@), names_view(echo@), ic) {
            Some(x) => Seq::new(x.groups.len(), |k: int| str_tv(x.groups[k])),
            None => Seq::empty(),
        }),
{
    let r = find_some_match(argvars, echo, ic, m);
    let mut items: Vec<typval_T> = Vec::new();
    match r {
        Some(x) => {
            let ghost gv = names_view(x.groups@);
            let mut k: usize = 0;
            while k < x.groups.len()
                invariant
                    k <= x.groups@.len(), items@.len() == k, gv == names_view(x.groups@),
                    forall|q: int| 0 <= q < k ==> (#[trigger] items@[q])@ == str_tv(gv[q]),
                decreases x.groups@.len() - k,
            {
                let g = bytes_between(x.groups[k].as_slice(), 0, x.groups[k].len());
                assert(g@ =~= gv[k as int]);
                items.push(string_tv(g));
                k = k + 1;
            }
            assert(items_view(items@) =~= Seq::new(gv.len(), |q: int| str_tv(gv[q])));
        },
        None => {
            assert(items_view(items@) =~= Seq::<TypVal>::empty());
        },
    }
    set_list_items(rettv, items);
}

/// "matchstrpos({expr}, {pat} [, {start} [, {count}]])": the matched text,
/// the index of the matching List item (for a List), and the start and end
/// byte offsets; `["", -1, -1]` when there is no match.
pub fn f_matchstrpos<M: Fn(&[u8], &[u8], bool, usize, i64) -> Option<(i64, i64, Vec<Vec<u8>>)>>(
    argvars: &[typval_T], rettv: &mut typval_T, echo: &Vec<Vec<u8>>, ic: bool, m: &M,
)
    requires matcher_ok(*m), match_args_ok(argvars@, echo@),
    ensures
        final(rettv)@ == list_of(old(rettv)@, match find_spec(*m, items_view(argvars@), names_view(echo@), ic) {
            Some(x) => match x.list_idx {
                Some(i) => seq![str_tv(whole(x.groups)), num_tv(i), num_tv(x.start), num_tv(x.end)],
                None => seq![str_tv(whole(x.groups)), num_tv(x.start), num_tv(x.end)],
            },
            None => seq![str_tv(Seq::empty()), num_tv(-1), num_tv(-1)],
        }),
{
    let r = find_some_match(argvars, echo, ic, m);
    let mut items: Vec<typval_T> = Vec::new();
    match r {
        Some(x) => {
            let w = whole_exec(&x.groups);
            items.push(string_tv(w));
            match x.list_idx {
                Some(i) => { items.push(number_tv(i)); },
                None => {},
            }
            items.push(number_tv(x.start));
            items.push(number_tv(x.end));
        },
        None => {
            items.push(string_tv(Vec::new()));
            items.push(number_tv(-1));
            items.push(number_tv(-1));
        },
    }
    proof { lemma_items_view_index_all(items@); }
    assert(items_view(items@) =~= match find_spec(*m, items_view(argvars@), names_view(echo@), ic) {
            Some(x) => match x.list_idx {
                Some(i) => seq![str_tv(whole(x.groups)), num_tv(i), num_tv(x.start), num_tv(x.end)],
                None => seq![str_tv(whole(x.groups)), num_tv(x.start), num_tv(x.end)],
            },
            None => seq![str_tv(Seq::empty()), num_tv(-1), num_tv(-1)],
        });
    set_list_items(rettv, items);
}

} // verus!
