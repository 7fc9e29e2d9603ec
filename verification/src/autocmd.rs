//! Autocommands: ":augroup", ":autocmd", ":doautocmd" and file patterns.
use vstd::prelude::*;
use crate::typval_defs::{
    varnumber_T, OK, FAIL, VarType, VarLockStatus, BoolVarValue, SpecialVarValue, typval_vval_union,
    typval_T, list_T, dict_T, dictitem_T, blob_T, partial_T, Callback, DictWatcher, TypVal, VVal,
    ListVal, DictVal, BlobVal, CallbackVal, WatcherVal, tv_view, list_view, dict_view, items_view, dict_index_of,
    mk_tv, num_tv, str_tv, list_tv, blob_tv, dict_tv, empty_dict_val, dict_wf, keys_unique,
    lemma_items_view_ext, lemma_items_view_index, lemma_items_view_push, lemma_items_view_subrange,
    lemma_items_view_add, lemma_items_view_reverse, lemma_items_view_update, lemma_items_view_insert,
    lemma_items_view_remove, lemma_items_view_empty,
};
use crate::charset::{nr2str, nr2bytes, str2nr, str2nr_all};
use crate::dup::{bytes_dup, tv_dup, list_dup, dict_dup, blob_dup, items_dup, slice_to_vec, callback_dup, append_bytes};
use crate::typval::{
    number_of, number_chk_result, string_of, string_or_empty, tv_get_number_chk, tv_get_number,
    tv_get_bool, tv_get_string, tv_get_string_chk, tv_get_string_buf_chk, tv_equal, tv_equal_spec,
    bytes_eq, dict_find_index,
};
use crate::list_funcs::{ascii_lower, ascii_lower_exec};
use crate::highlight::{names_view, bytes_copy};
use crate::charset::{utf8_split, utf8_chars};
use crate::mapping::{skip_white, find_white, skip_white_exec, find_white_exec, trim_end_exec, lemma_skip_white, lemma_find_white};
use crate::usercmd::{trimmed, find_from, lemma_find_from};

verus! {


// ── file patterns ──

/// Whether the glob `p` ("*" any run, "?" any one character) matches `s`,
/// both taken character by character.
pub open spec fn glob(p: Seq<Seq<u8>>, s: Seq<Seq<u8>>) -> bool
    decreases p.len() + s.len(),
{
    if p.len() == 0 {
        s.len() == 0
    } else if p[0] == seq![42u8] {
        glob(p.drop_first(), s) || (s.len() > 0 && glob(p, s.drop_first()))
    } else {
        s.len() > 0 && (p[0] == seq![63u8] || p[0] == s[0]) && glob(p.drop_first(), s.drop_first())
    }
}

/// The glob of the characters from `i` on against those from `j` on.
pub open spec fn glob_at(p: Seq<Seq<u8>>, s: Seq<Seq<u8>>, i: int, j: int) -> bool {
    glob(p.subrange(i, p.len() as int), s.subrange(j, s.len() as int))
}

proof fn lemma_glob_step(p: Seq<Seq<u8>>, s: Seq<Seq<u8>>, i: int, j: int)
    requires 0 <= i <= p.len(), 0 <= j <= s.len(),
    ensures
        glob_at(p, s, i, j) == if i == p.len() {
            j == s.len()
        } else if p[i] == seq![42u8] {
            glob_at(p, s, i + 1, j) || (j < s.len() && glob_at(p, s, i, j + 1))
        } else {
            j < s.len() && (p[i] == seq![63u8] || p[i] == s[j]) && glob_at(p, s, i + 1, j + 1)
        },
{
    let pp = p.subrange(i, p.len() as int);
    let ss = s.subrange(j, s.len() as int);
    if i < p.len() {
        assert(pp.drop_first() =~= p.subrange(i + 1, p.len() as int));
        assert(pp[0] == p[i]);
    }
    if j < s.len() {
        assert(ss.drop_first() =~= s.subrange(j + 1, s.len() as int));
        assert(ss[0] == s[j]);
    }
}

fn is_byte_char(c: &Vec<u8>, b: u8) -> (r: bool)
    ensures r == (c@ == seq![b]),
{
    let r = c.len() == 1 && c[0] == b;
    if c.len() == 1 {
        assert(r ==> c@ =~= seq![b]);
    }
    r
}

fn chars_eq(a: &Vec<u8>, b: &Vec<u8>) -> (r: bool)
    ensures r == (a@ == b@),
{
    crate::typval::bytes_eq(a.as_slice(), b.as_slice())
}

/// Whether the file pattern `pat` ("*" and "?" wildcards) matches `name`.
pub fn match_file_pat(pat: &[u8], name: &[u8]) -> (r: bool)
    ensures r == glob(utf8_split(pat@), utf8_split(name@)),
{
    let p = utf8_chars(pat);
    let s = utf8_chars(name);
    let ghost gp = names_view(p@);
    let ghost gs = names_view(s@);
    assert(gp =~= utf8_split(pat@));
    assert(gs =~= utf8_split(name@));
    let np = p.len();
    let ns = s.len();
    let mut next: Vec<bool> = Vec::new();
    let mut j: usize = 0;
    while j < ns
        invariant
            j <= ns, ns == s@.len(), ns == gs.len(), np == gp.len(), next@.len() == j,
            forall|k: int| 0 <= k < j ==> next@[k] == glob_at(gp, gs, np as int, k),
        decreases ns - j,
    {
        proof { lemma_glob_step(gp, gs, np as int, j as int); }
        next.push(false);
        j += 1;
    }
    proof { lemma_glob_step(gp, gs, np as int, ns as int); }
    next.push(true);
    let mut i: usize = np;
    while i > 0
        invariant
            i <= np, np == p@.len(), ns == s@.len(), gp == names_view(p@), gs == names_view(s@),
            np == gp.len(), ns == gs.len(), next@.len() == ns + 1,
            forall|k: int| 0 <= k <= ns ==> next@[k] == glob_at(gp, gs, i as int, k),
        decreases i,
    {
        i -= 1;
        let star = is_byte_char(&p[i], 42u8);
        let any = is_byte_char(&p[i], 63u8);
        assert(gp[i as int] == p@[i as int]@);
        let mut cur: Vec<bool> = Vec::new();
        let mut k: usize = 0;
        while k < ns
            invariant k <= ns, cur@.len() == k,
            decreases ns - k,
        {
            cur.push(false);
            k += 1;
        }
        cur.push(false);
        let mut j: usize = cur.len();
        while j > 0
            invariant
                j <= ns + 1, i < np, np == p@.len(), ns == s@.len(), gp == names_view(p@), gs == names_view(s@),
                np == gp.len(), ns == gs.len(), next@.len() == ns + 1, cur@.len() == ns + 1,
                star == (gp[i as int] == seq![42u8]), any == (gp[i as int] == seq![63u8]),
                forall|k: int| 0 <= k <= ns ==> next@[k] == glob_at(gp, gs, i + 1, k),
                forall|k: int| j <= k <= ns ==> cur@[k] == glob_at(gp, gs, i as int, k),
            decreases j,
        {
            j -= 1;
            proof { lemma_glob_step(gp, gs, i as int, j as int); }
            let v = if star {
                next[j] || (j < ns && cur[j + 1])
            } else if j < ns {
                assert(gs[j as int] == s@[j as int]@);
                (any || chars_eq(&p[i], &s[j])) && next[j + 1]
            } else {
                false
            };
            cur.set(j, v);
        }
        next = cur;
    }
    proof {
        assert(gp.subrange(0, gp.len() as int) =~= gp);
        assert(gs.subrange(0, gs.len() as int) =~= gs);
    }
    next[0]
}

/// "*" matches every name.
pub proof fn lemma_glob_star(s: Seq<Seq<u8>>)
    ensures glob(seq![seq![42u8]], s),
    decreases s.len(),
{
    let p = seq![seq![42u8]];
    assert(p.drop_first() =~= Seq::<Seq<u8>>::empty());
    assert(p[0] == seq![42u8]);
    if s.len() > 0 {
        lemma_glob_star(s.drop_first());
    } else {
        assert(glob(p.drop_first(), s));
    }
}

/// A pattern without wildcards matches exactly the name spelled the same.
pub proof fn lemma_glob_literal(p: Seq<Seq<u8>>, s: Seq<Seq<u8>>)
    requires forall|k: int| 0 <= k < p.len() ==> p[k] != seq![42u8] && p[k] != seq![63u8],
    ensures glob(p, s) == (p == s),
    decreases p.len(),
{
    if p.len() > 0 {
        assert forall|k: int| 0 <= k < p.drop_first().len() implies p.drop_first()[k] != seq![42u8] && p.drop_first()[k] != seq![63u8] by {
            assert(p.drop_first()[k] == p[k + 1]);
        }
        lemma_glob_literal(p.drop_first(), s.drop_first());
        if s.len() > 0 && p[0] == s[0] && p.drop_first() == s.drop_first() {
            assert forall|k: int| 0 <= k < p.len() implies p[k] == s[k] by {
                if k > 0 {
                    assert(p[k] == p.drop_first()[k - 1]);
                    assert(s[k] == s.drop_first()[k - 1]);
                }
            }
            assert(p =~= s);
        }
        if p == s {
            assert(p.drop_first() == s.drop_first());
        }
    } else {
        if s.len() == 0 {
            assert(p =~= s);
        }
    }
}

// ── the autocommands ──

/// One autocommand: its group, event (lower case), file pattern and command.
pub struct AutoCmd {
    pub group: Vec<u8>,
    pub event: Vec<u8>,
    pub pat: Vec<u8>,
    pub cmd: Vec<u8>,
}

/// The model of an autocommand.
pub struct AuVal {
    pub group: Seq<u8>,
    pub event: Seq<u8>,
    pub pat: Seq<u8>,
    pub cmd: Seq<u8>,
}

impl View for AutoCmd {
    type V = AuVal;
    open spec fn view(&self) -> AuVal {
        AuVal { group: self.group@, event: self.event@, pat: self.pat@, cmd: self.cmd@ }
    }
}

/// The autocommands in the order they were defined, and the ":augroup" in
/// effect ("" for the default group).
pub struct AutoCmds {
    pub list: Vec<AutoCmd>,
    pub group: Vec<u8>,
}

/// The models of autocommands.
pub open spec fn au_view(l: Seq<AutoCmd>) -> Seq<AuVal> {
    Seq::new(l.len(), |i: int| l[i]@)
}

/// No autocommands, the default group.
pub fn autocmds_new() -> (a: AutoCmds)
    ensures au_view(a.list@).len() == 0, a.group@.len() == 0,
{
    AutoCmds { list: Vec::new(), group: Vec::new() }
}

fn autocmd_copy(a: &AutoCmd) -> (r: AutoCmd)
    ensures r@ == a@,
{
    AutoCmd { group: bytes_copy(&a.group), event: bytes_copy(&a.event), pat: bytes_copy(&a.pat), cmd: bytes_copy(&a.cmd) }
}

/// "end", which returns ":augroup" to the default group.
pub open spec fn end_w() -> Seq<u8> { seq![101u8, 110, 100] }

/// The group ":augroup {name}" makes current: "" for an empty name or "END"
/// (in any case), else the name, trimmed.
pub open spec fn augroup_spec(name: Seq<u8>) -> Seq<u8> {
    let n = trimmed(name);
    if n.len() == 0 || ascii_lower(n) == end_w() { Seq::empty() } else { n }
}

/// Sets the group in effect (see `augroup_spec`).
pub fn do_augroup(a: &mut AutoCmds, name: &[u8])
    ensures final(a).group@ == augroup_spec(name@), au_view(final(a).list@) == au_view(old(a).list@),
{
    let s = skip_white_exec(name, 0);
    let e = trim_end_exec(name, s);
    let n = &name[s..e];
    assert(n@ =~= trimmed(name@));
    let lc = ascii_lower_exec(n);
    let ew: [u8; 3] = [101u8, 110, 100];
    assert(ew@ =~= end_w());
    if n.len() == 0 || crate::typval::bytes_eq(lc.as_slice(), &ew) {
        a.group = Vec::new();
        assert(a.group@ =~= Seq::<u8>::empty());
    } else {
        a.group = crate::dup::slice_to_vec(n);
    }
}

/// Whether `ac` is in `group`, has one of `evs` (where given) and the
/// pattern `pat` (where given).
pub open spec fn au_match(ac: AuVal, group: Seq<u8>, evs: Option<Seq<Seq<u8>>>, pat: Option<Seq<u8>>) -> bool {
    &&& ac.group == group
    &&& match evs { Some(e) => e.contains(ac.event), None => true }
    &&& match pat { Some(p) => ac.pat == p, None => true }
}

/// The autocommands without those that `au_match` picks, in order.
pub open spec fn au_remove(l: Seq<AuVal>, group: Seq<u8>, evs: Option<Seq<Seq<u8>>>, pat: Option<Seq<u8>>) -> Seq<AuVal>
    decreases l.len(),
{
    if l.len() == 0 {
        l
    } else {
        let r = au_remove(l.drop_last(), group, evs, pat);
        if au_match(l.last(), group, evs, pat) { r } else { r.push(l.last()) }
    }
}

fn seq_contains_exec(v: &Vec<Vec<u8>>, x: &[u8]) -> (r: bool)
    ensures r == names_view(v@).contains(x@),
{
    let ghost nv = names_view(v@);
    let mut i: usize = 0;
    while i < v.len()
        invariant i <= v@.len(), nv == names_view(v@), forall|k: int| 0 <= k < i ==> nv[k] != x@,
        decreases v.len() - i,
    {
        if crate::typval::bytes_eq(v[i].as_slice(), x) {
            assert(nv[i as int] == x@);
            return true;
        }
        i += 1;
    }
    false
}

fn au_match_exec(ac: &AutoCmd, group: &[u8], evs: &Vec<Vec<u8>>, use_evs: bool, pat: &[u8], use_pat: bool) -> (r: bool)
    ensures r == au_match(ac@, group@, if use_evs { Some(names_view(evs@)) } else { None }, if use_pat { Some(pat@) } else { None }),
{
    crate::typval::bytes_eq(ac.group.as_slice(), group)
        && (!use_evs || seq_contains_exec(evs, ac.event.as_slice()))
        && (!use_pat || crate::typval::bytes_eq(ac.pat.as_slice(), pat))
}

fn au_remove_exec(l: &Vec<AutoCmd>, group: &[u8], evs: &Vec<Vec<u8>>, use_evs: bool, pat: &[u8], use_pat: bool) -> (r: Vec<AutoCmd>)
    ensures
        au_view(r@) == au_remove(au_view(l@), group@, if use_evs { Some(names_view(evs@)) } else { None },
            if use_pat { Some(pat@) } else { None }),
{
    let ghost ge = if use_evs { Some(names_view(evs@)) } else { None };
    let ghost gp = if use_pat { Some(pat@) } else { None };
    let ghost lv = au_view(l@);
    let mut out: Vec<AutoCmd> = Vec::new();
    let mut i: usize = 0;
    while i < l.len()
        invariant
            i <= l@.len(), lv == au_view(l@),
            ge == (if use_evs { Some(names_view(evs@)) } else { None::<Seq<Seq<u8>>> }),
            gp == (if use_pat { Some(pat@) } else { None::<Seq<u8>> }),
            au_view(out@) == au_remove(lv.subrange(0, i as int), group@, ge, gp),
        decreases l.len() - i,
    {
        assert(lv.subrange(0, i as int + 1).drop_last() =~= lv.subrange(0, i as int));
        assert(lv.subrange(0, i as int + 1).last() == l@[i as int]@);
        if !au_match_exec(&l[i], group, evs, use_evs, pat, use_pat) {
            let ghost before = au_view(out@);
            out.push(autocmd_copy(&l[i]));
            assert(au_view(out@) =~= before.push(l@[i as int]@));
        }
        i += 1;
    }
    assert(lv.subrange(0, l@.len() as int) =~= lv);
    out
}

/// An ASCII letter in lower case.
pub open spec fn lower_byte(b: u8) -> u8 {
    if 65 <= b <= 90 { (b + 32) as u8 } else { b }
}

/// The comma-separated pieces of the first `n` bytes, in lower case: the
/// non-empty pieces done, and the piece under way.
pub open spec fn ev_fold(s: Seq<u8>, n: int) -> (Seq<Seq<u8>>, Seq<u8>)
    decreases n,
{
    if n <= 0 {
        (Seq::empty(), Seq::empty())
    } else {
        let r = ev_fold(s, n - 1);
        if s[n - 1] == 44u8 {
            (if r.1.len() > 0 { r.0.push(r.1) } else { r.0 }, Seq::empty())
        } else {
            (r.0, r.1.push(lower_byte(s[n - 1])))
        }
    }
}

/// The events of a comma-separated list, in lower case, empty ones left out.
pub open spec fn au_events(s: Seq<u8>) -> Seq<Seq<u8>> {
    let r = ev_fold(s, s.len() as int);
    if r.1.len() > 0 { r.0.push(r.1) } else { r.0 }
}

fn au_events_exec(s: &[u8]) -> (r: Vec<Vec<u8>>)
    ensures names_view(r@) == au_events(s@),
{
    let mut done: Vec<Vec<u8>> = Vec::new();
    let mut cur: Vec<u8> = Vec::new();
    let mut i: usize = 0;
    while i < s.len()
        invariant i <= s@.len(), names_view(done@) == ev_fold(s@, i as int).0, cur@ == ev_fold(s@, i as int).1,
        decreases s.len() - i,
    {
        let b = s[i];
        if b == 44u8 {
            if cur.len() > 0 {
                let ghost before = names_view(done@);
                let c = cur;
                let ghost cv = c@;
                done.push(c);
                assert(names_view(done@) =~= before.push(cv));
            }
            cur = Vec::new();
            assert(cur@ =~= Seq::<u8>::empty());
        } else {
            let lb = if 65 <= b && b <= 90 { b + 32 } else { b };
            cur.push(lb);
        }
        i += 1;
    }
    if cur.len() > 0 {
        let ghost before = names_view(done@);
        let ghost cv = cur@;
        done.push(cur);
        assert(names_view(done@) =~= before.push(cv));
    }
    done
}

/// The autocommands after adding `cmd` for the first `n` events with pattern
/// `pat` in `group`; with `force` each first replaces the autocommands of
/// its event and pattern in the group.
pub open spec fn au_add(l: Seq<AuVal>, group: Seq<u8>, events: Seq<Seq<u8>>, pat: Seq<u8>, cmd: Seq<u8>, force: bool, n: int) -> Seq<AuVal>
    decreases n,
{
    if n <= 0 {
        l
    } else {
        let r = au_add(l, group, events, pat, cmd, force, n - 1);
        let r2 = if force { au_remove(r, group, Some(seq![events[n - 1]]), Some(pat)) } else { r };
        r2.push(AuVal { group, event: events[n - 1], pat, cmd })
    }
}

/// The autocommands after ":autocmd {arg}" with `group` in effect:
/// "[!] {events} {pat} {cmd}" adds one per event (with "!" replacing those
/// of the same event and pattern); "! {events} {pat}", "! {events}" and "!"
/// remove the matching ones of the group; without "!" those do nothing.
pub open spec fn do_autocmd_spec(l: Seq<AuVal>, group: Seq<u8>, arg: Seq<u8>) -> Seq<AuVal> {
    let t = trimmed(arg);
    let force = t.len() > 0 && t[0] == 33u8;
    let s = t.subrange(skip_white(t, if force { 1int } else { 0int }), t.len() as int);
    if s.len() == 0 {
        if force { au_remove(l, group, None, None) } else { l }
    } else {
        let fw = find_white(s, 0);
        let events = au_events(s.subrange(0, fw));
        let rest = s.subrange(skip_white(s, fw), s.len() as int);
        if rest.len() == 0 {
            if force { au_remove(l, group, Some(events), None) } else { l }
        } else {
            let pw = find_white(rest, 0);
            let pat = rest.subrange(0, pw);
            let cmd = rest.subrange(skip_white(rest, pw), rest.len() as int);
            if cmd.len() == 0 {
                if force { au_remove(l, group, Some(events), Some(pat)) } else { l }
            } else {
                au_add(l, group, events, pat, cmd, force, events.len() as int)
            }
        }
    }
}

/// The rest of `s` after the white space from `i` on.
fn rest_from(s: &[u8], i: usize) -> (r: Vec<u8>)
    requires i <= s@.len(),
    ensures r@ == s@.subrange(skip_white(s@, i as int), s@.len() as int),
{
    let k = skip_white_exec(s, i);
    let r = crate::dup::slice_to_vec(&s[k..s.len()]);
    assert(r@ =~= s@.subrange(k as int, s@.len() as int));
    r
}

fn prefix_to(s: &[u8], i: usize) -> (r: Vec<u8>)
    requires i <= s@.len(),
    ensures r@ == s@.subrange(0, i as int),
{
    let r = crate::dup::slice_to_vec(&s[0..i]);
    assert(r@ =~= s@.subrange(0, i as int));
    r
}

/// Defines or removes autocommands from an ":autocmd" argument (see
/// `do_autocmd_spec`).
pub fn do_autocmd(a: &mut AutoCmds, arg: &[u8])
    ensures
        final(a).group@ == old(a).group@,
        au_view(final(a).list@) == do_autocmd_spec(au_view(old(a).list@), old(a).group@, arg@),
{
    let ghost l0 = au_view(a.list@);
    let ghost g0 = a.group@;
    let st = skip_white_exec(arg, 0);
    let e = trim_end_exec(arg, st);
    let t = &arg[st..e];
    assert(t@ =~= trimmed(arg@));
    let force = t.len() > 0 && t[0] == 33u8;
    let s = rest_from(t, if force { 1 } else { 0 });
    let none: Vec<Vec<u8>> = Vec::new();
    let nopat: [u8; 0] = [];
    if s.len() == 0 {
        if force {
            a.list = au_remove_exec(&a.list, a.group.as_slice(), &none, false, &nopat, false);
        }
        return;
    }
    let fw = find_white_exec(s.as_slice(), 0);
    let tok = prefix_to(s.as_slice(), fw);
    let events = au_events_exec(tok.as_slice());
    let rest = rest_from(s.as_slice(), fw);
    if rest.len() == 0 {
        if force {
            a.list = au_remove_exec(&a.list, a.group.as_slice(), &events, true, &nopat, false);
        }
        return;
    }
    let pw = find_white_exec(rest.as_slice(), 0);
    let pat = prefix_to(rest.as_slice(), pw);
    let cmd = rest_from(rest.as_slice(), pw);
    if cmd.len() == 0 {
        if force {
            a.list = au_remove_exec(&a.list, a.group.as_slice(), &events, true, pat.as_slice(), true);
        }
        return;
    }
    let ghost ev = names_view(events@);
    let mut k: usize = 0;
    while k < events.len()
        invariant
            k <= events@.len(), ev == names_view(events@), a.group@ == g0,
            au_view(a.list@) == au_add(l0, g0, ev, pat@, cmd@, force, k as int),
        decreases events.len() - k,
    {
        let mut one: Vec<Vec<u8>> = Vec::new();
        one.push(bytes_copy(&events[k]));
        assert(names_view(one@) =~= seq![ev[k as int]]);
        if force {
            a.list = au_remove_exec(&a.list, a.group.as_slice(), &one, true, pat.as_slice(), true);
        }
        let ghost before = au_view(a.list@);
        let ac = AutoCmd { group: bytes_copy(&a.group), event: bytes_copy(&events[k]), pat: bytes_copy(&pat), cmd: bytes_copy(&cmd) };
        a.list.push(ac);
        assert(au_view(a.list@) =~= before.push(AuVal { group: a.group@, event: ev[k as int], pat: pat@, cmd: cmd@ }));
        k += 1;
    }
}

/// The commands of the autocommands for event `evt` whose pattern matches
/// `target`, in the order they were defined.
pub open spec fn au_apply(l: Seq<AuVal>, evt: Seq<u8>, target: Seq<u8>) -> Seq<Seq<u8>>
    decreases l.len(),
{
    if l.len() == 0 {
        Seq::empty()
    } else {
        let r = au_apply(l.drop_last(), evt, target);
        let ac = l.last();
        if ac.event == evt && glob(utf8_split(ac.pat), utf8_split(target)) { r.push(ac.cmd) } else { r }
    }
}

/// The commands to run for `event` (any case) on `target`.
pub fn apply_autocmds(a: &AutoCmds, event: &[u8], target: &[u8]) -> (r: Vec<Vec<u8>>)
    ensures names_view(r@) == au_apply(au_view(a.list@), ascii_lower(event@), target@),
{
    let evt = ascii_lower_exec(event);
    let ghost lv = au_view(a.list@);
    let mut out: Vec<Vec<u8>> = Vec::new();
    let mut i: usize = 0;
    while i < a.list.len()
        invariant
            i <= a.list@.len(), lv == au_view(a.list@), evt@ == ascii_lower(event@),
            names_view(out@) == au_apply(lv.subrange(0, i as int), evt@, target@),
        decreases a.list.len() - i,
    {
        assert(lv.subrange(0, i as int + 1).drop_last() =~= lv.subrange(0, i as int));
        assert(lv.subrange(0, i as int + 1).last() == a.list@[i as int]@);
        let ac = &a.list[i];
        if crate::typval::bytes_eq(ac.event.as_slice(), evt.as_slice()) && match_file_pat(ac.pat.as_slice(), target) {
            let ghost before = names_view(out@);
            out.push(bytes_copy(&ac.cmd));
            assert(names_view(out@) =~= before.push(ac.cmd@));
        }
        i += 1;
    }
    assert(lv.subrange(0, lv.len() as int) =~= lv);
    out
}

/// What ":doautocmd {arg}" runs: "{event} [{target}]", the target "*"
/// where none is given; nothing without an event.
pub open spec fn do_doautocmd_spec(l: Seq<AuVal>, arg: Seq<u8>) -> Seq<Seq<u8>> {
    let s = trimmed(arg);
    let fw = find_white(s, 0);
    let event = s.subrange(0, fw);
    let target = if fw < s.len() { s.subrange(skip_white(s, fw), s.len() as int) } else { seq![42u8] };
    if event.len() == 0 { Seq::empty() } else { au_apply(l, ascii_lower(event), target) }
}

/// The commands a ":doautocmd" runs (see `do_doautocmd_spec`).
pub fn do_doautocmd(a: &AutoCmds, arg: &[u8]) -> (r: Vec<Vec<u8>>)
    ensures names_view(r@) == do_doautocmd_spec(au_view(a.list@), arg@),
{
    let st = skip_white_exec(arg, 0);
    let e = trim_end_exec(arg, st);
    let s = &arg[st..e];
    assert(s@ =~= trimmed(arg@));
    let fw = find_white_exec(s, 0);
    let event = prefix_to(s, fw);
    if event.len() == 0 {
        let r: Vec<Vec<u8>> = Vec::new();
        assert(names_view(r@) =~= Seq::<Seq<u8>>::empty());
        return r;
    }
    let target = if fw < s.len() {
        rest_from(s, fw)
    } else {
        let mut t: Vec<u8> = Vec::new();
        t.push(42u8);
        assert(t@ =~= seq![42u8]);
        t
    };
    apply_autocmds(a, event.as_slice(), target.as_slice())
}

/// Whether an autocommand exists for "{event}" or "{event}#{pat}" (the event
/// in any case, the pattern exactly).
pub open spec fn au_exists_spec(l: Seq<AuVal>, arg: Seq<u8>) -> bool {
    let h = find_from(arg, 0, 35u8);
    let event = ascii_lower(if h >= 0 { arg.subrange(0, h) } else { arg });
    exists|i: int| 0 <= i < l.len() && l[i].event == event
        && (h >= 0 ==> l[i].pat == arg.subrange(h + 1, arg.len() as int))
}

/// Whether autocommands exist (see `au_exists_spec`).
pub fn au_exists(a: &AutoCmds, arg: &[u8]) -> (r: bool)
    ensures r == au_exists_spec(au_view(a.list@), arg@),
{
    proof { lemma_find_from(arg@, 0, 35u8); }
    let ghost hh = find_from(arg@, 0, 35u8);
    let h = crate::usercmd::find_from_exec(arg, 0, 35u8);
    let mut ev_end: usize = arg.len();
    let mut pat_start: usize = arg.len();
    let has_pat = h.is_some();
    if let Some(k) = h {
        ev_end = k;
        pat_start = k + 1;
    }
    let event = ascii_lower_exec(&arg[0..ev_end]);
    let pat = &arg[pat_start..arg.len()];
    assert(arg@.subrange(0, arg@.len() as int) =~= arg@);
    assert(has_pat == (hh >= 0));
    assert(event@ == ascii_lower(if hh >= 0 { arg@.subrange(0, hh) } else { arg@ }));
    assert(has_pat ==> pat@ =~= arg@.subrange(hh + 1, arg@.len() as int));
    let ghost lv = au_view(a.list@);
    let mut i: usize = 0;
    while i < a.list.len()
        invariant
            i <= a.list@.len(), lv == au_view(a.list@), hh == find_from(arg@, 0, 35u8), has_pat == (hh >= 0),
            hh == -1 || 0 <= hh < arg@.len(),
            event@ == ascii_lower(if hh >= 0 { arg@.subrange(0, hh) } else { arg@ }),
            has_pat ==> pat@ == arg@.subrange(hh + 1, arg@.len() as int),
            forall|k: int| 0 <= k < i ==> !(lv[k].event == event@ && (has_pat ==> lv[k].pat == pat@)),
        decreases a.list.len() - i,
    {
        let ac = &a.list[i];
        if crate::typval::bytes_eq(ac.event.as_slice(), event.as_slice())
            && (!has_pat || crate::typval::bytes_eq(ac.pat.as_slice(), pat)) {
            assert(lv[i as int] == ac@);
            assert(lv[i as int].event == ascii_lower(if hh >= 0 { arg@.subrange(0, hh) } else { arg@ })
                && (hh >= 0 ==> lv[i as int].pat == arg@.subrange(hh + 1, arg@.len() as int)));
            return true;
        }
        assert(lv[i as int] == ac@);
        i += 1;
    }
    false
}

// ── laws ──

/// Adding an autocommand keeps the earlier ones' commands and fires the new
/// one after them, where its event and pattern fit.
pub proof fn lemma_apply_push(l: Seq<AuVal>, ac: AuVal, evt: Seq<u8>, target: Seq<u8>)
    ensures
        au_apply(l.push(ac), evt, target) == au_apply(l, evt, target) + if ac.event == evt && glob(utf8_split(ac.pat), utf8_split(target)) { seq![ac.cmd] } else { Seq::empty() },
{
    assert(l.push(ac).drop_last() =~= l);
    let r = au_apply(l, evt, target);
    assert(r.push(ac.cmd) =~= r + seq![ac.cmd]);
    assert(r =~= r + Seq::<Seq<u8>>::empty());
}

/// Removing the autocommands of a group leaves none of that group that the
/// removal picks, and keeps all others in order.
pub proof fn lemma_remove_gone(l: Seq<AuVal>, group: Seq<u8>, evs: Option<Seq<Seq<u8>>>, pat: Option<Seq<u8>>)
    ensures
        forall|k: int| 0 <= k < au_remove(l, group, evs, pat).len() ==> !au_match(#[trigger] au_remove(l, group, evs, pat)[k], group, evs, pat),
        au_remove(l, group, evs, pat).len() <= l.len(),
    decreases l.len(),
{
    if l.len() > 0 {
        lemma_remove_gone(l.drop_last(), group, evs, pat);
    }
}

} // verus!
