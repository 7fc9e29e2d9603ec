//! The command-line histories that "histadd()", "histget()", "histnr()" and "histdel()" work on.
use vstd::prelude::*;
use crate::typval_defs::{
    varnumber_T, OK, FAIL, VarType, VarLockStatus, BoolVarValue, SpecialVarValue, typval_vval_union,
    typval_T, list_T, dict_T, dictitem_T, blob_T, partial_T, Callback, DictWatcher, TypVal, VVal,
    ListVal, DictVal, BlobVal, CallbackVal, WatcherVal, tv_view, list_view, dict_view, items_view, dict_index_of,
    mk_tv, num_tv, str_tv, list_tv, blob_tv, dict_tv, empty_dict_val, dict_wf, keys_unique,
    lemma_items_view_ext, lemma_items_view_index, lemma_items_view_push, lemma_items_view_subrange,
    lemma_items_view_add, lemma_items_view_reverse, lemma_items_view_update, lemma_items_view_insert,
    lemma_items_view_remove, lemma_items_view_empty,
};
use crate::charset::{nr2str, nr2bytes, str2nr, str2nr_all};
use crate::dup::{bytes_dup, tv_dup, list_dup, dict_dup, blob_dup, items_dup, slice_to_vec, callback_dup, append_bytes};
use crate::typval::{
    number_of, number_chk_result, string_of, string_or_empty, tv_get_number_chk, tv_get_number,
    tv_get_bool, tv_get_string, tv_get_string_chk, tv_get_string_buf_chk, tv_equal, tv_equal_spec,
    bytes_eq, dict_find_index,
};
use crate::funcs_basic::{with_number, set_number, with_string, set_string};
use crate::highlight::{names_view, names_distinct, name_index};
use crate::textbuf::{str_value, num_value};
use crate::highlight::{lemma_name_index, lemma_name_index_none, lemma_name_index_some, find_name, bytes_copy};

verus! {

// ── the history rings ──

/// The command-line histories: for ":" commands, searches, expressions,
/// input lines and debug commands, each oldest first.
pub struct History {
    pub rings: Vec<Vec<Vec<u8>>>,
}

/// The model of a `History`.
pub struct HistVal {
    pub rings: Seq<Seq<Seq<u8>>>,
}

impl View for History {
    type V = HistVal;
    open spec fn view(&self) -> HistVal {
        HistVal { rings: Seq::new(self.rings@.len(), |i: int| names_view(self.rings@[i]@)) }
    }
}

/// The number of histories.
pub open spec fn hist_count() -> int { 5 }

/// Well-formed: five rings, no entry twice in a ring.
pub open spec fn hist_wf(h: HistVal) -> bool {
    &&& h.rings.len() == hist_count()
    &&& forall|t: int| 0 <= t < hist_count() ==> names_distinct(#[trigger] h.rings[t])
}

/// The numbers of entries fit a Number.
pub open spec fn hist_fits(h: HistVal) -> bool {
    forall|t: int| 0 <= t < hist_count() ==> (#[trigger] h.rings[t]).len() < i64::MAX
}

/// Empty histories.
pub fn history_new() -> (h: History)
    ensures hist_wf(h@), forall|t: int| 0 <= t < hist_count() ==> (#[trigger] h@.rings[t]).len() == 0,
{
    let mut rings: Vec<Vec<Vec<u8>>> = Vec::new();
    let mut i: usize = 0;
    while i < 5
        invariant i <= 5, rings@.len() == i, forall|k: int| 0 <= k < i ==> (#[trigger] rings@[k])@.len() == 0,
        decreases 5 - i,
    {
        rings.push(Vec::new());
        i += 1;
    }
    let h = History { rings };
    assert forall|t: int| 0 <= t < hist_count() implies names_distinct(#[trigger] h@.rings[t]) by {
        assert(h@.rings[t].len() == 0);
    }
    h
}

/// Which history a name gives: "", ":" or "cmd" the commands; "/", "?" or
/// "search" the searches; "=" or "expr" the expressions; "@" or "input" the
/// input lines; ">" or "debug" the debug commands; else -1.
pub open spec fn histtype(name: Seq<u8>) -> int {
    if name.len() == 0 || name == seq![58u8] || name == seq![99u8, 109, 100] { 0 }
    else if name == seq![47u8] || name == seq![63u8] || name == seq![115u8, 101, 97, 114, 99, 104] { 1 }
    else if name == seq![61u8] || name == seq![101u8, 120, 112, 114] { 2 }
    else if name == seq![64u8] || name == seq![105u8, 110, 112, 117, 116] { 3 }
    else if name == seq![62u8] || name == seq![100u8, 101, 98, 117, 103] { 4 }
    else { -1 }
}

/// The history a name gives (see `histtype`).
fn get_histtype(name: &Vec<u8>) -> (r: Option<usize>)
    ensures
        match r { Some(t) => t as int == histtype(name@) && t < 5, None => histtype(name@) == -1 },
{
    let colon: [u8; 1] = [58u8];
    let cmd: [u8; 3] = [99u8, 109, 100];
    let slash: [u8; 1] = [47u8];
    let quest: [u8; 1] = [63u8];
    let search: [u8; 6] = [115u8, 101, 97, 114, 99, 104];
    let eq: [u8; 1] = [61u8];
    let expr: [u8; 4] = [101u8, 120, 112, 114];
    let at: [u8; 1] = [64u8];
    let input: [u8; 5] = [105u8, 110, 112, 117, 116];
    let gt: [u8; 1] = [62u8];
    let debug: [u8; 5] = [100u8, 101, 98, 117, 103];
    assert(colon@ =~= seq![58u8] && cmd@ =~= seq![99u8, 109, 100] && slash@ =~= seq![47u8] && quest@ =~= seq![63u8]);
    assert(search@ =~= seq![115u8, 101, 97, 114, 99, 104] && eq@ =~= seq![61u8] && expr@ =~= seq![101u8, 120, 112, 114]);
    assert(at@ =~= seq![64u8] && input@ =~= seq![105u8, 110, 112, 117, 116] && gt@ =~= seq![62u8] && debug@ =~= seq![100u8, 101, 98, 117, 103]);
    let s = name.as_slice();
    if name.len() == 0 || bytes_eq(s, &colon) || bytes_eq(s, &cmd) { Some(0) }
    else if bytes_eq(s, &slash) || bytes_eq(s, &quest) || bytes_eq(s, &search) { Some(1) }
    else if bytes_eq(s, &eq) || bytes_eq(s, &expr) { Some(2) }
    else if bytes_eq(s, &at) || bytes_eq(s, &input) { Some(3) }
    else if bytes_eq(s, &gt) || bytes_eq(s, &debug) { Some(4) }
    else { None }
}

/// A ring once `item` is added: any older copy goes, and it comes last.
pub open spec fn ring_add(ring: Seq<Seq<u8>>, item: Seq<u8>) -> Seq<Seq<u8>> {
    let i = name_index(ring, item);
    (if 0 <= i < ring.len() { ring.remove(i) } else { ring }).push(item)
}

/// The histories with ring `t` replaced.
pub open spec fn with_ring(h: HistVal, t: int, ring: Seq<Seq<u8>>) -> HistVal {
    HistVal { rings: h.rings.update(t, ring) }
}

/// Take ring `t` out (an empty ring stands there meanwhile).
fn take_ring(h: &mut History, t: usize) -> (r: Vec<Vec<u8>>)
    requires t < old(h).rings@.len(),
    ensures
        names_view(r@) == old(h)@.rings[t as int],
        final(h).rings@.len() == old(h).rings@.len(),
        final(h)@ == with_ring(old(h)@, t as int, Seq::empty()),
{
    let ghost hv = h@;
    let mut r: Vec<Vec<u8>> = Vec::new();
    std::mem::swap(&mut r, &mut h.rings[t]);
    proof {
        assert(names_view(h.rings@[t as int]@) =~= Seq::<Seq<u8>>::empty());
        assert(h@.rings =~= hv.rings.update(t as int, Seq::empty()));
    }
    r
}

/// Put ring `t` back.
fn put_ring(h: &mut History, t: usize, ring: Vec<Vec<u8>>)
    requires t < old(h).rings@.len(),
    ensures
        final(h).rings@.len() == old(h).rings@.len(),
        final(h)@ == with_ring(old(h)@, t as int, names_view(ring@)),
{
    let ghost hv = h@;
    h.rings.set(t, ring);
    assert(h@.rings =~= hv.rings.update(t as int, names_view(ring@)));
}

/// Add `item` to `ring` (see `ring_add`).
fn ring_add_exec(ring: &mut Vec<Vec<u8>>, item: Vec<u8>)
    requires names_distinct(names_view(old(ring)@)),
    ensures names_view(final(ring)@) == ring_add(names_view(old(ring)@), item@), names_distinct(names_view(final(ring)@)),
{
    let ghost r0 = names_view(ring@);
    let ghost it = item@;
    match find_name(ring, item.as_slice()) {
        Some(i) => {
            ring.remove(i);
            assert(names_view(ring@) =~= r0.remove(i as int));
        },
        None => {},
    }
    let ghost r1 = names_view(ring@);
    proof {
        if name_index(r0, it) >= 0 { lemma_name_index_some(r0, it); }
        assert(forall|k: int| 0 <= k < r1.len() ==> r1[k] != it) by {
            if name_index(r0, it) >= 0 {
                let i = name_index(r0, it);
                assert forall|k: int| 0 <= k < r1.len() implies r1[k] != it by {
                    if k < i { assert(r0[k] != r0[i]); } else { assert(r0[k + 1] != r0[i]); }
                }
            } else {
                assert forall|k: int| 0 <= k < r1.len() implies r1[k] != it by {
                    if r0[k] == it { assert(name_index(r0, it) >= 0); }
                }
            }
        }
        assert(names_distinct(r1)) by {
            if name_index(r0, it) >= 0 {
                let i = name_index(r0, it);
                assert forall|a: int, b: int| 0 <= a < b < r1.len() implies r1[a] != r1[b] by {
                    let a0 = if a < i { a } else { a + 1 };
                    let b0 = if b < i { b } else { b + 1 };
                    assert(r0[a0] != r0[b0]);
                }
            }
        }
    }
    ring.push(item);
    proof {
        let r2 = names_view(ring@);
        assert(r2 =~= r1.push(it));
        assert forall|a: int, b: int| 0 <= a < b < r2.len() implies r2[a] != r2[b] by {
            if b == r1.len() { assert(r1[a] != it); } else { assert(r1[a] != r1[b]); }
        }
    }
}

/// "histadd({history}, {item})": add a non-empty item to a valid history
/// (any older copy goes); the result, 1, is stored only then.
pub fn f_histadd(h: &mut History, argvars: &[typval_T], rettv: &mut typval_T)
    requires hist_wf(old(h)@), argvars@.len() >= 2,
    ensures
        hist_wf(final(h)@),
        ({
            let t = histtype(string_or_empty(argvars@[0]@));
            let item = string_or_empty(argvars@[1]@);
            if t < 0 || item.len() == 0 {
                final(h)@ == old(h)@ && final(rettv)@ == old(rettv)@
            } else {
                final(h)@ == with_ring(old(h)@, t, ring_add(old(h)@.rings[t], item))
                    && final(rettv)@ == with_number(old(rettv)@, 1)
            }
        }),
{
    let name = tv_get_string(&argvars[0]);
    let item = tv_get_string(&argvars[1]);
    let t = match get_histtype(&name) {
        Some(t) => t,
        None => { return; },
    };
    if item.len() == 0 {
        return;
    }
    let ghost hv = h@;
    let mut ring = take_ring(h, t);
    assert(names_distinct(hv.rings[t as int]));
    ring_add_exec(&mut ring, item);
    put_ring(h, t, ring);
    proof {
        assert(h@.rings =~= hv.rings.update(t as int, ring_add(hv.rings[t as int], string_or_empty(argvars@[1]@))));
        assert forall|k: int| 0 <= k < hist_count() implies names_distinct(#[trigger] h@.rings[k]) by {
            if k != t { assert(h@.rings[k] == hv.rings[k]); }
        }
    }
    set_number(rettv, 1);
}

/// The entry that index `idx` of "histget()" names in a ring of `n`: 0 the
/// newest, a positive index counts from 1 at the oldest, a negative one
/// back from the newest; -1 when there is none.
pub open spec fn histget_pos(n: int, idx: int) -> int {
    if idx == 0 {
        if n > 0 { n - 1 } else { -1 }
    } else if idx > 0 {
        if idx <= n { idx - 1 } else { -1 }
    } else {
        if n + idx >= 0 { n + idx } else { -1 }
    }
}

/// The entry that index `idx` of "histdel()" names: like "histget()", but 0
/// names none.
pub open spec fn histdel_pos(n: int, idx: int) -> int {
    if idx > 0 && idx <= n { idx - 1 } else if idx < 0 && n + idx >= 0 { n + idx } else { -1 }
}

/// What "histget({history} [, {index}])" gives.
pub open spec fn histget_spec(h: HistVal, args: Seq<typval_T>) -> Seq<u8> {
    let t = histtype(string_or_empty(args[0]@));
    if t < 0 {
        Seq::empty()
    } else {
        let ring = h.rings[t];
        let idx = if args.len() >= 2 { number_chk_result(args[1]@, true) } else { 0 };
        let p = histget_pos(ring.len() as int, idx);
        if 0 <= p < ring.len() { ring[p] } else { Seq::empty() }
    }
}

/// "histget({history} [, {index}])": the entry at `{index}` (see
/// `histget_pos`), or "".
pub fn f_histget(h: &History, argvars: &[typval_T], rettv: &mut typval_T)
    requires hist_wf(h@), hist_fits(h@), argvars@.len() >= 1,
    ensures final(rettv)@ == with_string(old(rettv)@, histget_spec(h@, argvars@)),
{
    let name = tv_get_string(&argvars[0]);
    let t = match get_histtype(&name) {
        Some(t) => t,
        None => {
            set_string(rettv, Vec::new());
            return;
        },
    };
    let idx = if argvars.len() >= 2 { tv_get_number(&argvars[1]) } else { 0 };
    let ring = &h.rings[t];
    assert(h@.rings[t as int] == names_view(ring@));
    assert(h@.rings[t as int].len() < i64::MAX);
    let n = ring.len() as i64;
    let p: i64 = if idx == 0 {
        if n > 0 { n - 1 } else { -1 }
    } else if idx > 0 {
        if idx <= n { idx - 1 } else { -1 }
    } else {
        if n + idx >= 0 { n + idx } else { -1 }
    };
    if p >= 0 {
        set_string(rettv, bytes_copy(&ring[p as usize]));
    } else {
        set_string(rettv, Vec::new());
    }
}

/// What "histnr({history})" gives: the number of entries, or -1.
pub open spec fn histnr_spec(h: HistVal, name: Seq<u8>) -> int {
    let t = histtype(name);
    if t < 0 { -1 } else { h.rings[t].len() as int }
}

/// "histnr({history})": the number of entries of the history, or -1 for a
/// name that is none.
pub fn f_histnr(h: &History, argvars: &[typval_T], rettv: &mut typval_T)
    requires hist_wf(h@), hist_fits(h@), argvars@.len() >= 1,
    ensures final(rettv)@ == with_number(old(rettv)@, histnr_spec(h@, string_or_empty(argvars@[0]@))),
{
    let name = tv_get_string(&argvars[0]);
    match get_histtype(&name) {
        Some(t) => {
            assert(h@.rings[t as int].len() < i64::MAX);
            set_number(rettv, h.rings[t].len() as i64);
        },
        None => set_number(rettv, -1),
    }
}

/// Whether `matcher` may answer `b` for pattern `pat` and entry `e`.
pub open spec fn match_ok<M: Fn(Vec<u8>, Vec<u8>) -> bool>(matcher: &M, pat: Seq<u8>, e: Seq<u8>, b: bool) -> bool {
    exists|p: Vec<u8>, x: Vec<u8>| #![trigger matcher.ensures((p, x), b)] p@ == pat && x@ == e && matcher.ensures((p, x), b)
}

/// The entries of `ring` whose answer in `res` is false.
pub open spec fn keep_unmatched(ring: Seq<Seq<u8>>, res: Seq<bool>) -> Seq<Seq<u8>>
    decreases ring.len(),
{
    if ring.len() == 0 || res.len() != ring.len() {
        ring
    } else {
        let r = keep_unmatched(ring.drop_last(), res.drop_last());
        if res.last() { r } else { r.push(ring.last()) }
    }
}

proof fn lemma_keep_unmatched(ring: Seq<Seq<u8>>, res: Seq<bool>)
    requires names_distinct(ring), res.len() == ring.len(),
    ensures
        names_distinct(keep_unmatched(ring, res)),
        forall|k: int| 0 <= k < keep_unmatched(ring, res).len() ==> ring.contains(#[trigger] keep_unmatched(ring, res)[k]),
    decreases ring.len(),
{
    if ring.len() > 0 {
        let d = ring.drop_last();
        let r = keep_unmatched(d, res.drop_last());
        assert forall|a: int, b: int| 0 <= a < b < d.len() implies d[a] != d[b] by {
            assert(ring[a] != ring[b]);
        }
        lemma_keep_unmatched(d, res.drop_last());
        assert forall|k: int| 0 <= k < r.len() implies ring.contains(#[trigger] r[k]) by {
            let j = choose|j: int| 0 <= j < d.len() && d[j] == r[k];
            assert(ring[j] == r[k]);
        }
        if !res.last() {
            let r2 = r.push(ring.last());
            assert forall|k: int| 0 <= k < r.len() implies r[k] != ring.last() by {
                let j = choose|j: int| 0 <= j < d.len() && d[j] == r[k];
                assert(ring[j] != ring[ring.len() - 1]);
            }
            assert forall|a: int, b: int| 0 <= a < b < r2.len() implies r2[a] != r2[b] by {
                if b == r.len() { assert(r[a] != ring.last()); }
            }
            assert forall|k: int| 0 <= k < r2.len() implies ring.contains(#[trigger] r2[k]) by {
                if k == r.len() { assert(ring[ring.len() - 1] == r2[k]); } else { assert(r2[k] == r[k]); }
            }
        }
    }
}

/// The entries of `ring` that `matcher` does not match with `pat`, and the
/// answers it gave.
fn drop_matching<M: Fn(Vec<u8>, Vec<u8>) -> bool>(ring: &Vec<Vec<u8>>, pat: &Vec<u8>, matcher: &M) -> (r: (Vec<Vec<u8>>, Ghost<Seq<bool>>))
    requires forall|p: Vec<u8>, x: Vec<u8>| #[trigger] matcher.requires((p, x)),
    ensures
        r.1@.len() == ring@.len(),
        forall|k: int| 0 <= k < ring@.len() ==> #[trigger] match_ok(matcher, pat@, ring@[k]@, r.1@[k]),
        names_view(r.0@) == keep_unmatched(names_view(ring@), r.1@),
{
    let ghost rv = names_view(ring@);
    let mut out: Vec<Vec<u8>> = Vec::new();
    let ghost mut res: Seq<bool> = Seq::empty();
    let mut k: usize = 0;
    while k < ring.len()
        invariant
            k <= ring@.len(), rv == names_view(ring@), res.len() == k,
            forall|p: Vec<u8>, x: Vec<u8>| #[trigger] matcher.requires((p, x)),
            forall|j: int| 0 <= j < k ==> #[trigger] match_ok(matcher, pat@, ring@[j]@, res[j]),
            names_view(out@) == keep_unmatched(rv.subrange(0, k as int), res),
        decreases ring.len() - k,
    {
        let pc = bytes_copy(pat);
        let xc = bytes_copy(&ring[k]);
        let ghost gp = pc;
        let ghost gx = xc;
        let b = matcher(pc, xc);
        assert(matcher.ensures((gp, gx), b));
        let ghost before = names_view(out@);
        if !b {
            out.push(bytes_copy(&ring[k]));
            assert(names_view(out@) =~= before.push(rv[k as int]));
        }
        proof {
            let nr = res.push(b);
            assert(rv.subrange(0, k + 1).drop_last() =~= rv.subrange(0, k as int));
            assert(nr.drop_last() =~= res);
            res = nr;
            assert(match_ok(matcher, pat@, ring@[k as int]@, res[k as int]));
        }
        k += 1;
    }
    assert(rv.subrange(0, ring@.len() as int) =~= rv);
    (out, Ghost(res))
}

/// What "histdel()" does to a ring, given the answers of the matcher for a
/// String argument (see `f_histdel`).
pub open spec fn histdel_ring(ring: Seq<Seq<u8>>, args: Seq<typval_T>, res: Seq<bool>) -> Seq<Seq<u8>> {
    if args.len() < 2 {
        Seq::empty()
    } else if args[1]@.ty == VarType::VAR_NUMBER {
        let p = histdel_pos(ring.len() as int, number_chk_result(args[1]@, true));
        if 0 <= p < ring.len() { ring.remove(p) } else { ring }
    } else {
        keep_unmatched(ring, res)
    }
}

/// "histdel({history} [, {item}])": without `{item}` empty the history; a
/// Number deletes the entry at that index (see `histdel_pos`); a String
/// deletes every entry that `matcher` matches with it as a pattern. For a
/// valid history the result 1 is stored.
pub fn f_histdel<M: Fn(Vec<u8>, Vec<u8>) -> bool>(h: &mut History, argvars: &[typval_T], rettv: &mut typval_T, matcher: &M)
    requires
        hist_wf(old(h)@), hist_fits(old(h)@), argvars@.len() >= 1,
        forall|p: Vec<u8>, x: Vec<u8>| #[trigger] matcher.requires((p, x)),
    ensures
        hist_wf(final(h)@), hist_fits(final(h)@),
        ({
            let t = histtype(string_or_empty(argvars@[0]@));
            if t < 0 {
                final(h)@ == old(h)@ && final(rettv)@ == old(rettv)@
            } else {
                final(rettv)@ == with_number(old(rettv)@, 1)
                && exists|res: Seq<bool>| #![trigger histdel_ring(old(h)@.rings[t], argvars@, res)]
                    res.len() == old(h)@.rings[t].len()
                    && (argvars@.len() >= 2 && argvars@[1]@.ty != VarType::VAR_NUMBER ==>
                        forall|k: int| 0 <= k < res.len() ==> #[trigger] match_ok(matcher, string_or_empty(argvars@[1]@), old(h)@.rings[t][k], res[k]))
                    && final(h)@ == with_ring(old(h)@, t, histdel_ring(old(h)@.rings[t], argvars@, res))
            }
        }),
{
    let name = tv_get_string(&argvars[0]);
    let t = match get_histtype(&name) {
        Some(t) => t,
        None => { return; },
    };
    let ghost hv = h@;
    let ghost r0 = hv.rings[t as int];
    let mut ring = take_ring(h, t);
    let ghost mut res: Seq<bool> = Seq::new(r0.len(), |k: int| false);
    assert(names_distinct(r0));
    if argvars.len() < 2 {
        ring = Vec::new();
        assert(names_view(ring@) =~= Seq::<Seq<u8>>::empty());
    } else if argvars[1].v_type == VarType::VAR_NUMBER {
        let idx = tv_get_number(&argvars[1]);
        assert(r0.len() < i64::MAX);
        let n = ring.len() as i64;
        let p: i64 = if idx > 0 && idx <= n { idx - 1 } else if idx < 0 && n + idx >= 0 { n + idx } else { -1 };
        if p >= 0 {
            ring.remove(p as usize);
            assert(names_view(ring@) =~= r0.remove(p as int));
            proof {
                assert forall|a: int, b: int| 0 <= a < b < names_view(ring@).len() implies names_view(ring@)[a] != names_view(ring@)[b] by {
                    let a0 = if a < p { a } else { a + 1 };
                    let b0 = if b < p { b } else { b + 1 };
                    assert(r0[a0] != r0[b0]);
                }
            }
        }
    } else {
        let pat = tv_get_string(&argvars[1]);
        let (kept, Ghost(rs)) = drop_matching(&ring, &pat, matcher);
        proof {
            res = rs;
            lemma_keep_unmatched(r0, res);
        }
        ring = kept;
    }
    let ghost nr = names_view(ring@);
    put_ring(h, t, ring);
    proof {
        assert(nr == histdel_ring(r0, argvars@, res));
        assert(h@.rings =~= hv.rings.update(t as int, nr));
        assert(h@ == with_ring(hv, t as int, histdel_ring(r0, argvars@, res)));
        assert(res.len() == r0.len());
        assert forall|k: int| 0 <= k < hist_count() implies names_distinct(#[trigger] h@.rings[k]) by {
            if k != t { assert(h@.rings[k] == hv.rings[k]); }
        }
        assert forall|k: int| 0 <= k < hist_count() implies (#[trigger] h@.rings[k]).len() < i64::MAX by {
            if k != t { assert(h@.rings[k] == hv.rings[k]); } else {
                if argvars@.len() >= 2 && argvars@[1]@.ty != VarType::VAR_NUMBER {
                    assert(h@.rings[k].len() <= r0.len()) by { lemma_keep_len(r0, res); }
                }
            }
        }
    }
    set_number(rettv, 1);
}

proof fn lemma_keep_len(ring: Seq<Seq<u8>>, res: Seq<bool>)
    ensures keep_unmatched(ring, res).len() <= ring.len(),
    decreases ring.len(),
{
    if ring.len() > 0 && res.len() == ring.len() {
        lemma_keep_len(ring.drop_last(), res.drop_last());
    }
}

// ── laws ──

/// Adding an entry makes it the newest, keeps the ring free of copies, and
/// grows the ring only when the entry was not there.
pub proof fn lemma_histadd_newest(ring: Seq<Seq<u8>>, item: Seq<u8>)
    requires names_distinct(ring),
    ensures
        ring_add(ring, item).last() == item,
        ring_add(ring, item)[histget_pos(ring_add(ring, item).len() as int, 0)] == item,
        ring_add(ring, item)[histget_pos(ring_add(ring, item).len() as int, -1)] == item,
        names_distinct(ring_add(ring, item)),
        ring_add(ring, item).len() == ring.len() + if ring.contains(item) { 0int } else { 1int },
{
    let i = name_index(ring, item);
    let r1 = if 0 <= i < ring.len() { ring.remove(i) } else { ring };
    if ring.contains(item) {
        let j = choose|j: int| 0 <= j < ring.len() && ring[j] == item;
        lemma_name_index(ring, item, j);
    }
    if 0 <= i < ring.len() {
        lemma_name_index_some(ring, item);
        assert forall|k: int| 0 <= k < r1.len() implies r1[k] != item by {
            if k < i { assert(ring[k] != ring[i]); } else { assert(ring[k + 1] != ring[i]); }
        }
        assert forall|a: int, b: int| 0 <= a < b < r1.len() implies r1[a] != r1[b] by {
            let a0 = if a < i { a } else { a + 1 };
            let b0 = if b < i { b } else { b + 1 };
            assert(ring[a0] != ring[b0]);
        }
    } else {
        assert forall|k: int| 0 <= k < r1.len() implies r1[k] != item by {
            if ring[k] == item { assert(name_index(ring, item) >= 0); }
        }
    }
    let r2 = r1.push(item);
    assert forall|a: int, b: int| 0 <= a < b < r2.len() implies r2[a] != r2[b] by {
        if b == r1.len() { assert(r1[a] != item); } else { assert(r1[a] != r1[b]); }
    }
}

/// Adding the same entry twice is adding it once.
pub proof fn lemma_histadd_twice(ring: Seq<Seq<u8>>, item: Seq<u8>)
    requires names_distinct(ring),
    ensures ring_add(ring_add(ring, item), item) == ring_add(ring, item),
{
    lemma_histadd_newest(ring, item);
    let r2 = ring_add(ring, item);
    let n = r2.len() - 1;
    lemma_name_index(r2, item, n);
    assert(r2.remove(n).push(item) =~= r2);
}

} // verus!
