//! Builtins over Lists, Dicts, Blobs and Strings: counting, extending, mapping and filtering.
use vstd::prelude::*;
use crate::typval_defs::{
    varnumber_T, OK, FAIL, VarType, VarLockStatus, BoolVarValue, SpecialVarValue, typval_vval_union,
    typval_T, list_T, dict_T, dictitem_T, blob_T, partial_T, Callback, DictWatcher, TypVal, VVal,
    ListVal, DictVal, BlobVal, CallbackVal, WatcherVal, tv_view, list_view, dict_view, items_view, dict_index_of,
    mk_tv, num_tv, str_tv, list_tv, blob_tv, dict_tv, empty_dict_val, dict_wf, keys_unique,
    lemma_items_view_ext, lemma_items_view_index, lemma_items_view_push, lemma_items_view_subrange,
    lemma_items_view_add, lemma_items_view_reverse, lemma_items_view_update, lemma_items_view_insert,
    lemma_items_view_remove, lemma_items_view_empty,
};
use crate::charset::{nr2str, nr2bytes, str2nr, str2nr_all};
use crate::dup::{bytes_dup, tv_dup, list_dup, dict_dup, blob_dup, items_dup, slice_to_vec, callback_dup, append_bytes};
use crate::typval::{
    number_of, number_chk_result, string_of, string_or_empty, tv_get_number_chk, tv_get_number,
    tv_get_bool, tv_get_string, tv_get_string_chk, tv_get_string_buf_chk, tv_equal, tv_equal_spec,
    bytes_eq, dict_find_index,
};
use crate::typval_list::{lemma_items_view_index_all, list_uidx, tv_list_find, tv_list_alloc, with_items, empty_list_val};
use crate::typval_dict::lemma_dict_view_parts;
use crate::funcs_basic::{with_number, set_number, set_list, with_list, first_arg_set, replace_first};
use crate::typval_list::{tv_list_len, tv_list_uidx};
use crate::typval_copy::{copy_items, unlock_all, extend_items, tv_list_copy, tv_dict_copy, tv_list_extend};
use crate::typval_dict::{extend_upto, action_char, tv_dict_extend};
use crate::funcs_basic::list_with_items;
use crate::typval_copy::unknown_tv;
use crate::charset::{utf8_split, utf8_chars};
use crate::funcs_basic::{with_string, with_blob, blob_with_bytes, low_byte};
use crate::charset::char_len_at;
use crate::typval_copy::push_dups;
use crate::funcs_basic::low_byte_exec;

verus! {

broadcast use vstd::std_specs::vec::axiom_vec_index_decreases;

// ── count() ──

/// ASCII letters made lower case.
pub open spec fn ascii_lower(s: Seq<u8>) -> Seq<u8> {
    Seq::new(s.len(), |i: int| if 65 <= s[i] <= 90 { (s[i] + 32) as u8 } else { s[i] })
}

/// The occurrences of `needle` in `h` that do not overlap, found from the
/// left; none for an empty needle.
pub open spec fn count_occ(h: Seq<u8>, needle: Seq<u8>) -> nat
    decreases h.len(),
{
    if needle.len() == 0 || h.len() < needle.len() {
        0
    } else if h.subrange(0, needle.len() as int) == needle {
        1 + count_occ(h.subrange(needle.len() as int, h.len() as int), needle)
    } else {
        count_occ(h.subrange(1, h.len() as int), needle)
    }
}

/// The items from index `start` on that equal `needle`; none when `start`
/// is negative.
pub open spec fn count_equal(items: Seq<TypVal>, needle: TypVal, ic: bool, start: int) -> nat
    decreases items.len() - start,
{
    if start < 0 || start >= items.len() {
        0
    } else {
        (if tv_equal_spec(items[start], needle, ic) { 1nat } else { 0nat }) + count_equal(items, needle, ic, start + 1)
    }
}

/// The items of a List equal to `needle` from index `idx` (counted from the
/// end when negative); none when the index (truncated to 32 bits) is out
/// of range.
pub open spec fn count_list_spec(items: Seq<TypVal>, needle: TypVal, idx: int, ic: bool) -> nat {
    if items.len() == 0 || list_uidx(items.len() as int, (idx as i32) as int) == -1 {
        0
    } else {
        count_equal(items, needle, ic, if idx < 0 { items.len() + idx } else { idx })
    }
}

/// Whether the size of what a value holds fits the counters: 32 bits for
/// the length of a List, 63 for the size of a String or a Dict.
pub open spec fn count_arg_fits(t: TypVal) -> bool {
    match t.v {
        VVal::List(Some(l)) => l.items.len() <= i32::MAX,
        VVal::Dict(Some(d)) => d.vals.len() <= i64::MAX,
        VVal::Str(s) => s.len() <= i64::MAX,
        _ => true,
    }
}

/// What "count()" returns.
pub open spec fn count_result(args: Seq<typval_T>) -> int {
    let ic = args.len() > 2 && number_chk_result(args[2]@, true) != 0;
    if args.len() > 2 && number_of(args[2]@) is None {
        0
    } else {
        let a = args[0]@;
        match (a.ty, a.v) {
            (VarType::VAR_STRING, VVal::Str(s)) => {
                let needle = string_or_empty(args[1]@);
                if ic { count_occ(ascii_lower(s), ascii_lower(needle)) as int } else { count_occ(s, needle) as int }
            },
            (VarType::VAR_LIST, VVal::List(Some(l))) => {
                if args.len() > 3 && number_of(args[3]@) is None {
                    0
                } else {
                    let idx = if args.len() > 3 { number_chk_result(args[3]@, true) } else { 0 };
                    count_list_spec(l.items, args[1]@, idx, ic) as int
                }
            },
            (VarType::VAR_DICT, VVal::Dict(Some(d))) => if args.len() > 3 { 0 } else { count_equal(d.vals, args[1]@, ic, 0) as int },
            _ => 0,
        }
    }
}

proof fn lemma_count_occ_bound(h: Seq<u8>, needle: Seq<u8>)
    ensures count_occ(h, needle) <= h.len(),
    decreases h.len(),
{
    if needle.len() == 0 || h.len() < needle.len() {
    } else if h.subrange(0, needle.len() as int) == needle {
        lemma_count_occ_bound(h.subrange(needle.len() as int, h.len() as int), needle);
    } else {
        lemma_count_occ_bound(h.subrange(1, h.len() as int), needle);
    }
}

/// `s` with ASCII letters made lower case.
pub(crate) fn ascii_lower_exec(s: &[u8]) -> (r: Vec<u8>)
    ensures r@ == ascii_lower(s@),
{
    let mut out: Vec<u8> = Vec::new();
    let mut i: usize = 0;
    while i < s.len()
        invariant
            i <= s@.len(),
            out@.len() == i,
            forall|j: int| 0 <= j < i ==> out@[j] == (if 65 <= s@[j] <= 90 { (s@[j] + 32) as u8 } else { s@[j] }),
        decreases s.len() - i,
    {
        let c = s[i];
        out.push(if 65 <= c && c <= 90 { c + 32 } else { c });
        i += 1;
    }
    assert(out@ =~= ascii_lower(s@));
    out
}

/// Whether `needle` occurs in `h` at position `i`.
fn occurs_at(h: &[u8], i: usize, needle: &[u8]) -> (r: bool)
    requires i <= h@.len(),
    ensures r == (h@.len() - i >= needle@.len() && h@.subrange(i as int, i + needle@.len()) == needle@),
{
    if h.len() - i < needle.len() {
        return false;
    }
    let hl = h.len();
    let mut j: usize = 0;
    while j < needle.len()
        invariant
            j <= needle@.len(), i + needle@.len() <= hl, hl == h@.len(),
            forall|k: int| 0 <= k < j ==> h@[i + k] == needle@[k],
        decreases needle.len() - j,
    {
        if h[i + j] != needle[j] {
            assert(h@.subrange(i as int, i + needle@.len())[j as int] != needle@[j as int]);
            return false;
        }
        j += 1;
    }
    assert(h@.subrange(i as int, i + needle@.len()) =~= needle@);
    true
}

/// The occurrences of `needle` in `h` that do not overlap.
fn count_string(h: &[u8], needle: &[u8]) -> (r: i64)
    requires h@.len() <= i64::MAX,
    ensures r as int == count_occ(h@, needle@),
{
    if needle.len() == 0 {
        return 0;
    }
    let mut n: i64 = 0;
    let mut i: usize = 0;
    proof { lemma_count_occ_bound(h@, needle@); }
    assert(h@.subrange(0, h@.len() as int) =~= h@);
    while i < h.len()
        invariant
            i <= h@.len(), needle@.len() > 0,
            n + count_occ(h@.subrange(i as int, h@.len() as int), needle@) == count_occ(h@, needle@),
            count_occ(h@, needle@) <= h@.len(), n >= 0, n <= i, h@.len() <= i64::MAX,
        decreases h.len() - i,
    {
        let ghost rest = h@.subrange(i as int, h@.len() as int);
        proof { lemma_count_occ_bound(rest, needle@); }
        if occurs_at(h, i, needle) {
            assert(rest.subrange(0, needle@.len() as int) =~= h@.subrange(i as int, i + needle@.len()));
            assert(rest.subrange(needle@.len() as int, rest.len() as int) =~= h@.subrange(i + needle@.len(), h@.len() as int));
            n += 1;
            i += needle.len();
        } else {
            if h.len() - i >= needle.len() {
                assert(rest.subrange(0, needle@.len() as int) =~= h@.subrange(i as int, i + needle@.len()));
                assert(rest.subrange(1, rest.len() as int) =~= h@.subrange(i + 1, h@.len() as int));
                i += 1;
            } else {
                assert(count_occ(rest, needle@) == 0);
                assert(h@.subrange(h@.len() as int, h@.len() as int) =~= Seq::<u8>::empty());
                i = h.len();
            }
        }
    }
    assert(h@.subrange(i as int, h@.len() as int) =~= Seq::<u8>::empty());
    n
}

/// The items of `items` from index `start` on that equal `needle`.
fn count_items_from(items: &Vec<typval_T>, needle: &typval_T, ic: bool, start: usize) -> (r: i64)
    requires start <= items@.len(), items@.len() <= i64::MAX,
    ensures r as int == count_equal(items_view(items@), needle@, ic, start as int),
{
    proof { lemma_items_view_index_all(items@); }
    let ghost iv = items_view(items@);
    let mut n: i64 = 0;
    let mut i: usize = start;
    while i < items.len()
        invariant
            start <= i <= items@.len(), iv == items_view(items@), iv.len() == items@.len(),
            forall|k: int| 0 <= k < items@.len() ==> #[trigger] iv[k] == items@[k]@,
            n + count_equal(iv, needle@, ic, i as int) == count_equal(iv, needle@, ic, start as int),
            0 <= n <= i - start, items@.len() <= i64::MAX,
        decreases items.len() - i,
    {
        if tv_equal(&items[i], needle, ic) {
            n += 1;
        }
        i += 1;
    }
    n
}

/// "count({comp}, {expr} [, {ic} [, {start}]])": how many times `{expr}`
/// occurs in a String (as a piece that does not overlap another, letters
/// compared without case when `{ic}`), a List (items from `{start}` on) or a
/// Dict (values); 0 for anything else or on a bad argument.
pub fn f_count(argvars: &[typval_T], rettv: &mut typval_T)
    requires argvars@.len() >= 2, count_arg_fits(argvars@[0]@),
    ensures final(rettv)@ == with_number(old(rettv)@, count_result(argvars@)),
{
    let mut n: i64 = 0;
    let mut ic: i64 = 0;
    let mut error = false;
    if argvars.len() > 2 {
        ic = tv_get_number_chk(&argvars[2], Some(&mut error));
    }
    if !error {
        match (&argvars[0].v_type, &argvars[0].vval) {
            (VarType::VAR_STRING, typval_vval_union::v_string(s)) => {
                let needle = tv_get_string(&argvars[1]);
                if ic != 0 {
                    let hl = ascii_lower_exec(s.as_slice());
                    let nl = ascii_lower_exec(needle.as_slice());
                    n = count_string(hl.as_slice(), nl.as_slice());
                } else {
                    n = count_string(s.as_slice(), needle.as_slice());
                }
            },
            (VarType::VAR_LIST, typval_vval_union::v_list(Some(l))) => {
                let mut idx: i64 = 0;
                if argvars.len() > 3 {
                    idx = tv_get_number_chk(&argvars[3], Some(&mut error));
                }
                if !error && l.lv_items.len() > 0 {
                    proof { lemma_items_view_index_all(l.lv_items@); }
                    if tv_list_find(l, idx as i32).is_some() {
                        let len = l.lv_items.len() as i64;
                        let start: i64 = if idx < 0 { len + idx } else { idx };
                        if start >= 0 && start <= len {
                            n = count_items_from(&l.lv_items, &argvars[1], ic != 0, start as usize);
                        }
                    }
                }
            },
            (VarType::VAR_DICT, typval_vval_union::v_dict(Some(d))) => {
                if argvars.len() <= 3 {
                    proof { lemma_dict_view_parts(*d); }
                    let mut vals: Vec<typval_T> = Vec::new();
                    let mut i: usize = 0;
                    while i < d.dv_hashtab.len()
                        invariant
                            i <= d.dv_hashtab@.len(), vals@.len() == i,
                            forall|k: int| 0 <= k < i ==> (#[trigger] vals@[k])@ == d@.vals[k],
                        decreases d.dv_hashtab.len() - i,
                    {
                        vals.push(tv_dup(&d.dv_hashtab[i].di_tv));
                        i += 1;
                    }
                    proof {
                        lemma_items_view_index_all(vals@);
                        assert(items_view(vals@) =~= d@.vals);
                    }
                    n = count_items_from(&vals, &argvars[1], ic != 0, 0);
                }
            },
            _ => {},
        }
    }
    set_number(rettv, n);
}

// ── extend() and extendnew() ──

/// Where "extend()" inserts into a List of `len` items: `Some(None)` at the
/// end, `Some(Some(i))` before index `i`; `None` when the index argument is
/// no Number or, truncated to 32 bits, is neither the length nor a valid index.
pub open spec fn extend_before(args: Seq<typval_T>, len: int) -> Option<Option<usize>> {
    if args.len() > 2 {
        if number_of(args[2]@) is None {
            None
        } else {
            let before = (number_chk_result(args[2]@, true) as i32) as int;
            if before == len {
                Some(None)
            } else if list_uidx(len, before) == -1 {
                None
            } else {
                Some(Some(list_uidx(len, before) as usize))
            }
        }
    } else {
        Some(None)
    }
}

/// `"keep"`.
pub open spec fn keep_bytes() -> Seq<u8> { seq![107u8, 101, 101, 112] }
/// `"force"`.
pub open spec fn force_bytes() -> Seq<u8> { seq![102u8, 111, 114, 99, 101] }
/// `"error"`.
pub open spec fn error_bytes() -> Seq<u8> { seq![101u8, 114, 114, 111, 114] }

/// The action "extend()" takes on a key both Dicts have: "force" unless the
/// third argument says "keep" or "error"; `None` for any other third argument.
pub open spec fn extend_action(args: Seq<typval_T>) -> Option<Seq<u8>> {
    if args.len() > 2 {
        match string_of(args[2]@) {
            None => None,
            Some(a) => if a == keep_bytes() || a == force_bytes() || a == error_bytes() { Some(a) } else { None },
        }
    } else {
        Some(force_bytes())
    }
}

/// The model of `r` once it holds the Dict `d`.
pub open spec fn with_dict(r: TypVal, d: DictVal) -> TypVal {
    TypVal { ty: VarType::VAR_DICT, v: VVal::Dict(Some(d)), ..r }
}

/// What "extend()" (`is_new` false) or "extendnew()" (`is_new` true) does to
/// its arguments: `None` when nothing changes, else the new first argument
/// and the result. Items added to a List, and values added to a Dict, are
/// unlocked copies; "extendnew()" works on an unlocked copy of the first
/// argument and leaves it alone.
pub open spec fn extend_outcome(args: Seq<typval_T>, is_new: bool, old_ret: TypVal) -> Option<(TypVal, TypVal)> {
    let a = args[0]@;
    let b = args[1]@;
    if a.ty == VarType::VAR_LIST && b.ty == VarType::VAR_LIST {
        match a.v {
            VVal::List(Some(l)) => match extend_before(args, l.items.len() as int) {
                None => None,
                Some(bef) => {
                    let base = if is_new { copy_items(l.items, false) } else { l.items };
                    let items = match b.v {
                        VVal::List(Some(l2)) => extend_items(base, l2.items, bef),
                        _ => base,
                    };
                    if is_new {
                        Some((a, with_list(old_ret, items)))
                    } else {
                        let na = list_with_items(a, l, items);
                        Some((na, na))
                    }
                },
            },
            _ => None,
        }
    } else if a.ty == VarType::VAR_DICT && b.ty == VarType::VAR_DICT {
        match a.v {
            VVal::Dict(Some(d1)) => match b.v {
                VVal::Dict(Some(d2)) => match extend_action(args) {
                    None => None,
                    Some(act) => {
                        let base = if is_new { DictVal { keys: d1.keys, vals: copy_items(d1.vals, false), ..empty_dict_val() } } else { d1 };
                        let add = DictVal { keys: d2.keys, vals: copy_items(d2.vals, false), ..empty_dict_val() };
                        let nd = extend_upto(base, add, action_char(act), add.keys.len() as int).0;
                        if is_new {
                            Some((a, with_dict(old_ret, nd)))
                        } else {
                            let na = TypVal { v: VVal::Dict(Some(nd)), ..a };
                            Some((na, na))
                        }
                    },
                },
                _ => Some((a, a)),
            },
            _ => None,
        }
    } else {
        None
    }
}

fn extend_before_exec(argvars: &[typval_T], l: &list_T) -> (r: Option<Option<usize>>)
    requires l.lv_items@.len() <= i32::MAX,
    ensures r == extend_before(argvars@, l@.items.len() as int),
{
    if argvars.len() > 2 {
        let mut error = false;
        let before = tv_get_number_chk(&argvars[2], Some(&mut error)) as i32;
        if error {
            return None;
        }
        let len = tv_list_len(l);
        if before == len {
            Some(None)
        } else {
            let u = tv_list_uidx(l, before);
            if u == -1 { None } else { Some(Some(u as usize)) }
        }
    } else {
        Some(None)
    }
}

fn extend_action_exec(argvars: &[typval_T]) -> (r: Option<Vec<u8>>)
    ensures
        match extend_action(argvars@) {
            None => r is None,
            Some(a) => r is Some && r->Some_0@ == a,
        },
{
    let force: Vec<u8> = vec![102u8, 111, 114, 99, 101];
    assert(force@ =~= force_bytes());
    if argvars.len() > 2 {
        match tv_get_string_chk(&argvars[2]) {
            None => None,
            Some(a) => {
                let keep: Vec<u8> = vec![107u8, 101, 101, 112];
                let err: Vec<u8> = vec![101u8, 114, 114, 111, 114];
                assert(keep@ =~= keep_bytes());
                assert(err@ =~= error_bytes());
                if bytes_eq(a.as_slice(), keep.as_slice()) || bytes_eq(a.as_slice(), force.as_slice())
                    || bytes_eq(a.as_slice(), err.as_slice()) {
                    Some(a)
                } else {
                    None
                }
            },
        }
    } else {
        Some(force)
    }
}

/// Whether a List value's length fits in 32 bits.
pub open spec fn first_list_fits(t: TypVal) -> bool {
    match t.v {
        VVal::List(Some(l)) => l.items.len() <= i32::MAX,
        _ => true,
    }
}

/// The new first argument and result of "extend()"/"extendnew()", or `None`.
fn extend_exec(argvars: &[typval_T], is_new: bool, old_ret: &typval_T) -> (r: Option<(typval_T, typval_T)>)
    requires argvars@.len() >= 2, first_list_fits(argvars@[0]@),
    ensures
        match extend_outcome(argvars@, is_new, old_ret@) {
            None => r is None,
            Some((na, ret)) => r is Some && r->Some_0.0@ == na && r->Some_0.1@ == ret,
        },
{
    let a = &argvars[0];
    let b = &argvars[1];
    if a.v_type == VarType::VAR_LIST && b.v_type == VarType::VAR_LIST {
        match &a.vval {
            typval_vval_union::v_list(Some(l)) => {
                proof { lemma_items_view_index_all(l.lv_items@); }
                let bef = match extend_before_exec(argvars, l) {
                    None => { return None; },
                    Some(x) => x,
                };
                let mut nl: list_T = if is_new { tv_list_copy(l, false) } else { list_dup(l) };
                if let typval_vval_union::v_list(Some(l2)) = &b.vval {
                    tv_list_extend(&mut nl, l2, bef);
                } else {
                    assert(nl@ == with_items(nl@, nl@.items));
                }
                if is_new {
                    let mut ret = tv_dup(old_ret);
                    let ghost items = nl@.items;
                    set_list(&mut ret, nl);
                    Some((tv_dup(a), ret))
                } else {
                    let na = typval_T { v_type: a.v_type, v_lock: a.v_lock, vval: typval_vval_union::v_list(Some(nl)) };
                    let ret = tv_dup(&na);
                    Some((na, ret))
                }
            },
            _ => None,
        }
    } else if a.v_type == VarType::VAR_DICT && b.v_type == VarType::VAR_DICT {
        match &a.vval {
            typval_vval_union::v_dict(Some(d1)) => match &b.vval {
                typval_vval_union::v_dict(Some(d2)) => {
                    let act = match extend_action_exec(argvars) {
                        None => { return None; },
                        Some(x) => x,
                    };
                    let mut nd: dict_T = if is_new { tv_dict_copy(d1, false) } else { dict_dup(d1) };
                    let add = tv_dict_copy(d2, false);
                    tv_dict_extend(&mut nd, &add, act.as_slice());
                    if is_new {
                        let mut ret = tv_dup(old_ret);
                        ret.v_type = VarType::VAR_DICT;
                        ret.vval = typval_vval_union::v_dict(Some(nd));
                        Some((tv_dup(a), ret))
                    } else {
                        let na = typval_T { v_type: a.v_type, v_lock: a.v_lock, vval: typval_vval_union::v_dict(Some(nd)) };
                        let ret = tv_dup(&na);
                        Some((na, ret))
                    }
                },
                _ => Some((tv_dup(a), tv_dup(a))),
            },
            _ => None,
        }
    } else {
        None
    }
}

/// "extend({expr1}, {expr2} [, {expr3}])": add the items of the List
/// `{expr2}` to the List `{expr1}` (before index `{expr3}`, at the end by
/// default), or the entries of the Dict `{expr2}` to the Dict `{expr1}`
/// (`{expr3}` is "keep", "force" or "error" for a key both have); the result
/// is the changed `{expr1}`. On a bad argument nothing changes.
pub fn f_extend(argvars: &mut Vec<typval_T>, rettv: &mut typval_T)
    requires old(argvars)@.len() >= 2, first_list_fits(old(argvars)@[0]@),
    ensures
        match extend_outcome(old(argvars)@, false, old(rettv)@) {
            None => final(argvars)@ == old(argvars)@ && final(rettv)@ == old(rettv)@,
            Some((na, ret)) => first_arg_set(old(argvars)@, final(argvars)@, na) && final(rettv)@ == ret,
        },
{
    match extend_exec(argvars.as_slice(), false, rettv) {
        None => {},
        Some((na, ret)) => {
            *rettv = ret;
            replace_first(argvars, na);
        },
    }
}

/// "extendnew({expr1}, {expr2} [, {expr3}])": like "extend()", but on a new
/// unlocked copy of `{expr1}`, which is the result; `{expr1}` is left alone.
pub fn f_extendnew(argvars: &[typval_T], rettv: &mut typval_T)
    requires argvars@.len() >= 2, first_list_fits(argvars@[0]@),
    ensures
        match extend_outcome(argvars@, true, old(rettv)@) {
            None => final(rettv)@ == old(rettv)@,
            Some((_, ret)) => final(rettv)@ == ret,
        },
{
    match extend_exec(argvars, true, rettv) {
        None => {},
        Some((_, ret)) => { *rettv = ret; },
    }
}

// ── map(), filter(), mapnew() and foreach() ──

/// The four builtins that run an expression on each item.
#[derive(Clone, Copy, Debug, PartialEq, Eq, Structural)]
pub enum filtermap_T {
    FILTERMAP_FILTER,
    FILTERMAP_MAP,
    FILTERMAP_MAPNEW,
    FILTERMAP_FOREACH,
}

/// The model of an optional value.
pub open spec fn opt_view(r: Option<typval_T>) -> Option<TypVal> {
    match r { None => None, Some(v) => Some(v@) }
}

/// The model of the outcome of one step.
pub open spec fn step_view(r: Option<(typval_T, bool)>) -> Option<(TypVal, bool)> {
    match r { None => None, Some((v, rem)) => Some((v@, rem)) }
}

/// The models of the outcomes of several steps.
pub open spec fn steps_view(r: Seq<Option<(typval_T, bool)>>) -> Seq<Option<(TypVal, bool)>> {
    Seq::new(r.len(), |i: int| step_view(r[i]))
}

/// What one step makes of the evaluator's reply: the new value; for
/// "filter()" it must be a Number, and the item goes when it is zero.
pub open spec fn eval_step(fm: filtermap_T, res: Option<TypVal>) -> Option<(TypVal, bool)> {
    match res {
        None => None,
        Some(v) => if fm == filtermap_T::FILTERMAP_FILTER {
            match number_of(v) { None => None, Some(n) => Some((v, n == 0)) }
        } else {
            Some((v, false))
        },
    }
}

/// Whether `out` is what one step can give for the item `val` at `key`:
/// "foreach()" with a String runs it as a command (success gives an unknown
/// value); otherwise the evaluator is asked for the value of `expr` with
/// `v:key` and `v:val` set. Without the runner or evaluator asked, the step
/// fails.
pub open spec fn step_valid<E, C>(
    fm: filtermap_T, expr: TypVal, key: TypVal, val: TypVal,
    eval: Option<&E>, cmd: Option<&C>, out: Option<(TypVal, bool)>,
) -> bool
    where E: Fn(typval_T, typval_T, typval_T) -> Option<typval_T>, C: Fn(Vec<u8>, typval_T, typval_T) -> bool,
{
    if fm == filtermap_T::FILTERMAP_FOREACH && expr.ty == VarType::VAR_STRING {
        match cmd {
            None => out is None,
            Some(c) => exists|s: Vec<u8>, k: typval_T, v: typval_T, ok: bool|
                #![trigger c.ensures((s, k, v), ok)]
                s@ == string_or_empty(expr) && k@ == key && v@ == val && c.ensures((s, k, v), ok)
                && out == (if ok { Some((unknown_tv(), false)) } else { None }),
        }
    } else {
        match eval {
            None => out is None,
            Some(e) => exists|x: typval_T, k: typval_T, v: typval_T, res: Option<typval_T>|
                #![trigger e.ensures((x, k, v), res)]
                x@ == expr && k@ == key && v@ == val && e.ensures((x, k, v), res)
                && out == eval_step(fm, opt_view(res)),
        }
    }
}

/// Whether a step lets the work go on: it gave a value, which for a Blob
/// must be a Number or a Boolean (unless by "foreach()") and for a String a
/// String (by "map()" and "mapnew()").
pub open spec fn step_ok(fm: filtermap_T, kind: u8, out: Option<(TypVal, bool)>) -> bool {
    match out {
        None => false,
        Some((v, _)) => if kind == 1 {
            fm == filtermap_T::FILTERMAP_FOREACH || v.ty == VarType::VAR_NUMBER || v.ty == VarType::VAR_BOOL
        } else if kind == 2 {
            (fm == filtermap_T::FILTERMAP_MAP || fm == filtermap_T::FILTERMAP_MAPNEW) ==> v.ty == VarType::VAR_STRING
        } else {
            true
        },
    }
}

/// Whether `outs` are the outcomes of the steps run on `inputs` (key, value)
/// one after another, up to the first that does not let the work go on.
pub open spec fn steps_valid<E, C>(
    fm: filtermap_T, kind: u8, expr: TypVal, inputs: Seq<(TypVal, TypVal)>,
    outs: Seq<Option<(TypVal, bool)>>, eval: Option<&E>, cmd: Option<&C>,
) -> bool
    where E: Fn(typval_T, typval_T, typval_T) -> Option<typval_T>, C: Fn(Vec<u8>, typval_T, typval_T) -> bool,
{
    &&& outs.len() <= inputs.len()
    &&& forall|i: int| 0 <= i < outs.len() - 1 ==> #[trigger] step_ok(fm, kind, outs[i])
    &&& outs.len() < inputs.len() ==> outs.len() > 0 && !step_ok(fm, kind, outs.last())
    &&& forall|i: int| 0 <= i < outs.len() ==> #[trigger] step_valid(fm, expr, inputs[i].0, inputs[i].1, eval, cmd, outs[i])
}

/// How many steps let the work go on.
pub open spec fn steps_done(fm: filtermap_T, kind: u8, outs: Seq<Option<(TypVal, bool)>>) -> int {
    if outs.len() > 0 && !step_ok(fm, kind, outs.last()) { outs.len() - 1 } else { outs.len() as int }
}

/// Whether the evaluator and the command runner accept any arguments.
pub open spec fn callbacks_ready<E, C>(eval: Option<&E>, cmd: Option<&C>) -> bool
    where E: Fn(typval_T, typval_T, typval_T) -> Option<typval_T>, C: Fn(Vec<u8>, typval_T, typval_T) -> bool,
{
    &&& (match eval { Some(e) => forall|x: typval_T, k: typval_T, v: typval_T| #[trigger] e.requires((x, k, v)), None => true })
    &&& (match cmd { Some(c) => forall|s: Vec<u8>, k: typval_T, v: typval_T| #[trigger] c.requires((s, k, v)), None => true })
}

fn unknown_exec() -> (r: typval_T)
    ensures r@ == unknown_tv(),
{
    typval_T { v_type: VarType::VAR_UNKNOWN, v_lock: VarLockStatus::VAR_UNLOCKED, vval: typval_vval_union::v_number(0) }
}

/// One step: the new value for the item `tv` at `key`, and (for "filter()")
/// whether it goes; `None` when the step fails.
fn filter_map_one<E, C>(
    tv: &typval_T, key: &typval_T, expr: &typval_T, fm: filtermap_T, eval: Option<&E>, cmd: Option<&C>,
) -> (r: Option<(typval_T, bool)>)
    where E: Fn(typval_T, typval_T, typval_T) -> Option<typval_T>, C: Fn(Vec<u8>, typval_T, typval_T) -> bool,
    requires callbacks_ready(eval, cmd),
    ensures step_valid(fm, expr@, key@, tv@, eval, cmd, step_view(r)),
{
    if fm == filtermap_T::FILTERMAP_FOREACH && expr.v_type == VarType::VAR_STRING {
        match cmd {
            None => None,
            Some(c) => {
                let s = tv_get_string(expr);
                let k = tv_dup(key);
                let v = tv_dup(tv);
                let ghost (gs, gk, gv) = (s, k, v);
                let ok = c(s, k, v);
                let r = if ok { Some((unknown_exec(), false)) } else { None };
                assert(c.ensures((gs, gk, gv), ok));
                r
            },
        }
    } else {
        match eval {
            None => None,
            Some(e) => {
                let x = tv_dup(expr);
                let k = tv_dup(key);
                let v = tv_dup(tv);
                let ghost (gx, gk, gv) = (x, k, v);
                let res = e(x, k, v);
                let ghost gres = res;
                assert(e.ensures((gx, gk, gv), gres));
                match res {
                    None => None,
                    Some(nv) => {
                        if fm == filtermap_T::FILTERMAP_FILTER {
                            let mut error = false;
                            let n = tv_get_number_chk(&nv, Some(&mut error));
                            if error { None } else { Some((nv, n == 0)) }
                        } else {
                            Some((nv, false))
                        }
                    },
                }
            },
        }
    }
}

fn step_ok_exec(fm: filtermap_T, kind: u8, out: &Option<(typval_T, bool)>) -> (r: bool)
    ensures r == step_ok(fm, kind, step_view(*out)),
{
    match out {
        None => false,
        Some((v, _)) => if kind == 1 {
            fm == filtermap_T::FILTERMAP_FOREACH || v.v_type == VarType::VAR_NUMBER || v.v_type == VarType::VAR_BOOL
        } else if kind == 2 {
            !(fm == filtermap_T::FILTERMAP_MAP || fm == filtermap_T::FILTERMAP_MAPNEW) || v.v_type == VarType::VAR_STRING
        } else {
            true
        },
    }
}

/// The models of (key, value) pairs.
pub open spec fn pairs_view(p: Seq<(typval_T, typval_T)>) -> Seq<(TypVal, TypVal)> {
    Seq::new(p.len(), |i: int| (p[i].0@, p[i].1@))
}

/// Run the steps on `inputs` one after another, up to the first that does
/// not let the work go on; their outcomes.
fn run_steps<E, C>(
    inputs: &Vec<(typval_T, typval_T)>, fm: filtermap_T, kind: u8, expr: &typval_T, eval: Option<&E>, cmd: Option<&C>,
) -> (r: Vec<Option<(typval_T, bool)>>)
    where E: Fn(typval_T, typval_T, typval_T) -> Option<typval_T>, C: Fn(Vec<u8>, typval_T, typval_T) -> bool,
    requires callbacks_ready(eval, cmd),
    ensures steps_valid(fm, kind, expr@, pairs_view(inputs@), steps_view(r@), eval, cmd),
{
    let ghost ins = pairs_view(inputs@);
    let mut out: Vec<Option<(typval_T, bool)>> = Vec::new();
    let mut i: usize = 0;
    let mut stop = false;
    while i < inputs.len() && !stop
        invariant
            i <= inputs@.len(), out@.len() == i, ins == pairs_view(inputs@), ins.len() == inputs@.len(),
            callbacks_ready(eval, cmd),
            forall|j: int| 0 <= j < i ==> #[trigger] step_valid(fm, expr@, ins[j].0, ins[j].1, eval, cmd, step_view(out@[j])),
            forall|j: int| 0 <= j < i - 1 ==> #[trigger] step_ok(fm, kind, step_view(out@[j])),
            stop ==> i > 0 && !step_ok(fm, kind, step_view(out@[i - 1])),
            !stop && i > 0 ==> step_ok(fm, kind, step_view(out@[i - 1])),
        decreases inputs.len() - i + (if stop { 0int } else { 1int }),
    {
        let res = filter_map_one(&inputs[i].1, &inputs[i].0, expr, fm, eval, cmd);
        let good = step_ok_exec(fm, kind, &res);
        out.push(res);
        i += 1;
        if !good {
            stop = true;
        }
    }
    let ghost sv = steps_view(out@);
    assert forall|j: int| 0 <= j < sv.len() implies #[trigger] step_valid(fm, expr@, ins[j].0, ins[j].1, eval, cmd, sv[j]) by {
        assert(sv[j] == step_view(out@[j]));
    }
    assert forall|j: int| 0 <= j < sv.len() - 1 implies #[trigger] step_ok(fm, kind, sv[j]) by {
        assert(sv[j] == step_view(out@[j]));
    }
    out
}

/// The new values of the first `p` steps.
pub open spec fn new_vals(outs: Seq<Option<(TypVal, bool)>>, p: int) -> Seq<TypVal> {
    Seq::new(p as nat, |i: int| outs[i]->Some_0.0)
}

/// The items among the first `p` whose step did not remove them.
pub open spec fn kept<T>(items: Seq<T>, outs: Seq<Option<(TypVal, bool)>>, p: int) -> Seq<T>
    decreases p,
{
    if p <= 0 {
        Seq::empty()
    } else {
        kept(items, outs, p - 1) + (if outs[p - 1]->Some_0.1 { Seq::empty() } else { seq![items[p - 1]] })
    }
}

/// The bytes the first `p` steps give a Blob.
pub open spec fn new_bytes(outs: Seq<Option<(TypVal, bool)>>, p: int) -> Seq<u8> {
    Seq::new(p as nat, |i: int| low_byte(number_chk_result(outs[i]->Some_0.0, false)))
}

/// Byte strings one after another.
pub open spec fn concat(pieces: Seq<Seq<u8>>) -> Seq<u8>
    decreases pieces.len(),
{
    if pieces.len() == 0 { Seq::empty() } else { concat(pieces.drop_last()) + pieces.last() }
}

/// The items of a List (or the values of a Dict) once `p` steps went well.
pub open spec fn items_result(fm: filtermap_T, items: Seq<TypVal>, outs: Seq<Option<(TypVal, bool)>>, p: int) -> Seq<TypVal> {
    match fm {
        filtermap_T::FILTERMAP_MAP => new_vals(outs, p) + items.subrange(p, items.len() as int),
        filtermap_T::FILTERMAP_FILTER => kept(items, outs, p) + items.subrange(p, items.len() as int),
        filtermap_T::FILTERMAP_MAPNEW => new_vals(outs, p),
        filtermap_T::FILTERMAP_FOREACH => items,
    }
}

/// The String "map()" and the others make of the characters `chars` once
/// `p` steps went well.
pub open spec fn string_result(fm: filtermap_T, chars: Seq<Seq<u8>>, outs: Seq<Option<(TypVal, bool)>>, p: int) -> Seq<u8> {
    match fm {
        filtermap_T::FILTERMAP_MAP | filtermap_T::FILTERMAP_MAPNEW =>
            concat(Seq::new(p as nat, |i: int| string_or_empty(outs[i]->Some_0.0))),
        filtermap_T::FILTERMAP_FILTER => concat(kept(chars, outs, p)),
        filtermap_T::FILTERMAP_FOREACH => concat(chars.subrange(0, p)),
    }
}

/// The (key, value) pairs the steps run on: index and item of a List, key
/// and value of a Dict, index and byte of a Blob, index and character of a
/// String.
pub open spec fn fm_inputs(a: TypVal) -> Seq<(TypVal, TypVal)> {
    match (a.ty, a.v) {
        (VarType::VAR_DICT, VVal::Dict(Some(d))) => Seq::new(d.vals.len(), |i: int| (str_tv(d.keys[i]), d.vals[i])),
        (VarType::VAR_BLOB, VVal::Blob(Some(b))) => Seq::new(b.bytes.len(), |i: int| (num_tv(i), num_tv(b.bytes[i] as int))),
        (VarType::VAR_STRING, _) => {
            let cs = utf8_split(string_or_empty(a));
            Seq::new(cs.len(), |i: int| (num_tv(i), str_tv(cs[i])))
        },
        (VarType::VAR_LIST, VVal::List(Some(l))) => Seq::new(l.items.len(), |i: int| (num_tv(i), l.items[i])),
        _ => Seq::empty(),
    }
}

/// Which check a step's value must pass: 1 for a Blob, 2 for a String.
pub open spec fn fm_kind(a: TypVal) -> u8 {
    if a.ty == VarType::VAR_BLOB { 1 } else if a.ty == VarType::VAR_STRING { 2 } else { 0 }
}

/// Whether the builtin runs any step: the first argument is a String or a
/// List, Dict or Blob that exists (and, for "filter()", is not locked), and
/// there is an expression.
pub open spec fn fm_runs(fm: filtermap_T, args: Seq<typval_T>) -> bool {
    let a = args[0]@;
    let locked_ok = |lock: VarLockStatus| !(fm == filtermap_T::FILTERMAP_FILTER && lock != VarLockStatus::VAR_UNLOCKED);
    &&& args.len() >= 2
    &&& args[1]@.ty != VarType::VAR_UNKNOWN
    &&& match (a.ty, a.v) {
        (VarType::VAR_DICT, VVal::Dict(Some(d))) => locked_ok(d.lock),
        (VarType::VAR_BLOB, VVal::Blob(Some(b))) => locked_ok(b.lock),
        (VarType::VAR_STRING, _) => true,
        (VarType::VAR_LIST, VVal::List(Some(l))) => locked_ok(l.lock),
        _ => false,
    }
}

/// The first argument and the result once the steps gave `outs`.
pub open spec fn fm_outcome(fm: filtermap_T, args: Seq<typval_T>, old_ret: TypVal, outs: Seq<Option<(TypVal, bool)>>) -> (TypVal, TypVal) {
    let a = args[0]@;
    let p = steps_done(fm, fm_kind(a), outs);
    if !fm_runs(fm, args) {
        (a, if fm != filtermap_T::FILTERMAP_MAPNEW && a.ty != VarType::VAR_STRING { a } else { old_ret })
    } else {
        match (a.ty, a.v) {
            (VarType::VAR_DICT, VVal::Dict(Some(d))) => match fm {
                filtermap_T::FILTERMAP_MAPNEW => (a, with_dict(old_ret, DictVal { keys: d.keys.subrange(0, p), vals: new_vals(outs, p), ..empty_dict_val() })),
                filtermap_T::FILTERMAP_FOREACH => (a, a),
                filtermap_T::FILTERMAP_MAP => {
                    let na = TypVal { v: VVal::Dict(Some(DictVal { vals: items_result(fm, d.vals, outs, p), ..d })), ..a };
                    (na, na)
                },
                filtermap_T::FILTERMAP_FILTER => {
                    let na = TypVal { v: VVal::Dict(Some(DictVal {
                        keys: kept(d.keys, outs, p) + d.keys.subrange(p, d.keys.len() as int),
                        vals: items_result(fm, d.vals, outs, p),
                        ..d
                    })), ..a };
                    (na, na)
                },
            },
            (VarType::VAR_BLOB, VVal::Blob(Some(b))) => match fm {
                filtermap_T::FILTERMAP_MAPNEW => (a, with_blob(old_ret, new_bytes(outs, p) + b.bytes.subrange(p, b.bytes.len() as int))),
                filtermap_T::FILTERMAP_FOREACH => (a, a),
                filtermap_T::FILTERMAP_MAP => {
                    let na = blob_with_bytes(a, b, new_bytes(outs, p) + b.bytes.subrange(p, b.bytes.len() as int));
                    (na, na)
                },
                filtermap_T::FILTERMAP_FILTER => {
                    let na = blob_with_bytes(a, b, kept(b.bytes, outs, p) + b.bytes.subrange(p, b.bytes.len() as int));
                    (na, na)
                },
            },
            (VarType::VAR_STRING, _) => (a, with_string(old_ret, string_result(fm, utf8_split(string_or_empty(a)), outs, p))),
            (VarType::VAR_LIST, VVal::List(Some(l))) => match fm {
                filtermap_T::FILTERMAP_MAPNEW => (a, with_list(old_ret, items_result(fm, l.items, outs, p))),
                filtermap_T::FILTERMAP_FOREACH => (a, a),
                _ => {
                    let na = list_with_items(a, l, items_result(fm, l.items, outs, p));
                    (na, na)
                },
            },
            _ => (a, old_ret),
        }
    }
}

/// Whether the sizes of what a value holds fit a Number: the steps number
/// their items.
pub open spec fn fm_sizes_fit(a: TypVal) -> bool {
    match a.v {
        VVal::List(Some(l)) => l.items.len() <= i64::MAX,
        VVal::Blob(Some(b)) => b.bytes.len() <= i64::MAX,
        VVal::Str(s) => s.len() <= i64::MAX,
        _ => true,
    }
}

fn nr_exec(n: i64) -> (r: typval_T)
    ensures r@ == num_tv(n as int),
{
    typval_T { v_type: VarType::VAR_NUMBER, v_lock: VarLockStatus::VAR_UNLOCKED, vval: typval_vval_union::v_number(n) }
}

fn str_exec(s: Vec<u8>) -> (r: typval_T)
    ensures r@ == str_tv(s@),
{
    typval_T { v_type: VarType::VAR_STRING, v_lock: VarLockStatus::VAR_UNLOCKED, vval: typval_vval_union::v_string(s) }
}

proof fn lemma_utf8_split_count(s: Seq<u8>)
    ensures utf8_split(s).len() <= s.len(),
    decreases s.len(),
{
    if s.len() > 0 {
        let n = char_len_at(s, 0);
        lemma_utf8_split_count(s.subrange(n, s.len() as int));
    }
}

/// The (key, value) pairs the steps run on.
fn build_inputs(a: &typval_T) -> (r: Vec<(typval_T, typval_T)>)
    requires fm_sizes_fit(a@),
    ensures pairs_view(r@) == fm_inputs(a@),
{
    let mut out: Vec<(typval_T, typval_T)> = Vec::new();
    match (&a.v_type, &a.vval) {
        (VarType::VAR_DICT, typval_vval_union::v_dict(Some(d))) => {
            proof { lemma_dict_view_parts(*d); }
            let mut i: usize = 0;
            while i < d.dv_hashtab.len()
                invariant
                    i <= d.dv_hashtab@.len(), out@.len() == i,
                    forall|j: int| 0 <= j < i ==> (#[trigger] out@[j]).0@ == str_tv(d@.keys[j]) && out@[j].1@ == d@.vals[j],
                decreases d.dv_hashtab.len() - i,
            {
                let k = str_exec(bytes_dup(&d.dv_hashtab[i].di_key));
                let v = tv_dup(&d.dv_hashtab[i].di_tv);
                out.push((k, v));
                i += 1;
            }
            assert(pairs_view(out@) =~= fm_inputs(a@));
        },
        (VarType::VAR_BLOB, typval_vval_union::v_blob(Some(b))) => {
            let mut i: usize = 0;
            while i < b.bv_ga.len()
                invariant
                    i <= b.bv_ga@.len(), out@.len() == i, b.bv_ga@.len() <= i64::MAX,
                    forall|j: int| 0 <= j < i ==> (#[trigger] out@[j]).0@ == num_tv(j) && out@[j].1@ == num_tv(b.bv_ga@[j] as int),
                decreases b.bv_ga.len() - i,
            {
                out.push((nr_exec(i as i64), nr_exec(b.bv_ga[i] as i64)));
                i += 1;
            }
            assert(pairs_view(out@) =~= fm_inputs(a@));
        },
        (VarType::VAR_STRING, _) => {
            let s = tv_get_string(a);
            let cs = utf8_chars(s.as_slice());
            proof { lemma_utf8_split_count(s@); }
            let mut i: usize = 0;
            while i < cs.len()
                invariant
                    i <= cs@.len(), out@.len() == i, cs@.len() <= s@.len(), s@.len() <= i64::MAX,
                    s@ == string_or_empty(a@),
                    cs@.len() == utf8_split(s@).len(),
                    forall|k: int| 0 <= k < cs@.len() ==> #[trigger] cs@[k]@ == utf8_split(s@)[k],
                    forall|j: int| 0 <= j < i ==> (#[trigger] out@[j]).0@ == num_tv(j) && out@[j].1@ == str_tv(utf8_split(s@)[j]),
                decreases cs.len() - i,
            {
                out.push((nr_exec(i as i64), str_exec(bytes_dup(&cs[i]))));
                i += 1;
            }
            assert(pairs_view(out@) =~= fm_inputs(a@));
        },
        (VarType::VAR_LIST, typval_vval_union::v_list(Some(l))) => {
            proof { lemma_items_view_index_all(l.lv_items@); }
            let mut i: usize = 0;
            while i < l.lv_items.len()
                invariant
                    i <= l.lv_items@.len(), out@.len() == i, l.lv_items@.len() <= i64::MAX,
                    forall|j: int| 0 <= j < i ==> (#[trigger] out@[j]).0@ == num_tv(j) && out@[j].1@ == l@.items[j],
                decreases l.lv_items.len() - i,
            {
                out.push((nr_exec(i as i64), tv_dup(&l.lv_items[i])));
                i += 1;
            }
            assert(pairs_view(out@) =~= fm_inputs(a@));
        },
        _ => {
            assert(pairs_view(out@) =~= fm_inputs(a@));
        },
    }
    out
}

fn steps_done_exec(fm: filtermap_T, kind: u8, outs: &Vec<Option<(typval_T, bool)>>) -> (r: usize)
    ensures r as int == steps_done(fm, kind, steps_view(outs@)),
{
    let n = outs.len();
    if n > 0 && !step_ok_exec(fm, kind, &outs[n - 1]) { n - 1 } else { n }
}

/// The value a successful step gave.
fn out_value(outs: &Vec<Option<(typval_T, bool)>>, i: usize) -> (r: (typval_T, bool))
    requires i < outs@.len(), outs@[i as int] is Some,
    ensures r.0@ == steps_view(outs@)[i as int]->Some_0.0, r.1 == steps_view(outs@)[i as int]->Some_0.1,
{
    match &outs[i] {
        Some((v, rem)) => (tv_dup(v), *rem),
        None => (unknown_exec(), false),
    }
}

/// The items of a List, or values of a Dict, once `p` steps went well.
#[verifier::loop_isolation(false)]
fn combine_items(fm: filtermap_T, items: &Vec<typval_T>, outs: &Vec<Option<(typval_T, bool)>>, p: usize) -> (r: Vec<typval_T>)
    requires
        p <= outs@.len(), p <= items@.len(),
        forall|i: int| 0 <= i < p ==> (#[trigger] outs@[i]) is Some,
    ensures items_view(r@) == items_result(fm, items_view(items@), steps_view(outs@), p as int),
{
    let ghost sv = steps_view(outs@);
    let ghost iv = items_view(items@);
    proof { lemma_items_view_index_all(items@); }
    if fm == filtermap_T::FILTERMAP_FOREACH {
        let mut r: Vec<typval_T> = Vec::new();
        push_dups(&mut r, items, 0, items.len());
        proof { lemma_items_view_empty(); }
        assert(iv.subrange(0, iv.len() as int) =~= iv);
        assert(Seq::<TypVal>::empty() + iv =~= iv);
        return r;
    }
    let mut out: Vec<typval_T> = Vec::new();
    proof { lemma_items_view_empty(); }
    let mut i: usize = 0;
    while i < p
        invariant
            i <= p,
            fm == filtermap_T::FILTERMAP_FILTER ==> items_view(out@) == kept(iv, sv, i as int),
            fm != filtermap_T::FILTERMAP_FILTER ==> items_view(out@) == new_vals(sv, i as int),
        decreases p - i,
    {
        let (v, rem) = out_value(outs, i);
        let ghost before = out@;
        if fm == filtermap_T::FILTERMAP_FILTER {
            if !rem {
                let it = tv_dup(&items[i]);
                proof { lemma_items_view_push(out@, it); }
                out.push(it);
                assert(kept(iv, sv, i + 1) =~= kept(iv, sv, i as int) + seq![iv[i as int]]);
            } else {
                assert(kept(iv, sv, i + 1) =~= kept(iv, sv, i as int));
            }
        } else {
            proof { lemma_items_view_push(out@, v); }
            out.push(v);
            assert(new_vals(sv, i + 1) =~= new_vals(sv, i as int).push(sv[i as int]->Some_0.0));
        }
        i += 1;
    }
    if fm == filtermap_T::FILTERMAP_MAPNEW {
        return out;
    }
    let ghost mid = items_view(out@);
    push_dups(&mut out, items, p, items.len());
    out
}

/// The Dict "map()", "filter()" or "mapnew()" makes once `p` steps went well.
#[verifier::loop_isolation(false)]
fn combine_dict(fm: filtermap_T, d: &dict_T, outs: &Vec<Option<(typval_T, bool)>>, p: usize) -> (r: dict_T)
    requires
        fm != filtermap_T::FILTERMAP_FOREACH,
        p <= outs@.len(), p <= d.dv_hashtab@.len(),
        forall|i: int| 0 <= i < p ==> (#[trigger] outs@[i]) is Some,
    ensures
        r@ == (match fm {
            filtermap_T::FILTERMAP_MAPNEW => DictVal { keys: d@.keys.subrange(0, p as int), vals: new_vals(steps_view(outs@), p as int), ..empty_dict_val() },
            filtermap_T::FILTERMAP_MAP => DictVal { vals: items_result(fm, d@.vals, steps_view(outs@), p as int), ..d@ },
            _ => DictVal {
                keys: kept(d@.keys, steps_view(outs@), p as int) + d@.keys.subrange(p as int, d@.keys.len() as int),
                vals: items_result(fm, d@.vals, steps_view(outs@), p as int),
                ..d@
            },
        }),
{
    let ghost sv = steps_view(outs@);
    proof { lemma_dict_view_parts(*d); }
    let ghost keys = d@.keys;
    let ghost vals = d@.vals;
    let mut out: Vec<dictitem_T> = Vec::new();
    let ghost mut ks: Seq<Seq<u8>> = Seq::empty();
    let ghost mut vs: Seq<TypVal> = Seq::empty();
    let mut i: usize = 0;
    while i < p
        invariant
            i <= p,
            out@.len() == ks.len(), ks.len() == vs.len(),
            forall|j: int| 0 <= j < out@.len() ==> (#[trigger] out@[j]).di_key@ == ks[j] && out@[j].di_tv@ == vs[j],
            fm == filtermap_T::FILTERMAP_FILTER ==> ks == kept(keys, sv, i as int) && vs == kept(vals, sv, i as int),
            fm != filtermap_T::FILTERMAP_FILTER ==> ks == keys.subrange(0, i as int) && vs == new_vals(sv, i as int),
        decreases p - i,
    {
        let (v, rem) = out_value(outs, i);
        if fm == filtermap_T::FILTERMAP_FILTER {
            if !rem {
                out.push(dictitem_T { di_key: bytes_dup(&d.dv_hashtab[i].di_key), di_tv: tv_dup(&d.dv_hashtab[i].di_tv) });
                proof {
                    ks = ks.push(keys[i as int]);
                    vs = vs.push(vals[i as int]);
                }
                assert(kept(keys, sv, i + 1) =~= kept(keys, sv, i as int) + seq![keys[i as int]]);
                assert(kept(vals, sv, i + 1) =~= kept(vals, sv, i as int) + seq![vals[i as int]]);
            } else {
                assert(kept(keys, sv, i + 1) =~= kept(keys, sv, i as int));
                assert(kept(vals, sv, i + 1) =~= kept(vals, sv, i as int));
            }
        } else {
            out.push(dictitem_T { di_key: bytes_dup(&d.dv_hashtab[i].di_key), di_tv: v });
            proof {
                ks = ks.push(keys[i as int]);
                vs = vs.push(sv[i as int]->Some_0.0);
            }
            assert(keys.subrange(0, i + 1) =~= keys.subrange(0, i as int).push(keys[i as int]));
            assert(new_vals(sv, i + 1) =~= new_vals(sv, i as int).push(sv[i as int]->Some_0.0));
        }
        i += 1;
    }
    if fm == filtermap_T::FILTERMAP_MAPNEW {
        let r = dict_T { dv_hashtab: out, dv_lock: VarLockStatus::VAR_UNLOCKED, dv_refcount: 0, dv_watchers: Vec::new() };
        proof { lemma_dict_view_parts(r); }
        assert(r@.keys =~= keys.subrange(0, p as int));
        assert(r@.vals =~= new_vals(sv, p as int));
        assert(r@.watchers =~= Seq::<WatcherVal>::empty());
        return r;
    }
    let ghost ks0 = ks;
    let ghost vs0 = vs;
    while i < d.dv_hashtab.len()
        invariant
            p <= i <= d.dv_hashtab@.len(),
            out@.len() == ks.len(), ks.len() == vs.len(),
            forall|j: int| 0 <= j < out@.len() ==> (#[trigger] out@[j]).di_key@ == ks[j] && out@[j].di_tv@ == vs[j],
            ks == ks0 + keys.subrange(p as int, i as int),
            vs == vs0 + vals.subrange(p as int, i as int),
        decreases d.dv_hashtab.len() - i,
    {
        out.push(dictitem_T { di_key: bytes_dup(&d.dv_hashtab[i].di_key), di_tv: tv_dup(&d.dv_hashtab[i].di_tv) });
        proof {
            ks = ks.push(keys[i as int]);
            vs = vs.push(vals[i as int]);
        }
        assert(keys.subrange(p as int, i + 1) =~= keys.subrange(p as int, i as int).push(keys[i as int]));
        assert(vals.subrange(p as int, i + 1) =~= vals.subrange(p as int, i as int).push(vals[i as int]));
        i += 1;
    }
    let mut r = dict_dup(d);
    r.dv_hashtab = out;
    proof { lemma_dict_view_parts(r); }
    assert(r@.keys =~= ks);
    assert(r@.vals =~= vs);
    if fm == filtermap_T::FILTERMAP_MAP {
        assert(ks0 =~= keys.subrange(0, p as int));
        assert(ks =~= keys);
    }
    r
}

/// The bytes of a Blob once `p` steps went well.
#[verifier::loop_isolation(false)]
fn combine_bytes(fm: filtermap_T, bytes: &Vec<u8>, outs: &Vec<Option<(typval_T, bool)>>, p: usize) -> (r: Vec<u8>)
    requires
        fm != filtermap_T::FILTERMAP_FOREACH,
        p <= outs@.len(), p <= bytes@.len(),
        forall|i: int| 0 <= i < p ==> (#[trigger] outs@[i]) is Some,
    ensures
        r@ == (if fm == filtermap_T::FILTERMAP_FILTER { kept(bytes@, steps_view(outs@), p as int) } else { new_bytes(steps_view(outs@), p as int) })
            + bytes@.subrange(p as int, bytes@.len() as int),
{
    let ghost sv = steps_view(outs@);
    let mut out: Vec<u8> = Vec::new();
    let mut i: usize = 0;
    while i < p
        invariant
            i <= p,
            fm == filtermap_T::FILTERMAP_FILTER ==> out@ == kept(bytes@, sv, i as int),
            fm != filtermap_T::FILTERMAP_FILTER ==> out@ == new_bytes(sv, i as int),
        decreases p - i,
    {
        let (v, rem) = out_value(outs, i);
        if fm == filtermap_T::FILTERMAP_FILTER {
            if !rem {
                out.push(bytes[i]);
                assert(kept(bytes@, sv, i + 1) =~= kept(bytes@, sv, i as int) + seq![bytes@[i as int]]);
            } else {
                assert(kept(bytes@, sv, i + 1) =~= kept(bytes@, sv, i as int));
            }
        } else {
            let n = tv_get_number_chk(&v, None);
            out.push(low_byte_exec(n));
            assert(new_bytes(sv, i + 1) =~= new_bytes(sv, i as int).push(low_byte(number_chk_result(sv[i as int]->Some_0.0, false))));
        }
        i += 1;
    }
    let ghost mid = out@;
    let mut j: usize = p;
    while j < bytes.len()
        invariant p <= j <= bytes@.len(), out@ == mid + bytes@.subrange(p as int, j as int),
        decreases bytes.len() - j,
    {
        out.push(bytes[j]);
        assert(bytes@.subrange(p as int, j + 1) =~= bytes@.subrange(p as int, j as int).push(bytes@[j as int]));
        j += 1;
    }
    out
}

/// The String "map()" and the others make once `p` steps went well.
#[verifier::loop_isolation(false)]
fn combine_string(fm: filtermap_T, s: &Vec<u8>, outs: &Vec<Option<(typval_T, bool)>>, p: usize) -> (r: Vec<u8>)
    requires
        p <= outs@.len(), p <= utf8_split(s@).len(),
        forall|i: int| 0 <= i < p ==> (#[trigger] outs@[i]) is Some,
    ensures r@ == string_result(fm, utf8_split(s@), steps_view(outs@), p as int),
{
    let ghost sv = steps_view(outs@);
    let ghost chars = utf8_split(s@);
    let cs = utf8_chars(s.as_slice());
    let ghost mapped = Seq::new(p as nat, |k: int| string_or_empty(sv[k]->Some_0.0));
    let mut out: Vec<u8> = Vec::new();
    let ghost mut pieces: Seq<Seq<u8>> = Seq::empty();
    let mut i: usize = 0;
    while i < p
        invariant
            i <= p,
            out@ == concat(pieces),
            (fm == filtermap_T::FILTERMAP_MAP || fm == filtermap_T::FILTERMAP_MAPNEW) ==> pieces == mapped.subrange(0, i as int),
            fm == filtermap_T::FILTERMAP_FILTER ==> pieces == kept(chars, sv, i as int),
            fm == filtermap_T::FILTERMAP_FOREACH ==> pieces == chars.subrange(0, i as int),
        decreases p - i,
    {
        let (v, rem) = out_value(outs, i);
        if fm == filtermap_T::FILTERMAP_MAP || fm == filtermap_T::FILTERMAP_MAPNEW {
            let piece = tv_get_string(&v);
            append_bytes(&mut out, piece.as_slice());
            proof { pieces = pieces.push(piece@); }
            assert(pieces.drop_last() =~= mapped.subrange(0, i as int));
            assert(mapped.subrange(0, i + 1) =~= mapped.subrange(0, i as int).push(mapped[i as int]));
        } else if fm == filtermap_T::FILTERMAP_FILTER {
            if !rem {
                append_bytes(&mut out, cs[i].as_slice());
                proof { pieces = pieces.push(chars[i as int]); }
                assert(kept(chars, sv, i + 1) =~= kept(chars, sv, i as int) + seq![chars[i as int]]);
                assert(pieces.drop_last() =~= kept(chars, sv, i as int));
            } else {
                assert(kept(chars, sv, i + 1) =~= kept(chars, sv, i as int));
            }
        } else {
            append_bytes(&mut out, cs[i].as_slice());
            proof { pieces = pieces.push(chars[i as int]); }
            assert(chars.subrange(0, i + 1) =~= chars.subrange(0, i as int).push(chars[i as int]));
            assert(pieces.drop_last() =~= chars.subrange(0, i as int));
        }
        i += 1;
    }
    if fm == filtermap_T::FILTERMAP_MAP || fm == filtermap_T::FILTERMAP_MAPNEW {
        assert(mapped.subrange(0, p as int) =~= mapped);
    }
    out
}

proof fn lemma_done_steps_some(fm: filtermap_T, kind: u8, outs: Seq<Option<(TypVal, bool)>>, n: int)
    requires
        outs.len() <= n,
        forall|i: int| 0 <= i < outs.len() - 1 ==> #[trigger] step_ok(fm, kind, outs[i]),
    ensures
        steps_done(fm, kind, outs) <= n,
        forall|i: int| 0 <= i < steps_done(fm, kind, outs) ==> (#[trigger] outs[i]) is Some,
{
    assert forall|i: int| 0 <= i < steps_done(fm, kind, outs) implies (#[trigger] outs[i]) is Some by {
        if i < outs.len() - 1 {
            assert(step_ok(fm, kind, outs[i]));
        } else {
            assert(step_ok(fm, kind, outs.last()));
        }
    }
}

/// Run "map()", "filter()", "mapnew()" or "foreach()": the new first
/// argument and the result.
#[verifier::rlimit(40)]
fn fm_apply<E, C>(argvars: &[typval_T], old_ret: &typval_T, fm: filtermap_T, eval: Option<&E>, cmd: Option<&C>) -> (r: (typval_T, typval_T))
    where E: Fn(typval_T, typval_T, typval_T) -> Option<typval_T>, C: Fn(Vec<u8>, typval_T, typval_T) -> bool,
    requires argvars@.len() >= 1, callbacks_ready(eval, cmd), fm_sizes_fit(argvars@[0]@),
    ensures
        exists|outs: Seq<Option<(TypVal, bool)>>| #![trigger fm_outcome(fm, argvars@, old_ret@, outs)]
            (if fm_runs(fm, argvars@) {
                steps_valid(fm, fm_kind(argvars@[0]@), argvars@[1]@, fm_inputs(argvars@[0]@), outs, eval, cmd)
            } else {
                outs.len() == 0
            })
            && r.0@ == fm_outcome(fm, argvars@, old_ret@, outs).0 && r.1@ == fm_outcome(fm, argvars@, old_ret@, outs).1,
{
    let a = &argvars[0];
    let filter = fm == filtermap_T::FILTERMAP_FILTER;
    let runs: bool = argvars.len() >= 2 && argvars[1].v_type != VarType::VAR_UNKNOWN && match (&a.v_type, &a.vval) {
        (VarType::VAR_DICT, typval_vval_union::v_dict(Some(d))) => !(filter && d.dv_lock != VarLockStatus::VAR_UNLOCKED),
        (VarType::VAR_BLOB, typval_vval_union::v_blob(Some(b))) => !(filter && b.bv_lock != VarLockStatus::VAR_UNLOCKED),
        (VarType::VAR_STRING, _) => true,
        (VarType::VAR_LIST, typval_vval_union::v_list(Some(l))) => !(filter && l.lv_lock != VarLockStatus::VAR_UNLOCKED),
        _ => false,
    };
    assert(runs == fm_runs(fm, argvars@));
    if !runs {
        let ret = if fm != filtermap_T::FILTERMAP_MAPNEW && a.v_type != VarType::VAR_STRING { tv_dup(a) } else { tv_dup(old_ret) };
        let na = tv_dup(a);
        assert(na@ == fm_outcome(fm, argvars@, old_ret@, Seq::<Option<(TypVal, bool)>>::empty()).0);
        return (na, ret);
    }
    let kind: u8 = if a.v_type == VarType::VAR_BLOB { 1 } else if a.v_type == VarType::VAR_STRING { 2 } else { 0 };
    let inputs = build_inputs(a);
    let outs = run_steps(&inputs, fm, kind, &argvars[1], eval, cmd);
    let p = steps_done_exec(fm, kind, &outs);
    let ghost sv = steps_view(outs@);
    proof {
        lemma_done_steps_some(fm, kind, sv, inputs@.len() as int);
        assert forall|i: int| 0 <= i < p implies (#[trigger] outs@[i]) is Some by {
            assert(sv[i] is Some);
        }
    }
    let ghost out_a = fm_outcome(fm, argvars@, old_ret@, sv);
    match (&a.v_type, &a.vval) {
        (VarType::VAR_DICT, typval_vval_union::v_dict(Some(d))) => {
            proof { lemma_dict_view_parts(*d); }
            if fm == filtermap_T::FILTERMAP_FOREACH {
                (tv_dup(a), tv_dup(a))
            } else {
                let nd = combine_dict(fm, d, &outs, p);
                if fm == filtermap_T::FILTERMAP_MAPNEW {
                    let mut ret = tv_dup(old_ret);
                    ret.v_type = VarType::VAR_DICT;
                    ret.vval = typval_vval_union::v_dict(Some(nd));
                    (tv_dup(a), ret)
                } else {
                    let na = typval_T { v_type: a.v_type, v_lock: a.v_lock, vval: typval_vval_union::v_dict(Some(nd)) };
                    let ret = tv_dup(&na);
                    (na, ret)
                }
            }
        },
        (VarType::VAR_BLOB, typval_vval_union::v_blob(Some(b))) => {
            if fm == filtermap_T::FILTERMAP_FOREACH {
                (tv_dup(a), tv_dup(a))
            } else {
                let nb = combine_bytes(fm, &b.bv_ga, &outs, p);
                if fm == filtermap_T::FILTERMAP_MAPNEW {
                    let mut ret = tv_dup(old_ret);
                    ret.v_type = VarType::VAR_BLOB;
                    ret.vval = typval_vval_union::v_blob(Some(blob_T { bv_ga: nb, bv_lock: VarLockStatus::VAR_UNLOCKED, bv_refcount: 0 }));
                    (tv_dup(a), ret)
                } else {
                    let na = typval_T { v_type: a.v_type, v_lock: a.v_lock,
                        vval: typval_vval_union::v_blob(Some(blob_T { bv_ga: nb, bv_lock: b.bv_lock, bv_refcount: b.bv_refcount })) };
                    let ret = tv_dup(&na);
                    (na, ret)
                }
            }
        },
        (VarType::VAR_STRING, _) => {
            let s = tv_get_string(a);
            let ns = combine_string(fm, &s, &outs, p);
            let mut ret = tv_dup(old_ret);
            ret.v_type = VarType::VAR_STRING;
            ret.vval = typval_vval_union::v_string(ns);
            (tv_dup(a), ret)
        },
        (VarType::VAR_LIST, typval_vval_union::v_list(Some(l))) => {
            proof { lemma_items_view_index_all(l.lv_items@); }
            if fm == filtermap_T::FILTERMAP_FOREACH {
                (tv_dup(a), tv_dup(a))
            } else {
                let items = combine_items(fm, &l.lv_items, &outs, p);
                if fm == filtermap_T::FILTERMAP_MAPNEW {
                    let mut ret = tv_dup(old_ret);
                    set_list(&mut ret, list_T { lv_items: items, lv_lock: VarLockStatus::VAR_UNLOCKED, lv_refcount: 0 });
                    (tv_dup(a), ret)
                } else {
                    let na = typval_T { v_type: a.v_type, v_lock: a.v_lock,
                        vval: typval_vval_union::v_list(Some(list_T { lv_items: items, lv_lock: l.lv_lock, lv_refcount: l.lv_refcount })) };
                    let ret = tv_dup(&na);
                    (na, ret)
                }
            }
        },
        _ => (tv_dup(a), tv_dup(old_ret)),
    }
}

/// "filter({expr1}, {expr2})": keep the items of a List, Dict or Blob (the
/// characters of a String) for which `{expr2}`, evaluated by `eval` with
/// `v:key` and `v:val` set, is not zero. A List, Dict or Blob is changed in
/// place and is the result (unless locked); for a String the result is a new
/// String. At the first step that fails the work stops; later items stay.
pub fn f_filter<E, C>(argvars: &mut Vec<typval_T>, rettv: &mut typval_T, eval: Option<&E>, cmd: Option<&C>)
    where E: Fn(typval_T, typval_T, typval_T) -> Option<typval_T>, C: Fn(Vec<u8>, typval_T, typval_T) -> bool,
    requires old(argvars)@.len() >= 1, callbacks_ready(eval, cmd), fm_sizes_fit(old(argvars)@[0]@),
    ensures
        exists|outs: Seq<Option<(TypVal, bool)>>| #![trigger fm_outcome(filtermap_T::FILTERMAP_FILTER, old(argvars)@, old(rettv)@, outs)]
            (if fm_runs(filtermap_T::FILTERMAP_FILTER, old(argvars)@) {
                steps_valid(filtermap_T::FILTERMAP_FILTER, fm_kind(old(argvars)@[0]@), old(argvars)@[1]@, fm_inputs(old(argvars)@[0]@), outs, eval, cmd)
            } else {
                outs.len() == 0
            })
            && first_arg_set(old(argvars)@, final(argvars)@, fm_outcome(filtermap_T::FILTERMAP_FILTER, old(argvars)@, old(rettv)@, outs).0)
            && final(rettv)@ == fm_outcome(filtermap_T::FILTERMAP_FILTER, old(argvars)@, old(rettv)@, outs).1,
{
    let (na, ret) = fm_apply(argvars.as_slice(), rettv, filtermap_T::FILTERMAP_FILTER, eval, cmd);
    *rettv = ret;
    replace_first(argvars, na);
}

/// "map({expr1}, {expr2})": replace each item of a List, Dict or Blob (each
/// character of a String) by the value of `{expr2}`, evaluated by `eval`
/// with `v:key` and `v:val` set. A List, Dict or Blob is changed in place
/// and is the result; for a String the result is a new String. At the first
/// step that fails the work stops; later items stay.
pub fn f_map<E, C>(argvars: &mut Vec<typval_T>, rettv: &mut typval_T, eval: Option<&E>, cmd: Option<&C>)
    where E: Fn(typval_T, typval_T, typval_T) -> Option<typval_T>, C: Fn(Vec<u8>, typval_T, typval_T) -> bool,
    requires old(argvars)@.len() >= 1, callbacks_ready(eval, cmd), fm_sizes_fit(old(argvars)@[0]@),
    ensures
        exists|outs: Seq<Option<(TypVal, bool)>>| #![trigger fm_outcome(filtermap_T::FILTERMAP_MAP, old(argvars)@, old(rettv)@, outs)]
            (if fm_runs(filtermap_T::FILTERMAP_MAP, old(argvars)@) {
                steps_valid(filtermap_T::FILTERMAP_MAP, fm_kind(old(argvars)@[0]@), old(argvars)@[1]@, fm_inputs(old(argvars)@[0]@), outs, eval, cmd)
            } else {
                outs.len() == 0
            })
            && first_arg_set(old(argvars)@, final(argvars)@, fm_outcome(filtermap_T::FILTERMAP_MAP, old(argvars)@, old(rettv)@, outs).0)
            && final(rettv)@ == fm_outcome(filtermap_T::FILTERMAP_MAP, old(argvars)@, old(rettv)@, outs).1,
{
    let (na, ret) = fm_apply(argvars.as_slice(), rettv, filtermap_T::FILTERMAP_MAP, eval, cmd);
    *rettv = ret;
    replace_first(argvars, na);
}

/// "mapnew({expr1}, {expr2})": like "map()", but the result is a new List,
/// Dict, Blob or String and `{expr1}` is left alone; a List or Dict result
/// holds only the items whose step went well.
pub fn f_mapnew<E, C>(argvars: &[typval_T], rettv: &mut typval_T, eval: Option<&E>, cmd: Option<&C>)
    where E: Fn(typval_T, typval_T, typval_T) -> Option<typval_T>, C: Fn(Vec<u8>, typval_T, typval_T) -> bool,
    requires argvars@.len() >= 1, callbacks_ready(eval, cmd), fm_sizes_fit(argvars@[0]@),
    ensures
        exists|outs: Seq<Option<(TypVal, bool)>>| #![trigger fm_outcome(filtermap_T::FILTERMAP_MAPNEW, argvars@, old(rettv)@, outs)]
            (if fm_runs(filtermap_T::FILTERMAP_MAPNEW, argvars@) {
                steps_valid(filtermap_T::FILTERMAP_MAPNEW, fm_kind(argvars@[0]@), argvars@[1]@, fm_inputs(argvars@[0]@), outs, eval, cmd)
            } else {
                outs.len() == 0
            })
            && final(rettv)@ == fm_outcome(filtermap_T::FILTERMAP_MAPNEW, argvars@, old(rettv)@, outs).1,
{
    let (_na, ret) = fm_apply(argvars, rettv, filtermap_T::FILTERMAP_MAPNEW, eval, cmd);
    *rettv = ret;
}

/// "foreach({expr1}, {expr2})": run `{expr2}` on each item of a List, Dict
/// or Blob (each character of a String): a String `{expr2}` as a command by
/// `cmd`, a function through `eval`; the result is `{expr1}` (a new String
/// of the characters visited for a String). At the first step that fails
/// the work stops.
pub fn f_foreach<E, C>(argvars: &[typval_T], rettv: &mut typval_T, eval: Option<&E>, cmd: Option<&C>)
    where E: Fn(typval_T, typval_T, typval_T) -> Option<typval_T>, C: Fn(Vec<u8>, typval_T, typval_T) -> bool,
    requires argvars@.len() >= 1, callbacks_ready(eval, cmd), fm_sizes_fit(argvars@[0]@),
    ensures
        exists|outs: Seq<Option<(TypVal, bool)>>| #![trigger fm_outcome(filtermap_T::FILTERMAP_FOREACH, argvars@, old(rettv)@, outs)]
            (if fm_runs(filtermap_T::FILTERMAP_FOREACH, argvars@) {
                steps_valid(filtermap_T::FILTERMAP_FOREACH, fm_kind(argvars@[0]@), argvars@[1]@, fm_inputs(argvars@[0]@), outs, eval, cmd)
            } else {
                outs.len() == 0
            })
            && final(rettv)@ == fm_outcome(filtermap_T::FILTERMAP_FOREACH, argvars@, old(rettv)@, outs).1,
{
    let (_na, ret) = fm_apply(argvars, rettv, filtermap_T::FILTERMAP_FOREACH, eval, cmd);
    *rettv = ret;
}

} // verus!
