//! Lists built from the entries of Dicts, Lists, Blobs and Strings; removing and indexing items; callbacks and Dict watchers.
use vstd::prelude::*;
use crate::typval_defs::{
    varnumber_T, OK, FAIL, VarType, VarLockStatus, BoolVarValue, SpecialVarValue, typval_vval_union,
    typval_T, list_T, dict_T, dictitem_T, blob_T, partial_T, Callback, DictWatcher, TypVal, VVal,
    ListVal, DictVal, BlobVal, CallbackVal, WatcherVal, tv_view, list_view, dict_view, items_view, dict_index_of,
    mk_tv, num_tv, str_tv, list_tv, blob_tv, dict_tv, empty_dict_val, dict_wf, keys_unique,
    lemma_items_view_ext, lemma_items_view_index, lemma_items_view_push, lemma_items_view_subrange,
    lemma_items_view_add, lemma_items_view_reverse, lemma_items_view_update, lemma_items_view_insert,
    lemma_items_view_remove, lemma_items_view_empty,
};
use crate::charset::{nr2str, nr2bytes, str2nr, str2nr_all};
use crate::dup::{bytes_dup, tv_dup, list_dup, dict_dup, blob_dup, items_dup, slice_to_vec, callback_dup, append_bytes};
use crate::typval::{
    number_of, number_chk_result, string_of, string_or_empty, tv_get_number_chk, tv_get_number,
    tv_get_bool, tv_get_string, tv_get_string_chk, tv_get_string_buf_chk, tv_equal, tv_equal_spec,
    bytes_eq, dict_find_index,
};
use crate::typval_list::{empty_list_val, with_items, string_tv, number_tv, list_value, dict_value, tv_list_alloc, tv_list_append_tv, tv_list_append_string, tv_list_append_list, tv_list_append_number, lemma_items_view_index_all, list_uidx, tv_list_find, tv_list_len, list_from_items};
use crate::typval_dict::{dict_get, dict_set, lemma_dict_view_parts, lemma_dict_index_of, tv_dict_find, tv_dict_add_tv, tv_dict_alloc};
use crate::typval_blob::{empty_blob_val, tv_blob_len, tv_blob_set_ret};
use crate::typval_check::tv_check_for_dict_arg;
use crate::typval_copy::{unlocked, unlock_all, tv_copy, tv_clear, unknown_tv, value_check_lock, tv_list_slice, push_dups, TV_TRANSLATE, slice_range};
use crate::charset::char_len_at;
use crate::typval_defs::{watcher_view, callback_view};
use crate::mbyte::bytes_between;
use crate::typval_copy::{lock_error, opt_bytes};
use crate::message::{emsg, msgs_view, after_report, msg_e684_upper, msg_e684_upper_exec, msg_e16, msg_e16_exec,
    msg_e118_remove, msg_e118_remove_exec, msg_e716, msg_e716_exec, msg_quote, msg_quote_exec, msg_e979, msg_e979_exec, msg_e896, msg_e896_exec};
use crate::funcs_basic::{with_number, with_string, with_list, with_blob, first_arg_set, set_list, set_string, set_number};
use crate::charset::{utf8_split, utf8_chars};

verus! {

/// What `tv_dict2list()` extracts from each entry.
#[derive(Clone, Copy, Debug, PartialEq, Eq, Structural)]
pub enum DictListType {
    kDict2ListKeys,
    kDict2ListValues,
    kDict2ListItems,
}

/// The List item made of entry `i` of `d`.
pub open spec fn dict2list_item(d: DictVal, i: int, what: DictListType) -> TypVal {
    match what {
        DictListType::kDict2ListKeys => str_tv(d.keys[i]),
        DictListType::kDict2ListValues => unlocked(d.vals[i]),
        DictListType::kDict2ListItems => list_tv(seq![str_tv(d.keys[i]), d.vals[i]]),
    }
}

/// The items of the List `tv_dict2list()` builds from the first argument.
pub open spec fn dict2list_spec(args: Seq<typval_T>, what: DictListType) -> Seq<TypVal> {
    if args.len() >= 1 && args[0].v_type == VarType::VAR_DICT {
        match args[0]@.v {
            VVal::Dict(Some(d)) => Seq::new(d.keys.len(), |i: int| dict2list_item(d, i, what)),
            _ => Seq::empty(),
        }
    } else {
        Seq::empty()
    }
}

fn pair_list(a: typval_T, b: typval_T) -> (r: list_T)
    ensures r@ == (ListVal { items: seq![a@, b@], ..empty_list_val() }),
{
    let mut l = tv_list_alloc(2);
    let ghost av = a@;
    let ghost bv = b@;
    tv_list_append_tv(&mut l, a);
    tv_list_append_tv(&mut l, b);
    assert(l@.items =~= seq![av, bv]);
    l
}

/// Make `rettv` a List of the keys, the values (unlocked) or the
/// `[key, value]` pairs of the Dict argument; an empty List when the argument
/// is not a Dict.
pub fn tv_dict2list(argvars: &[typval_T], rettv: &mut typval_T, what: DictListType)
    ensures final(rettv)@ == with_list(old(rettv)@, dict2list_spec(argvars@, what)),
{
    let mut out = tv_list_alloc(0);
    if tv_check_for_dict_arg(argvars, 0) == OK {
        if let typval_vval_union::v_dict(Some(d)) = &argvars[0].vval {
            proof { lemma_dict_view_parts(*d); }
            let ghost want = dict2list_spec(argvars@, what);
            let mut i: usize = 0;
            assert(want.subrange(0, 0) =~= Seq::<TypVal>::empty());
            while i < d.dv_hashtab.len()
                invariant
                    i <= d.dv_hashtab@.len(),
                    want == Seq::new(d@.keys.len(), |k: int| dict2list_item(d@, k, what)),
                    d@.keys.len() == d.dv_hashtab@.len(), d@.vals.len() == d.dv_hashtab@.len(),
                    forall|k: int| 0 <= k < d.dv_hashtab@.len() ==> #[trigger] d@.keys[k] == d.dv_hashtab@[k].di_key@,
                    forall|k: int| 0 <= k < d.dv_hashtab@.len() ==> #[trigger] d@.vals[k] == tv_view(d.dv_hashtab@[k].di_tv),
                    out@ == (ListVal { items: want.subrange(0, i as int), ..empty_list_val() }),
                decreases d.dv_hashtab@.len() - i,
            {
                let item = &d.dv_hashtab[i];
                match what {
                    DictListType::kDict2ListKeys => {
                        tv_list_append_string(&mut out, item.di_key.as_slice());
                    },
                    DictListType::kDict2ListValues => {
                        let mut v = tv_dup(&item.di_tv);
                        v.v_lock = VarLockStatus::VAR_UNLOCKED;
                        tv_list_append_tv(&mut out, v);
                    },
                    DictListType::kDict2ListItems => {
                        let sub = pair_list(string_tv(bytes_dup(&item.di_key)), tv_dup(&item.di_tv));
                        tv_list_append_list(&mut out, sub);
                    },
                }
                assert(want.subrange(0, i + 1) =~= want.subrange(0, i as int).push(want[i as int]));
                i += 1;
            }
            assert(want.subrange(0, i as int) =~= want);
            set_list(rettv, out);
            return;
        }
    }
    assert(dict2list_spec(argvars@, what) =~= Seq::<TypVal>::empty());
    set_list(rettv, out);
}

/// Make `rettv` the List of `[key, value]` pairs of the Dict argument.
pub fn tv_dict2items(argvars: &[typval_T], rettv: &mut typval_T)
    ensures final(rettv)@ == with_list(old(rettv)@, dict2list_spec(argvars@, DictListType::kDict2ListItems)),
{
    tv_dict2list(argvars, rettv, DictListType::kDict2ListItems);
}

/// The `[index, byte]` pairs of a Blob.
pub open spec fn blob_items_spec(b: Seq<u8>) -> Seq<TypVal> {
    Seq::new(b.len(), |i: int| list_tv(seq![num_tv(i), num_tv(b[i] as int)]))
}

/// Make `rettv` the List of `[index, byte]` pairs of the Blob argument (empty
/// for anything else).
pub fn tv_blob2items(argvars: &[typval_T], rettv: &mut typval_T)
    requires
        argvars@.len() >= 1,
        argvars@[0]@.v is Blob && argvars@[0]@.v->Blob_0 is Some ==> argvars@[0]@.v->Blob_0->Some_0.bytes.len() <= i32::MAX,
    ensures final(rettv)@ == with_list(old(rettv)@, match (argvars@[0]@.ty, argvars@[0]@.v) {
        (VarType::VAR_BLOB, VVal::Blob(Some(b))) => blob_items_spec(b.bytes),
        _ => Seq::empty(),
    }),
{
    let mut out = tv_list_alloc(0);
    if argvars[0].v_type == VarType::VAR_BLOB {
        if let typval_vval_union::v_blob(Some(b)) = &argvars[0].vval {
            let ghost want = blob_items_spec(b@.bytes);
            let mut i: usize = 0;
            assert(want.subrange(0, 0) =~= Seq::<TypVal>::empty());
            while i < b.bv_ga.len()
                invariant i <= b.bv_ga@.len(), want == blob_items_spec(b@.bytes), b.bv_ga@.len() <= i32::MAX,
                    out@ == (ListVal { items: want.subrange(0, i as int), ..empty_list_val() }),
                decreases b.bv_ga@.len() - i,
            {
                let sub = pair_list(number_tv(i as varnumber_T), number_tv(b.bv_ga[i] as varnumber_T));
                tv_list_append_list(&mut out, sub);
                assert(want.subrange(0, i + 1) =~= want.subrange(0, i as int).push(want[i as int]));
                i += 1;
            }
            assert(want.subrange(0, i as int) =~= want);
            set_list(rettv, out);
            return;
        }
    }
    assert(Seq::<TypVal>::empty() =~= Seq::<TypVal>::empty());
    set_list(rettv, out);
}

/// The `[index, item]` pairs of a List.
pub open spec fn list_items_spec(items: Seq<TypVal>) -> Seq<TypVal> {
    Seq::new(items.len(), |i: int| list_tv(seq![num_tv(i), items[i]]))
}

/// Make `rettv` the List of `[index, item]` pairs of the List argument (empty
/// for anything else).
pub fn tv_list2items(argvars: &[typval_T], rettv: &mut typval_T)
    requires
        argvars@.len() >= 1,
        argvars@[0]@.v is List && argvars@[0]@.v->List_0 is Some ==> argvars@[0]@.v->List_0->Some_0.items.len() <= i32::MAX,
    ensures final(rettv)@ == with_list(old(rettv)@, match (argvars@[0]@.ty, argvars@[0]@.v) {
        (VarType::VAR_LIST, VVal::List(Some(l))) => list_items_spec(l.items),
        _ => Seq::empty(),
    }),
{
    let mut out = tv_list_alloc(0);
    if argvars[0].v_type == VarType::VAR_LIST {
        if let typval_vval_union::v_list(Some(l)) = &argvars[0].vval {
            proof { lemma_items_view_index_all(l.lv_items@); }
            let ghost want = list_items_spec(l@.items);
            let mut i: usize = 0;
            assert(want.subrange(0, 0) =~= Seq::<TypVal>::empty());
            while i < l.lv_items.len()
                invariant i <= l.lv_items@.len(), want == list_items_spec(l@.items), l.lv_items@.len() <= i32::MAX,
                    l@.items.len() == l.lv_items@.len(),
                    forall|k: int| 0 <= k < l.lv_items@.len() ==> #[trigger] l@.items[k] == l.lv_items@[k]@,
                    out@ == (ListVal { items: want.subrange(0, i as int), ..empty_list_val() }),
                decreases l.lv_items@.len() - i,
            {
                let sub = pair_list(number_tv(i as varnumber_T), tv_dup(&l.lv_items[i]));
                tv_list_append_list(&mut out, sub);
                assert(want.subrange(0, i + 1) =~= want.subrange(0, i as int).push(want[i as int]));
                i += 1;
            }
            assert(want.subrange(0, i as int) =~= want);
            set_list(rettv, out);
            return;
        }
    }
    set_list(rettv, out);
}

/// The `[index, character]` pairs of a String, one per character.
pub open spec fn string_items_spec(s: Seq<u8>) -> Seq<TypVal> {
    Seq::new(utf8_split(s).len(), |i: int| list_tv(seq![num_tv(i), str_tv(utf8_split(s)[i])]))
}

/// Make `rettv` the List of `[index, character]` pairs of the String
/// argument (empty for anything else).
pub fn tv_string2items(argvars: &[typval_T], rettv: &mut typval_T)
    requires
        argvars@.len() >= 1,
        argvars@[0]@.v is Str ==> argvars@[0]@.v->Str_0.len() <= i32::MAX,
    ensures final(rettv)@ == with_list(old(rettv)@, match (argvars@[0]@.ty, argvars@[0]@.v) {
        (VarType::VAR_STRING, VVal::Str(s)) => string_items_spec(s),
        _ => string_items_spec(Seq::empty()),
    }),
{
    let mut out = tv_list_alloc(0);
    let s: Vec<u8> = match (&argvars[0].v_type, &argvars[0].vval) {
        (VarType::VAR_STRING, typval_vval_union::v_string(s)) => bytes_dup(s),
        _ => Vec::new(),
    };
    let chars = utf8_chars(s.as_slice());
    proof { lemma_utf8_split_len(s@); }
    let ghost want = string_items_spec(s@);
    let mut i: usize = 0;
    assert(want.subrange(0, 0) =~= Seq::<TypVal>::empty());
    while i < chars.len()
        invariant i <= chars@.len(), want == string_items_spec(s@), chars@.len() <= s@.len(), s@.len() <= i32::MAX,
            chars@.len() == utf8_split(s@).len(),
            forall|k: int| 0 <= k < chars@.len() ==> #[trigger] chars@[k]@ == utf8_split(s@)[k],
            out@ == (ListVal { items: want.subrange(0, i as int), ..empty_list_val() }),
        decreases chars@.len() - i,
    {
        let sub = pair_list(number_tv(i as varnumber_T), string_tv(bytes_dup(&chars[i])));
        tv_list_append_list(&mut out, sub);
        assert(want.subrange(0, i + 1) =~= want.subrange(0, i as int).push(want[i as int]));
        i += 1;
    }
    assert(want.subrange(0, i as int) =~= want);
    set_list(rettv, out);
}

/// A byte string has at most as many characters as bytes.
pub proof fn lemma_utf8_split_len(s: Seq<u8>)
    ensures utf8_split(s).len() <= s.len(),
    decreases s.len(),
{
    if s.len() > 0 {
        let n = char_len_at(s, 0);
        lemma_utf8_split_len(s.subrange(n, s.len() as int));
    }
}

/// Copy the value stored under `key` into `rettv` (unlocked): `OK`, or `FAIL`
/// and no change when the key is absent.
pub fn tv_dict_get_tv(d: &dict_T, key: &[u8], rettv: &mut typval_T) -> (r: i32)
    ensures
        match dict_get(d@, key@) {
            Some(v) => r == OK && final(rettv)@ == unlocked(v),
            None => r == FAIL && final(rettv)@ == old(rettv)@,
        },
{
    match tv_dict_find(d, key) {
        None => FAIL,
        Some(v) => {
            tv_copy(v, rettv);
            OK
        },
    }
}

/// The index `tv_list_find()` reads for the Number `n` (cut to 32 bits) in a
/// List of `len` items, or -1.
pub open spec fn find_index(len: int, n: int) -> int {
    list_uidx(len, (n as i32) as int)
}

/// A Number outside the 32-bit range that still names an item once cut to 32
/// bits: removing at it would index outside the List.
pub open spec fn bad_remove_index(len: int, n: int) -> bool {
    (n < i32::MIN || n > i32::MAX) && find_index(len, n) >= 0
}

/// What `remove()` does to a List value and to `rettv`.
pub open spec fn list_remove_spec(oa: Seq<typval_T>, na: Seq<typval_T>, or: TypVal, nr: TypVal) -> bool {
    let a = oa[0]@;
    let unchanged = na == oa && nr == or;
    match a.v {
        VVal::List(Some(l)) => {
            let len = l.items.len() as int;
            if l.lock != VarLockStatus::VAR_UNLOCKED || number_of(oa[1]@) is None {
                unchanged
            } else {
                let s = find_index(len, number_of(oa[1]@)->Some_0);
                if s < 0 {
                    unchanged
                } else if oa.len() < 3 {
                    first_arg_set(oa, na, TypVal { v: VVal::List(Some(ListVal { items: l.items.remove(s), ..l })), ..a })
                        && nr == l.items[s]
                } else if number_of(oa[2]@) is None {
                    unchanged
                } else {
                    let e = find_index(len, number_of(oa[2]@)->Some_0);
                    if e < 0 || e < s {
                        unchanged
                    } else {
                        first_arg_set(oa, na, TypVal { v: VVal::List(Some(ListVal {
                            items: l.items.subrange(0, s) + l.items.subrange(e + 1, len), ..l })), ..a })
                        && nr == (TypVal { ty: VarType::VAR_LIST, v: VVal::List(Some(ListVal {
                            items: l.items.subrange(s, e + 1), ..empty_list_val() })), ..or })
                    }
                }
            }
        },
        _ => unchanged,
    }
}

/// The error `remove()` on a List reports: the lock error, E684 for an
/// index out of range, E16 for an end before the start.
pub open spec fn list_remove_error(oa: Seq<typval_T>, name: Seq<u8>) -> Option<Seq<u8>> {
    match oa[0]@.v {
        VVal::List(Some(l)) => {
            let len = l.items.len() as int;
            if l.lock != VarLockStatus::VAR_UNLOCKED {
                lock_error(l.lock, Some(name), TV_TRANSLATE as int)
            } else if number_of(oa[1]@) is None {
                None
            } else if find_index(len, number_of(oa[1]@)->Some_0) < 0 {
                Some(msg_e684_upper() + nr2str(number_of(oa[1]@)->Some_0))
            } else if oa.len() < 3 || number_of(oa[2]@) is None {
                None
            } else if find_index(len, number_of(oa[2]@)->Some_0) < 0 {
                Some(msg_e684_upper() + nr2str(number_of(oa[2]@)->Some_0))
            } else if find_index(len, number_of(oa[2]@)->Some_0) < find_index(len, number_of(oa[1]@)->Some_0) {
                Some(msg_e16())
            } else {
                None
            }
        },
        _ => None,
    }
}

fn report_index(errs: &mut Vec<Vec<u8>>, prefix: Vec<u8>, n: i64)
    ensures msgs_view(final(errs)@) == msgs_view(old(errs)@).push(prefix@ + nr2str(n as int)),
{
    let mut m = prefix;
    let s = nr2bytes(n);
    append_bytes(&mut m, s.as_slice());
    emsg(errs, m);
}

/// "remove({list}, {idx} [, {end}])": take the item at `{idx}` out of the List
/// and return it, or the items `{idx}` through `{end}` as a new List. A locked
/// List, a bad index or an end before the start changes nothing and is
/// reported.
pub fn tv_list_remove(argvars: &mut Vec<typval_T>, rettv: &mut typval_T, arg_errmsg: &[u8], errs: &mut Vec<Vec<u8>>)
    requires
        old(argvars)@.len() >= 2,
        old(argvars)@[0]@.v is List && old(argvars)@[0]@.v->List_0 is Some ==> ({
            let len = old(argvars)@[0]@.v->List_0->Some_0.items.len() as int;
            &&& len <= i32::MAX
            &&& !bad_remove_index(len, number_chk_result(old(argvars)@[1]@, true))
            &&& old(argvars)@.len() >= 3 ==> !bad_remove_index(len, number_chk_result(old(argvars)@[2]@, true))
        }),
    ensures
        list_remove_spec(old(argvars)@, final(argvars)@, old(rettv)@, final(rettv)@),
        msgs_view(final(errs)@) == after_report(old(errs)@, list_remove_error(old(argvars)@, arg_errmsg@)),
{
    let mut a0 = tv_dup(&argvars[0]);
    let len: usize;
    match &a0.vval {
        typval_vval_union::v_list(Some(l)) => {
            proof { lemma_items_view_index_all(l.lv_items@); }
            if value_check_lock(l.lv_lock, Some(arg_errmsg), TV_TRANSLATE, errs) {
                return;
            }
            len = l.lv_items.len();
        },
        _ => {
            return;
        },
    }
    let mut error = false;
    let idx = tv_get_number_chk(&argvars[1], Some(&mut error));
    if error {
        return;
    }
    let start_i: i32 = list_index(len, idx);
    if start_i < 0 {
        report_index(errs, msg_e684_upper_exec(), idx);
        return;
    }
    let start = start_i as usize;
    if argvars.len() < 3 {
        if let typval_vval_union::v_list(Some(l)) = &mut a0.vval {
            proof { lemma_items_view_index_all(l.lv_items@); lemma_items_view_remove(l.lv_items@, start as int); }
            let it = l.lv_items.remove(start);
            *rettv = it;
        }
        replace_first_arg(argvars, a0);
        return;
    }
    let mut error2 = false;
    let end = tv_get_number_chk(&argvars[2], Some(&mut error2));
    if error2 {
        return;
    }
    let end_i: i32 = list_index(len, end);
    if end_i < 0 {
        report_index(errs, msg_e684_upper_exec(), end);
        return;
    }
    let endi = end_i as usize;
    if endi < start {
        emsg(errs, msg_e16_exec());
        return;
    }
    if let typval_vval_union::v_list(Some(l)) = &mut a0.vval {
        proof { lemma_items_view_index_all(l.lv_items@); }
        let ghost old_items = l.lv_items@;
        let mut kept: Vec<typval_T> = Vec::new();
        let mut taken: Vec<typval_T> = Vec::new();
        proof { lemma_items_view_empty(); }
        push_dups(&mut kept, &l.lv_items, 0, start);
        push_dups(&mut taken, &l.lv_items, start, endi + 1);
        push_dups(&mut kept, &l.lv_items, endi + 1, len);
        proof {
            lemma_items_view_subrange(old_items, 0, start as int);
            assert(Seq::<TypVal>::empty() + items_view(old_items).subrange(0, start as int) =~= items_view(old_items).subrange(0, start as int));
            assert(Seq::<TypVal>::empty() + items_view(old_items).subrange(start as int, endi + 1) =~= items_view(old_items).subrange(start as int, endi + 1));
        }
        l.lv_items = kept;
        let nl = list_from_items(taken);
        rettv.v_type = VarType::VAR_LIST;
        rettv.vval = typval_vval_union::v_list(Some(nl));
    }
    replace_first_arg(argvars, a0);
}

/// The index `tv_list_find()` reads for `n` in a List of `len` items.
fn list_index(len: usize, n: i64) -> (r: i32)
    requires len <= i32::MAX,
    ensures r as int == find_index(len as int, n as int),
{
    let m: i32 = n as i32;
    let lenn: i32 = len as i32;
    let k: i32 = if m < 0 { m + lenn } else { m };
    if k < 0 || k >= lenn { -1 } else { k }
}

fn replace_first_arg(argvars: &mut Vec<typval_T>, v: typval_T)
    requires old(argvars)@.len() >= 1,
    ensures first_arg_set(old(argvars)@, final(argvars)@, v@),
{
    argvars.set(0, v);
}

// ── callbacks ──

/// Make `dest` a copy of `src`.
pub fn callback_copy(dest: &mut Callback, src: &Callback)
    ensures final(dest)@ == src@,
{
    *dest = callback_dup(src);
}

/// Drop what `callback` refers to, leaving no callback.
pub fn callback_free(callback: &mut Callback)
    ensures final(callback)@ == CallbackVal::kCallbackNone,
{
    *callback = Callback::kCallbackNone;
}

/// The value a callback is stored as: a Funcref, or `v:null` for none.
pub open spec fn callback_tv(cb: CallbackVal, old: TypVal) -> TypVal {
    match cb {
        CallbackVal::kCallbackFuncref(name) => TypVal { ty: VarType::VAR_FUNC, v: VVal::Str(name), ..old },
        CallbackVal::kCallbackNone => TypVal { ty: VarType::VAR_SPECIAL, v: VVal::Special(SpecialVarValue::kSpecialVarNull), ..old },
    }
}

/// Store `cb` in `tv`: a Funcref, or `v:null` when there is no callback.
pub fn callback_put(cb: &Callback, tv: &mut typval_T)
    ensures final(tv)@ == callback_tv(cb@, old(tv)@),
{
    match cb {
        Callback::kCallbackFuncref(name) => {
            tv.v_type = VarType::VAR_FUNC;
            tv.vval = typval_vval_union::v_string(bytes_dup(name));
        },
        Callback::kCallbackNone => {
            tv.v_type = VarType::VAR_SPECIAL;
            tv.vval = typval_vval_union::v_special(SpecialVarValue::kSpecialVarNull);
        },
    }
}

/// `<vim function: NAME>`.
pub open spec fn funcref_text(name: Seq<u8>) -> Seq<u8> {
    seq![60u8, 118, 105, 109, 32, 102, 117, 110, 99, 116, 105, 111, 110, 58, 32] + name + seq![62u8]
}

/// The text of a callback: `<vim function: NAME>`, or empty for none.
pub fn callback_to_string(cb: &Callback) -> (r: Vec<u8>)
    ensures r@ == match cb@ {
        CallbackVal::kCallbackFuncref(name) => funcref_text(name),
        CallbackVal::kCallbackNone => Seq::<u8>::empty(),
    },
{
    match cb {
        Callback::kCallbackFuncref(name) => {
            let mut out: Vec<u8> = vec![60u8, 118, 105, 109, 32, 102, 117, 110, 99, 116, 105, 111, 110, 58, 32];
            assert(out@ =~= seq![60u8, 118, 105, 109, 32, 102, 117, 110, 99, 116, 105, 111, 110, 58, 32]);
            append_bytes(&mut out, name.as_slice());
            out.push(62u8);
            out
        },
        Callback::kCallbackNone => Vec::new(),
    }
}

/// Two callbacks are equal: both none, or Funcrefs to the same name.
pub fn tv_callback_equal(cb1: &Callback, cb2: &Callback) -> (r: bool)
    ensures r == (cb1@ == cb2@),
{
    match (cb1, cb2) {
        (Callback::kCallbackNone, Callback::kCallbackNone) => true,
        (Callback::kCallbackFuncref(a), Callback::kCallbackFuncref(b)) => bytes_eq(a.as_slice(), b.as_slice()),
        _ => false,
    }
}

/// Read the callback stored under `key`: none when the key is absent; a
/// Funcref from a Funcref or String value; `false` (and none) for any other
/// value.
pub fn tv_dict_get_callback(d: &dict_T, key: &[u8], result: &mut Callback) -> (r: bool)
    ensures
        match dict_get(d@, key@) {
            None => r && final(result)@ == CallbackVal::kCallbackNone,
            Some(v) => if v.ty == VarType::VAR_FUNC || v.ty == VarType::VAR_STRING {
                r && final(result)@ == CallbackVal::kCallbackFuncref(string_or_empty(v))
            } else {
                !r && final(result)@ == CallbackVal::kCallbackNone
            },
        },
{
    *result = Callback::kCallbackNone;
    match tv_dict_find(d, key) {
        None => true,
        Some(tv) => {
            if tv.v_type == VarType::VAR_FUNC || tv.v_type == VarType::VAR_STRING {
                *result = Callback::kCallbackFuncref(tv_get_string(tv));
                true
            } else {
                false
            }
        },
    }
}

/// Read a callback from a value: a Funcref or a non-empty String names a
/// function, an empty String or `v:null`/`v:none` is no callback; any other
/// value fails and leaves `callback` alone.
pub fn callback_from_typval(callback: &mut Callback, tv: &typval_T) -> (r: bool)
    ensures
        tv.v_type == VarType::VAR_FUNC ==> r && final(callback)@ == CallbackVal::kCallbackFuncref(string_or_empty(tv@)),
        tv.v_type == VarType::VAR_STRING ==> r && final(callback)@ == if string_or_empty(tv@).len() == 0 {
            CallbackVal::kCallbackNone } else { CallbackVal::kCallbackFuncref(string_or_empty(tv@)) },
        tv.v_type == VarType::VAR_SPECIAL ==> r && final(callback)@ == CallbackVal::kCallbackNone,
        !(tv.v_type == VarType::VAR_FUNC || tv.v_type == VarType::VAR_STRING || tv.v_type == VarType::VAR_SPECIAL)
            ==> !r && final(callback)@ == old(callback)@,
{
    if tv.v_type == VarType::VAR_FUNC {
        *callback = Callback::kCallbackFuncref(tv_get_string(tv));
        true
    } else if tv.v_type == VarType::VAR_STRING {
        let s = tv_get_string(tv);
        *callback = if s.len() == 0 { Callback::kCallbackNone } else { Callback::kCallbackFuncref(s) };
        true
    } else if tv.v_type == VarType::VAR_SPECIAL {
        *callback = Callback::kCallbackNone;
        true
    } else {
        false
    }
}

// ── Dict watchers ──

/// Add a watcher for the keys matching `key_pattern`.
pub fn tv_dict_watcher_add(dict: &mut dict_T, key_pattern: &[u8], callback: Callback)
    ensures final(dict)@ == (DictVal { watchers: old(dict)@.watchers.push(WatcherVal { callback: callback@, key_pattern: key_pattern@ }), ..old(dict)@ }),
{
    let ghost w = WatcherVal { callback: callback@, key_pattern: key_pattern@ };
    let ghost od = dict@;
    dict.dv_watchers.push(DictWatcher { callback, key_pattern: slice_to_vec(key_pattern) });
    assert(dict@.watchers =~= od.watchers.push(w));
    assert(dict@.keys =~= od.keys);
    assert(dict@.vals =~= od.vals);
}

/// A watcher pattern matches a key: a pattern ending in `*` matches every key
/// that starts with the rest of it, any other pattern only itself.
pub open spec fn watcher_matches(pat: Seq<u8>, key: Seq<u8>) -> bool {
    if pat.len() > 0 && pat.last() == 42u8 {
        let prefix = pat.drop_last();
        prefix.len() <= key.len() && key.subrange(0, prefix.len() as int) == prefix
    } else {
        key == pat
    }
}

#[verifier::loop_isolation(false)]
fn tv_dict_watcher_matches(watcher: &DictWatcher, key: &[u8]) -> (r: bool)
    ensures r == watcher_matches(watcher@.key_pattern, key@),
{
    let p = &watcher.key_pattern;
    let n = p.len();
    if n > 0 && p[n - 1] == 42u8 {
        if n - 1 > key.len() {
            return false;
        }
        let mut i: usize = 0;
        while i < n - 1
            invariant i <= n - 1, n == p@.len(), n - 1 <= key@.len(), forall|k: int| 0 <= k < i ==> key@[k] == p@[k],
            decreases n - 1 - i,
        {
            if key[i] != p[i] {
                assert(key@.subrange(0, n - 1)[i as int] != p@.drop_last()[i as int]);
                return false;
            }
            i += 1;
        }
        assert(key@.subrange(0, n - 1) =~= p@.drop_last());
        true
    } else {
        bytes_eq(key, p.as_slice())
    }
}

/// Drop a watcher.
pub fn tv_dict_watcher_free(watcher: DictWatcher) {
}

/// Index of the first watcher with this pattern and callback, or -1.
pub open spec fn watcher_index(ws: Seq<WatcherVal>, pat: Seq<u8>, cb: CallbackVal, i: int) -> int
    decreases ws.len() - i,
{
    if i >= ws.len() { -1 }
    else if ws[i].callback == cb && ws[i].key_pattern == pat { i }
    else { watcher_index(ws, pat, cb, i + 1) }
}

/// Remove the first watcher with this pattern and callback; `false` when there
/// is none.
#[verifier::loop_isolation(false)]
pub fn tv_dict_watcher_remove(dict: &mut dict_T, key_pattern: &[u8], callback: &Callback) -> (r: bool)
    ensures ({
        let i = watcher_index(old(dict)@.watchers, key_pattern@, callback@, 0);
        if i < 0 {
            !r && final(dict)@ == old(dict)@
        } else {
            r && final(dict)@ == (DictVal { watchers: old(dict)@.watchers.remove(i), ..old(dict)@ })
        }
    }),
{
    let ghost od = dict@;
    let mut i: usize = 0;
    while i < dict.dv_watchers.len()
        invariant
            i <= dict.dv_watchers@.len(), dict@ == od,
            watcher_index(od.watchers, key_pattern@, callback@, 0) == watcher_index(od.watchers, key_pattern@, callback@, i as int),
        decreases dict.dv_watchers@.len() - i,
    {
        if tv_callback_equal(&dict.dv_watchers[i].callback, callback) && bytes_eq(dict.dv_watchers[i].key_pattern.as_slice(), key_pattern) {
            assert(od.watchers[i as int] == watcher_view(dict.dv_watchers@[i as int]));
            assert(od.watchers[i as int].callback == callback@);
            assert(od.watchers[i as int].key_pattern == key_pattern@);
            assert(watcher_index(od.watchers, key_pattern@, callback@, i as int) == i);
            let w = dict.dv_watchers.remove(i);
            tv_dict_watcher_free(w);
            assert(dict@.watchers =~= od.watchers.remove(i as int));
            assert(dict@.keys =~= od.keys);
            assert(dict@.vals =~= od.vals);
            return true;
        }
        assert(od.watchers[i as int] == watcher_view(dict.dv_watchers@[i as int]));
        i += 1;
    }
    false
}

/// A call that a Dict watcher asks for: the function's name and the
/// arguments `(dict, key, change)`.
pub struct WatcherCall {
    pub func: Vec<u8>,
    pub args: Vec<typval_T>,
}

/// The model of a watcher call.
pub struct WatcherCallVal {
    pub func: Seq<u8>,
    pub args: Seq<TypVal>,
}

impl View for WatcherCall {
    type V = WatcherCallVal;
    open spec fn view(&self) -> WatcherCallVal { WatcherCallVal { func: self.func@, args: items_view(self.args@) } }
}

/// The change record passed to watchers: `{'new': ..., 'old': ...}`, each
/// only when there is one (an unknown old value counts as none).
pub open spec fn change_dict(newtv: Option<TypVal>, oldtv: Option<TypVal>) -> DictVal {
    let d0 = empty_dict_val();
    let d1 = match newtv { Some(n) => dict_set(d0, seq![110u8, 101, 119], n), None => d0 };
    match oldtv { Some(o) => if o.ty != VarType::VAR_UNKNOWN { dict_set(d1, seq![111u8, 108, 100], o) } else { d1 }, None => d1 }
}

/// The calls made for a change of `key` in `d`: one per watcher whose pattern
/// matches and which names a function, in the order they were added.
pub open spec fn notify_calls(d: DictVal, key: Seq<u8>, newtv: Option<TypVal>, oldtv: Option<TypVal>, n: int) -> Seq<WatcherCallVal>
    decreases n,
{
    if n <= 0 {
        Seq::empty()
    } else {
        let prev = notify_calls(d, key, newtv, oldtv, n - 1);
        let w = d.watchers[n - 1];
        match w.callback {
            CallbackVal::kCallbackFuncref(name) => if watcher_matches(w.key_pattern, key) {
                prev.push(WatcherCallVal { func: name, args: seq![dict_tv(d), str_tv(key), dict_tv(change_dict(newtv, oldtv))] })
            } else { prev },
            CallbackVal::kCallbackNone => prev,
        }
    }
}

fn change_dict_exec(newtv: Option<&typval_T>, oldtv: Option<&typval_T>) -> (r: dict_T)
    ensures r@ == change_dict(match newtv { Some(t) => Some(t@), None => None }, match oldtv { Some(t) => Some(t@), None => None }),
{
    let mut change = tv_dict_alloc();
    match newtv {
        Some(n) => {
            let k: Vec<u8> = vec![110u8, 101, 119];
            assert(k@ =~= seq![110u8, 101, 119]);
            tv_dict_add_tv(&mut change, k.as_slice(), tv_dup(n));
        },
        None => {},
    }
    match oldtv {
        Some(o) => {
            if o.v_type != VarType::VAR_UNKNOWN {
                let k: Vec<u8> = vec![111u8, 108, 100];
                assert(k@ =~= seq![111u8, 108, 100]);
                tv_dict_add_tv(&mut change, k.as_slice(), tv_dup(o));
            }
        },
        None => {},
    }
    change
}

/// The calls to make for a change of `key` in `dict`: one call per matching
/// watcher that names a function, with the Dict, the key, and the change
/// record `{'new': ..., 'old': ...}` as arguments.
pub fn tv_dict_watcher_notify(dict: &dict_T, key: &[u8], newtv: Option<&typval_T>, oldtv: Option<&typval_T>) -> (r: Vec<WatcherCall>)
    ensures
        r@.len() == notify_calls(dict@, key@, match newtv { Some(t) => Some(t@), None => None },
            match oldtv { Some(t) => Some(t@), None => None }, dict@.watchers.len() as int).len(),
        forall|i: int| 0 <= i < r@.len() ==> #[trigger] r@[i]@ == notify_calls(dict@, key@, match newtv { Some(t) => Some(t@), None => None },
            match oldtv { Some(t) => Some(t@), None => None }, dict@.watchers.len() as int)[i],
{
    let ghost nv = match newtv { Some(t) => Some(t@), None => None };
    let ghost ov = match oldtv { Some(t) => Some(t@), None => None };
    let mut out: Vec<WatcherCall> = Vec::new();
    let mut i: usize = 0;
    while i < dict.dv_watchers.len()
        invariant
            i <= dict.dv_watchers@.len(), dict@.watchers.len() == dict.dv_watchers@.len(),
            nv == (match newtv { Some(t) => Some(t@), None => None }),
            ov == (match oldtv { Some(t) => Some(t@), None => None }),
            out@.len() == notify_calls(dict@, key@, nv, ov, i as int).len(),
            forall|k: int| 0 <= k < out@.len() ==> #[trigger] out@[k]@ == notify_calls(dict@, key@, nv, ov, i as int)[k],
        decreases dict.dv_watchers@.len() - i,
    {
        let w = &dict.dv_watchers[i];
        assert(dict@.watchers[i as int] == watcher_view(*w));
        match &w.callback {
            Callback::kCallbackFuncref(name) => {
                if tv_dict_watcher_matches(w, key) {
                    let mut args: Vec<typval_T> = Vec::new();
                    args.push(dict_value(dict_dup(dict)));
                    args.push(string_tv(slice_to_vec(key)));
                    args.push(dict_value(change_dict_exec(newtv, oldtv)));
                    assert(items_view(args@) =~= seq![dict_tv(dict@), str_tv(key@), dict_tv(change_dict(nv, ov))]);
                    out.push(WatcherCall { func: bytes_dup(name), args });
                }
            },
            Callback::kCallbackNone => {},
        }
        i += 1;
    }
    out
}

/// The models of a sequence of watcher calls.
pub open spec fn calls_view(calls: Seq<WatcherCall>) -> Seq<WatcherCallVal> {
    Seq::new(calls.len(), |i: int| calls[i]@)
}

/// `d` without the entry for `key` (the entry `dict_find_index` finds).
pub open spec fn dict_remove(d: DictVal, key: Seq<u8>) -> DictVal {
    let i = dict_index_of(d.keys, key);
    if i < 0 { d } else { DictVal { keys: d.keys.remove(i), vals: d.vals.remove(i), ..d } }
}

/// What `remove({dict}, {key})` does: the outcome for the arguments, `rettv`,
/// and the watcher calls it asks for.
pub open spec fn dict_remove_spec(oa: Seq<typval_T>, na: Seq<typval_T>, or: TypVal, nr: TypVal, calls: Seq<WatcherCallVal>) -> bool {
    let a = oa[0]@;
    let unchanged = na == oa && nr == or && calls.len() == 0;
    if oa.len() > 2 {
        unchanged
    } else {
        match a.v {
            VVal::Dict(Some(d)) => {
                if d.lock != VarLockStatus::VAR_UNLOCKED || string_of(oa[1]@) is None {
                    unchanged
                } else {
                    let key = string_of(oa[1]@)->Some_0;
                    match dict_get(d, key) {
                        None => unchanged,
                        Some(v) => {
                            let nd = dict_remove(d, key);
                            &&& first_arg_set(oa, na, TypVal { v: VVal::Dict(Some(nd)), ..a })
                            &&& nr == v
                            &&& calls == notify_calls(nd, key, None, Some(v), nd.watchers.len() as int)
                        },
                    }
                }
            },
            _ => unchanged,
        }
    }
}

/// The error `remove()` on a Dict reports: E118 for a third argument, the
/// lock error, E716 for a key that is not there.
pub open spec fn dict_remove_error(oa: Seq<typval_T>, name: Seq<u8>) -> Option<Seq<u8>> {
    if oa.len() > 2 {
        Some(msg_e118_remove())
    } else {
        match oa[0]@.v {
            VVal::Dict(Some(d)) => {
                if d.lock != VarLockStatus::VAR_UNLOCKED {
                    lock_error(d.lock, Some(name), TV_TRANSLATE as int)
                } else if string_of(oa[1]@) is None {
                    None
                } else if dict_get(d, string_of(oa[1]@)->Some_0) is None {
                    Some(msg_e716() + string_of(oa[1]@)->Some_0 + msg_quote())
                } else {
                    None
                }
            },
            _ => None,
        }
    }
}

/// "remove({dict}, {key})": take the entry for `{key}` out of the Dict and
/// return its value; the watchers of the key are to be told (the calls are
/// returned). Too many arguments, a locked Dict or a missing key change
/// nothing.
pub fn tv_dict_remove(argvars: &mut Vec<typval_T>, rettv: &mut typval_T, arg_errmsg: &[u8], errs: &mut Vec<Vec<u8>>) -> (calls: Vec<WatcherCall>)
    requires old(argvars)@.len() >= 2,
    ensures
        dict_remove_spec(old(argvars)@, final(argvars)@, old(rettv)@, final(rettv)@, calls_view(calls@)),
        msgs_view(final(errs)@) == after_report(old(errs)@, dict_remove_error(old(argvars)@, arg_errmsg@)),
{
    let ghost empty_calls = Seq::<WatcherCallVal>::empty();
    assert(calls_view(Seq::<WatcherCall>::empty()) =~= empty_calls);
    if argvars.len() > 2 {
        emsg(errs, msg_e118_remove_exec());
        assert(dict_remove_spec(old(argvars)@, argvars@, old(rettv)@, rettv@, empty_calls));
        return Vec::new();
    }
    let mut a0 = tv_dup(&argvars[0]);
    let key: Vec<u8>;
    match &a0.vval {
        typval_vval_union::v_dict(Some(d)) => {
            if value_check_lock(d.dv_lock, Some(arg_errmsg), TV_TRANSLATE, errs) {
                assert(dict_remove_spec(old(argvars)@, argvars@, old(rettv)@, rettv@, empty_calls));
                return Vec::new();
            }
            match tv_get_string_chk(&argvars[1]) {
                Some(k) => { key = k; },
                None => {
                    assert(dict_remove_spec(old(argvars)@, argvars@, old(rettv)@, rettv@, empty_calls));
                    return Vec::new();
                },
            }
        },
        _ => {
            assert(dict_remove_spec(old(argvars)@, argvars@, old(rettv)@, rettv@, empty_calls));
            return Vec::new();
        },
    }
    let mut calls: Vec<WatcherCall> = Vec::new();
    if let typval_vval_union::v_dict(Some(d)) = &mut a0.vval {
        proof { lemma_dict_view_parts(*d); lemma_dict_index_of(d@.keys, key@); }
        match dict_find_index(d, key.as_slice()) {
            None => {
                let mut m = msg_e716_exec();
                append_bytes(&mut m, key.as_slice());
                append_bytes(&mut m, msg_quote_exec().as_slice());
                emsg(errs, m);
                assert(dict_remove_spec(old(argvars)@, argvars@, old(rettv)@, rettv@, empty_calls));
                return Vec::new();
            },
            Some(i) => {
                let ghost od = d@;
                let item = d.dv_hashtab.remove(i);
                proof { lemma_dict_view_parts(*d); }
                assert(d@.keys =~= od.keys.remove(i as int));
                assert(d@.vals =~= od.vals.remove(i as int));
                assert(d@.watchers =~= od.watchers);
                calls = tv_dict_watcher_notify(d, key.as_slice(), None, Some(&item.di_tv));
                assert(calls_view(calls@) =~= notify_calls(d@, key@, None, Some(item.di_tv@), d@.watchers.len() as int));
                *rettv = item.di_tv;
            },
        }
    }
    replace_first_arg(argvars, a0);
    calls
}

/// Where `remove()` on a Blob starts or ends: the Number, counted from the end
/// when negative.
pub open spec fn blob_pos(n: int, len: int) -> int {
    if n < 0 { n + len } else { n }
}

/// What `remove({blob}, {idx} [, {end}])` does.
pub open spec fn blob_remove_spec(oa: Seq<typval_T>, na: Seq<typval_T>, or: TypVal, nr: TypVal) -> bool {
    let a = oa[0]@;
    let unchanged = na == oa && nr == or;
    match a.v {
        VVal::Blob(Some(b)) => {
            let len = b.bytes.len() as int;
            if b.lock != VarLockStatus::VAR_UNLOCKED || number_of(oa[1]@) is None {
                unchanged
            } else {
                let s = blob_pos(number_of(oa[1]@)->Some_0, len);
                if s < 0 || s >= len {
                    unchanged
                } else if oa.len() < 3 {
                    first_arg_set(oa, na, TypVal { v: VVal::Blob(Some(BlobVal { bytes: b.bytes.remove(s), ..b })), ..a })
                        && nr == (TypVal { v: VVal::Number(b.bytes[s] as int), ..or })
                } else if number_of(oa[2]@) is None {
                    unchanged
                } else {
                    let e = blob_pos(number_of(oa[2]@)->Some_0, len);
                    if e >= len || s > e {
                        unchanged
                    } else {
                        first_arg_set(oa, na, TypVal { v: VVal::Blob(Some(BlobVal {
                            bytes: b.bytes.subrange(0, s) + b.bytes.subrange(e + 1, len), ..b })), ..a })
                        && nr == (TypVal { ty: VarType::VAR_BLOB, v: VVal::Blob(Some(BlobVal {
                            bytes: b.bytes.subrange(s, e + 1), ..empty_blob_val() })), ..or })
                    }
                }
            }
        },
        _ => unchanged,
    }
}

/// "remove({blob}, {idx} [, {end}])": take the byte at `{idx}` out of the Blob
/// and return it, or the bytes `{idx}` through `{end}` as a new Blob. A
/// locked Blob or a bad index changes nothing.
/// The error `remove()` on a Blob reports: the lock error, E979 for an
/// index out of range (the start, or the end when it is out of range or
/// before the start), each counted from the end when negative.
pub open spec fn blob_remove_error(oa: Seq<typval_T>, name: Seq<u8>) -> Option<Seq<u8>> {
    match oa[0]@.v {
        VVal::Blob(Some(b)) => {
            let len = b.bytes.len() as int;
            if b.lock != VarLockStatus::VAR_UNLOCKED {
                lock_error(b.lock, Some(name), TV_TRANSLATE as int)
            } else if number_of(oa[1]@) is None {
                None
            } else {
                let s = blob_pos(number_of(oa[1]@)->Some_0, len);
                if s < 0 || s >= len {
                    Some(msg_e979() + nr2str(s))
                } else if oa.len() < 3 || number_of(oa[2]@) is None {
                    None
                } else {
                    let e = blob_pos(number_of(oa[2]@)->Some_0, len);
                    if e >= len || s > e { Some(msg_e979() + nr2str(e)) } else { None }
                }
            }
        },
        _ => None,
    }
}

pub fn tv_blob_remove(argvars: &mut Vec<typval_T>, rettv: &mut typval_T, arg_errmsg: &[u8], errs: &mut Vec<Vec<u8>>)
    requires
        old(argvars)@.len() >= 2,
        old(argvars)@[0]@.v is Blob && old(argvars)@[0]@.v->Blob_0 is Some ==> old(argvars)@[0]@.v->Blob_0->Some_0.bytes.len() <= i32::MAX,
    ensures
        blob_remove_spec(old(argvars)@, final(argvars)@, old(rettv)@, final(rettv)@),
        msgs_view(final(errs)@) == after_report(old(errs)@, blob_remove_error(old(argvars)@, arg_errmsg@)),
{
    let mut a0 = tv_dup(&argvars[0]);
    let len: usize;
    match &a0.vval {
        typval_vval_union::v_blob(Some(b)) => {
            if value_check_lock(b.bv_lock, Some(arg_errmsg), TV_TRANSLATE, errs) {
                return;
            }
            len = b.bv_ga.len();
        },
        _ => {
            return;
        },
    }
    let mut error = false;
    let mut idx = tv_get_number_chk(&argvars[1], Some(&mut error));
    if error {
        return;
    }
    if idx < 0 {
        idx = idx + len as i64;
    }
    if idx < 0 || idx >= len as i64 {
        report_index(errs, msg_e979_exec(), idx);
        return;
    }
    let s = idx as usize;
    if argvars.len() < 3 {
        if let typval_vval_union::v_blob(Some(b)) = &mut a0.vval {
            let v = b.bv_ga.remove(s);
            rettv.vval = typval_vval_union::v_number(v as varnumber_T);
        }
        replace_first_arg(argvars, a0);
        return;
    }
    let mut error2 = false;
    let mut end = tv_get_number_chk(&argvars[2], Some(&mut error2));
    if error2 {
        return;
    }
    if end < 0 {
        end = end + len as i64;
    }
    if end >= len as i64 || idx > end {
        report_index(errs, msg_e979_exec(), end);
        return;
    }
    let e = end as usize;
    if let typval_vval_union::v_blob(Some(b)) = &mut a0.vval {
        let ghost ob = b.bv_ga@;
        let mut kept: Vec<u8> = Vec::new();
        append_bytes(&mut kept, bytes_between(b.bv_ga.as_slice(), 0, s).as_slice());
        append_bytes(&mut kept, bytes_between(b.bv_ga.as_slice(), e + 1, len).as_slice());
        let taken = bytes_between(b.bv_ga.as_slice(), s, e + 1);
        b.bv_ga = kept;
        tv_blob_set_ret(rettv, blob_T { bv_ga: taken, bv_lock: VarLockStatus::VAR_UNLOCKED, bv_refcount: 0 });
    }
    replace_first_arg(argvars, a0);
}

/// The bounds `tv_list_slice_or_index()` gives `tv_list_slice()` for a range
/// `n1..n2` of a List of `len` items.
pub open spec fn list_range_bounds(len: int, n1: int, n2: int, exclusive: bool) -> (int, int) {
    let a = if n1 < 0 { n1 + len } else { n1 };
    let a2 = if a < 0 || a >= len { len } else { a };
    let b = if n2 < 0 { n2 + len } else if n2 >= len { len - (if exclusive { 0int } else { 1int }) } else { n2 };
    let b2 = if exclusive { b - 1 } else { b };
    let b3 = if b2 < 0 || b2 + 1 < a2 { -1 } else { b2 };
    (a2, b3)
}

/// The lock `rettv` keeps once it has been cleared: an unknown value keeps
/// its own, anything else is unlocked.
pub open spec fn cleared_lock(r: TypVal) -> VarLockStatus {
    if r.ty == VarType::VAR_UNKNOWN { r.lock } else { VarLockStatus::VAR_UNLOCKED }
}

/// Index (`range` false) or slice (`range` true) a List into `rettv`. An index
/// out of range is `FAIL` and leaves `rettv` alone; a slice out of range is
/// empty. An index gives an unlocked copy of the item; a slice a new List of
/// unlocked copies.
pub fn tv_list_slice_or_index(list: &list_T, range: bool, n1_arg: varnumber_T, n2_arg: varnumber_T,
    exclusive: bool, rettv: &mut typval_T, verbose: bool) -> (r: i32)
    requires
        list.lv_items@.len() <= i32::MAX,
        !(range && exclusive && n2_arg == i64::MIN && list.lv_items@.len() == 0),
    ensures ({
        let len = list@.items.len() as int;
        let a = if n1_arg < 0 { n1_arg + len } else { n1_arg as int };
        if !range && (a < 0 || a >= len) {
            r == FAIL && final(rettv)@ == old(rettv)@
        } else if range {
            let (lo, hi) = list_range_bounds(len, n1_arg as int, n2_arg as int, exclusive);
            let (p, q) = slice_range(len, lo, hi);
            r == OK && final(rettv)@ == (TypVal { ty: VarType::VAR_LIST, lock: cleared_lock(old(rettv)@),
                v: VVal::List(Some(ListVal { items: unlock_all(list@.items.subrange(p, q)), ..empty_list_val() })) })
        } else {
            r == OK && final(rettv)@ == unlocked(list@.items[a])
        }
    }),
{
    proof { lemma_items_view_index_all(list.lv_items@); }
    let len: i64 = list.lv_items.len() as i64;
    let mut n1 = n1_arg;
    let mut n2 = n2_arg;
    if n1 < 0 {
        n1 = len + n1;
    }
    if n1 < 0 || n1 >= len {
        if !range {
            return FAIL;
        }
        n1 = len;
    }
    if range {
        if n2 < 0 {
            n2 = len + n2;
        } else if n2 >= len {
            n2 = len - if exclusive { 0 } else { 1 };
        }
        if exclusive {
            n2 = n2 - 1;
        }
        if n2 < 0 || n2 + 1 < n1 {
            n2 = -1;
        }
        let l = tv_list_slice(list, n1, n2);
        tv_clear(rettv);
        rettv.v_type = VarType::VAR_LIST;
        rettv.vval = typval_vval_union::v_list(Some(l));
    } else {
        let mut var1 = typval_T { v_type: VarType::VAR_UNKNOWN, v_lock: VarLockStatus::VAR_UNLOCKED, vval: typval_vval_union::v_number(0) };
        match tv_list_find(list, n1 as i32) {
            Some(li) => { tv_copy(li, &mut var1); },
            None => {},
        }
        tv_clear(rettv);
        *rettv = var1;
    }
    OK
}

/// "keys({dict})": a List of the keys of the Dict.
pub fn f_keys(argvars: &[typval_T], rettv: &mut typval_T)
    ensures final(rettv)@ == with_list(old(rettv)@, dict2list_spec(argvars@, DictListType::kDict2ListKeys)),
{
    tv_dict2list(argvars, rettv, DictListType::kDict2ListKeys);
}

/// "values({dict})": a List of the values of the Dict.
pub fn f_values(argvars: &[typval_T], rettv: &mut typval_T)
    ensures final(rettv)@ == with_list(old(rettv)@, dict2list_spec(argvars@, DictListType::kDict2ListValues)),
{
    tv_dict2list(argvars, rettv, DictListType::kDict2ListValues);
}

/// "items({expr})": the `[index or key, item]` pairs of a String, List, Blob or
/// Dict; any other value changes nothing (E1225).
pub fn f_items(argvars: &[typval_T], rettv: &mut typval_T)
    requires
        argvars@.len() >= 1,
        argvars@[0]@.v is Blob && argvars@[0]@.v->Blob_0 is Some ==> argvars@[0]@.v->Blob_0->Some_0.bytes.len() <= i32::MAX,
        argvars@[0]@.v is List && argvars@[0]@.v->List_0 is Some ==> argvars@[0]@.v->List_0->Some_0.items.len() <= i32::MAX,
        argvars@[0]@.v is Str ==> argvars@[0]@.v->Str_0.len() <= i32::MAX,
    ensures ({
        let a = argvars@[0]@;
        match a.ty {
            VarType::VAR_STRING => final(rettv)@ == with_list(old(rettv)@, match a.v {
                VVal::Str(s) => string_items_spec(s), _ => string_items_spec(Seq::empty()) }),
            VarType::VAR_LIST => final(rettv)@ == with_list(old(rettv)@, match a.v {
                VVal::List(Some(l)) => list_items_spec(l.items), _ => Seq::empty() }),
            VarType::VAR_BLOB => final(rettv)@ == with_list(old(rettv)@, match a.v {
                VVal::Blob(Some(b)) => blob_items_spec(b.bytes), _ => Seq::empty() }),
            VarType::VAR_DICT => final(rettv)@ == with_list(old(rettv)@, dict2list_spec(argvars@, DictListType::kDict2ListItems)),
            _ => final(rettv)@ == old(rettv)@,
        }
    }),
{
    if argvars[0].v_type == VarType::VAR_STRING {
        tv_string2items(argvars, rettv);
    } else if argvars[0].v_type == VarType::VAR_LIST {
        tv_list2items(argvars, rettv);
    } else if argvars[0].v_type == VarType::VAR_BLOB {
        tv_blob2items(argvars, rettv);
    } else if argvars[0].v_type == VarType::VAR_DICT {
        tv_dict2items(argvars, rettv);
    }
}

/// The name a lock error of `remove()` shows.
pub open spec fn remove_arg_name() -> Seq<u8> {
    seq![114u8, 101, 109, 111, 118, 101, 40, 41, 32, 97, 114, 103, 117, 109, 101, 110, 116]
}

/// The error `remove()` reports for its arguments.
pub open spec fn remove_error(oa: Seq<typval_T>) -> Option<Seq<u8>> {
    let t = oa[0].v_type;
    if t == VarType::VAR_DICT { dict_remove_error(oa, remove_arg_name()) }
    else if t == VarType::VAR_BLOB { blob_remove_error(oa, remove_arg_name()) }
    else if t == VarType::VAR_LIST { list_remove_error(oa, remove_arg_name()) }
    else { Some(msg_e896()) }
}

/// "remove({list}, {idx} [, {end}])", "remove({blob}, ...)",
/// "remove({dict}, {key})": take items out of a List, Blob or Dict; any other
/// value changes nothing (E896). The watcher calls of a Dict are returned.
pub fn f_remove(argvars: &mut Vec<typval_T>, rettv: &mut typval_T, errs: &mut Vec<Vec<u8>>) -> (calls: Vec<WatcherCall>)
    requires
        old(argvars)@.len() >= 2,
        old(argvars)@[0]@.v is Blob && old(argvars)@[0]@.v->Blob_0 is Some ==> old(argvars)@[0]@.v->Blob_0->Some_0.bytes.len() <= i32::MAX,
        old(argvars)@[0]@.v is List && old(argvars)@[0]@.v->List_0 is Some ==> ({
            let len = old(argvars)@[0]@.v->List_0->Some_0.items.len() as int;
            &&& len <= i32::MAX
            &&& !bad_remove_index(len, number_chk_result(old(argvars)@[1]@, true))
            &&& old(argvars)@.len() >= 3 ==> !bad_remove_index(len, number_chk_result(old(argvars)@[2]@, true))
        }),
    ensures
        old(argvars)@[0].v_type == VarType::VAR_DICT ==> dict_remove_spec(old(argvars)@, final(argvars)@, old(rettv)@, final(rettv)@, calls_view(calls@)),
        old(argvars)@[0].v_type == VarType::VAR_BLOB ==> blob_remove_spec(old(argvars)@, final(argvars)@, old(rettv)@, final(rettv)@) && calls@.len() == 0,
        old(argvars)@[0].v_type == VarType::VAR_LIST ==> list_remove_spec(old(argvars)@, final(argvars)@, old(rettv)@, final(rettv)@) && calls@.len() == 0,
        !(old(argvars)@[0].v_type == VarType::VAR_DICT || old(argvars)@[0].v_type == VarType::VAR_BLOB || old(argvars)@[0].v_type == VarType::VAR_LIST)
            ==> final(argvars)@ == old(argvars)@ && final(rettv)@ == old(rettv)@ && calls@.len() == 0,
        msgs_view(final(errs)@) == after_report(old(errs)@, remove_error(old(argvars)@)),
{
    let msg: Vec<u8> = vec![114u8, 101, 109, 111, 118, 101, 40, 41, 32, 97, 114, 103, 117, 109, 101, 110, 116];
    assert(msg@ =~= remove_arg_name());
    if argvars[0].v_type == VarType::VAR_DICT {
        tv_dict_remove(argvars, rettv, msg.as_slice(), errs)
    } else if argvars[0].v_type == VarType::VAR_BLOB {
        tv_blob_remove(argvars, rettv, msg.as_slice(), errs);
        Vec::new()
    } else if argvars[0].v_type == VarType::VAR_LIST {
        tv_list_remove(argvars, rettv, msg.as_slice(), errs);
        Vec::new()
    } else {
        emsg(errs, msg_e896_exec());
        Vec::new()
    }
}

/// "dictwatcheradd({dict}, {pattern}, {callback})": watch the keys of the Dict
/// that match `{pattern}`. A first argument that is not a Dict, a pattern
/// that is not a String or Number, or a callback that is not a function
/// changes nothing.
pub fn f_dictwatcheradd(argvars: &mut Vec<typval_T>, rettv: &mut typval_T)
    requires old(argvars)@.len() >= 3,
    ensures
        final(rettv)@ == old(rettv)@,
        ({
            let a = old(argvars)@[0]@;
            let ok = a.ty == VarType::VAR_DICT && a.v is Dict && a.v->Dict_0 is Some
                && (old(argvars)@[1].v_type == VarType::VAR_STRING || old(argvars)@[1].v_type == VarType::VAR_NUMBER)
                && string_of(old(argvars)@[1]@) is Some
                && (old(argvars)@[2].v_type == VarType::VAR_FUNC || old(argvars)@[2].v_type == VarType::VAR_STRING
                    || old(argvars)@[2].v_type == VarType::VAR_SPECIAL);
            if ok {
                let d = a.v->Dict_0->Some_0;
                let t = old(argvars)@[2]@;
                let cb = if t.ty == VarType::VAR_FUNC || (t.ty == VarType::VAR_STRING && string_or_empty(t).len() > 0) {
                    CallbackVal::kCallbackFuncref(string_or_empty(t)) } else { CallbackVal::kCallbackNone };
                first_arg_set(old(argvars)@, final(argvars)@, TypVal { v: VVal::Dict(Some(DictVal {
                    watchers: d.watchers.push(WatcherVal { callback: cb, key_pattern: string_of(old(argvars)@[1]@)->Some_0 }), ..d })), ..a })
            } else {
                final(argvars)@ == old(argvars)@
            }
        }),
{
    if argvars[0].v_type != VarType::VAR_DICT {
        return;
    }
    if !matches!(&argvars[0].vval, typval_vval_union::v_dict(Some(_))) {
        return;
    }
    if argvars[1].v_type != VarType::VAR_STRING && argvars[1].v_type != VarType::VAR_NUMBER {
        return;
    }
    let key_pattern = match tv_get_string_chk(&argvars[1]) {
        Some(k) => k,
        None => { return; },
    };
    let mut callback = Callback::kCallbackNone;
    if !callback_from_typval(&mut callback, &argvars[2]) {
        return;
    }
    let mut a0 = tv_dup(&argvars[0]);
    if let typval_vval_union::v_dict(Some(d)) = &mut a0.vval {
        tv_dict_watcher_add(d, key_pattern.as_slice(), callback);
    }
    replace_first_arg(argvars, a0);
}

/// "dictwatcherdel({dict}, {pattern}, {callback})": stop the watcher with this
/// pattern and callback. Returns whether one was removed; bad arguments
/// change nothing.
pub fn f_dictwatcherdel(argvars: &mut Vec<typval_T>, rettv: &mut typval_T) -> (removed: bool)
    requires old(argvars)@.len() >= 3,
    ensures
        final(rettv)@ == old(rettv)@,
        ({
            let a = old(argvars)@[0]@;
            let t = old(argvars)@[2]@;
            let ok = a.ty == VarType::VAR_DICT
                && (t.ty == VarType::VAR_FUNC || t.ty == VarType::VAR_STRING)
                && string_of(old(argvars)@[1]@) is Some
                && a.v is Dict && a.v->Dict_0 is Some;
            if ok {
                let d = a.v->Dict_0->Some_0;
                let cb = if t.ty == VarType::VAR_FUNC || string_or_empty(t).len() > 0 {
                    CallbackVal::kCallbackFuncref(string_or_empty(t)) } else { CallbackVal::kCallbackNone };
                let i = watcher_index(d.watchers, string_of(old(argvars)@[1]@)->Some_0, cb, 0);
                if i < 0 {
                    !removed && final(argvars)@ == old(argvars)@
                } else {
                    removed && first_arg_set(old(argvars)@, final(argvars)@, TypVal { v: VVal::Dict(Some(DictVal {
                        watchers: d.watchers.remove(i), ..d })), ..a })
                }
            } else {
                !removed && final(argvars)@ == old(argvars)@
            }
        }),
{
    if argvars[0].v_type != VarType::VAR_DICT {
        return false;
    }
    if argvars[2].v_type != VarType::VAR_FUNC && argvars[2].v_type != VarType::VAR_STRING {
        return false;
    }
    let key_pattern = match tv_get_string_chk(&argvars[1]) {
        Some(k) => k,
        None => { return false; },
    };
    let mut callback = Callback::kCallbackNone;
    if !callback_from_typval(&mut callback, &argvars[2]) {
        return false;
    }
    if !matches!(&argvars[0].vval, typval_vval_union::v_dict(Some(_))) {
        return false;
    }
    let mut a0 = tv_dup(&argvars[0]);
    let mut r = false;
    if let typval_vval_union::v_dict(Some(d)) = &mut a0.vval {
        r = tv_dict_watcher_remove(d, key_pattern.as_slice(), &callback);
    }
    if r {
        replace_first_arg(argvars, a0);
    }
    r
}

} // verus!
