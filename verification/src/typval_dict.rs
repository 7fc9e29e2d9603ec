//! Dictionary operations.
use vstd::prelude::*;
use crate::typval_defs::{
    varnumber_T, OK, FAIL, VarType, VarLockStatus, BoolVarValue, SpecialVarValue, typval_vval_union,
    typval_T, list_T, dict_T, dictitem_T, blob_T, partial_T, Callback, DictWatcher, TypVal, VVal,
    ListVal, DictVal, BlobVal, CallbackVal, WatcherVal, tv_view, list_view, dict_view, items_view, dict_index_of,
    mk_tv, num_tv, str_tv, list_tv, blob_tv, dict_tv, empty_dict_val, dict_wf, keys_unique,
    lemma_items_view_ext, lemma_items_view_index, lemma_items_view_push, lemma_items_view_subrange,
    lemma_items_view_add, lemma_items_view_reverse, lemma_items_view_update, lemma_items_view_insert,
    lemma_items_view_remove, lemma_items_view_empty,
};
use crate::charset::{nr2str, nr2bytes, str2nr, str2nr_all};
use crate::dup::{bytes_dup, tv_dup, list_dup, dict_dup, blob_dup, items_dup, slice_to_vec, callback_dup};
use crate::typval::{
    number_of, number_chk_result, string_of, string_or_empty, tv_get_number_chk, tv_get_number,
    tv_get_bool, tv_get_string, tv_get_string_chk, tv_get_string_buf_chk, tv_equal, tv_equal_spec,
    bytes_eq, dict_find_index,
};
use crate::typval_list::{empty_list_val, with_items, string_tv, number_tv, list_value, dict_value};

verus! {

/// The model of `d` with the value of `key` set to `v`: replaced in place when
/// the key exists, appended otherwise.
pub open spec fn dict_set(d: DictVal, key: Seq<u8>, v: TypVal) -> DictVal {
    let i = dict_index_of(d.keys, key);
    if i >= 0 {
        DictVal { vals: d.vals.update(i, v), ..d }
    } else {
        DictVal { keys: d.keys.push(key), vals: d.vals.push(v), ..d }
    }
}

/// The value stored under `key`, if any.
pub open spec fn dict_get(d: DictVal, key: Seq<u8>) -> Option<TypVal> {
    let i = dict_index_of(d.keys, key);
    if i >= 0 { Some(d.vals[i]) } else { None }
}

pub proof fn lemma_dict_index_of(keys: Seq<Seq<u8>>, key: Seq<u8>)
    ensures
        -1 <= dict_index_of(keys, key) < keys.len(),
        dict_index_of(keys, key) >= 0 ==> keys[dict_index_of(keys, key)] == key,
        dict_index_of(keys, key) == -1 ==> forall|j: int| 0 <= j < keys.len() ==> keys[j] != key,
        dict_index_of(keys, key) >= 0 ==> forall|j: int| dict_index_of(keys, key) < j < keys.len() ==> keys[j] != key,
    decreases keys.len(),
{
    if keys.len() > 0 && keys.last() != key {
        lemma_dict_index_of(keys.drop_last(), key);
        assert forall|j: int| 0 <= j < keys.len() - 1 implies keys[j] == keys.drop_last()[j] by {}
    }
}

pub proof fn lemma_dict_index_unique(keys: Seq<Seq<u8>>, key: Seq<u8>, j: int)
    requires keys_unique(keys), 0 <= j < keys.len(), keys[j] == key,
    ensures dict_index_of(keys, key) == j,
{
    lemma_dict_index_of(keys, key);
}

pub proof fn lemma_dict_index_push(keys: Seq<Seq<u8>>, k: Seq<u8>, key: Seq<u8>)
    ensures dict_index_of(keys.push(k), key) == if k == key { keys.len() as int } else { dict_index_of(keys, key) },
{
    assert(keys.push(k).drop_last() =~= keys);
}

pub proof fn lemma_dict_view_parts(d: dict_T)
    ensures
        d@.keys.len() == d.dv_hashtab@.len(),
        d@.vals.len() == d.dv_hashtab@.len(),
        forall|i: int| 0 <= i < d.dv_hashtab@.len() ==> #[trigger] d@.keys[i] == d.dv_hashtab@[i].di_key@,
        forall|i: int| 0 <= i < d.dv_hashtab@.len() ==> #[trigger] d@.vals[i] == tv_view(d.dv_hashtab@[i].di_tv),
{
}

/// An empty Dict.
pub fn tv_dict_alloc() -> (r: dict_T)
    ensures r@ == empty_dict_val(),
{
    let r = dict_T { dv_hashtab: Vec::new(), dv_lock: VarLockStatus::VAR_UNLOCKED, dv_refcount: 0, dv_watchers: Vec::new() };
    assert(r@.keys =~= Seq::<Seq<u8>>::empty());
    assert(r@.vals =~= Seq::<TypVal>::empty());
    assert(r@.watchers =~= Seq::<WatcherVal>::empty());
    r
}

/// An empty Dict with the given lock.
pub fn tv_dict_alloc_lock(lock: VarLockStatus) -> (r: dict_T)
    ensures r@ == (DictVal { lock, ..empty_dict_val() }),
{
    let mut d = tv_dict_alloc();
    d.dv_lock = lock;
    d
}

/// Set `rettv` to a new empty Dict.
pub fn tv_dict_alloc_ret(rettv: &mut typval_T)
    ensures final(rettv)@ == (TypVal { ty: VarType::VAR_DICT, lock: old(rettv)@.lock, v: VVal::Dict(Some(empty_dict_val())) }),
{
    let d = tv_dict_alloc();
    rettv.v_type = VarType::VAR_DICT;
    rettv.vval = typval_vval_union::v_dict(Some(d));
}

/// The number of entries.
pub fn tv_dict_len(d: &dict_T) -> (r: i32)
    requires d.dv_hashtab@.len() <= i32::MAX,
    ensures r as int == d@.keys.len(),
{
    d.dv_hashtab.len() as i32
}

/// The value stored under `key`.
pub fn tv_dict_find<'d>(d: &'d dict_T, key: &[u8]) -> (r: Option<&'d typval_T>)
    ensures
        match dict_get(d@, key@) {
            Some(v) => r is Some && r->Some_0@ == v,
            None => r is None,
        },
{
    proof { lemma_dict_index_of(d@.keys, key@); }
    match dict_find_index(d, key) {
        None => None,
        Some(i) => Some(&d.dv_hashtab[i].di_tv),
    }
}

/// Whether `key` is present.
pub fn tv_dict_has_key(d: &dict_T, key: &[u8]) -> (r: bool)
    ensures r == (dict_get(d@, key@) is Some),
{
    tv_dict_find(d, key).is_some()
}

/// Set the value of `key`, replacing an
/// existing value in place.
pub fn tv_dict_add_tv(d: &mut dict_T, key: &[u8], tv: typval_T)
    ensures final(d)@ == dict_set(old(d)@, key@, tv@),
{
    proof { lemma_dict_index_of(d@.keys, key@); }
    let ghost old_d = d@;
    match dict_find_index(d, key) {
        Some(i) => {
            let k = bytes_dup(&d.dv_hashtab[i].di_key);
            let mut item = dictitem_T { di_key: k, di_tv: tv };
            let ghost tvv = tv@;
            d.dv_hashtab.set(i, item);
            assert(d@.keys =~= old_d.keys);
            assert(d@.vals =~= old_d.vals.update(i as int, tvv));
            assert(d@.watchers =~= old_d.watchers);
        },
        None => {
            let k = slice_to_vec(key);
            let ghost tvv = tv@;
            d.dv_hashtab.push(dictitem_T { di_key: k, di_tv: tv });
            assert(d@.keys =~= old_d.keys.push(key@));
            assert(d@.vals =~= old_d.vals.push(tvv));
            assert(d@.watchers =~= old_d.watchers);
        },
    }
}

/// Add `tv` under `key`; `FAIL` (and no change)
/// when the key exists.
pub fn tv_dict_add(d: &mut dict_T, key: &[u8], tv: typval_T) -> (r: i32)
    ensures
        dict_get(old(d)@, key@) is Some ==> r == FAIL && final(d)@ == old(d)@,
        dict_get(old(d)@, key@) is None ==> r == OK && final(d)@ == dict_set(old(d)@, key@, tv@),
{
    if tv_dict_has_key(d, key) {
        return FAIL;
    }
    tv_dict_add_tv(d, key, tv);
    OK
}

/// Add a Number under `key`; `FAIL` (and no change) when the key exists.
pub fn tv_dict_add_nr(d: &mut dict_T, key: &[u8], nr: varnumber_T) -> (r: i32)
    ensures
        dict_get(old(d)@, key@) is Some ==> r == FAIL && final(d)@ == old(d)@,
        dict_get(old(d)@, key@) is None ==> r == OK && final(d)@ == dict_set(old(d)@, key@, num_tv(nr as int)),
{
    tv_dict_add(d, key, number_tv(nr))
}

/// The Float is given by its bits.
pub fn tv_dict_add_float(d: &mut dict_T, key: &[u8], nr: u64) -> (r: i32)
    ensures
        dict_get(old(d)@, key@) is Some ==> r == FAIL && final(d)@ == old(d)@,
        dict_get(old(d)@, key@) is None ==> r == OK && final(d)@ == dict_set(old(d)@, key@, mk_tv(VarType::VAR_FLOAT, VVal::Float(nr))),
{
    tv_dict_add(d, key, typval_T { v_type: VarType::VAR_FLOAT, v_lock: VarLockStatus::VAR_UNLOCKED, vval: typval_vval_union::v_float(nr) })
}

/// Add a Bool under `key`; `FAIL` (and no change) when the key exists.
pub fn tv_dict_add_bool(d: &mut dict_T, key: &[u8], val: BoolVarValue) -> (r: i32)
    ensures
        dict_get(old(d)@, key@) is Some ==> r == FAIL && final(d)@ == old(d)@,
        dict_get(old(d)@, key@) is None ==> r == OK && final(d)@ == dict_set(old(d)@, key@, mk_tv(VarType::VAR_BOOL, VVal::Bool(val))),
{
    tv_dict_add(d, key, typval_T { v_type: VarType::VAR_BOOL, v_lock: VarLockStatus::VAR_UNLOCKED, vval: typval_vval_union::v_bool(val) })
}

/// Add `val` (taking it) as a String.
pub fn tv_dict_add_allocated_str(d: &mut dict_T, key: &[u8], val: Vec<u8>) -> (r: i32)
    ensures
        dict_get(old(d)@, key@) is Some ==> r == FAIL && final(d)@ == old(d)@,
        dict_get(old(d)@, key@) is None ==> r == OK && final(d)@ == dict_set(old(d)@, key@, str_tv(val@)),
{
    tv_dict_add(d, key, string_tv(val))
}

/// Add a copy of `val` as a String.
pub fn tv_dict_add_str(d: &mut dict_T, key: &[u8], val: &[u8]) -> (r: i32)
    ensures
        dict_get(old(d)@, key@) is Some ==> r == FAIL && final(d)@ == old(d)@,
        dict_get(old(d)@, key@) is None ==> r == OK && final(d)@ == dict_set(old(d)@, key@, str_tv(val@)),
{
    tv_dict_add_allocated_str(d, key, slice_to_vec(val))
}

/// Add the first `len` bytes of `val` (all
/// of it when `len < 0`).
pub fn tv_dict_add_str_len(d: &mut dict_T, key: &[u8], val: &[u8], len: i32) -> (r: i32)
    requires len < 0 || len as int <= val@.len(),
    ensures
        dict_get(old(d)@, key@) is Some ==> r == FAIL && final(d)@ == old(d)@,
        dict_get(old(d)@, key@) is None ==> r == OK && final(d)@ == dict_set(old(d)@, key@,
            str_tv(if len < 0 { val@ } else { val@.subrange(0, len as int) })),
{
    let s = if len < 0 {
        slice_to_vec(val)
    } else {
        let mut out: Vec<u8> = Vec::new();
        let mut i: usize = 0;
        while i < len as usize
            invariant i <= len as usize, len >= 0, len as int <= val@.len(), out@ == val@.subrange(0, i as int),
            decreases len as usize - i,
        {
            out.push(val[i]);
            i += 1;
        }
        out
    };
    tv_dict_add_allocated_str(d, key, s)
}

/// Add `list` under `key` as a List.
pub fn tv_dict_add_list(d: &mut dict_T, key: &[u8], list: list_T) -> (r: i32)
    ensures
        dict_get(old(d)@, key@) is Some ==> r == FAIL && final(d)@ == old(d)@,
        dict_get(old(d)@, key@) is None ==> r == OK && final(d)@ == dict_set(old(d)@, key@, mk_tv(VarType::VAR_LIST, VVal::List(Some(list@)))),
{
    tv_dict_add(d, key, list_value(list))
}

/// Add `dict` under `key` as a Dict.
pub fn tv_dict_add_dict(d: &mut dict_T, key: &[u8], dict: dict_T) -> (r: i32)
    ensures
        dict_get(old(d)@, key@) is Some ==> r == FAIL && final(d)@ == old(d)@,
        dict_get(old(d)@, key@) is None ==> r == OK && final(d)@ == dict_set(old(d)@, key@, mk_tv(VarType::VAR_DICT, VVal::Dict(Some(dict@)))),
{
    tv_dict_add(d, key, dict_value(dict))
}

/// The Number value of `key`, or `def`.
pub fn tv_dict_get_number_def(d: &dict_T, key: &[u8], def: varnumber_T) -> (r: varnumber_T)
    ensures
        match dict_get(d@, key@) {
            None => r == def,
            Some(v) => r as int == number_chk_result(v, true),
        },
{
    match tv_dict_find(d, key) {
        None => def,
        Some(di) => tv_get_number(di),
    }
}

/// The Number value of `key`, or 0.
pub fn tv_dict_get_number(d: &dict_T, key: &[u8]) -> (r: varnumber_T)
    ensures
        match dict_get(d@, key@) {
            None => r == 0,
            Some(v) => r as int == number_chk_result(v, true),
        },
{
    tv_dict_get_number_def(d, key, 0)
}

/// The boolean value of `key`, or `def`.
pub fn tv_dict_get_bool(d: &dict_T, key: &[u8], def: varnumber_T) -> (r: varnumber_T)
    ensures
        match dict_get(d@, key@) {
            None => r == def,
            Some(v) => r as int == number_chk_result(v, false),
        },
{
    match tv_dict_find(d, key) {
        None => def,
        Some(di) => tv_get_bool(di),
    }
}

/// The String value of `key`, or `None` if
/// the key is absent.
pub fn tv_dict_get_string(d: &dict_T, key: &[u8]) -> (r: Option<Vec<u8>>)
    ensures
        match dict_get(d@, key@) {
            None => r is None,
            Some(v) => r is Some && r->Some_0@ == string_or_empty(v),
        },
{
    match tv_dict_find(d, key) {
        None => None,
        Some(di) => Some(tv_get_string(di)),
    }
}

/// Same as `tv_dict_get_string`.
pub fn tv_dict_get_string_buf(d: &dict_T, key: &[u8]) -> (r: Option<Vec<u8>>)
    ensures
        match dict_get(d@, key@) {
            None => r is None,
            Some(v) => r is Some && r->Some_0@ == string_or_empty(v),
        },
{
    tv_dict_get_string(d, key)
}

/// `def` when the key is absent,
/// `None` on a type error, the String otherwise.
pub fn tv_dict_get_string_buf_chk(d: &dict_T, key: &[u8], def: Option<Vec<u8>>) -> (r: Option<Vec<u8>>)
    ensures
        match dict_get(d@, key@) {
            None => r == def,
            Some(v) => match string_of(v) {
                Some(s) => r is Some && r->Some_0@ == s,
                None => r is None,
            },
        },
{
    match tv_dict_find(d, key) {
        None => def,
        Some(di) => tv_get_string_buf_chk(di),
    }
}

/// Remove every entry.
pub fn tv_dict_clear(d: &mut dict_T)
    ensures final(d)@ == (DictVal { keys: Seq::empty(), vals: Seq::empty(), ..old(d)@ }),
{
    let ghost od = d@;
    d.dv_hashtab = Vec::new();
    assert(d@.keys =~= Seq::<Seq<u8>>::empty());
    assert(d@.vals =~= Seq::<TypVal>::empty());
    assert(d@.watchers =~= od.watchers);
}

/// Remove every entry.
pub fn tv_dict_free_contents(d: &mut dict_T)
    ensures final(d)@ == (DictVal { keys: Seq::empty(), vals: Seq::empty(), ..old(d)@ }),
{
    tv_dict_clear(d);
}

/// Remove every entry.
pub fn tv_dict_free(d: &mut dict_T)
    ensures final(d)@ == (DictVal { keys: Seq::empty(), vals: Seq::empty(), ..old(d)@ }),
{
    tv_dict_free_contents(d);
}

/// One reference fewer.
pub fn tv_dict_unref(d: &mut dict_T)
    requires old(d).dv_refcount > i32::MIN,
    ensures final(d)@ == (DictVal { refcount: old(d)@.refcount - 1, ..old(d)@ }),
{
    let ghost od = d@;
    d.dv_refcount -= 1;
    assert(d@.keys =~= od.keys);
    assert(d@.vals =~= od.vals);
    assert(d@.watchers =~= od.watchers);
}

/// Per-entry read-only flags are not
/// part of this model, so the dict is unchanged.
pub fn tv_dict_set_keys_readonly(_dict: &mut dict_T)
    ensures final(_dict)@ == old(_dict)@,
{
}

/// One `extend()` step: the dict after merging `k: v`, and whether to stop.
pub open spec fn extend_step(d: DictVal, k: Seq<u8>, v: TypVal, act: u8) -> (DictVal, bool) {
    if dict_get(d, k) is Some {
        if act == 101 { (d, true) }
        else if act == 102 { (dict_set(d, k, v), false) }
        else { (d, false) }
    } else {
        (dict_set(d, k, v), false)
    }
}

/// Merging the first `n` entries of `d2` into `d1`.
pub open spec fn extend_upto(d1: DictVal, d2: DictVal, act: u8, n: int) -> (DictVal, bool)
    decreases n,
{
    if n <= 0 {
        (d1, false)
    } else {
        let (d, stop) = extend_upto(d1, d2, act, n - 1);
        if stop { (d, true) } else { extend_step(d, d2.keys[n - 1], d2.vals[n - 1], act) }
    }
}

/// The first byte of `action`, `f` when empty.
pub open spec fn action_char(action: Seq<u8>) -> u8 {
    if action.len() > 0 { action[0] } else { 102u8 }
}

/// Merge `d2` into `d1`; on a key both hold,
/// `"error"` stops, `"force"` takes `d2`'s value, anything else keeps `d1`'s.
#[verifier::loop_isolation(false)]
pub fn tv_dict_extend(d1: &mut dict_T, d2: &dict_T, action: &[u8])
    ensures final(d1)@ == extend_upto(old(d1)@, d2@, action_char(action@), d2@.keys.len() as int).0,
{
    let act: u8 = if action.len() > 0 { action[0] } else { 102u8 };
    let ghost od1 = d1@;
    let mut i: usize = 0;
    proof { lemma_dict_view_parts(*d2); }
    while i < d2.dv_hashtab.len()
        invariant
            i <= d2.dv_hashtab@.len(),
            extend_upto(od1, d2@, act, i as int) == (d1@, false),
        decreases d2.dv_hashtab@.len() - i,
    {
        let k: &[u8] = d2.dv_hashtab[i].di_key.as_slice();
        let v = tv_dup(&d2.dv_hashtab[i].di_tv);
        if tv_dict_has_key(d1, k) {
            if act == 101u8 {
                proof { lemma_extend_stopped(od1, d2@, act, i as int + 1, d2@.keys.len() as int); }
                return;
            } else if act == 102u8 {
                tv_dict_add_tv(d1, k, v);
            }
        } else {
            tv_dict_add_tv(d1, k, v);
        }
        i += 1;
    }
}

proof fn lemma_extend_stopped(d1: DictVal, d2: DictVal, act: u8, k: int, n: int)
    requires 0 <= k <= n, extend_upto(d1, d2, act, k).1,
    ensures extend_upto(d1, d2, act, n) == extend_upto(d1, d2, act, k),
    decreases n - k,
{
    if k < n {
        lemma_extend_stopped(d1, d2, act, k, n - 1);
    }
}

/// `KEY=VALUE` text of one entry.
pub open spec fn env_entry(k: Seq<u8>, v: TypVal) -> Seq<u8> {
    k + seq![61u8] + string_or_empty(v)
}

/// The dict as `KEY=VALUE` strings, in entry order.
pub fn tv_dict_to_env(denv: &dict_T) -> (r: Vec<Vec<u8>>)
    ensures
        r@.len() == denv@.keys.len(),
        forall|i: int| 0 <= i < r@.len() ==> #[trigger] r@[i]@ == env_entry(denv@.keys[i], denv@.vals[i]),
{
    proof { lemma_dict_view_parts(*denv); }
    let mut out: Vec<Vec<u8>> = Vec::new();
    let mut i: usize = 0;
    while i < denv.dv_hashtab.len()
        invariant
            i <= denv.dv_hashtab@.len(),
            out@.len() == i,
            forall|j: int| 0 <= j < i ==> #[trigger] out@[j]@ == env_entry(denv@.keys[j], denv@.vals[j]),
        decreases denv.dv_hashtab@.len() - i,
    {
        let mut e = bytes_dup(&denv.dv_hashtab[i].di_key);
        e.push(61u8);
        let v = tv_get_string(&denv.dv_hashtab[i].di_tv);
        let mut j: usize = 0;
        let ghost base = e@;
        while j < v.len()
            invariant j <= v.len(), e@ == base + v@.subrange(0, j as int),
            decreases v.len() - j,
        {
            e.push(v[j]);
            j += 1;
        }
        assert(v@.subrange(0, v@.len() as int) =~= v@);
        out.push(e);
        i += 1;
    }
    out
}

} // verus!
