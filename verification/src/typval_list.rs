//! List operations.
use vstd::prelude::*;
use crate::typval_defs::{
    varnumber_T, OK, FAIL, VarType, VarLockStatus, BoolVarValue, SpecialVarValue, typval_vval_union,
    typval_T, list_T, dict_T, dictitem_T, blob_T, partial_T, Callback, DictWatcher, TypVal, VVal,
    ListVal, DictVal, BlobVal, CallbackVal, WatcherVal, tv_view, list_view, dict_view, items_view, dict_index_of,
    mk_tv, num_tv, str_tv, list_tv, blob_tv, dict_tv, empty_dict_val, dict_wf, keys_unique,
    lemma_items_view_ext, lemma_items_view_index, lemma_items_view_push, lemma_items_view_subrange,
    lemma_items_view_add, lemma_items_view_reverse, lemma_items_view_update, lemma_items_view_insert,
    lemma_items_view_remove, lemma_items_view_empty,
};
use crate::charset::{nr2str, nr2bytes, str2nr, str2nr_all};
use crate::message::{emsg, msgs_view, msg_e684_lower, msg_e684_lower_exec};
use crate::dup::{bytes_dup, tv_dup, list_dup, dict_dup, blob_dup, items_dup, slice_to_vec, callback_dup};
use crate::typval::{
    number_of, number_chk_result, string_of, string_or_empty, tv_get_number_chk, tv_get_number,
    tv_get_bool, tv_get_string, tv_get_string_chk, tv_get_string_buf_chk, tv_equal, tv_equal_spec,
    bytes_eq, dict_find_index,
};

verus! {

pub open spec fn empty_list_val() -> ListVal {
    ListVal { items: Seq::empty(), lock: VarLockStatus::VAR_UNLOCKED, refcount: 0 }
}

pub open spec fn with_items(l: ListVal, items: Seq<TypVal>) -> ListVal {
    ListVal { items, lock: l.lock, refcount: l.refcount }
}

/// `list_T` with the given items, unlocked, not referenced.
pub fn list_from_items(items: Vec<typval_T>) -> (r: list_T)
    ensures r@ == (ListVal { items: items_view(items@), lock: VarLockStatus::VAR_UNLOCKED, refcount: 0 }),
{
    list_T { lv_items: items, lv_lock: VarLockStatus::VAR_UNLOCKED, lv_refcount: 0 }
}

/// An empty List.
pub fn tv_list_alloc(_len: isize) -> (r: list_T)
    ensures r@ == empty_list_val(),
{
    let r = list_T { lv_items: Vec::new(), lv_lock: VarLockStatus::VAR_UNLOCKED, lv_refcount: 0 };
    proof { lemma_items_view_empty(); }
    r
}

/// Set `rettv` to a new empty List.
pub fn tv_list_alloc_ret(rettv: &mut typval_T, len: isize)
    ensures final(rettv)@ == (TypVal { ty: VarType::VAR_LIST, lock: old(rettv)@.lock, v: VVal::List(Some(empty_list_val())) }),
{
    let l = tv_list_alloc(len);
    rettv.v_type = VarType::VAR_LIST;
    rettv.vval = typval_vval_union::v_list(Some(l));
}

/// The number of items.
pub fn tv_list_len(l: &list_T) -> (r: i32)
    requires l.lv_items@.len() <= i32::MAX,
    ensures r as int == l@.items.len(),
{
    l.lv_items.len() as i32
}

/// Append `tv` as the last item.
pub fn tv_list_append_tv(l: &mut list_T, tv: typval_T)
    ensures final(l)@ == with_items(old(l)@, old(l)@.items.push(tv@)),
{
    proof { lemma_items_view_push(l.lv_items@, tv); }
    l.lv_items.push(tv);
}

/// A String value.
pub fn string_tv(s: Vec<u8>) -> (r: typval_T)
    ensures r@ == str_tv(s@),
{
    typval_T { v_type: VarType::VAR_STRING, v_lock: VarLockStatus::VAR_UNLOCKED, vval: typval_vval_union::v_string(s) }
}

/// A Number value.
pub fn number_tv(n: varnumber_T) -> (r: typval_T)
    ensures r@ == num_tv(n as int),
{
    typval_T { v_type: VarType::VAR_NUMBER, v_lock: VarLockStatus::VAR_UNLOCKED, vval: typval_vval_union::v_number(n) }
}

/// A List value.
pub fn list_value(l: list_T) -> (r: typval_T)
    ensures r@ == mk_tv(VarType::VAR_LIST, VVal::List(Some(l@))),
{
    typval_T { v_type: VarType::VAR_LIST, v_lock: VarLockStatus::VAR_UNLOCKED, vval: typval_vval_union::v_list(Some(l)) }
}

/// A Dict value.
pub fn dict_value(d: dict_T) -> (r: typval_T)
    ensures r@ == mk_tv(VarType::VAR_DICT, VVal::Dict(Some(d@))),
{
    typval_T { v_type: VarType::VAR_DICT, v_lock: VarLockStatus::VAR_UNLOCKED, vval: typval_vval_union::v_dict(Some(d)) }
}

/// Append a String item.
pub fn tv_list_append_string(l: &mut list_T, s: &[u8])
    ensures final(l)@ == with_items(old(l)@, old(l)@.items.push(str_tv(s@))),
{
    tv_list_append_tv(l, string_tv(slice_to_vec(s)));
}

/// Append a Number item.
pub fn tv_list_append_number(l: &mut list_T, n: varnumber_T)
    ensures final(l)@ == with_items(old(l)@, old(l)@.items.push(num_tv(n as int))),
{
    tv_list_append_tv(l, number_tv(n));
}

/// Append `itemlist` as one List item.
pub fn tv_list_append_list(l: &mut list_T, itemlist: list_T)
    ensures final(l)@ == with_items(old(l)@, old(l)@.items.push(mk_tv(VarType::VAR_LIST, VVal::List(Some(itemlist@))))),
{
    tv_list_append_tv(l, list_value(itemlist));
}

/// Append `dict` as one Dict item.
pub fn tv_list_append_dict(l: &mut list_T, dict: dict_T)
    ensures final(l)@ == with_items(old(l)@, old(l)@.items.push(mk_tv(VarType::VAR_DICT, VVal::Dict(Some(dict@))))),
{
    tv_list_append_tv(l, dict_value(dict));
}

/// Append `str` (taking it) as a String item.
pub fn tv_list_append_allocated_string(l: &mut list_T, str: Vec<u8>)
    ensures final(l)@ == with_items(old(l)@, old(l)@.items.push(str_tv(str@))),
{
    tv_list_append_tv(l, string_tv(str));
}

/// The index a possibly negative List index stands for, or -1 when out of range.
pub open spec fn list_uidx(len: int, n: int) -> int {
    let m = if n < 0 { n + len } else { n };
    if m < 0 || m >= len { -1 } else { m }
}

/// Normalize a possibly negative index into
/// `0..len`, or -1 if out of range.
pub fn tv_list_uidx(l: &list_T, n: i32) -> (r: i32)
    requires l.lv_items@.len() <= i32::MAX,
    ensures r as int == list_uidx(l@.items.len() as int, n as int),
{
    let len = tv_list_len(l);
    let mut n = n;
    if n < 0 {
        n += len;
    }
    if n < 0 || n >= len {
        return -1;
    }
    n
}

/// The item at index `n` (negative counts from the
/// end), or `None` if out of range.
pub fn tv_list_find(l: &list_T, n: i32) -> (r: Option<&typval_T>)
    requires l.lv_items@.len() <= i32::MAX,
    ensures
        list_uidx(l@.items.len() as int, n as int) == -1 ==> r is None,
        list_uidx(l@.items.len() as int, n as int) != -1 ==> r is Some
            && *r->Some_0 == l.lv_items@[list_uidx(l@.items.len() as int, n as int)],
{
    let i = tv_list_uidx(l, n);
    if i == -1 {
        return None;
    }
    Some(&l.lv_items[i as usize])
}

/// `l[n]` as a Number, or -1 (setting
/// `*ret_error`) when the index is out of range.
pub fn tv_list_find_nr(l: &list_T, n: i32, ret_error: Option<&mut bool>) -> (r: varnumber_T)
    requires l.lv_items@.len() <= i32::MAX,
    ensures
        ({
            let u = list_uidx(l@.items.len() as int, n as int);
            &&& u == -1 ==> r == -1
            &&& u != -1 ==> r as int == number_chk_result(l@.items[u], ret_error is Some)
            &&& match ret_error {
                Some(e) => *final(e) == (u == -1 || number_of(l@.items[u]) is None || *e),
                None => true,
            }
        }),
{
    proof { lemma_items_view_index_all(l.lv_items@); }
    match tv_list_find(l, n) {
        None => {
            match ret_error {
                Some(e) => { *e = true; },
                None => {},
            }
            -1
        },
        Some(li) => tv_get_number_chk(li, ret_error),
    }
}

pub proof fn lemma_items_view_index_all(s: Seq<typval_T>)
    ensures
        items_view(s).len() == s.len(),
        forall|i: int| 0 <= i < s.len() ==> #[trigger] items_view(s)[i] == tv_view(s[i]),
{
}

/// `l[n]` as a String, or `None` when the
/// index is out of range, which is reported (E684).
pub fn tv_list_find_str(l: &list_T, n: i32, errs: &mut Vec<Vec<u8>>) -> (r: Option<Vec<u8>>)
    requires l.lv_items@.len() <= i32::MAX,
    ensures
        ({
            let u = list_uidx(l@.items.len() as int, n as int);
            &&& u == -1 ==> r is None
                && msgs_view(final(errs)@) == msgs_view(old(errs)@).push(msg_e684_lower() + nr2str(n as int))
            &&& u != -1 ==> r is Some && r->Some_0@ == string_or_empty(l@.items[u])
                && msgs_view(final(errs)@) == msgs_view(old(errs)@)
        }),
{
    proof { lemma_items_view_index_all(l.lv_items@); }
    match tv_list_find(l, n) {
        None => {
            let mut m = msg_e684_lower_exec();
            let s = nr2bytes(n as i64);
            crate::dup::append_bytes(&mut m, s.as_slice());
            emsg(errs, m);
            None
        },
        Some(li) => Some(tv_get_string(li)),
    }
}

fn reverse_vec(v: &mut Vec<typval_T>)
    ensures final(v)@ == old(v)@.reverse(),
{
    let ghost orig = v@;
    let mut out: Vec<typval_T> = Vec::new();
    while v.len() > 0
        invariant
            v@ + out@.reverse() == orig,
        decreases v.len(),
    {
        let ghost pre_v = v@;
        let ghost pre_out = out@;
        let x = v.pop().unwrap();
        out.push(x);
        assert(out@.reverse() =~= seq![x] + pre_out.reverse());
        assert(pre_v =~= v@.push(x));
        assert(v@ + out@.reverse() =~= pre_v + pre_out.reverse());
    }
    assert(out@.reverse() == orig);
    assert(out@ =~= orig.reverse()) by {
        assert(out@.reverse().reverse() =~= out@);
    }
    *v = out;
}

/// Reverse the List in place.
pub fn tv_list_reverse(l: &mut list_T)
    ensures final(l)@ == with_items(old(l)@, old(l)@.items.reverse()),
{
    if l.lv_items.len() <= 1 {
        assert(l@.items.reverse() =~= l@.items);
        return;
    }
    proof { lemma_items_view_reverse(l.lv_items@); }
    reverse_vec(&mut l.lv_items);
}

/// One more reference.
pub fn tv_list_ref(l: &mut list_T)
    requires old(l).lv_refcount < i32::MAX,
    ensures final(l)@ == (ListVal { refcount: old(l)@.refcount + 1, ..old(l)@ }),
{
    l.lv_refcount += 1;
}

/// One reference fewer.
pub fn tv_list_unref(l: &mut list_T)
    requires old(l).lv_refcount > i32::MIN,
    ensures final(l)@ == (ListVal { refcount: old(l)@.refcount - 1, ..old(l)@ }),
{
    l.lv_refcount -= 1;
}

/// Drop every item.
pub fn tv_list_free_contents(l: &mut list_T)
    ensures final(l)@ == with_items(old(l)@, Seq::empty()),
{
    l.lv_items = Vec::new();
    proof { lemma_items_view_empty(); }
}

/// Release the list itself; ownership does
/// this, so the list is unchanged.
pub fn tv_list_free_list(_l: &mut list_T)
    ensures final(_l)@ == old(_l)@,
{
}

/// Drop the items and the list.
pub fn tv_list_free(l: &mut list_T)
    ensures final(l)@ == with_items(old(l)@, Seq::empty()),
{
    tv_list_free_contents(l);
    tv_list_free_list(l);
}

} // verus!
