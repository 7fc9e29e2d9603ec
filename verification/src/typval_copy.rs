//! Copying values and reshaping Lists.
use vstd::prelude::*;
use crate::typval_defs::{
    varnumber_T, OK, FAIL, VarType, VarLockStatus, BoolVarValue, SpecialVarValue, typval_vval_union,
    typval_T, list_T, dict_T, dictitem_T, blob_T, partial_T, Callback, DictWatcher, TypVal, VVal,
    ListVal, DictVal, BlobVal, CallbackVal, WatcherVal, tv_view, list_view, dict_view, items_view, dict_index_of,
    mk_tv, num_tv, str_tv, list_tv, blob_tv, dict_tv, empty_dict_val, dict_wf, keys_unique,
    lemma_items_view_ext, lemma_items_view_index, lemma_items_view_push, lemma_items_view_subrange,
    lemma_items_view_add, lemma_items_view_reverse, lemma_items_view_update, lemma_items_view_insert,
    lemma_items_view_remove, lemma_items_view_empty,
};
use crate::charset::{nr2str, nr2bytes, str2nr, str2nr_all, is_cont};
use crate::message::{emsg, msgs_view, after_report, msg_e741, msg_e741_exec, msg_e741_of, msg_e741_of_exec, msg_e742, msg_e742_exec, msg_e742_of, msg_e742_of_exec};
use crate::mbyte::bytes_between;
use crate::dup::{bytes_dup, tv_dup, list_dup, dict_dup, blob_dup, items_dup, slice_to_vec, callback_dup, append_bytes};
use crate::typval::{
    number_of, number_chk_result, string_of, string_or_empty, tv_get_number_chk, tv_get_number,
    tv_get_bool, tv_get_string, tv_get_string_chk, tv_get_string_buf_chk, tv_equal, tv_equal_spec,
    bytes_eq, dict_find_index,
};
use crate::typval_list::{empty_list_val, with_items, tv_list_alloc, list_from_items, lemma_items_view_index_all};
use crate::typval_dict::{lemma_dict_view_parts};

verus! {

broadcast use vstd::std_specs::vec::axiom_vec_index_decreases;

/// The truthiness of a value.
pub open spec fn tv2bool_spec(t: TypVal) -> bool {
    match (t.ty, t.v) {
        (VarType::VAR_NUMBER, VVal::Number(n)) => n != 0,
        (VarType::VAR_FLOAT, VVal::Float(f)) => (f & 0x7fff_ffff_ffff_ffffu64) != 0,
        (VarType::VAR_FUNC, VVal::Str(s)) => s.len() > 0,
        (VarType::VAR_STRING, VVal::Str(s)) => s.len() > 0,
        (VarType::VAR_LIST, VVal::List(l)) => l is Some && l->Some_0.items.len() > 0,
        (VarType::VAR_DICT, VVal::Dict(d)) => d is Some && d->Some_0.keys.len() > 0,
        (VarType::VAR_BOOL, VVal::Bool(b)) => b == BoolVarValue::kBoolVarTrue,
        (VarType::VAR_BLOB, VVal::Blob(b)) => b is Some && b->Some_0.bytes.len() > 0,
        (VarType::VAR_PARTIAL, VVal::Partial(p)) => p is Some,
        _ => false,
    }
}

/// The truthiness of a value (used by `:if`, `&&`, `||`).
pub fn tv2bool(tv: &typval_T) -> (r: bool)
    ensures r == tv2bool_spec(tv@),
{
    proof { lemma_dict_view_parts_opt(tv); }
    match (&tv.v_type, &tv.vval) {
        (VarType::VAR_NUMBER, typval_vval_union::v_number(n)) => *n != 0,
        (VarType::VAR_FLOAT, typval_vval_union::v_float(f)) => (*f & 0x7fff_ffff_ffff_ffffu64) != 0,
        (VarType::VAR_FUNC, typval_vval_union::v_string(s)) => s.len() > 0,
        (VarType::VAR_STRING, typval_vval_union::v_string(s)) => s.len() > 0,
        (VarType::VAR_LIST, typval_vval_union::v_list(l)) => match l { Some(l) => l.lv_items.len() > 0, None => false },
        (VarType::VAR_DICT, typval_vval_union::v_dict(d)) => match d { Some(d) => d.dv_hashtab.len() > 0, None => false },
        (VarType::VAR_BOOL, typval_vval_union::v_bool(b)) => *b == BoolVarValue::kBoolVarTrue,
        (VarType::VAR_BLOB, typval_vval_union::v_blob(b)) => match b { Some(b) => b.bv_ga.len() > 0, None => false },
        (VarType::VAR_PARTIAL, typval_vval_union::v_partial(p)) => p.is_some(),
        _ => false,
    }
}

proof fn lemma_dict_view_parts_opt(tv: &typval_T)
    ensures
        tv.vval is v_dict && tv.vval->v_dict_0 is Some ==> tv@.v->Dict_0->Some_0.keys.len() == tv.vval->v_dict_0->Some_0.dv_hashtab@.len(),
        tv.vval is v_list && tv.vval->v_list_0 is Some ==> tv@.v->List_0->Some_0.items.len() == tv.vval->v_list_0->Some_0.lv_items@.len(),
{
    if tv.vval is v_list && tv.vval->v_list_0 is Some {
        lemma_items_view_index_all(tv.vval->v_list_0->Some_0.lv_items@);
    }
}

/// The model of a value with its own lock cleared.
pub open spec fn unlocked(t: TypVal) -> TypVal {
    TypVal { lock: VarLockStatus::VAR_UNLOCKED, ..t }
}

/// Copy `from` into `to`, with the lock cleared.
pub fn tv_copy(from: &typval_T, to: &mut typval_T)
    ensures final(to)@ == unlocked(from@),
{
    let mut t = tv_dup(from);
    t.v_lock = VarLockStatus::VAR_UNLOCKED;
    *to = t;
}

fn dup_unlocked(t: &typval_T) -> (r: typval_T)
    ensures r@ == unlocked(t@),
{
    let mut r = tv_dup(t);
    r.v_lock = VarLockStatus::VAR_UNLOCKED;
    r
}

/// Items with their own locks cleared.
pub open spec fn unlock_all(s: Seq<TypVal>) -> Seq<TypVal> {
    Seq::new(s.len(), |i: int| unlocked(s[i]))
}

/// The deep copy `var_item_copy()` makes: Lists and Dicts become new,
/// unlocked containers holding deep copies; other values are copied as they are.
pub open spec fn deep_copy_spec(t: TypVal) -> TypVal
    decreases t,
{
    match (t.ty, t.v) {
        (VarType::VAR_LIST, VVal::List(Some(l))) => TypVal {
            ty: VarType::VAR_LIST,
            lock: VarLockStatus::VAR_UNLOCKED,
            v: VVal::List(Some(ListVal {
                items: Seq::new(l.items.len(), |i: int| if 0 <= i < l.items.len() { deep_copy_spec(l.items[i]) } else { t }),
                lock: VarLockStatus::VAR_UNLOCKED,
                refcount: 0,
            })),
        },
        (VarType::VAR_DICT, VVal::Dict(Some(d))) => TypVal {
            ty: VarType::VAR_DICT,
            lock: VarLockStatus::VAR_UNLOCKED,
            v: VVal::Dict(Some(DictVal {
                keys: d.keys,
                vals: Seq::new(d.vals.len(), |i: int| if 0 <= i < d.vals.len() { deep_copy_spec(d.vals[i]) } else { t }),
                lock: VarLockStatus::VAR_UNLOCKED,
                refcount: 0,
                watchers: Seq::empty(),
            })),
        },
        _ => t,
    }
}

/// The items of a deep copy.
pub open spec fn deep_copy_items(s: Seq<TypVal>) -> Seq<TypVal> {
    Seq::new(s.len(), |i: int| deep_copy_spec(s[i]))
}

#[verifier::loop_isolation(false)]
fn deep_copy_vec(v: &Vec<typval_T>) -> (r: Vec<typval_T>)
    ensures items_view(r@) == deep_copy_items(items_view(v@)),
    decreases v, 0int,
{
    let mut out: Vec<typval_T> = Vec::new();
    let mut i: usize = 0;
    proof { lemma_items_view_index_all(v@); }
    while i < v.len()
        invariant
            i <= v.len(),
            out@.len() == i,
            forall|j: int| 0 <= j < i ==> tv_view(#[trigger] out@[j]) == deep_copy_spec(tv_view(v@[j])),
        decreases v.len() - i,
    {
        proof { assert(decreases_to!(v => v@[i as int])); }
        let x = var_item_copy(&v[i]);
        out.push(x);
        i += 1;
    }
    proof { lemma_items_view_index_all(out@); }
    assert(items_view(out@) =~= deep_copy_items(items_view(v@)));
    out
}

/// A deep copy of `from`.
#[verifier::loop_isolation(false)]
pub fn var_item_copy(from: &typval_T) -> (r: typval_T)
    ensures r@ == deep_copy_spec(from@),
    decreases from, 1int,
{
    match (&from.v_type, &from.vval) {
        (VarType::VAR_LIST, typval_vval_union::v_list(Some(l))) => {
            proof {
                assert(decreases_to!(from => from.vval));
                assert(decreases_to!(from.vval => from.vval->v_list_0));
                lemma_items_view_index_all(l.lv_items@);
            }
            let items = deep_copy_vec(&l.lv_items);
            let r = typval_T { v_type: VarType::VAR_LIST, v_lock: VarLockStatus::VAR_UNLOCKED,
                vval: typval_vval_union::v_list(Some(list_T { lv_items: items, lv_lock: VarLockStatus::VAR_UNLOCKED, lv_refcount: 0 })) };
            assert(r@.v->List_0->Some_0.items =~= deep_copy_spec(from@).v->List_0->Some_0.items);
            r
        },
        (VarType::VAR_DICT, typval_vval_union::v_dict(Some(d))) => {
            proof {
                assert(decreases_to!(from => from.vval));
                assert(decreases_to!(from.vval => from.vval->v_dict_0));
                lemma_dict_view_parts(*d);
            }
            let mut out: Vec<dictitem_T> = Vec::new();
            let mut i: usize = 0;
            while i < d.dv_hashtab.len()
                invariant
                    i <= d.dv_hashtab.len(),
                    out@.len() == i,
                    forall|j: int| 0 <= j < i ==> (#[trigger] out@[j]).di_key@ == d.dv_hashtab@[j].di_key@
                        && tv_view(out@[j].di_tv) == deep_copy_spec(tv_view(d.dv_hashtab@[j].di_tv)),
                decreases d.dv_hashtab.len() - i,
            {
                proof {
                    assert(decreases_to!(d.dv_hashtab => d.dv_hashtab@[i as int]));
                    assert(decreases_to!(d => d.dv_hashtab@[i as int].di_tv));
                }
                let key = bytes_dup(&d.dv_hashtab[i].di_key);
                let tv = var_item_copy(&d.dv_hashtab[i].di_tv);
                out.push(dictitem_T { di_key: key, di_tv: tv });
                i += 1;
            }
            let nd = dict_T { dv_hashtab: out, dv_lock: VarLockStatus::VAR_UNLOCKED, dv_refcount: 0, dv_watchers: Vec::new() };
            proof { lemma_dict_view_parts(nd); }
            let r = typval_T { v_type: VarType::VAR_DICT, v_lock: VarLockStatus::VAR_UNLOCKED, vval: typval_vval_union::v_dict(Some(nd)) };
            assert(r@.v->Dict_0->Some_0.keys =~= deep_copy_spec(from@).v->Dict_0->Some_0.keys);
            assert(r@.v->Dict_0->Some_0.vals =~= deep_copy_spec(from@).v->Dict_0->Some_0.vals);
            assert(r@.v->Dict_0->Some_0.watchers =~= Seq::<WatcherVal>::empty());
            r
        },
        _ => tv_dup(from),
    }
}

/// The items of a copy made by `tv_list_copy()`.
pub open spec fn copy_items(s: Seq<TypVal>, deep: bool) -> Seq<TypVal> {
    if deep { deep_copy_items(s) } else { unlock_all(s) }
}

fn copy_vec(v: &Vec<typval_T>, deep: bool) -> (r: Vec<typval_T>)
    ensures items_view(r@) == copy_items(items_view(v@), deep),
{
    if deep {
        deep_copy_vec(v)
    } else {
        let mut out: Vec<typval_T> = Vec::new();
        let mut i: usize = 0;
        proof { lemma_items_view_index_all(v@); }
        while i < v.len()
            invariant
                i <= v.len(),
                out@.len() == i,
                forall|j: int| 0 <= j < i ==> tv_view(#[trigger] out@[j]) == unlocked(tv_view(v@[j])),
            decreases v.len() - i,
        {
            out.push(dup_unlocked(&v[i]));
            i += 1;
        }
        proof { lemma_items_view_index_all(out@); }
        assert(items_view(out@) =~= unlock_all(items_view(v@)));
        out
    }
}

/// A new List whose items are copies of the items
/// of `orig`, each unlocked (`deep == false`) or deep-copied.
pub fn tv_list_copy(orig: &list_T, deep: bool) -> (r: list_T)
    ensures r@ == (ListVal { items: copy_items(orig@.items, deep), ..empty_list_val() }),
{
    list_from_items(copy_vec(&orig.lv_items, deep))
}

/// A new Dict with the keys of `orig` and copies of
/// its values, each unlocked (`deep == false`) or deep-copied.
pub fn tv_dict_copy(orig: &dict_T, deep: bool) -> (r: dict_T)
    ensures r@ == (DictVal { keys: orig@.keys, vals: copy_items(orig@.vals, deep), ..empty_dict_val() }),
{
    proof { lemma_dict_view_parts(*orig); }
    let mut out: Vec<dictitem_T> = Vec::new();
    let mut i: usize = 0;
    while i < orig.dv_hashtab.len()
        invariant
            i <= orig.dv_hashtab.len(),
            out@.len() == i,
            forall|j: int| 0 <= j < i ==> (#[trigger] out@[j]).di_key@ == orig.dv_hashtab@[j].di_key@
                && tv_view(out@[j].di_tv) == (if deep { deep_copy_spec(tv_view(orig.dv_hashtab@[j].di_tv)) } else { unlocked(tv_view(orig.dv_hashtab@[j].di_tv)) }),
        decreases orig.dv_hashtab.len() - i,
    {
        let key = bytes_dup(&orig.dv_hashtab[i].di_key);
        let tv = if deep { var_item_copy(&orig.dv_hashtab[i].di_tv) } else { dup_unlocked(&orig.dv_hashtab[i].di_tv) };
        out.push(dictitem_T { di_key: key, di_tv: tv });
        i += 1;
    }
    let nd = dict_T { dv_hashtab: out, dv_lock: VarLockStatus::VAR_UNLOCKED, dv_refcount: 0, dv_watchers: Vec::new() };
    proof { lemma_dict_view_parts(nd); }
    assert(nd@.keys =~= orig@.keys);
    assert(nd@.vals =~= copy_items(orig@.vals, deep));
    assert(nd@.watchers =~= Seq::<WatcherVal>::empty());
    nd
}

/// Append copies of `src[lo..hi]` to `out`.
pub fn push_dups(out: &mut Vec<typval_T>, src: &Vec<typval_T>, lo: usize, hi: usize)
    requires lo <= hi <= src@.len(),
    ensures items_view(final(out)@) == items_view(old(out)@) + items_view(src@).subrange(lo as int, hi as int),
{
    let ghost base = items_view(out@);
    let mut k: usize = lo;
    proof {
        lemma_items_view_index_all(src@);
        assert(items_view(src@).subrange(lo as int, lo as int) =~= Seq::<TypVal>::empty());
        assert(base + Seq::<TypVal>::empty() =~= base);
    }
    while k < hi
        invariant lo <= k <= hi, hi <= src@.len(),
            items_view(out@) == base + items_view(src@).subrange(lo as int, k as int),
        decreases hi - k,
    {
        let x = tv_dup(&src[k]);
        proof { lemma_items_view_push(out@, x); }
        out.push(x);
        proof { lemma_items_view_index_all(src@); }
        assert(base + items_view(src@).subrange(lo as int, k + 1) =~= (base + items_view(src@).subrange(lo as int, k as int)).push(src@[k as int]@));
        k += 1;
    }
}

/// Move all of `add` to the end of `out`.
pub fn append_items(out: &mut Vec<typval_T>, add: Vec<typval_T>)
    ensures items_view(final(out)@) == items_view(old(out)@) + items_view(add@),
{
    let mut add = add;
    proof { lemma_items_view_add(out@, add@); }
    out.append(&mut add);
}

/// The items of `l1` after `tv_list_extend(l1, l2, bef)`.
pub open spec fn extend_items(l1: Seq<TypVal>, l2: Seq<TypVal>, bef: Option<usize>) -> Seq<TypVal> {
    match bef {
        None => l1 + unlock_all(l2),
        Some(b) => {
            let i = if b as int <= l1.len() { b as int } else { l1.len() as int };
            l1.subrange(0, i) + unlock_all(l2) + l1.subrange(i, l1.len() as int)
        },
    }
}

/// Insert unlocked copies of the items of `l2`
/// into `l1` before index `bef` (clamped to the length), or at the end.
pub fn tv_list_extend(l1: &mut list_T, l2: &list_T, bef: Option<usize>)
    ensures final(l1)@ == with_items(old(l1)@, extend_items(old(l1)@.items, l2@.items, bef)),
{
    let add = copy_vec(&l2.lv_items, false);
    let n = l1.lv_items.len();
    let i: usize = match bef { None => n, Some(b) => if b <= n { b } else { n } };
    let mut out: Vec<typval_T> = Vec::new();
    proof { lemma_items_view_empty(); lemma_items_view_index_all(l1.lv_items@); }
    push_dups(&mut out, &l1.lv_items, 0, i);
    append_items(&mut out, add);
    push_dups(&mut out, &l1.lv_items, i, n);
    let ghost ol = l1@;
    l1.lv_items = out;
    assert(l1@.items =~= extend_items(ol.items, l2@.items, bef)) by {
        assert(Seq::<TypVal>::empty() + ol.items.subrange(0, i as int) =~= ol.items.subrange(0, i as int));
        assert(ol.items.subrange(0, n as int) =~= ol.items);
    }
}

/// Make `tv` a new List holding the items of
/// `l1` followed by those of `l2` (unlocked copies); no List when both are
/// missing.
pub fn tv_list_concat(l1: Option<&list_T>, l2: Option<&list_T>, tv: &mut typval_T) -> (r: i32)
    ensures
        r == OK,
        final(tv)@ == (TypVal { ty: VarType::VAR_LIST, lock: VarLockStatus::VAR_UNLOCKED, v: match (l1, l2) {
            (None, None) => VVal::List(None),
            (None, Some(b)) => VVal::List(Some(ListVal { items: unlock_all(b@.items), ..empty_list_val() })),
            (Some(a), None) => VVal::List(Some(ListVal { items: unlock_all(a@.items), ..empty_list_val() })),
            (Some(a), Some(b)) => VVal::List(Some(ListVal { items: unlock_all(a@.items) + unlock_all(b@.items), ..empty_list_val() })),
        } }),
{
    let l = match (l1, l2) {
        (None, None) => None,
        (None, Some(b)) => Some(tv_list_copy(b, false)),
        (Some(a), b) => {
            let mut copy = tv_list_copy(a, false);
            match b {
                Some(b) => {
                    tv_list_extend(&mut copy, b, None);
                },
                None => {},
            }
            Some(copy)
        },
    };
    tv.v_type = VarType::VAR_LIST;
    tv.v_lock = VarLockStatus::VAR_UNLOCKED;
    tv.vval = typval_vval_union::v_list(l);
    OK
}

/// The index range `[lo, hi)` of the items `tv_list_slice(l, n1, n2)` copies.
pub open spec fn slice_range(len: int, n1: int, n2: int) -> (int, int) {
    let lo = if n1 < 0 { 0 } else { n1 };
    let hi = if n2 + 1 > len { len } else { n2 + 1 };
    if lo < hi { (lo, hi) } else { (0, 0) }
}

/// A new List of unlocked copies of the items at
/// indexes `n1..=n2` that exist.
pub fn tv_list_slice(ol: &list_T, n1: varnumber_T, n2: varnumber_T) -> (r: list_T)
    ensures ({
        let (lo, hi) = slice_range(ol@.items.len() as int, n1 as int, n2 as int);
        r@ == (ListVal { items: unlock_all(ol@.items.subrange(lo, hi)), ..empty_list_val() })
    }),
{
    let len = ol.lv_items.len();
    let lo: usize = if n1 < 0 { 0 } else if n1 as u64 > len as u64 { len } else { n1 as usize };
    let hi: usize = if (n2 as i128) + 1 > len as i128 { len } else if n2 < 0 { 0 } else { (n2 as i128 + 1) as usize };
    let (lo, hi) = if lo < hi { (lo, hi) } else { (0usize, 0usize) };
    let mut out: Vec<typval_T> = Vec::new();
    proof { lemma_items_view_empty(); }
    push_dups(&mut out, &ol.lv_items, lo, hi);
    let ghost sub = ol@.items.subrange(lo as int, hi as int);
    let mut i: usize = 0;
    let mut res: Vec<typval_T> = Vec::new();
    proof { lemma_items_view_index_all(out@); }
    while i < out.len()
        invariant i <= out@.len(), items_view(out@) == Seq::<TypVal>::empty() + sub,
            res@.len() == i, forall|j: int| 0 <= j < i ==> tv_view(#[trigger] res@[j]) == unlocked(sub[j]),
        decreases out@.len() - i,
    {
        proof { lemma_items_view_index_all(out@); }
        res.push(dup_unlocked(&out[i]));
        i += 1;
    }
    proof { lemma_items_view_index_all(res@); }
    assert(items_view(res@) =~= unlock_all(sub));
    list_from_items(res)
}


// ── flatten ──

/// What one item becomes when a List is flattened: its own contents
/// (flattened further while `depth > 0`) when it is a List among the first
/// `maxitems` items, else the item itself (unlocked when `unl`).
pub open spec fn flat_upto(items: Seq<TypVal>, n: int, maxitems: int, depth: int, unl: bool) -> Seq<TypVal>
    decreases items, n,
{
    if n <= 0 || n > items.len() {
        Seq::empty()
    } else {
        let t = items[n - 1];
        let piece: Seq<TypVal> = if n - 1 < maxitems && t.ty == VarType::VAR_LIST && t.v is List && t.v->List_0 is Some {
            let inner = t.v->List_0->Some_0.items;
            if depth > 0 {
                flat_all(inner, inner.len() as int, depth - 1, true)
            } else {
                unlock_all(inner)
            }
        } else {
            seq![if unl { unlocked(t) } else { t }]
        };
        flat_upto(items, n - 1, maxitems, depth, unl) + piece
    }
}

/// `tv_list_flatten()` on a sequence of items.
pub open spec fn flat_all(items: Seq<TypVal>, maxitems: int, depth: int, unl: bool) -> Seq<TypVal>
    decreases items, items.len() + 1,
{
    if depth == 0 {
        if unl { unlock_all(items) } else { items }
    } else {
        flat_upto(items, items.len() as int, maxitems, depth, unl)
    }
}

#[verifier::loop_isolation(false)]
fn flatten_vec(items: &Vec<typval_T>, maxitems: i128, depth: i64, unl: bool) -> (r: Vec<typval_T>)
    ensures items_view(r@) == flat_all(items_view(items@), maxitems as int, depth as int, unl),
    decreases items, 0int,
{
    proof { lemma_items_view_index_all(items@); }
    let ghost iv = items_view(items@);
    if depth == 0 {
        if unl {
            return copy_vec(items, false);
        } else {
            let mut out: Vec<typval_T> = Vec::new();
            proof { lemma_items_view_empty(); }
            push_dups(&mut out, items, 0, items.len());
            assert(iv.subrange(0, iv.len() as int) =~= iv);
            assert(Seq::<TypVal>::empty() + iv =~= iv);
            return out;
        }
    }
    let mut out: Vec<typval_T> = Vec::new();
    proof { lemma_items_view_empty(); }
    let mut k: usize = 0;
    while k < items.len()
        invariant
            k <= items@.len(),
            depth != 0,
            iv == items_view(items@), iv.len() == items@.len(),
            items_view(out@) == flat_upto(iv, k as int, maxitems as int, depth as int, unl),
        decreases items@.len() - k,
    {
        proof { assert(decreases_to!(items => items@[k as int])); }
        let t = &items[k];
        let mut expanded = false;
        if (k as i128) < maxitems && t.v_type == VarType::VAR_LIST {
            match &t.vval {
                typval_vval_union::v_list(Some(l)) => {
                    proof {
                        assert(decreases_to!(items@[k as int] => items@[k as int].vval));
                        assert(decreases_to!(items@[k as int].vval => items@[k as int].vval->v_list_0));
                        lemma_items_view_index_all(l.lv_items@);
                    }
                    let sub = if depth > 0 {
                        flatten_vec(&l.lv_items, l.lv_items.len() as i128, depth - 1, true)
                    } else {
                        copy_vec(&l.lv_items, false)
                    };
                    append_items(&mut out, sub);
                    expanded = true;
                },
                _ => {},
            }
        }
        if !expanded {
            let x = if unl { dup_unlocked(t) } else { tv_dup(t) };
            proof { lemma_items_view_push(out@, x); }
            out.push(x);
        }
        k += 1;
    }
    out
}

/// Replace each List among the first
/// `maxitems` items by its items, flattened down to `maxdepth` levels.
pub fn tv_list_flatten(list: &mut list_T, maxitems: i64, maxdepth: i64)
    ensures final(list)@ == with_items(old(list)@, flat_all(old(list)@.items, maxitems as int, maxdepth as int, false)),
{
    if maxdepth == 0 {
        return;
    }
    let out = flatten_vec(&list.lv_items, maxitems as i128, maxdepth, false);
    list.lv_items = out;
}

// ── clear / locks ──

/// An unlocked `VAR_UNKNOWN` value.
pub open spec fn unknown_tv() -> TypVal {
    TypVal { ty: VarType::VAR_UNKNOWN, lock: VarLockStatus::VAR_UNLOCKED, v: VVal::Number(0) }
}

/// Drop the value held by `tv`, leaving an unlocked
/// `VAR_UNKNOWN` (a `VAR_UNKNOWN` value is left as it is).
pub fn tv_clear(tv: &mut typval_T)
    ensures final(tv)@ == if old(tv).v_type == VarType::VAR_UNKNOWN { old(tv)@ } else { unknown_tv() },
{
    if tv.v_type == VarType::VAR_UNKNOWN {
        return;
    }
    *tv = typval_T { v_type: VarType::VAR_UNKNOWN, v_lock: VarLockStatus::VAR_UNLOCKED, vval: typval_vval_union::v_number(0) };
}

/// Drop the value held by `tv`.
pub fn tv_free(tv: &mut typval_T)
    ensures final(tv)@ == if old(tv).v_type == VarType::VAR_UNKNOWN { old(tv)@ } else { unknown_tv() },
{
    tv_clear(tv);
}

/// A value is locked itself, or is a locked List or Dict.
pub open spec fn islocked_spec(t: TypVal) -> bool {
    t.lock == VarLockStatus::VAR_LOCKED || match (t.ty, t.v) {
        (VarType::VAR_LIST, VVal::List(Some(l))) => l.lock == VarLockStatus::VAR_LOCKED,
        (VarType::VAR_DICT, VVal::Dict(Some(d))) => d.lock == VarLockStatus::VAR_LOCKED,
        _ => false,
    }
}

/// Whether the value or its List/Dict is locked.
pub fn tv_islocked(tv: &typval_T) -> (r: bool)
    ensures r == islocked_spec(tv@),
{
    if tv.v_lock == VarLockStatus::VAR_LOCKED {
        return true;
    }
    match (&tv.v_type, &tv.vval) {
        (VarType::VAR_LIST, typval_vval_union::v_list(Some(l))) => l.lv_lock == VarLockStatus::VAR_LOCKED,
        (VarType::VAR_DICT, typval_vval_union::v_dict(Some(d))) => d.dv_lock == VarLockStatus::VAR_LOCKED,
        _ => false,
    }
}

/// `name_len` value: the name is a message to translate; show all of it.
pub const TV_TRANSLATE: usize = usize::MAX;
/// `name_len` value: the name is a whole C string; show all of it.
pub const TV_CSTRING: usize = usize::MAX - 1;
/// Nesting limit of `tv_item_lock()`.
pub const DICT_MAXNEST: i32 = 100;

/// The part of a name that a lock error shows: all of it for the
/// `TV_TRANSLATE` and `TV_CSTRING` lengths, else its first `name_len` bytes
/// when they end at a character boundary, else all of it.
pub open spec fn shown_name(n: Seq<u8>, name_len: int) -> Seq<u8> {
    if name_len == TV_TRANSLATE as int || name_len == TV_CSTRING as int {
        n
    } else if name_len <= n.len() && (name_len == n.len() || !is_cont(n[name_len])) {
        n.subrange(0, name_len)
    } else {
        n
    }
}

/// The error a write to a value with `lock` reports: E741 for a locked
/// value, E742 for a fixed one, each with the name when one is given.
pub open spec fn lock_error(lock: VarLockStatus, name: Option<Seq<u8>>, name_len: int) -> Option<Seq<u8>> {
    match lock {
        VarLockStatus::VAR_UNLOCKED => None,
        VarLockStatus::VAR_LOCKED => Some(match name { None => msg_e741(), Some(n) => msg_e741_of() + shown_name(n, name_len) }),
        VarLockStatus::VAR_FIXED => Some(match name { None => msg_e742(), Some(n) => msg_e742_of() + shown_name(n, name_len) }),
    }
}

pub open spec fn opt_bytes(name: Option<&[u8]>) -> Option<Seq<u8>> {
    match name { Some(n) => Some(n@), None => None }
}

fn shown_name_exec(n: &[u8], name_len: usize) -> (r: Vec<u8>)
    ensures r@ == shown_name(n@, name_len as int),
{
    if name_len == TV_TRANSLATE || name_len == TV_CSTRING {
        bytes_between(n, 0, n.len())
    } else if name_len <= n.len() && (name_len == n.len() || !(0x80 <= n[name_len] && n[name_len] <= 0xbf)) {
        bytes_between(n, 0, name_len)
    } else {
        bytes_between(n, 0, n.len())
    }
}

/// Whether `lock` makes the value read-only; when it does, the error is
/// reported (E741 locked, E742 fixed).
pub fn value_check_lock(lock: VarLockStatus, name: Option<&[u8]>, name_len: usize, errs: &mut Vec<Vec<u8>>) -> (r: bool)
    ensures
        r == (lock != VarLockStatus::VAR_UNLOCKED),
        msgs_view(final(errs)@) == after_report(old(errs)@, lock_error(lock, opt_bytes(name), name_len as int)),
{
    match lock {
        VarLockStatus::VAR_UNLOCKED => false,
        VarLockStatus::VAR_LOCKED => {
            let m = match name {
                None => msg_e741_exec(),
                Some(n) => {
                    let mut m = msg_e741_of_exec();
                    let s = shown_name_exec(n, name_len);
                    append_bytes(&mut m, s.as_slice());
                    m
                },
            };
            emsg(errs, m);
            true
        },
        VarLockStatus::VAR_FIXED => {
            let m = match name {
                None => msg_e742_exec(),
                Some(n) => {
                    let mut m = msg_e742_of_exec();
                    let s = shown_name_exec(n, name_len);
                    append_bytes(&mut m, s.as_slice());
                    m
                },
            };
            emsg(errs, m);
            true
        },
    }
}

/// The lock of the Blob, List or Dict a value holds (unlocked otherwise).
pub open spec fn container_lock(t: TypVal) -> VarLockStatus {
    match (t.ty, t.v) {
        (VarType::VAR_BLOB, VVal::Blob(Some(b))) => b.lock,
        (VarType::VAR_LIST, VVal::List(Some(l))) => l.lock,
        (VarType::VAR_DICT, VVal::Dict(Some(d))) => d.lock,
        _ => VarLockStatus::VAR_UNLOCKED,
    }
}

/// Whether the value or its container is locked
/// or fixed; the value's own lock is reported first, else the container's.
pub fn tv_check_lock(tv: &typval_T, name: Option<&[u8]>, name_len: usize, errs: &mut Vec<Vec<u8>>) -> (r: bool)
    ensures
        r == (tv@.lock != VarLockStatus::VAR_UNLOCKED || container_lock(tv@) != VarLockStatus::VAR_UNLOCKED),
        msgs_view(final(errs)@) == after_report(old(errs)@,
            if tv@.lock != VarLockStatus::VAR_UNLOCKED { lock_error(tv@.lock, opt_bytes(name), name_len as int) }
            else { lock_error(container_lock(tv@), opt_bytes(name), name_len as int) }),
{
    let lock = match (&tv.v_type, &tv.vval) {
        (VarType::VAR_BLOB, typval_vval_union::v_blob(Some(b))) => b.bv_lock,
        (VarType::VAR_LIST, typval_vval_union::v_list(Some(l))) => l.lv_lock,
        (VarType::VAR_DICT, typval_vval_union::v_dict(Some(d))) => d.dv_lock,
        _ => VarLockStatus::VAR_UNLOCKED,
    };
    value_check_lock(tv.v_lock, name, name_len, errs) || (lock != VarLockStatus::VAR_UNLOCKED && value_check_lock(lock, name, name_len, errs))
}

/// The new lock state: `VAR_FIXED` stays, anything else becomes locked or
/// unlocked.
pub open spec fn change_lock(v: VarLockStatus, lock: bool) -> VarLockStatus {
    if v == VarLockStatus::VAR_FIXED { v } else if lock { VarLockStatus::VAR_LOCKED } else { VarLockStatus::VAR_UNLOCKED }
}

fn change_lock_exec(v: VarLockStatus, lock: bool) -> (r: VarLockStatus)
    ensures r == change_lock(v, lock),
{
    if v == VarLockStatus::VAR_FIXED { v } else if lock { VarLockStatus::VAR_LOCKED } else { VarLockStatus::VAR_UNLOCKED }
}

/// `tv_item_lock()` at nesting level `recurse`: lock or unlock the value and,
/// `deep` levels down (all when negative), its contents; shared containers
/// are skipped when `chk`; nothing changes from nesting level 100 on.
pub open spec fn item_lock_spec(t: TypVal, deep: int, lock: bool, chk: bool, recurse: int) -> TypVal
    decreases t,
{
    if recurse >= 100 || deep == 0 {
        t
    } else {
        let nl = change_lock(t.lock, lock);
        match (t.ty, t.v) {
            (VarType::VAR_BLOB, VVal::Blob(Some(b))) =>
                if chk && b.refcount > 1 { TypVal { lock: nl, ..t } }
                else { TypVal { lock: nl, v: VVal::Blob(Some(BlobVal { lock: change_lock(b.lock, lock), ..b })), ..t } },
            (VarType::VAR_LIST, VVal::List(Some(l))) =>
                if chk && l.refcount > 1 { TypVal { lock: nl, ..t } }
                else {
                    let items = if deep < 0 || deep > 1 {
                        Seq::new(l.items.len(), |i: int| if 0 <= i < l.items.len() { item_lock_spec(l.items[i], deep - 1, lock, chk, recurse + 1) } else { t })
                    } else { l.items };
                    TypVal { lock: nl, v: VVal::List(Some(ListVal { items, lock: change_lock(l.lock, lock), ..l })), ..t }
                },
            (VarType::VAR_DICT, VVal::Dict(Some(d))) =>
                if chk && d.refcount > 1 { TypVal { lock: nl, ..t } }
                else {
                    let vals = if deep < 0 || deep > 1 {
                        Seq::new(d.vals.len(), |i: int| if 0 <= i < d.vals.len() { item_lock_spec(d.vals[i], deep - 1, lock, chk, recurse + 1) } else { t })
                    } else { d.vals };
                    TypVal { lock: nl, v: VVal::Dict(Some(DictVal { vals, lock: change_lock(d.lock, lock), ..d })), ..t }
                },
            _ => TypVal { lock: nl, ..t },
        }
    }
}

#[verifier::loop_isolation(false)]
fn item_lock_rec(t: &typval_T, deep: i32, lock: bool, chk: bool, recurse: i32) -> (r: typval_T)
    requires 0 <= recurse <= 100, deep >= 0 || deep > i32::MIN + 101 - recurse,
    ensures r@ == item_lock_spec(t@, deep as int, lock, chk, recurse as int),
    decreases t,
{
    if recurse >= DICT_MAXNEST || deep == 0 {
        return tv_dup(t);
    }
    let nl = change_lock_exec(t.v_lock, lock);
    match (&t.v_type, &t.vval) {
        (VarType::VAR_BLOB, typval_vval_union::v_blob(Some(b))) => {
            let mut nb = blob_dup(b);
            if !(chk && b.bv_refcount > 1) {
                nb.bv_lock = change_lock_exec(b.bv_lock, lock);
            }
            typval_T { v_type: t.v_type, v_lock: nl, vval: typval_vval_union::v_blob(Some(nb)) }
        },
        (VarType::VAR_LIST, typval_vval_union::v_list(Some(l))) => {
            if chk && l.lv_refcount > 1 {
                let mut r = tv_dup(t);
                r.v_lock = nl;
                return r;
            }
            proof {
                assert(decreases_to!(t => t.vval));
                assert(decreases_to!(t.vval => t.vval->v_list_0));
                lemma_items_view_index_all(l.lv_items@);
            }
            let rec = deep < 0 || deep > 1;
            let mut items: Vec<typval_T> = Vec::new();
            let mut i: usize = 0;
            while i < l.lv_items.len()
                invariant i <= l.lv_items@.len(), items@.len() == i,
                    forall|j: int| 0 <= j < i ==> tv_view(#[trigger] items@[j]) == (if rec { item_lock_spec(tv_view(l.lv_items@[j]), deep - 1, lock, chk, recurse + 1) } else { tv_view(l.lv_items@[j]) }),
                decreases l.lv_items@.len() - i,
            {
                proof { assert(decreases_to!(l.lv_items => l.lv_items@[i as int])); }
                let x = if rec { item_lock_rec(&l.lv_items[i], deep - 1, lock, chk, recurse + 1) } else { tv_dup(&l.lv_items[i]) };
                items.push(x);
                i += 1;
            }
            proof { lemma_items_view_index_all(items@); }
            let r = typval_T { v_type: t.v_type, v_lock: nl, vval: typval_vval_union::v_list(Some(list_T {
                lv_items: items, lv_lock: change_lock_exec(l.lv_lock, lock), lv_refcount: l.lv_refcount })) };
            assert(r@.v->List_0->Some_0.items =~= item_lock_spec(t@, deep as int, lock, chk, recurse as int).v->List_0->Some_0.items);
            r
        },
        (VarType::VAR_DICT, typval_vval_union::v_dict(Some(d))) => {
            if chk && d.dv_refcount > 1 {
                let mut r = tv_dup(t);
                r.v_lock = nl;
                return r;
            }
            proof {
                assert(decreases_to!(t => t.vval));
                assert(decreases_to!(t.vval => t.vval->v_dict_0));
                lemma_dict_view_parts(*d);
            }
            let mut out: Vec<dictitem_T> = Vec::new();
            let mut i: usize = 0;
            let rec = deep < 0 || deep > 1;
            while i < d.dv_hashtab.len()
                invariant i <= d.dv_hashtab@.len(), out@.len() == i,
                    forall|j: int| 0 <= j < i ==> (#[trigger] out@[j]).di_key@ == d.dv_hashtab@[j].di_key@
                        && tv_view(out@[j].di_tv) == (if rec { item_lock_spec(tv_view(d.dv_hashtab@[j].di_tv), deep - 1, lock, chk, recurse + 1) } else { tv_view(d.dv_hashtab@[j].di_tv) }),
                decreases d.dv_hashtab@.len() - i,
            {
                proof {
                    assert(decreases_to!(d.dv_hashtab => d.dv_hashtab@[i as int]));
                    assert(decreases_to!(d => d.dv_hashtab@[i as int].di_tv));
                }
                let key = bytes_dup(&d.dv_hashtab[i].di_key);
                let v = if rec { item_lock_rec(&d.dv_hashtab[i].di_tv, deep - 1, lock, chk, recurse + 1) } else { tv_dup(&d.dv_hashtab[i].di_tv) };
                out.push(dictitem_T { di_key: key, di_tv: v });
                i += 1;
            }
            let nd = dict_T { dv_hashtab: out, dv_lock: change_lock_exec(d.dv_lock, lock), dv_refcount: d.dv_refcount, dv_watchers: crate::dup::watchers_dup(&d.dv_watchers) };
            proof { lemma_dict_view_parts(nd); }
            let r = typval_T { v_type: t.v_type, v_lock: nl, vval: typval_vval_union::v_dict(Some(nd)) };
            let ghost want = item_lock_spec(t@, deep as int, lock, chk, recurse as int).v->Dict_0->Some_0;
            assert(r@.v->Dict_0->Some_0.keys =~= want.keys);
            assert(r@.v->Dict_0->Some_0.vals =~= want.vals);
            assert forall|j: int| 0 <= j < d.dv_watchers@.len() implies r@.v->Dict_0->Some_0.watchers[j] == want.watchers[j] by {
                assert(nd.dv_watchers@[j]@ == d.dv_watchers@[j]@);
            }
            assert(r@.v->Dict_0->Some_0.watchers =~= want.watchers);
            r
        },
        _ => {
            let mut r = tv_dup(t);
            r.v_lock = nl;
            r
        },
    }
}

/// Lock (or unlock) `tv` and, `deep` levels down
/// (all levels when `deep < 0`), its contents. `VAR_FIXED` never changes; with
/// `check_refcount`, containers with more than one reference are skipped;
/// nesting beyond `DICT_MAXNEST` levels is left alone.
pub fn tv_item_lock(tv: &mut typval_T, deep: i32, lock: bool, check_refcount: bool)
    requires deep >= 0 || deep > i32::MIN + 101,
    ensures final(tv)@ == item_lock_spec(old(tv)@, deep as int, lock, check_refcount, 0),
{
    let r = item_lock_rec(tv, deep, lock, check_refcount, 0);
    *tv = r;
}

} // verus!
