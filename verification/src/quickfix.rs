//! Quickfix and location lists: entries set from Lists of Dicts and read back as Lists or property Dicts.
use vstd::prelude::*;
use crate::typval_defs::{
    varnumber_T, OK, FAIL, VarType, VarLockStatus, BoolVarValue, SpecialVarValue, typval_vval_union,
    typval_T, list_T, dict_T, dictitem_T, blob_T, partial_T, Callback, DictWatcher, TypVal, VVal,
    ListVal, DictVal, BlobVal, CallbackVal, WatcherVal, tv_view, list_view, dict_view, items_view, dict_index_of,
    mk_tv, num_tv, str_tv, list_tv, blob_tv, dict_tv, empty_dict_val, dict_wf, keys_unique,
    lemma_items_view_ext, lemma_items_view_index, lemma_items_view_push, lemma_items_view_subrange,
    lemma_items_view_add, lemma_items_view_reverse, lemma_items_view_update, lemma_items_view_insert,
    lemma_items_view_remove, lemma_items_view_empty,
};
use crate::charset::{nr2str, nr2bytes, str2nr, str2nr_all};
use crate::dup::{bytes_dup, tv_dup, list_dup, dict_dup, blob_dup, items_dup, slice_to_vec, callback_dup, append_bytes};
use crate::typval::{
    number_of, number_chk_result, string_of, string_or_empty, tv_get_number_chk, tv_get_number,
    tv_get_bool, tv_get_string, tv_get_string_chk, tv_get_string_buf_chk, tv_equal, tv_equal_spec,
    bytes_eq, dict_find_index,
};
use crate::typval_list::{lemma_items_view_index_all, number_tv, string_tv};
use crate::typval_dict::{lemma_dict_view_parts, dict_get, dict_set, lemma_dict_index_of, tv_dict_find, tv_dict_alloc, tv_dict_add_str, tv_dict_add_nr, tv_dict_add_tv};
use crate::funcs_basic::{with_number, set_number, with_list, set_list};
use crate::list_funcs::with_dict;
use crate::signs::{dict_of, sign_dict_nr, sign_dict_str};

verus! {


// ── the keys ──

/// The keys of a quickfix entry and of the properties Dict.
pub open spec fn qk_bufnr() -> Seq<u8> { seq![98u8, 117, 102, 110, 114] }
pub open spec fn qk_module() -> Seq<u8> { seq![109u8, 111, 100, 117, 108, 101] }
pub open spec fn qk_lnum() -> Seq<u8> { seq![108u8, 110, 117, 109] }
pub open spec fn qk_end_lnum() -> Seq<u8> { seq![101u8, 110, 100, 95, 108, 110, 117, 109] }
pub open spec fn qk_col() -> Seq<u8> { seq![99u8, 111, 108] }
pub open spec fn qk_end_col() -> Seq<u8> { seq![101u8, 110, 100, 95, 99, 111, 108] }
pub open spec fn qk_vcol() -> Seq<u8> { seq![118u8, 99, 111, 108] }
pub open spec fn qk_nr() -> Seq<u8> { seq![110u8, 114] }
pub open spec fn qk_pattern() -> Seq<u8> { seq![112u8, 97, 116, 116, 101, 114, 110] }
pub open spec fn qk_text() -> Seq<u8> { seq![116u8, 101, 120, 116] }
pub open spec fn qk_type() -> Seq<u8> { seq![116u8, 121, 112, 101] }
pub open spec fn qk_valid() -> Seq<u8> { seq![118u8, 97, 108, 105, 100] }
pub open spec fn qk_title() -> Seq<u8> { seq![116u8, 105, 116, 108, 101] }
pub open spec fn qk_size() -> Seq<u8> { seq![115u8, 105, 122, 101] }
pub open spec fn qk_winid() -> Seq<u8> { seq![119u8, 105, 110, 105, 100] }
pub open spec fn qk_items() -> Seq<u8> { seq![105u8, 116, 101, 109, 115] }

fn qkey_bufnr() -> (r: Vec<u8>)
    ensures r@ == qk_bufnr(),
{
    let v: Vec<u8> = vec![98u8, 117, 102, 110, 114];
    assert(v@ =~= qk_bufnr());
    v
}

fn qkey_module() -> (r: Vec<u8>)
    ensures r@ == qk_module(),
{
    let v: Vec<u8> = vec![109u8, 111, 100, 117, 108, 101];
    assert(v@ =~= qk_module());
    v
}

fn qkey_lnum() -> (r: Vec<u8>)
    ensures r@ == qk_lnum(),
{
    let v: Vec<u8> = vec![108u8, 110, 117, 109];
    assert(v@ =~= qk_lnum());
    v
}

fn qkey_end_lnum() -> (r: Vec<u8>)
    ensures r@ == qk_end_lnum(),
{
    let v: Vec<u8> = vec![101u8, 110, 100, 95, 108, 110, 117, 109];
    assert(v@ =~= qk_end_lnum());
    v
}

fn qkey_col() -> (r: Vec<u8>)
    ensures r@ == qk_col(),
{
    let v: Vec<u8> = vec![99u8, 111, 108];
    assert(v@ =~= qk_col());
    v
}

fn qkey_end_col() -> (r: Vec<u8>)
    ensures r@ == qk_end_col(),
{
    let v: Vec<u8> = vec![101u8, 110, 100, 95, 99, 111, 108];
    assert(v@ =~= qk_end_col());
    v
}

fn qkey_vcol() -> (r: Vec<u8>)
    ensures r@ == qk_vcol(),
{
    let v: Vec<u8> = vec![118u8, 99, 111, 108];
    assert(v@ =~= qk_vcol());
    v
}

fn qkey_nr() -> (r: Vec<u8>)
    ensures r@ == qk_nr(),
{
    let v: Vec<u8> = vec![110u8, 114];
    assert(v@ =~= qk_nr());
    v
}

fn qkey_pattern() -> (r: Vec<u8>)
    ensures r@ == qk_pattern(),
{
    let v: Vec<u8> = vec![112u8, 97, 116, 116, 101, 114, 110];
    assert(v@ =~= qk_pattern());
    v
}

fn qkey_text() -> (r: Vec<u8>)
    ensures r@ == qk_text(),
{
    let v: Vec<u8> = vec![116u8, 101, 120, 116];
    assert(v@ =~= qk_text());
    v
}

fn qkey_type() -> (r: Vec<u8>)
    ensures r@ == qk_type(),
{
    let v: Vec<u8> = vec![116u8, 121, 112, 101];
    assert(v@ =~= qk_type());
    v
}

fn qkey_valid() -> (r: Vec<u8>)
    ensures r@ == qk_valid(),
{
    let v: Vec<u8> = vec![118u8, 97, 108, 105, 100];
    assert(v@ =~= qk_valid());
    v
}

fn qkey_title() -> (r: Vec<u8>)
    ensures r@ == qk_title(),
{
    let v: Vec<u8> = vec![116u8, 105, 116, 108, 101];
    assert(v@ =~= qk_title());
    v
}

fn qkey_size() -> (r: Vec<u8>)
    ensures r@ == qk_size(),
{
    let v: Vec<u8> = vec![115u8, 105, 122, 101];
    assert(v@ =~= qk_size());
    v
}

fn qkey_winid() -> (r: Vec<u8>)
    ensures r@ == qk_winid(),
{
    let v: Vec<u8> = vec![119u8, 105, 110, 105, 100];
    assert(v@ =~= qk_winid());
    v
}

fn qkey_items() -> (r: Vec<u8>)
    ensures r@ == qk_items(),
{
    let v: Vec<u8> = vec![105u8, 116, 101, 109, 115];
    assert(v@ =~= qk_items());
    v
}

// ── the lists ──

/// A quickfix or location list: its entries (each a Dict) and its title.
pub struct QfList {
    pub entries: Vec<typval_T>,
    pub title: Vec<u8>,
}

/// The model of a list.
pub struct QfVal {
    pub entries: Seq<TypVal>,
    pub title: Seq<u8>,
}

impl View for QfList {
    type V = QfVal;
    open spec fn view(&self) -> QfVal {
        QfVal { entries: items_view(self.entries@), title: self.title@ }
    }
}

/// The quickfix list and the location list (there is one window).
pub struct Quickfix {
    pub qf: QfList,
    pub loc: QfList,
}

/// Both lists empty, without titles.
pub fn quickfix_new() -> (q: Quickfix)
    ensures q.qf@.entries.len() == 0, q.qf@.title.len() == 0, q.loc@.entries.len() == 0, q.loc@.title.len() == 0,
{
    let q = Quickfix { qf: QfList { entries: Vec::new(), title: Vec::new() }, loc: QfList { entries: Vec::new(), title: Vec::new() } };
    proof { lemma_items_view_index_all(q.qf.entries@); lemma_items_view_index_all(q.loc.entries@); }
    q
}

/// The entry Dict made from an item: every field with its default, "valid"
/// when there is a buffer or a line number.
pub open spec fn qf_entry(item: TypVal) -> TypVal {
    let bufnr = sign_dict_nr(item, qk_bufnr(), 0);
    let lnum = sign_dict_nr(item, qk_lnum(), 0);
    dict_tv(DictVal {
        keys: seq![qk_bufnr(), qk_module(), qk_lnum(), qk_end_lnum(), qk_col(), qk_end_col(), qk_vcol(), qk_nr(),
            qk_pattern(), qk_text(), qk_type(), qk_valid()],
        vals: seq![num_tv(bufnr), str_tv(sign_dict_str(item, qk_module(), Seq::empty())), num_tv(lnum),
            num_tv(sign_dict_nr(item, qk_end_lnum(), 0)), num_tv(sign_dict_nr(item, qk_col(), 0)),
            num_tv(sign_dict_nr(item, qk_end_col(), 0)), num_tv(sign_dict_nr(item, qk_vcol(), 0)),
            num_tv(sign_dict_nr(item, qk_nr(), 0)), str_tv(sign_dict_str(item, qk_pattern(), Seq::empty())),
            str_tv(sign_dict_str(item, qk_text(), Seq::empty())), str_tv(sign_dict_str(item, qk_type(), Seq::empty())),
            num_tv(if bufnr > 0 || lnum > 0 { 1 } else { 0 })],
        ..empty_dict_val()
    })
}

fn dnr(t: &typval_T, key: Vec<u8>) -> (r: typval_T)
    ensures r@ == num_tv(sign_dict_nr(t@, key@, 0)),
{
    number_tv(dict_nr0(t, key.as_slice()))
}

fn dict_nr0(t: &typval_T, key: &[u8]) -> (r: i64)
    ensures r as int == sign_dict_nr(t@, key@, 0),
{
    match (&t.v_type, &t.vval) {
        (VarType::VAR_DICT, typval_vval_union::v_dict(Some(d))) => {
            match tv_dict_find(d, key) { Some(v) => tv_get_number(v), None => 0 }
        },
        _ => 0,
    }
}

fn dstr(t: &typval_T, key: Vec<u8>) -> (r: typval_T)
    ensures r@ == str_tv(sign_dict_str(t@, key@, Seq::empty())),
{
    let s = match (&t.v_type, &t.vval) {
        (VarType::VAR_DICT, typval_vval_union::v_dict(Some(d))) => {
            match tv_dict_find(d, key.as_slice()) { Some(v) => tv_get_string(v), None => Vec::new() }
        },
        _ => Vec::new(),
    };
    string_tv(s)
}

fn qf_add_entry(item: &typval_T) -> (r: typval_T)
    ensures r@ == qf_entry(item@),
{
    let bufnr = dict_nr0(item, qkey_bufnr().as_slice());
    let lnum = dict_nr0(item, qkey_lnum().as_slice());
    let valid: i64 = if bufnr > 0 || lnum > 0 { 1 } else { 0 };
    let items: Vec<dictitem_T> = vec![
        dictitem_T { di_key: qkey_bufnr(), di_tv: number_tv(bufnr) },
        dictitem_T { di_key: qkey_module(), di_tv: dstr(item, qkey_module()) },
        dictitem_T { di_key: qkey_lnum(), di_tv: number_tv(lnum) },
        dictitem_T { di_key: qkey_end_lnum(), di_tv: dnr(item, qkey_end_lnum()) },
        dictitem_T { di_key: qkey_col(), di_tv: dnr(item, qkey_col()) },
        dictitem_T { di_key: qkey_end_col(), di_tv: dnr(item, qkey_end_col()) },
        dictitem_T { di_key: qkey_vcol(), di_tv: dnr(item, qkey_vcol()) },
        dictitem_T { di_key: qkey_nr(), di_tv: dnr(item, qkey_nr()) },
        dictitem_T { di_key: qkey_pattern(), di_tv: dstr(item, qkey_pattern()) },
        dictitem_T { di_key: qkey_text(), di_tv: dstr(item, qkey_text()) },
        dictitem_T { di_key: qkey_type(), di_tv: dstr(item, qkey_type()) },
        dictitem_T { di_key: qkey_valid(), di_tv: number_tv(valid) },
    ];
    let d = dict_T { dv_hashtab: items, dv_lock: VarLockStatus::VAR_UNLOCKED, dv_refcount: 0, dv_watchers: Vec::new() };
    proof { lemma_dict_view_parts(d); }
    assert(d@.keys =~= qf_entry(item@).v->Dict_0->Some_0.keys);
    assert(d@.vals =~= qf_entry(item@).v->Dict_0->Some_0.vals);
    assert(d@.watchers =~= Seq::<WatcherVal>::empty());
    typval_T { v_type: VarType::VAR_DICT, v_lock: VarLockStatus::VAR_UNLOCKED, vval: typval_vval_union::v_dict(Some(d)) }
}

/// The entries made from the Dict items of a List, in order (other items
/// are left out).
pub open spec fn qf_entries(items: Seq<TypVal>) -> Seq<TypVal>
    decreases items.len(),
{
    if items.len() == 0 {
        Seq::empty()
    } else {
        let r = qf_entries(items.drop_last());
        if items.last().ty == VarType::VAR_DICT { r.push(qf_entry(items.last())) } else { r }
    }
}

/// The items of a List typval, if it holds one.
pub open spec fn list_items(t: TypVal) -> Option<Seq<TypVal>> {
    if t.ty == VarType::VAR_LIST && t.v is List && t.v->List_0 is Some { Some(t.v->List_0->Some_0.items) } else { None }
}

/// Setting a list: action "f" empties it (title too); for anything but a
/// List the result is -1 and nothing changes; else "a" appends the entries
/// and any other action replaces them, and a `{what}` Dict with "title"
/// sets the title. The list after it and the result.
pub open spec fn qf_set(l: QfVal, list: TypVal, action: Seq<u8>, what: Option<TypVal>) -> (QfVal, int) {
    if action == seq![102u8] {
        (QfVal { entries: Seq::empty(), title: Seq::empty() }, 0)
    } else {
        match list_items(list) {
            None => (l, -1),
            Some(items) => {
                let es = qf_entries(items);
                let entries = if action == seq![97u8] { l.entries + es } else { es };
                let title = match what {
                    Some(w) => match dict_of(w) {
                        Some(d) => match dict_get(d, qk_title()) { Some(t) => string_or_empty(t), None => l.title },
                        None => l.title,
                    },
                    None => l.title,
                };
                (QfVal { entries, title }, 0)
            },
        }
    }
}

fn qf_set_list(store: &mut QfList, list: &typval_T, action: &[u8], what: Option<&typval_T>) -> (r: i64)
    ensures
        (final(store)@, r as int) == qf_set(old(store)@, list@, action@, match what { Some(w) => Some(w@), None => None }),
{
    let ghost old_entries = store@.entries;
    let ghost old_title = store@.title;
    if action.len() == 1 && action[0] == 102u8 {
        assert(action@ =~= seq![102u8]);
        store.entries = Vec::new();
        store.title = Vec::new();
        proof { lemma_items_view_index_all(store.entries@); }
        assert(store@.entries =~= Seq::<TypVal>::empty());
        assert(store@.title =~= Seq::<u8>::empty());
        return 0;
    }
    assert(action@ != seq![102u8]) by {
        if action@ == seq![102u8] { assert(action@.len() == 1 && action@[0] == 102u8); }
    }
    let l = match (&list.v_type, &list.vval) {
        (VarType::VAR_LIST, typval_vval_union::v_list(Some(l))) => l,
        _ => { return -1; },
    };
    let ghost items = l@.items;
    proof { lemma_items_view_index_all(l.lv_items@); }
    let mut es: Vec<typval_T> = Vec::new();
    let mut i: usize = 0;
    while i < l.lv_items.len()
        invariant
            i <= l.lv_items@.len(), items == l@.items, items.len() == l.lv_items@.len(),
            forall|k: int| 0 <= k < l.lv_items@.len() ==> #[trigger] items[k] == l.lv_items@[k]@,
            items_view(es@) == qf_entries(items.subrange(0, i as int)),
        decreases l.lv_items.len() - i,
    {
        assert(items.subrange(0, i as int + 1).drop_last() =~= items.subrange(0, i as int));
        assert(items.subrange(0, i as int + 1).last() == l.lv_items@[i as int]@);
        if l.lv_items[i].v_type == VarType::VAR_DICT {
            let e = qf_add_entry(&l.lv_items[i]);
            let ghost before = es@;
            proof { lemma_items_view_push(before, e); }
            es.push(e);
        }
        i += 1;
    }
    assert(items.subrange(0, items.len() as int) =~= items);
    let is_append = action.len() == 1 && action[0] == 97u8;
    assert(is_append == (action@ == seq![97u8])) by {
        if action@ == seq![97u8] { assert(action@.len() == 1 && action@[0] == 97u8); }
        if is_append { assert(action@ =~= seq![97u8]); }
    }
    if is_append {
        let ghost before = store.entries@;
        let mut k: usize = 0;
        while k < es.len()
            invariant
                k <= es@.len(),
                items_view(store.entries@) == items_view(before) + items_view(es@).subrange(0, k as int),
                store.title@ == old_title,
            decreases es.len() - k,
        {
            let e = tv_dup(&es[k]);
            let ghost b2 = store.entries@;
            proof {
                lemma_items_view_push(b2, e);
                lemma_items_view_index_all(es@);
            }
            store.entries.push(e);
            assert(items_view(store.entries@) =~= items_view(before) + items_view(es@).subrange(0, k as int + 1));
            k += 1;
        }
        proof { lemma_items_view_index_all(es@); }
        assert(items_view(es@).subrange(0, es@.len() as int) =~= items_view(es@));
    } else {
        store.entries = es;
    }
    match what {
        Some(w) => {
            match (&w.v_type, &w.vval) {
                (VarType::VAR_DICT, typval_vval_union::v_dict(Some(wd))) => {
                    let tk = qkey_title();
                    match tv_dict_find(wd, tk.as_slice()) {
                        Some(t) => { store.title = tv_get_string(t); },
                        None => {},
                    }
                },
                _ => {},
            }
        },
        None => {},
    }
    0
}

/// "setqflist({list} [, {action} [, {what}]])": set the quickfix list (see
/// `qf_set`); the result is 0, or -1 for anything but a List.
pub fn f_setqflist(q: &mut Quickfix, argvars: &[typval_T], rettv: &mut typval_T)
    requires argvars@.len() >= 1,
    ensures ({
        let a = argvars@;
        let r = qf_set(old(q).qf@, a[0]@, if a.len() >= 2 { string_or_empty(a[1]@) } else { Seq::empty() },
            if a.len() >= 3 { Some(a[2]@) } else { None });
        final(q).qf@ == r.0 && final(rettv)@ == with_number(old(rettv)@, r.1) && final(q).loc@ == old(q).loc@
    }),
{
    let action = if argvars.len() >= 2 { tv_get_string(&argvars[1]) } else { Vec::new() };
    let what = if argvars.len() >= 3 { Some(&argvars[2]) } else { None };
    let r = qf_set_list(&mut q.qf, &argvars[0], action.as_slice(), what);
    set_number(rettv, r);
}

/// "setloclist({nr}, {list} [, {action} [, {what}]])": the same for the
/// location list.
pub fn f_setloclist(q: &mut Quickfix, argvars: &[typval_T], rettv: &mut typval_T)
    requires argvars@.len() >= 2,
    ensures ({
        let a = argvars@;
        let r = qf_set(old(q).loc@, a[1]@, if a.len() >= 3 { string_or_empty(a[2]@) } else { Seq::empty() },
            if a.len() >= 4 { Some(a[3]@) } else { None });
        final(q).loc@ == r.0 && final(rettv)@ == with_number(old(rettv)@, r.1) && final(q).qf@ == old(q).qf@
    }),
{
    let action = if argvars.len() >= 3 { tv_get_string(&argvars[2]) } else { Vec::new() };
    let what = if argvars.len() >= 4 { Some(&argvars[3]) } else { None };
    let r = qf_set_list(&mut q.loc, &argvars[1], action.as_slice(), what);
    set_number(rettv, r);
}

/// `d` with `key` added as `v` unless it is there already.
pub open spec fn add_new(d: DictVal, key: Seq<u8>, v: TypVal) -> DictVal {
    if dict_get(d, key) is Some { d } else { dict_set(d, key, v) }
}

/// The properties Dict for the first `n` keys asked for: "title", "nr"
/// (0), "size", "winid" (0) and "items"; other keys are skipped.
pub open spec fn qf_props(l: QfVal, keys: Seq<Seq<u8>>, n: int) -> DictVal
    decreases n,
{
    if n <= 0 {
        empty_dict_val()
    } else {
        let d = qf_props(l, keys, n - 1);
        let k = keys[n - 1];
        if k == qk_title() { add_new(d, qk_title(), str_tv(l.title)) }
        else if k == qk_nr() { add_new(d, qk_nr(), num_tv(0)) }
        else if k == qk_size() { add_new(d, qk_size(), num_tv(l.entries.len() as int)) }
        else if k == qk_winid() { add_new(d, qk_winid(), num_tv(0)) }
        else if k == qk_items() { dict_set(d, qk_items(), list_tv(l.entries)) }
        else { d }
    }
}

/// What reading a list gives: with a `{what}` Dict the properties its keys
/// ask for, else the List of entries.
pub open spec fn qf_get(r: TypVal, l: QfVal, what: Option<TypVal>) -> TypVal {
    match what {
        Some(w) => if w.ty == VarType::VAR_DICT {
            let keys = match w.v { VVal::Dict(Some(d)) => d.keys, _ => Seq::empty() };
            with_dict(r, qf_props(l, keys, keys.len() as int))
        } else {
            with_list(r, l.entries)
        },
        None => with_list(r, l.entries),
    }
}

fn entries_copy(v: &Vec<typval_T>) -> (r: Vec<typval_T>)
    ensures items_view(r@) == items_view(v@),
{
    let r = items_dup(v);
    proof {
        lemma_items_view_index_all(r@);
        lemma_items_view_index_all(v@);
        assert forall|k: int| 0 <= k < r@.len() implies #[trigger] items_view(r@)[k] == items_view(v@)[k] by {
            assert(r@[k]@ == v@[k]@);
        }
    }
    assert(items_view(r@) =~= items_view(v@));
    r
}

fn qf_get_list(store: &QfList, what: Option<&typval_T>, rettv: &mut typval_T)
    requires store.entries@.len() < i64::MAX,
    ensures final(rettv)@ == qf_get(old(rettv)@, store@, match what { Some(w) => Some(w@), None => None }),
{
    match what {
        Some(w) => {
            if w.v_type == VarType::VAR_DICT {
                let mut d = tv_dict_alloc();
                let ghost keys = match w@.v { VVal::Dict(Some(dd)) => dd.keys, _ => Seq::<Seq<u8>>::empty() };
                match &w.vval {
                    typval_vval_union::v_dict(Some(wd)) => {
                        proof { lemma_dict_view_parts(*wd); }
                        let mut i: usize = 0;
                        while i < wd.dv_hashtab.len()
                            invariant
                                i <= wd.dv_hashtab@.len(), keys == wd@.keys, keys.len() == wd.dv_hashtab@.len(),
                                forall|j: int| 0 <= j < wd.dv_hashtab@.len() ==> #[trigger] keys[j] == wd.dv_hashtab@[j].di_key@,
                                d@ == qf_props(store@, keys, i as int), store.entries@.len() < i64::MAX,
                            decreases wd.dv_hashtab.len() - i,
                        {
                            let k = wd.dv_hashtab[i].di_key.as_slice();
                            let tk = qkey_title();
                            let nk = qkey_nr();
                            let sk = qkey_size();
                            let wk = qkey_winid();
                            let ik = qkey_items();
                            if bytes_eq(k, tk.as_slice()) {
                                tv_dict_add_str(&mut d, tk.as_slice(), store.title.as_slice());
                            } else if bytes_eq(k, nk.as_slice()) {
                                tv_dict_add_nr(&mut d, nk.as_slice(), 0);
                            } else if bytes_eq(k, sk.as_slice()) {
                                let n = store.entries.len();
                                proof { lemma_items_view_index_all(store.entries@); }
                                tv_dict_add_nr(&mut d, sk.as_slice(), n as i64);
                            } else if bytes_eq(k, wk.as_slice()) {
                                tv_dict_add_nr(&mut d, wk.as_slice(), 0);
                            } else if bytes_eq(k, ik.as_slice()) {
                                let es = entries_copy(&store.entries);
                                let lt = typval_T { v_type: VarType::VAR_LIST, v_lock: VarLockStatus::VAR_UNLOCKED,
                                    vval: typval_vval_union::v_list(Some(list_T { lv_items: es, lv_lock: VarLockStatus::VAR_UNLOCKED, lv_refcount: 0 })) };
                                tv_dict_add_tv(&mut d, ik.as_slice(), lt);
                            }
                            i += 1;
                        }
                    },
                    _ => {},
                }
                rettv.v_type = VarType::VAR_DICT;
                rettv.vval = typval_vval_union::v_dict(Some(d));
            } else {
                set_list(rettv, list_T { lv_items: entries_copy(&store.entries), lv_lock: VarLockStatus::VAR_UNLOCKED, lv_refcount: 0 });
            }
        },
        None => {
            set_list(rettv, list_T { lv_items: entries_copy(&store.entries), lv_lock: VarLockStatus::VAR_UNLOCKED, lv_refcount: 0 });
        },
    }
}

/// "getqflist([{what}])": the quickfix list (see `qf_get`).
pub fn f_getqflist(q: &Quickfix, argvars: &[typval_T], rettv: &mut typval_T)
    requires q.qf.entries@.len() < i64::MAX,
    ensures final(rettv)@ == qf_get(old(rettv)@, q.qf@, if argvars@.len() >= 1 { Some(argvars@[0]@) } else { None }),
{
    let what = if argvars.len() >= 1 { Some(&argvars[0]) } else { None };
    qf_get_list(&q.qf, what, rettv);
}

/// "getloclist({nr} [, {what}])": the location list (see `qf_get`).
pub fn f_getloclist(q: &Quickfix, argvars: &[typval_T], rettv: &mut typval_T)
    requires q.loc.entries@.len() < i64::MAX,
    ensures final(rettv)@ == qf_get(old(rettv)@, q.loc@, if argvars@.len() >= 2 { Some(argvars@[1]@) } else { None }),
{
    let what = if argvars.len() >= 2 { Some(&argvars[1]) } else { None };
    qf_get_list(&q.loc, what, rettv);
}

} // verus!
