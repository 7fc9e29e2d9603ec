//! The window's match list that "matchadd()" and friends work on.
use vstd::prelude::*;
use crate::typval_defs::{
    varnumber_T, OK, FAIL, VarType, VarLockStatus, BoolVarValue, SpecialVarValue, typval_vval_union,
    typval_T, list_T, dict_T, dictitem_T, blob_T, partial_T, Callback, DictWatcher, TypVal, VVal,
    ListVal, DictVal, BlobVal, CallbackVal, WatcherVal, tv_view, list_view, dict_view, items_view, dict_index_of,
    mk_tv, num_tv, str_tv, list_tv, blob_tv, dict_tv, empty_dict_val, dict_wf, keys_unique,
    lemma_items_view_ext, lemma_items_view_index, lemma_items_view_push, lemma_items_view_subrange,
    lemma_items_view_add, lemma_items_view_reverse, lemma_items_view_update, lemma_items_view_insert,
    lemma_items_view_remove, lemma_items_view_empty,
};
use crate::charset::{nr2str, nr2bytes, str2nr, str2nr_all};
use crate::dup::{bytes_dup, tv_dup, list_dup, dict_dup, blob_dup, items_dup, slice_to_vec, callback_dup, append_bytes};
use crate::typval::{
    number_of, number_chk_result, string_of, string_or_empty, tv_get_number_chk, tv_get_number,
    tv_get_bool, tv_get_string, tv_get_string_chk, tv_get_string_buf_chk, tv_equal, tv_equal_spec,
    bytes_eq, dict_find_index,
};
use crate::typval_list::lemma_items_view_index_all;
use crate::typval_dict::{lemma_dict_view_parts, dict_get, lemma_dict_index_of, tv_dict_find};
use crate::funcs_basic::{with_number, set_number, with_list, set_list};
use crate::highlight::bytes_copy;
use crate::textbuf::{str_value, num_value};

verus! {

// ── the match list ──

/// The matches of the window: each a Dict (`group`, `pattern` or `pos1`...,
/// `priority`, `id`), and the last id given out.
pub struct Matches {
    pub list: Vec<typval_T>,
    pub last_id: i64,
}

/// No matches; ids given out start after 1000.
pub fn matches_new() -> (m: Matches)
    ensures m.list@.len() == 0, m.last_id == 1000,
{
    Matches { list: Vec::new(), last_id: 1000 }
}

/// The keys "group", "pattern", "priority", "id".
pub open spec fn group_k() -> Seq<u8> { seq![103u8, 114, 111, 117, 112] }
pub open spec fn pattern_k() -> Seq<u8> { seq![112u8, 97, 116, 116, 101, 114, 110] }
pub open spec fn priority_k() -> Seq<u8> { seq![112u8, 114, 105, 111, 114, 105, 116, 121] }
pub open spec fn id_k() -> Seq<u8> { seq![105u8, 100] }

/// The id a match gets: an explicit `{id}` (1 or more), or for -1 the next
/// one given out; `None` for any other.
pub open spec fn match_id(args: Seq<typval_T>, last: int) -> Option<int> {
    let id = if args.len() >= 4 { number_chk_result(args[3]@, true) } else { -1 };
    if id == 0 || id < -1 { None } else if id == -1 { Some(last + 1) } else { Some(id) }
}

/// The priority argument (10 when not given).
pub open spec fn match_priority(args: Seq<typval_T>) -> int {
    if args.len() >= 3 { number_chk_result(args[2]@, true) } else { 10 }
}

/// The Dict "matchadd()" stores.
pub open spec fn pattern_match_dict(group: Seq<u8>, pattern: Seq<u8>, priority: int, id: int) -> TypVal {
    dict_tv(DictVal {
        keys: seq![group_k(), pattern_k(), priority_k(), id_k()],
        vals: seq![str_tv(group), str_tv(pattern), num_tv(priority), num_tv(id)],
        ..empty_dict_val()
    })
}

fn key_bytes4(a: u8, b: u8, c: u8, d: u8, n: usize) -> (r: Vec<u8>)
    requires n <= 4,
    ensures r@ == seq![a, b, c, d].subrange(0, n as int),
{
    let mut v: Vec<u8> = Vec::new();
    if n > 0 { v.push(a); }
    if n > 1 { v.push(b); }
    if n > 2 { v.push(c); }
    if n > 3 { v.push(d); }
    assert(v@ =~= seq![a, b, c, d].subrange(0, n as int));
    v
}

/// The id a match gets (see `match_id`), and the counter after it.
fn next_match_id(m: &mut Matches, argvars: &[typval_T]) -> (r: Option<i64>)
    requires old(m).last_id < i64::MAX,
    ensures
        match match_id(argvars@, old(m).last_id as int) {
            None => r is None && final(m).last_id == old(m).last_id,
            Some(id) => r is Some && r->Some_0 as int == id
                && final(m).last_id == (if argvars@.len() >= 4 && number_chk_result(argvars@[3]@, true) != -1 { old(m).last_id as int } else { id }),
        },
        final(m).list == old(m).list,
{
    let id = if argvars.len() >= 4 { tv_get_number(&argvars[3]) } else { -1 };
    if id == 0 || id < -1 {
        return None;
    }
    if id == -1 {
        m.last_id = m.last_id + 1;
        Some(m.last_id)
    } else {
        Some(id)
    }
}

/// The counter once a match is added: advanced when the id was given out.
pub open spec fn next_last(args: Seq<typval_T>, last: int) -> int {
    if args.len() >= 4 && number_chk_result(args[3]@, true) != -1 { last } else { last + 1 }
}

/// "matchadd({group}, {pattern} [, {priority} [, {id}]])": add a match
/// with the given or next id; the result is the id, or -1 for an id that
/// is neither -1 nor 1 or more (and nothing is added).
pub fn f_matchadd(m: &mut Matches, argvars: &[typval_T], rettv: &mut typval_T)
    requires argvars@.len() >= 2, old(m).last_id < i64::MAX,
    ensures
        match match_id(argvars@, old(m).last_id as int) {
            None => final(m).list@ == old(m).list@ && final(m).last_id == old(m).last_id
                && final(rettv)@ == with_number(old(rettv)@, -1),
            Some(id) => items_view(final(m).list@) == items_view(old(m).list@).push(pattern_match_dict(
                    string_or_empty(argvars@[0]@), string_or_empty(argvars@[1]@), match_priority(argvars@), id))
                && final(m).last_id == next_last(argvars@, old(m).last_id as int)
                && final(rettv)@ == with_number(old(rettv)@, id),
        },
{
    let group = tv_get_string(&argvars[0]);
    let pattern = tv_get_string(&argvars[1]);
    let priority = if argvars.len() >= 3 { tv_get_number(&argvars[2]) } else { 10 };
    let id = match next_match_id(m, argvars) {
        Some(id) => id,
        None => {
            set_number(rettv, -1);
            return;
        },
    };
    let k1 = key_bytes4(103u8, 114, 111, 117, 4);
    let mut k1b = k1;
    k1b.push(112u8);
    assert(k1b@ =~= group_k());
    let mut k2: Vec<u8> = key_bytes4(112u8, 97, 116, 116, 4);
    k2.push(101u8); k2.push(114u8); k2.push(110u8);
    assert(k2@ =~= pattern_k());
    let mut k3: Vec<u8> = key_bytes4(112u8, 114, 105, 111, 4);
    k3.push(114u8); k3.push(105u8); k3.push(116u8); k3.push(121u8);
    assert(k3@ =~= priority_k());
    let k4 = key_bytes4(105u8, 100, 0, 0, 2);
    assert(k4@ =~= id_k());
    let items: Vec<dictitem_T> = vec![
        dictitem_T { di_key: k1b, di_tv: str_value(group) },
        dictitem_T { di_key: k2, di_tv: str_value(pattern) },
        dictitem_T { di_key: k3, di_tv: num_value(priority) },
        dictitem_T { di_key: k4, di_tv: num_value(id) },
    ];
    let d = dict_T { dv_hashtab: items, dv_lock: VarLockStatus::VAR_UNLOCKED, dv_refcount: 0, dv_watchers: Vec::new() };
    proof { lemma_dict_view_parts(d); }
    assert(d@.keys =~= seq![group_k(), pattern_k(), priority_k(), id_k()]);
    assert(d@.vals =~= seq![str_tv(string_or_empty(argvars@[0]@)), str_tv(string_or_empty(argvars@[1]@)), num_tv(match_priority(argvars@)), num_tv(id as int)]);
    assert(d@.watchers =~= Seq::<WatcherVal>::empty());
    let t = typval_T { v_type: VarType::VAR_DICT, v_lock: VarLockStatus::VAR_UNLOCKED, vval: typval_vval_union::v_dict(Some(d)) };
    let ghost before = m.list@;
    m.list.push(t);
    proof {
        lemma_items_view_index_all(before);
        lemma_items_view_index_all(m.list@);
        assert(items_view(m.list@) =~= items_view(before).push(t@));
    }
    set_number(rettv, id);
}

/// The key "pos{n}".
pub open spec fn pos_k(n: int) -> Seq<u8> {
    seq![112u8, 111, 115] + nr2str(n)
}

/// The positions "matchaddpos()" stores: the items of a List argument.
pub open spec fn pos_items(t: TypVal) -> Seq<TypVal> {
    match (t.ty, t.v) {
        (VarType::VAR_LIST, VVal::List(Some(l))) => l.items,
        _ => Seq::empty(),
    }
}

/// The Dict "matchaddpos()" stores.
pub open spec fn pos_match_dict(group: Seq<u8>, priority: int, id: int, pos: Seq<TypVal>) -> TypVal {
    dict_tv(DictVal {
        keys: seq![group_k(), priority_k(), id_k()] + Seq::new(pos.len(), |i: int| pos_k(i + 1)),
        vals: seq![str_tv(group), num_tv(priority), num_tv(id)] + pos,
        ..empty_dict_val()
    })
}

/// Add the `pos{n}` entries of the positions.
fn push_pos_entries(out: &mut Vec<dictitem_T>, t: &typval_T)
    requires pos_items(t@).len() < i64::MAX,
    ensures
        final(out)@.len() == old(out)@.len() + pos_items(t@).len(),
        forall|j: int| 0 <= j < old(out)@.len() ==> #[trigger] final(out)@[j] == old(out)@[j],
        forall|j: int| old(out)@.len() <= j < final(out)@.len() ==> #[trigger] final(out)@[j].di_key@ == pos_k(j - old(out)@.len() + 1)
            && final(out)@[j].di_tv@ == pos_items(t@)[j - old(out)@.len()],
{
    let ghost base = out@;
    match (&t.v_type, &t.vval) {
        (VarType::VAR_LIST, typval_vval_union::v_list(Some(l))) => {
            proof { lemma_items_view_index_all(l.lv_items@); }
            let ghost pos = l@.items;
            let mut i: usize = 0;
            while i < l.lv_items.len()
                invariant
                    i <= l.lv_items@.len(), out@.len() == base.len() + i, pos == l@.items, pos.len() == l.lv_items@.len(),
                    pos.len() < i64::MAX,
                    forall|j: int| 0 <= j < pos.len() ==> #[trigger] pos[j] == l.lv_items@[j]@,
                    forall|j: int| 0 <= j < base.len() ==> #[trigger] out@[j] == base[j],
                    forall|j: int| base.len() <= j < out@.len() ==> #[trigger] out@[j].di_key@ == pos_k(j - base.len() + 1)
                        && out@[j].di_tv@ == pos[j - base.len()],
                decreases l.lv_items.len() - i,
            {
                let mut key: Vec<u8> = key_bytes4(112u8, 111, 115, 0, 3);
                let nb = nr2bytes(i as i64 + 1);
                append_bytes(&mut key, nb.as_slice());
                assert(key@ =~= pos_k(i + 1));
                out.push(dictitem_T { di_key: key, di_tv: tv_dup(&l.lv_items[i]) });
                i += 1;
            }
        },
        _ => {},
    }
}

/// "matchaddpos({group}, {pos} [, {priority} [, {id}]])": like
/// "matchadd()", with the items of the List `{pos}` stored as `pos1`, ...
pub fn f_matchaddpos(m: &mut Matches, argvars: &[typval_T], rettv: &mut typval_T)
    requires argvars@.len() >= 2, old(m).last_id < i64::MAX, pos_items(argvars@[1]@).len() < i64::MAX,
    ensures
        match match_id(argvars@, old(m).last_id as int) {
            None => final(m).list@ == old(m).list@ && final(m).last_id == old(m).last_id
                && final(rettv)@ == with_number(old(rettv)@, -1),
            Some(id) => items_view(final(m).list@) == items_view(old(m).list@).push(pos_match_dict(
                    string_or_empty(argvars@[0]@), match_priority(argvars@), id, pos_items(argvars@[1]@)))
                && final(m).last_id == next_last(argvars@, old(m).last_id as int)
                && final(rettv)@ == with_number(old(rettv)@, id),
        },
{
    let group = tv_get_string(&argvars[0]);
    let priority = if argvars.len() >= 3 { tv_get_number(&argvars[2]) } else { 10 };
    let id = match next_match_id(m, argvars) {
        Some(id) => id,
        None => {
            set_number(rettv, -1);
            return;
        },
    };
    let mut k1 = key_bytes4(103u8, 114, 111, 117, 4);
    k1.push(112u8);
    assert(k1@ =~= group_k());
    let mut k3: Vec<u8> = key_bytes4(112u8, 114, 105, 111, 4);
    k3.push(114u8); k3.push(105u8); k3.push(116u8); k3.push(121u8);
    assert(k3@ =~= priority_k());
    let k4 = key_bytes4(105u8, 100, 0, 0, 2);
    assert(k4@ =~= id_k());
    let ghost pos = pos_items(argvars@[1]@);
    let ghost gk = seq![group_k(), priority_k(), id_k()];
    let ghost gv = seq![str_tv(string_or_empty(argvars@[0]@)), num_tv(match_priority(argvars@)), num_tv(id as int)];
    let mut items: Vec<dictitem_T> = Vec::new();
    items.push(dictitem_T { di_key: k1, di_tv: str_value(group) });
    items.push(dictitem_T { di_key: k3, di_tv: num_value(priority) });
    items.push(dictitem_T { di_key: k4, di_tv: num_value(id) });
    push_pos_entries(&mut items, &argvars[1]);
    let d = dict_T { dv_hashtab: items, dv_lock: VarLockStatus::VAR_UNLOCKED, dv_refcount: 0, dv_watchers: Vec::new() };
    proof { lemma_dict_view_parts(d); }
    assert forall|j: int| 0 <= j < 3 implies #[trigger] d@.vals[j] == gv[j] by {
        assert(d@.vals[j] == d.dv_hashtab@[j].di_tv@);
    }
    assert forall|j: int| 3 <= j < 3 + pos.len() implies #[trigger] d@.vals[j] == pos[j - 3] && d@.keys[j] == pos_k(j - 2) by {
        assert(d@.vals[j] == d.dv_hashtab@[j].di_tv@);
        assert(d@.keys[j] == d.dv_hashtab@[j].di_key@);
    }
    assert forall|j: int| 0 <= j < 3 implies #[trigger] d@.keys[j] == gk[j] by {
        assert(d@.keys[j] == d.dv_hashtab@[j].di_key@);
    }
    assert(d@.keys =~= gk + Seq::new(pos.len(), |i: int| pos_k(i + 1)));
    assert(d@.vals =~= gv + pos);
    assert(d@.watchers =~= Seq::<WatcherVal>::empty());
    let t = typval_T { v_type: VarType::VAR_DICT, v_lock: VarLockStatus::VAR_UNLOCKED, vval: typval_vval_union::v_dict(Some(d)) };
    let ghost before = m.list@;
    m.list.push(t);
    proof {
        lemma_items_view_index_all(before);
        lemma_items_view_index_all(m.list@);
        assert(items_view(m.list@) =~= items_view(before).push(t@));
    }
    set_number(rettv, id);
}

/// Whether a match is the one with id `id`: a Dict whose `id` entry is
/// that Number.
pub open spec fn is_match_id(t: TypVal, id: int) -> bool {
    match (t.ty, t.v) {
        (VarType::VAR_DICT, VVal::Dict(Some(d))) => match dict_get(d, id_k()) {
            Some(v) => number_chk_result(v, true) == id,
            None => false,
        },
        _ => false,
    }
}

/// The matches without those with id `id`.
pub open spec fn drop_id(ms: Seq<TypVal>, id: int) -> Seq<TypVal>
    decreases ms.len(),
{
    if ms.len() == 0 { ms } else {
        let r = drop_id(ms.drop_last(), id);
        if is_match_id(ms.last(), id) { r } else { r.push(ms.last()) }
    }
}

fn is_match_id_exec(t: &typval_T, id: i64) -> (r: bool)
    ensures r == is_match_id(t@, id as int),
{
    let k: Vec<u8> = key_bytes4(105u8, 100, 0, 0, 2);
    assert(k@ =~= id_k());
    match (&t.v_type, &t.vval) {
        (VarType::VAR_DICT, typval_vval_union::v_dict(Some(d))) => match tv_dict_find(d, k.as_slice()) {
            Some(v) => tv_get_number(v) == id,
            None => false,
        },
        _ => false,
    }
}

/// "matchdelete({id})": delete the matches with that id; when there was
/// none the result is -1 (else `rettv` is left as it is).
pub fn f_matchdelete(m: &mut Matches, argvars: &[typval_T], rettv: &mut typval_T)
    requires argvars@.len() >= 1,
    ensures
        items_view(final(m).list@) == drop_id(items_view(old(m).list@), number_chk_result(argvars@[0]@, true)),
        final(m).last_id == old(m).last_id,
        final(rettv)@ == if drop_id(items_view(old(m).list@), number_chk_result(argvars@[0]@, true)).len() == old(m).list@.len() {
            with_number(old(rettv)@, -1)
        } else {
            old(rettv)@
        },
{
    let id = tv_get_number(&argvars[0]);
    let ghost ms = items_view(m.list@);
    proof { lemma_items_view_index_all(m.list@); }
    let mut out: Vec<typval_T> = Vec::new();
    let mut i: usize = 0;
    while i < m.list.len()
        invariant
            i <= m.list@.len(), ms == items_view(m.list@), ms.len() == m.list@.len(),
            forall|j: int| 0 <= j < ms.len() ==> #[trigger] ms[j] == m.list@[j]@,
            items_view(out@) == drop_id(ms.subrange(0, i as int), id as int),
        decreases m.list.len() - i,
    {
        let ghost before = items_view(out@);
        assert(ms.subrange(0, i + 1).drop_last() =~= ms.subrange(0, i as int));
        if !is_match_id_exec(&m.list[i], id) {
            out.push(tv_dup(&m.list[i]));
            proof {
                lemma_items_view_index_all(out@);
                assert(items_view(out@) =~= before.push(ms[i as int]));
            }
        }
        i += 1;
    }
    assert(ms.subrange(0, ms.len() as int) =~= ms);
    let removed = out.len() != m.list.len();
    proof { lemma_items_view_index_all(out@); }
    m.list = out;
    if !removed {
        set_number(rettv, -1);
    }
}

/// "getmatches()": a List of the matches.
pub fn f_getmatches(m: &Matches, argvars: &[typval_T], rettv: &mut typval_T)
    ensures final(rettv)@ == with_list(old(rettv)@, items_view(m.list@)),
{
    let items = items_dup(&m.list);
    proof {
        lemma_items_view_index_all(items@);
        lemma_items_view_index_all(m.list@);
        assert forall|k: int| 0 <= k < items@.len() implies #[trigger] items_view(items@)[k] == items_view(m.list@)[k] by {
            assert(items@[k]@ == m.list@[k]@);
        }
    }
    assert(items_view(items@) =~= items_view(m.list@));
    set_list(rettv, list_T { lv_items: items, lv_lock: VarLockStatus::VAR_UNLOCKED, lv_refcount: 0 });
}

/// Whether "setmatches()" takes the value: a List of Dicts.
pub open spec fn setmatches_ok(t: TypVal) -> bool {
    t.ty == VarType::VAR_LIST && t.v is List && t.v->List_0 is Some && all_dicts(t.v->List_0->Some_0.items)
}

/// Whether every item is a Dict.
pub open spec fn all_dicts(items: Seq<TypVal>) -> bool {
    forall|i: int| 0 <= i < items.len() ==> (#[trigger] items[i]).ty == VarType::VAR_DICT
}

fn all_dict_items(l: &list_T) -> (r: bool)
    ensures r == all_dicts(l@.items),
{
    proof { lemma_items_view_index_all(l.lv_items@); }
    let mut i: usize = 0;
    while i < l.lv_items.len()
        invariant
            i <= l.lv_items@.len(), l@.items.len() == l.lv_items@.len(),
            forall|j: int| 0 <= j < l@.items.len() ==> #[trigger] l@.items[j] == l.lv_items@[j]@,
            forall|j: int| 0 <= j < i ==> (#[trigger] l@.items[j]).ty == VarType::VAR_DICT,
        decreases l.lv_items.len() - i,
    {
        if l.lv_items[i].v_type != VarType::VAR_DICT {
            assert(l@.items[i as int].ty != VarType::VAR_DICT);
            return false;
        }
        i += 1;
    }
    true
}

/// "setmatches({list})": make the matches the items of a List of Dicts;
/// for anything else the result is -1 and nothing changes (on success
/// `rettv` is left as it is).
pub fn f_setmatches(m: &mut Matches, argvars: &[typval_T], rettv: &mut typval_T)
    requires argvars@.len() >= 1,
    ensures
        final(m).last_id == old(m).last_id,
        setmatches_ok(argvars@[0]@) ==> items_view(final(m).list@) == argvars@[0]@.v->List_0->Some_0.items && final(rettv)@ == old(rettv)@,
        !setmatches_ok(argvars@[0]@) ==> final(m).list@ == old(m).list@ && final(rettv)@ == with_number(old(rettv)@, -1),
{
    match (&argvars[0].v_type, &argvars[0].vval) {
        (VarType::VAR_LIST, typval_vval_union::v_list(Some(l))) => {
            if all_dict_items(l) {
                let items = items_dup(&l.lv_items);
                proof {
                    lemma_items_view_index_all(items@);
                    lemma_items_view_index_all(l.lv_items@);
                    assert forall|k: int| 0 <= k < items@.len() implies #[trigger] items_view(items@)[k] == l@.items[k] by {
                        assert(items@[k]@ == l.lv_items@[k]@);
                    }
                }
                assert(items_view(items@) =~= l@.items);
                m.list = items;
            } else {
                set_number(rettv, -1);
            }
        },
        _ => {
            set_number(rettv, -1);
        },
    }
}

/// "clearmatches()": no matches.
pub fn f_clearmatches(m: &mut Matches, argvars: &[typval_T], rettv: &mut typval_T)
    ensures final(m).list@.len() == 0, final(m).last_id == old(m).last_id, final(rettv)@ == old(rettv)@,
{
    m.list = Vec::new();
}

/// "matcharg({nr})": `["", ""]` for ":match" 1 to 3 (none is set), else
/// an empty List.
pub fn f_matcharg(argvars: &[typval_T], rettv: &mut typval_T)
    requires argvars@.len() >= 1,
    ensures
        final(rettv)@ == with_list(old(rettv)@,
            if 1 <= number_chk_result(argvars@[0]@, true) <= 3 { seq![str_tv(Seq::empty()), str_tv(Seq::empty())] } else { Seq::empty() }),
{
    let nr = tv_get_number(&argvars[0]);
    let mut items: Vec<typval_T> = Vec::new();
    if 1 <= nr && nr <= 3 {
        items.push(str_value(Vec::new()));
        items.push(str_value(Vec::new()));
    }
    proof { lemma_items_view_index_all(items@); }
    assert(items_view(items@) =~= (if 1 <= nr <= 3 { seq![str_tv(Seq::empty()), str_tv(Seq::empty())] } else { Seq::empty() }));
    set_list(rettv, list_T { lv_items: items, lv_lock: VarLockStatus::VAR_UNLOCKED, lv_refcount: 0 });
}

// ── laws ──

/// Deleting the id of the match just added takes that match away again:
/// what is left is what deleting the id before the add leaves.
pub proof fn lemma_matchadd_then_delete(ms: Seq<TypVal>, group: Seq<u8>, pattern: Seq<u8>, priority: int, id: int)
    ensures
        is_match_id(pattern_match_dict(group, pattern, priority, id), id),
        drop_id(ms.push(pattern_match_dict(group, pattern, priority, id)), id) == drop_id(ms, id),
{
    let d = pattern_match_dict(group, pattern, priority, id);
    let dv = d.v->Dict_0->Some_0;
    assert(dv.keys.last() == id_k());
    assert(dict_index_of(dv.keys, id_k()) == 3);
    assert(ms.push(d).drop_last() =~= ms);
}

} // verus!
