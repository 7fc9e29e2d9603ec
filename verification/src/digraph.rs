//! The digraph table that "digraph_get()", "digraph_set()", "digraph_getlist()" and "digraph_setlist()" work on.
use vstd::prelude::*;
use crate::typval_defs::{
    varnumber_T, OK, FAIL, VarType, VarLockStatus, BoolVarValue, SpecialVarValue, typval_vval_union,
    typval_T, list_T, dict_T, dictitem_T, blob_T, partial_T, Callback, DictWatcher, TypVal, VVal,
    ListVal, DictVal, BlobVal, CallbackVal, WatcherVal, tv_view, list_view, dict_view, items_view, dict_index_of,
    mk_tv, num_tv, str_tv, list_tv, blob_tv, dict_tv, empty_dict_val, dict_wf, keys_unique,
    lemma_items_view_ext, lemma_items_view_index, lemma_items_view_push, lemma_items_view_subrange,
    lemma_items_view_add, lemma_items_view_reverse, lemma_items_view_update, lemma_items_view_insert,
    lemma_items_view_remove, lemma_items_view_empty,
};
use crate::charset::{nr2str, nr2bytes, str2nr, str2nr_all};
use crate::dup::{bytes_dup, tv_dup, list_dup, dict_dup, blob_dup, items_dup, slice_to_vec, callback_dup, append_bytes};
use crate::typval::{
    number_of, number_chk_result, string_of, string_or_empty, tv_get_number_chk, tv_get_number,
    tv_get_bool, tv_get_string, tv_get_string_chk, tv_get_string_buf_chk, tv_equal, tv_equal_spec,
    bytes_eq, dict_find_index,
};
use crate::typval_list::lemma_items_view_index_all;
use crate::funcs_basic::{with_number, set_number, with_string, set_string, with_list, set_list};
use crate::highlight::{names_view, bytes_copy};
use crate::textbuf::{str_value, first_code_exec, lemma_first_char_code_bound};
use crate::mbyte::{first_char_code, char2bytes, char_to_bytes};
use crate::charset::{utf8_split, utf8_chars};

verus! {

// ── the table ──

/// A digraph set by "digraph_set()": the two characters that type it (and
/// their key, the first character's code times 2^21 plus the second's) and
/// the text it gives.
pub struct Digraph {
    pub key: u64,
    pub chars: Vec<u8>,
    pub text: Vec<u8>,
}

/// The model of a `Digraph`.
pub struct DigraphVal {
    pub key: int,
    pub chars: Seq<u8>,
    pub text: Seq<u8>,
}

impl View for Digraph {
    type V = DigraphVal;
    open spec fn view(&self) -> DigraphVal {
        DigraphVal { key: self.key as int, chars: self.chars@, text: self.text@ }
    }
}

/// The digraphs set by scripts, ordered by their characters.
pub struct Digraphs {
    pub user: Vec<Digraph>,
}

/// The model of the table.
pub open spec fn digraphs_view(d: &Digraphs) -> Seq<DigraphVal> {
    Seq::new(d.user@.len(), |i: int| d.user@[i]@)
}

/// Ordered by key, no key twice.
pub open spec fn dig_wf(u: Seq<DigraphVal>) -> bool {
    forall|i: int, j: int| 0 <= i < j < u.len() ==> u[i].key < u[j].key
}

/// An empty table.
pub fn digraphs_new() -> (d: Digraphs)
    ensures digraphs_view(&d).len() == 0, dig_wf(digraphs_view(&d)),
{
    Digraphs { user: Vec::new() }
}

/// The key of two characters.
pub open spec fn dig_key(c1: int, c2: int) -> int {
    c1 * 0x20_0000 + c2
}

/// The two characters of `s`, by code, when it has exactly two.
pub open spec fn two_chars(s: Seq<u8>) -> Option<(int, int)> {
    if utf8_split(s).len() == 2 {
        Some((first_char_code(utf8_split(s)[0]), first_char_code(utf8_split(s)[1])))
    } else {
        None
    }
}

/// The built-in digraphs: "a:" ä, "o:" ö, "u:" ü, "e'" é, "Co" ©, "RO" ®,
/// "+-" ±, "->" →, "OK" ✓; -1 for others.
pub open spec fn builtin_digraph(c1: int, c2: int) -> int {
    if c1 == 97 && c2 == 58 { 0xe4 }
    else if c1 == 111 && c2 == 58 { 0xf6 }
    else if c1 == 117 && c2 == 58 { 0xfc }
    else if c1 == 101 && c2 == 39 { 0xe9 }
    else if c1 == 67 && c2 == 111 { 0xa9 }
    else if c1 == 82 && c2 == 79 { 0xae }
    else if c1 == 43 && c2 == 45 { 0xb1 }
    else if c1 == 45 && c2 == 62 { 0x2192 }
    else if c1 == 79 && c2 == 75 { 0x2713 }
    else { -1 }
}

/// How many digraphs have a key below `key`.
pub open spec fn dig_before(u: Seq<DigraphVal>, key: int) -> int
    decreases u.len(),
{
    if u.len() == 0 { 0 } else { dig_before(u.drop_last(), key) + if u.last().key < key { 1int } else { 0int } }
}

/// The text of the digraph with `key` a script set, if any.
pub open spec fn user_digraph(u: Seq<DigraphVal>, key: int) -> Option<Seq<u8>> {
    let i = dig_before(u, key);
    if 0 <= i < u.len() && u[i].key == key { Some(u[i].text) } else { None }
}

/// The text of digraph `c1 c2`: one a script set, else a built-in one.
pub open spec fn exact_digraph(u: Seq<DigraphVal>, c1: int, c2: int) -> Option<Seq<u8>> {
    match user_digraph(u, dig_key(c1, c2)) {
        Some(t) => Some(t),
        None => if builtin_digraph(c1, c2) >= 0 { Some(char2bytes(builtin_digraph(c1, c2))) } else { None },
    }
}

/// The table once digraph `chars` (key `key`) is set to `text`.
pub open spec fn dig_insert(u: Seq<DigraphVal>, key: int, chars: Seq<u8>, text: Seq<u8>) -> Seq<DigraphVal> {
    let i = dig_before(u, key);
    let e = DigraphVal { key, chars, text };
    if 0 <= i < u.len() && u[i].key == key { u.update(i, e) } else { u.insert(i, e) }
}

proof fn lemma_dig_before(u: Seq<DigraphVal>, key: int)
    requires dig_wf(u),
    ensures
        0 <= dig_before(u, key) <= u.len(),
        forall|k: int| 0 <= k < dig_before(u, key) ==> (#[trigger] u[k]).key < key,
        forall|k: int| dig_before(u, key) <= k < u.len() ==> (#[trigger] u[k]).key >= key,
    decreases u.len(),
{
    if u.len() > 0 {
        let d = u.drop_last();
        lemma_dig_before(d, key);
        assert forall|k: int| 0 <= k < dig_before(u, key) implies (#[trigger] u[k]).key < key by {
            if k < d.len() { assert(u[k] == d[k]); }
        }
        assert forall|k: int| dig_before(u, key) <= k < u.len() implies (#[trigger] u[k]).key >= key by {
            if k < d.len() {
                assert(u[k] == d[k]);
                if u.last().key < key {
                    assert(u[k].key < u.last().key);
                }
            }
        }
    }
}

/// Where key `key` is, or where it would go.
fn find_key(d: &Digraphs, key: u64) -> (i: usize)
    requires dig_wf(digraphs_view(d)),
    ensures i as int == dig_before(digraphs_view(d), key as int), i <= d.user@.len(),
{
    let ghost u = digraphs_view(d);
    proof { lemma_dig_before(u, key as int); }
    let mut i: usize = 0;
    while i < d.user.len() && d.user[i].key < key
        invariant
            i <= d.user@.len(), u == digraphs_view(d), dig_wf(u),
            forall|k: int| 0 <= k < i ==> (#[trigger] u[k]).key < key,
            0 <= dig_before(u, key as int) <= u.len(),
            forall|k: int| 0 <= k < dig_before(u, key as int) ==> (#[trigger] u[k]).key < key,
            forall|k: int| dig_before(u, key as int) <= k < u.len() ==> (#[trigger] u[k]).key >= key,
        decreases d.user.len() - i,
    {
        assert(u[i as int] == d.user@[i as int]@);
        i += 1;
    }
    assert(i as int == dig_before(u, key as int)) by {
        if (i as int) < dig_before(u, key as int) {
            assert(u[i as int] == d.user@[i as int]@);
            assert(u[i as int].key < key);
        }
        if (i as int) > dig_before(u, key as int) {
            assert(u[dig_before(u, key as int)].key < key);
        }
    }
    i
}

/// The two characters of `s`, by code (see `two_chars`).
fn two_chars_exec(s: &Vec<u8>) -> (r: Option<(u32, u32)>)
    ensures
        match two_chars(s@) {
            None => r is None,
            Some((a, b)) => r == Some((a as u32, b as u32)) && 0 <= a <= 0x13_ffff && 0 <= b <= 0x13_ffff,
        },
{
    let cs = utf8_chars(s.as_slice());
    if cs.len() != 2 {
        return None;
    }
    proof {
        lemma_first_char_code_bound(utf8_split(s@)[0]);
        lemma_first_char_code_bound(utf8_split(s@)[1]);
    }
    Some((first_code_exec(cs[0].as_slice()), first_code_exec(cs[1].as_slice())))
}

/// The key of two characters.
fn key_of(c1: u32, c2: u32) -> (k: u64)
    requires c1 <= 0x13_ffff, c2 <= 0x13_ffff,
    ensures k as int == dig_key(c1 as int, c2 as int),
{
    c1 as u64 * 0x20_0000 + c2 as u64
}

/// The built-in digraph `c1 c2` (see `builtin_digraph`).
fn builtin_exec(c1: u32, c2: u32) -> (r: Option<u32>)
    ensures
        match r { Some(c) => c as int == builtin_digraph(c1 as int, c2 as int), None => builtin_digraph(c1 as int, c2 as int) == -1 },
{
    if c1 == 97 && c2 == 58 { Some(0xe4) }
    else if c1 == 111 && c2 == 58 { Some(0xf6) }
    else if c1 == 117 && c2 == 58 { Some(0xfc) }
    else if c1 == 101 && c2 == 39 { Some(0xe9) }
    else if c1 == 67 && c2 == 111 { Some(0xa9) }
    else if c1 == 82 && c2 == 79 { Some(0xae) }
    else if c1 == 43 && c2 == 45 { Some(0xb1) }
    else if c1 == 45 && c2 == 62 { Some(0x2192) }
    else if c1 == 79 && c2 == 75 { Some(0x2713) }
    else { None }
}

/// The text of digraph `c1 c2` (see `exact_digraph`).
fn getexactdigraph(d: &Digraphs, c1: u32, c2: u32) -> (r: Option<Vec<u8>>)
    requires dig_wf(digraphs_view(d)), c1 <= 0x13_ffff, c2 <= 0x13_ffff,
    ensures
        match exact_digraph(digraphs_view(d), c1 as int, c2 as int) {
            Some(t) => r is Some && r->Some_0@ == t,
            None => r is None,
        },
{
    let key = key_of(c1, c2);
    let i = find_key(d, key);
    if i < d.user.len() && d.user[i].key == key {
        assert(digraphs_view(d)[i as int] == d.user@[i as int]@);
        return Some(bytes_copy(&d.user[i].text));
    }
    assert(i < d.user@.len() ==> digraphs_view(d)[i as int] == d.user@[i as int]@);
    match builtin_exec(c1, c2) {
        Some(c) => Some(char_to_bytes(c)),
        None => None,
    }
}

/// Set digraph `chars` (key `key`) to `text`.
fn dig_set(d: &mut Digraphs, key: u64, chars: Vec<u8>, text: Vec<u8>)
    requires dig_wf(digraphs_view(old(d))),
    ensures
        dig_wf(digraphs_view(final(d))),
        digraphs_view(final(d)) == dig_insert(digraphs_view(old(d)), key as int, chars@, text@),
{
    let ghost u = digraphs_view(d);
    proof { lemma_dig_before(u, key as int); }
    let i = find_key(d, key);
    let ghost e = DigraphVal { key: key as int, chars: chars@, text: text@ };
    if i < d.user.len() && d.user[i].key == key {
        d.user.set(i, Digraph { key, chars, text });
        assert(digraphs_view(d) =~= u.update(i as int, e));
    } else {
        assert(i < d.user@.len() ==> u[i as int] == d.user@[i as int]@);
        d.user.insert(i, Digraph { key, chars, text });
        assert(digraphs_view(d) =~= u.insert(i as int, e));
    }
    proof {
        let u2 = digraphs_view(d);
        assert forall|a: int, b: int| 0 <= a < b < u2.len() implies u2[a].key < u2[b].key by {
            if i < u.len() && u[i as int].key == key as int {
                if a == i { assert(u[a].key < u[b].key); }
                else if b == i { assert(u[a].key < u[b].key); }
                else { assert(u[a].key < u[b].key); }
            } else {
                if a < i && b < i { assert(u[a].key < u[b].key); }
                else if a < i && b == i { }
                else if a < i && b > i { assert(u[a].key < u[b - 1].key || a == b - 1); }
                else if a == i { assert(u[b - 1].key >= key); assert(u[b - 1].key != key || !(i < u.len() && u[i as int].key == key as int)); if b - 1 > i { assert(u[i as int].key < u[b - 1].key); } }
                else { assert(u[a - 1].key < u[b - 1].key); }
            }
        }
    }
}

/// The model of `rettv` once a builtin has made it the Boolean `b`.
pub open spec fn with_bool(r: TypVal, b: bool) -> TypVal {
    TypVal { ty: VarType::VAR_BOOL, v: VVal::Bool(if b { BoolVarValue::kBoolVarTrue } else { BoolVarValue::kBoolVarFalse }), ..r }
}

fn set_bool(rettv: &mut typval_T, b: bool)
    ensures final(rettv)@ == with_bool(old(rettv)@, b),
{
    rettv.v_type = VarType::VAR_BOOL;
    rettv.vval = typval_vval_union::v_bool(if b { BoolVarValue::kBoolVarTrue } else { BoolVarValue::kBoolVarFalse });
}

/// What "digraph_get({chars})" gives: the digraph's text, or "" (also when
/// `{chars}` is not two characters).
pub open spec fn digraph_get_spec(u: Seq<DigraphVal>, chars: Seq<u8>) -> Seq<u8> {
    match two_chars(chars) {
        Some((a, b)) => match exact_digraph(u, a, b) { Some(t) => t, None => Seq::empty() },
        None => Seq::empty(),
    }
}

/// "digraph_get({chars})": the text of the digraph `{chars}` (see
/// `digraph_get_spec`).
pub fn f_digraph_get(d: &Digraphs, argvars: &[typval_T], rettv: &mut typval_T)
    requires dig_wf(digraphs_view(d)), argvars@.len() >= 1,
    ensures final(rettv)@ == with_string(old(rettv)@, digraph_get_spec(digraphs_view(d), string_or_empty(argvars@[0]@))),
{
    let chars = tv_get_string(&argvars[0]);
    match two_chars_exec(&chars) {
        Some((a, b)) => match getexactdigraph(d, a, b) {
            Some(t) => set_string(rettv, t),
            None => set_string(rettv, Vec::new()),
        },
        None => set_string(rettv, Vec::new()),
    }
}

/// "digraph_set({chars}, {digraph})": set the digraph when `{chars}` is
/// two characters; the result says whether it was.
pub fn f_digraph_set(d: &mut Digraphs, argvars: &[typval_T], rettv: &mut typval_T)
    requires dig_wf(digraphs_view(old(d))), argvars@.len() >= 2,
    ensures
        dig_wf(digraphs_view(final(d))),
        match two_chars(string_or_empty(argvars@[0]@)) {
            Some((a, b)) => digraphs_view(final(d)) == dig_insert(digraphs_view(old(d)), dig_key(a, b),
                    string_or_empty(argvars@[0]@), string_or_empty(argvars@[1]@))
                && final(rettv)@ == with_bool(old(rettv)@, true),
            None => digraphs_view(final(d)) == digraphs_view(old(d)) && final(rettv)@ == with_bool(old(rettv)@, false),
        },
{
    let chars = tv_get_string(&argvars[0]);
    let text = tv_get_string(&argvars[1]);
    match two_chars_exec(&chars) {
        Some((a, b)) => {
            let key = key_of(a, b);
            dig_set(d, key, chars, text);
            set_bool(rettv, true);
        },
        None => set_bool(rettv, false),
    }
}

/// The `[chars, text]` List of a digraph.
pub open spec fn digraph_entry(e: DigraphVal) -> TypVal {
    list_tv(seq![str_tv(e.chars), str_tv(e.text)])
}

fn pair_value(a: Vec<u8>, b: Vec<u8>) -> (r: typval_T)
    ensures r@ == list_tv(seq![str_tv(a@), str_tv(b@)]),
{
    let mut items: Vec<typval_T> = Vec::new();
    items.push(str_value(a));
    items.push(str_value(b));
    proof { lemma_items_view_index_all(items@); }
    assert(items_view(items@) =~= seq![str_tv(items@[0]@.v->Str_0), str_tv(items@[1]@.v->Str_0)]);
    typval_T {
        v_type: VarType::VAR_LIST,
        v_lock: VarLockStatus::VAR_UNLOCKED,
        vval: typval_vval_union::v_list(Some(list_T { lv_items: items, lv_lock: VarLockStatus::VAR_UNLOCKED, lv_refcount: 0 })),
    }
}

/// "digraph_getlist()": the digraphs scripts set, as `[chars, text]` Lists
/// ordered by their characters.
pub fn f_digraph_getlist(d: &Digraphs, argvars: &[typval_T], rettv: &mut typval_T)
    ensures
        final(rettv)@ == with_list(old(rettv)@,
            Seq::new(digraphs_view(d).len(), |i: int| digraph_entry(digraphs_view(d)[i]))),
{
    let ghost u = digraphs_view(d);
    let mut out: Vec<typval_T> = Vec::new();
    let mut i: usize = 0;
    while i < d.user.len()
        invariant
            i <= d.user@.len(), u == digraphs_view(d), out@.len() == i,
            forall|k: int| 0 <= k < i ==> #[trigger] out@[k]@ == digraph_entry(u[k]),
        decreases d.user.len() - i,
    {
        let e = &d.user[i];
        assert(u[i as int] == e@);
        out.push(pair_value(bytes_copy(&e.chars), bytes_copy(&e.text)));
        i += 1;
    }
    proof { lemma_items_view_index_all(out@); }
    assert forall|k: int| 0 <= k < out@.len() implies #[trigger] items_view(out@)[k] == digraph_entry(u[k]) by {
        assert(out@[k]@ == digraph_entry(u[k]));
    }
    assert(items_view(out@) =~= Seq::new(u.len(), |i: int| digraph_entry(u[i])));
    set_list(rettv, list_T { lv_items: out, lv_lock: VarLockStatus::VAR_UNLOCKED, lv_refcount: 0 });
}

/// The characters and text an item of "digraph_setlist()" gives: a List of
/// two items whose first is two characters.
pub open spec fn setlist_item(t: TypVal) -> Option<(Seq<u8>, Seq<u8>)> {
    match (t.ty, t.v) {
        (VarType::VAR_LIST, VVal::List(Some(l))) =>
            if l.items.len() == 2 && two_chars(string_or_empty(l.items[0])) is Some {
                Some((string_or_empty(l.items[0]), string_or_empty(l.items[1])))
            } else {
                None
            },
        _ => None,
    }
}

/// The table once the items are set, in order.
pub open spec fn dig_insert_all(u: Seq<DigraphVal>, items: Seq<TypVal>) -> Seq<DigraphVal>
    decreases items.len(),
{
    if items.len() == 0 {
        u
    } else {
        match setlist_item(items[0]) {
            Some(p) => {
                let c = two_chars(p.0)->Some_0;
                dig_insert_all(dig_insert(u, dig_key(c.0, c.1), p.0, p.1), items.drop_first())
            },
            None => u,
        }
    }
}

/// The items of a List argument of "digraph_setlist()", when every one is
/// good.
pub open spec fn setlist_items(t: TypVal) -> Option<Seq<TypVal>> {
    match (t.ty, t.v) {
        (VarType::VAR_LIST, VVal::List(Some(l))) =>
            if forall|k: int| 0 <= k < l.items.len() ==> #[trigger] setlist_item(l.items[k]) is Some { Some(l.items) } else { None },
        _ => None,
    }
}

/// The characters (with their codes) and text of an item.
fn setlist_item_exec(t: &typval_T) -> (r: Option<(Vec<u8>, Vec<u8>, u32, u32)>)
    ensures
        match setlist_item(t@) {
            None => r is None,
            Some(p) => r is Some && r->Some_0.0@ == p.0 && r->Some_0.1@ == p.1
                && two_chars(p.0) == Some((r->Some_0.2 as int, r->Some_0.3 as int))
                && r->Some_0.2 <= 0x13_ffff && r->Some_0.3 <= 0x13_ffff,
        },
{
    match (&t.v_type, &t.vval) {
        (VarType::VAR_LIST, typval_vval_union::v_list(Some(inner))) => {
            proof { lemma_items_view_index_all(inner.lv_items@); }
            if inner.lv_items.len() != 2 {
                return None;
            }
            let s0 = tv_get_string(&inner.lv_items[0]);
            match two_chars_exec(&s0) {
                Some((a, b)) => {
                    let s1 = tv_get_string(&inner.lv_items[1]);
                    Some((s0, s1, a, b))
                },
                None => None,
            }
        },
        _ => None,
    }
}

/// "digraph_setlist({list})": set every `[chars, text]` item of the List,
/// in order, when all are good; the result says whether they were.
#[verifier::loop_isolation(false)]
pub fn f_digraph_setlist(d: &mut Digraphs, argvars: &[typval_T], rettv: &mut typval_T)
    requires dig_wf(digraphs_view(old(d))), argvars@.len() >= 1,
    ensures
        dig_wf(digraphs_view(final(d))),
        match setlist_items(argvars@[0]@) {
            Some(items) => digraphs_view(final(d)) == dig_insert_all(digraphs_view(old(d)), items)
                && final(rettv)@ == with_bool(old(rettv)@, true),
            None => digraphs_view(final(d)) == digraphs_view(old(d)) && final(rettv)@ == with_bool(old(rettv)@, false),
        },
{
    set_bool(rettv, false);
    let l = match (&argvars[0].v_type, &argvars[0].vval) {
        (VarType::VAR_LIST, typval_vval_union::v_list(Some(l))) => l,
        _ => { return; },
    };
    proof { lemma_items_view_index_all(l.lv_items@); }
    let ghost items = l@.items;
    let ghost u0 = digraphs_view(d);
    let ghost rt = rettv@;
    let mut k: usize = 0;
    while k < l.lv_items.len()
        invariant
            k <= l.lv_items@.len(), items == l@.items, items.len() == l.lv_items@.len(),
            forall|j: int| 0 <= j < items.len() ==> #[trigger] items[j] == l.lv_items@[j]@,
            forall|j: int| 0 <= j < k ==> #[trigger] setlist_item(items[j]) is Some,
            digraphs_view(d) == u0, dig_wf(u0), rettv@ == rt,
        decreases l.lv_items.len() - k,
    {
        if setlist_item_exec(&l.lv_items[k]).is_none() {
            assert(setlist_item(items[k as int]) is None);
            return;
        }
        k += 1;
    }
    let ghost goal = dig_insert_all(digraphs_view(d), items);
    assert(items.subrange(0, items.len() as int) =~= items);
    let mut k: usize = 0;
    while k < l.lv_items.len()
        invariant
            k <= l.lv_items@.len(), items == l@.items, items.len() == l.lv_items@.len(),
            forall|j: int| 0 <= j < items.len() ==> #[trigger] items[j] == l.lv_items@[j]@,
            forall|j: int| 0 <= j < items.len() ==> #[trigger] setlist_item(items[j]) is Some,
            dig_wf(digraphs_view(d)),
            dig_insert_all(digraphs_view(d), items.subrange(k as int, items.len() as int)) == goal,
        decreases l.lv_items.len() - k,
    {
        let ghost rest = items.subrange(k as int, items.len() as int);
        assert(rest[0] == items[k as int]);
        assert(rest.drop_first() =~= items.subrange(k + 1, items.len() as int));
        match setlist_item_exec(&l.lv_items[k]) {
            Some((chars, text, a, b)) => {
                let key = key_of(a, b);
                dig_set(d, key, chars, text);
            },
            None => {},
        }
        k += 1;
    }
    assert(items.subrange(0, items.len() as int) =~= items);
    assert(items.subrange(items.len() as int, items.len() as int) =~= Seq::<TypVal>::empty());
    set_bool(rettv, true);
}

// ── laws ──

/// Setting a digraph and reading it back gives the text set.
pub proof fn lemma_digraph_set_get(u: Seq<DigraphVal>, c1: int, c2: int, chars: Seq<u8>, text: Seq<u8>)
    requires dig_wf(u),
    ensures
        exact_digraph(dig_insert(u, dig_key(c1, c2), chars, text), c1, c2) == Some(text),
        dig_wf(dig_insert(u, dig_key(c1, c2), chars, text)),
{
    let key = dig_key(c1, c2);
    lemma_dig_before(u, key);
    let i = dig_before(u, key);
    let u2 = dig_insert(u, key, chars, text);
    assert forall|a: int, b: int| 0 <= a < b < u2.len() implies u2[a].key < u2[b].key by {
        if 0 <= i < u.len() && u[i].key == key {
        } else {
            if a < i && b == i { } else if a < i && b > i { assert(u[a].key < u[b - 1].key || a == b - 1); }
            else if a == i { if b - 1 > i { assert(u[i].key < u[b - 1].key); } }
            else if a > i { assert(u[a - 1].key < u[b - 1].key); }
        }
    }
    lemma_dig_before(u2, key);
    let j = dig_before(u2, key);
    assert(j == i) by {
        if j < i { assert(u2[j].key < key); assert(u2[j] == u[j]); }
        if j > i { assert(u2[i].key >= key); assert(u2[i].key == key); }
    }
}

} // verus!
