//! The highlight-group registry that ":highlight" fills and "hlexists()", "hlID()" and "synIDattr()" read.
use vstd::prelude::*;
use crate::typval_defs::{
    varnumber_T, OK, FAIL, VarType, VarLockStatus, BoolVarValue, SpecialVarValue, typval_vval_union,
    typval_T, list_T, dict_T, dictitem_T, blob_T, partial_T, Callback, DictWatcher, TypVal, VVal,
    ListVal, DictVal, BlobVal, CallbackVal, WatcherVal, tv_view, list_view, dict_view, items_view, dict_index_of,
    mk_tv, num_tv, str_tv, list_tv, blob_tv, dict_tv, empty_dict_val, dict_wf, keys_unique,
    lemma_items_view_ext, lemma_items_view_index, lemma_items_view_push, lemma_items_view_subrange,
    lemma_items_view_add, lemma_items_view_reverse, lemma_items_view_update, lemma_items_view_insert,
    lemma_items_view_remove, lemma_items_view_empty,
};
use crate::charset::{nr2str, nr2bytes, str2nr, str2nr_all};
use crate::dup::{bytes_dup, tv_dup, list_dup, dict_dup, blob_dup, items_dup, slice_to_vec, callback_dup, append_bytes};
use crate::typval::{
    number_of, number_chk_result, string_of, string_or_empty, tv_get_number_chk, tv_get_number,
    tv_get_bool, tv_get_string, tv_get_string_chk, tv_get_string_buf_chk, tv_equal, tv_equal_spec,
    bytes_eq, dict_find_index,
};
use crate::funcs_basic::{with_number, set_number, set_list, with_list, with_string, set_string};
use crate::list_funcs::{ascii_lower, ascii_lower_exec};
use crate::textbuf::{is_white, is_white_exec, first_code_exec};
use crate::mbyte::first_char_code;
use crate::charset::{utf8_split, utf8_chars};
use crate::textbuf::{str_value, num_value};

verus! {

// ── words ──

/// One step of splitting at white space: the words so far and the word
/// being read, then character `c`.
pub open spec fn word_step(st: (Seq<Seq<u8>>, Seq<u8>), c: Seq<u8>) -> (Seq<Seq<u8>>, Seq<u8>) {
    if is_white(first_char_code(c)) {
        if st.1.len() > 0 { (st.0.push(st.1), Seq::empty()) } else { (st.0, Seq::empty()) }
    } else {
        (st.0, st.1 + c)
    }
}

/// The state after the first `n` characters.
pub open spec fn word_fold(cs: Seq<Seq<u8>>, n: int) -> (Seq<Seq<u8>>, Seq<u8>)
    decreases n,
{
    if n <= 0 { (Seq::empty(), Seq::empty()) } else { word_step(word_fold(cs, n - 1), cs[n - 1]) }
}

/// The words of `s`: its runs of characters that are not white space.
pub open spec fn ws_words(s: Seq<u8>) -> Seq<Seq<u8>> {
    let st = word_fold(utf8_split(s), utf8_split(s).len() as int);
    if st.1.len() > 0 { st.0.push(st.1) } else { st.0 }
}

pub(crate) fn bytes_copy(v: &Vec<u8>) -> (r: Vec<u8>)
    ensures r@ == v@,
{
    let mut out: Vec<u8> = Vec::new();
    let mut i: usize = 0;
    while i < v.len()
        invariant i <= v@.len(), out@ == v@.subrange(0, i as int),
        decreases v.len() - i,
    {
        out.push(v[i]);
        i += 1;
    }
    assert(out@ =~= v@);
    out
}

fn push_all(out: &mut Vec<u8>, s: &Vec<u8>)
    ensures final(out)@ == old(out)@ + s@,
{
    let ghost o = out@;
    let mut i: usize = 0;
    while i < s.len()
        invariant i <= s@.len(), out@ == o + s@.subrange(0, i as int),
        decreases s.len() - i,
    {
        out.push(s[i]);
        i += 1;
        assert(out@ =~= o + s@.subrange(0, i as int));
    }
    assert(s@.subrange(0, s@.len() as int) =~= s@);
}

/// The words of `s` (see `ws_words`).
pub fn split_words(s: &[u8]) -> (r: Vec<Vec<u8>>)
    ensures
        r@.len() == ws_words(s@).len(),
        forall|k: int| 0 <= k < r@.len() ==> #[trigger] r@[k]@ == ws_words(s@)[k],
{
    let cs = utf8_chars(s);
    let ghost css = utf8_split(s@);
    let mut words: Vec<Vec<u8>> = Vec::new();
    let mut cur: Vec<u8> = Vec::new();
    let mut k: usize = 0;
    while k < cs.len()
        invariant
            k <= cs@.len(), cs@.len() == css.len(),
            forall|j: int| 0 <= j < cs@.len() ==> #[trigger] cs@[j]@ == css[j],
            words@.len() == word_fold(css, k as int).0.len(),
            forall|j: int| 0 <= j < words@.len() ==> #[trigger] words@[j]@ == word_fold(css, k as int).0[j],
            cur@ == word_fold(css, k as int).1,
        decreases cs.len() - k,
    {
        let c = first_code_exec(cs[k].as_slice());
        assert(cs@[k as int]@ == css[k as int]);
        if is_white_exec(c) {
            if cur.len() > 0 {
                let w = bytes_copy(&cur);
                words.push(w);
            }
            cur = Vec::new();
        } else {
            push_all(&mut cur, &cs[k]);
        }
        k += 1;
    }
    if cur.len() > 0 {
        words.push(cur);
    }
    words
}


// ── the registry ──

/// One ":highlight" definition: the `key=value` attributes, a link to
/// another group, and whether ":highlight clear" reset it.
pub struct HlGroup {
    pub attrs: Vec<(Vec<u8>, Vec<u8>)>,
    pub link: Option<Vec<u8>>,
    pub cleared: bool,
}

/// The model of a `HlGroup`.
pub struct HlGroupVal {
    pub attrs: Seq<(Seq<u8>, Seq<u8>)>,
    pub link: Option<Seq<u8>>,
    pub cleared: bool,
}

/// The models of byte strings.
pub open spec fn names_view(v: Seq<Vec<u8>>) -> Seq<Seq<u8>> {
    Seq::new(v.len(), |i: int| v[i]@)
}

/// The models of attributes.
pub open spec fn attrs_view(a: Seq<(Vec<u8>, Vec<u8>)>) -> Seq<(Seq<u8>, Seq<u8>)> {
    Seq::new(a.len(), |i: int| (a[i].0@, a[i].1@))
}

/// The bytes of an optional byte string.
pub open spec fn bytes_opt(o: Option<Vec<u8>>) -> Option<Seq<u8>> {
    match o { Some(v) => Some(v@), None => None }
}

impl View for HlGroup {
    type V = HlGroupVal;
    open spec fn view(&self) -> HlGroupVal {
        HlGroupVal {
            attrs: attrs_view(self.attrs@),
            link: bytes_opt(self.link),
            cleared: self.cleared,
        }
    }
}

/// The highlight groups: their names (lower case), whose positions from 1
/// are the groups' ids, and the definition of each.
pub struct HlRegistry {
    pub order: Vec<Vec<u8>>,
    pub groups: Vec<HlGroup>,
}

/// The model of a `HlRegistry`.
pub struct HlRegVal {
    pub order: Seq<Seq<u8>>,
    pub groups: Seq<HlGroupVal>,
}

impl View for HlRegistry {
    type V = HlRegVal;
    open spec fn view(&self) -> HlRegVal {
        HlRegVal {
            order: names_view(self.order@),
            groups: Seq::new(self.groups@.len(), |i: int| self.groups@[i]@),
        }
    }
}

/// No name twice.
pub open spec fn names_distinct(names: Seq<Seq<u8>>) -> bool {
    forall|i: int, j: int| 0 <= i < j < names.len() ==> names[i] != names[j]
}

/// The keys of attributes.
pub open spec fn attr_keys(attrs: Seq<(Seq<u8>, Seq<u8>)>) -> Seq<Seq<u8>> {
    Seq::new(attrs.len(), |i: int| attrs[i].0)
}

/// Well-formed registry: one definition per name, no name twice, no
/// attribute twice in a group, and ids that fit a Number.
pub open spec fn hl_wf(r: HlRegVal) -> bool {
    &&& r.order.len() == r.groups.len()
    &&& names_distinct(r.order)
    &&& forall|i: int| 0 <= i < r.groups.len() ==> names_distinct(attr_keys(#[trigger] r.groups[i].attrs))
    &&& r.order.len() < i64::MAX
}

/// An empty registry.
pub fn hl_registry_new() -> (r: HlRegistry)
    ensures hl_wf(r@), r@.order.len() == 0,
{
    HlRegistry { order: Vec::new(), groups: Vec::new() }
}

/// Where `key` is among `names`, or -1.
pub open spec fn name_index(names: Seq<Seq<u8>>, key: Seq<u8>) -> int {
    if exists|i: int| 0 <= i < names.len() && names[i] == key {
        choose|i: int| 0 <= i < names.len() && names[i] == key
    } else {
        -1
    }
}

pub(crate) proof fn lemma_name_index(names: Seq<Seq<u8>>, key: Seq<u8>, i: int)
    requires names_distinct(names), 0 <= i < names.len(), names[i] == key,
    ensures name_index(names, key) == i,
{
    let c = choose|c: int| 0 <= c < names.len() && names[c] == key;
    if c < i {
        assert(names[c] != names[i]);
    } else if c > i {
        assert(names[i] != names[c]);
    }
}

pub(crate) proof fn lemma_name_index_none(names: Seq<Seq<u8>>, key: Seq<u8>)
    requires forall|i: int| 0 <= i < names.len() ==> names[i] != key,
    ensures name_index(names, key) == -1,
{
}

pub(crate) proof fn lemma_name_index_some(names: Seq<Seq<u8>>, key: Seq<u8>)
    requires name_index(names, key) >= 0,
    ensures name_index(names, key) < names.len(), names[name_index(names, key)] == key,
{
}

/// Where `key` is among the byte strings of `names`.
pub(crate) fn find_name(names: &Vec<Vec<u8>>, key: &[u8]) -> (r: Option<usize>)
    requires names_distinct(names_view(names@)),
    ensures
        match r {
            Some(i) => i < names@.len() && name_index(names_view(names@), key@) == i,
            None => name_index(names_view(names@), key@) == -1,
        },
{
    let ghost ns = names_view(names@);
    let mut i: usize = 0;
    while i < names.len()
        invariant
            i <= names@.len(), ns == names_view(names@), names_distinct(ns),
            forall|j: int| 0 <= j < i ==> ns[j] != key@,
        decreases names.len() - i,
    {
        if bytes_eq(names[i].as_slice(), key) {
            proof { lemma_name_index(ns, key@, i as int); }
            return Some(i);
        }
        i += 1;
    }
    proof { lemma_name_index_none(ns, key@); }
    None
}

/// Where attribute `key` is among `attrs`.
fn find_attr(attrs: &Vec<(Vec<u8>, Vec<u8>)>, key: &[u8]) -> (r: Option<usize>)
    requires names_distinct(attr_keys(attrs_view(attrs@))),
    ensures
        match r {
            Some(i) => i < attrs@.len() && name_index(attr_keys(attrs_view(attrs@)), key@) == i,
            None => name_index(attr_keys(attrs_view(attrs@)), key@) == -1,
        },
{
    let ghost ks = attr_keys(attrs_view(attrs@));
    let mut i: usize = 0;
    while i < attrs.len()
        invariant
            i <= attrs@.len(), ks == attr_keys(attrs_view(attrs@)), names_distinct(ks),
            forall|j: int| 0 <= j < i ==> ks[j] != key@,
        decreases attrs.len() - i,
    {
        if bytes_eq(attrs[i].0.as_slice(), key) {
            proof { lemma_name_index(ks, key@, i as int); }
            return Some(i);
        }
        i += 1;
    }
    proof { lemma_name_index_none(ks, key@); }
    None
}

/// A group without a definition yet.
pub open spec fn empty_group() -> HlGroupVal {
    HlGroupVal { attrs: Seq::empty(), link: None, cleared: false }
}

/// The registry and id once `name` is named: its id when it is there, else
/// a new empty group at the end.
pub open spec fn intern_spec(r: HlRegVal, name: Seq<u8>) -> (HlRegVal, int) {
    let key = ascii_lower(name);
    let i = name_index(r.order, key);
    if i >= 0 {
        (r, i + 1)
    } else {
        (HlRegVal { order: r.order.push(key), groups: r.groups.push(empty_group()) }, r.order.len() as int + 1)
    }
}

proof fn lemma_reg_view(reg: &HlRegistry)
    ensures
        reg@.order.len() == reg.order@.len(), reg@.groups.len() == reg.groups@.len(),
        forall|i: int| 0 <= i < reg.order@.len() ==> #[trigger] reg@.order[i] == reg.order@[i]@,
        forall|i: int| 0 <= i < reg.groups@.len() ==> #[trigger] reg@.groups[i] == reg.groups@[i]@,
{
}

/// The id of group `name`, naming it first when it is new.
fn hl_intern(reg: &mut HlRegistry, name: &[u8]) -> (r: varnumber_T)
    requires hl_wf(old(reg)@), old(reg)@.order.len() + 1 < i64::MAX,
    ensures
        hl_wf(final(reg)@),
        final(reg)@ == intern_spec(old(reg)@, name@).0,
        r as int == intern_spec(old(reg)@, name@).1,
{
    let key = ascii_lower_exec(name);
    let ghost old_v = reg@;
    proof { lemma_reg_view(reg); }
    match find_name(&reg.order, key.as_slice()) {
        Some(i) => i as varnumber_T + 1,
        None => {
            let n = reg.order.len();
            reg.order.push(key);
            reg.groups.push(HlGroup { attrs: Vec::new(), link: None, cleared: false });
            proof {
                lemma_reg_view(reg);
                assert(reg@.order =~= old_v.order.push(ascii_lower(name@)));
                assert(reg@.groups[n as int].attrs =~= Seq::<(Seq<u8>, Seq<u8>)>::empty());
                assert(reg@.groups =~= old_v.groups.push(empty_group()));
                assert forall|i: int, j: int| 0 <= i < j < reg@.order.len() implies reg@.order[i] != reg@.order[j] by {
                    if j == n { assert(old_v.order[i] != ascii_lower(name@)); }
                }
            }
            n as varnumber_T + 1
        },
    }
}

/// Where group `name` is (its name taken in lower case), or -1.
pub open spec fn group_index(r: HlRegVal, name: Seq<u8>) -> int {
    name_index(r.order, ascii_lower(name))
}

/// The value of attribute `key`, if the group has it.
pub open spec fn attr_get(attrs: Seq<(Seq<u8>, Seq<u8>)>, key: Seq<u8>) -> Option<Seq<u8>> {
    let i = name_index(attr_keys(attrs), key);
    if i >= 0 && i < attrs.len() { Some(attrs[i].1) } else { None }
}

/// Attribute `key` of group `name`, found through its links (at most 16
/// deep from `depth`).
pub open spec fn hl_lookup_spec(r: HlRegVal, name: Seq<u8>, key: Seq<u8>, depth: int) -> Option<Seq<u8>>
    decreases 17 - depth,
{
    if depth > 16 {
        None
    } else {
        let i = group_index(r, name);
        if i < 0 || i >= r.groups.len() {
            None
        } else {
            match attr_get(r.groups[i].attrs, key) {
                Some(v) => Some(v),
                None => match r.groups[i].link {
                    Some(l) => hl_lookup_spec(r, l, key, depth + 1),
                    None => None,
                },
            }
        }
    }
}

/// Attribute `key` of group `name`, through its links.
fn hl_lookup(reg: &HlRegistry, name: &[u8], key: &[u8], depth: u8) -> (r: Option<Vec<u8>>)
    requires hl_wf(reg@),
    ensures bytes_opt(r) == hl_lookup_spec(reg@, name@, key@, depth as int),
    decreases 17 - depth,
{
    if depth > 16 {
        return None;
    }
    proof { lemma_reg_view(reg); }
    let lk = ascii_lower_exec(name);
    match find_name(&reg.order, lk.as_slice()) {
        None => None,
        Some(i) => {
            let g = &reg.groups[i];
            assert(reg@.groups[i as int] == g@);
            match find_attr(&g.attrs, key) {
                Some(j) => Some(bytes_copy(&g.attrs[j].1)),
                None => match &g.link {
                    Some(l) => hl_lookup(reg, l.as_slice(), key, depth + 1),
                    None => None,
                },
            }
        },
    }
}

/// The id "hlID()" gives: the group's position from 1, or 0.
pub open spec fn hl_id_spec(r: HlRegVal, name: Seq<u8>) -> int {
    if group_index(r, name) >= 0 { group_index(r, name) + 1 } else { 0 }
}

/// Whether group `name` is there and not cleared.
pub open spec fn hl_exists_spec(r: HlRegVal, name: Seq<u8>) -> bool {
    let i = group_index(r, name);
    0 <= i < r.groups.len() && !r.groups[i].cleared
}

/// The id of group `name` (its position from 1), or 0 when it was never named.
pub fn hl_id(reg: &HlRegistry, name: &[u8]) -> (r: varnumber_T)
    requires hl_wf(reg@),
    ensures r as int == hl_id_spec(reg@, name@),
{
    proof { lemma_reg_view(reg); }
    let lk = ascii_lower_exec(name);
    match find_name(&reg.order, lk.as_slice()) {
        Some(i) => i as varnumber_T + 1,
        None => 0,
    }
}

/// Whether group `name` was named and not cleared since.
pub fn hl_exists(reg: &HlRegistry, name: &[u8]) -> (r: bool)
    requires hl_wf(reg@),
    ensures r == hl_exists_spec(reg@, name@),
{
    proof { lemma_reg_view(reg); }
    let lk = ascii_lower_exec(name);
    match find_name(&reg.order, lk.as_slice()) {
        Some(i) => !reg.groups[i].cleared,
        None => false,
    }
}

/// The names of the groups, in the order they were named.
pub fn hl_names(reg: &HlRegistry) -> (r: Vec<Vec<u8>>)
    ensures r@.len() == reg@.order.len(), forall|i: int| 0 <= i < r@.len() ==> #[trigger] r@[i]@ == reg@.order[i],
{
    let mut out: Vec<Vec<u8>> = Vec::new();
    let mut i: usize = 0;
    while i < reg.order.len()
        invariant i <= reg.order@.len(), out@.len() == i, forall|k: int| 0 <= k < i ==> #[trigger] out@[k]@ == reg.order@[k]@,
        decreases reg.order.len() - i,
    {
        out.push(bytes_copy(&reg.order[i]));
        i += 1;
    }
    out
}

// ── ":highlight" ──

/// Where byte `b` first is in `t`, or -1.
pub open spec fn first_byte(t: Seq<u8>, b: u8) -> int {
    if exists|i: int| 0 <= i < t.len() && t[i] == b {
        choose|i: int| 0 <= i < t.len() && t[i] == b && forall|j: int| 0 <= j < i ==> t[j] != b
    } else {
        -1
    }
}

/// Where byte `b` first is in `t`.
fn find_byte(t: &Vec<u8>, b: u8) -> (r: Option<usize>)
    ensures
        match r {
            Some(i) => i < t@.len() && first_byte(t@, b) == i && t@[i as int] == b,
            None => first_byte(t@, b) == -1,
        },
{
    let mut i: usize = 0;
    while i < t.len()
        invariant i <= t@.len(), forall|j: int| 0 <= j < i ==> t@[j] != b,
        decreases t.len() - i,
    {
        if t[i] == b {
            assert(t@[i as int] == b);
            let ghost c = choose|c: int| 0 <= c < t@.len() && t@[c] == b && forall|j: int| 0 <= j < c ==> t@[j] != b;
            proof {
                if c < i { assert(t@[c] != b); }
                if c > i { assert(t@[i as int] != b); }
            }
            return Some(i);
        }
        i += 1;
    }
    None
}

/// The attributes once `key` is set to `val` (replacing its old value).
pub open spec fn attrs_insert(attrs: Seq<(Seq<u8>, Seq<u8>)>, key: Seq<u8>, val: Seq<u8>) -> Seq<(Seq<u8>, Seq<u8>)> {
    let i = name_index(attr_keys(attrs), key);
    if 0 <= i < attrs.len() { attrs.update(i, (key, val)) } else { attrs.push((key, val)) }
}

/// The attributes once word `w` is read: `key=value` sets the key (in lower
/// case) to the text after the first `=`; a word without `=` is ignored.
pub open spec fn kv_apply(attrs: Seq<(Seq<u8>, Seq<u8>)>, w: Seq<u8>) -> Seq<(Seq<u8>, Seq<u8>)> {
    let p = first_byte(w, 61u8);
    if 0 <= p < w.len() { attrs_insert(attrs, ascii_lower(w.subrange(0, p)), w.subrange(p + 1, w.len() as int)) } else { attrs }
}

/// The attributes once the words `ws` are read, in order.
pub open spec fn kvs_apply(attrs: Seq<(Seq<u8>, Seq<u8>)>, ws: Seq<Seq<u8>>) -> Seq<(Seq<u8>, Seq<u8>)>
    decreases ws.len(),
{
    if ws.len() == 0 { attrs } else { kvs_apply(kv_apply(attrs, ws[0]), ws.drop_first()) }
}

/// The registry with the definition of group `name` replaced by `g`.
pub open spec fn set_group(r: HlRegVal, name: Seq<u8>, g: HlGroupVal) -> HlRegVal {
    HlRegVal { groups: r.groups.update(group_index(r, name), g), ..r }
}

/// A cleared group.
pub open spec fn cleared_group() -> HlGroupVal {
    HlGroupVal { attrs: Seq::empty(), link: None, cleared: true }
}

/// The words "default", "clear", "link".
pub open spec fn default_w() -> Seq<u8> { seq![100u8, 101, 102, 97, 117, 108, 116] }
pub open spec fn clear_w() -> Seq<u8> { seq![99u8, 108, 101, 97, 114] }
pub open spec fn link_w() -> Seq<u8> { seq![108u8, 105, 110, 107] }

/// The words of a ":highlight" argument, without a leading "default".
pub open spec fn hl_words(args: Seq<u8>) -> Seq<Seq<u8>> {
    let t = ws_words(args);
    if t.len() > 0 && t[0] == default_w() { t.drop_first() } else { t }
}

/// What ":highlight {args}" does to the registry, and the group it names:
/// nothing for no words; "clear {group}" clears that group (naming it), and
/// "clear" alone every group; "link {from} {to}" names both and links
/// `from` to `to`; "{group} key=value..." names the group, drops its link
/// and sets the attributes.
pub open spec fn define_spec(r: HlRegVal, args: Seq<u8>) -> (HlRegVal, Option<Seq<u8>>) {
    let t = hl_words(args);
    if t.len() == 0 {
        (r, None)
    } else if t[0] == clear_w() {
        if t.len() >= 2 {
            (set_group(intern_spec(r, t[1]).0, t[1], cleared_group()), Some(t[1]))
        } else {
            (HlRegVal { groups: Seq::new(r.groups.len(), |i: int| cleared_group()), ..r }, None)
        }
    } else if t[0] == link_w() {
        if t.len() >= 3 {
            let r1 = intern_spec(intern_spec(r, t[1]).0, t[2]).0;
            let g = r1.groups[group_index(r1, t[1])];
            (set_group(r1, t[1], HlGroupVal { link: Some(t[2]), cleared: false, ..g }), Some(t[1]))
        } else {
            (r, None)
        }
    } else {
        let r1 = intern_spec(r, t[0]).0;
        let g = r1.groups[group_index(r1, t[0])];
        (set_group(r1, t[0], HlGroupVal { attrs: kvs_apply(g.attrs, t.subrange(1, t.len() as int)), link: None, cleared: false }), Some(t[0]))
    }
}

proof fn lemma_intern_index(r: HlRegVal, name: Seq<u8>)
    requires hl_wf(r), r.order.len() + 1 < i64::MAX,
    ensures
        hl_wf(intern_spec(r, name).0),
        0 <= group_index(intern_spec(r, name).0, name) < intern_spec(r, name).0.groups.len(),
        group_index(intern_spec(r, name).0, name) == intern_spec(r, name).1 - 1,
        intern_spec(r, name).0.order.len() <= r.order.len() + 1,
        r.order.is_prefix_of(intern_spec(r, name).0.order),
        r.groups.len() <= intern_spec(r, name).0.groups.len(),
        forall|i: int| 0 <= i < r.groups.len() ==> #[trigger] intern_spec(r, name).0.groups[i] == r.groups[i],
{
    let key = ascii_lower(name);
    let i = name_index(r.order, key);
    let r1 = intern_spec(r, name).0;
    if i >= 0 {
        lemma_name_index_some(r.order, key);
        assert(r.order.is_prefix_of(r1.order)) by { assert(r1.order.subrange(0, r.order.len() as int) =~= r.order); }
    } else {
        let n = r.order.len() as int;
        assert(r1.order[n] == key);
        assert forall|a: int, b: int| 0 <= a < b < r1.order.len() implies r1.order[a] != r1.order[b] by {
            if b == n {
                if r.order[a] == key { assert(name_index(r.order, key) >= 0); }
            }
        }
        lemma_name_index(r1.order, key, n);
        assert(r1.order.subrange(0, n) =~= r.order);
        assert forall|g: int| 0 <= g < r1.groups.len() implies names_distinct(attr_keys(#[trigger] r1.groups[g].attrs)) by {
            if g == n { assert(attr_keys(r1.groups[g].attrs) =~= Seq::<Seq<u8>>::empty()); }
        }
    }
}

/// Replace the definition at `idx`.
fn put_group(reg: &mut HlRegistry, idx: usize, g: HlGroup)
    requires idx < old(reg).groups@.len(),
    ensures
        final(reg).groups@.len() == old(reg).groups@.len(),
        final(reg)@ == (HlRegVal { groups: old(reg)@.groups.update(idx as int, g@), ..old(reg)@ }),
{
    let ghost ov = reg@;
    reg.groups.set(idx, g);
    assert(reg@.groups =~= ov.groups.update(idx as int, g@));
}

/// Take out the definition at `idx` (an empty group stands there meanwhile).
fn take_group(reg: &mut HlRegistry, idx: usize) -> (g: HlGroup)
    requires idx < old(reg).groups@.len(),
    ensures
        g@ == old(reg)@.groups[idx as int],
        final(reg).groups@.len() == old(reg).groups@.len(),
        final(reg)@ == (HlRegVal { groups: old(reg)@.groups.update(idx as int, empty_group()), ..old(reg)@ }),
{
    let ghost ov = reg@;
    let mut g = HlGroup { attrs: Vec::new(), link: None, cleared: false };
    std::mem::swap(&mut g, &mut reg.groups[idx]);
    proof {
        assert(reg.groups@[idx as int]@.attrs =~= Seq::<(Seq<u8>, Seq<u8>)>::empty());
        assert(reg@.groups =~= ov.groups.update(idx as int, empty_group()));
    }
    g
}

/// Set attribute `key` to `val`.
fn attrs_set(attrs: &mut Vec<(Vec<u8>, Vec<u8>)>, key: Vec<u8>, val: Vec<u8>)
    requires names_distinct(attr_keys(attrs_view(old(attrs)@))),
    ensures
        attrs_view(final(attrs)@) == attrs_insert(attrs_view(old(attrs)@), key@, val@),
        names_distinct(attr_keys(attrs_view(final(attrs)@))),
{
    let ghost a0 = attrs_view(attrs@);
    let ghost k = key@;
    let ghost v = val@;
    match find_attr(attrs, key.as_slice()) {
        Some(j) => {
            attrs.set(j, (key, val));
            proof {
                assert(attrs_view(attrs@) =~= a0.update(j as int, (k, v)));
                lemma_name_index_some(attr_keys(a0), k);
                assert forall|a: int, b: int| 0 <= a < b < attrs@.len() implies
                    attr_keys(attrs_view(attrs@))[a] != attr_keys(attrs_view(attrs@))[b] by {
                    assert(attr_keys(a0)[a] != attr_keys(a0)[b]);
                }
            }
        },
        None => {
            attrs.push((key, val));
            proof {
                assert(attrs_view(attrs@) =~= a0.push((k, v)));
                assert forall|a: int, b: int| 0 <= a < b < attrs@.len() implies
                    attr_keys(attrs_view(attrs@))[a] != attr_keys(attrs_view(attrs@))[b] by {
                    if b == a0.len() {
                        if attr_keys(a0)[a] == k { assert(name_index(attr_keys(a0), k) >= 0); }
                    } else {
                        assert(attr_keys(a0)[a] != attr_keys(a0)[b]);
                    }
                }
            }
        },
    }
}

/// The bytes `t[lo..hi]`.
fn sub_bytes(t: &Vec<u8>, lo: usize, hi: usize) -> (r: Vec<u8>)
    requires lo <= hi <= t@.len(),
    ensures r@ == t@.subrange(lo as int, hi as int),
{
    let mut out: Vec<u8> = Vec::new();
    let mut i: usize = lo;
    while i < hi
        invariant lo <= i <= hi, hi <= t@.len(), out@ == t@.subrange(lo as int, i as int),
        decreases hi - i,
    {
        out.push(t[i]);
        i += 1;
        assert(out@ =~= t@.subrange(lo as int, i as int));
    }
    out
}

/// Read the words `ws[from..]` as attributes.
fn apply_kvs(attrs: &mut Vec<(Vec<u8>, Vec<u8>)>, ws: &Vec<Vec<u8>>, from: usize)
    requires names_distinct(attr_keys(attrs_view(old(attrs)@))), from <= ws@.len(),
    ensures
        attrs_view(final(attrs)@) == kvs_apply(attrs_view(old(attrs)@), names_view(ws@).subrange(from as int, ws@.len() as int)),
        names_distinct(attr_keys(attrs_view(final(attrs)@))),
{
    let ghost wv = names_view(ws@);
    let ghost goal = kvs_apply(attrs_view(attrs@), wv.subrange(from as int, wv.len() as int));
    let mut k: usize = from;
    while k < ws.len()
        invariant
            from <= k <= ws@.len(), wv == names_view(ws@),
            names_distinct(attr_keys(attrs_view(attrs@))),
            kvs_apply(attrs_view(attrs@), wv.subrange(k as int, wv.len() as int)) == goal,
        decreases ws.len() - k,
    {
        let w = &ws[k];
        let ghost before = attrs_view(attrs@);
        assert(wv.subrange(k as int, wv.len() as int).drop_first() =~= wv.subrange(k + 1, wv.len() as int));
        assert(wv.subrange(k as int, wv.len() as int)[0] == w@);
        let wl = w.len();
        match find_byte(w, 61u8) {
            Some(p) => {
                assert(p < wl);
                let kk = sub_bytes(w, 0, p);
                let key = ascii_lower_exec(kk.as_slice());
                let val = sub_bytes(w, p + 1, wl);
                attrs_set(attrs, key, val);
            },
            None => {},
        }
        assert(attrs_view(attrs@) == kv_apply(before, w@));
        k += 1;
    }
    assert(wv.subrange(ws@.len() as int, wv.len() as int) =~= Seq::<Seq<u8>>::empty());
}

proof fn lemma_intern_keeps(r: HlRegVal, name: Seq<u8>, other: Seq<u8>)
    requires hl_wf(r), r.order.len() + 1 < i64::MAX, 0 <= group_index(r, other) < r.groups.len(),
    ensures group_index(intern_spec(r, name).0, other) == group_index(r, other),
{
    lemma_intern_index(r, name);
    let r1 = intern_spec(r, name).0;
    let i = group_index(r, other);
    lemma_name_index_some(r.order, ascii_lower(other));
    assert(r1.order[i] == r.order[i]);
    lemma_name_index(r1.order, ascii_lower(other), i);
}

/// ":highlight clear {g}".
fn define_clear_one(reg: &mut HlRegistry, g: &Vec<u8>)
    requires hl_wf(old(reg)@), old(reg)@.order.len() + 2 < i64::MAX,
    ensures hl_wf(final(reg)@), final(reg)@ == set_group(intern_spec(old(reg)@, g@).0, g@, cleared_group()),
{
    proof { lemma_intern_index(reg@, g@); }
    hl_intern(reg, g.as_slice());
    let key = ascii_lower_exec(g.as_slice());
    proof { lemma_reg_view(reg); }
    match find_name(&reg.order, key.as_slice()) {
        Some(i) => {
            let ghost r1 = reg@;
            put_group(reg, i, HlGroup { attrs: Vec::new(), link: None, cleared: true });
            proof {
                assert(reg@.groups[i as int].attrs =~= Seq::<(Seq<u8>, Seq<u8>)>::empty());
                assert(reg@.groups[i as int] == cleared_group());
                assert forall|j: int| 0 <= j < reg@.groups.len() implies names_distinct(attr_keys(#[trigger] reg@.groups[j].attrs)) by {
                    if j == i { assert(attr_keys(reg@.groups[j].attrs) =~= Seq::<Seq<u8>>::empty()); }
                    else { assert(reg@.groups[j] == r1.groups[j]); }
                }
            }
        },
        None => {},
    }
}

/// ":highlight clear".
fn define_clear_all(reg: &mut HlRegistry)
    requires hl_wf(old(reg)@),
    ensures hl_wf(final(reg)@), final(reg)@ == (HlRegVal { groups: Seq::new(old(reg)@.groups.len(), |i: int| cleared_group()), ..old(reg)@ }),
{
    let ghost r0 = reg@;
    let mut i: usize = 0;
    while i < reg.groups.len()
        invariant
            i <= reg@.groups.len(), reg@.groups.len() == r0.groups.len(), reg@.order == r0.order,
            reg.groups@.len() == reg@.groups.len(),
            forall|j: int| 0 <= j < i ==> #[trigger] reg@.groups[j] == cleared_group(),
            forall|j: int| i <= j < reg@.groups.len() ==> #[trigger] reg@.groups[j] == r0.groups[j],
        decreases reg.groups.len() - i,
    {
        put_group(reg, i, HlGroup { attrs: Vec::new(), link: None, cleared: true });
        assert(reg@.groups[i as int].attrs =~= Seq::<(Seq<u8>, Seq<u8>)>::empty());
        i += 1;
    }
    proof {
        assert(reg@.groups =~= Seq::new(r0.groups.len(), |i: int| cleared_group()));
        assert forall|j: int| 0 <= j < reg@.groups.len() implies names_distinct(attr_keys(#[trigger] reg@.groups[j].attrs)) by {
            assert(attr_keys(reg@.groups[j].attrs) =~= Seq::<Seq<u8>>::empty());
        }
    }
}

/// ":highlight link {from} {to}".
fn define_link(reg: &mut HlRegistry, from: &Vec<u8>, to: &Vec<u8>)
    requires hl_wf(old(reg)@), old(reg)@.order.len() + 2 < i64::MAX,
    ensures
        hl_wf(final(reg)@),
        ({
            let r1 = intern_spec(intern_spec(old(reg)@, from@).0, to@).0;
            let g = r1.groups[group_index(r1, from@)];
            final(reg)@ == set_group(r1, from@, HlGroupVal { link: Some(to@), cleared: false, ..g })
        }),
{
    proof { lemma_intern_index(reg@, from@); }
    hl_intern(reg, from.as_slice());
    proof {
        lemma_intern_index(reg@, to@);
        lemma_intern_keeps(reg@, to@, from@);
    }
    hl_intern(reg, to.as_slice());
    let key = ascii_lower_exec(from.as_slice());
    proof { lemma_reg_view(reg); }
    match find_name(&reg.order, key.as_slice()) {
        Some(i) => {
            let ghost r1 = reg@;
            let mut g = take_group(reg, i);
            let ghost g0 = g@;
            g.link = Some(bytes_copy(to));
            g.cleared = false;
            assert(g@ == HlGroupVal { link: Some(to@), cleared: false, ..g0 });
            assert(i as int == group_index(r1, from@));
            let ghost gv = g@;
            put_group(reg, i, g);
            assert(reg@.groups =~= r1.groups.update(i as int, gv));
            proof {
                assert forall|j: int| 0 <= j < reg@.groups.len() implies names_distinct(attr_keys(#[trigger] reg@.groups[j].attrs)) by {
                    if j != i { assert(reg@.groups[j] == r1.groups[j]); }
                }
            }
        },
        None => {},
    }
}

/// ":highlight {group} key=value..." with the group at `ws[s]`.
fn define_group(reg: &mut HlRegistry, ws: &Vec<Vec<u8>>, s: usize)
    requires hl_wf(old(reg)@), old(reg)@.order.len() + 2 < i64::MAX, s < ws.len(),
    ensures
        hl_wf(final(reg)@),
        ({
            let name = ws@[s as int]@;
            let r1 = intern_spec(old(reg)@, name).0;
            let g = r1.groups[group_index(r1, name)];
            final(reg)@ == set_group(r1, name, HlGroupVal {
                attrs: kvs_apply(g.attrs, names_view(ws@).subrange(s + 1, ws@.len() as int)), link: None, cleared: false })
        }),
{
    let name = &ws[s];
    proof { lemma_intern_index(reg@, name@); }
    hl_intern(reg, name.as_slice());
    let key = ascii_lower_exec(name.as_slice());
    proof { lemma_reg_view(reg); }
    match find_name(&reg.order, key.as_slice()) {
        Some(i) => {
            let ghost r1 = reg@;
            let mut g = take_group(reg, i);
            g.cleared = false;
            g.link = None;
            apply_kvs(&mut g.attrs, ws, s + 1);
            let ghost gv = g@;
            put_group(reg, i, g);
            assert(reg@.groups =~= r1.groups.update(i as int, gv));
            proof {
                assert forall|j: int| 0 <= j < reg@.groups.len() implies names_distinct(attr_keys(#[trigger] reg@.groups[j].attrs)) by {
                    if j != i { assert(reg@.groups[j] == r1.groups[j]); }
                }
            }
        },
        None => {},
    }
}

/// Apply the argument of ":highlight" to the registry (see `define_spec`);
/// the result is the group it names, or `None`.
pub fn hl_define_from_args(reg: &mut HlRegistry, args: &[u8]) -> (r: Option<Vec<u8>>)
    requires hl_wf(old(reg)@), old(reg)@.order.len() + 2 < i64::MAX,
    ensures
        hl_wf(final(reg)@),
        final(reg)@ == define_spec(old(reg)@, args@).0,
        bytes_opt(r) == define_spec(old(reg)@, args@).1,
{
    let ws = split_words(args);
    let ghost wv = names_view(ws@);
    assert(wv =~= ws_words(args@));
    let dflt: [u8; 7] = [100u8, 101, 102, 97, 117, 108, 116];
    let clr: [u8; 5] = [99u8, 108, 101, 97, 114];
    let lnk: [u8; 4] = [108u8, 105, 110, 107];
    assert(dflt@ =~= default_w());
    assert(clr@ =~= clear_w());
    assert(lnk@ =~= link_w());
    let s: usize = if ws.len() > 0 && bytes_eq(ws[0].as_slice(), &dflt) { 1 } else { 0 };
    let ghost t = hl_words(args@);
    assert(t =~= wv.subrange(s as int, wv.len() as int));
    if ws.len() == s {
        return None;
    }
    assert(t[0] == ws@[s as int]@);
    if bytes_eq(ws[s].as_slice(), &clr) {
        if ws.len() >= s + 2 {
            assert(t[1] == ws@[s + 1]@);
            define_clear_one(reg, &ws[s + 1]);
            return Some(bytes_copy(&ws[s + 1]));
        } else {
            define_clear_all(reg);
            return None;
        }
    }
    if bytes_eq(ws[s].as_slice(), &lnk) {
        if ws.len() >= s + 3 {
            assert(t[1] == ws@[s + 1]@ && t[2] == ws@[s + 2]@);
            define_link(reg, &ws[s + 1], &ws[s + 2]);
            return Some(bytes_copy(&ws[s + 1]));
        } else {
            return None;
        }
    }
    assert(t.subrange(1, t.len() as int) =~= wv.subrange(s + 1, wv.len() as int));
    define_group(reg, &ws, s);
    Some(bytes_copy(&ws[s]))
}

// ── reading groups ──

/// The words "none", "gui", "cterm", "term" and the attribute keys.
pub open spec fn none_w() -> Seq<u8> { seq![110u8, 111, 110, 101] }
pub open spec fn gui_w() -> Seq<u8> { seq![103u8, 117, 105] }
pub open spec fn cterm_w() -> Seq<u8> { seq![99u8, 116, 101, 114, 109] }
pub open spec fn term_w() -> Seq<u8> { seq![116u8, 101, 114, 109] }
pub open spec fn guifg_w() -> Seq<u8> { seq![103u8, 117, 105, 102, 103] }
pub open spec fn guibg_w() -> Seq<u8> { seq![103u8, 117, 105, 98, 103] }
pub open spec fn guisp_w() -> Seq<u8> { seq![103u8, 117, 105, 115, 112] }
pub open spec fn ctermfg_w() -> Seq<u8> { seq![99u8, 116, 101, 114, 109, 102, 103] }
pub open spec fn ctermbg_w() -> Seq<u8> { seq![99u8, 116, 101, 114, 109, 98, 103] }
pub open spec fn ctermul_w() -> Seq<u8> { seq![99u8, 116, 101, 114, 109, 117, 108] }
pub open spec fn font_w() -> Seq<u8> { seq![102u8, 111, 110, 116] }

/// Attribute words once a comma-separated list is read up to a comma: the
/// word read joins them (in lower case) unless it is empty or "none".
pub open spec fn keep_word(ws: Seq<Seq<u8>>, w: Seq<u8>) -> Seq<Seq<u8>> {
    if w.len() > 0 && ascii_lower(w) != none_w() { ws.push(ascii_lower(w)) } else { ws }
}

/// The words so far and the word being read after `n` bytes of a list.
pub open spec fn cw_fold(s: Seq<u8>, n: int) -> (Seq<Seq<u8>>, Seq<u8>)
    decreases n,
{
    if n <= 0 {
        (Seq::empty(), Seq::empty())
    } else {
        let st = cw_fold(s, n - 1);
        if s[n - 1] == 44u8 { (keep_word(st.0, st.1), Seq::empty()) } else { (st.0, st.1.push(s[n - 1])) }
    }
}

/// The display attributes of a comma-separated list ("bold,NONE,Italic"
/// gives "bold", "italic").
pub open spec fn attr_words(s: Seq<u8>) -> Seq<Seq<u8>> {
    keep_word(cw_fold(s, s.len() as int).0, cw_fold(s, s.len() as int).1)
}

/// Whether a word of a comma-separated list is `want`, ignoring ASCII case,
/// after `n` bytes; and the word being read.
pub open spec fn hw_fold(s: Seq<u8>, want: Seq<u8>, n: int) -> (bool, Seq<u8>)
    decreases n,
{
    if n <= 0 {
        (false, Seq::empty())
    } else {
        let st = hw_fold(s, want, n - 1);
        if s[n - 1] == 44u8 { (st.0 || ascii_lower(st.1) == ascii_lower(want), Seq::empty()) } else { (st.0, st.1.push(s[n - 1])) }
    }
}

/// Whether a comma-separated list holds `want`, ignoring ASCII case.
pub open spec fn has_word(s: Seq<u8>, want: Seq<u8>) -> bool {
    hw_fold(s, want, s.len() as int).0 || ascii_lower(hw_fold(s, want, s.len() as int).1) == ascii_lower(want)
}

/// The first of two optional values that is there.
pub open spec fn or_else(a: Option<Seq<u8>>, b: Option<Seq<u8>>) -> Option<Seq<u8>> {
    match a { Some(_) => a, None => b }
}

/// A value, or the empty String.
pub open spec fn or_empty(a: Option<Seq<u8>>) -> Seq<u8> {
    match a { Some(v) => v, None => Seq::empty() }
}

/// A colour value, unless it is "NONE" (in any case).
pub open spec fn colour_spec(v: Option<Seq<u8>>) -> Option<Seq<u8>> {
    match v { Some(s) => if ascii_lower(s) == none_w() { None } else { Some(s) }, None => None }
}

/// The display attributes of the first list the group has of "gui",
/// "cterm", "term".
pub open spec fn resolved_attrs(r: HlRegVal, name: Seq<u8>) -> Seq<Seq<u8>> {
    match or_else(or_else(hl_lookup_spec(r, name, gui_w(), 0), hl_lookup_spec(r, name, cterm_w(), 0)), hl_lookup_spec(r, name, term_w(), 0)) {
        Some(l) => attr_words(l),
        None => Seq::empty(),
    }
}

/// A group resolved through its links: colours and display attributes.
pub struct ResolvedHl {
    pub guifg: Option<Vec<u8>>,
    pub guibg: Option<Vec<u8>>,
    pub guisp: Option<Vec<u8>>,
    pub ctermfg: Option<Vec<u8>>,
    pub ctermbg: Option<Vec<u8>>,
    pub attrs: Vec<Vec<u8>>,
    pub cleared: bool,
}

/// The model of a `ResolvedHl`.
pub struct ResolvedVal {
    pub guifg: Option<Seq<u8>>,
    pub guibg: Option<Seq<u8>>,
    pub guisp: Option<Seq<u8>>,
    pub ctermfg: Option<Seq<u8>>,
    pub ctermbg: Option<Seq<u8>>,
    pub attrs: Seq<Seq<u8>>,
    pub cleared: bool,
}

impl View for ResolvedHl {
    type V = ResolvedVal;
    open spec fn view(&self) -> ResolvedVal {
        ResolvedVal {
            guifg: bytes_opt(self.guifg), guibg: bytes_opt(self.guibg), guisp: bytes_opt(self.guisp),
            ctermfg: bytes_opt(self.ctermfg), ctermbg: bytes_opt(self.ctermbg),
            attrs: names_view(self.attrs@), cleared: self.cleared,
        }
    }
}

/// The model of an optional `ResolvedHl`.
pub open spec fn resolved_opt(o: Option<ResolvedHl>) -> Option<ResolvedVal> {
    match o { Some(v) => Some(v@), None => None }
}

/// What "hl_resolved()" gives: nothing for a group never named; for a
/// cleared group no colours and `cleared`; else its colours (not "NONE")
/// and display attributes, through its links.
pub open spec fn resolved_spec(r: HlRegVal, name: Seq<u8>) -> Option<ResolvedVal> {
    let i = group_index(r, name);
    if i < 0 || i >= r.groups.len() {
        None
    } else if r.groups[i].cleared {
        Some(ResolvedVal { guifg: None, guibg: None, guisp: None, ctermfg: None, ctermbg: None, attrs: Seq::empty(), cleared: true })
    } else {
        Some(ResolvedVal {
            guifg: colour_spec(hl_lookup_spec(r, name, guifg_w(), 0)),
            guibg: colour_spec(hl_lookup_spec(r, name, guibg_w(), 0)),
            guisp: colour_spec(hl_lookup_spec(r, name, guisp_w(), 0)),
            ctermfg: colour_spec(hl_lookup_spec(r, name, ctermfg_w(), 0)),
            ctermbg: colour_spec(hl_lookup_spec(r, name, ctermbg_w(), 0)),
            attrs: resolved_attrs(r, name),
            cleared: false,
        })
    }
}

/// The display attributes of a comma-separated list.
fn attr_words_exec(s: &Vec<u8>) -> (r: Vec<Vec<u8>>)
    ensures names_view(r@) == attr_words(s@),
{
    let none: [u8; 4] = [110u8, 111, 110, 101];
    assert(none@ =~= none_w());
    let mut words: Vec<Vec<u8>> = Vec::new();
    let mut cur: Vec<u8> = Vec::new();
    let mut i: usize = 0;
    while i < s.len()
        invariant
            i <= s@.len(), none@ == none_w(),
            names_view(words@) == cw_fold(s@, i as int).0, cur@ == cw_fold(s@, i as int).1,
        decreases s.len() - i,
    {
        if s[i] == 44u8 {
            let ghost before = names_view(words@);
            if cur.len() > 0 {
                let lw = ascii_lower_exec(cur.as_slice());
                if !bytes_eq(lw.as_slice(), &none) {
                    words.push(lw);
                    assert(names_view(words@) =~= before.push(ascii_lower(cur@)));
                }
            }
            cur = Vec::new();
        } else {
            cur.push(s[i]);
        }
        i += 1;
    }
    let ghost before = names_view(words@);
    if cur.len() > 0 {
        let lw = ascii_lower_exec(cur.as_slice());
        if !bytes_eq(lw.as_slice(), &none) {
            words.push(lw);
            assert(names_view(words@) =~= before.push(ascii_lower(cur@)));
        }
    }
    words
}

/// Whether a comma-separated list holds `want`, ignoring ASCII case.
fn has_word_exec(s: &Vec<u8>, want: &[u8]) -> (r: bool)
    ensures r == has_word(s@, want@),
{
    let lw = ascii_lower_exec(want);
    let mut hit = false;
    let mut cur: Vec<u8> = Vec::new();
    let mut i: usize = 0;
    while i < s.len()
        invariant i <= s@.len(), lw@ == ascii_lower(want@), hit == hw_fold(s@, want@, i as int).0, cur@ == hw_fold(s@, want@, i as int).1,
        decreases s.len() - i,
    {
        if s[i] == 44u8 {
            let lc = ascii_lower_exec(cur.as_slice());
            hit = hit || bytes_eq(lc.as_slice(), lw.as_slice());
            cur = Vec::new();
        } else {
            cur.push(s[i]);
        }
        i += 1;
    }
    let lc = ascii_lower_exec(cur.as_slice());
    hit || bytes_eq(lc.as_slice(), lw.as_slice())
}

/// A colour of group `name`, unless it is "NONE".
fn colour_of(reg: &HlRegistry, name: &[u8], key: &[u8]) -> (r: Option<Vec<u8>>)
    requires hl_wf(reg@),
    ensures bytes_opt(r) == colour_spec(hl_lookup_spec(reg@, name@, key@, 0)),
{
    let none: [u8; 4] = [110u8, 111, 110, 101];
    assert(none@ =~= none_w());
    match hl_lookup(reg, name, key, 0) {
        Some(v) => {
            let lv = ascii_lower_exec(v.as_slice());
            if bytes_eq(lv.as_slice(), &none) { None } else { Some(v) }
        },
        None => None,
    }
}

/// Group `name` resolved through its links (see `resolved_spec`).
pub fn hl_resolved(reg: &HlRegistry, name: &[u8]) -> (r: Option<ResolvedHl>)
    requires hl_wf(reg@),
    ensures resolved_opt(r) == resolved_spec(reg@, name@),
{
    proof { lemma_reg_view(reg); }
    let lk = ascii_lower_exec(name);
    let i = match find_name(&reg.order, lk.as_slice()) {
        Some(i) => i,
        None => { return None; },
    };
    if reg.groups[i].cleared {
        assert(reg@.groups[i as int] == reg.groups@[i as int]@);
        let e: Vec<Vec<u8>> = Vec::new();
        assert(names_view(e@) =~= Seq::<Seq<u8>>::empty());
        return Some(ResolvedHl { guifg: None, guibg: None, guisp: None, ctermfg: None, ctermbg: None, attrs: e, cleared: true });
    }
    assert(reg@.groups[i as int] == reg.groups@[i as int]@);
    let gui: [u8; 3] = [103u8, 117, 105];
    let cterm: [u8; 5] = [99u8, 116, 101, 114, 109];
    let term: [u8; 4] = [116u8, 101, 114, 109];
    let guifg: [u8; 5] = [103u8, 117, 105, 102, 103];
    let guibg: [u8; 5] = [103u8, 117, 105, 98, 103];
    let guisp: [u8; 5] = [103u8, 117, 105, 115, 112];
    let ctermfg: [u8; 7] = [99u8, 116, 101, 114, 109, 102, 103];
    let ctermbg: [u8; 7] = [99u8, 116, 101, 114, 109, 98, 103];
    assert(gui@ =~= gui_w() && cterm@ =~= cterm_w() && term@ =~= term_w());
    assert(guifg@ =~= guifg_w() && guibg@ =~= guibg_w() && guisp@ =~= guisp_w());
    assert(ctermfg@ =~= ctermfg_w() && ctermbg@ =~= ctermbg_w());
    let list = match hl_lookup(reg, name, &gui, 0) {
        Some(l) => Some(l),
        None => match hl_lookup(reg, name, &cterm, 0) {
            Some(l) => Some(l),
            None => hl_lookup(reg, name, &term, 0),
        },
    };
    let attrs = match list {
        Some(l) => attr_words_exec(&l),
        None => Vec::new(),
    };
    assert(names_view(attrs@) =~= resolved_attrs(reg@, name@));
    Some(ResolvedHl {
        guifg: colour_of(reg, name, &guifg),
        guibg: colour_of(reg, name, &guibg),
        guisp: colour_of(reg, name, &guisp),
        ctermfg: colour_of(reg, name, &ctermfg),
        ctermbg: colour_of(reg, name, &ctermbg),
        attrs,
        cleared: false,
    })
}

/// The words "name", "fg", "bg", "sp", "reverse", "inverse" and the display
/// attributes "synIDattr()" can test.
pub open spec fn name_w() -> Seq<u8> { seq![110u8, 97, 109, 101] }
pub open spec fn fg_w() -> Seq<u8> { seq![102u8, 103] }
pub open spec fn bg_w() -> Seq<u8> { seq![98u8, 103] }
pub open spec fn sp_w() -> Seq<u8> { seq![115u8, 112] }
pub open spec fn reverse_w() -> Seq<u8> { seq![114u8, 101, 118, 101, 114, 115, 101] }
pub open spec fn inverse_w() -> Seq<u8> { seq![105u8, 110, 118, 101, 114, 115, 101] }
pub open spec fn bool_attr_words() -> Seq<Seq<u8>> {
    seq![
        seq![98u8, 111, 108, 100],
        seq![105u8, 116, 97, 108, 105, 99],
        reverse_w(),
        inverse_w(),
        seq![115u8, 116, 97, 110, 100, 111, 117, 116],
        seq![117u8, 110, 100, 101, 114, 108, 105, 110, 101],
        seq![117u8, 110, 100, 101, 114, 99, 117, 114, 108],
        seq![117u8, 110, 100, 101, 114, 100, 111, 117, 98, 108, 101],
        seq![117u8, 110, 100, 101, 114, 100, 111, 116, 116, 101, 100],
        seq![117u8, 110, 100, 101, 114, 100, 97, 115, 104, 101, 100],
        seq![115u8, 116, 114, 105, 107, 101, 116, 104, 114, 111, 117, 103, 104],
        seq![110u8, 111, 99, 111, 109, 98, 105, 110, 101]
    ]
}

/// `s` without the '#' at its end.
pub open spec fn strip_hash(s: Seq<u8>) -> Seq<u8>
    decreases s.len(),
{
    if s.len() > 0 && s.last() == 35u8 { strip_hash(s.drop_last()) } else { s }
}

/// A colour of group `name`: the GUI key first in GUI mode, the terminal
/// key first otherwise, else the empty String.
pub open spec fn colour_pair(r: HlRegVal, name: Seq<u8>, gui: bool, g: Seq<u8>, c: Seq<u8>) -> Seq<u8> {
    or_empty(or_else(hl_lookup_spec(r, name, if gui { g } else { c }, 0), hl_lookup_spec(r, name, if gui { c } else { g }, 0)))
}

/// Whether display attribute `want` is in the "gui" (GUI mode) or "cterm"
/// list of group `name`, else in its "term" list.
pub open spec fn attr_hit(r: HlRegVal, name: Seq<u8>, gui: bool, want: Seq<u8>) -> bool {
    match or_else(hl_lookup_spec(r, name, if gui { gui_w() } else { cterm_w() }, 0), hl_lookup_spec(r, name, term_w(), 0)) {
        Some(l) => has_word(l, want),
        None => false,
    }
}

/// What "synIDattr({id}, {what}, {mode})" gives for a group id: its name,
/// a colour, its font, "1" for a display attribute it has, else "".
pub open spec fn synidattr_spec(r: HlRegVal, id: int, what: Seq<u8>, mode: Seq<u8>) -> Seq<u8> {
    if id < 1 || id > r.order.len() {
        Seq::empty()
    } else {
        let name = r.order[id - 1];
        let gui = mode == gui_w() || mode.len() == 0;
        let w = strip_hash(what);
        if w == name_w() {
            name
        } else if w == fg_w() {
            colour_pair(r, name, gui, guifg_w(), ctermfg_w())
        } else if w == bg_w() {
            colour_pair(r, name, gui, guibg_w(), ctermbg_w())
        } else if w == sp_w() {
            colour_pair(r, name, gui, guisp_w(), ctermul_w())
        } else if w == font_w() {
            or_empty(hl_lookup_spec(r, name, font_w(), 0))
        } else if bool_attr_words().contains(w) {
            if attr_hit(r, name, gui, if w == inverse_w() { reverse_w() } else { w }) { seq![49u8] } else { Seq::empty() }
        } else {
            Seq::empty()
        }
    }
}

/// `s` without the '#' at its end.
fn strip_hash_exec(s: &Vec<u8>) -> (r: Vec<u8>)
    ensures r@ == strip_hash(s@),
{
    let mut n: usize = s.len();
    assert(s@.subrange(0, s@.len() as int) =~= s@);
    while n > 0 && s[n - 1] == 35u8
        invariant n <= s@.len(), strip_hash(s@) == strip_hash(s@.subrange(0, n as int)),
        decreases n,
    {
        assert(s@.subrange(0, n as int).drop_last() =~= s@.subrange(0, n - 1));
        n -= 1;
    }
    assert(s@.subrange(0, s@.len() as int) =~= s@);
    sub_bytes(s, 0, n)
}

fn opt_or(a: Option<Vec<u8>>, b: Option<Vec<u8>>) -> (r: Vec<u8>)
    ensures r@ == or_empty(or_else(bytes_opt(a), bytes_opt(b))),
{
    match a {
        Some(v) => v,
        None => match b { Some(v) => v, None => Vec::new() },
    }
}

/// Whether `w` is a display attribute "synIDattr()" tests.
fn is_bool_attr(w: &Vec<u8>) -> (r: bool)
    ensures r == bool_attr_words().contains(w@),
{
    let a0: [u8; 4] = [98u8, 111, 108, 100];
    let a1: [u8; 6] = [105u8, 116, 97, 108, 105, 99];
    let a2: [u8; 7] = [114u8, 101, 118, 101, 114, 115, 101];
    let a3: [u8; 7] = [105u8, 110, 118, 101, 114, 115, 101];
    let a4: [u8; 8] = [115u8, 116, 97, 110, 100, 111, 117, 116];
    let a5: [u8; 9] = [117u8, 110, 100, 101, 114, 108, 105, 110, 101];
    let a6: [u8; 9] = [117u8, 110, 100, 101, 114, 99, 117, 114, 108];
    let a7: [u8; 11] = [117u8, 110, 100, 101, 114, 100, 111, 117, 98, 108, 101];
    let a8: [u8; 11] = [117u8, 110, 100, 101, 114, 100, 111, 116, 116, 101, 100];
    let a9: [u8; 11] = [117u8, 110, 100, 101, 114, 100, 97, 115, 104, 101, 100];
    let a10: [u8; 13] = [115u8, 116, 114, 105, 107, 101, 116, 104, 114, 111, 117, 103, 104];
    let a11: [u8; 9] = [110u8, 111, 99, 111, 109, 98, 105, 110, 101];
    let ghost ws = bool_attr_words();
    assert(a0@ =~= ws[0] && a1@ =~= ws[1] && a2@ =~= ws[2] && a3@ =~= ws[3]);
    assert(a4@ =~= ws[4] && a5@ =~= ws[5] && a6@ =~= ws[6] && a7@ =~= ws[7]);
    assert(a8@ =~= ws[8] && a9@ =~= ws[9] && a10@ =~= ws[10] && a11@ =~= ws[11]);
    let s = w.as_slice();
    let r = bytes_eq(s, &a0) || bytes_eq(s, &a1) || bytes_eq(s, &a2) || bytes_eq(s, &a3)
        || bytes_eq(s, &a4) || bytes_eq(s, &a5) || bytes_eq(s, &a6) || bytes_eq(s, &a7)
        || bytes_eq(s, &a8) || bytes_eq(s, &a9) || bytes_eq(s, &a10) || bytes_eq(s, &a11);
    proof {
        if ws.contains(w@) {
            let k = choose|k: int| 0 <= k < ws.len() && ws[k] == w@;
            assert(0 <= k < 12);
        }
        if r {
            if w@ == ws[0] { assert(ws.contains(w@)); }
        }
    }
    r
}

/// "synIDattr()" on the registry (see `synidattr_spec`).
fn hl_synidattr(reg: &HlRegistry, id: varnumber_T, what: &Vec<u8>, mode: &Vec<u8>) -> (r: Vec<u8>)
    requires hl_wf(reg@),
    ensures r@ == synidattr_spec(reg@, id as int, what@, mode@),
{
    proof { lemma_reg_view(reg); }
    if id < 1 || (id - 1) as u64 >= reg.order.len() as u64 {
        return Vec::new();
    }
    let name = bytes_copy(&reg.order[(id - 1) as usize]);
    let guiw: [u8; 3] = [103u8, 117, 105];
    assert(guiw@ =~= gui_w());
    let gui = bytes_eq(mode.as_slice(), &guiw) || mode.len() == 0;
    let w = strip_hash_exec(what);
    let n_name: [u8; 4] = [110u8, 97, 109, 101];
    let n_fg: [u8; 2] = [102u8, 103];
    let n_bg: [u8; 2] = [98u8, 103];
    let n_sp: [u8; 2] = [115u8, 112];
    let n_font: [u8; 4] = [102u8, 111, 110, 116];
    let n_inv: [u8; 7] = [105u8, 110, 118, 101, 114, 115, 101];
    let n_rev: [u8; 7] = [114u8, 101, 118, 101, 114, 115, 101];
    let cterm: [u8; 5] = [99u8, 116, 101, 114, 109];
    let term: [u8; 4] = [116u8, 101, 114, 109];
    let guifg: [u8; 5] = [103u8, 117, 105, 102, 103];
    let guibg: [u8; 5] = [103u8, 117, 105, 98, 103];
    let guisp: [u8; 5] = [103u8, 117, 105, 115, 112];
    let ctermfg: [u8; 7] = [99u8, 116, 101, 114, 109, 102, 103];
    let ctermbg: [u8; 7] = [99u8, 116, 101, 114, 109, 98, 103];
    let ctermul: [u8; 7] = [99u8, 116, 101, 114, 109, 117, 108];
    assert(n_name@ =~= name_w() && n_fg@ =~= fg_w() && n_bg@ =~= bg_w() && n_sp@ =~= sp_w() && n_font@ =~= font_w());
    assert(n_inv@ =~= inverse_w() && n_rev@ =~= reverse_w() && cterm@ =~= cterm_w() && term@ =~= term_w());
    assert(guifg@ =~= guifg_w() && guibg@ =~= guibg_w() && guisp@ =~= guisp_w());
    assert(ctermfg@ =~= ctermfg_w() && ctermbg@ =~= ctermbg_w() && ctermul@ =~= ctermul_w());
    let s = w.as_slice();
    let nm = name.as_slice();
    if bytes_eq(s, &n_name) {
        name
    } else if bytes_eq(s, &n_fg) {
        let (p, q): (&[u8], &[u8]) = if gui { (&guifg, &ctermfg) } else { (&ctermfg, &guifg) };
        opt_or(hl_lookup(reg, nm, p, 0), hl_lookup(reg, nm, q, 0))
    } else if bytes_eq(s, &n_bg) {
        let (p, q): (&[u8], &[u8]) = if gui { (&guibg, &ctermbg) } else { (&ctermbg, &guibg) };
        opt_or(hl_lookup(reg, nm, p, 0), hl_lookup(reg, nm, q, 0))
    } else if bytes_eq(s, &n_sp) {
        let (p, q): (&[u8], &[u8]) = if gui { (&guisp, &ctermul) } else { (&ctermul, &guisp) };
        opt_or(hl_lookup(reg, nm, p, 0), hl_lookup(reg, nm, q, 0))
    } else if bytes_eq(s, &n_font) {
        opt_or(hl_lookup(reg, nm, &n_font, 0), None)
    } else if is_bool_attr(&w) {
        let lk: &[u8] = if gui { &guiw } else { &cterm };
        let list = match hl_lookup(reg, nm, lk, 0) {
            Some(l) => Some(l),
            None => hl_lookup(reg, nm, &term, 0),
        };
        let want: &[u8] = if bytes_eq(s, &n_inv) { &n_rev } else { s };
        let hit = match list {
            Some(l) => has_word_exec(&l, want),
            None => false,
        };
        if hit { vec![49u8] } else { Vec::new() }
    } else {
        Vec::new()
    }
}

/// "synIDattr({id}, {what} [, {mode}])": an attribute of the group with
/// that id (see `synidattr_spec`).
pub fn f_synIDattr(reg: &HlRegistry, argvars: &[typval_T], rettv: &mut typval_T)
    requires hl_wf(reg@),
    ensures
        final(rettv)@ == str_tv(synidattr_spec(reg@,
            if argvars@.len() > 0 { number_chk_result(argvars@[0]@, false) } else { 0 },
            if argvars@.len() > 1 { string_or_empty(argvars@[1]@) } else { Seq::empty() },
            if argvars@.len() > 2 { string_or_empty(argvars@[2]@) } else { Seq::empty() })),
{
    let id = if argvars.len() > 0 { tv_get_number_chk(&argvars[0], None) } else { 0 };
    let what = if argvars.len() > 1 { tv_get_string(&argvars[1]) } else { Vec::new() };
    let mode = if argvars.len() > 2 { tv_get_string(&argvars[2]) } else { Vec::new() };
    *rettv = str_value(hl_synidattr(reg, id, &what, &mode));
}

/// The first argument as a String, or "".
pub open spec fn first_string(args: Seq<typval_T>) -> Seq<u8> {
    if args.len() > 0 { string_or_empty(args[0]@) } else { Seq::empty() }
}

/// "hlexists({name})": whether the group is there and not cleared.
pub fn f_hlexists(reg: &HlRegistry, argvars: &[typval_T], rettv: &mut typval_T)
    requires hl_wf(reg@),
    ensures final(rettv)@ == num_tv(if hl_exists_spec(reg@, first_string(argvars@)) { 1 } else { 0 }),
{
    let name = if argvars.len() > 0 { tv_get_string(&argvars[0]) } else { Vec::new() };
    *rettv = num_value(if hl_exists(reg, name.as_slice()) { 1 } else { 0 });
}

/// "highlight_exists({name})": like "hlexists()"; only the Number is stored
/// in `rettv`.
pub fn f_highlight_exists(reg: &HlRegistry, argvars: &[typval_T], rettv: &mut typval_T)
    requires hl_wf(reg@),
    ensures final(rettv)@ == with_number(old(rettv)@, if hl_exists_spec(reg@, first_string(argvars@)) { 1 } else { 0 }),
{
    let name = if argvars.len() > 0 { tv_get_string(&argvars[0]) } else { Vec::new() };
    set_number(rettv, if hl_exists(reg, name.as_slice()) { 1 } else { 0 });
}

/// "hlID({name})": the group's id, or 0; only the Number is stored in `rettv`.
pub fn f_hlID(reg: &HlRegistry, argvars: &[typval_T], rettv: &mut typval_T)
    requires hl_wf(reg@),
    ensures final(rettv)@ == with_number(old(rettv)@, hl_id_spec(reg@, first_string(argvars@))),
{
    let name = if argvars.len() > 0 { tv_get_string(&argvars[0]) } else { Vec::new() };
    set_number(rettv, hl_id(reg, name.as_slice()));
}

// ── laws ──

/// Naming a group twice gives the same id and changes nothing the second time.
pub proof fn lemma_intern_idempotent(r: HlRegVal, name: Seq<u8>)
    requires hl_wf(r), r.order.len() + 2 < i64::MAX,
    ensures intern_spec(intern_spec(r, name).0, name) == intern_spec(r, name),
{
    lemma_intern_index(r, name);
    let r1 = intern_spec(r, name).0;
    lemma_name_index_some(r1.order, ascii_lower(name));
}

/// ":highlight" never changes the id of a group: the names before it stay
/// where they were.
pub proof fn lemma_define_keeps_ids(r: HlRegVal, args: Seq<u8>)
    requires hl_wf(r), r.order.len() + 2 < i64::MAX,
    ensures
        r.order.is_prefix_of(define_spec(r, args).0.order),
        forall|n: Seq<u8>| #[trigger] hl_id_spec(r, n) > 0 ==> hl_id_spec(define_spec(r, args).0, n) == hl_id_spec(r, n),
{
    let t = hl_words(args);
    let r2 = define_spec(r, args).0;
    if t.len() == 0 {
        assert(r.order.subrange(0, r.order.len() as int) =~= r.order);
    } else if t[0] == clear_w() {
        if t.len() >= 2 {
            lemma_intern_index(r, t[1]);
        } else {
            assert(r.order.subrange(0, r.order.len() as int) =~= r.order);
        }
    } else if t[0] == link_w() {
        if t.len() >= 3 {
            lemma_intern_index(r, t[1]);
            let r1 = intern_spec(r, t[1]).0;
            lemma_intern_index(r1, t[2]);
            let rr = intern_spec(r1, t[2]).0;
            assert(r.order.is_prefix_of(rr.order)) by {
                assert(rr.order.subrange(0, r.order.len() as int) =~= r1.order.subrange(0, r.order.len() as int));
            }
        } else {
            assert(r.order.subrange(0, r.order.len() as int) =~= r.order);
        }
    } else {
        lemma_intern_index(r, t[0]);
    }
    assert forall|n: Seq<u8>| #[trigger] hl_id_spec(r, n) > 0 implies hl_id_spec(r2, n) == hl_id_spec(r, n) by {
        let i = group_index(r, n);
        lemma_name_index_some(r.order, ascii_lower(n));
        assert(r2.order[i] == r.order[i]);
        if t.len() == 0 || (t[0] == clear_w() && t.len() < 2) || (t[0] == link_w() && t.len() < 3) {
        } else {
            lemma_intern_keeps_wf(r, args);
            lemma_name_index(r2.order, ascii_lower(n), i);
        }
    }
}

proof fn lemma_intern_keeps_wf(r: HlRegVal, args: Seq<u8>)
    requires hl_wf(r), r.order.len() + 2 < i64::MAX,
    ensures names_distinct(define_spec(r, args).0.order),
{
    let t = hl_words(args);
    if t.len() > 0 {
        if t[0] == clear_w() {
            if t.len() >= 2 { lemma_intern_index(r, t[1]); }
        } else if t[0] == link_w() {
            if t.len() >= 3 {
                lemma_intern_index(r, t[1]);
                lemma_intern_index(intern_spec(r, t[1]).0, t[2]);
            }
        } else {
            lemma_intern_index(r, t[0]);
        }
    }
}

/// After ":highlight {group} ..." the group exists and has an id.
pub proof fn lemma_define_group_exists(r: HlRegVal, args: Seq<u8>)
    requires
        hl_wf(r), r.order.len() + 2 < i64::MAX,
        hl_words(args).len() > 0, hl_words(args)[0] != clear_w(), hl_words(args)[0] != link_w(),
    ensures
        define_spec(r, args).1 == Some(hl_words(args)[0]),
        hl_exists_spec(define_spec(r, args).0, hl_words(args)[0]),
        hl_id_spec(define_spec(r, args).0, hl_words(args)[0]) > 0,
{
    let t = hl_words(args);
    lemma_intern_index(r, t[0]);
}

/// After ":highlight clear {group}" the group no longer exists, but keeps
/// its id.
pub proof fn lemma_clear_group(r: HlRegVal, args: Seq<u8>)
    requires
        hl_wf(r), r.order.len() + 2 < i64::MAX,
        hl_words(args).len() >= 2, hl_words(args)[0] == clear_w(),
    ensures
        !hl_exists_spec(define_spec(r, args).0, hl_words(args)[1]),
        hl_id_spec(define_spec(r, args).0, hl_words(args)[1]) > 0,
{
    let t = hl_words(args);
    lemma_intern_index(r, t[1]);
}

/// Setting an attribute and reading it back gives the value set; other
/// attributes keep theirs.
pub proof fn lemma_attrs_insert_get(attrs: Seq<(Seq<u8>, Seq<u8>)>, key: Seq<u8>, val: Seq<u8>, other: Seq<u8>)
    requires names_distinct(attr_keys(attrs)),
    ensures
        attr_get(attrs_insert(attrs, key, val), key) == Some(val),
        other != key ==> attr_get(attrs_insert(attrs, key, val), other) == attr_get(attrs, other),
        names_distinct(attr_keys(attrs_insert(attrs, key, val))),
{
    let i = name_index(attr_keys(attrs), key);
    let a2 = attrs_insert(attrs, key, val);
    let ks = attr_keys(attrs);
    let ks2 = attr_keys(a2);
    if 0 <= i < attrs.len() {
        lemma_name_index_some(ks, key);
        assert forall|a: int, b: int| 0 <= a < b < ks2.len() implies ks2[a] != ks2[b] by {
            assert(ks[a] != ks[b]);
        }
        lemma_name_index(ks2, key, i);
        let j = name_index(ks, other);
        if other != key {
            if 0 <= j < attrs.len() {
                lemma_name_index_some(ks, other);
                lemma_name_index(ks2, other, j);
            } else {
                if exists|x: int| 0 <= x < ks2.len() && ks2[x] == other {
                    let x = choose|x: int| 0 <= x < ks2.len() && ks2[x] == other;
                    assert(ks[x] == other);
                }
            }
        }
    } else {
        let n = attrs.len() as int;
        assert forall|a: int, b: int| 0 <= a < b < ks2.len() implies ks2[a] != ks2[b] by {
            if b == n { if ks[a] == key { assert(name_index(ks, key) >= 0); } } else { assert(ks[a] != ks[b]); }
        }
        lemma_name_index(ks2, key, n);
        let j = name_index(ks, other);
        if other != key {
            if 0 <= j < attrs.len() {
                lemma_name_index_some(ks, other);
                lemma_name_index(ks2, other, j);
            } else {
                if exists|x: int| 0 <= x < ks2.len() && ks2[x] == other {
                    let x = choose|x: int| 0 <= x < ks2.len() && ks2[x] == other;
                    assert(ks[x] == other);
                }
            }
        }
    }
}

/// After ":highlight {group} {key}={value}" the group's attribute `key`
/// (in lower case) reads `value`.
pub proof fn lemma_define_then_lookup(r: HlRegVal, args: Seq<u8>, key: Seq<u8>, val: Seq<u8>)
    requires
        hl_wf(r), r.order.len() + 2 < i64::MAX,
        hl_words(args).len() == 2, hl_words(args)[0] != clear_w(), hl_words(args)[0] != link_w(),
        hl_words(args)[1] == key + seq![61u8] + val,
        forall|i: int| 0 <= i < key.len() ==> key[i] != 61u8,
    ensures
        hl_lookup_spec(define_spec(r, args).0, hl_words(args)[0], ascii_lower(key), 0) == Some(val),
{
    let t = hl_words(args);
    let w = t[1];
    lemma_intern_index(r, t[0]);
    let r1 = intern_spec(r, t[0]).0;
    let gi = group_index(r1, t[0]);
    let g = r1.groups[gi];
    let p = key.len() as int;
    assert(w[p] == 61u8);
    let c = choose|c: int| 0 <= c < w.len() && w[c] == 61u8 && forall|j: int| 0 <= j < c ==> w[j] != 61u8;
    assert(c == p) by {
        if c < p { assert(w[c] == key[c]); }
        if c > p { assert(w[p] != 61u8); }
    }
    assert(w.subrange(0, p) =~= key);
    assert(w.subrange(p + 1, w.len() as int) =~= val);
    let rest = t.subrange(1, t.len() as int);
    assert(rest.drop_first() =~= Seq::<Seq<u8>>::empty());
    assert(rest[0] == w);
    assert(first_byte(w, 61u8) == p);
    assert(kv_apply(g.attrs, w) == attrs_insert(g.attrs, ascii_lower(key), val));
    assert(kvs_apply(kv_apply(g.attrs, w), rest.drop_first()) == kv_apply(g.attrs, w));
    assert(kvs_apply(g.attrs, rest) == attrs_insert(g.attrs, ascii_lower(key), val));
    lemma_attrs_insert_get(g.attrs, ascii_lower(key), val, ascii_lower(key));
    let r2 = define_spec(r, args).0;
    assert(group_index(r2, t[0]) == gi);
}

/// After ":highlight link {from} {to}", an attribute that `from` does not
/// set itself is read from `to`.
pub proof fn lemma_link_lookup(r: HlRegVal, args: Seq<u8>, key: Seq<u8>)
    requires
        hl_wf(r), r.order.len() + 2 < i64::MAX,
        hl_words(args).len() >= 3, hl_words(args)[0] == link_w(),
        attr_get(define_spec(r, args).0.groups[group_index(define_spec(r, args).0, hl_words(args)[1])].attrs, key) is None,
    ensures
        hl_lookup_spec(define_spec(r, args).0, hl_words(args)[1], key, 0)
            == hl_lookup_spec(define_spec(r, args).0, hl_words(args)[2], key, 1),
{
    let t = hl_words(args);
    lemma_intern_index(r, t[1]);
    let r1 = intern_spec(r, t[1]).0;
    lemma_intern_index(r1, t[2]);
    lemma_intern_keeps(r1, t[2], t[1]);
}

// ── the laws over the text of ":highlight" ──

/// A word of printable ASCII characters other than the space.
pub open spec fn plain_word(w: Seq<u8>) -> bool {
    w.len() > 0 && forall|i: int| 0 <= i < w.len() ==> 0x21 <= #[trigger] w[i] <= 0x7e
}

proof fn lemma_ascii_split(s: Seq<u8>)
    requires forall|i: int| 0 <= i < s.len() ==> #[trigger] s[i] < 0x80,
    ensures
        utf8_split(s).len() == s.len(),
        forall|i: int| 0 <= i < s.len() ==> #[trigger] utf8_split(s)[i] == seq![s[i]],
    decreases s.len(),
{
    if s.len() > 0 {
        let t = s.subrange(1, s.len() as int);
        assert forall|i: int| 0 <= i < t.len() implies #[trigger] t[i] < 0x80 by { assert(t[i] == s[i + 1]); }
        lemma_ascii_split(t);
        assert(crate::charset::char_len_at(s, 0) == 1);
        assert(s.subrange(0, 1) =~= seq![s[0]]);
        let u = utf8_split(s);
        assert forall|i: int| 0 <= i < s.len() implies #[trigger] u[i] == seq![s[i]] by {
            if i > 0 { assert(u[i] == utf8_split(t)[i - 1]); assert(t[i - 1] == s[i]); }
        }
    }
}

proof fn lemma_one_byte_code(x: u8)
    ensures first_char_code(seq![x]) == x as int,
{
    let s = seq![x];
    assert(crate::charset::char_len_at(s, 0) == 1);
    assert(s.subrange(0, 1) =~= s);
}

proof fn lemma_fold_word(cs: Seq<Seq<u8>>, s: Seq<u8>, start: int, words: Seq<Seq<u8>>, w: Seq<u8>, k: int)
    requires
        0 <= start, 0 <= k <= w.len(), start + w.len() <= s.len(), cs.len() == s.len(),
        forall|i: int| 0 <= i < s.len() ==> #[trigger] cs[i] == seq![s[i]],
        forall|i: int| 0 <= i < w.len() ==> s[start + i] == #[trigger] w[i] && 0x21 <= w[i] <= 0x7e,
        word_fold(cs, start) == (words, Seq::<u8>::empty()),
    ensures word_fold(cs, start + k) == (words, w.subrange(0, k)),
    decreases k,
{
    if k == 0 {
        assert(w.subrange(0, 0) =~= Seq::<u8>::empty());
    } else {
        lemma_fold_word(cs, s, start, words, w, k - 1);
        lemma_one_byte_code(w[k - 1]);
        assert(cs[start + k - 1] == seq![w[k - 1]]);
        assert(w.subrange(0, k - 1) + seq![w[k - 1]] =~= w.subrange(0, k));
    }
}

/// The words of "a b" are `a` and `b`, for plain words.
pub proof fn lemma_two_words(a: Seq<u8>, b: Seq<u8>)
    requires plain_word(a), plain_word(b),
    ensures ws_words(a + seq![32u8] + b) == seq![a, b],
{
    let s = a + seq![32u8] + b;
    assert forall|i: int| 0 <= i < s.len() implies #[trigger] s[i] < 0x80 by {
        if i < a.len() { assert(s[i] == a[i]); } else if i > a.len() { assert(s[i] == b[i - a.len() - 1]); }
    }
    lemma_ascii_split(s);
    let cs = utf8_split(s);
    assert(word_fold(cs, 0) == (Seq::<Seq<u8>>::empty(), Seq::<u8>::empty()));
    assert forall|i: int| 0 <= i < a.len() implies s[0 + i] == #[trigger] a[i] && 0x21 <= a[i] <= 0x7e by {}
    lemma_fold_word(cs, s, 0, Seq::empty(), a, a.len() as int);
    assert(a.subrange(0, a.len() as int) =~= a);
    lemma_one_byte_code(32u8);
    assert(cs[a.len() as int] == seq![32u8]);
    let sa: int = a.len() as int + 1;
    assert(word_fold(cs, sa) == (seq![a], Seq::<u8>::empty())) by {
        assert(Seq::<Seq<u8>>::empty().push(a) =~= seq![a]);
    }
    assert forall|i: int| 0 <= i < b.len() implies s[sa + i] == #[trigger] b[i] && 0x21 <= b[i] <= 0x7e by {
        assert(s[sa + i] == b[i]);
    }
    lemma_fold_word(cs, s, sa, seq![a], b, b.len() as int);
    assert(b.subrange(0, b.len() as int) =~= b);
    assert(sa + b.len() == cs.len());
    assert(seq![a].push(b) =~= seq![a, b]);
}

/// ":highlight G key=val" for a plain group name `G` (not "clear", "link"
/// or "default") and a plain attribute: the group exists, has an id, and
/// its attribute `key` reads back as `val`.
pub proof fn lemma_highlight_text(r: HlRegVal, g: Seq<u8>, key: Seq<u8>, val: Seq<u8>)
    requires
        hl_wf(r), r.order.len() + 2 < i64::MAX,
        plain_word(g), plain_word(key), plain_word(val),
        g != clear_w(), g != link_w(), g != default_w(),
        forall|i: int| 0 <= i < key.len() ==> key[i] != 61u8,
    ensures ({
        let args = g + seq![32u8] + key + seq![61u8] + val;
        let r2 = define_spec(r, args).0;
        &&& define_spec(r, args).1 == Some(g)
        &&& hl_exists_spec(r2, g)
        &&& hl_id_spec(r2, g) > 0
        &&& hl_lookup_spec(r2, g, ascii_lower(key), 0) == Some(val)
    }),
{
    let w = key + seq![61u8] + val;
    assert forall|i: int| 0 <= i < w.len() implies 0x21 <= #[trigger] w[i] <= 0x7e by {
        if i < key.len() { assert(w[i] == key[i]); } else if i > key.len() { assert(w[i] == val[i - key.len() - 1]); }
    }
    lemma_two_words(g, w);
    let args = g + seq![32u8] + key + seq![61u8] + val;
    assert(args =~= g + seq![32u8] + w);
    assert(hl_words(args) == seq![g, w]);
    lemma_define_group_exists(r, args);
    lemma_define_then_lookup(r, args, key, val);
}

/// ":highlight clear G" for a plain group name: afterwards the group does
/// not exist under any spelling of its name, and its id is the one it had
/// (a new one if it had none).
#[verifier::spinoff_prover]
pub proof fn lemma_clear_text(r: HlRegVal, g: Seq<u8>, g2: Seq<u8>)
    requires hl_wf(r), r.order.len() + 2 < i64::MAX, plain_word(g), ascii_lower(g2) == ascii_lower(g),
    ensures ({
        let r2 = define_spec(r, clear_w() + seq![32u8] + g).0;
        &&& !hl_exists_spec(r2, g2)
        &&& hl_id_spec(r2, g) > 0
        &&& hl_id_spec(r, g) > 0 ==> hl_id_spec(r2, g) == hl_id_spec(r, g)
    }),
{
    assert(plain_word(clear_w()));
    lemma_two_words(clear_w(), g);
    assert(clear_w() != default_w());
    lemma_clear_group(r, clear_w() + seq![32u8] + g);
    lemma_define_keeps_ids(r, clear_w() + seq![32u8] + g);
    assert(group_index(define_spec(r, clear_w() + seq![32u8] + g).0, g2) == group_index(define_spec(r, clear_w() + seq![32u8] + g).0, g));
}

/// ":highlight G guifg=C" for a plain group name `G` and a plain colour `C`
/// other than "NONE": the command names `G`; afterwards `G` exists under any
/// spelling of its name, keeps the id it had, and resolves to foreground `C`.
#[verifier::rlimit(60)]
#[verifier::spinoff_prover]
pub proof fn lemma_highlight_guifg(r: HlRegVal, g: Seq<u8>, g2: Seq<u8>, c: Seq<u8>)
    requires
        hl_wf(r), r.order.len() + 2 < i64::MAX,
        plain_word(g), plain_word(c), ascii_lower(c) != none_w(),
        g != clear_w(), g != link_w(), g != default_w(),
        ascii_lower(g2) == ascii_lower(g),
    ensures ({
        let args = g + seq![32u8] + guifg_w() + seq![61u8] + c;
        let r2 = define_spec(r, args).0;
        &&& define_spec(r, args).1 == Some(g)
        &&& hl_exists_spec(r2, g2)
        &&& hl_id_spec(r2, g) > 0
        &&& hl_id_spec(r, g) > 0 ==> hl_id_spec(r2, g) == hl_id_spec(r, g)
        &&& resolved_spec(r2, g) is Some
        &&& resolved_spec(r2, g)->Some_0.guifg == Some(c)
    }),
{
    let key = guifg_w();
    assert(plain_word(key));
    assert(ascii_lower(key) =~= key);
    lemma_highlight_text(r, g, key, c);
    let args = g + seq![32u8] + key + seq![61u8] + c;
    lemma_define_keeps_ids(r, args);
    let r2 = define_spec(r, args).0;
    assert(group_index(r2, g2) == group_index(r2, g));
    assert(hl_lookup_spec(r2, g, key, 0) == Some(c));
}

} // verus!
