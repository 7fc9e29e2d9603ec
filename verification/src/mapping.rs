//! The mapping table that ":map" fills and "maparg()", "mapcheck()", "hasmapto()" and "maplist()" read.
use vstd::prelude::*;
use crate::typval_defs::{
    varnumber_T, OK, FAIL, VarType, VarLockStatus, BoolVarValue, SpecialVarValue, typval_vval_union,
    typval_T, list_T, dict_T, dictitem_T, blob_T, partial_T, Callback, DictWatcher, TypVal, VVal,
    ListVal, DictVal, BlobVal, CallbackVal, WatcherVal, tv_view, list_view, dict_view, items_view, dict_index_of,
    mk_tv, num_tv, str_tv, list_tv, blob_tv, dict_tv, empty_dict_val, dict_wf, keys_unique,
    lemma_items_view_ext, lemma_items_view_index, lemma_items_view_push, lemma_items_view_subrange,
    lemma_items_view_add, lemma_items_view_reverse, lemma_items_view_update, lemma_items_view_insert,
    lemma_items_view_remove, lemma_items_view_empty,
};
use crate::charset::{nr2str, nr2bytes, str2nr, str2nr_all};
use crate::dup::{bytes_dup, tv_dup, list_dup, dict_dup, blob_dup, items_dup, slice_to_vec, callback_dup, append_bytes};
use crate::typval::{
    number_of, number_chk_result, string_of, string_or_empty, tv_get_number_chk, tv_get_number,
    tv_get_bool, tv_get_string, tv_get_string_chk, tv_get_string_buf_chk, tv_equal, tv_equal_spec,
    bytes_eq, dict_find_index,
};
use crate::typval_list::lemma_items_view_index_all;
use crate::typval_dict::lemma_dict_view_parts;
use crate::funcs_basic::{with_number, set_number, with_string, set_string, with_list, set_list};
use crate::list_funcs::{ascii_lower, ascii_lower_exec};
use crate::highlight::bytes_copy;
use crate::textbuf::{str_value, num_value, is_white, is_white_exec};
use crate::mbyte::{code_at, char_code_at};
use crate::charset::{char_len_at, char_len_exec};

verus! {

// ── modes ──

/// The mode bits of a mapping.
pub const MAP_NORMAL: i32 = 0x01;
pub const MAP_VISUAL: i32 = 0x02;
pub const MAP_SELECT: i32 = 0x04;
pub const MAP_OP_PENDING: i32 = 0x08;
pub const MAP_INSERT: i32 = 0x10;
pub const MAP_CMDLINE: i32 = 0x20;
pub const MAP_LANG: i32 = 0x40;
pub const MAP_TERMINAL: i32 = 0x80;
/// The modes of ":map": Normal, Visual, Select and Operator-pending.
pub const MAP_DEFAULT: i32 = 0x0f;

/// The mode bits of one mode character.
pub open spec fn char_flags(c: u8) -> i32 {
    if c == 110 { MAP_NORMAL }
    else if c == 118 { 0x06 }
    else if c == 120 { MAP_VISUAL }
    else if c == 115 { MAP_SELECT }
    else if c == 111 { MAP_OP_PENDING }
    else if c == 105 { MAP_INSERT }
    else if c == 99 { MAP_CMDLINE }
    else if c == 108 { MAP_LANG }
    else if c == 116 { MAP_TERMINAL }
    else if c == 33 { 0x30 }
    else { 0 }
}

/// The bits of the first `n` mode characters.
pub open spec fn flags_fold(s: Seq<u8>, n: int) -> i32
    decreases n,
{
    if n <= 0 { 0 } else { flags_fold(s, n - 1) | char_flags(s[n - 1]) }
}

/// The mode bits a mode string gives: "" and " " the modes of ":map",
/// else the union of its characters' ("n", "v", "x", "s", "o", "i", "c",
/// "l", "t", "!").
pub open spec fn mode_flags(s: Seq<u8>) -> i32 {
    if s.len() == 0 || s == seq![32u8] { MAP_DEFAULT } else { flags_fold(s, s.len() as int) }
}

fn char_flags_exec(c: u8) -> (r: i32)
    ensures r == char_flags(c),
{
    if c == 110 { MAP_NORMAL }
    else if c == 118 { 0x06 }
    else if c == 120 { MAP_VISUAL }
    else if c == 115 { MAP_SELECT }
    else if c == 111 { MAP_OP_PENDING }
    else if c == 105 { MAP_INSERT }
    else if c == 99 { MAP_CMDLINE }
    else if c == 108 { MAP_LANG }
    else if c == 116 { MAP_TERMINAL }
    else if c == 33 { 0x30 }
    else { 0 }
}

/// The mode bits of a mode string (see `mode_flags`).
pub fn mode_str2flags(modechars: &[u8]) -> (r: i32)
    ensures r == mode_flags(modechars@),
{
    if modechars.len() == 0 || (modechars.len() == 1 && modechars[0] == 32u8) {
        assert(modechars@.len() == 1 && modechars@[0] == 32u8 ==> modechars@ =~= seq![32u8]);
        return MAP_DEFAULT;
    }
    assert(modechars@ != seq![32u8]) by {
        if modechars@ == seq![32u8] { assert(modechars@.len() == 1 && modechars@[0] == 32u8); }
    }
    let mut f: i32 = 0;
    let mut i: usize = 0;
    while i < modechars.len()
        invariant i <= modechars@.len(), f == flags_fold(modechars@, i as int),
        decreases modechars.len() - i,
    {
        f = f | char_flags_exec(modechars[i]);
        i += 1;
    }
    f
}

/// The mode characters "maparg()" reports for mode bits: " " for the
/// modes of ":map", "!" for Insert and Command-line, "v" for Visual and
/// Select, else one character per bit in the order "nxsoiclt".
pub open spec fn mode_chars(mode: i32) -> Seq<u8> {
    if mode == MAP_DEFAULT {
        seq![32u8]
    } else if mode == 0x30 {
        seq![33u8]
    } else if mode == 0x06 {
        seq![118u8]
    } else {
        (if mode & MAP_NORMAL != 0 { seq![110u8] } else { Seq::empty() })
        + (if mode & MAP_VISUAL != 0 { seq![120u8] } else { Seq::empty() })
        + (if mode & MAP_SELECT != 0 { seq![115u8] } else { Seq::empty() })
        + (if mode & MAP_OP_PENDING != 0 { seq![111u8] } else { Seq::empty() })
        + (if mode & MAP_INSERT != 0 { seq![105u8] } else { Seq::empty() })
        + (if mode & MAP_CMDLINE != 0 { seq![99u8] } else { Seq::empty() })
        + (if mode & MAP_LANG != 0 { seq![108u8] } else { Seq::empty() })
        + (if mode & MAP_TERMINAL != 0 { seq![116u8] } else { Seq::empty() })
    }
}

fn push_if(out: &mut Vec<u8>, cond: bool, c: u8)
    ensures final(out)@ == old(out)@ + (if cond { seq![c] } else { Seq::empty() }),
{
    if cond {
        out.push(c);
    }
    assert(final(out)@ =~= old(out)@ + (if cond { seq![c] } else { Seq::<u8>::empty() }));
}

/// The mode characters of mode bits (see `mode_chars`).
fn map_mode_to_chars(mode: i32) -> (r: Vec<u8>)
    ensures r@ == mode_chars(mode),
{
    let mut s: Vec<u8> = Vec::new();
    if mode == MAP_DEFAULT {
        s.push(32u8);
    } else if mode == 0x30 {
        s.push(33u8);
    } else if mode == 0x06 {
        s.push(118u8);
    } else {
        push_if(&mut s, mode & MAP_NORMAL != 0, 110u8);
        push_if(&mut s, mode & MAP_VISUAL != 0, 120u8);
        push_if(&mut s, mode & MAP_SELECT != 0, 115u8);
        push_if(&mut s, mode & MAP_OP_PENDING != 0, 111u8);
        push_if(&mut s, mode & MAP_INSERT != 0, 105u8);
        push_if(&mut s, mode & MAP_CMDLINE != 0, 99u8);
        push_if(&mut s, mode & MAP_LANG != 0, 108u8);
        push_if(&mut s, mode & MAP_TERMINAL != 0, 116u8);
        assert(s@ =~= mode_chars(mode));
    }
    assert(s@ =~= mode_chars(mode));
    s
}

// ── the table ──

/// One mapping: what is typed, what it gives, its modes and options.
pub struct mapblock_T {
    pub lhs: Vec<u8>,
    pub rhs: Vec<u8>,
    pub mode: i32,
    pub noremap: bool,
    pub expr: bool,
    pub silent: bool,
    pub nowait: bool,
    pub buffer: bool,
    pub sid: i64,
    pub lnum: i64,
    pub desc: Vec<u8>,
}

/// The model of a mapping.
pub struct MapVal {
    pub lhs: Seq<u8>,
    pub rhs: Seq<u8>,
    pub mode: i32,
    pub noremap: bool,
    pub expr: bool,
    pub silent: bool,
    pub nowait: bool,
    pub buffer: bool,
    pub sid: int,
    pub lnum: int,
    pub desc: Seq<u8>,
}

impl View for mapblock_T {
    type V = MapVal;
    open spec fn view(&self) -> MapVal {
        MapVal {
            lhs: self.lhs@, rhs: self.rhs@, mode: self.mode, noremap: self.noremap, expr: self.expr,
            silent: self.silent, nowait: self.nowait, buffer: self.buffer, sid: self.sid as int,
            lnum: self.lnum as int, desc: self.desc@,
        }
    }
}

/// The mappings, in the order they were added.
pub struct MapTable {
    pub maps: Vec<mapblock_T>,
}

/// The model of the table.
pub open spec fn maps_view(t: &MapTable) -> Seq<MapVal> {
    Seq::new(t.maps@.len(), |i: int| t.maps@[i]@)
}

/// An empty table.
pub fn map_table_new() -> (t: MapTable)
    ensures maps_view(&t).len() == 0,
{
    MapTable { maps: Vec::new() }
}

fn map_copy(m: &mapblock_T) -> (r: mapblock_T)
    ensures r@ == m@,
{
    mapblock_T {
        lhs: bytes_copy(&m.lhs), rhs: bytes_copy(&m.rhs), mode: m.mode, noremap: m.noremap, expr: m.expr,
        silent: m.silent, nowait: m.nowait, buffer: m.buffer, sid: m.sid, lnum: m.lnum, desc: bytes_copy(&m.desc),
    }
}

/// The mappings that do not have `lhs` in any of the modes `mode`.
pub open spec fn drop_lhs(ms: Seq<MapVal>, lhs: Seq<u8>, mode: i32) -> Seq<MapVal>
    decreases ms.len(),
{
    if ms.len() == 0 { ms } else {
        let r = drop_lhs(ms.drop_last(), lhs, mode);
        if ms.last().lhs == lhs && ms.last().mode & mode != 0 { r } else { r.push(ms.last()) }
    }
}

/// The mappings that have none of the modes `mode`.
pub open spec fn drop_modes(ms: Seq<MapVal>, mode: i32) -> Seq<MapVal>
    decreases ms.len(),
{
    if ms.len() == 0 { ms } else {
        let r = drop_modes(ms.drop_last(), mode);
        if ms.last().mode & mode != 0 { r } else { r.push(ms.last()) }
    }
}

/// Remove the mappings of `lhs` in any of the modes `mode`.
fn remove_lhs(t: &mut MapTable, lhs: &Vec<u8>, mode: i32)
    ensures maps_view(final(t)) == drop_lhs(maps_view(old(t)), lhs@, mode),
{
    let ghost ms = maps_view(t);
    let mut out: Vec<mapblock_T> = Vec::new();
    let mut i: usize = 0;
    while i < t.maps.len()
        invariant
            i <= t.maps@.len(), ms == maps_view(t),
            Seq::new(out@.len(), |k: int| out@[k]@) == drop_lhs(ms.subrange(0, i as int), lhs@, mode),
        decreases t.maps.len() - i,
    {
        let ghost before = Seq::new(out@.len(), |k: int| out@[k]@);
        assert(ms.subrange(0, i + 1).drop_last() =~= ms.subrange(0, i as int));
        assert(ms[i as int] == t.maps@[i as int]@);
        let e = &t.maps[i];
        if !(bytes_eq(e.lhs.as_slice(), lhs.as_slice()) && e.mode & mode != 0) {
            out.push(map_copy(e));
            assert(Seq::new(out@.len(), |k: int| out@[k]@) =~= before.push(ms[i as int]));
        }
        i += 1;
    }
    assert(ms.subrange(0, ms.len() as int) =~= ms);
    t.maps = out;
}

/// Remove the mappings in any of the modes `mode`.
fn remove_modes(t: &mut MapTable, mode: i32)
    ensures maps_view(final(t)) == drop_modes(maps_view(old(t)), mode),
{
    let ghost ms = maps_view(t);
    let mut out: Vec<mapblock_T> = Vec::new();
    let mut i: usize = 0;
    while i < t.maps.len()
        invariant
            i <= t.maps@.len(), ms == maps_view(t),
            Seq::new(out@.len(), |k: int| out@[k]@) == drop_modes(ms.subrange(0, i as int), mode),
        decreases t.maps.len() - i,
    {
        let ghost before = Seq::new(out@.len(), |k: int| out@[k]@);
        assert(ms.subrange(0, i + 1).drop_last() =~= ms.subrange(0, i as int));
        assert(ms[i as int] == t.maps@[i as int]@);
        let e = &t.maps[i];
        if e.mode & mode == 0 {
            out.push(map_copy(e));
            assert(Seq::new(out@.len(), |k: int| out@[k]@) =~= before.push(ms[i as int]));
        }
        i += 1;
    }
    assert(ms.subrange(0, ms.len() as int) =~= ms);
    t.maps = out;
}

/// Add a mapping, replacing those of the same `lhs` in any of its modes.
fn map_add(t: &mut MapTable, mb: mapblock_T)
    ensures maps_view(final(t)) == drop_lhs(maps_view(old(t)), mb@.lhs, mb@.mode).push(mb@),
{
    let lhs = bytes_copy(&mb.lhs);
    remove_lhs(t, &lhs, mb.mode);
    let ghost before = maps_view(t);
    t.maps.push(mb);
    assert(maps_view(t) =~= before.push(mb@));
}
/// The keys of the Dict that describes a mapping.
pub open spec fn map_keys() -> Seq<Seq<u8>> {
    seq![
        seq![108u8, 104, 115],
        seq![108u8, 104, 115, 114, 97, 119],
        seq![114u8, 104, 115],
        seq![110u8, 111, 114, 101, 109, 97, 112],
        seq![101u8, 120, 112, 114],
        seq![115u8, 105, 108, 101, 110, 116],
        seq![110u8, 111, 119, 97, 105, 116],
        seq![98u8, 117, 102, 102, 101, 114],
        seq![115u8, 99, 114, 105, 112, 116],
        seq![115u8, 105, 100],
        seq![115u8, 99, 114, 105, 112, 116, 118, 101, 114, 115, 105, 111, 110],
        seq![108u8, 110, 117, 109],
        seq![109u8, 111, 100, 101],
        seq![109u8, 111, 100, 101, 95, 98, 105, 116, 115],
        seq![100u8, 101, 115, 99],
        seq![97u8, 98, 98, 114],
    ]
}

/// The Dict that describes mapping `m` ("maparg()" with {dict}, "maplist()").
pub open spec fn map_dict(m: MapVal) -> TypVal {
    dict_tv(DictVal {
        keys: map_keys(),
        vals: seq![
            str_tv(m.lhs),
            str_tv(m.lhs),
            str_tv(m.rhs),
            num_tv(if m.noremap { 1 } else { 0 }),
            num_tv(if m.expr { 1 } else { 0 }),
            num_tv(if m.silent { 1 } else { 0 }),
            num_tv(if m.nowait { 1 } else { 0 }),
            num_tv(if m.buffer { 1 } else { 0 }),
            num_tv(0),
            num_tv(m.sid),
            num_tv(1),
            num_tv(m.lnum),
            str_tv(mode_chars(m.mode)),
            num_tv(m.mode as int),
            str_tv(m.desc),
            num_tv(0),
        ],
        ..empty_dict_val()
    })
}

/// The Dict that describes a mapping (see `map_dict`).
fn mapblock_fill_dict(m: &mapblock_T) -> (r: typval_T)
    ensures r@ == map_dict(m@),
{
    let mut items: Vec<dictitem_T> = Vec::new();
    let k0: Vec<u8> = vec![108u8, 104, 115];
    items.push(dictitem_T { di_key: k0, di_tv: str_value(bytes_copy(&m.lhs)) });
    let k1: Vec<u8> = vec![108u8, 104, 115, 114, 97, 119];
    items.push(dictitem_T { di_key: k1, di_tv: str_value(bytes_copy(&m.lhs)) });
    let k2: Vec<u8> = vec![114u8, 104, 115];
    items.push(dictitem_T { di_key: k2, di_tv: str_value(bytes_copy(&m.rhs)) });
    let k3: Vec<u8> = vec![110u8, 111, 114, 101, 109, 97, 112];
    items.push(dictitem_T { di_key: k3, di_tv: num_value(if m.noremap { 1 } else { 0 }) });
    let k4: Vec<u8> = vec![101u8, 120, 112, 114];
    items.push(dictitem_T { di_key: k4, di_tv: num_value(if m.expr { 1 } else { 0 }) });
    let k5: Vec<u8> = vec![115u8, 105, 108, 101, 110, 116];
    items.push(dictitem_T { di_key: k5, di_tv: num_value(if m.silent { 1 } else { 0 }) });
    let k6: Vec<u8> = vec![110u8, 111, 119, 97, 105, 116];
    items.push(dictitem_T { di_key: k6, di_tv: num_value(if m.nowait { 1 } else { 0 }) });
    let k7: Vec<u8> = vec![98u8, 117, 102, 102, 101, 114];
    items.push(dictitem_T { di_key: k7, di_tv: num_value(if m.buffer { 1 } else { 0 }) });
    let k8: Vec<u8> = vec![115u8, 99, 114, 105, 112, 116];
    items.push(dictitem_T { di_key: k8, di_tv: num_value(0) });
    let k9: Vec<u8> = vec![115u8, 105, 100];
    items.push(dictitem_T { di_key: k9, di_tv: num_value(m.sid) });
    let k10: Vec<u8> = vec![115u8, 99, 114, 105, 112, 116, 118, 101, 114, 115, 105, 111, 110];
    items.push(dictitem_T { di_key: k10, di_tv: num_value(1) });
    let k11: Vec<u8> = vec![108u8, 110, 117, 109];
    items.push(dictitem_T { di_key: k11, di_tv: num_value(m.lnum) });
    let k12: Vec<u8> = vec![109u8, 111, 100, 101];
    items.push(dictitem_T { di_key: k12, di_tv: str_value(map_mode_to_chars(m.mode)) });
    let k13: Vec<u8> = vec![109u8, 111, 100, 101, 95, 98, 105, 116, 115];
    items.push(dictitem_T { di_key: k13, di_tv: num_value(m.mode as i64) });
    let k14: Vec<u8> = vec![100u8, 101, 115, 99];
    items.push(dictitem_T { di_key: k14, di_tv: str_value(bytes_copy(&m.desc)) });
    let k15: Vec<u8> = vec![97u8, 98, 98, 114];
    items.push(dictitem_T { di_key: k15, di_tv: num_value(0) });
    let d = dict_T { dv_hashtab: items, dv_lock: VarLockStatus::VAR_UNLOCKED, dv_refcount: 0, dv_watchers: Vec::new() };
    proof {
        lemma_dict_view_parts(d);
        let ks = map_keys();
        let vs = map_dict(m@).v->Dict_0->Some_0.vals;
        assert forall|j: int| 0 <= j < 16 implies #[trigger] d@.keys[j] == ks[j] && d@.vals[j] == vs[j] by {
            assert(d@.keys[j] == d.dv_hashtab@[j].di_key@);
            assert(d@.vals[j] == d.dv_hashtab@[j].di_tv@);
        }
        assert(d@.keys =~= ks);
        assert(d@.vals =~= vs);
        assert(d@.watchers =~= Seq::<WatcherVal>::empty());
    }
    typval_T { v_type: VarType::VAR_DICT, v_lock: VarLockStatus::VAR_UNLOCKED, vval: typval_vval_union::v_dict(Some(d)) }
}

/// The first mapping of `lhs` in any of the modes `mode`, by position.
pub open spec fn find_map(ms: Seq<MapVal>, lhs: Seq<u8>, mode: i32) -> int
    decreases ms.len(),
{
    if ms.len() == 0 {
        -1
    } else if ms[0].lhs == lhs && ms[0].mode & mode != 0 {
        0
    } else {
        let r = find_map(ms.drop_first(), lhs, mode);
        if r < 0 { -1 } else { r + 1 }
    }
}

proof fn lemma_find_step(ms: Seq<MapVal>, i: int, lhs: Seq<u8>, mode: i32)
    requires 0 <= i < ms.len(), forall|k: int| 0 <= k < i ==> !(ms[k].lhs == lhs && #[trigger] ms[k].mode & mode != 0),
    ensures
        find_map(ms, lhs, mode) == (if ms[i].lhs == lhs && ms[i].mode & mode != 0 { i } else {
            let r = find_map(ms.subrange(i + 1, ms.len() as int), lhs, mode); if r < 0 { -1 } else { r + i + 1 } }),
    decreases i,
{
    if i > 0 {
        let d = ms.drop_first();
        assert forall|k: int| 0 <= k < i - 1 implies !(d[k].lhs == lhs && #[trigger] d[k].mode & mode != 0) by {
            assert(d[k] == ms[k + 1]);
        }
        lemma_find_step(d, i - 1, lhs, mode);
        assert(d.subrange(i, d.len() as int) =~= ms.subrange(i + 1, ms.len() as int));
        assert(!(ms[0].lhs == lhs && ms[0].mode & mode != 0));
    } else {
        assert(ms.drop_first() =~= ms.subrange(1, ms.len() as int));
    }
}

/// Where the first mapping of `name` in any of the modes `mode` is.
fn find_map_exec(t: &MapTable, name: &[u8], mode: i32) -> (r: Option<usize>)
    ensures
        match r {
            Some(i) => i < t.maps@.len() && find_map(maps_view(t), name@, mode) == i,
            None => find_map(maps_view(t), name@, mode) == -1,
        },
{
    let ghost ms = maps_view(t);
    let mut i: usize = 0;
    while i < t.maps.len()
        invariant
            i <= t.maps@.len(), ms == maps_view(t),
            forall|k: int| 0 <= k < i ==> !(ms[k].lhs == name@ && #[trigger] ms[k].mode & mode != 0),
        decreases t.maps.len() - i,
    {
        assert(ms[i as int] == t.maps@[i as int]@);
        proof { lemma_find_step(ms, i as int, name@, mode); }
        if bytes_eq(t.maps[i].lhs.as_slice(), name) && t.maps[i].mode & mode != 0 {
            return Some(i);
        }
        i += 1;
    }
    proof { lemma_find_none(ms, name@, mode); }
    None
}

proof fn lemma_find_none(ms: Seq<MapVal>, lhs: Seq<u8>, mode: i32)
    requires forall|k: int| 0 <= k < ms.len() ==> !(ms[k].lhs == lhs && #[trigger] ms[k].mode & mode != 0),
    ensures find_map(ms, lhs, mode) == -1,
    decreases ms.len(),
{
    if ms.len() > 0 {
        let d = ms.drop_first();
        assert forall|k: int| 0 <= k < d.len() implies !(d[k].lhs == lhs && #[trigger] d[k].mode & mode != 0) by {
            assert(d[k] == ms[k + 1]);
        }
        lemma_find_none(d, lhs, mode);
        assert(!(ms[0].lhs == lhs && ms[0].mode & mode != 0));
    }
}

/// The mode argument of a mapping query (`{mode}`, default "").
pub open spec fn mode_arg(args: Seq<typval_T>) -> i32 {
    mode_flags(if args.len() > 1 { string_or_empty(args[1]@) } else { Seq::empty() })
}

fn mode_arg_exec(argvars: &[typval_T]) -> (r: i32)
    ensures r == mode_arg(argvars@),
{
    let m = if argvars.len() > 1 { tv_get_string(&argvars[1]) } else { Vec::new() };
    mode_str2flags(m.as_slice())
}

/// What "maparg()" leaves in `rettv` for `name` in modes `mode`: the
/// mapping's right-hand side (or ""), or with `want_dict` its Dict (or an
/// empty Dict).
pub open spec fn maparg_spec(ms: Seq<MapVal>, name: Seq<u8>, mode: i32, want_dict: bool, old_r: TypVal) -> TypVal {
    let i = find_map(ms, name, mode);
    if want_dict {
        if 0 <= i < ms.len() { map_dict(ms[i]) } else {
            TypVal { ty: VarType::VAR_DICT, lock: old_r.lock, v: VVal::Dict(Some(empty_dict_val())) }
        }
    } else {
        with_string(old_r, if 0 <= i < ms.len() { ms[i].rhs } else { Seq::empty() })
    }
}

/// The mapping of `name` in modes `mode` into `rettv` (see `maparg_spec`).
fn getmaparg(t: &MapTable, name: &[u8], mode: i32, want_dict: bool, rettv: &mut typval_T)
    ensures final(rettv)@ == maparg_spec(maps_view(t), name@, mode, want_dict, old(rettv)@),
{
    let found = find_map_exec(t, name, mode);
    if want_dict {
        match found {
            Some(i) => {
                assert(maps_view(t)[i as int] == t.maps@[i as int]@);
                *rettv = mapblock_fill_dict(&t.maps[i]);
            },
            None => crate::typval_dict::tv_dict_alloc_ret(rettv),
        }
    } else {
        match found {
            Some(i) => {
                assert(maps_view(t)[i as int] == t.maps@[i as int]@);
                set_string(rettv, bytes_copy(&t.maps[i].rhs));
            },
            None => set_string(rettv, Vec::new()),
        }
    }
}

/// "maparg({name} [, {mode} [, {abbr} [, {dict}]]])": the mapping of
/// `{name}` (see `maparg_spec`; `{dict}` true asks for the Dict).
pub fn f_maparg(t: &MapTable, argvars: &[typval_T], rettv: &mut typval_T)
    requires argvars@.len() >= 1,
    ensures
        final(rettv)@ == maparg_spec(maps_view(t), string_or_empty(argvars@[0]@), mode_arg(argvars@),
            argvars@.len() >= 4 && number_chk_result(argvars@[3]@, false) != 0, old(rettv)@),
{
    let name = tv_get_string(&argvars[0]);
    let mode = mode_arg_exec(argvars);
    let want_dict = argvars.len() >= 4 && tv_get_bool(&argvars[3]) != 0;
    getmaparg(t, name.as_slice(), mode, want_dict, rettv);
}

/// Whether `a` starts with `b`.
pub open spec fn starts_with(a: Seq<u8>, b: Seq<u8>) -> bool {
    b.len() <= a.len() && a.subrange(0, b.len() as int) == b
}

pub(crate) fn starts_with_exec(a: &[u8], b: &[u8]) -> (r: bool)
    ensures r == starts_with(a@, b@),
{
    if b.len() > a.len() {
        return false;
    }
    let mut i: usize = 0;
    while i < b.len()
        invariant i <= b@.len(), b@.len() <= a@.len(), forall|k: int| 0 <= k < i ==> a@[k] == b@[k],
        decreases b.len() - i,
    {
        if a[i] != b[i] {
            assert(a@.subrange(0, b@.len() as int)[i as int] != b@[i as int]);
            return false;
        }
        i += 1;
    }
    assert(a@.subrange(0, b@.len() as int) =~= b@);
    true
}

/// The first mapping in modes `mode` whose left-hand side starts with
/// `name` or begins `name`, by position.
pub open spec fn find_check(ms: Seq<MapVal>, name: Seq<u8>, mode: i32) -> int
    decreases ms.len(),
{
    if ms.len() == 0 {
        -1
    } else if ms[0].mode & mode != 0 && (starts_with(ms[0].lhs, name) || starts_with(name, ms[0].lhs)) {
        0
    } else {
        let r = find_check(ms.drop_first(), name, mode);
        if r < 0 { -1 } else { r + 1 }
    }
}

/// A position found in a part that starts at `i`, as a position in the whole.
pub open spec fn shift_found(r: int, i: int) -> int {
    if r < 0 { -1 } else { r + i }
}

/// "mapcheck({name} [, {mode}])": the right-hand side of the first mapping
/// whose left-hand side could begin with `{name}` or begins it, or "".
pub fn f_mapcheck(t: &MapTable, argvars: &[typval_T], rettv: &mut typval_T)
    requires argvars@.len() >= 1,
    ensures
        final(rettv)@ == with_string(old(rettv)@, {
            let i = find_check(maps_view(t), string_or_empty(argvars@[0]@), mode_arg(argvars@));
            if 0 <= i < maps_view(t).len() { maps_view(t)[i].rhs } else { Seq::empty() }
        }),
{
    let name = tv_get_string(&argvars[0]);
    let mode = mode_arg_exec(argvars);
    let ghost ms = maps_view(t);
    let ghost n = name@;
    let ghost r0 = rettv@;
    assert(ms.subrange(0, ms.len() as int) =~= ms);
    let mut i: usize = 0;
    while i < t.maps.len()
        invariant
            i <= t.maps@.len(), ms == maps_view(t), n == name@, n == string_or_empty(argvars@[0]@),
            mode == mode_arg(argvars@), rettv@ == r0, r0 == old(rettv)@,
            find_check(ms, n, mode) == shift_found(find_check(ms.subrange(i as int, ms.len() as int), n, mode), i as int),
        decreases t.maps.len() - i,
    {
        assert(ms[i as int] == t.maps@[i as int]@);
        let ghost rest = ms.subrange(i as int, ms.len() as int);
        assert(rest[0] == ms[i as int]);
        assert(rest.drop_first() =~= ms.subrange(i + 1, ms.len() as int));
        let e = &t.maps[i];
        if e.mode & mode != 0 && (starts_with_exec(e.lhs.as_slice(), name.as_slice()) || starts_with_exec(name.as_slice(), e.lhs.as_slice())) {
            set_string(rettv, bytes_copy(&e.rhs));
            return;
        }
        i += 1;
    }
    assert(ms.subrange(ms.len() as int, ms.len() as int) =~= Seq::<MapVal>::empty());
    set_string(rettv, Vec::new());
}

/// Whether `needle` occurs in `h`.
pub open spec fn contains_bytes(h: Seq<u8>, needle: Seq<u8>) -> bool {
    exists|i: int| 0 <= i && i + needle.len() <= h.len() && #[trigger] h.subrange(i, i + needle.len()) == needle
}

fn contains_bytes_exec(h: &[u8], needle: &[u8]) -> (r: bool)
    ensures r == contains_bytes(h@, needle@),
{
    let hl = h.len();
    let nl = needle.len();
    if nl == 0 {
        assert(h@.subrange(0int, 0int + needle@.len()) =~= needle@);
        return true;
    }
    if nl > hl {
        return false;
    }
    let mut i: usize = 0;
    while i < hl - nl + 1
        invariant
            hl == h@.len(), nl == needle@.len(), 0 < nl <= hl, i <= hl - nl + 1,
            forall|k: int| 0 <= k < i ==> #[trigger] h@.subrange(k, k + nl) != needle@,
        decreases hl - nl + 1 - i,
    {
        let mut j: usize = 0;
        let mut same = true;
        while j < nl
            invariant
                j <= nl, i + nl <= hl, hl == h@.len(), nl == needle@.len(),
                same == forall|k: int| 0 <= k < j ==> h@[i + k] == needle@[k],
            decreases nl - j,
        {
            if h[i + j] != needle[j] {
                same = false;
            }
            j += 1;
        }
        if same {
            assert(h@.subrange(i as int, i + nl) =~= needle@);
            return true;
        }
        assert(h@.subrange(i as int, i + nl) != needle@) by {
            let k = choose|k: int| 0 <= k < nl && h@[i + k] != needle@[k];
            assert(h@.subrange(i as int, i + nl)[k] == h@[i + k]);
        }
        i += 1;
    }
    false
}

/// Whether some mapping in modes `mode` has `what` in its right-hand side.
pub open spec fn has_map_to(ms: Seq<MapVal>, what: Seq<u8>, mode: i32) -> bool {
    exists|i: int| #![trigger ms[i]] 0 <= i < ms.len() && ms[i].mode & mode != 0 && contains_bytes(ms[i].rhs, what)
}

/// "hasmapto({what} [, {mode}])": 1 when some mapping in the modes has
/// `{what}` in its right-hand side, else 0.
pub fn f_hasmapto(t: &MapTable, argvars: &[typval_T], rettv: &mut typval_T)
    requires argvars@.len() >= 1,
    ensures
        final(rettv)@ == with_number(old(rettv)@, if has_map_to(maps_view(t), string_or_empty(argvars@[0]@), mode_arg(argvars@)) { 1 } else { 0 }),
{
    let what = tv_get_string(&argvars[0]);
    let mode = mode_arg_exec(argvars);
    let ghost ms = maps_view(t);
    let ghost r0 = rettv@;
    let mut i: usize = 0;
    while i < t.maps.len()
        invariant
            i <= t.maps@.len(), ms == maps_view(t), what@ == string_or_empty(argvars@[0]@),
            mode == mode_arg(argvars@), rettv@ == r0, r0 == old(rettv)@,
            forall|k: int| #![trigger ms[k]] 0 <= k < i ==> !(ms[k].mode & mode != 0 && contains_bytes(ms[k].rhs, what@)),
        decreases t.maps.len() - i,
    {
        assert(ms[i as int] == t.maps@[i as int]@);
        if t.maps[i].mode & mode != 0 && contains_bytes_exec(t.maps[i].rhs.as_slice(), what.as_slice()) {
            set_number(rettv, 1);
            return;
        }
        i += 1;
    }
    set_number(rettv, 0);
}

/// "maplist()": the Dicts of all mappings, in order.
pub fn f_maplist(t: &MapTable, argvars: &[typval_T], rettv: &mut typval_T)
    ensures final(rettv)@ == with_list(old(rettv)@, Seq::new(maps_view(t).len(), |i: int| map_dict(maps_view(t)[i]))),
{
    let ghost ms = maps_view(t);
    let mut out: Vec<typval_T> = Vec::new();
    let mut i: usize = 0;
    while i < t.maps.len()
        invariant
            i <= t.maps@.len(), ms == maps_view(t), out@.len() == i,
            forall|k: int| 0 <= k < i ==> #[trigger] out@[k]@ == map_dict(ms[k]),
        decreases t.maps.len() - i,
    {
        assert(ms[i as int] == t.maps@[i as int]@);
        out.push(mapblock_fill_dict(&t.maps[i]));
        i += 1;
    }
    proof {
        lemma_items_view_index_all(out@);
        assert forall|k: int| 0 <= k < out@.len() implies #[trigger] items_view(out@)[k] == map_dict(ms[k]) by {
            assert(out@[k]@ == map_dict(ms[k]));
        }
    }
    assert(items_view(out@) =~= Seq::new(ms.len(), |i: int| map_dict(ms[i])));
    set_list(rettv, list_T { lv_items: out, lv_lock: VarLockStatus::VAR_UNLOCKED, lv_refcount: 0 });
}

// ── ":map" commands ──

/// Whether `a` ends with `b`.
pub open spec fn ends_with(a: Seq<u8>, b: Seq<u8>) -> bool {
    b.len() <= a.len() && a.subrange(a.len() - b.len(), a.len() as int) == b
}

fn ends_with_exec(a: &[u8], b: &[u8]) -> (r: bool)
    ensures r == ends_with(a@, b@),
{
    if b.len() > a.len() {
        return false;
    }
    let al = a.len();
    let off = al - b.len();
    let mut i: usize = 0;
    while i < b.len()
        invariant i <= b@.len(), off + b@.len() == al, al == a@.len(), forall|k: int| 0 <= k < i ==> a@[off + k] == b@[k],
        decreases b.len() - i,
    {
        if a[off + i] != b[i] {
            assert(a@.subrange(off as int, a@.len() as int)[i as int] != b@[i as int]);
            return false;
        }
        i += 1;
    }
    assert(a@.subrange(off as int, a@.len() as int) =~= b@);
    true
}

/// The words "mapclear", "noremap", "unmap", "map".
pub open spec fn mapclear_w() -> Seq<u8> { seq![109u8, 97, 112, 99, 108, 101, 97, 114] }
pub open spec fn noremap_w() -> Seq<u8> { seq![110u8, 111, 114, 101, 109, 97, 112] }
pub open spec fn unmap_w() -> Seq<u8> { seq![117u8, 110, 109, 97, 112] }
pub open spec fn map_w() -> Seq<u8> { seq![109u8, 97, 112] }

/// The modes of a ":map" command's prefix ("" the modes of ":map", or of
/// ":map!" with `bang`; "n", "i", "v", "x", "s", "o", "c", "t", "l"), or
/// `None` for another prefix.
pub open spec fn prefix_mode(p: Seq<u8>, bang: bool) -> Option<i32> {
    if p.len() == 0 { Some(if bang { 0x30i32 } else { MAP_DEFAULT }) }
    else if p == seq![110u8] { Some(MAP_NORMAL) }
    else if p == seq![105u8] { Some(MAP_INSERT) }
    else if p == seq![118u8] { Some(0x06i32) }
    else if p == seq![120u8] { Some(MAP_VISUAL) }
    else if p == seq![115u8] { Some(MAP_SELECT) }
    else if p == seq![111u8] { Some(MAP_OP_PENDING) }
    else if p == seq![99u8] { Some(MAP_CMDLINE) }
    else if p == seq![116u8] { Some(MAP_TERMINAL) }
    else if p == seq![108u8] { Some(MAP_LANG) }
    else { None }
}

/// What a ":map"-family command word asks for: its modes and whether it
/// unmaps, clears, or maps without remapping; `None` for another word.
pub open spec fn map_mode_spec(cmd: Seq<u8>) -> Option<(i32, bool, bool, bool)> {
    let bang = cmd.len() > 0 && cmd.last() == 33u8;
    let base = if bang { cmd.drop_last() } else { cmd };
    let parsed: Option<(Seq<u8>, bool, bool, bool)> =
        if ends_with(base, mapclear_w()) { Some((base.subrange(0, base.len() - 8), false, true, false)) }
        else if ends_with(base, noremap_w()) { Some((base.subrange(0, base.len() - 7), false, false, true)) }
        else if ends_with(base, unmap_w()) { Some((base.subrange(0, base.len() - 5), true, false, false)) }
        else if ends_with(base, map_w()) { Some((base.subrange(0, base.len() - 3), false, false, false)) }
        else { None };
    match parsed {
        None => None,
        Some((p, unmap, clear, noremap)) => match prefix_mode(p, bang) {
            Some(m) => Some((m, unmap, clear, noremap)),
            None => None,
        },
    }
}

fn prefix_mode_exec(p: &[u8], bang: bool) -> (r: Option<i32>)
    ensures r == prefix_mode(p@, bang),
{
    if p.len() == 0 {
        return Some(if bang { 0x30 } else { MAP_DEFAULT });
    }
    if p.len() != 1 {
        assert(p@ != seq![110u8] && p@ != seq![105u8] && p@ != seq![118u8] && p@ != seq![120u8] && p@ != seq![115u8]
            && p@ != seq![111u8] && p@ != seq![99u8] && p@ != seq![116u8] && p@ != seq![108u8]);
        return None;
    }
    let c = p[0];
    assert(p@ =~= seq![c]);
    if c == 110 { Some(MAP_NORMAL) }
    else if c == 105 { Some(MAP_INSERT) }
    else if c == 118 { Some(0x06) }
    else if c == 120 { Some(MAP_VISUAL) }
    else if c == 115 { Some(MAP_SELECT) }
    else if c == 111 { Some(MAP_OP_PENDING) }
    else if c == 99 { Some(MAP_CMDLINE) }
    else if c == 116 { Some(MAP_TERMINAL) }
    else if c == 108 { Some(MAP_LANG) }
    else { None }
}

/// What a ":map"-family command word asks for (see `map_mode_spec`).
pub fn get_map_mode(cmd: &[u8]) -> (r: Option<(i32, bool, bool, bool)>)
    ensures r == map_mode_spec(cmd@),
{
    let bang = cmd.len() > 0 && cmd[cmd.len() - 1] == 33u8;
    let blen = if bang { cmd.len() - 1 } else { cmd.len() };
    let base = &cmd[0..blen];
    assert(base@ =~= (if bang { cmd@.drop_last() } else { cmd@ }));
    let w1: [u8; 8] = [109u8, 97, 112, 99, 108, 101, 97, 114];
    let w2: [u8; 7] = [110u8, 111, 114, 101, 109, 97, 112];
    let w3: [u8; 5] = [117u8, 110, 109, 97, 112];
    let w4: [u8; 3] = [109u8, 97, 112];
    assert(w1@ =~= mapclear_w() && w2@ =~= noremap_w() && w3@ =~= unmap_w() && w4@ =~= map_w());
    let (plen, unmap, clear, noremap): (usize, bool, bool, bool) =
        if ends_with_exec(base, &w1) { (blen - 8, false, true, false) }
        else if ends_with_exec(base, &w2) { (blen - 7, false, false, true) }
        else if ends_with_exec(base, &w3) { (blen - 5, true, false, false) }
        else if ends_with_exec(base, &w4) { (blen - 3, false, false, false) }
        else { return None; };
    let p = &cmd[0..plen];
    assert(p@ =~= base@.subrange(0, plen as int));
    match prefix_mode_exec(p, bang) {
        Some(m) => Some((m, unmap, clear, noremap)),
        None => None,
    }
}

/// The position after the white space at `i`.
pub open spec fn skip_white(s: Seq<u8>, i: int) -> int
    decreases s.len() - i,
{
    if 0 <= i < s.len() && is_white(code_at(s, i)) { skip_white(s, i + char_len_at(s, i)) } else { i }
}

/// The position of the first white character at or after `i`, or the end.
pub open spec fn find_white(s: Seq<u8>, i: int) -> int
    decreases s.len() - i,
{
    if i < 0 || i >= s.len() { s.len() as int } else if is_white(code_at(s, i)) { i } else { find_white(s, i + char_len_at(s, i)) }
}

/// The end of the last character from `i` on that is not white, or `e`.
pub open spec fn trim_end_from(s: Seq<u8>, i: int, e: int) -> int
    decreases s.len() - i,
{
    if i < 0 || i >= s.len() { e } else {
        let n = char_len_at(s, i);
        if is_white(code_at(s, i)) { trim_end_from(s, i + n, e) } else { trim_end_from(s, i + n, i + n) }
    }
}

/// Skipping white space from `i` ends at or after `i`, and within `s`.
pub proof fn lemma_skip_white(s: Seq<u8>, i: int)
    requires 0 <= i,
    ensures i <= skip_white(s, i), i <= s.len() ==> skip_white(s, i) <= s.len(),
    decreases s.len() - i,
{
    if 0 <= i < s.len() && is_white(code_at(s, i)) {
        lemma_skip_white(s, i + char_len_at(s, i));
    }
}

pub proof fn lemma_find_white(s: Seq<u8>, i: int)
    requires 0 <= i <= s.len(),
    ensures i <= find_white(s, i) <= s.len(),
    decreases s.len() - i,
{
    if i < s.len() && !is_white(code_at(s, i)) {
        lemma_find_white(s, i + char_len_at(s, i));
    }
}

pub proof fn lemma_trim_end(s: Seq<u8>, i: int, e: int)
    requires 0 <= i <= s.len(), i <= e <= s.len() || e <= i,
    ensures (e <= i ==> e <= trim_end_from(s, i, e)), trim_end_from(s, i, e) <= if e > s.len() { e } else { s.len() as int },
        e <= i ==> trim_end_from(s, i, e) >= e,
    decreases s.len() - i,
{
    if i < s.len() {
        let n = char_len_at(s, i);
        if is_white(code_at(s, i)) { lemma_trim_end(s, i + n, e); } else { lemma_trim_end(s, i + n, i + n); }
    }
}

/// The map options "<silent>", "<expr>", "<nowait>", "<buffer>",
/// "<unique>", "<script>".
pub open spec fn silent_w() -> Seq<u8> { seq![60u8, 115, 105, 108, 101, 110, 116, 62] }
pub open spec fn expr_w() -> Seq<u8> { seq![60u8, 101, 120, 112, 114, 62] }
pub open spec fn nowait_w() -> Seq<u8> { seq![60u8, 110, 111, 119, 97, 105, 116, 62] }
pub open spec fn buffer_w() -> Seq<u8> { seq![60u8, 98, 117, 102, 102, 101, 114, 62] }
pub open spec fn unique_w() -> Seq<u8> { seq![60u8, 117, 110, 105, 113, 117, 101, 62] }
pub open spec fn script_w() -> Seq<u8> { seq![60u8, 115, 99, 114, 105, 112, 116, 62] }

/// Whether `w` stands at `i` in `s`, ignoring ASCII case.
pub open spec fn word_at(s: Seq<u8>, i: int, w: Seq<u8>) -> bool {
    0 <= i && i + w.len() <= s.len() && ascii_lower(s.subrange(i, i + w.len())) == w
}

/// The map options at `i` (each followed by white space): which of
/// <silent>, <expr>, <nowait>, <buffer> were given, and where the rest starts.
pub open spec fn map_opts(s: Seq<u8>, i: int) -> (bool, bool, bool, bool, int)
    decreases s.len() - i,
{
    if i < 0 || i >= s.len() {
        (false, false, false, false, i)
    } else {
        let n = if word_at(s, i, silent_w()) { 8int } else if word_at(s, i, expr_w()) { 6int }
            else if word_at(s, i, nowait_w()) || word_at(s, i, buffer_w()) || word_at(s, i, unique_w()) || word_at(s, i, script_w()) { 8int }
            else { 0int };
        if n == 0 {
            (false, false, false, false, i)
        } else {
            proof { lemma_skip_white(s, i + n); }
            let r = map_opts(s, skip_white(s, i + n));
            (r.0 || word_at(s, i, silent_w()), r.1 || word_at(s, i, expr_w()),
             r.2 || (!word_at(s, i, silent_w()) && !word_at(s, i, expr_w()) && word_at(s, i, nowait_w())),
             r.3 || (!word_at(s, i, silent_w()) && !word_at(s, i, expr_w()) && !word_at(s, i, nowait_w()) && word_at(s, i, buffer_w())),
             r.4)
        }
    }
}

pub(crate) fn skip_white_exec(s: &[u8], i: usize) -> (r: usize)
    requires i <= s@.len(),
    ensures r as int == skip_white(s@, i as int), i <= r <= s@.len(),
{
    proof { lemma_skip_white(s@, i as int); }
    let mut j = i;
    while j < s.len() && is_white_exec(char_code_at(s, j))
        invariant i <= j <= s@.len(), skip_white(s@, j as int) == skip_white(s@, i as int),
        decreases s.len() - j,
    {
        proof { lemma_skip_white(s@, j + char_len_at(s@, j as int)); }
        j = j + char_len_exec(s, j);
    }
    j
}

pub(crate) fn find_white_exec(s: &[u8], i: usize) -> (r: usize)
    requires i <= s@.len(),
    ensures r as int == find_white(s@, i as int), i <= r <= s@.len(),
{
    proof { lemma_find_white(s@, i as int); }
    let mut j = i;
    while j < s.len() && !is_white_exec(char_code_at(s, j))
        invariant i <= j <= s@.len(), find_white(s@, j as int) == find_white(s@, i as int),
        decreases s.len() - j,
    {
        proof { lemma_find_white(s@, j + char_len_at(s@, j as int)); }
        j = j + char_len_exec(s, j);
    }
    j
}

pub(crate) fn trim_end_exec(s: &[u8], i: usize) -> (r: usize)
    requires i <= s@.len(),
    ensures r as int == trim_end_from(s@, i as int, i as int), i <= r <= s@.len(),
{
    proof { lemma_trim_end(s@, i as int, i as int); }
    let mut j = i;
    let mut e = i;
    while j < s.len()
        invariant
            i <= e <= j <= s@.len(),
            trim_end_from(s@, j as int, e as int) == trim_end_from(s@, i as int, i as int),
        decreases s.len() - j,
    {
        let n = char_len_exec(s, j);
        if is_white_exec(char_code_at(s, j)) {
            j = j + n;
        } else {
            j = j + n;
            e = j;
        }
    }
    e
}

fn word_at_exec(s: &[u8], i: usize, w: &[u8]) -> (r: bool)
    requires i <= s@.len(),
    ensures r == word_at(s@, i as int, w@),
{
    if w.len() > s.len() - i {
        return false;
    }
    let sub = &s[i..i + w.len()];
    assert(sub@ =~= s@.subrange(i as int, i + w@.len()));
    let low = ascii_lower_exec(sub);
    bytes_eq(low.as_slice(), w)
}

/// The list of mappings once ":map"-family command with argument `arg` is
/// done in modes `mode`: clear them, remove `{lhs}`, or map `{lhs}` to
/// `{rhs}` with the options that lead the argument (no `{rhs}` or no
/// `{lhs}` changes nothing).
pub open spec fn do_map_spec(ms: Seq<MapVal>, arg: Seq<u8>, mode: i32, unmap: bool, clear: bool, noremap: bool) -> Seq<MapVal> {
    if clear {
        drop_modes(ms, mode)
    } else {
        let o = map_opts(arg, skip_white(arg, 0));
        let p = o.4;
        let q = find_white(arg, p);
        let lhs = arg.subrange(p, q);
        if lhs.len() == 0 {
            ms
        } else if unmap {
            drop_lhs(ms, lhs, mode)
        } else {
            let a = skip_white(arg, q);
            let rhs = arg.subrange(a, trim_end_from(arg, a, a));
            if rhs.len() == 0 {
                ms
            } else {
                drop_lhs(ms, lhs, mode).push(MapVal {
                    lhs, rhs, mode, noremap, expr: o.1, silent: o.0, nowait: o.2, buffer: o.3,
                    sid: 0, lnum: 0, desc: Seq::empty(),
                })
            }
        }
    }
}

/// The map options at the start of `s` (see `map_opts`).
fn map_opts_exec(s: &[u8]) -> (r: (bool, bool, bool, bool, usize))
    ensures
        (r.0, r.1, r.2, r.3, r.4 as int) == map_opts(s@, skip_white(s@, 0)),
        r.4 <= s@.len(),
{
    let w_silent: [u8; 8] = [60u8, 115, 105, 108, 101, 110, 116, 62];
    let w_expr: [u8; 6] = [60u8, 101, 120, 112, 114, 62];
    let w_nowait: [u8; 8] = [60u8, 110, 111, 119, 97, 105, 116, 62];
    let w_buffer: [u8; 8] = [60u8, 98, 117, 102, 102, 101, 114, 62];
    let w_unique: [u8; 8] = [60u8, 117, 110, 105, 113, 117, 101, 62];
    let w_script: [u8; 8] = [60u8, 115, 99, 114, 105, 112, 116, 62];
    assert(w_silent@ =~= silent_w() && w_expr@ =~= expr_w() && w_nowait@ =~= nowait_w());
    assert(w_buffer@ =~= buffer_w() && w_unique@ =~= unique_w() && w_script@ =~= script_w());
    let i0 = skip_white_exec(s, 0);
    let ghost goal = map_opts(s@, i0 as int);
    let (mut silent, mut expr, mut nowait, mut buffer) = (false, false, false, false);
    let mut i = i0;
    loop
        invariant
            i <= s@.len(), goal == map_opts(s@, i0 as int),
            w_silent@ == silent_w(), w_expr@ == expr_w(), w_nowait@ == nowait_w(),
            w_buffer@ == buffer_w(), w_unique@ == unique_w(), w_script@ == script_w(),
            goal.0 == (silent || map_opts(s@, i as int).0),
            goal.1 == (expr || map_opts(s@, i as int).1),
            goal.2 == (nowait || map_opts(s@, i as int).2),
            goal.3 == (buffer || map_opts(s@, i as int).3),
            goal.4 == map_opts(s@, i as int).4,
        ensures
            i <= s@.len(), goal == map_opts(s@, i0 as int),
            goal.0 == (silent || map_opts(s@, i as int).0),
            goal.1 == (expr || map_opts(s@, i as int).1),
            goal.2 == (nowait || map_opts(s@, i as int).2),
            goal.3 == (buffer || map_opts(s@, i as int).3),
            goal.4 == map_opts(s@, i as int).4,
            map_opts(s@, i as int) == (false, false, false, false, i as int),
        decreases s.len() - i,
    {
        if i >= s.len() {
            break;
        }
        let is_s = word_at_exec(s, i, &w_silent);
        let is_e = word_at_exec(s, i, &w_expr);
        let is_n = word_at_exec(s, i, &w_nowait);
        let is_b = word_at_exec(s, i, &w_buffer);
        let is_u = word_at_exec(s, i, &w_unique);
        let is_c = word_at_exec(s, i, &w_script);
        let n: usize = if is_s { 8 } else if is_e { 6 } else if is_n || is_b || is_u || is_c { 8 } else { 0 };
        if n == 0 {
            break;
        }
        silent = silent || is_s;
        expr = expr || is_e;
        nowait = nowait || (!is_s && !is_e && is_n);
        buffer = buffer || (!is_s && !is_e && !is_n && is_b);
        i = skip_white_exec(s, i + n);
    }
    (silent, expr, nowait, buffer, i)
}

/// Carry out a ":map"-family command with argument `arg` (see `do_map_spec`).
pub fn do_map(t: &mut MapTable, arg: &[u8], mode: i32, unmap: bool, clear: bool, noremap: bool)
    ensures maps_view(final(t)) == do_map_spec(maps_view(old(t)), arg@, mode, unmap, clear, noremap),
{
    if clear {
        remove_modes(t, mode);
        return;
    }
    let (silent, expr, nowait, buffer, p) = map_opts_exec(arg);
    let q = find_white_exec(arg, p);
    let lhs = slice_to_vec(&arg[p..q]);
    assert(lhs@ =~= arg@.subrange(p as int, q as int));
    if lhs.len() == 0 {
        return;
    }
    if unmap {
        remove_lhs(t, &lhs, mode);
        return;
    }
    let a = skip_white_exec(arg, q);
    let e = trim_end_exec(arg, a);
    let rhs = slice_to_vec(&arg[a..e]);
    assert(rhs@ =~= arg@.subrange(a as int, e as int));
    if rhs.len() == 0 {
        return;
    }
    let mb = mapblock_T {
        lhs, rhs, mode, noremap, expr, silent, nowait, buffer, sid: 0, lnum: 0, desc: Vec::new(),
    };
    assert(mb@.desc =~= Seq::<u8>::empty());
    map_add(t, mb);
}

/// The String at key `k` of a Dict, or "".
pub open spec fn dict_str(d: DictVal, k: Seq<u8>) -> Seq<u8> {
    match crate::typval_dict::dict_get(d, k) { Some(v) => string_or_empty(v), None => Seq::empty() }
}

/// The Number at key `k` of a Dict, or 0.
pub open spec fn dict_nr(d: DictVal, k: Seq<u8>) -> int {
    match crate::typval_dict::dict_get(d, k) { Some(v) => number_chk_result(v, true), None => 0 }
}

fn dict_str_exec(d: &dict_T, k: &[u8]) -> (r: Vec<u8>)
    ensures r@ == dict_str(d@, k@),
{
    match crate::typval_dict::tv_dict_find(d, k) { Some(v) => tv_get_string(v), None => Vec::new() }
}

fn dict_nr_exec(d: &dict_T, k: &[u8]) -> (r: i64)
    ensures r as int == dict_nr(d@, k@),
{
    match crate::typval_dict::tv_dict_find(d, k) { Some(v) => tv_get_number(v), None => 0 }
}

/// The mapping "mapset()" makes from the Dict `d` with modes `mode`.
pub open spec fn mapset_block(d: DictVal, mode: i32) -> MapVal {
    let k = map_keys();
    MapVal {
        lhs: dict_str(d, k[0]), rhs: dict_str(d, k[2]), mode,
        noremap: dict_nr(d, k[3]) != 0, expr: dict_nr(d, k[4]) != 0, silent: dict_nr(d, k[5]) != 0,
        nowait: dict_nr(d, k[6]) != 0, buffer: dict_nr(d, k[7]) != 0,
        sid: dict_nr(d, k[9]), lnum: dict_nr(d, k[11]), desc: dict_str(d, k[14]),
    }
}

/// The modes "mapset()" uses: from `{mode}` in the three-argument form,
/// else the Dict's "mode" characters, else its "mode_bits", else those of
/// ":map".
pub open spec fn mapset_mode(args: Seq<typval_T>, d: DictVal) -> i32 {
    let k = map_keys();
    if args[0]@.ty != VarType::VAR_DICT {
        mode_flags(string_or_empty(args[0]@))
    } else if dict_str(d, k[12]).len() > 0 {
        mode_flags(dict_str(d, k[12]))
    } else if crate::typval_dict::dict_get(d, k[13]) is Some {
        dict_nr(d, k[13]) as i32
    } else {
        MAP_DEFAULT
    }
}

/// The Dict "mapset()" reads: the first argument, or the third after a mode.
pub open spec fn mapset_dict(args: Seq<typval_T>) -> Option<DictVal> {
    let t = if args[0]@.ty == VarType::VAR_DICT { Some(args[0]@) } else if args.len() > 2 { Some(args[2]@) } else { None };
    match t {
        Some(tv) => if tv.ty == VarType::VAR_DICT && tv.v is Dict && tv.v->Dict_0 is Some { Some(tv.v->Dict_0->Some_0) } else { None },
        None => None,
    }
}

/// The mappings once "mapset()" is done.
pub open spec fn mapset_spec(ms: Seq<MapVal>, args: Seq<typval_T>) -> Seq<MapVal> {
    match mapset_dict(args) {
        None => ms,
        Some(d) => {
            let mb = mapset_block(d, mapset_mode(args, d));
            if mb.lhs.len() == 0 { ms } else { drop_lhs(ms, mb.lhs, mb.mode).push(mb) }
        },
    }
}

/// "mapset({dict})" or "mapset({mode}, {abbr}, {dict})": add the mapping a
/// "maparg()" Dict describes (see `mapset_spec`).
pub fn f_mapset(t: &mut MapTable, argvars: &[typval_T], rettv: &mut typval_T)
    requires argvars@.len() >= 1,
    ensures maps_view(final(t)) == mapset_spec(maps_view(old(t)), argvars@), final(rettv)@ == old(rettv)@,
{
    let first_dict = argvars[0].v_type == VarType::VAR_DICT;
    let dt = if first_dict { &argvars[0] } else if argvars.len() > 2 { &argvars[2] } else { return; };
    let d = match (&dt.v_type, &dt.vval) {
        (VarType::VAR_DICT, typval_vval_union::v_dict(Some(d))) => d,
        _ => { return; },
    };
    let ghost k = map_keys();
    let k_lhs: [u8; 3] = [108u8, 104, 115];
    let k_rhs: [u8; 3] = [114u8, 104, 115];
    let k_noremap: [u8; 7] = [110u8, 111, 114, 101, 109, 97, 112];
    let k_expr: [u8; 4] = [101u8, 120, 112, 114];
    let k_silent: [u8; 6] = [115u8, 105, 108, 101, 110, 116];
    let k_nowait: [u8; 6] = [110u8, 111, 119, 97, 105, 116];
    let k_buffer: [u8; 6] = [98u8, 117, 102, 102, 101, 114];
    let k_sid: [u8; 3] = [115u8, 105, 100];
    let k_lnum: [u8; 4] = [108u8, 110, 117, 109];
    let k_mode: [u8; 4] = [109u8, 111, 100, 101];
    let k_bits: [u8; 9] = [109u8, 111, 100, 101, 95, 98, 105, 116, 115];
    let k_desc: [u8; 4] = [100u8, 101, 115, 99];
    assert(k_lhs@ =~= k[0] && k_rhs@ =~= k[2] && k_noremap@ =~= k[3] && k_expr@ =~= k[4]);
    assert(k_silent@ =~= k[5] && k_nowait@ =~= k[6] && k_buffer@ =~= k[7] && k_sid@ =~= k[9]);
    assert(k_lnum@ =~= k[11] && k_mode@ =~= k[12] && k_bits@ =~= k[13] && k_desc@ =~= k[14]);
    let mode: i32 = if !first_dict {
        let m = tv_get_string(&argvars[0]);
        mode_str2flags(m.as_slice())
    } else {
        let mc = dict_str_exec(d, &k_mode);
        if mc.len() > 0 {
            mode_str2flags(mc.as_slice())
        } else if crate::typval_dict::tv_dict_find(d, &k_bits).is_some() {
            dict_nr_exec(d, &k_bits) as i32
        } else {
            MAP_DEFAULT
        }
    };
    let lhs = dict_str_exec(d, &k_lhs);
    if lhs.len() == 0 {
        return;
    }
    let mb = mapblock_T {
        lhs,
        rhs: dict_str_exec(d, &k_rhs),
        mode,
        noremap: dict_nr_exec(d, &k_noremap) != 0,
        expr: dict_nr_exec(d, &k_expr) != 0,
        silent: dict_nr_exec(d, &k_silent) != 0,
        nowait: dict_nr_exec(d, &k_nowait) != 0,
        buffer: dict_nr_exec(d, &k_buffer) != 0,
        sid: dict_nr_exec(d, &k_sid),
        lnum: dict_nr_exec(d, &k_lnum),
        desc: dict_str_exec(d, &k_desc),
    };
    map_add(t, mb);
}

// ── laws ──

proof fn lemma_find_push(ms: Seq<MapVal>, x: MapVal, lhs: Seq<u8>, mode: i32)
    requires find_map(ms, lhs, mode) == -1,
    ensures find_map(ms.push(x), lhs, mode) == (if x.lhs == lhs && x.mode & mode != 0 { ms.len() as int } else { -1 }),
    decreases ms.len(),
{
    if ms.len() > 0 {
        let d = ms.drop_first();
        assert(!(ms[0].lhs == lhs && ms[0].mode & mode != 0));
        assert(find_map(d, lhs, mode) == -1);
        lemma_find_push(d, x, lhs, mode);
        assert(ms.push(x).drop_first() =~= d.push(x));
        assert(ms.push(x)[0] == ms[0]);
    } else {
        assert(ms.push(x).drop_first() =~= Seq::<MapVal>::empty());
        assert(find_map(Seq::<MapVal>::empty(), lhs, mode) == -1);
        assert(ms.push(x)[0] == x);
    }
}

proof fn lemma_find_drop(ms: Seq<MapVal>, lhs: Seq<u8>, mode: i32)
    ensures find_map(drop_lhs(ms, lhs, mode), lhs, mode) == -1,
    decreases ms.len(),
{
    if ms.len() > 0 {
        lemma_find_drop(ms.drop_last(), lhs, mode);
        let r = drop_lhs(ms.drop_last(), lhs, mode);
        if !(ms.last().lhs == lhs && ms.last().mode & mode != 0) {
            lemma_find_push(r, ms.last(), lhs, mode);
        }
    }
}

/// After ":map {lhs} {rhs}" in some modes, "maparg({lhs})" in those modes
/// finds the new mapping and its right-hand side.
pub proof fn lemma_map_then_maparg(ms: Seq<MapVal>, mb: MapVal)
    requires mb.mode & mb.mode != 0,
    ensures
        find_map(drop_lhs(ms, mb.lhs, mb.mode).push(mb), mb.lhs, mb.mode) == drop_lhs(ms, mb.lhs, mb.mode).len(),
        maparg_spec(drop_lhs(ms, mb.lhs, mb.mode).push(mb), mb.lhs, mb.mode, false, num_tv(0)) == with_string(num_tv(0), mb.rhs),
{
    lemma_find_drop(ms, mb.lhs, mb.mode);
    lemma_find_push(drop_lhs(ms, mb.lhs, mb.mode), mb, mb.lhs, mb.mode);
}

/// After ":unmap {lhs}" in some modes, "maparg({lhs})" in those modes finds
/// nothing.
pub proof fn lemma_unmap_then_maparg(ms: Seq<MapVal>, lhs: Seq<u8>, mode: i32)
    ensures find_map(drop_lhs(ms, lhs, mode), lhs, mode) == -1,
{
    lemma_find_drop(ms, lhs, mode);
}

} // verus!
