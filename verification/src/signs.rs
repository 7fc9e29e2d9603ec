//! Signs: defining, placing and listing them.
use vstd::prelude::*;
use crate::typval_defs::{
    varnumber_T, OK, FAIL, VarType, VarLockStatus, BoolVarValue, SpecialVarValue, typval_vval_union,
    typval_T, list_T, dict_T, dictitem_T, blob_T, partial_T, Callback, DictWatcher, TypVal, VVal,
    ListVal, DictVal, BlobVal, CallbackVal, WatcherVal, tv_view, list_view, dict_view, items_view, dict_index_of,
    mk_tv, num_tv, str_tv, list_tv, blob_tv, dict_tv, empty_dict_val, dict_wf, keys_unique,
    lemma_items_view_ext, lemma_items_view_index, lemma_items_view_push, lemma_items_view_subrange,
    lemma_items_view_add, lemma_items_view_reverse, lemma_items_view_update, lemma_items_view_insert,
    lemma_items_view_remove, lemma_items_view_empty,
};
use crate::charset::{nr2str, nr2bytes, str2nr, str2nr_all};
use crate::dup::{bytes_dup, tv_dup, list_dup, dict_dup, blob_dup, items_dup, slice_to_vec, callback_dup, append_bytes};
use crate::typval::{
    number_of, number_chk_result, string_of, string_or_empty, tv_get_number_chk, tv_get_number,
    tv_get_bool, tv_get_string, tv_get_string_chk, tv_get_string_buf_chk, tv_equal, tv_equal_spec,
    bytes_eq, dict_find_index,
};
use crate::typval_list::lemma_items_view_index_all;
use crate::typval_dict::{lemma_dict_view_parts, dict_get, lemma_dict_index_of, tv_dict_find, tv_dict_alloc, tv_dict_add_str, tv_dict_extend, extend_upto, dict_set};
use crate::funcs_basic::{with_number, set_number, with_list, set_list};
use crate::highlight::{bytes_copy, names_view, names_distinct, name_index, find_name, lemma_name_index, lemma_name_index_none, lemma_name_index_some};
use crate::textbuf::{str_value, num_value};
use crate::matches::{group_k, priority_k, id_k};

verus! {


// ── byte order ──

/// Whether `a` comes before `b` byte by byte (a prefix first).
pub open spec fn bytes_lt(a: Seq<u8>, b: Seq<u8>) -> bool
    decreases a.len(),
{
    if a.len() == 0 {
        b.len() > 0
    } else if b.len() == 0 {
        false
    } else if a[0] != b[0] {
        a[0] < b[0]
    } else {
        bytes_lt(a.drop_first(), b.drop_first())
    }
}

pub proof fn lemma_lt_irrefl(a: Seq<u8>)
    ensures !bytes_lt(a, a),
    decreases a.len(),
{
    if a.len() > 0 {
        lemma_lt_irrefl(a.drop_first());
    }
}

pub proof fn lemma_lt_trans(a: Seq<u8>, b: Seq<u8>, c: Seq<u8>)
    requires bytes_lt(a, b), bytes_lt(b, c),
    ensures bytes_lt(a, c),
    decreases a.len(),
{
    if a.len() > 0 && b.len() > 0 && c.len() > 0 && a[0] == b[0] && b[0] == c[0] {
        lemma_lt_trans(a.drop_first(), b.drop_first(), c.drop_first());
    }
}

pub proof fn lemma_lt_total(a: Seq<u8>, b: Seq<u8>)
    requires a != b,
    ensures bytes_lt(a, b) || bytes_lt(b, a),
    decreases a.len(),
{
    if a.len() > 0 && b.len() > 0 && a[0] == b[0] {
        if a.drop_first() == b.drop_first() {
            assert(a =~= seq![a[0]] + a.drop_first());
            assert(b =~= seq![b[0]] + b.drop_first());
        }
        lemma_lt_total(a.drop_first(), b.drop_first());
    } else if a.len() == 0 && b.len() == 0 {
        assert(a =~= b);
    }
}

pub proof fn lemma_lt_asym(a: Seq<u8>, b: Seq<u8>)
    requires bytes_lt(a, b),
    ensures !bytes_lt(b, a),
{
    if bytes_lt(b, a) {
        lemma_lt_trans(a, b, a);
        lemma_lt_irrefl(a);
    }
}

proof fn lemma_lt_from(a: Seq<u8>, b: Seq<u8>, i: int)
    requires 0 <= i, i < a.len(), i < b.len(),
    ensures
        bytes_lt(a.subrange(i, a.len() as int), b.subrange(i, b.len() as int)) == if a[i] != b[i] {
            a[i] < b[i]
        } else {
            bytes_lt(a.subrange(i + 1, a.len() as int), b.subrange(i + 1, b.len() as int))
        },
{
    let sa = a.subrange(i, a.len() as int);
    let sb = b.subrange(i, b.len() as int);
    assert(sa.drop_first() =~= a.subrange(i + 1, a.len() as int));
    assert(sb.drop_first() =~= b.subrange(i + 1, b.len() as int));
}

/// `a` before `b` byte by byte.
pub fn bytes_lt_exec(a: &[u8], b: &[u8]) -> (r: bool)
    ensures r == bytes_lt(a@, b@),
{
    let mut i: usize = 0;
    assert(a@.subrange(0, a@.len() as int) =~= a@);
    assert(b@.subrange(0, b@.len() as int) =~= b@);
    while i < a.len() && i < b.len()
        invariant
            i <= a@.len(), i <= b@.len(),
            bytes_lt(a@.subrange(i as int, a@.len() as int), b@.subrange(i as int, b@.len() as int)) == bytes_lt(a@, b@),
        decreases a.len() - i,
    {
        proof { lemma_lt_from(a@, b@, i as int); }
        if a[i] != b[i] {
            return a[i] < b[i];
        }
        i += 1;
    }
    i == a.len() && i < b.len()
}

/// Each name before the next, byte by byte.
pub open spec fn sorted_names(names: Seq<Seq<u8>>) -> bool {
    forall|i: int, j: int| 0 <= i < j < names.len() ==> bytes_lt(names[i], names[j])
}

pub proof fn lemma_sorted_distinct(names: Seq<Seq<u8>>)
    requires sorted_names(names),
    ensures names_distinct(names),
{
    assert forall|i: int, j: int| 0 <= i < j < names.len() implies names[i] != names[j] by {
        lemma_lt_irrefl(names[i]);
    }
}

// ── defined signs ──

/// The signs: the defined ones by name (in byte order) with their
/// attribute values, the placed ones in the order placed, and the last id
/// given out.
pub struct Signs {
    pub names: Vec<Vec<u8>>,
    pub opts: Vec<typval_T>,
    pub placed: Vec<PlacedSign>,
    pub last_id: i64,
}

/// A placed sign.
pub struct PlacedSign {
    pub id: i64,
    pub group: Vec<u8>,
    pub name: Vec<u8>,
    pub bufnr: i64,
    pub lnum: i64,
    pub priority: i64,
}

/// The model of a placed sign.
pub struct PlacedVal {
    pub id: int,
    pub group: Seq<u8>,
    pub name: Seq<u8>,
    pub bufnr: int,
    pub lnum: int,
    pub priority: int,
}

impl View for PlacedSign {
    type V = PlacedVal;
    open spec fn view(&self) -> PlacedVal {
        PlacedVal { id: self.id as int, group: self.group@, name: self.name@, bufnr: self.bufnr as int, lnum: self.lnum as int, priority: self.priority as int }
    }
}

/// The models of placed signs.
pub open spec fn placed_view(p: Seq<PlacedSign>) -> Seq<PlacedVal> {
    Seq::new(p.len(), |i: int| p[i]@)
}

/// Names in byte order, one value each.
pub open spec fn signs_wf(s: &Signs) -> bool {
    s.names@.len() == s.opts@.len() && sorted_names(names_view(s.names@))
}

/// No signs defined or placed.
pub fn signs_new() -> (s: Signs)
    ensures signs_wf(&s), s.names@.len() == 0, s.placed@.len() == 0, s.last_id == 0,
{
    let s = Signs { names: Vec::new(), opts: Vec::new(), placed: Vec::new(), last_id: 0 };
    assert(names_view(s.names@) =~= Seq::<Seq<u8>>::empty());
    s
}

/// The first position from `i` on whose name is not before `name`.
pub open spec fn ins_pos(names: Seq<Seq<u8>>, name: Seq<u8>, i: int) -> int
    decreases names.len() - i,
{
    if i < 0 || i >= names.len() || !bytes_lt(names[i], name) { i } else { ins_pos(names, name, i + 1) }
}

proof fn lemma_ins_pos(names: Seq<Seq<u8>>, name: Seq<u8>, i: int)
    requires 0 <= i <= names.len(),
    ensures
        i <= ins_pos(names, name, i) <= names.len(),
        forall|k: int| i <= k < ins_pos(names, name, i) ==> bytes_lt(names[k], name),
        ins_pos(names, name, i) < names.len() ==> !bytes_lt(names[ins_pos(names, name, i)], name),
    decreases names.len() - i,
{
    if i < names.len() && bytes_lt(names[i], name) {
        lemma_ins_pos(names, name, i + 1);
    }
}

/// The defined signs after defining `name` with `v`: replaced where the name
/// is defined, else put in its place in byte order.
pub open spec fn def_insert(names: Seq<Seq<u8>>, opts: Seq<TypVal>, name: Seq<u8>, v: TypVal) -> (Seq<Seq<u8>>, Seq<TypVal>) {
    let k = ins_pos(names, name, 0);
    if k < names.len() && names[k] == name {
        (names, opts.update(k, v))
    } else {
        (names.insert(k, name), opts.insert(k, v))
    }
}

/// Defining keeps the names in byte order and one value each; afterwards
/// the name stands at its place with the new value.
pub proof fn lemma_def_insert(ns: Seq<Seq<u8>>, os: Seq<TypVal>, nm: Seq<u8>, v: TypVal)
    requires sorted_names(ns), ns.len() == os.len(),
    ensures
        sorted_names(def_insert(ns, os, nm, v).0),
        def_insert(ns, os, nm, v).0.len() == def_insert(ns, os, nm, v).1.len(),
        def_insert(ns, os, nm, v).0[ins_pos(ns, nm, 0)] == nm,
        def_insert(ns, os, nm, v).1[ins_pos(ns, nm, 0)] == v,
        0 <= ins_pos(ns, nm, 0) < def_insert(ns, os, nm, v).0.len(),
{
    lemma_ins_pos(ns, nm, 0);
    let k = ins_pos(ns, nm, 0);
    if !(k < ns.len() && ns[k] == nm) {
        let nn = ns.insert(k, nm);
        assert forall|i: int, j: int| 0 <= i < j < nn.len() implies bytes_lt(nn[i], nn[j]) by {
            if j < k {
                assert(nn[i] == ns[i] && nn[j] == ns[j]);
            } else if j == k {
                assert(nn[i] == ns[i]);
            } else if i == k {
                assert(nn[j] == ns[j - 1]);
                assert(ns[k] != nm);
                lemma_lt_total(ns[k], nm);
                if j - 1 > k {
                    lemma_lt_trans(nm, ns[k], ns[j - 1]);
                }
            } else if i < k {
                assert(nn[i] == ns[i] && nn[j] == ns[j - 1]);
            } else {
                assert(nn[i] == ns[i - 1] && nn[j] == ns[j - 1]);
            }
        }
    }
}

/// The key "name".
pub open spec fn name_k() -> Seq<u8> { seq![110u8, 97, 109, 101] }

/// What "sign_define({name} [, {dict}])" defines: the name and its
/// attributes (the Dict given, else an empty one); `None` for a List or an
/// empty name.
pub open spec fn define_args(args: Seq<typval_T>) -> Option<(Seq<u8>, TypVal)> {
    let name = string_or_empty(args[0]@);
    if args[0]@.ty == VarType::VAR_LIST || name.len() == 0 {
        None
    } else {
        Some((name, if args.len() >= 2 && args[1]@.ty == VarType::VAR_DICT { args[1]@ } else { dict_tv(empty_dict_val()) }))
    }
}

/// "sign_define({name} [, {dict}])": define (or redefine) a sign; -1 for a
/// List or an empty name (nothing changes then).
pub fn f_sign_define(s: &mut Signs, argvars: &[typval_T], rettv: &mut typval_T)
    requires argvars@.len() >= 1, signs_wf(old(s)),
    ensures
        signs_wf(final(s)),
        final(s).placed@ == old(s).placed@, final(s).last_id == old(s).last_id,
        match define_args(argvars@) {
            None => final(s).names@ == old(s).names@ && final(s).opts@ == old(s).opts@
                && final(rettv)@ == with_number(old(rettv)@, -1),
            Some(d) => (names_view(final(s).names@), items_view(final(s).opts@))
                    == def_insert(names_view(old(s).names@), items_view(old(s).opts@), d.0, d.1)
                && final(rettv)@ == old(rettv)@,
        },
{
    if argvars[0].v_type == VarType::VAR_LIST {
        set_number(rettv, -1);
        return;
    }
    let name = tv_get_string(&argvars[0]);
    if name.len() == 0 {
        set_number(rettv, -1);
        return;
    }
    let opts = if argvars.len() >= 2 && argvars[1].v_type == VarType::VAR_DICT {
        tv_dup(&argvars[1])
    } else {
        let d = tv_dict_alloc();
        typval_T { v_type: VarType::VAR_DICT, v_lock: VarLockStatus::VAR_UNLOCKED, vval: typval_vval_union::v_dict(Some(d)) }
    };
    let ghost ns = names_view(s.names@);
    let ghost os = items_view(s.opts@);
    let ghost ov = opts@;
    proof {
        lemma_ins_pos(ns, name@, 0);
        lemma_items_view_index_all(s.opts@);
    }
    let mut k: usize = 0;
    while k < s.names.len() && bytes_lt_exec(s.names[k].as_slice(), name.as_slice())
        invariant
            k <= s.names@.len(), ns == names_view(s.names@),
            ins_pos(ns, name@, k as int) == ins_pos(ns, name@, 0),
        decreases s.names.len() - k,
    {
        k += 1;
    }
    assert(k as int == ins_pos(ns, name@, 0));
    if k < s.names.len() && bytes_eq(s.names[k].as_slice(), name.as_slice()) {
        s.opts.set(k, opts);
        proof {
            lemma_items_view_index_all(s.opts@);
            assert(items_view(s.opts@) =~= os.update(k as int, ov));
        }
    } else {
        let ghost nm = name@;
        s.names.insert(k, name);
        s.opts.insert(k, opts);
        proof {
            lemma_items_view_index_all(s.opts@);
            assert(items_view(s.opts@) =~= os.insert(k as int, ov));
            assert(names_view(s.names@) =~= ns.insert(k as int, nm));
            lemma_def_insert(ns, os, nm, ov);
        }
    }
}

/// The Dict "sign_getdefined()" gives for a sign: its name, with its
/// attributes merged over it.
pub open spec fn def_entry(name: Seq<u8>, o: TypVal) -> TypVal {
    let base = DictVal { keys: seq![name_k()], vals: seq![str_tv(name)], ..empty_dict_val() };
    if o.ty == VarType::VAR_DICT && o.v is Dict && o.v->Dict_0 is Some {
        let src = o.v->Dict_0->Some_0;
        dict_tv(extend_upto(base, src, 102u8, src.keys.len() as int).0)
    } else {
        dict_tv(base)
    }
}

/// The entries of the first `n` defined signs, only those named `want`
/// where it is given.
pub open spec fn def_entries(names: Seq<Seq<u8>>, opts: Seq<TypVal>, want: Option<Seq<u8>>, n: int) -> Seq<TypVal>
    decreases n,
{
    if n <= 0 {
        Seq::empty()
    } else {
        let r = def_entries(names, opts, want, n - 1);
        if want is None || want->Some_0 == names[n - 1] { r.push(def_entry(names[n - 1], opts[n - 1])) } else { r }
    }
}

fn def_entry_exec(name: &Vec<u8>, o: &typval_T) -> (r: typval_T)
    ensures r@ == def_entry(name@, o@),
{
    let mut d = tv_dict_alloc();
    let nk: [u8; 4] = [110u8, 97, 109, 101];
    assert(nk@ =~= name_k());
    proof { lemma_dict_index_of(d@.keys, nk@); }
    tv_dict_add_str(&mut d, &nk, name.as_slice());
    assert(d@ =~= (DictVal { keys: seq![name_k()], vals: seq![str_tv(name@)], ..empty_dict_val() }));
    match (&o.v_type, &o.vval) {
        (VarType::VAR_DICT, typval_vval_union::v_dict(Some(src))) => {
            let f: [u8; 1] = [102u8];
            tv_dict_extend(&mut d, src, &f);
        },
        _ => {},
    }
    typval_T { v_type: VarType::VAR_DICT, v_lock: VarLockStatus::VAR_UNLOCKED, vval: typval_vval_union::v_dict(Some(d)) }
}

/// "sign_getdefined([{name}])": the defined signs in byte order of their
/// names (only `{name}` where given), each a Dict of its name and
/// attributes.
pub fn f_sign_getdefined(s: &Signs, argvars: &[typval_T], rettv: &mut typval_T)
    requires signs_wf(s),
    ensures
        final(rettv)@ == with_list(old(rettv)@, def_entries(names_view(s.names@), items_view(s.opts@),
            if argvars@.len() >= 1 { Some(string_or_empty(argvars@[0]@)) } else { None }, s.names@.len() as int)),
{
    let has_want = argvars.len() >= 1;
    let want = if has_want { tv_get_string(&argvars[0]) } else { Vec::new() };
    let ghost gw = if argvars@.len() >= 1 { Some(string_or_empty(argvars@[0]@)) } else { None::<Seq<u8>> };
    let ghost ns = names_view(s.names@);
    let ghost os = items_view(s.opts@);
    proof { lemma_items_view_index_all(s.opts@); }
    let mut out: Vec<typval_T> = Vec::new();
    let mut i: usize = 0;
    while i < s.names.len()
        invariant
            i <= s.names@.len(), signs_wf(s), ns == names_view(s.names@), os == items_view(s.opts@),
            os.len() == s.opts@.len(), forall|k: int| 0 <= k < s.opts@.len() ==> #[trigger] os[k] == s.opts@[k]@,
            gw == (if has_want { Some(want@) } else { None::<Seq<u8>> }),
            items_view(out@) == def_entries(ns, os, gw, i as int),
        decreases s.names.len() - i,
    {
        if !has_want || bytes_eq(want.as_slice(), s.names[i].as_slice()) {
            let e = def_entry_exec(&s.names[i], &s.opts[i]);
            let ghost before = out@;
            proof { lemma_items_view_push(before, e); }
            out.push(e);
        }
        i += 1;
    }
    set_list(rettv, list_T { lv_items: out, lv_lock: VarLockStatus::VAR_UNLOCKED, lv_refcount: 0 });
}

/// The defined signs without the one named `name`.
pub open spec fn def_remove(names: Seq<Seq<u8>>, opts: Seq<TypVal>, name: Seq<u8>) -> (Seq<Seq<u8>>, Seq<TypVal>) {
    let i = name_index(names, name);
    if 0 <= i < names.len() { (names.remove(i), opts.remove(i)) } else { (names, opts) }
}

/// Removing a name keeps the others in byte order.
pub proof fn lemma_def_remove(ns: Seq<Seq<u8>>, os: Seq<TypVal>, nm: Seq<u8>)
    requires sorted_names(ns), ns.len() == os.len(),
    ensures
        sorted_names(def_remove(ns, os, nm).0),
        def_remove(ns, os, nm).0.len() == def_remove(ns, os, nm).1.len(),
        forall|k: int| 0 <= k < def_remove(ns, os, nm).0.len() ==> def_remove(ns, os, nm).0[k] != nm,
{
    lemma_sorted_distinct(ns);
    let i = name_index(ns, nm);
    if 0 <= i < ns.len() {
        lemma_name_index_some(ns, nm);
        let nn = ns.remove(i);
        assert forall|a: int, b: int| 0 <= a < b < nn.len() implies bytes_lt(nn[a], nn[b]) by {
            let oa = if a < i { a } else { a + 1 };
            let ob = if b < i { b } else { b + 1 };
            assert(nn[a] == ns[oa] && nn[b] == ns[ob]);
        }
        assert forall|k: int| 0 <= k < nn.len() implies nn[k] != nm by {
            let ok = if k < i { k } else { k + 1 };
            assert(nn[k] == ns[ok]);
        }
    } else {
        assert forall|k: int| 0 <= k < ns.len() implies ns[k] != nm by {
            if ns[k] == nm {
                lemma_name_index(ns, nm, k);
            }
        }
    }
}

/// "sign_undefine([{name}])": undefine `{name}`, or every sign without
/// one; -1 for a name that is not defined (nothing changes then).
pub fn f_sign_undefine(s: &mut Signs, argvars: &[typval_T], rettv: &mut typval_T)
    requires signs_wf(old(s)),
    ensures
        signs_wf(final(s)),
        final(s).placed@ == old(s).placed@, final(s).last_id == old(s).last_id,
        argvars@.len() == 0 ==> final(s).names@.len() == 0 && final(rettv)@ == old(rettv)@,
        argvars@.len() >= 1 ==> (names_view(final(s).names@), items_view(final(s).opts@))
            == def_remove(names_view(old(s).names@), items_view(old(s).opts@), string_or_empty(argvars@[0]@)),
        argvars@.len() >= 1 ==> final(rettv)@ == if name_index(names_view(old(s).names@), string_or_empty(argvars@[0]@)) >= 0 {
            old(rettv)@ } else { with_number(old(rettv)@, -1) },
{
    if argvars.len() == 0 {
        s.names = Vec::new();
        s.opts = Vec::new();
        assert(names_view(s.names@) =~= Seq::<Seq<u8>>::empty());
        return;
    }
    let name = tv_get_string(&argvars[0]);
    let ghost ns = names_view(s.names@);
    let ghost os = items_view(s.opts@);
    proof {
        lemma_sorted_distinct(ns);
        lemma_def_remove(ns, os, name@);
        lemma_items_view_index_all(s.opts@);
    }
    match find_name(&s.names, name.as_slice()) {
        Some(i) => {
            s.names.remove(i);
            s.opts.remove(i);
            proof {
                lemma_items_view_index_all(s.opts@);
                assert(names_view(s.names@) =~= ns.remove(i as int));
                assert(items_view(s.opts@) =~= os.remove(i as int));
            }
        },
        None => {
            set_number(rettv, -1);
        },
    }
}

proof fn lemma_entries_one(names: Seq<Seq<u8>>, opts: Seq<TypVal>, name: Seq<u8>, k: int, n: int)
    requires names_distinct(names), 0 <= k < names.len(), names[k] == name, 0 <= n <= names.len(),
    ensures def_entries(names, opts, Some(name), n) == if n > k { seq![def_entry(name, opts[k])] } else { Seq::empty() },
    decreases n,
{
    if n > 0 {
        lemma_entries_one(names, opts, name, k, n - 1);
        if n - 1 != k {
            assert(names[n - 1] != names[k]);
        } else {
            assert(Seq::<TypVal>::empty().push(def_entry(name, opts[k])) =~= seq![def_entry(name, opts[k])]);
        }
    }
}

proof fn lemma_entries_none(names: Seq<Seq<u8>>, opts: Seq<TypVal>, name: Seq<u8>, n: int)
    requires forall|k: int| 0 <= k < names.len() ==> names[k] != name, n <= names.len(),
    ensures def_entries(names, opts, Some(name), n) == Seq::<TypVal>::empty(),
    decreases n,
{
    if n > 0 {
        lemma_entries_none(names, opts, name, n - 1);
    }
}

/// After defining a sign, "sign_getdefined({name})" gives exactly that
/// sign with its new attributes.
pub proof fn lemma_define_then_getdefined(ns: Seq<Seq<u8>>, os: Seq<TypVal>, nm: Seq<u8>, v: TypVal)
    requires sorted_names(ns), ns.len() == os.len(),
    ensures ({
        let d = def_insert(ns, os, nm, v);
        def_entries(d.0, d.1, Some(nm), d.0.len() as int) == seq![def_entry(nm, v)]
    }),
{
    lemma_def_insert(ns, os, nm, v);
    let d = def_insert(ns, os, nm, v);
    lemma_sorted_distinct(d.0);
    lemma_entries_one(d.0, d.1, nm, ins_pos(ns, nm, 0), d.0.len() as int);
}

/// After undefining a sign, "sign_getdefined({name})" gives nothing.
pub proof fn lemma_undefine_then_getdefined(ns: Seq<Seq<u8>>, os: Seq<TypVal>, nm: Seq<u8>)
    requires sorted_names(ns), ns.len() == os.len(),
    ensures ({
        let d = def_remove(ns, os, nm);
        def_entries(d.0, d.1, Some(nm), d.0.len() as int) == Seq::<TypVal>::empty()
    }),
{
    lemma_def_remove(ns, os, nm);
    let d = def_remove(ns, os, nm);
    lemma_entries_none(d.0, d.1, nm, d.0.len() as int);
}

// ── placed signs ──

/// The keys "bufnr", "lnum", "buffer", "signs".
pub open spec fn bufnr_k() -> Seq<u8> { seq![98u8, 117, 102, 110, 114] }
pub open spec fn lnum_k() -> Seq<u8> { seq![108u8, 110, 117, 109] }
pub open spec fn buffer_k() -> Seq<u8> { seq![98u8, 117, 102, 102, 101, 114] }
pub open spec fn signs_k() -> Seq<u8> { seq![115u8, 105, 103, 110, 115] }

/// The Dict in a typval, if it holds one.
pub open spec fn dict_of(t: TypVal) -> Option<DictVal> {
    if t.ty == VarType::VAR_DICT && t.v is Dict && t.v->Dict_0 is Some { Some(t.v->Dict_0->Some_0) } else { None }
}

/// The Number at `key` of a Dict typval, or `def`.
pub open spec fn sign_dict_nr(t: TypVal, key: Seq<u8>, def: int) -> int {
    match dict_of(t) {
        Some(d) => match dict_get(d, key) { Some(v) => number_chk_result(v, true), None => def },
        None => def,
    }
}

/// The String at `key` of a Dict typval, or `def`.
pub open spec fn sign_dict_str(t: TypVal, key: Seq<u8>, def: Seq<u8>) -> Seq<u8> {
    match dict_of(t) {
        Some(d) => match dict_get(d, key) { Some(v) => string_or_empty(v), None => def },
        None => def,
    }
}

fn sign_dict_nr_exec(t: &typval_T, key: &[u8], def: i64) -> (r: i64)
    ensures r as int == sign_dict_nr(t@, key@, def as int),
{
    match (&t.v_type, &t.vval) {
        (VarType::VAR_DICT, typval_vval_union::v_dict(Some(d))) => {
            match tv_dict_find(d, key) { Some(v) => tv_get_number(v), None => def }
        },
        _ => def,
    }
}

fn sign_dict_str_exec(t: &typval_T, key: &[u8]) -> (r: Vec<u8>)
    ensures r@ == sign_dict_str(t@, key@, Seq::empty()),
{
    match (&t.v_type, &t.vval) {
        (VarType::VAR_DICT, typval_vval_union::v_dict(Some(d))) => {
            match tv_dict_find(d, key) { Some(v) => tv_get_string(v), None => Vec::new() }
        },
        _ => Vec::new(),
    }
}

/// Placing a sign: an `id` of 0 takes the next id given out. The signs
/// after it, the last id given out, and the sign's id.
pub open spec fn place_one(ps: Seq<PlacedVal>, last: int, id: int, group: Seq<u8>, name: Seq<u8>, bufnr: int, lnum: int, priority: int) -> (Seq<PlacedVal>, int, int) {
    let nid = if id == 0 { last + 1 } else { id };
    (ps.push(PlacedVal { id: nid, group, name, bufnr, lnum, priority }), if id == 0 { last + 1 } else { last }, nid)
}

fn sign_place_one(s: &mut Signs, id: i64, group: Vec<u8>, name: Vec<u8>, bufnr: i64, lnum: i64, priority: i64) -> (r: i64)
    requires old(s).last_id < i64::MAX,
    ensures
        (placed_view(final(s).placed@), final(s).last_id as int, r as int)
            == place_one(placed_view(old(s).placed@), old(s).last_id as int, id as int, group@, name@, bufnr as int, lnum as int, priority as int),
        final(s).names == old(s).names, final(s).opts == old(s).opts,
        final(s).last_id >= old(s).last_id, final(s).last_id <= old(s).last_id + 1,
{
    let nid = if id == 0 {
        s.last_id = s.last_id + 1;
        s.last_id
    } else {
        id
    };
    let ghost before = s.placed@;
    let p = PlacedSign { id: nid, group, name, bufnr, lnum, priority };
    let ghost pv = p@;
    s.placed.push(p);
    assert(placed_view(s.placed@) =~= placed_view(before).push(pv));
    nid
}

fn key_vec(k: &[u8]) -> (r: Vec<u8>)
    ensures r@ == k@,
{
    crate::dup::slice_to_vec(k)
}

/// "sign_place({id}, {group}, {name}, {buf} [, {dict}])": place a sign in
/// buffer `{buf}` (1 unless a Number) at `{dict}.lnum` (1) with
/// `{dict}.priority` (10); the result is its id.
pub fn f_sign_place(s: &mut Signs, argvars: &[typval_T], rettv: &mut typval_T)
    requires argvars@.len() >= 4, old(s).last_id < i64::MAX,
    ensures
        final(s).names == old(s).names, final(s).opts == old(s).opts,
        ({
            let a = argvars@;
            let r = place_one(placed_view(old(s).placed@), old(s).last_id as int,
                number_chk_result(a[0]@, true), string_or_empty(a[1]@), string_or_empty(a[2]@),
                if a[3]@.ty == VarType::VAR_NUMBER { number_chk_result(a[3]@, true) } else { 1 },
                if a.len() >= 5 { sign_dict_nr(a[4]@, lnum_k(), 1) } else { 1 },
                if a.len() >= 5 { sign_dict_nr(a[4]@, priority_k(), 10) } else { 10 });
            placed_view(final(s).placed@) == r.0 && final(s).last_id == r.1 && final(rettv)@ == with_number(old(rettv)@, r.2)
        }),
{
    let id = tv_get_number(&argvars[0]);
    let group = tv_get_string(&argvars[1]);
    let name = tv_get_string(&argvars[2]);
    let bufnr = if argvars[3].v_type == VarType::VAR_NUMBER { tv_get_number(&argvars[3]) } else { 1 };
    let lk: [u8; 4] = [108u8, 110, 117, 109];
    let pk: [u8; 8] = [112u8, 114, 105, 111, 114, 105, 116, 121];
    assert(lk@ =~= lnum_k() && pk@ =~= priority_k());
    let lnum = if argvars.len() >= 5 { sign_dict_nr_exec(&argvars[4], &lk, 1) } else { 1 };
    let priority = if argvars.len() >= 5 { sign_dict_nr_exec(&argvars[4], &pk, 10) } else { 10 };
    let r = sign_place_one(s, id, group, name, bufnr, lnum, priority);
    set_number(rettv, r);
}

/// The length of a List typval, 0 for anything else.
pub open spec fn list_len(t: TypVal) -> int {
    if t.ty == VarType::VAR_LIST && t.v is List && t.v->List_0 is Some { t.v->List_0->Some_0.items.len() as int } else { 0 }
}

/// Placing the first `n` items of "sign_placelist()": the signs, the last
/// id given out, and the ids (-1 for an item that is not a Dict).
pub open spec fn place_list(items: Seq<TypVal>, ps: Seq<PlacedVal>, last: int, n: int) -> (Seq<PlacedVal>, int, Seq<TypVal>)
    decreases n,
{
    if n <= 0 {
        (ps, last, Seq::empty())
    } else {
        let r = place_list(items, ps, last, n - 1);
        let it = items[n - 1];
        if it.ty != VarType::VAR_DICT {
            (r.0, r.1, r.2.push(num_tv(-1)))
        } else {
            let p = place_one(r.0, r.1, sign_dict_nr(it, id_k(), 0), sign_dict_str(it, group_k(), Seq::empty()),
                sign_dict_str(it, name_k(), Seq::empty()), sign_dict_nr(it, buffer_k(), 1), sign_dict_nr(it, lnum_k(), 1),
                sign_dict_nr(it, priority_k(), 10));
            (p.0, p.1, r.2.push(num_tv(p.2)))
        }
    }
}

proof fn lemma_place_list_last(items: Seq<TypVal>, ps: Seq<PlacedVal>, last: int, n: int)
    requires n >= 0,
    ensures last <= place_list(items, ps, last, n).1 <= last + n, place_list(items, ps, last, n).2.len() == n,
    decreases n,
{
    if n > 0 {
        lemma_place_list_last(items, ps, last, n - 1);
    }
}

/// "sign_placelist({list})": place the sign each Dict of the List
/// describes ("id", "group", "name", "buffer", "lnum", "priority"); the
/// result is the List of their ids. For anything but a List nothing
/// changes.
pub fn f_sign_placelist(s: &mut Signs, argvars: &[typval_T], rettv: &mut typval_T)
    requires argvars@.len() >= 1, old(s).last_id + list_len(argvars@[0]@) < i64::MAX,
    ensures
        final(s).names == old(s).names, final(s).opts == old(s).opts,
        !(argvars@[0]@.ty == VarType::VAR_LIST && argvars@[0]@.v is List && argvars@[0]@.v->List_0 is Some)
            ==> final(s).placed@ == old(s).placed@ && final(s).last_id == old(s).last_id && final(rettv)@ == old(rettv)@,
        argvars@[0]@.ty == VarType::VAR_LIST && argvars@[0]@.v is List && argvars@[0]@.v->List_0 is Some ==> ({
            let items = argvars@[0]@.v->List_0->Some_0.items;
            let r = place_list(items, placed_view(old(s).placed@), old(s).last_id as int, items.len() as int);
            placed_view(final(s).placed@) == r.0 && final(s).last_id == r.1 && final(rettv)@ == with_list(old(rettv)@, r.2)
        }),
{
    let l = match (&argvars[0].v_type, &argvars[0].vval) {
        (VarType::VAR_LIST, typval_vval_union::v_list(Some(l))) => l,
        _ => { return; },
    };
    let ghost items = l@.items;
    let ghost ps0 = placed_view(s.placed@);
    let ghost last0 = s.last_id as int;
    proof { lemma_items_view_index_all(l.lv_items@); }
    let ik: [u8; 2] = [105u8, 100];
    let gk: [u8; 5] = [103u8, 114, 111, 117, 112];
    let nk: [u8; 4] = [110u8, 97, 109, 101];
    let bk: [u8; 6] = [98u8, 117, 102, 102, 101, 114];
    let lk: [u8; 4] = [108u8, 110, 117, 109];
    let pk: [u8; 8] = [112u8, 114, 105, 111, 114, 105, 116, 121];
    assert(ik@ =~= id_k() && gk@ =~= group_k() && nk@ =~= name_k() && bk@ =~= buffer_k() && lk@ =~= lnum_k() && pk@ =~= priority_k());
    let mut out: Vec<typval_T> = Vec::new();
    let mut i: usize = 0;
    while i < l.lv_items.len()
        invariant
            i <= l.lv_items@.len(), items == l@.items, items.len() == l.lv_items@.len(),
            forall|k: int| 0 <= k < l.lv_items@.len() ==> #[trigger] items[k] == l.lv_items@[k]@,
            last0 + items.len() < i64::MAX,
            ik@ == id_k(), gk@ == group_k(), nk@ == name_k(), bk@ == buffer_k(), lk@ == lnum_k(), pk@ == priority_k(),
            s.names == old(s).names, s.opts == old(s).opts,
            ({
                let r = place_list(items, ps0, last0, i as int);
                placed_view(s.placed@) == r.0 && s.last_id == r.1 && items_view(out@) == r.2
            }),
        decreases l.lv_items.len() - i,
    {
        proof { lemma_place_list_last(items, ps0, last0, i as int); }
        let it = &l.lv_items[i];
        let ghost before = out@;
        if it.v_type != VarType::VAR_DICT {
            let v = num_value(-1);
            proof { lemma_items_view_push(before, v); }
            out.push(v);
        } else {
            let id = sign_dict_nr_exec(it, &ik, 0);
            let group = sign_dict_str_exec(it, &gk);
            let name = sign_dict_str_exec(it, &nk);
            let bufnr = sign_dict_nr_exec(it, &bk, 1);
            let lnum = sign_dict_nr_exec(it, &lk, 1);
            let priority = sign_dict_nr_exec(it, &pk, 10);
            let r = sign_place_one(s, id, group, name, bufnr, lnum, priority);
            let v = num_value(r);
            proof { lemma_items_view_push(before, v); }
            out.push(v);
        }
        i += 1;
    }
    set_list(rettv, list_T { lv_items: out, lv_lock: VarLockStatus::VAR_UNLOCKED, lv_refcount: 0 });
}

/// The Dict "sign_getplaced()" gives for a placed sign.
pub open spec fn placed_dict(p: PlacedVal) -> TypVal {
    dict_tv(DictVal {
        keys: seq![id_k(), group_k(), name_k(), bufnr_k(), lnum_k(), priority_k()],
        vals: seq![num_tv(p.id), str_tv(p.group), str_tv(p.name), num_tv(p.bufnr), num_tv(p.lnum), num_tv(p.priority)],
        ..empty_dict_val()
    })
}

/// Whether "sign_getplaced()" lists `p`: in buffer `wb` and group `wg`,
/// where given.
pub open spec fn gp_keep(p: PlacedVal, wb: Option<int>, wg: Option<Seq<u8>>) -> bool {
    (wb is None || wb->Some_0 == p.bufnr) && (wg is None || wg->Some_0 == p.group)
}

/// The placed signs `gp_keep` picks, in order.
pub open spec fn gp_filter(ps: Seq<PlacedVal>, wb: Option<int>, wg: Option<Seq<u8>>) -> Seq<PlacedVal>
    decreases ps.len(),
{
    if ps.len() == 0 {
        ps
    } else {
        let r = gp_filter(ps.drop_last(), wb, wg);
        if gp_keep(ps.last(), wb, wg) { r.push(ps.last()) } else { r }
    }
}

/// The buffers of the signs, each once, in the order they first occur.
pub open spec fn first_bufs(ps: Seq<PlacedVal>) -> Seq<int>
    decreases ps.len(),
{
    if ps.len() == 0 {
        Seq::empty()
    } else {
        let r = first_bufs(ps.drop_last());
        if r.contains(ps.last().bufnr) { r } else { r.push(ps.last().bufnr) }
    }
}

/// The signs of buffer `b`, in order.
pub open spec fn of_buf(ps: Seq<PlacedVal>, b: int) -> Seq<PlacedVal>
    decreases ps.len(),
{
    if ps.len() == 0 {
        ps
    } else {
        let r = of_buf(ps.drop_last(), b);
        if ps.last().bufnr == b { r.push(ps.last()) } else { r }
    }
}

/// The Dicts of placed signs.
pub open spec fn placed_dicts(ps: Seq<PlacedVal>) -> Seq<TypVal> {
    Seq::new(ps.len(), |i: int| placed_dict(ps[i]))
}

/// The entry for buffer `b`: its number and its signs.
pub open spec fn buf_entry(b: int, ps: Seq<PlacedVal>) -> TypVal {
    dict_tv(DictVal {
        keys: seq![bufnr_k(), signs_k()],
        vals: seq![num_tv(b), list_tv(placed_dicts(of_buf(ps, b)))],
        ..empty_dict_val()
    })
}

/// What "sign_getplaced()" gives: per buffer (in the order they first
/// occur) its signs that `gp_keep` picks.
pub open spec fn getplaced_spec(ps: Seq<PlacedVal>, wb: Option<int>, wg: Option<Seq<u8>>) -> Seq<TypVal> {
    let f = gp_filter(ps, wb, wg);
    let bs = first_bufs(f);
    Seq::new(bs.len(), |i: int| buf_entry(bs[i], f))
}

/// The buffer "sign_getplaced()" asks for: `{buf}` where it is a Number.
pub open spec fn gp_want_buf(a: Seq<typval_T>) -> Option<int> {
    if a.len() >= 1 && a[0]@.ty == VarType::VAR_NUMBER { Some(number_chk_result(a[0]@, true)) } else { None }
}

/// The group "sign_getplaced()" asks for: `{dict}.group` where given.
pub open spec fn gp_want_group(a: Seq<typval_T>) -> Option<Seq<u8>> {
    if a.len() >= 2 {
        match dict_of(a[1]@) {
            Some(d) => match dict_get(d, group_k()) { Some(v) => Some(string_or_empty(v)), None => None },
            None => None,
        }
    } else {
        None
    }
}

fn placed_copy(p: &PlacedSign) -> (r: PlacedSign)
    ensures r@ == p@,
{
    PlacedSign { id: p.id, group: bytes_copy(&p.group), name: bytes_copy(&p.name), bufnr: p.bufnr, lnum: p.lnum, priority: p.priority }
}

fn placed_dict_exec(p: &PlacedSign) -> (r: typval_T)
    ensures r@ == placed_dict(p@),
{
    let ik: [u8; 2] = [105u8, 100];
    let gk: [u8; 5] = [103u8, 114, 111, 117, 112];
    let nk: [u8; 4] = [110u8, 97, 109, 101];
    let bk: [u8; 5] = [98u8, 117, 102, 110, 114];
    let lk: [u8; 4] = [108u8, 110, 117, 109];
    let pk: [u8; 8] = [112u8, 114, 105, 111, 114, 105, 116, 121];
    let items: Vec<dictitem_T> = vec![
        dictitem_T { di_key: key_vec(&ik), di_tv: num_value(p.id) },
        dictitem_T { di_key: key_vec(&gk), di_tv: str_value(bytes_copy(&p.group)) },
        dictitem_T { di_key: key_vec(&nk), di_tv: str_value(bytes_copy(&p.name)) },
        dictitem_T { di_key: key_vec(&bk), di_tv: num_value(p.bufnr) },
        dictitem_T { di_key: key_vec(&lk), di_tv: num_value(p.lnum) },
        dictitem_T { di_key: key_vec(&pk), di_tv: num_value(p.priority) },
    ];
    let d = dict_T { dv_hashtab: items, dv_lock: VarLockStatus::VAR_UNLOCKED, dv_refcount: 0, dv_watchers: Vec::new() };
    proof { lemma_dict_view_parts(d); }
    assert(d@.keys =~= seq![id_k(), group_k(), name_k(), bufnr_k(), lnum_k(), priority_k()]);
    assert(d@.vals =~= seq![num_tv(p@.id), str_tv(p@.group), str_tv(p@.name), num_tv(p@.bufnr), num_tv(p@.lnum), num_tv(p@.priority)]);
    assert(d@.watchers =~= Seq::<WatcherVal>::empty());
    typval_T { v_type: VarType::VAR_DICT, v_lock: VarLockStatus::VAR_UNLOCKED, vval: typval_vval_union::v_dict(Some(d)) }
}

/// The models of a vector of numbers.
pub open spec fn ints_view(v: Seq<i64>) -> Seq<int> {
    Seq::new(v.len(), |i: int| v[i] as int)
}

fn buf_entry_exec(b: i64, f: &Vec<PlacedSign>) -> (r: typval_T)
    ensures r@ == buf_entry(b as int, placed_view(f@)),
{
    let ghost fv = placed_view(f@);
    let mut sl: Vec<typval_T> = Vec::new();
    let mut i: usize = 0;
    while i < f.len()
        invariant
            i <= f@.len(), fv == placed_view(f@),
            items_view(sl@) == placed_dicts(of_buf(fv.subrange(0, i as int), b as int)),
        decreases f.len() - i,
    {
        assert(fv.subrange(0, i as int + 1).drop_last() =~= fv.subrange(0, i as int));
        assert(fv.subrange(0, i as int + 1).last() == f@[i as int]@);
        if f[i].bufnr == b {
            let ghost before = sl@;
            let v = placed_dict_exec(&f[i]);
            proof { lemma_items_view_push(before, v); }
            sl.push(v);
            assert(items_view(sl@) =~= placed_dicts(of_buf(fv.subrange(0, i as int + 1), b as int)));
        }
        i += 1;
    }
    assert(fv.subrange(0, f@.len() as int) =~= fv);
    let bk: [u8; 5] = [98u8, 117, 102, 110, 114];
    let sk: [u8; 5] = [115u8, 105, 103, 110, 115];
    let lt = typval_T { v_type: VarType::VAR_LIST, v_lock: VarLockStatus::VAR_UNLOCKED,
        vval: typval_vval_union::v_list(Some(list_T { lv_items: sl, lv_lock: VarLockStatus::VAR_UNLOCKED, lv_refcount: 0 })) };
    let items: Vec<dictitem_T> = vec![
        dictitem_T { di_key: key_vec(&bk), di_tv: num_value(b) },
        dictitem_T { di_key: key_vec(&sk), di_tv: lt },
    ];
    let d = dict_T { dv_hashtab: items, dv_lock: VarLockStatus::VAR_UNLOCKED, dv_refcount: 0, dv_watchers: Vec::new() };
    proof { lemma_dict_view_parts(d); }
    assert(d@.keys =~= seq![bufnr_k(), signs_k()]);
    assert(d@.vals =~= seq![num_tv(b as int), list_tv(placed_dicts(of_buf(fv, b as int)))]);
    assert(d@.watchers =~= Seq::<WatcherVal>::empty());
    typval_T { v_type: VarType::VAR_DICT, v_lock: VarLockStatus::VAR_UNLOCKED, vval: typval_vval_union::v_dict(Some(d)) }
}

fn ints_contains(v: &Vec<i64>, x: i64) -> (r: bool)
    ensures r == ints_view(v@).contains(x as int),
{
    let ghost iv = ints_view(v@);
    let mut i: usize = 0;
    while i < v.len()
        invariant i <= v@.len(), iv == ints_view(v@), forall|k: int| 0 <= k < i ==> iv[k] != x as int,
        decreases v.len() - i,
    {
        if v[i] == x {
            assert(iv[i as int] == x as int);
            return true;
        }
        i += 1;
    }
    false
}

/// "sign_getplaced([{buf} [, {dict}]])": the placed signs per buffer (see
/// `getplaced_spec`).
pub fn f_sign_getplaced(s: &Signs, argvars: &[typval_T], rettv: &mut typval_T)
    ensures
        final(rettv)@ == with_list(old(rettv)@, getplaced_spec(placed_view(s.placed@), gp_want_buf(argvars@), gp_want_group(argvars@))),
{
    let has_buf = argvars.len() >= 1 && argvars[0].v_type == VarType::VAR_NUMBER;
    let wb: i64 = if has_buf { tv_get_number(&argvars[0]) } else { 0 };
    let gk: [u8; 5] = [103u8, 114, 111, 117, 112];
    assert(gk@ =~= group_k());
    let mut has_group = false;
    let mut wg: Vec<u8> = Vec::new();
    if argvars.len() >= 2 {
        match (&argvars[1].v_type, &argvars[1].vval) {
            (VarType::VAR_DICT, typval_vval_union::v_dict(Some(d))) => {
                match tv_dict_find(d, &gk) {
                    Some(v) => { has_group = true; wg = tv_get_string(v); },
                    None => {},
                }
            },
            _ => {},
        }
    }
    let ghost gwb = gp_want_buf(argvars@);
    let ghost gwg = gp_want_group(argvars@);
    assert(gwb == (if has_buf { Some(wb as int) } else { None::<int> }));
    assert(gwg == (if has_group { Some(wg@) } else { None::<Seq<u8>> }));
    let ghost pv = placed_view(s.placed@);
    let mut f: Vec<PlacedSign> = Vec::new();
    let mut i: usize = 0;
    while i < s.placed.len()
        invariant
            i <= s.placed@.len(), pv == placed_view(s.placed@),
            gwb == (if has_buf { Some(wb as int) } else { None::<int> }),
            gwg == (if has_group { Some(wg@) } else { None::<Seq<u8>> }),
            placed_view(f@) == gp_filter(pv.subrange(0, i as int), gwb, gwg),
        decreases s.placed.len() - i,
    {
        assert(pv.subrange(0, i as int + 1).drop_last() =~= pv.subrange(0, i as int));
        assert(pv.subrange(0, i as int + 1).last() == s.placed@[i as int]@);
        let p = &s.placed[i];
        if (!has_buf || wb == p.bufnr) && (!has_group || bytes_eq(wg.as_slice(), p.group.as_slice())) {
            let ghost before = placed_view(f@);
            f.push(placed_copy(p));
            assert(placed_view(f@) =~= before.push(p@));
        }
        i += 1;
    }
    assert(pv.subrange(0, pv.len() as int) =~= pv);
    let ghost fv = placed_view(f@);
    let mut bufs: Vec<i64> = Vec::new();
    let mut j: usize = 0;
    while j < f.len()
        invariant
            j <= f@.len(), fv == placed_view(f@),
            ints_view(bufs@) == first_bufs(fv.subrange(0, j as int)),
        decreases f.len() - j,
    {
        assert(fv.subrange(0, j as int + 1).drop_last() =~= fv.subrange(0, j as int));
        assert(fv.subrange(0, j as int + 1).last() == f@[j as int]@);
        if !ints_contains(&bufs, f[j].bufnr) {
            let ghost before = ints_view(bufs@);
            bufs.push(f[j].bufnr);
            assert(ints_view(bufs@) =~= before.push(f@[j as int].bufnr as int));
        }
        j += 1;
    }
    assert(fv.subrange(0, fv.len() as int) =~= fv);
    let ghost bv = ints_view(bufs@);
    let mut out: Vec<typval_T> = Vec::new();
    let mut k: usize = 0;
    while k < bufs.len()
        invariant
            k <= bufs@.len(), bv == ints_view(bufs@), fv == placed_view(f@),
            items_view(out@) =~= Seq::new(k as nat, |q: int| buf_entry(bv[q], fv)),
        decreases bufs.len() - k,
    {
        let e = buf_entry_exec(bufs[k], &f);
        let ghost before = out@;
        proof { lemma_items_view_push(before, e); }
        out.push(e);
        k += 1;
    }
    set_list(rettv, list_T { lv_items: out, lv_lock: VarLockStatus::VAR_UNLOCKED, lv_refcount: 0 });
}

/// Whether "sign_unplace()" removes `p`: in `group` ("" and "*" for any),
/// with id `wid` and in buffer `wb` where those are given.
pub open spec fn unplace_hit(p: PlacedVal, group: Seq<u8>, wid: Option<int>, wb: Option<int>) -> bool {
    &&& (group.len() == 0 || group == seq![42u8] || group == p.group)
    &&& (wid is None || wid->Some_0 == p.id)
    &&& (wb is None || wb->Some_0 == p.bufnr)
}

/// The placed signs `unplace_hit` leaves, in order.
pub open spec fn unplace_keep(ps: Seq<PlacedVal>, group: Seq<u8>, wid: Option<int>, wb: Option<int>) -> Seq<PlacedVal>
    decreases ps.len(),
{
    if ps.len() == 0 {
        ps
    } else {
        let r = unplace_keep(ps.drop_last(), group, wid, wb);
        if unplace_hit(ps.last(), group, wid, wb) { r } else { r.push(ps.last()) }
    }
}

/// The id "sign_unplace()" asks for: `{dict}.id` unless 0.
pub open spec fn up_want_id(a: Seq<typval_T>) -> Option<int> {
    if a.len() >= 2 && sign_dict_nr(a[1]@, id_k(), 0) != 0 { Some(sign_dict_nr(a[1]@, id_k(), 0)) } else { None }
}

/// The buffer "sign_unplace()" asks for: `{dict}.buffer` unless -1.
pub open spec fn up_want_buf(a: Seq<typval_T>) -> Option<int> {
    if a.len() >= 2 && sign_dict_nr(a[1]@, buffer_k(), -1) != -1 { Some(sign_dict_nr(a[1]@, buffer_k(), -1)) } else { None }
}

fn unplace_exec(s: &mut Signs, group: &[u8], has_id: bool, wid: i64, has_buf: bool, wb: i64, star: bool)
    requires star == (group@ == seq![42u8]),
    ensures
        placed_view(final(s).placed@) == unplace_keep(placed_view(old(s).placed@), group@,
            if has_id { Some(wid as int) } else { None }, if has_buf { Some(wb as int) } else { None }),
        final(s).names == old(s).names, final(s).opts == old(s).opts, final(s).last_id == old(s).last_id,
{
    let ghost pv = placed_view(s.placed@);
    let ghost gi = if has_id { Some(wid as int) } else { None::<int> };
    let ghost gb = if has_buf { Some(wb as int) } else { None::<int> };
    let mut out: Vec<PlacedSign> = Vec::new();
    let mut i: usize = 0;
    while i < s.placed.len()
        invariant
            i <= s.placed@.len(), pv == placed_view(s.placed@), star == (group@ == seq![42u8]),
            gi == (if has_id { Some(wid as int) } else { None::<int> }),
            gb == (if has_buf { Some(wb as int) } else { None::<int> }),
            placed_view(out@) == unplace_keep(pv.subrange(0, i as int), group@, gi, gb),
        decreases s.placed.len() - i,
    {
        assert(pv.subrange(0, i as int + 1).drop_last() =~= pv.subrange(0, i as int));
        assert(pv.subrange(0, i as int + 1).last() == s.placed@[i as int]@);
        let p = &s.placed[i];
        let hit = (group.len() == 0 || star || bytes_eq(group, p.group.as_slice()))
            && (!has_id || wid == p.id) && (!has_buf || wb == p.bufnr);
        if !hit {
            let ghost before = placed_view(out@);
            out.push(placed_copy(p));
            assert(placed_view(out@) =~= before.push(p@));
        }
        i += 1;
    }
    assert(pv.subrange(0, pv.len() as int) =~= pv);
    s.placed = out;
}

/// "sign_unplace({group} [, {dict}])": remove the placed signs
/// `unplace_hit` picks; the result is 0.
pub fn f_sign_unplace(s: &mut Signs, argvars: &[typval_T], rettv: &mut typval_T)
    requires argvars@.len() >= 1,
    ensures
        placed_view(final(s).placed@) == unplace_keep(placed_view(old(s).placed@), string_or_empty(argvars@[0]@),
            up_want_id(argvars@), up_want_buf(argvars@)),
        final(s).names == old(s).names, final(s).opts == old(s).opts, final(s).last_id == old(s).last_id,
        final(rettv)@ == with_number(old(rettv)@, 0),
{
    let group = tv_get_string(&argvars[0]);
    let ik: [u8; 2] = [105u8, 100];
    let bk: [u8; 6] = [98u8, 117, 102, 102, 101, 114];
    assert(ik@ =~= id_k() && bk@ =~= buffer_k());
    let wid = if argvars.len() >= 2 { sign_dict_nr_exec(&argvars[1], &ik, 0) } else { 0 };
    let wb = if argvars.len() >= 2 { sign_dict_nr_exec(&argvars[1], &bk, -1) } else { -1 };
    let star = group.len() == 1 && group[0] == 42u8;
    assert(star == (group@ == seq![42u8])) by {
        if group@.len() == 1 && group@[0] == 42u8 { assert(group@ =~= seq![42u8]); }
    }
    unplace_exec(s, group.as_slice(), argvars.len() >= 2 && wid != 0, wid, argvars.len() >= 2 && wb != -1, wb, star);
    set_number(rettv, 0);
}

/// Whether one item of "sign_unplacelist()" removes `p`: in `group`
/// ("" for any) with id `id` (0 for any).
pub open spec fn unplace_item_hit(p: PlacedVal, group: Seq<u8>, id: int) -> bool {
    (group.len() == 0 || group == p.group) && (id == 0 || id == p.id)
}

/// The placed signs one such item leaves, in order.
pub open spec fn unplace_item_keep(ps: Seq<PlacedVal>, group: Seq<u8>, id: int) -> Seq<PlacedVal>
    decreases ps.len(),
{
    if ps.len() == 0 {
        ps
    } else {
        let r = unplace_item_keep(ps.drop_last(), group, id);
        if unplace_item_hit(ps.last(), group, id) { r } else { r.push(ps.last()) }
    }
}

/// The placed signs after the first `n` items of "sign_unplacelist()"
/// (each by its "group" and "id").
pub open spec fn unplace_list(items: Seq<TypVal>, ps: Seq<PlacedVal>, n: int) -> Seq<PlacedVal>
    decreases n,
{
    if n <= 0 {
        ps
    } else {
        unplace_item_keep(unplace_list(items, ps, n - 1), sign_dict_str(items[n - 1], group_k(), Seq::empty()),
            sign_dict_nr(items[n - 1], id_k(), 0))
    }
}

fn unplace_item_exec(s: &mut Signs, group: &[u8], id: i64)
    ensures
        placed_view(final(s).placed@) == unplace_item_keep(placed_view(old(s).placed@), group@, id as int),
        final(s).names == old(s).names, final(s).opts == old(s).opts, final(s).last_id == old(s).last_id,
{
    let ghost pv = placed_view(s.placed@);
    let mut out: Vec<PlacedSign> = Vec::new();
    let mut i: usize = 0;
    while i < s.placed.len()
        invariant
            i <= s.placed@.len(), pv == placed_view(s.placed@),
            placed_view(out@) == unplace_item_keep(pv.subrange(0, i as int), group@, id as int),
        decreases s.placed.len() - i,
    {
        assert(pv.subrange(0, i as int + 1).drop_last() =~= pv.subrange(0, i as int));
        assert(pv.subrange(0, i as int + 1).last() == s.placed@[i as int]@);
        let p = &s.placed[i];
        let hit = (group.len() == 0 || bytes_eq(group, p.group.as_slice())) && (id == 0 || id == p.id);
        if !hit {
            let ghost before = placed_view(out@);
            out.push(placed_copy(p));
            assert(placed_view(out@) =~= before.push(p@));
        }
        i += 1;
    }
    assert(pv.subrange(0, pv.len() as int) =~= pv);
    s.placed = out;
}

/// Zeros, one per item.
pub open spec fn zeros(n: int) -> Seq<TypVal> {
    Seq::new(n as nat, |i: int| num_tv(0))
}

/// "sign_unplacelist({list})": remove the signs each item describes; the
/// result is a 0 per item. For anything but a List nothing changes.
pub fn f_sign_unplacelist(s: &mut Signs, argvars: &[typval_T], rettv: &mut typval_T)
    requires argvars@.len() >= 1,
    ensures
        final(s).names == old(s).names, final(s).opts == old(s).opts, final(s).last_id == old(s).last_id,
        !(argvars@[0]@.ty == VarType::VAR_LIST && argvars@[0]@.v is List && argvars@[0]@.v->List_0 is Some)
            ==> final(s).placed@ == old(s).placed@ && final(rettv)@ == old(rettv)@,
        argvars@[0]@.ty == VarType::VAR_LIST && argvars@[0]@.v is List && argvars@[0]@.v->List_0 is Some ==> ({
            let items = argvars@[0]@.v->List_0->Some_0.items;
            placed_view(final(s).placed@) == unplace_list(items, placed_view(old(s).placed@), items.len() as int)
                && final(rettv)@ == with_list(old(rettv)@, zeros(items.len() as int))
        }),
{
    let l = match (&argvars[0].v_type, &argvars[0].vval) {
        (VarType::VAR_LIST, typval_vval_union::v_list(Some(l))) => l,
        _ => { return; },
    };
    let ghost items = l@.items;
    let ghost ps0 = placed_view(s.placed@);
    proof { lemma_items_view_index_all(l.lv_items@); }
    let ik: [u8; 2] = [105u8, 100];
    let gk: [u8; 5] = [103u8, 114, 111, 117, 112];
    assert(ik@ =~= id_k() && gk@ =~= group_k());
    let mut out: Vec<typval_T> = Vec::new();
    let mut i: usize = 0;
    while i < l.lv_items.len()
        invariant
            i <= l.lv_items@.len(), items == l@.items, items.len() == l.lv_items@.len(),
            forall|k: int| 0 <= k < l.lv_items@.len() ==> #[trigger] items[k] == l.lv_items@[k]@,
            ik@ == id_k(), gk@ == group_k(),
            s.names == old(s).names, s.opts == old(s).opts, s.last_id == old(s).last_id,
            placed_view(s.placed@) == unplace_list(items, ps0, i as int),
            items_view(out@) =~= zeros(i as int),
        decreases l.lv_items.len() - i,
    {
        let it = &l.lv_items[i];
        let group = sign_dict_str_exec(it, &gk);
        let id = sign_dict_nr_exec(it, &ik, 0);
        unplace_item_exec(s, group.as_slice(), id);
        let ghost before = out@;
        let v = num_value(0);
        proof { lemma_items_view_push(before, v); }
        out.push(v);
        i += 1;
    }
    set_list(rettv, list_T { lv_items: out, lv_lock: VarLockStatus::VAR_UNLOCKED, lv_refcount: 0 });
}

/// "sign_jump()": there is no cursor to move; the result is -1.
pub fn f_sign_jump(argvars: &[typval_T], rettv: &mut typval_T)
    ensures final(rettv)@ == with_number(old(rettv)@, -1),
{
    set_number(rettv, -1);
}

// ── laws ──

/// After "sign_unplace()" no sign it picks is left, and no other sign is
/// lost.
pub proof fn lemma_unplace_gone(ps: Seq<PlacedVal>, group: Seq<u8>, wid: Option<int>, wb: Option<int>, p: PlacedVal)
    ensures
        unplace_keep(ps, group, wid, wb).contains(p) <==> (ps.contains(p) && !unplace_hit(p, group, wid, wb)),
    decreases ps.len(),
{
    if ps.len() > 0 {
        lemma_unplace_gone(ps.drop_last(), group, wid, wb, p);
        let r = unplace_keep(ps.drop_last(), group, wid, wb);
        if ps.drop_last().contains(p) {
            let k = choose|k: int| 0 <= k < ps.drop_last().len() && ps.drop_last()[k] == p;
            assert(ps[k] == p);
        }
        if ps.contains(p) && ps.last() != p {
            let k = choose|k: int| 0 <= k < ps.len() && ps[k] == p;
            assert(ps.drop_last()[k] == p);
        }
        if !unplace_hit(ps.last(), group, wid, wb) {
            assert(r.push(ps.last())[r.len() as int] == ps.last());
            if r.push(ps.last()).contains(p) && p != ps.last() {
                let k = choose|k: int| 0 <= k < r.push(ps.last()).len() && r.push(ps.last())[k] == p;
                assert(r[k] == p);
            }
            if r.contains(p) {
                let k = choose|k: int| 0 <= k < r.len() && r[k] == p;
                assert(r.push(ps.last())[k] == p);
            }
        }
        if ps.last() == p {
            assert(ps[ps.len() - 1] == p);
        }
    }
}

/// A placed sign is listed for its buffer by "sign_getplaced({buf})", last
/// among that buffer's signs.
pub proof fn lemma_place_then_getplaced(ps: Seq<PlacedVal>, p: PlacedVal)
    ensures ({
        let f = gp_filter(ps.push(p), Some(p.bufnr), None);
        &&& first_bufs(f).contains(p.bufnr)
        &&& of_buf(f, p.bufnr).len() > 0
        &&& of_buf(f, p.bufnr).last() == p
    }),
{
    let qs = ps.push(p);
    assert(qs.drop_last() =~= ps);
    let f = gp_filter(qs, Some(p.bufnr), None);
    let r = gp_filter(ps, Some(p.bufnr), None);
    assert(f == r.push(p));
    assert(f.drop_last() =~= r);
    let fb = first_bufs(r);
    if !fb.contains(p.bufnr) {
        assert(fb.push(p.bufnr)[fb.len() as int] == p.bufnr);
    }
}

} // verus!
