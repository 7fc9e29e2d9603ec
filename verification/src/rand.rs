//! The pseudo-random generators behind "srand()" and "rand()".
use vstd::prelude::*;
use crate::typval_defs::{
    varnumber_T, OK, FAIL, VarType, VarLockStatus, BoolVarValue, SpecialVarValue, typval_vval_union,
    typval_T, list_T, dict_T, dictitem_T, blob_T, partial_T, Callback, DictWatcher, TypVal, VVal,
    ListVal, DictVal, BlobVal, CallbackVal, WatcherVal, tv_view, list_view, dict_view, items_view, dict_index_of,
    mk_tv, num_tv, str_tv, list_tv, blob_tv, dict_tv, empty_dict_val, dict_wf, keys_unique,
    lemma_items_view_ext, lemma_items_view_index, lemma_items_view_push, lemma_items_view_subrange,
    lemma_items_view_add, lemma_items_view_reverse, lemma_items_view_update, lemma_items_view_insert,
    lemma_items_view_remove, lemma_items_view_empty,
};
use crate::charset::{nr2str, nr2bytes, str2nr, str2nr_all};
use crate::dup::{bytes_dup, tv_dup, list_dup, dict_dup, blob_dup, items_dup, slice_to_vec, callback_dup, append_bytes};
use crate::typval::{
    number_of, number_chk_result, string_of, string_or_empty, tv_get_number_chk, tv_get_number,
    tv_get_bool, tv_get_string, tv_get_string_chk, tv_get_string_buf_chk, tv_equal, tv_equal_spec,
    bytes_eq, dict_find_index,
};
use crate::typval_list::lemma_items_view_index_all;
use crate::funcs_basic::{with_list, set_list, first_arg_set, replace_first, list_with_items};
use crate::message::{emsg, msgs_view, after_report, msg_e475, msg_e475_exec};
use vstd::wrapping::u32_specs;

verus! {

// ── the generators ──

/// A 32-bit left rotation.
pub open spec fn rotl(v: u32, k: u32) -> u32 {
    (v << k) | (v >> (32 - k) as u32)
}

/// One SplitMix32 step: the advanced state and the value it gives.
pub open spec fn splitmix32_spec(x: u32) -> (u32, u32) {
    let x1 = u32_specs::wrapping_add(x, 0x9e37_79b9);
    let z1 = u32_specs::wrapping_mul(x1 ^ (x1 >> 16u32), 0x85eb_ca6b);
    let z2 = u32_specs::wrapping_mul(z1 ^ (z1 >> 13u32), 0xc2b2_ae35);
    (x1, z2 ^ (z2 >> 16u32))
}

/// One xoshiro128** step: the advanced state and the value it gives.
pub open spec fn xoshiro_spec(s: (u32, u32, u32, u32)) -> ((u32, u32, u32, u32), u32) {
    let (x, y, z, w) = s;
    let result = u32_specs::wrapping_mul(rotl(u32_specs::wrapping_mul(y, 5), 7), 9);
    let t = y << 9u32;
    let z1 = z ^ x;
    let w1 = w ^ y;
    let y1 = y ^ z1;
    let x1 = x ^ w1;
    let z2 = z1 ^ t;
    let w2 = rotl(w1, 11);
    ((x1, y1, z2, w2), result)
}

/// The four values SplitMix32 gives from seed `x`.
pub open spec fn seed4(x: u32) -> (u32, u32, u32, u32) {
    let (x1, a) = splitmix32_spec(x);
    let (x2, b) = splitmix32_spec(x1);
    let (x3, c) = splitmix32_spec(x2);
    let (_x4, d) = splitmix32_spec(x3);
    (a, b, c, d)
}

/// A SplitMix32 step on `*x`.
fn splitmix32(x: &mut u32) -> (r: u32)
    ensures (*final(x), r) == splitmix32_spec(*old(x)),
{
    *x = x.wrapping_add(0x9e37_79b9);
    let mut z = *x;
    z = (z ^ (z >> 16)).wrapping_mul(0x85eb_ca6b);
    z = (z ^ (z >> 13)).wrapping_mul(0xc2b2_ae35);
    z ^ (z >> 16)
}

/// An xoshiro128** step on the state.
fn shuffle_xoshiro128starstar(s: (u32, u32, u32, u32)) -> (r: ((u32, u32, u32, u32), u32))
    ensures r == xoshiro_spec(s),
{
    let (x, y, z, w) = s;
    let m = y.wrapping_mul(5);
    let result = ((m << 7) | (m >> 25)).wrapping_mul(9);
    let t = y << 9;
    let z1 = z ^ x;
    let w1 = w ^ y;
    let y1 = y ^ z1;
    let x1 = x ^ w1;
    let z2 = z1 ^ t;
    let w2 = (w1 << 11) | (w1 >> 21);
    ((x1, y1, z2, w2), result)
}

/// The four values SplitMix32 gives from seed `x`.
fn seed4_exec(x: u32) -> (r: (u32, u32, u32, u32))
    ensures r == seed4(x),
{
    let mut s = x;
    let a = splitmix32(&mut s);
    let b = splitmix32(&mut s);
    let c = splitmix32(&mut s);
    let d = splitmix32(&mut s);
    (a, b, c, d)
}

// ── srand() and rand() ──

/// The Numbers of four values.
pub open spec fn nums4(s: (u32, u32, u32, u32)) -> Seq<TypVal> {
    seq![num_tv(s.0 as int), num_tv(s.1 as int), num_tv(s.2 as int), num_tv(s.3 as int)]
}

fn num_item(n: u32) -> (r: typval_T)
    ensures r@ == num_tv(n as int),
{
    typval_T { v_type: VarType::VAR_NUMBER, v_lock: VarLockStatus::VAR_UNLOCKED, vval: typval_vval_union::v_number(n as i64) }
}

/// "srand([{expr}])": the four-Number seed List that SplitMix32 makes from
/// `{expr}` (as 32 bits), or without it from `entropy` (a value that differs
/// from run to run); an `{expr}` that is not a Number gives an empty List.
pub fn f_srand(argvars: &[typval_T], rettv: &mut typval_T, entropy: u32)
    ensures
        final(rettv)@ == with_list(old(rettv)@,
            if argvars@.len() == 0 {
                nums4(seed4(entropy))
            } else if number_of(argvars@[0]@) is None {
                Seq::empty()
            } else {
                nums4(seed4(number_chk_result(argvars@[0]@, true) as u32))
            }),
{
    let x: u32 = if argvars.len() == 0 {
        entropy
    } else {
        let mut error = false;
        let n = tv_get_number_chk(&argvars[0], Some(&mut error));
        if error {
            let e: Vec<typval_T> = Vec::new();
            assert(items_view(e@) =~= Seq::<TypVal>::empty());
            set_list(rettv, list_T { lv_items: e, lv_lock: VarLockStatus::VAR_UNLOCKED, lv_refcount: 0 });
            return;
        }
        n as u32
    };
    let (a, b, c, d) = seed4_exec(x);
    let mut items: Vec<typval_T> = Vec::new();
    items.push(num_item(a));
    items.push(num_item(b));
    items.push(num_item(c));
    items.push(num_item(d));
    proof { lemma_items_view_index_all(items@); }
    assert(items_view(items@) =~= nums4((a, b, c, d)));
    set_list(rettv, list_T { lv_items: items, lv_lock: VarLockStatus::VAR_UNLOCKED, lv_refcount: 0 });
}

/// The model of `rettv` once a builtin has made it the Number `n`.
pub open spec fn with_num_typed(r: TypVal, n: int) -> TypVal {
    TypVal { ty: VarType::VAR_NUMBER, v: VVal::Number(n), ..r }
}

fn set_num_typed(rettv: &mut typval_T, n: i64)
    ensures final(rettv)@ == with_num_typed(old(rettv)@, n as int),
{
    rettv.v_type = VarType::VAR_NUMBER;
    rettv.vval = typval_vval_union::v_number(n);
}

/// The seed a List holds: exactly four Numbers, each taken as 32 bits.
pub open spec fn seed_of(items: Seq<TypVal>) -> Option<(u32, u32, u32, u32)> {
    if items.len() == 4 && forall|i: int| 0 <= i < 4 ==> #[trigger] items[i].ty == VarType::VAR_NUMBER && items[i].v is Number {
        Some((items[0].v->Number_0 as u32, items[1].v->Number_0 as u32, items[2].v->Number_0 as u32, items[3].v->Number_0 as u32))
    } else {
        None
    }
}

/// The items of a seed List once the state `s` is written back.
pub open spec fn seed_items(items: Seq<TypVal>, s: (u32, u32, u32, u32)) -> Seq<TypVal> {
    seq![
        TypVal { v: VVal::Number(s.0 as int), ..items[0] },
        TypVal { v: VVal::Number(s.1 as int), ..items[1] },
        TypVal { v: VVal::Number(s.2 as int), ..items[2] },
        TypVal { v: VVal::Number(s.3 as int), ..items[3] }
    ]
}

/// The number of a Number item, as 32 bits.
fn item_u32(t: &typval_T) -> (r: Option<u32>)
    ensures
        (t@.ty == VarType::VAR_NUMBER && t@.v is Number) ==> r == Some(t@.v->Number_0 as u32),
        !(t@.ty == VarType::VAR_NUMBER && t@.v is Number) ==> r is None,
{
    match (&t.v_type, &t.vval) {
        (VarType::VAR_NUMBER, typval_vval_union::v_number(n)) => Some(*n as u32),
        _ => None,
    }
}

/// Report an argument of `rand()` that is no seed List (E475).
fn report_bad_seed(errs: &mut Vec<Vec<u8>>, arg: &typval_T)
    ensures msgs_view(final(errs)@) == msgs_view(old(errs)@).push(msg_e475() + string_or_empty(arg@)),
{
    let mut m = msg_e475_exec();
    let s = tv_get_string(arg);
    append_bytes(&mut m, s.as_slice());
    emsg(errs, m);
}

/// An item with its Number replaced.
fn with_number_item(t: &typval_T, n: u32) -> (r: typval_T)
    ensures r@ == (TypVal { v: VVal::Number(n as int), ..t@ }),
{
    typval_T { v_type: t.v_type, v_lock: t.v_lock, vval: typval_vval_union::v_number(n as i64) }
}

/// The error `rand()` reports for its argument: E475 with the argument's
/// text unless it is a List of four Numbers.
pub open spec fn rand_error(args: Seq<typval_T>) -> Option<Seq<u8>> {
    if args.len() == 0 {
        None
    } else {
        match (args[0]@.ty, args[0]@.v) {
            (VarType::VAR_LIST, VVal::List(Some(l))) if seed_of(l.items) is Some => None,
            _ => Some(msg_e475() + string_or_empty(args[0]@)),
        }
    }
}

/// "rand([{expr}])": the next xoshiro128** value. Without `{expr}` the
/// generator `state` is used (made from `entropy` first when there is
/// none) and advanced. With a List of four Numbers that List is the state
/// and is advanced in place. Anything else gives -1 and is reported (E475).
pub fn f_rand(argvars: &mut Vec<typval_T>, rettv: &mut typval_T, state: &mut Option<(u32, u32, u32, u32)>, entropy: u32,
    errs: &mut Vec<Vec<u8>>)
    ensures
        msgs_view(final(errs)@) == after_report(old(errs)@, rand_error(old(argvars)@)),
        old(argvars)@.len() == 0 ==> ({
            let s = match *old(state) { Some(s) => s, None => seed4(entropy) };
            &&& *final(state) == Some(xoshiro_spec(s).0)
            &&& final(rettv)@ == with_num_typed(old(rettv)@, xoshiro_spec(s).1 as int)
            &&& final(argvars)@ == old(argvars)@
        }),
        old(argvars)@.len() > 0 ==> *final(state) == *old(state),
        old(argvars)@.len() > 0 ==> match (old(argvars)@[0]@.ty, old(argvars)@[0]@.v) {
            (VarType::VAR_LIST, VVal::List(Some(l))) => match seed_of(l.items) {
                Some(s) => first_arg_set(old(argvars)@, final(argvars)@,
                        list_with_items(old(argvars)@[0]@, l, seed_items(l.items, xoshiro_spec(s).0)))
                    && final(rettv)@ == with_num_typed(old(rettv)@, xoshiro_spec(s).1 as int),
                None => final(argvars)@ == old(argvars)@ && final(rettv)@ == with_num_typed(old(rettv)@, -1),
            },
            _ => final(argvars)@ == old(argvars)@ && final(rettv)@ == with_num_typed(old(rettv)@, -1),
        },
{
    if argvars.len() == 0 {
        let s = match *state {
            Some(s) => s,
            None => seed4_exec(entropy),
        };
        let (ns, result) = shuffle_xoshiro128starstar(s);
        *state = Some(ns);
        set_num_typed(rettv, result as i64);
        return;
    }
    let first = &argvars[0];
    let (newl, result) = match (&first.v_type, &first.vval) {
        (VarType::VAR_LIST, typval_vval_union::v_list(Some(l))) => {
            proof { lemma_items_view_index_all(l.lv_items@); }
            if l.lv_items.len() != 4 {
                report_bad_seed(errs, first);
                set_num_typed(rettv, -1);
                return;
            }
            let a = item_u32(&l.lv_items[0]);
            let b = item_u32(&l.lv_items[1]);
            let c = item_u32(&l.lv_items[2]);
            let d = item_u32(&l.lv_items[3]);
            match (a, b, c, d) {
                (Some(a), Some(b), Some(c), Some(d)) => {
                    let ghost items = l@.items;
                    assert(forall|i: int| 0 <= i < 4 ==> #[trigger] items[i] == l.lv_items@[i]@);
                    assert(seed_of(items) == Some((a, b, c, d)));
                    let ((x, y, z, w), result) = shuffle_xoshiro128starstar((a, b, c, d));
                    let mut ni: Vec<typval_T> = Vec::new();
                    ni.push(with_number_item(&l.lv_items[0], x));
                    ni.push(with_number_item(&l.lv_items[1], y));
                    ni.push(with_number_item(&l.lv_items[2], z));
                    ni.push(with_number_item(&l.lv_items[3], w));
                    proof { lemma_items_view_index_all(ni@); }
                    assert(items_view(ni@) =~= seed_items(items, (x, y, z, w)));
                    let nl = list_T { lv_items: ni, lv_lock: l.lv_lock, lv_refcount: l.lv_refcount };
                    let nt = typval_T { v_type: first.v_type, v_lock: first.v_lock, vval: typval_vval_union::v_list(Some(nl)) };
                    (nt, result)
                },
                _ => {
                    proof {
                        let items = l@.items;
                        assert(forall|i: int| 0 <= i < 4 ==> #[trigger] items[i] == l.lv_items@[i]@);
                        if seed_of(items) is Some {
                            assert(items[0].ty == VarType::VAR_NUMBER && items[0].v is Number);
                            assert(items[1].ty == VarType::VAR_NUMBER && items[1].v is Number);
                            assert(items[2].ty == VarType::VAR_NUMBER && items[2].v is Number);
                            assert(items[3].ty == VarType::VAR_NUMBER && items[3].v is Number);
                        }
                    }
                    report_bad_seed(errs, first);
                    set_num_typed(rettv, -1);
                    return;
                },
            }
        },
        _ => {
            report_bad_seed(errs, first);
            set_num_typed(rettv, -1);
            return;
        },
    };
    replace_first(argvars, newl);
    set_num_typed(rettv, result as i64);
}

} // verus!
