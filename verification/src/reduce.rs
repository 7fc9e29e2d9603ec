//! "reduce()" and "indexof()": folding and searching a List, String or Blob with a function.
use vstd::prelude::*;
use crate::typval_defs::{
    varnumber_T, OK, FAIL, VarType, VarLockStatus, BoolVarValue, SpecialVarValue, typval_vval_union,
    typval_T, list_T, dict_T, dictitem_T, blob_T, partial_T, Callback, DictWatcher, TypVal, VVal,
    ListVal, DictVal, BlobVal, CallbackVal, WatcherVal, tv_view, list_view, dict_view, items_view, dict_index_of,
    mk_tv, num_tv, str_tv, list_tv, blob_tv, dict_tv, empty_dict_val, dict_wf, keys_unique,
    lemma_items_view_ext, lemma_items_view_index, lemma_items_view_push, lemma_items_view_subrange,
    lemma_items_view_add, lemma_items_view_reverse, lemma_items_view_update, lemma_items_view_insert,
    lemma_items_view_remove, lemma_items_view_empty,
};
use crate::charset::{nr2str, nr2bytes, str2nr, str2nr_all};
use crate::dup::{bytes_dup, tv_dup, list_dup, dict_dup, blob_dup, items_dup, slice_to_vec, callback_dup, append_bytes};
use crate::typval::{
    number_of, number_chk_result, string_of, string_or_empty, tv_get_number_chk, tv_get_number,
    tv_get_bool, tv_get_string, tv_get_string_chk, tv_get_string_buf_chk, tv_equal, tv_equal_spec,
    bytes_eq, dict_find_index,
};
use crate::typval_list::lemma_items_view_index_all;
use crate::typval_check::arg_type_spec;
use crate::typval_check::{tv_check_for_string_arg, tv_check_for_number_arg};
use crate::list_funcs::opt_view;
use crate::rand::{with_num_typed};
use crate::highlight::bytes_copy;
use crate::textbuf::{str_value, num_value};
use crate::charset::{utf8_split, utf8_chars};

verus! {

// ── folding with a function ──

/// Whether `out` is what `call` may give when asked to call the function
/// `func` with the accumulator `acc` and the item `item`.
pub open spec fn call_ok<F: Fn(typval_T, typval_T, typval_T) -> Option<typval_T>>(
    call: &F, func: TypVal, acc: TypVal, item: TypVal, out: Option<TypVal>,
) -> bool {
    exists|x: typval_T, a: typval_T, i: typval_T, res: Option<typval_T>|
        #![trigger call.ensures((x, a, i), res)]
        x@ == func && a@ == acc && i@ == item && call.ensures((x, a, i), res) && out == opt_view(res)
}

/// The accumulator before step `k`.
pub open spec fn acc_at(acc0: TypVal, outs: Seq<Option<TypVal>>, k: int) -> TypVal {
    if k == 0 { acc0 } else { outs[k - 1]->Some_0 }
}

/// Whether `outs` are the answers of the calls that fold `items` into
/// `acc0`, up to the first that failed.
pub open spec fn fold_valid<F: Fn(typval_T, typval_T, typval_T) -> Option<typval_T>>(
    call: &F, func: TypVal, acc0: TypVal, items: Seq<TypVal>, outs: Seq<Option<TypVal>>,
) -> bool {
    &&& outs.len() <= items.len()
    &&& forall|k: int| 0 <= k < outs.len() - 1 ==> #[trigger] outs[k] is Some
    &&& outs.len() < items.len() ==> outs.len() > 0 && outs.last() is None
    &&& forall|k: int| 0 <= k < outs.len() ==> #[trigger] call_ok(call, func, acc_at(acc0, outs, k), items[k], outs[k])
}

/// The accumulator after the calls: the last answer, or what it was before
/// a call failed.
pub open spec fn fold_result(acc0: TypVal, outs: Seq<Option<TypVal>>) -> TypVal {
    if outs.len() == 0 {
        acc0
    } else {
        match outs.last() {
            Some(v) => v,
            None => acc_at(acc0, outs, outs.len() - 1),
        }
    }
}

/// Fold `items[from..]` into `acc` with `call`.
fn fold_items<F: Fn(typval_T, typval_T, typval_T) -> Option<typval_T>>(
    call: &F, func: &typval_T, acc: typval_T, items: &Vec<typval_T>, from: usize,
) -> (r: (typval_T, Ghost<Seq<Option<TypVal>>>))
    requires from <= items@.len(), forall|x: typval_T, a: typval_T, i: typval_T| #[trigger] call.requires((x, a, i)),
    ensures
        fold_valid(call, func@, acc@, items_view(items@).subrange(from as int, items@.len() as int), r.1@),
        r.0@ == fold_result(acc@, r.1@),
{
    let ghost acc0 = acc@;
    let ghost its = items_view(items@).subrange(from as int, items@.len() as int);
    proof { lemma_items_view_index_all(items@); }
    let mut cur = acc;
    let ghost mut outs: Seq<Option<TypVal>> = Seq::empty();
    let mut k: usize = from;
    while k < items.len()
        invariant
            from <= k <= items@.len(), outs.len() == k - from, acc0 == acc@,
            its == items_view(items@).subrange(from as int, items@.len() as int),
            forall|j: int| 0 <= j < items@.len() ==> #[trigger] items_view(items@)[j] == items@[j]@,
            forall|x: typval_T, a: typval_T, i: typval_T| #[trigger] call.requires((x, a, i)),
            forall|j: int| 0 <= j < outs.len() ==> #[trigger] outs[j] is Some,
            forall|j: int| 0 <= j < outs.len() ==> #[trigger] call_ok(call, func@, acc_at(acc0, outs, j), its[j], outs[j]),
            cur@ == acc_at(acc0, outs, outs.len() as int),
        decreases items.len() - k,
    {
        let gx = tv_dup(func);
        let ga = tv_dup(&cur);
        let gi = tv_dup(&items[k]);
        let ghost (sx, sa, si) = (gx, ga, gi);
        let res = call(gx, ga, gi);
        assert(call.ensures((sx, sa, si), res));
        assert(its[k - from] == items@[k as int]@);
        let ghost o = opt_view(res);
        assert(call_ok(call, func@, acc_at(acc0, outs, outs.len() as int), its[k - from], o));
        match res {
            Some(v) => {
                proof {
                    let no = outs.push(o);
                    assert forall|j: int| 0 <= j < no.len() implies #[trigger] call_ok(call, func@, acc_at(acc0, no, j), its[j], no[j]) by {
                        if j < outs.len() { assert(acc_at(acc0, no, j) == acc_at(acc0, outs, j)); }
                    }
                    outs = no;
                }
                cur = v;
            },
            None => {
                proof {
                    let no = outs.push(o);
                    assert forall|j: int| 0 <= j < no.len() implies #[trigger] call_ok(call, func@, acc_at(acc0, no, j), its[j], no[j]) by {
                        if j < outs.len() { assert(acc_at(acc0, no, j) == acc_at(acc0, outs, j)); }
                    }
                    assert(fold_result(acc0, no) == acc_at(acc0, outs, outs.len() as int));
                    assert forall|j: int| 0 <= j < no.len() - 1 implies #[trigger] no[j] is Some by {
                        assert(no[j] == outs[j]);
                    }
                    assert(no.last() is None);
                    assert(fold_valid(call, func@, acc0, its, no));
                    outs = no;
                }
                return (cur, Ghost(outs));
            },
        }
        k += 1;
    }
    (cur, Ghost(outs))
}

// ── reduce() ──

/// The items "reduce()" folds: a List's items, a String's characters (as
/// Strings), a Blob's bytes (as Numbers).
pub open spec fn reduce_items(t: TypVal) -> Seq<TypVal> {
    if t.ty == VarType::VAR_LIST {
        match t.v { VVal::List(Some(l)) => l.items, _ => Seq::empty() }
    } else if t.ty == VarType::VAR_STRING {
        Seq::new(utf8_split(string_or_empty(t)).len(), |i: int| str_tv(utf8_split(string_or_empty(t))[i]))
    } else {
        match t.v { VVal::Blob(Some(b)) => Seq::new(b.bytes.len(), |i: int| num_tv(b.bytes[i] as int)), _ => Seq::empty() }
    }
}

/// Whether the function argument names a function: a Partial's name, or
/// the String of any other value, is not empty.
pub open spec fn reduce_func_ok(f: TypVal) -> bool {
    match (f.ty, f.v) {
        (VarType::VAR_PARTIAL, VVal::Partial(Some(p))) => p.name.len() > 0,
        _ => string_or_empty(f).len() > 0,
    }
}

/// Whether "reduce()" folds at all: a String, a List or Blob that is not
/// null, a function, and an initial value of the right type (a String for
/// a String, a Number for a Blob) or, without one, at least one item.
pub open spec fn reduce_runs(args: Seq<typval_T>) -> bool {
    let t = args[0]@;
    &&& t.ty == VarType::VAR_STRING || t.ty == VarType::VAR_LIST || t.ty == VarType::VAR_BLOB
    &&& reduce_func_ok(args[1]@)
    &&& t.ty == VarType::VAR_LIST ==> (t.v is List && t.v->List_0 is Some)
    &&& t.ty == VarType::VAR_BLOB ==> (t.v is Blob && t.v->Blob_0 is Some)
    &&& if args.len() < 3 {
        reduce_items(t).len() > 0
    } else if t.ty == VarType::VAR_STRING {
        args[2].v_type == VarType::VAR_STRING
    } else if t.ty == VarType::VAR_BLOB {
        args[2].v_type == VarType::VAR_NUMBER
    } else {
        true
    }
}

/// The accumulator "reduce()" starts with: the initial value, else the first
/// item (for a Blob its byte as a Number in `rettv`).
pub open spec fn reduce_acc0(args: Seq<typval_T>, old_r: TypVal) -> TypVal {
    if args.len() >= 3 {
        args[2]@
    } else if args[0]@.ty == VarType::VAR_BLOB {
        with_num_typed(old_r, reduce_items(args[0]@)[0].v->Number_0)
    } else {
        reduce_items(args[0]@)[0]
    }
}

/// The items folded into the accumulator: all with an initial value, else
/// all but the first.
pub open spec fn reduce_fold_items(args: Seq<typval_T>) -> Seq<TypVal> {
    if args.len() >= 3 { reduce_items(args[0]@) } else { reduce_items(args[0]@).drop_first() }
}

/// What "reduce()" leaves in `rettv`.
pub open spec fn reduce_outcome<F: Fn(typval_T, typval_T, typval_T) -> Option<typval_T>>(
    call: &F, args: Seq<typval_T>, old_r: TypVal, new_r: TypVal,
) -> bool {
    if !reduce_runs(args) {
        new_r == old_r
    } else {
        exists|outs: Seq<Option<TypVal>>|
            #![trigger fold_valid(call, args[1]@, reduce_acc0(args, old_r), reduce_fold_items(args), outs)]
            fold_valid(call, args[1]@, reduce_acc0(args, old_r), reduce_fold_items(args), outs)
            && new_r == fold_result(reduce_acc0(args, old_r), outs)
    }
}

fn reduce_list<F: Fn(typval_T, typval_T, typval_T) -> Option<typval_T>>(argvars: &[typval_T], call: &F, rettv: &mut typval_T)
    requires
        argvars@.len() >= 2, argvars@[0]@.ty == VarType::VAR_LIST, reduce_func_ok(argvars@[1]@),
        forall|x: typval_T, a: typval_T, i: typval_T| #[trigger] call.requires((x, a, i)),
    ensures reduce_outcome(call, argvars@, old(rettv)@, final(rettv)@),
{
    let l = match &argvars[0].vval {
        typval_vval_union::v_list(Some(l)) => l,
        _ => { return; },
    };
    proof { lemma_items_view_index_all(l.lv_items@); }
    let (acc, from): (typval_T, usize) = if argvars.len() < 3 {
        if l.lv_items.len() == 0 {
            return;
        }
        (tv_dup(&l.lv_items[0]), 1)
    } else {
        (tv_dup(&argvars[2]), 0)
    };
    let ghost acc0 = acc@;
    let (r, Ghost(outs)) = fold_items(call, &argvars[1], acc, &l.lv_items, from);
    assert(items_view(l.lv_items@).subrange(from as int, l.lv_items@.len() as int) =~= reduce_fold_items(argvars@));
    assert(acc0 == reduce_acc0(argvars@, old(rettv)@));
    assert(fold_valid(call, argvars@[1]@, reduce_acc0(argvars@, old(rettv)@), reduce_fold_items(argvars@), outs));
    *rettv = r;
}

fn reduce_string<F: Fn(typval_T, typval_T, typval_T) -> Option<typval_T>>(argvars: &[typval_T], call: &F, rettv: &mut typval_T)
    requires
        argvars@.len() >= 2, argvars@[0]@.ty == VarType::VAR_STRING, reduce_func_ok(argvars@[1]@),
        forall|x: typval_T, a: typval_T, i: typval_T| #[trigger] call.requires((x, a, i)),
    ensures reduce_outcome(call, argvars@, old(rettv)@, final(rettv)@),
{
    let s = tv_get_string(&argvars[0]);
    let cs = utf8_chars(s.as_slice());
    let mut items: Vec<typval_T> = Vec::new();
    let mut i: usize = 0;
    while i < cs.len()
        invariant
            i <= cs@.len(), items@.len() == i, cs@.len() == utf8_split(s@).len(),
            forall|k: int| 0 <= k < cs@.len() ==> #[trigger] cs@[k]@ == utf8_split(s@)[k],
            forall|k: int| 0 <= k < i ==> #[trigger] items@[k]@ == str_tv(utf8_split(s@)[k]),
        decreases cs.len() - i,
    {
        items.push(str_value(bytes_copy(&cs[i])));
        i += 1;
    }
    proof {
        lemma_items_view_index_all(items@);
        assert forall|k: int| 0 <= k < items@.len() implies #[trigger] items_view(items@)[k] == reduce_items(argvars@[0]@)[k] by {
            assert(items@[k]@ == str_tv(utf8_split(s@)[k]));
        }
        assert(items_view(items@) =~= reduce_items(argvars@[0]@));
    }
    let (acc, from): (typval_T, usize) = if argvars.len() < 3 {
        if items.len() == 0 {
            return;
        }
        (tv_dup(&items[0]), 1)
    } else {
        if tv_check_for_string_arg(argvars, 2) == FAIL {
            return;
        }
        (tv_dup(&argvars[2]), 0)
    };
    let ghost acc0 = acc@;
    let (r, Ghost(outs)) = fold_items(call, &argvars[1], acc, &items, from);
    assert(items_view(items@).subrange(from as int, items@.len() as int) =~= reduce_fold_items(argvars@));
    assert(acc0 == reduce_acc0(argvars@, old(rettv)@));
    assert(fold_valid(call, argvars@[1]@, reduce_acc0(argvars@, old(rettv)@), reduce_fold_items(argvars@), outs));
    *rettv = r;
}

fn reduce_blob<F: Fn(typval_T, typval_T, typval_T) -> Option<typval_T>>(argvars: &[typval_T], call: &F, rettv: &mut typval_T)
    requires
        argvars@.len() >= 2, argvars@[0]@.ty == VarType::VAR_BLOB, reduce_func_ok(argvars@[1]@),
        forall|x: typval_T, a: typval_T, i: typval_T| #[trigger] call.requires((x, a, i)),
    ensures reduce_outcome(call, argvars@, old(rettv)@, final(rettv)@),
{
    let b = match &argvars[0].vval {
        typval_vval_union::v_blob(Some(b)) => b,
        _ => { return; },
    };
    let mut items: Vec<typval_T> = Vec::new();
    let mut i: usize = 0;
    while i < b.bv_ga.len()
        invariant
            i <= b.bv_ga@.len(), items@.len() == i,
            forall|k: int| 0 <= k < i ==> #[trigger] items@[k]@ == num_tv(b@.bytes[k] as int),
        decreases b.bv_ga.len() - i,
    {
        items.push(num_value(b.bv_ga[i] as i64));
        i += 1;
    }
    proof {
        lemma_items_view_index_all(items@);
        assert forall|k: int| 0 <= k < items@.len() implies #[trigger] items_view(items@)[k] == reduce_items(argvars@[0]@)[k] by {
            assert(items@[k]@ == num_tv(b@.bytes[k] as int));
        }
        assert(items_view(items@) =~= reduce_items(argvars@[0]@));
    }
    let (acc, from): (typval_T, usize) = if argvars.len() < 3 {
        if b.bv_ga.len() == 0 {
            return;
        }
        (typval_T { v_type: VarType::VAR_NUMBER, v_lock: rettv.v_lock, vval: typval_vval_union::v_number(b.bv_ga[0] as i64) }, 1)
    } else {
        if tv_check_for_number_arg(argvars, 2) == FAIL {
            return;
        }
        (tv_dup(&argvars[2]), 0)
    };
    let ghost acc0 = acc@;
    let (r, Ghost(outs)) = fold_items(call, &argvars[1], acc, &items, from);
    assert(items_view(items@).subrange(from as int, items@.len() as int) =~= reduce_fold_items(argvars@));
    assert(acc0 == reduce_acc0(argvars@, old(rettv)@));
    assert(fold_valid(call, argvars@[1]@, reduce_acc0(argvars@, old(rettv)@), reduce_fold_items(argvars@), outs));
    *rettv = r;
}

/// "reduce({object}, {func} [, {initial}])": fold the items of a List, the
/// characters of a String or the bytes of a Blob into an accumulator,
/// asking `call` for `{func}(acc, item)` each time; at the first call that
/// fails the fold stops with the accumulator it had (see `reduce_outcome`).
pub fn f_reduce<F: Fn(typval_T, typval_T, typval_T) -> Option<typval_T>>(argvars: &[typval_T], rettv: &mut typval_T, call: &F)
    requires
        argvars@.len() >= 2,
        forall|x: typval_T, a: typval_T, i: typval_T| #[trigger] call.requires((x, a, i)),
    ensures reduce_outcome(call, argvars@, old(rettv)@, final(rettv)@),
{
    let t = argvars[0].v_type;
    if !(t == VarType::VAR_STRING || t == VarType::VAR_LIST || t == VarType::VAR_BLOB) {
        return;
    }
    let name_empty = match (&argvars[1].v_type, &argvars[1].vval) {
        (VarType::VAR_PARTIAL, typval_vval_union::v_partial(Some(p))) => p.pt_name.len() == 0,
        _ => tv_get_string(&argvars[1]).len() == 0,
    };
    if name_empty {
        return;
    }
    if t == VarType::VAR_LIST {
        reduce_list(argvars, call, rettv);
    } else if t == VarType::VAR_STRING {
        reduce_string(argvars, call, rettv);
    } else {
        reduce_blob(argvars, call, rettv);
    }
}

// ── indexof() ──

/// Whether an answer of the evaluator counts as true: a value whose Number
/// is not zero (a value that is no Number counts as true).
pub open spec fn truthy(out: Option<TypVal>) -> bool {
    match out { Some(r) => number_chk_result(r, false) != 0, None => false }
}

/// Whether `out` is what `eval` may give for `expr` with `v:key` set to
/// `key` and `v:val` to `val`.
pub open spec fn eval_ok<E: Fn(typval_T, typval_T, typval_T) -> Option<typval_T>>(
    eval: &E, expr: TypVal, key: TypVal, val: TypVal, out: Option<TypVal>,
) -> bool {
    exists|x: typval_T, k: typval_T, v: typval_T, res: Option<typval_T>|
        #![trigger eval.ensures((x, k, v), res)]
        x@ == expr && k@ == key && v@ == val && eval.ensures((x, k, v), res) && out == opt_view(res)
}

/// Whether `outs` are the answers for the items from `start` on, up to the
/// first that is true.
pub open spec fn scan_valid<E: Fn(typval_T, typval_T, typval_T) -> Option<typval_T>>(
    eval: &E, expr: TypVal, vals: Seq<TypVal>, start: int, outs: Seq<Option<TypVal>>,
) -> bool {
    &&& 0 <= start && start + outs.len() <= vals.len()
    &&& forall|j: int| 0 <= j < outs.len() - 1 ==> !truthy(#[trigger] outs[j])
    &&& start + outs.len() < vals.len() ==> outs.len() > 0 && truthy(outs.last())
    &&& forall|j: int| 0 <= j < outs.len() ==> #[trigger] eval_ok(eval, expr, num_tv(start + j), vals[start + j], outs[j])
}

/// The index found: that of the last answer when it is true, else -1.
pub open spec fn scan_result(start: int, outs: Seq<Option<TypVal>>) -> int {
    if outs.len() > 0 && truthy(outs.last()) { start + outs.len() - 1 } else { -1 }
}

fn truthy_exec(r: &Option<typval_T>) -> (b: bool)
    ensures b == truthy(opt_view(*r)),
{
    match r {
        Some(v) => tv_get_number_chk(v, None) != 0,
        None => false,
    }
}

/// Ask `eval` about the items from `start` on until one is true.
fn scan_items<E: Fn(typval_T, typval_T, typval_T) -> Option<typval_T>>(
    eval: &E, expr: &typval_T, vals: &Vec<typval_T>, start: usize,
) -> (r: (i64, Ghost<Seq<Option<TypVal>>>))
    requires
        start <= vals@.len(), vals@.len() < i64::MAX,
        forall|x: typval_T, k: typval_T, v: typval_T| #[trigger] eval.requires((x, k, v)),
    ensures
        scan_valid(eval, expr@, items_view(vals@), start as int, r.1@),
        r.0 as int == scan_result(start as int, r.1@),
{
    proof { lemma_items_view_index_all(vals@); }
    let ghost vs = items_view(vals@);
    let ghost mut outs: Seq<Option<TypVal>> = Seq::empty();
    let mut idx: usize = start;
    while idx < vals.len()
        invariant
            start <= idx <= vals@.len(), vals@.len() < i64::MAX, outs.len() == idx - start,
            vs == items_view(vals@), vs.len() == vals@.len(),
            forall|j: int| 0 <= j < vals@.len() ==> #[trigger] vs[j] == vals@[j]@,
            forall|x: typval_T, k: typval_T, v: typval_T| #[trigger] eval.requires((x, k, v)),
            forall|j: int| 0 <= j < outs.len() ==> !truthy(#[trigger] outs[j]),
            forall|j: int| 0 <= j < outs.len() ==> #[trigger] eval_ok(eval, expr@, num_tv(start + j), vs[start + j], outs[j]),
        decreases vals.len() - idx,
    {
        let gx = tv_dup(expr);
        let gk = num_value(idx as i64);
        let gv = tv_dup(&vals[idx]);
        let ghost (sx, sk, sv) = (gx, gk, gv);
        let res = eval(gx, gk, gv);
        assert(eval.ensures((sx, sk, sv), res));
        let ghost o = opt_view(res);
        assert(eval_ok(eval, expr@, num_tv(start + outs.len()), vs[start + outs.len()], o));
        let t = truthy_exec(&res);
        proof {
            let no = outs.push(o);
            assert forall|j: int| 0 <= j < no.len() implies #[trigger] eval_ok(eval, expr@, num_tv(start + j), vs[start + j], no[j]) by {
                if j < outs.len() { assert(no[j] == outs[j]); }
            }
            assert forall|j: int| 0 <= j < no.len() - 1 implies !truthy(#[trigger] no[j]) by {
                assert(no[j] == outs[j]);
            }
            outs = no;
        }
        if t {
            return (idx as i64, Ghost(outs));
        }
        idx += 1;
    }
    (-1, Ghost(outs))
}

/// Where the scan of a List of `len` items starts for `startidx`: 0 for 0,
/// else the item it names (counting from the end when negative); `len`
/// (no scan) when there is no such item.
pub open spec fn list_scan_start(len: int, si: int) -> int {
    if si == 0 {
        0
    } else {
        let s = if si < 0 { si + len } else { si };
        if s < 0 || s >= len { len } else { s }
    }
}

/// Where the scan of a Blob of `len` bytes starts for `startidx`: counting
/// from the end when negative, at least 0, at most `len` (no scan).
pub open spec fn blob_scan_start(len: int, si: int) -> int {
    let s = if si < 0 { if si + len < 0 { 0 } else { si + len } } else { si };
    if s > len { len } else { s }
}

/// The "startidx" of the options Dict, or 0.
pub open spec fn indexof_startidx(args: Seq<typval_T>) -> int {
    if args.len() > 2 && args[2]@.ty == VarType::VAR_DICT {
        match args[2]@.v {
            VVal::Dict(Some(d)) => match crate::typval_dict::dict_get(d, startidx_k()) {
                Some(v) => number_chk_result(v, true),
                None => 0,
            },
            _ => 0,
        }
    } else {
        0
    }
}

/// The key "startidx".
pub open spec fn startidx_k() -> Seq<u8> { seq![115u8, 116, 97, 114, 116, 105, 100, 120] }

/// The items "indexof()" searches and where it starts, or `None` when it
/// searches nothing.
pub open spec fn indexof_scan(args: Seq<typval_T>) -> Option<(Seq<TypVal>, int)> {
    let t = args[0]@;
    let e = args[1]@;
    if e.ty == VarType::VAR_STRING && string_or_empty(e).len() == 0 {
        None
    } else if t.ty == VarType::VAR_LIST && t.v is List && t.v->List_0 is Some {
        let items = t.v->List_0->Some_0.items;
        Some((items, list_scan_start(items.len() as int, indexof_startidx(args))))
    } else if t.ty == VarType::VAR_BLOB && t.v is Blob && t.v->Blob_0 is Some {
        let bytes = t.v->Blob_0->Some_0.bytes;
        Some((Seq::new(bytes.len(), |i: int| num_tv(bytes[i] as int)), blob_scan_start(bytes.len() as int, indexof_startidx(args))))
    } else {
        None
    }
}

/// What "indexof()" gives, given the evaluator's answers.
pub open spec fn indexof_outcome<E: Fn(typval_T, typval_T, typval_T) -> Option<typval_T>>(
    eval: &E, args: Seq<typval_T>, new_r: TypVal,
) -> bool {
    match indexof_scan(args) {
        None => new_r == num_tv(-1),
        Some((vals, start)) => exists|outs: Seq<Option<TypVal>>|
            #![trigger scan_valid(eval, args[1]@, vals, start, outs)]
            scan_valid(eval, args[1]@, vals, start, outs) && new_r == num_tv(scan_result(start, outs)),
    }
}

/// The "startidx" option.
fn get_startidx(argvars: &[typval_T]) -> (r: i64)
    ensures r as int == indexof_startidx(argvars@),
{
    if argvars.len() > 2 && argvars[2].v_type == VarType::VAR_DICT {
        match &argvars[2].vval {
            typval_vval_union::v_dict(Some(d)) => {
                let k: [u8; 8] = [115u8, 116, 97, 114, 116, 105, 100, 120];
                assert(k@ =~= startidx_k());
                match crate::typval_dict::tv_dict_find(d, &k) {
                    Some(v) => tv_get_number(v),
                    None => 0,
                }
            },
            _ => 0,
        }
    } else {
        0
    }
}

/// "indexof({object}, {expr} [, {opts}])": the index of the first item of a
/// List or Blob (from the "startidx" option on) for which `eval` finds
/// `{expr}` true with `v:key` and `v:val` set, or -1 (see
/// `indexof_outcome`).
pub fn f_indexof<E: Fn(typval_T, typval_T, typval_T) -> Option<typval_T>>(argvars: &[typval_T], rettv: &mut typval_T, eval: &E)
    requires
        argvars@.len() >= 2,
        forall|x: typval_T, k: typval_T, v: typval_T| #[trigger] eval.requires((x, k, v)),
        match indexof_scan(argvars@) { Some((vals, _)) => vals.len() < i64::MAX, None => true },
    ensures indexof_outcome(eval, argvars@, final(rettv)@),
{
    *rettv = num_value(-1);
    if argvars[1].v_type == VarType::VAR_STRING && tv_get_string(&argvars[1]).len() == 0 {
        return;
    }
    let si = get_startidx(argvars);
    match (&argvars[0].v_type, &argvars[0].vval) {
        (VarType::VAR_LIST, typval_vval_union::v_list(Some(l))) => {
            proof { lemma_items_view_index_all(l.lv_items@); }
            let len = l.lv_items.len() as i64;
            let start: usize = if si == 0 {
                0
            } else {
                let s = if si < 0 { si + len } else { si };
                if s < 0 || s >= len { l.lv_items.len() } else { s as usize }
            };
            let (found, Ghost(outs)) = scan_items(eval, &argvars[1], &l.lv_items, start);
            *rettv = num_value(found);
        },
        (VarType::VAR_BLOB, typval_vval_union::v_blob(Some(b))) => {
            let mut vals: Vec<typval_T> = Vec::new();
            let mut i: usize = 0;
            while i < b.bv_ga.len()
                invariant
                    i <= b.bv_ga@.len(), vals@.len() == i,
                    forall|k: int| 0 <= k < i ==> #[trigger] vals@[k]@ == num_tv(b@.bytes[k] as int),
                decreases b.bv_ga.len() - i,
            {
                vals.push(num_value(b.bv_ga[i] as i64));
                i += 1;
            }
            proof {
                lemma_items_view_index_all(vals@);
                assert forall|k: int| 0 <= k < vals@.len() implies #[trigger] items_view(vals@)[k] == num_tv(b@.bytes[k] as int) by {
                    assert(vals@[k]@ == num_tv(b@.bytes[k] as int));
                }
                assert(items_view(vals@) =~= Seq::new(b@.bytes.len(), |i: int| num_tv(b@.bytes[i] as int)));
            }
            let len = vals.len() as i64;
            let s: i64 = if si < 0 { if si + len < 0 { 0 } else { si + len } } else { si };
            let start: usize = if s > len { vals.len() } else { s as usize };
            let (found, Ghost(outs)) = scan_items(eval, &argvars[1], &vals, start);
            *rettv = num_value(found);
        },
        _ => {},
    }
}

} // verus!
