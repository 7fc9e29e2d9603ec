//! "sort()" and "uniq()": how their arguments choose the comparison, the
//! stable insertion of each item among those sorted before it, and the
//! dropping of repeated neighbours. How two items compare in the modes that
//! need floating point, the locale, the text of a value or a user function
//! is handed in by the caller; Number comparison is done here.

use vstd::prelude::*;
use vstd::multiset::Multiset;
use crate::typval_defs::{typval_T, typval_vval_union, list_T, TypVal, VVal, ListVal, VarType, VarLockStatus, items_view};
use crate::typval::{string_or_empty, number_of, number_chk_result, tv_get_string, tv_get_number_chk, tv_get_number};
use crate::typval_check::tv_check_for_dict_arg;
use crate::typval_copy::{value_check_lock, lock_error, TV_TRANSLATE};
use crate::typval_list::lemma_items_view_index_all;
use crate::dup::tv_dup;
use crate::funcs_basic::{first_arg_set, replace_first, list_with_items};
use crate::message::{emsg, msgs_view, after_report, msg_e474, msg_e474_exec, msg_e686_sort, msg_e686_sort_exec,
    msg_e686_uniq, msg_e686_uniq_exec, msg_e702, msg_e702_exec, msg_e882, msg_e882_exec,
    msg_sort_arg, msg_sort_arg_exec, msg_uniq_arg, msg_uniq_arg_exec};

verus! {

/// How items are compared: ignoring case, by the locale, as numbers read
/// from their text, as Numbers, as Floats, or by a user function.
pub struct SortInfo {
    pub ic: bool,
    pub lc: bool,
    pub numeric: bool,
    pub numbers: bool,
    pub float: bool,
    pub func: Option<Vec<u8>>,
}

pub struct SortInfoV {
    pub ic: bool,
    pub lc: bool,
    pub numeric: bool,
    pub numbers: bool,
    pub float: bool,
    pub func: Option<Seq<u8>>,
}

impl View for SortInfo {
    type V = SortInfoV;
    open spec fn view(&self) -> SortInfoV {
        SortInfoV {
            ic: self.ic, lc: self.lc, numeric: self.numeric, numbers: self.numbers, float: self.float,
            func: match self.func { Some(f) => Some(f@), None => None },
        }
    }
}

pub open spec fn no_info() -> SortInfoV {
    SortInfoV { ic: false, lc: false, numeric: false, numbers: false, float: false, func: None }
}

/// The one-letter names of the built-in orders.
pub open spec fn name_info(f: Seq<u8>, info: SortInfoV) -> SortInfoV {
    if f.len() == 0 { SortInfoV { func: None, ..info } }
    else if f == seq![110u8] { SortInfoV { func: None, numeric: true, ..info } }
    else if f == seq![78u8] { SortInfoV { func: None, numbers: true, ..info } }
    else if f == seq![102u8] { SortInfoV { func: None, float: true, ..info } }
    else if f == seq![105u8] { SortInfoV { func: None, ic: true, ..info } }
    else if f == seq![108u8] { SortInfoV { func: None, lc: true, ..info } }
    else { SortInfoV { func: Some(f), ..info } }
}

/// What the arguments after the List ask for: `Err` with the error to
/// report (if any) when they are refused. A Funcref names a function; the
/// Number 1 ignores case; a String names a function or one of "n", "N",
/// "f", "i", "l"; 0 is the default; any other Number is E474. A third
/// argument must be a Dictionary.
pub open spec fn parse_spec(args: Seq<typval_T>) -> Result<SortInfoV, Option<Seq<u8>>> {
    if args.len() < 2 {
        Ok(no_info())
    } else {
        let a1 = args[1]@;
        let first: Result<SortInfoV, Option<Seq<u8>>> = if a1.ty == VarType::VAR_FUNC {
            Ok(SortInfoV { func: Some(string_or_empty(a1)), ..no_info() })
        } else if number_of(a1) is None {
            Err(None)
        } else {
            let nr = (number_chk_result(a1, true) as i32) as int;
            let i = if nr == 1 { Ok(SortInfoV { ic: true, ..no_info() }) }
                else if a1.ty != VarType::VAR_NUMBER { Ok(SortInfoV { func: Some(string_or_empty(a1)), ..no_info() }) }
                else if nr != 0 { Err(Some(msg_e474())) }
                else { Ok(no_info()) };
            match i {
                Ok(v) => match v.func { Some(f) => Ok(name_info(f, v)), None => Ok(v) },
                Err(e) => Err(e),
            }
        };
        match first {
            Ok(v) => if args.len() > 2 && args[2].v_type != VarType::VAR_DICT { Err(None) } else { Ok(v) },
            Err(e) => Err(e),
        }
    }
}

fn is_name(f: &Vec<u8>, c: u8) -> (r: bool)
    ensures r == (f@ == seq![c]),
{
    let r = f.len() == 1 && f[0] == c;
    proof { if f@.len() == 1 && f@[0] == c { assert(f@ =~= seq![c]); } }
    r
}

fn name_info_exec(f: Vec<u8>, info: SortInfo) -> (r: SortInfo)
    ensures r@ == name_info(f@, info@),
{
    let SortInfo { ic, lc, numeric, numbers, float, func: _ } = info;
    if f.len() == 0 { SortInfo { ic, lc, numeric, numbers, float, func: None } }
    else if is_name(&f, 110u8) { SortInfo { ic, lc, numeric: true, numbers, float, func: None } }
    else if is_name(&f, 78u8) { SortInfo { ic, lc, numeric, numbers: true, float, func: None } }
    else if is_name(&f, 102u8) { SortInfo { ic, lc, numeric, numbers, float: true, func: None } }
    else if is_name(&f, 105u8) { SortInfo { ic: true, lc, numeric, numbers, float, func: None } }
    else if is_name(&f, 108u8) { SortInfo { ic, lc: true, numeric, numbers, float, func: None } }
    else { SortInfo { ic, lc, numeric, numbers, float, func: Some(f) } }
}

fn no_info_exec() -> (r: SortInfo)
    ensures r@ == no_info(),
{
    SortInfo { ic: false, lc: false, numeric: false, numbers: false, float: false, func: None }
}

pub open spec fn parse_view(r: Result<SortInfo, Option<Vec<u8>>>) -> Result<SortInfoV, Option<Seq<u8>>> {
    match r {
        Ok(i) => Ok(i@),
        Err(e) => Err(match e { Some(m) => Some(m@), None => None }),
    }
}

/// Read the arguments of "sort()" and "uniq()" after the List.
pub fn parse_sort_uniq_args(argvars: &[typval_T]) -> (r: Result<SortInfo, Option<Vec<u8>>>)
    ensures parse_view(r) == parse_spec(argvars@),
{
    if argvars.len() < 2 {
        return Ok(no_info_exec());
    }
    let a1 = &argvars[1];
    let first: Result<SortInfo, Option<Vec<u8>>> = if a1.v_type == VarType::VAR_FUNC {
        Ok(SortInfo { func: Some(tv_get_string(a1)), ..no_info_exec() })
    } else {
        let mut error = false;
        let n = tv_get_number_chk(a1, Some(&mut error));
        if error {
            Err(None)
        } else {
            let nr = n as i32;
            let i: Result<SortInfo, Option<Vec<u8>>> = if nr == 1 {
                Ok(SortInfo { ic: true, ..no_info_exec() })
            } else if a1.v_type != VarType::VAR_NUMBER {
                Ok(SortInfo { func: Some(tv_get_string(a1)), ..no_info_exec() })
            } else if nr != 0 {
                Err(Some(msg_e474_exec()))
            } else {
                Ok(no_info_exec())
            };
            match i {
                Ok(v) => {
                    let SortInfo { ic, lc, numeric, numbers, float, func } = v;
                    match func {
                        Some(f) => Ok(name_info_exec(f, SortInfo { ic, lc, numeric, numbers, float, func: None })),
                        None => Ok(SortInfo { ic, lc, numeric, numbers, float, func: None }),
                    }
                },
                Err(e) => Err(e),
            }
        }
    };
    match first {
        Ok(v) => {
            if argvars.len() > 2 && tv_check_for_dict_arg(argvars, 2) == 0 {
                Err(None)
            } else {
                Ok(v)
            }
        },
        Err(e) => Err(e),
    }
}

/// A comparison the caller hands in: it may be asked about any two items,
/// and answers one way for the same mode and items (`None`: it failed).
pub open spec fn compare_ok<C: Fn(&SortInfo, &typval_T, &typval_T) -> Option<i32>>(c: C) -> bool {
    &&& forall|x: (&SortInfo, &typval_T, &typval_T)| call_requires(c, x)
    &&& forall|x1: (&SortInfo, &typval_T, &typval_T), x2: (&SortInfo, &typval_T, &typval_T), r1: Option<i32>, r2: Option<i32>|
            x1.0@ == x2.0@ && x1.1@ == x2.1@ && x1.2@ == x2.2@ && call_ensures(c, x1, r1) && call_ensures(c, x2, r2) ==> r1 == r2
}

/// The caller's answer for items `a` and `b` in mode `info`.
pub open spec fn compare_of<C: Fn(&SortInfo, &typval_T, &typval_T) -> Option<i32>>(c: C, info: SortInfoV, a: TypVal, b: TypVal) -> Option<int> {
    let p = choose|p: ((&SortInfo, &typval_T, &typval_T), Option<i32>)|
        p.0.0@ == info && p.0.1@ == a && p.0.2@ == b && #[trigger] call_ensures(c, p.0, p.1);
    match p.1 { Some(v) => Some(v as int), None => None }
}

/// How `a` compares with `b`: as Numbers in the Numbers mode (0 for an item
/// that is no Number), else as the caller answers.
pub open spec fn item_compare<C: Fn(&SortInfo, &typval_T, &typval_T) -> Option<i32>>(c: C, info: SortInfoV, a: TypVal, b: TypVal) -> Option<int> {
    if info.numbers {
        let x = number_chk_result(a, true);
        let y = number_chk_result(b, true);
        Some(if x == y { 0 } else if x > y { 1 } else { -1 })
    } else {
        compare_of(c, info, a, b)
    }
}

fn item_compare_exec<C: Fn(&SortInfo, &typval_T, &typval_T) -> Option<i32>>(c: &C, info: &SortInfo, a: &typval_T, b: &typval_T) -> (r: Option<i32>)
    requires compare_ok(*c),
    ensures match r { Some(v) => item_compare(*c, info@, a@, b@) == Some(v as int), None => item_compare(*c, info@, a@, b@) is None },
{
    if info.numbers {
        let x = tv_get_number(a);
        let y = tv_get_number(b);
        return Some(if x == y { 0 } else if x > y { 1 } else { -1 });
    }
    let r = c(info, a, b);
    proof {
        let p = ((info, a, b), r);
        assert(call_ensures(*c, p.0, p.1));
    }
    r
}

/// `x` put into `s` before the items from `j` on that compare above it,
/// asking from position `j` down; `None` when a comparison fails.
pub open spec fn ins_spec<C: Fn(&SortInfo, &typval_T, &typval_T) -> Option<i32>>(
    c: C, info: SortInfoV, s: Seq<TypVal>, x: TypVal, j: int,
) -> Option<Seq<TypVal>>
    decreases j,
{
    if j <= 0 {
        Some(s.insert(0, x))
    } else {
        match item_compare(c, info, s[j - 1], x) {
            None => None,
            Some(r) => if r > 0 { ins_spec(c, info, s, x, j - 1) } else { Some(s.insert(j, x)) },
        }
    }
}

/// The first `n` items sorted by inserting each after those that do not
/// compare above it; `None` when a comparison fails.
pub open spec fn isort_spec<C: Fn(&SortInfo, &typval_T, &typval_T) -> Option<i32>>(
    c: C, info: SortInfoV, items: Seq<TypVal>, n: int,
) -> Option<Seq<TypVal>>
    decreases n,
{
    if n <= 0 {
        Some(Seq::empty())
    } else {
        match isort_spec(c, info, items, n - 1) {
            None => None,
            Some(s) => ins_spec(c, info, s, items[n - 1], s.len() as int),
        }
    }
}

/// Once a comparison has failed, sorting more items fails too.
pub proof fn lemma_isort_none<C: Fn(&SortInfo, &typval_T, &typval_T) -> Option<i32>>(
    c: C, info: SortInfoV, items: Seq<TypVal>, m: int, n: int,
)
    requires 0 <= m <= n, isort_spec(c, info, items, m) is None,
    ensures isort_spec(c, info, items, n) is None,
    decreases n - m,
{
    if n > m {
        lemma_isort_none(c, info, items, m, n - 1);
    }
}

/// Sort `items` (see `isort_spec`).
pub fn sort_items<C: Fn(&SortInfo, &typval_T, &typval_T) -> Option<i32>>(items: &Vec<typval_T>, info: &SortInfo, c: &C) -> (r: Option<Vec<typval_T>>)
    requires compare_ok(*c),
    ensures
        match r {
            Some(v) => isort_spec(*c, info@, items_view(items@), items@.len() as int) == Some(items_view(v@)),
            None => isort_spec(*c, info@, items_view(items@), items@.len() as int) is None,
        },
{
    let ghost iv = items_view(items@);
    proof { lemma_items_view_index_all(items@); }
    let mut out: Vec<typval_T> = Vec::new();
    let mut k: usize = 0;
    assert(items_view(out@) =~= Seq::<TypVal>::empty());
    while k < items.len()
        invariant
            compare_ok(*c), k <= items@.len(), iv == items_view(items@), iv.len() == items@.len(),
            out@.len() == k,
            isort_spec(*c, info@, iv, k as int) == Some(items_view(out@)),
        decreases items@.len() - k,
    {
        let x = tv_dup(&items[k]);
        assert(x@ == iv[k as int]);
        let ghost s = items_view(out@);
        proof { lemma_items_view_index_all(out@); }
        let mut j: usize = out.len();
        let mut placed = false;
        while j > 0 && !placed
            invariant
                compare_ok(*c), j <= out@.len(), s == items_view(out@), s.len() == out@.len(),
                k < items@.len(), iv == items_view(items@), x@ == iv[k as int],
                isort_spec(*c, info@, iv, k as int) == Some(s),
                placed ==> ins_spec(*c, info@, s, x@, s.len() as int) == Some(s.insert(j as int, x@)),
                !placed ==> ins_spec(*c, info@, s, x@, s.len() as int) == ins_spec(*c, info@, s, x@, j as int),
            decreases j, (if placed { 0int } else { 1int }),
        {
            proof { lemma_items_view_index_all(out@); }
            match item_compare_exec(c, info, &out[j - 1], &x) {
                None => {
                    proof {
                        assert(isort_spec(*c, info@, iv, k + 1) is None);
                        lemma_isort_none(*c, info@, iv, k + 1, iv.len() as int);
                    }
                    return None;
                },
                Some(v) => {
                    if v > 0 {
                        j = j - 1;
                    } else {
                        placed = true;
                    }
                },
            }
        }
        proof { lemma_items_view_index_all(out@); }
        out.insert(j, x);
        proof {
            lemma_items_view_index_all(out@);
            assert(items_view(out@) =~= s.insert(j as int, iv[k as int]));
        }
        k = k + 1;
    }
    Some(out)
}

/// Dropping each item that compares equal to the last one kept, from item
/// `i` on after `out` was kept; when a comparison fails, the rest is kept
/// as it is and the failure is flagged.
pub open spec fn uniq_spec<C: Fn(&SortInfo, &typval_T, &typval_T) -> Option<i32>>(
    c: C, info: SortInfoV, items: Seq<TypVal>, i: int, out: Seq<TypVal>,
) -> (Seq<TypVal>, bool)
    decreases items.len() - i,
{
    if i < 0 || i >= items.len() {
        (out, false)
    } else if out.len() == 0 {
        uniq_spec(c, info, items, i + 1, out.push(items[i]))
    } else {
        match item_compare(c, info, out.last(), items[i]) {
            None => (out + items.subrange(i, items.len() as int), true),
            Some(r) => if r == 0 { uniq_spec(c, info, items, i + 1, out) } else { uniq_spec(c, info, items, i + 1, out.push(items[i])) },
        }
    }
}

/// Drop repeated neighbours of `items` (see `uniq_spec`); the flag tells
/// whether a comparison failed.
pub fn uniq_items<C: Fn(&SortInfo, &typval_T, &typval_T) -> Option<i32>>(items: &Vec<typval_T>, info: &SortInfo, c: &C) -> (r: (Vec<typval_T>, bool))
    requires compare_ok(*c),
    ensures uniq_spec(*c, info@, items_view(items@), 0, Seq::empty()) == (items_view(r.0@), r.1),
{
    let ghost iv = items_view(items@);
    proof { lemma_items_view_index_all(items@); }
    let mut out: Vec<typval_T> = Vec::new();
    let mut i: usize = 0;
    assert(items_view(out@) =~= Seq::<TypVal>::empty());
    while i < items.len()
        invariant
            compare_ok(*c), i <= items@.len(), iv == items_view(items@), iv.len() == items@.len(),
            uniq_spec(*c, info@, iv, 0, Seq::empty()) == uniq_spec(*c, info@, iv, i as int, items_view(out@)),
        decreases items@.len() - i,
    {
        proof { lemma_items_view_index_all(out@); }
        let ghost ov = items_view(out@);
        if out.len() == 0 {
            out.push(tv_dup(&items[i]));
            proof { lemma_items_view_index_all(out@); assert(items_view(out@) =~= ov.push(iv[i as int])); }
        } else {
            let last = out.len() - 1;
            match item_compare_exec(c, info, &out[last], &items[i]) {
                None => {
                    let mut k: usize = i;
                    while k < items.len()
                        invariant
                            i <= k <= items@.len(), iv == items_view(items@), iv.len() == items@.len(),
                            items_view(out@) == ov + iv.subrange(i as int, k as int),
                        decreases items@.len() - k,
                    {
                        let ghost before = items_view(out@);
                        out.push(tv_dup(&items[k]));
                        proof {
                            lemma_items_view_index_all(out@);
                            lemma_items_view_index_all(items@);
                            assert(items_view(out@) =~= before.push(iv[k as int]));
                            assert(items_view(out@) =~= ov + iv.subrange(i as int, k + 1));
                        }
                        k = k + 1;
                    }
                    return (out, true);
                },
                Some(v) => {
                    if v != 0 {
                        out.push(tv_dup(&items[i]));
                        proof { lemma_items_view_index_all(out@); assert(items_view(out@) =~= ov.push(iv[i as int])); }
                    }
                },
            }
        }
        i = i + 1;
    }
    (out, false)
}

/// The value `r` made the List `v`.
pub open spec fn ret_list(r: TypVal, v: VVal) -> TypVal {
    TypVal { ty: VarType::VAR_LIST, v, ..r }
}

fn set_ret_list(rettv: &mut typval_T, v: typval_vval_union)
    ensures final(rettv)@ == ret_list(old(rettv)@, v@),
{
    rettv.v_type = VarType::VAR_LIST;
    rettv.vval = v;
}

/// The name a lock error of "sort()" or "uniq()" shows.
pub open spec fn arg_name(sort: bool) -> Seq<u8> {
    if sort { msg_sort_arg() } else { msg_uniq_arg() }
}

/// What "sort()" (`sort`) or "uniq()" does: the new first argument, the
/// result, and the error reported. A first argument that is no List is
/// E686; a locked List is a lock error; a List of at most one item, or
/// refused further arguments, give the List back as it is. Otherwise the
/// List is sorted (unchanged, with E702, when a comparison fails) or its
/// repeated neighbours are dropped (up to a failed comparison, E882).
pub open spec fn sort_uniq_spec<C: Fn(&SortInfo, &typval_T, &typval_T) -> Option<i32>>(
    c: C, args: Seq<typval_T>, r: TypVal, sort: bool,
) -> (TypVal, TypVal, Option<Seq<u8>>) {
    let a = args[0]@;
    if a.ty != VarType::VAR_LIST {
        (a, r, Some(if sort { msg_e686_sort() } else { msg_e686_uniq() }))
    } else {
        match a.v {
            VVal::List(Some(l)) => {
                if l.lock != VarLockStatus::VAR_UNLOCKED {
                    (a, r, lock_error(l.lock, Some(arg_name(sort)), TV_TRANSLATE as int))
                } else if l.items.len() <= 1 {
                    (a, ret_list(r, a.v), None)
                } else {
                    match parse_spec(args) {
                        Err(e) => (a, ret_list(r, a.v), e),
                        Ok(info) => if sort {
                            match isort_spec(c, info, l.items, l.items.len() as int) {
                                Some(s) => {
                                    let na = list_with_items(a, l, s);
                                    (na, ret_list(r, na.v), None)
                                },
                                None => (a, ret_list(r, a.v), Some(msg_e702())),
                            }
                        } else {
                            let u = uniq_spec(c, info, l.items, 0, Seq::empty());
                            let na = list_with_items(a, l, u.0);
                            (na, ret_list(r, na.v), if u.1 { Some(msg_e882()) } else { None })
                        },
                    }
                }
            },
            _ => (a, ret_list(r, a.v), None),
        }
    }
}

/// The body of "sort()" (`sort`) and "uniq()" (see `sort_uniq_spec`); the
/// List is changed in place, as the first argument, and is the result.
pub fn do_sort_uniq<C: Fn(&SortInfo, &typval_T, &typval_T) -> Option<i32>>(
    argvars: &mut Vec<typval_T>, rettv: &mut typval_T, sort: bool, c: &C, errs: &mut Vec<Vec<u8>>,
)
    requires old(argvars)@.len() >= 1, compare_ok(*c),
    ensures ({
        let (na, nr, e) = sort_uniq_spec(*c, old(argvars)@, old(rettv)@, sort);
        &&& first_arg_set(old(argvars)@, final(argvars)@, na)
        &&& final(rettv)@ == nr
        &&& msgs_view(final(errs)@) == after_report(old(errs)@, e)
    }),
{
    if argvars[0].v_type != VarType::VAR_LIST {
        emsg(errs, if sort { msg_e686_sort_exec() } else { msg_e686_uniq_exec() });
        return;
    }
    let a0 = tv_dup(&argvars[0]);
    let ty = a0.v_type;
    let lk = a0.v_lock;
    match a0.vval {
        typval_vval_union::v_list(Some(l)) => {
            let name = if sort { msg_sort_arg_exec() } else { msg_uniq_arg_exec() };
            if value_check_lock(l.lv_lock, Some(name.as_slice()), TV_TRANSLATE, errs) {
                return;
            }
            if l.lv_items.len() <= 1 {
                set_ret_list(rettv, typval_vval_union::v_list(Some(l)));
                return;
            }
            match parse_sort_uniq_args(argvars) {
                Err(e) => {
                    match e {
                        Some(m) => emsg(errs, m),
                        None => {},
                    }
                    set_ret_list(rettv, typval_vval_union::v_list(Some(l)));
                },
                Ok(info) => {
                    if sort {
                        match sort_items(&l.lv_items, &info, c) {
                            Some(s) => {
                                let nl = list_T { lv_items: s, lv_lock: l.lv_lock, lv_refcount: l.lv_refcount };
                                let nt = typval_T { v_type: ty, v_lock: lk, vval: typval_vval_union::v_list(Some(nl)) };
                                let rt = tv_dup(&nt);
                                set_ret_list(rettv, rt.vval);
                                replace_first(argvars, nt);
                            },
                            None => {
                                emsg(errs, msg_e702_exec());
                                set_ret_list(rettv, typval_vval_union::v_list(Some(l)));
                            },
                        }
                    } else {
                        let (u, failed) = uniq_items(&l.lv_items, &info, c);
                        let nl = list_T { lv_items: u, lv_lock: l.lv_lock, lv_refcount: l.lv_refcount };
                        let nt = typval_T { v_type: ty, v_lock: lk, vval: typval_vval_union::v_list(Some(nl)) };
                        let rt = tv_dup(&nt);
                        set_ret_list(rettv, rt.vval);
                        replace_first(argvars, nt);
                        if failed {
                            emsg(errs, msg_e882_exec());
                        }
                    }
                },
            }
        },
        v => {
            set_ret_list(rettv, v);
        },
    }
}

/// "sort({list} [, {how} [, {dict}]])": the List sorted in place (see
/// `sort_uniq_spec`); `c` answers the comparisons the Numbers mode does not.
pub fn f_sort<C: Fn(&SortInfo, &typval_T, &typval_T) -> Option<i32>>(
    argvars: &mut Vec<typval_T>, rettv: &mut typval_T, c: &C, errs: &mut Vec<Vec<u8>>,
)
    requires old(argvars)@.len() >= 1, compare_ok(*c),
    ensures ({
        let (na, nr, e) = sort_uniq_spec(*c, old(argvars)@, old(rettv)@, true);
        &&& first_arg_set(old(argvars)@, final(argvars)@, na)
        &&& final(rettv)@ == nr
        &&& msgs_view(final(errs)@) == after_report(old(errs)@, e)
    }),
{
    do_sort_uniq(argvars, rettv, true, c, errs);
}

/// "uniq({list} [, {how} [, {dict}]])": the List with repeated neighbours
/// dropped in place (see `sort_uniq_spec`).
pub fn f_uniq<C: Fn(&SortInfo, &typval_T, &typval_T) -> Option<i32>>(
    argvars: &mut Vec<typval_T>, rettv: &mut typval_T, c: &C, errs: &mut Vec<Vec<u8>>,
)
    requires old(argvars)@.len() >= 1, compare_ok(*c),
    ensures ({
        let (na, nr, e) = sort_uniq_spec(*c, old(argvars)@, old(rettv)@, false);
        &&& first_arg_set(old(argvars)@, final(argvars)@, na)
        &&& final(rettv)@ == nr
        &&& msgs_view(final(errs)@) == after_report(old(errs)@, e)
    }),
{
    do_sort_uniq(argvars, rettv, false, c, errs);
}

proof fn lemma_ins_perm<C: Fn(&SortInfo, &typval_T, &typval_T) -> Option<i32>>(
    c: C, info: SortInfoV, s: Seq<TypVal>, x: TypVal, j: int,
)
    requires 0 <= j <= s.len(), ins_spec(c, info, s, x, j) is Some,
    ensures ins_spec(c, info, s, x, j)->Some_0.to_multiset() == s.to_multiset().insert(x),
    decreases j,
{
    if j <= 0 {
        vstd::seq_lib::to_multiset_insert(s, 0, x);
    } else {
        match item_compare(c, info, s[j - 1], x) {
            None => {},
            Some(r) => if r > 0 { lemma_ins_perm(c, info, s, x, j - 1); } else { vstd::seq_lib::to_multiset_insert(s, j, x); },
        }
    }
}

/// A sorted List holds the same items as before, each as often: the
/// result of sorting the first `n` items is a rearrangement of them.
pub proof fn lemma_sort_permutes<C: Fn(&SortInfo, &typval_T, &typval_T) -> Option<i32>>(
    c: C, info: SortInfoV, items: Seq<TypVal>, n: int,
)
    requires 0 <= n <= items.len(), isort_spec(c, info, items, n) is Some,
    ensures
        isort_spec(c, info, items, n)->Some_0.len() == n,
        isort_spec(c, info, items, n)->Some_0.to_multiset() == items.subrange(0, n).to_multiset(),
    decreases n,
{
    if n > 0 {
        lemma_sort_permutes(c, info, items, n - 1);
        let s = isort_spec(c, info, items, n - 1)->Some_0;
        lemma_ins_perm(c, info, s, items[n - 1], s.len() as int);
        lemma_ins_len(c, info, s, items[n - 1], s.len() as int);
        assert(items.subrange(0, n) =~= items.subrange(0, n - 1).push(items[n - 1]));
        vstd::seq_lib::to_multiset_build(items.subrange(0, n - 1), items[n - 1]);
    } else {
        assert(items.subrange(0, 0) =~= Seq::<TypVal>::empty());
        assert(isort_spec(c, info, items, 0)->Some_0 =~= Seq::<TypVal>::empty());
    }
}

proof fn lemma_ins_len<C: Fn(&SortInfo, &typval_T, &typval_T) -> Option<i32>>(
    c: C, info: SortInfoV, s: Seq<TypVal>, x: TypVal, j: int,
)
    requires 0 <= j <= s.len(), ins_spec(c, info, s, x, j) is Some,
    ensures ins_spec(c, info, s, x, j)->Some_0.len() == s.len() + 1,
    decreases j,
{
    if j > 0 {
        match item_compare(c, info, s[j - 1], x) {
            None => {},
            Some(r) => if r > 0 { lemma_ins_len(c, info, s, x, j - 1); },
        }
    }
}

/// "uniq()" keeps the first item of a non-empty List, and never makes a
/// List longer.
pub proof fn lemma_uniq_shrinks<C: Fn(&SortInfo, &typval_T, &typval_T) -> Option<i32>>(
    c: C, info: SortInfoV, items: Seq<TypVal>, i: int, out: Seq<TypVal>,
)
    requires 0 <= i <= items.len(), out.len() <= i, i > 0 ==> out.len() > 0,
    ensures
        uniq_spec(c, info, items, i, out).0.len() <= items.len(),
        out.len() > 0 ==> uniq_spec(c, info, items, i, out).0[0] == out[0],
        items.len() > 0 && i == 0 ==> uniq_spec(c, info, items, i, out).0[0] == items[0],
    decreases items.len() - i,
{
    if i < items.len() {
        if out.len() == 0 {
            lemma_uniq_shrinks(c, info, items, i + 1, out.push(items[i]));
        } else {
            match item_compare(c, info, out.last(), items[i]) {
                None => {},
                Some(r) => if r == 0 { lemma_uniq_shrinks(c, info, items, i + 1, out); } else { lemma_uniq_shrinks(c, info, items, i + 1, out.push(items[i])); },
            }
        }
    }
}

} // verus!
