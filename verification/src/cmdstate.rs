//! The command line and argument list that builtins read and set.
use vstd::prelude::*;
use crate::typval_defs::{
    varnumber_T, OK, FAIL, VarType, VarLockStatus, BoolVarValue, SpecialVarValue, typval_vval_union,
    typval_T, list_T, dict_T, dictitem_T, blob_T, partial_T, Callback, DictWatcher, TypVal, VVal,
    ListVal, DictVal, BlobVal, CallbackVal, WatcherVal, tv_view, list_view, dict_view, items_view, dict_index_of,
    mk_tv, num_tv, str_tv, list_tv, blob_tv, dict_tv, empty_dict_val, dict_wf, keys_unique,
    lemma_items_view_ext, lemma_items_view_index, lemma_items_view_push, lemma_items_view_subrange,
    lemma_items_view_add, lemma_items_view_reverse, lemma_items_view_update, lemma_items_view_insert,
    lemma_items_view_remove, lemma_items_view_empty,
};
use crate::charset::{nr2str, nr2bytes, str2nr, str2nr_all};
use crate::dup::{bytes_dup, tv_dup, list_dup, dict_dup, blob_dup, items_dup, slice_to_vec, callback_dup, append_bytes};
use crate::typval::{
    number_of, number_chk_result, string_of, string_or_empty, tv_get_number_chk, tv_get_number,
    tv_get_bool, tv_get_string, tv_get_string_chk, tv_get_string_buf_chk, tv_equal, tv_equal_spec,
    bytes_eq, dict_find_index,
};
use crate::typval_list::lemma_items_view_index_all;
use crate::funcs_basic::{with_number, set_number, with_string, set_string, with_list, set_list};
use crate::highlight::{names_view, bytes_copy};
use crate::textbuf::str_value;

verus! {

// ── the command line ──

/// The command line that "setcmdline()" and friends see: its text, the
/// cursor's byte position (from 1) and its type character.
pub struct CmdLine {
    pub line: Vec<u8>,
    pub pos: i64,
    pub ctype: Vec<u8>,
}

/// No command line: empty, position 0, no type.
pub fn cmdline_new() -> (c: CmdLine)
    ensures c.line@.len() == 0, c.pos == 0, c.ctype@.len() == 0,
{
    CmdLine { line: Vec::new(), pos: 0, ctype: Vec::new() }
}

/// "setcmdline({str} [, {pos}])": set the text, and the position to `{pos}`
/// or one past the end; the result is 0.
pub fn f_setcmdline(c: &mut CmdLine, argvars: &[typval_T], rettv: &mut typval_T)
    requires argvars@.len() >= 1, string_or_empty(argvars@[0]@).len() < i64::MAX,
    ensures
        final(c).line@ == string_or_empty(argvars@[0]@),
        final(c).pos as int == if argvars@.len() >= 2 { number_chk_result(argvars@[1]@, true) } else { string_or_empty(argvars@[0]@).len() as int + 1 },
        final(c).ctype == old(c).ctype,
        final(rettv)@ == with_number(old(rettv)@, 0),
{
    let line = tv_get_string(&argvars[0]);
    let pos = if argvars.len() >= 2 { tv_get_number(&argvars[1]) } else { line.len() as i64 + 1 };
    c.line = line;
    c.pos = pos;
    set_number(rettv, 0);
}

/// "getcmdline()": the text.
pub fn f_getcmdline(c: &CmdLine, argvars: &[typval_T], rettv: &mut typval_T)
    ensures final(rettv)@ == with_string(old(rettv)@, c.line@),
{
    set_string(rettv, bytes_copy(&c.line));
}

/// "setcmdpos({pos})": set the position; the result is 0.
pub fn f_setcmdpos(c: &mut CmdLine, argvars: &[typval_T], rettv: &mut typval_T)
    requires argvars@.len() >= 1,
    ensures
        final(c).pos as int == number_chk_result(argvars@[0]@, true),
        final(c).line == old(c).line, final(c).ctype == old(c).ctype,
        final(rettv)@ == with_number(old(rettv)@, 0),
{
    c.pos = tv_get_number(&argvars[0]);
    set_number(rettv, 0);
}

/// "getcmdpos()": the position.
pub fn f_getcmdpos(c: &CmdLine, argvars: &[typval_T], rettv: &mut typval_T)
    ensures final(rettv)@ == with_number(old(rettv)@, c.pos as int),
{
    set_number(rettv, c.pos);
}

/// "getcmdtype()": the type character, "" when none.
pub fn f_getcmdtype(c: &CmdLine, argvars: &[typval_T], rettv: &mut typval_T)
    ensures final(rettv)@ == with_string(old(rettv)@, c.ctype@),
{
    set_string(rettv, bytes_copy(&c.ctype));
}

// ── the argument list ──

/// The global argument list: the files the interpreter was started with.
pub struct ArgList {
    pub args: Vec<Vec<u8>>,
}

/// Set the argument list.
pub fn set_arglist(a: &mut ArgList, args: &Vec<Vec<u8>>)
    ensures names_view(final(a).args@) == names_view(args@),
{
    let mut out: Vec<Vec<u8>> = Vec::new();
    let mut i: usize = 0;
    while i < args.len()
        invariant i <= args@.len(), out@.len() == i, forall|k: int| 0 <= k < i ==> #[trigger] out@[k]@ == args@[k]@,
        decreases args.len() - i,
    {
        out.push(bytes_copy(&args[i]));
        i += 1;
    }
    assert(names_view(out@) =~= names_view(args@));
    a.args = out;
}

/// "argc()": the number of arguments.
pub fn f_argc(a: &ArgList, argvars: &[typval_T], rettv: &mut typval_T)
    requires a.args@.len() < i64::MAX,
    ensures final(rettv)@ == with_number(old(rettv)@, a.args@.len() as int),
{
    set_number(rettv, a.args.len() as i64);
}

/// "arglistid()": the global list is 0.
pub fn f_arglistid(argvars: &[typval_T], rettv: &mut typval_T)
    ensures final(rettv)@ == with_number(old(rettv)@, 0),
{
    set_number(rettv, 0);
}

/// What "argv([{nr}])" gives: argument `{nr}` (from 0) as a String ("" when
/// there is none), or without `{nr}` or with -1 the List of all.
pub open spec fn argv_spec(args: Seq<Seq<u8>>, argvars: Seq<typval_T>, old_r: TypVal) -> TypVal {
    if argvars.len() > 0 && number_chk_result(argvars[0]@, true) != -1 {
        let idx = number_chk_result(argvars[0]@, true);
        with_string(old_r, if 0 <= idx < args.len() { args[idx] } else { Seq::empty() })
    } else {
        with_list(old_r, Seq::new(args.len(), |i: int| str_tv(args[i])))
    }
}

/// "argv([{nr} [, {winid}]])": see `argv_spec`.
pub fn f_argv(a: &ArgList, argvars: &[typval_T], rettv: &mut typval_T)
    ensures final(rettv)@ == argv_spec(names_view(a.args@), argvars@, old(rettv)@),
{
    if argvars.len() > 0 {
        let idx = tv_get_number(&argvars[0]);
        if idx != -1 {
            if idx >= 0 && (idx as u64) < (a.args.len() as u64) {
                set_string(rettv, bytes_copy(&a.args[idx as usize]));
            } else {
                set_string(rettv, Vec::new());
            }
            return;
        }
    }
    let mut out: Vec<typval_T> = Vec::new();
    let mut i: usize = 0;
    while i < a.args.len()
        invariant i <= a.args@.len(), out@.len() == i, forall|k: int| 0 <= k < i ==> #[trigger] out@[k]@ == str_tv(a.args@[k]@),
        decreases a.args.len() - i,
    {
        out.push(str_value(bytes_copy(&a.args[i])));
        i += 1;
    }
    proof { lemma_items_view_index_all(out@); }
    assert forall|k: int| 0 <= k < out@.len() implies #[trigger] items_view(out@)[k] == str_tv(names_view(a.args@)[k]) by {
        assert(out@[k]@ == str_tv(a.args@[k]@));
    }
    assert(items_view(out@) =~= Seq::new(a.args@.len(), |i: int| str_tv(names_view(a.args@)[i])));
    set_list(rettv, list_T { lv_items: out, lv_lock: VarLockStatus::VAR_UNLOCKED, lv_refcount: 0 });
}

} // verus!
