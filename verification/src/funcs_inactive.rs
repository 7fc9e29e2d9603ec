//! Builtins of subsystems that are not running here (folds, diff, completion, providers, undo, mouse, screen): each gives the answer Vim gives when that subsystem is idle.
use vstd::prelude::*;
use crate::typval_defs::{
    varnumber_T, OK, FAIL, VarType, VarLockStatus, BoolVarValue, SpecialVarValue, typval_vval_union,
    typval_T, list_T, dict_T, dictitem_T, blob_T, partial_T, Callback, DictWatcher, TypVal, VVal,
    ListVal, DictVal, BlobVal, CallbackVal, WatcherVal, tv_view, list_view, dict_view, items_view, dict_index_of,
    mk_tv, num_tv, str_tv, list_tv, blob_tv, dict_tv, empty_dict_val, dict_wf, keys_unique,
    lemma_items_view_ext, lemma_items_view_index, lemma_items_view_push, lemma_items_view_subrange,
    lemma_items_view_add, lemma_items_view_reverse, lemma_items_view_update, lemma_items_view_insert,
    lemma_items_view_remove, lemma_items_view_empty,
};
use crate::charset::{nr2str, nr2bytes, str2nr, str2nr_all};
use crate::dup::{bytes_dup, tv_dup, list_dup, dict_dup, blob_dup, items_dup, slice_to_vec, callback_dup, append_bytes};
use crate::typval::{
    number_of, number_chk_result, string_of, string_or_empty, tv_get_number_chk, tv_get_number,
    tv_get_bool, tv_get_string, tv_get_string_chk, tv_get_string_buf_chk, tv_equal, tv_equal_spec,
    bytes_eq, dict_find_index,
};
use crate::typval_list::{lemma_items_view_index_all, string_tv, number_tv, tv_list_alloc_ret};
use crate::typval_dict::{lemma_dict_view_parts, tv_dict_alloc_ret};
use crate::funcs_basic::{with_number, with_string, with_list, set_list};
use crate::list_funcs::with_dict;

verus! {

/// The model of `rettv` once it is v:null.
pub open spec fn with_null(r: TypVal) -> TypVal {
    TypVal { ty: VarType::VAR_SPECIAL, v: VVal::Special(SpecialVarValue::kSpecialVarNull), ..r }
}

fn empty_list_value() -> (r: typval_T)
    ensures r@ == list_tv(Seq::empty()),
{
    let items: Vec<typval_T> = Vec::new();
    proof { lemma_items_view_index_all(items@); }
    assert(items_view(items@) =~= Seq::<TypVal>::empty());
    typval_T { v_type: VarType::VAR_LIST, v_lock: VarLockStatus::VAR_UNLOCKED,
        vval: typval_vval_union::v_list(Some(list_T { lv_items: items, lv_lock: VarLockStatus::VAR_UNLOCKED, lv_refcount: 0 })) }
}

/// "argidx()": Every file is sourced in turn, so the index rests at 0.
pub fn f_argidx(argvars: &[typval_T], rettv: &mut typval_T)
    ensures final(rettv)@ == with_number(old(rettv)@, 0),
{
    rettv.vval = typval_vval_union::v_number(0);
}

/// "foldlevel()": No folds: level 0.
pub fn f_foldlevel(argvars: &[typval_T], rettv: &mut typval_T)
    ensures final(rettv)@ == with_number(old(rettv)@, 0),
{
    rettv.vval = typval_vval_union::v_number(0);
}

/// "foldclosed()": No closed fold: -1.
pub fn f_foldclosed(argvars: &[typval_T], rettv: &mut typval_T)
    ensures final(rettv)@ == with_number(old(rettv)@, -1),
{
    rettv.vval = typval_vval_union::v_number(-1);
}

/// "foldclosedend()": No closed fold: -1.
pub fn f_foldclosedend(argvars: &[typval_T], rettv: &mut typval_T)
    ensures final(rettv)@ == with_number(old(rettv)@, -1),
{
    rettv.vval = typval_vval_union::v_number(-1);
}

/// "diff_filler()": No diff mode: 0.
pub fn f_diff_filler(argvars: &[typval_T], rettv: &mut typval_T)
    ensures final(rettv)@ == with_number(old(rettv)@, 0),
{
    rettv.vval = typval_vval_union::v_number(0);
}

/// "diff_hlID()": No diff mode: 0.
pub fn f_diff_hlID(argvars: &[typval_T], rettv: &mut typval_T)
    ensures final(rettv)@ == with_number(old(rettv)@, 0),
{
    rettv.vval = typval_vval_union::v_number(0);
}

/// "virtcol2col()": No buffer text on screen: -1.
pub fn f_virtcol2col(argvars: &[typval_T], rettv: &mut typval_T)
    ensures final(rettv)@ == with_number(old(rettv)@, -1),
{
    rettv.vval = typval_vval_union::v_number(-1);
}

/// "getchar()": No typed input: 0.
pub fn f_getchar(argvars: &[typval_T], rettv: &mut typval_T)
    ensures final(rettv)@ == with_number(old(rettv)@, 0),
{
    rettv.vval = typval_vval_union::v_number(0);
}

/// "getcharmod()": No typed input: 0.
pub fn f_getcharmod(argvars: &[typval_T], rettv: &mut typval_T)
    ensures final(rettv)@ == with_number(old(rettv)@, 0),
{
    rettv.vval = typval_vval_union::v_number(0);
}

/// "getcmdscreenpos()": No command line: 0.
pub fn f_getcmdscreenpos(argvars: &[typval_T], rettv: &mut typval_T)
    ensures final(rettv)@ == with_number(old(rettv)@, 0),
{
    rettv.vval = typval_vval_union::v_number(0);
}

/// "cindent()": No buffer to indent: -1.
pub fn f_cindent(argvars: &[typval_T], rettv: &mut typval_T)
    ensures final(rettv)@ == with_number(old(rettv)@, -1),
{
    rettv.vval = typval_vval_union::v_number(-1);
}

/// "lispindent()": No buffer to indent: -1.
pub fn f_lispindent(argvars: &[typval_T], rettv: &mut typval_T)
    ensures final(rettv)@ == with_number(old(rettv)@, -1),
{
    rettv.vval = typval_vval_union::v_number(-1);
}

/// "complete_add()": Not in Insert mode: 0.
pub fn f_complete_add(argvars: &[typval_T], rettv: &mut typval_T)
    ensures final(rettv)@ == with_number(old(rettv)@, 0),
{
    rettv.vval = typval_vval_union::v_number(0);
}

/// "complete_check()": No completion to interrupt: 0.
pub fn f_complete_check(argvars: &[typval_T], rettv: &mut typval_T)
    ensures final(rettv)@ == with_number(old(rettv)@, 0),
{
    rettv.vval = typval_vval_union::v_number(0);
}

/// "foldtext()": No folds: "".
pub fn f_foldtext(argvars: &[typval_T], rettv: &mut typval_T)
    ensures final(rettv)@ == with_string(old(rettv)@, Seq::empty()),
{
    rettv.v_type = VarType::VAR_STRING;
    rettv.vval = typval_vval_union::v_string(Vec::new());
}

/// "foldtextresult()": No folds: "".
pub fn f_foldtextresult(argvars: &[typval_T], rettv: &mut typval_T)
    ensures final(rettv)@ == with_string(old(rettv)@, Seq::empty()),
{
    rettv.v_type = VarType::VAR_STRING;
    rettv.vval = typval_vval_union::v_string(Vec::new());
}

/// "getcharstr()": No typed input: "".
pub fn f_getcharstr(argvars: &[typval_T], rettv: &mut typval_T)
    ensures final(rettv)@ == with_string(old(rettv)@, Seq::empty()),
{
    rettv.v_type = VarType::VAR_STRING;
    rettv.vval = typval_vval_union::v_string(Vec::new());
}

/// "getcmdprompt()": No prompt: "".
pub fn f_getcmdprompt(argvars: &[typval_T], rettv: &mut typval_T)
    ensures final(rettv)@ == with_string(old(rettv)@, Seq::empty()),
{
    rettv.v_type = VarType::VAR_STRING;
    rettv.vval = typval_vval_union::v_string(Vec::new());
}

/// "getcmdcompltype()": No command line: "".
pub fn f_getcmdcompltype(argvars: &[typval_T], rettv: &mut typval_T)
    ensures final(rettv)@ == with_string(old(rettv)@, Seq::empty()),
{
    rettv.v_type = VarType::VAR_STRING;
    rettv.vval = typval_vval_union::v_string(Vec::new());
}

/// "getcmdcomplpat()": No command line: "".
pub fn f_getcmdcomplpat(argvars: &[typval_T], rettv: &mut typval_T)
    ensures final(rettv)@ == with_string(old(rettv)@, Seq::empty()),
{
    rettv.v_type = VarType::VAR_STRING;
    rettv.vval = typval_vval_union::v_string(Vec::new());
}

/// "getcompletiontype()": No command line: "".
pub fn f_getcompletiontype(argvars: &[typval_T], rettv: &mut typval_T)
    ensures final(rettv)@ == with_string(old(rettv)@, Seq::empty()),
{
    rettv.v_type = VarType::VAR_STRING;
    rettv.vval = typval_vval_union::v_string(Vec::new());
}

/// "preinserted()": No completion: "".
pub fn f_preinserted(argvars: &[typval_T], rettv: &mut typval_T)
    ensures final(rettv)@ == with_string(old(rettv)@, Seq::empty()),
{
    rettv.v_type = VarType::VAR_STRING;
    rettv.vval = typval_vval_union::v_string(Vec::new());
}

/// "wildtrigger()": No command line to complete: nothing happens.
pub fn f_wildtrigger(argvars: &[typval_T], rettv: &mut typval_T)
    ensures final(rettv)@ == old(rettv)@,
{
}

/// "test_garbagecollect_now()": Values are owned, nothing to collect: nothing happens.
pub fn f_test_garbagecollect_now(argvars: &[typval_T], rettv: &mut typval_T)
    ensures final(rettv)@ == old(rettv)@,
{
}

/// "test_write_list_log()": No list log: nothing happens.
pub fn f_test_write_list_log(argvars: &[typval_T], rettv: &mut typval_T)
    ensures final(rettv)@ == old(rettv)@,
{
}

/// "complete()": Not in Insert mode: nothing happens.
pub fn f_complete(argvars: &[typval_T], rettv: &mut typval_T)
    ensures final(rettv)@ == old(rettv)@,
{
}

/// "pyeval()": No Python provider: v:null.
pub fn f_pyeval(argvars: &[typval_T], rettv: &mut typval_T)
    ensures final(rettv)@ == with_null(old(rettv)@),
{
    rettv.v_type = VarType::VAR_SPECIAL;
    rettv.vval = typval_vval_union::v_special(SpecialVarValue::kSpecialVarNull);
}

/// "pyxeval()": No Python provider: v:null.
pub fn f_pyxeval(argvars: &[typval_T], rettv: &mut typval_T)
    ensures final(rettv)@ == with_null(old(rettv)@),
{
    rettv.v_type = VarType::VAR_SPECIAL;
    rettv.vval = typval_vval_union::v_special(SpecialVarValue::kSpecialVarNull);
}

/// "py3eval()": No Python provider: v:null.
pub fn f_py3eval(argvars: &[typval_T], rettv: &mut typval_T)
    ensures final(rettv)@ == with_null(old(rettv)@),
{
    rettv.v_type = VarType::VAR_SPECIAL;
    rettv.vval = typval_vval_union::v_special(SpecialVarValue::kSpecialVarNull);
}

/// "perleval()": No Perl provider: v:null.
pub fn f_perleval(argvars: &[typval_T], rettv: &mut typval_T)
    ensures final(rettv)@ == with_null(old(rettv)@),
{
    rettv.v_type = VarType::VAR_SPECIAL;
    rettv.vval = typval_vval_union::v_special(SpecialVarValue::kSpecialVarNull);
}

/// "luaeval()": No Lua provider: v:null.
pub fn f_luaeval(argvars: &[typval_T], rettv: &mut typval_T)
    ensures final(rettv)@ == with_null(old(rettv)@),
{
    rettv.v_type = VarType::VAR_SPECIAL;
    rettv.vval = typval_vval_union::v_special(SpecialVarValue::kSpecialVarNull);
}

/// "rubyeval()": No Ruby provider: v:null.
pub fn f_rubyeval(argvars: &[typval_T], rettv: &mut typval_T)
    ensures final(rettv)@ == with_null(old(rettv)@),
{
    rettv.v_type = VarType::VAR_SPECIAL;
    rettv.vval = typval_vval_union::v_special(SpecialVarValue::kSpecialVarNull);
}

/// "cmdcomplete_info()": No command-line completion: an empty Dict.
pub fn f_cmdcomplete_info(argvars: &[typval_T], rettv: &mut typval_T)
    ensures final(rettv)@ == with_dict(old(rettv)@, empty_dict_val()),
{
    tv_dict_alloc_ret(rettv);
}

/// "menu_info()": No menus: an empty Dict.
pub fn f_menu_info(argvars: &[typval_T], rettv: &mut typval_T)
    ensures final(rettv)@ == with_dict(old(rettv)@, empty_dict_val()),
{
    tv_dict_alloc_ret(rettv);
}

/// "getscriptinfo()": The sourced scripts are not kept: an empty List.
pub fn f_getscriptinfo(argvars: &[typval_T], rettv: &mut typval_T)
    ensures final(rettv)@ == with_list(old(rettv)@, Seq::empty()),
{
    tv_list_alloc_ret(rettv, 0);
}

/// "getstacktrace()": The call stack is not kept: an empty List.
pub fn f_getstacktrace(argvars: &[typval_T], rettv: &mut typval_T)
    ensures final(rettv)@ == with_list(old(rettv)@, Seq::empty()),
{
    tv_list_alloc_ret(rettv, 0);
}

/// "getwinpos()": No GUI window: [-1, -1].
pub fn f_getwinpos(argvars: &[typval_T], rettv: &mut typval_T)
    ensures final(rettv)@ == with_list(old(rettv)@, seq![num_tv(-1), num_tv(-1)]),
{
    let items: Vec<typval_T> = vec![number_tv(-1), number_tv(-1)];
    proof { lemma_items_view_index_all(items@); }
    assert(items_view(items@) =~= seq![num_tv(-1), num_tv(-1)]);
    set_list(rettv, list_T { lv_items: items, lv_lock: VarLockStatus::VAR_UNLOCKED, lv_refcount: 0 });
}

/// "win_screenpos()": No window: [0, 0].
pub fn f_win_screenpos(argvars: &[typval_T], rettv: &mut typval_T)
    ensures final(rettv)@ == with_list(old(rettv)@, seq![num_tv(0), num_tv(0)]),
{
    let items: Vec<typval_T> = vec![number_tv(0), number_tv(0)];
    proof { lemma_items_view_index_all(items@); }
    assert(items_view(items@) =~= seq![num_tv(0), num_tv(0)]);
    set_list(rettv, list_T { lv_items: items, lv_lock: VarLockStatus::VAR_UNLOCKED, lv_refcount: 0 });
}

/// "win_id2tabwin()": No window: [0, 0].
pub fn f_win_id2tabwin(argvars: &[typval_T], rettv: &mut typval_T)
    ensures final(rettv)@ == with_list(old(rettv)@, seq![num_tv(0), num_tv(0)]),
{
    let items: Vec<typval_T> = vec![number_tv(0), number_tv(0)];
    proof { lemma_items_view_index_all(items@); }
    assert(items_view(items@) =~= seq![num_tv(0), num_tv(0)]);
    set_list(rettv, list_T { lv_items: items, lv_lock: VarLockStatus::VAR_UNLOCKED, lv_refcount: 0 });
}

/// "synconcealed()": Nothing is concealed: [0, "", 0].
pub fn f_synconcealed(argvars: &[typval_T], rettv: &mut typval_T)
    ensures final(rettv)@ == with_list(old(rettv)@, seq![num_tv(0), str_tv(Seq::<u8>::empty()), num_tv(0)]),
{
    let items: Vec<typval_T> = vec![number_tv(0), string_tv(Vec::new()), number_tv(0)];
    proof { lemma_items_view_index_all(items@); }
    assert(items_view(items@) =~= seq![num_tv(0), str_tv(Seq::<u8>::empty()), num_tv(0)]);
    set_list(rettv, list_T { lv_items: items, lv_lock: VarLockStatus::VAR_UNLOCKED, lv_refcount: 0 });
}

/// "spellbadword()": No spell checking: ["", ""].
pub fn f_spellbadword(argvars: &[typval_T], rettv: &mut typval_T)
    ensures final(rettv)@ == with_list(old(rettv)@, seq![str_tv(Seq::<u8>::empty()), str_tv(Seq::<u8>::empty())]),
{
    let items: Vec<typval_T> = vec![string_tv(Vec::new()), string_tv(Vec::new())];
    proof { lemma_items_view_index_all(items@); }
    assert(items_view(items@) =~= seq![str_tv(Seq::<u8>::empty()), str_tv(Seq::<u8>::empty())]);
    set_list(rettv, list_T { lv_items: items, lv_lock: VarLockStatus::VAR_UNLOCKED, lv_refcount: 0 });
}

/// "undotree()": No undo history: a synced tree without entries.
pub fn f_undotree(argvars: &[typval_T], rettv: &mut typval_T)
    ensures final(rettv)@ == with_dict(old(rettv)@, DictVal { keys: seq![seq![115u8, 101, 113, 95, 108, 97, 115, 116], seq![115u8, 101, 113, 95, 99, 117, 114], seq![116u8, 105, 109, 101, 95, 99, 117, 114], seq![115u8, 97, 118, 101, 95, 108, 97, 115, 116], seq![115u8, 97, 118, 101, 95, 99, 117, 114], seq![115u8, 121, 110, 99, 101, 100], seq![101u8, 110, 116, 114, 105, 101, 115]], vals: seq![num_tv(0), num_tv(0), num_tv(0), num_tv(0), num_tv(0), num_tv(1), list_tv(Seq::empty())], ..empty_dict_val() }),
{
    let items: Vec<dictitem_T> = vec![
        dictitem_T { di_key: vec![115u8, 101, 113, 95, 108, 97, 115, 116], di_tv: number_tv(0) },
        dictitem_T { di_key: vec![115u8, 101, 113, 95, 99, 117, 114], di_tv: number_tv(0) },
        dictitem_T { di_key: vec![116u8, 105, 109, 101, 95, 99, 117, 114], di_tv: number_tv(0) },
        dictitem_T { di_key: vec![115u8, 97, 118, 101, 95, 108, 97, 115, 116], di_tv: number_tv(0) },
        dictitem_T { di_key: vec![115u8, 97, 118, 101, 95, 99, 117, 114], di_tv: number_tv(0) },
        dictitem_T { di_key: vec![115u8, 121, 110, 99, 101, 100], di_tv: number_tv(1) },
        dictitem_T { di_key: vec![101u8, 110, 116, 114, 105, 101, 115], di_tv: empty_list_value() },
    ];
    let d = dict_T { dv_hashtab: items, dv_lock: VarLockStatus::VAR_UNLOCKED, dv_refcount: 0, dv_watchers: Vec::new() };
    proof { lemma_dict_view_parts(d); }
    assert(d@.keys =~= seq![seq![115u8, 101, 113, 95, 108, 97, 115, 116], seq![115u8, 101, 113, 95, 99, 117, 114], seq![116u8, 105, 109, 101, 95, 99, 117, 114], seq![115u8, 97, 118, 101, 95, 108, 97, 115, 116], seq![115u8, 97, 118, 101, 95, 99, 117, 114], seq![115u8, 121, 110, 99, 101, 100], seq![101u8, 110, 116, 114, 105, 101, 115]]);
    assert(d@.vals =~= seq![num_tv(0), num_tv(0), num_tv(0), num_tv(0), num_tv(0), num_tv(1), list_tv(Seq::empty())]);
    assert(d@.watchers =~= Seq::<WatcherVal>::empty());
    rettv.v_type = VarType::VAR_DICT;
    rettv.vval = typval_vval_union::v_dict(Some(d));
}

/// "getmousepos()": No mouse: every position 0.
pub fn f_getmousepos(argvars: &[typval_T], rettv: &mut typval_T)
    ensures final(rettv)@ == with_dict(old(rettv)@, DictVal { keys: seq![seq![115u8, 99, 114, 101, 101, 110, 114, 111, 119], seq![115u8, 99, 114, 101, 101, 110, 99, 111, 108], seq![119u8, 105, 110, 105, 100], seq![119u8, 105, 110, 114, 111, 119], seq![119u8, 105, 110, 99, 111, 108], seq![108u8, 105, 110, 101], seq![99u8, 111, 108, 117, 109, 110], seq![99u8, 111, 108, 97, 100, 100]], vals: seq![num_tv(0), num_tv(0), num_tv(0), num_tv(0), num_tv(0), num_tv(0), num_tv(0), num_tv(0)], ..empty_dict_val() }),
{
    let items: Vec<dictitem_T> = vec![
        dictitem_T { di_key: vec![115u8, 99, 114, 101, 101, 110, 114, 111, 119], di_tv: number_tv(0) },
        dictitem_T { di_key: vec![115u8, 99, 114, 101, 101, 110, 99, 111, 108], di_tv: number_tv(0) },
        dictitem_T { di_key: vec![119u8, 105, 110, 105, 100], di_tv: number_tv(0) },
        dictitem_T { di_key: vec![119u8, 105, 110, 114, 111, 119], di_tv: number_tv(0) },
        dictitem_T { di_key: vec![119u8, 105, 110, 99, 111, 108], di_tv: number_tv(0) },
        dictitem_T { di_key: vec![108u8, 105, 110, 101], di_tv: number_tv(0) },
        dictitem_T { di_key: vec![99u8, 111, 108, 117, 109, 110], di_tv: number_tv(0) },
        dictitem_T { di_key: vec![99u8, 111, 108, 97, 100, 100], di_tv: number_tv(0) },
    ];
    let d = dict_T { dv_hashtab: items, dv_lock: VarLockStatus::VAR_UNLOCKED, dv_refcount: 0, dv_watchers: Vec::new() };
    proof { lemma_dict_view_parts(d); }
    assert(d@.keys =~= seq![seq![115u8, 99, 114, 101, 101, 110, 114, 111, 119], seq![115u8, 99, 114, 101, 101, 110, 99, 111, 108], seq![119u8, 105, 110, 105, 100], seq![119u8, 105, 110, 114, 111, 119], seq![119u8, 105, 110, 99, 111, 108], seq![108u8, 105, 110, 101], seq![99u8, 111, 108, 117, 109, 110], seq![99u8, 111, 108, 97, 100, 100]]);
    assert(d@.vals =~= seq![num_tv(0), num_tv(0), num_tv(0), num_tv(0), num_tv(0), num_tv(0), num_tv(0), num_tv(0)]);
    assert(d@.watchers =~= Seq::<WatcherVal>::empty());
    rettv.v_type = VarType::VAR_DICT;
    rettv.vval = typval_vval_union::v_dict(Some(d));
}

/// "screenpos()": No screen: every position 0.
pub fn f_screenpos(argvars: &[typval_T], rettv: &mut typval_T)
    ensures final(rettv)@ == with_dict(old(rettv)@, DictVal { keys: seq![seq![114u8, 111, 119], seq![99u8, 111, 108], seq![99u8, 117, 114, 115, 99, 111, 108], seq![101u8, 110, 100, 99, 111, 108]], vals: seq![num_tv(0), num_tv(0), num_tv(0), num_tv(0)], ..empty_dict_val() }),
{
    let items: Vec<dictitem_T> = vec![
        dictitem_T { di_key: vec![114u8, 111, 119], di_tv: number_tv(0) },
        dictitem_T { di_key: vec![99u8, 111, 108], di_tv: number_tv(0) },
        dictitem_T { di_key: vec![99u8, 117, 114, 115, 99, 111, 108], di_tv: number_tv(0) },
        dictitem_T { di_key: vec![101u8, 110, 100, 99, 111, 108], di_tv: number_tv(0) },
    ];
    let d = dict_T { dv_hashtab: items, dv_lock: VarLockStatus::VAR_UNLOCKED, dv_refcount: 0, dv_watchers: Vec::new() };
    proof { lemma_dict_view_parts(d); }
    assert(d@.keys =~= seq![seq![114u8, 111, 119], seq![99u8, 111, 108], seq![99u8, 117, 114, 115, 99, 111, 108], seq![101u8, 110, 100, 99, 111, 108]]);
    assert(d@.vals =~= seq![num_tv(0), num_tv(0), num_tv(0), num_tv(0)]);
    assert(d@.watchers =~= Seq::<WatcherVal>::empty());
    rettv.v_type = VarType::VAR_DICT;
    rettv.vval = typval_vval_union::v_dict(Some(d));
}

/// "complete_info()": No Insert-mode completion: an inactive state.
pub fn f_complete_info(argvars: &[typval_T], rettv: &mut typval_T)
    ensures final(rettv)@ == with_dict(old(rettv)@, DictVal { keys: seq![seq![109u8, 111, 100, 101], seq![112u8, 117, 109, 95, 118, 105, 115, 105, 98, 108, 101], seq![105u8, 116, 101, 109, 115], seq![115u8, 101, 108, 101, 99, 116, 101, 100]], vals: seq![str_tv(Seq::<u8>::empty()), num_tv(0), list_tv(Seq::empty()), num_tv(-1)], ..empty_dict_val() }),
{
    let items: Vec<dictitem_T> = vec![
        dictitem_T { di_key: vec![109u8, 111, 100, 101], di_tv: string_tv(Vec::new()) },
        dictitem_T { di_key: vec![112u8, 117, 109, 95, 118, 105, 115, 105, 98, 108, 101], di_tv: number_tv(0) },
        dictitem_T { di_key: vec![105u8, 116, 101, 109, 115], di_tv: empty_list_value() },
        dictitem_T { di_key: vec![115u8, 101, 108, 101, 99, 116, 101, 100], di_tv: number_tv(-1) },
    ];
    let d = dict_T { dv_hashtab: items, dv_lock: VarLockStatus::VAR_UNLOCKED, dv_refcount: 0, dv_watchers: Vec::new() };
    proof { lemma_dict_view_parts(d); }
    assert(d@.keys =~= seq![seq![109u8, 111, 100, 101], seq![112u8, 117, 109, 95, 118, 105, 115, 105, 98, 108, 101], seq![105u8, 116, 101, 109, 115], seq![115u8, 101, 108, 101, 99, 116, 101, 100]]);
    assert(d@.vals =~= seq![str_tv(Seq::<u8>::empty()), num_tv(0), list_tv(Seq::empty()), num_tv(-1)]);
    assert(d@.watchers =~= Seq::<WatcherVal>::empty());
    rettv.v_type = VarType::VAR_DICT;
    rettv.vval = typval_vval_union::v_dict(Some(d));
}

/// "winsaveview()": The view of a window at the start: line 1, all else 0.
pub fn f_winsaveview(argvars: &[typval_T], rettv: &mut typval_T)
    ensures final(rettv)@ == with_dict(old(rettv)@, DictVal { keys: seq![seq![108u8, 110, 117, 109], seq![99u8, 111, 108], seq![99u8, 111, 108, 97, 100, 100], seq![99u8, 117, 114, 115, 119, 97, 110, 116], seq![116u8, 111, 112, 108, 105, 110, 101], seq![116u8, 111, 112, 102, 105, 108, 108], seq![108u8, 101, 102, 116, 99, 111, 108], seq![115u8, 107, 105, 112, 99, 111, 108]], vals: seq![num_tv(1), num_tv(0), num_tv(0), num_tv(0), num_tv(1), num_tv(0), num_tv(0), num_tv(0)], ..empty_dict_val() }),
{
    let items: Vec<dictitem_T> = vec![
        dictitem_T { di_key: vec![108u8, 110, 117, 109], di_tv: number_tv(1) },
        dictitem_T { di_key: vec![99u8, 111, 108], di_tv: number_tv(0) },
        dictitem_T { di_key: vec![99u8, 111, 108, 97, 100, 100], di_tv: number_tv(0) },
        dictitem_T { di_key: vec![99u8, 117, 114, 115, 119, 97, 110, 116], di_tv: number_tv(0) },
        dictitem_T { di_key: vec![116u8, 111, 112, 108, 105, 110, 101], di_tv: number_tv(1) },
        dictitem_T { di_key: vec![116u8, 111, 112, 102, 105, 108, 108], di_tv: number_tv(0) },
        dictitem_T { di_key: vec![108u8, 101, 102, 116, 99, 111, 108], di_tv: number_tv(0) },
        dictitem_T { di_key: vec![115u8, 107, 105, 112, 99, 111, 108], di_tv: number_tv(0) },
    ];
    let d = dict_T { dv_hashtab: items, dv_lock: VarLockStatus::VAR_UNLOCKED, dv_refcount: 0, dv_watchers: Vec::new() };
    proof { lemma_dict_view_parts(d); }
    assert(d@.keys =~= seq![seq![108u8, 110, 117, 109], seq![99u8, 111, 108], seq![99u8, 111, 108, 97, 100, 100], seq![99u8, 117, 114, 115, 119, 97, 110, 116], seq![116u8, 111, 112, 108, 105, 110, 101], seq![116u8, 111, 112, 102, 105, 108, 108], seq![108u8, 101, 102, 116, 99, 111, 108], seq![115u8, 107, 105, 112, 99, 111, 108]]);
    assert(d@.vals =~= seq![num_tv(1), num_tv(0), num_tv(0), num_tv(0), num_tv(1), num_tv(0), num_tv(0), num_tv(0)]);
    assert(d@.watchers =~= Seq::<WatcherVal>::empty());
    rettv.v_type = VarType::VAR_DICT;
    rettv.vval = typval_vval_union::v_dict(Some(d));
}

/// "swapinfo()": No swap file to read: an error entry.
pub fn f_swapinfo(argvars: &[typval_T], rettv: &mut typval_T)
    ensures final(rettv)@ == with_dict(old(rettv)@, DictVal { keys: seq![seq![101u8, 114, 114, 111, 114]], vals: seq![str_tv(seq![67u8, 97, 110, 110, 111, 116, 32, 111, 112, 101, 110, 32, 102, 105, 108, 101])], ..empty_dict_val() }),
{
    let items: Vec<dictitem_T> = vec![
        dictitem_T { di_key: vec![101u8, 114, 114, 111, 114], di_tv: string_tv(vec![67u8, 97, 110, 110, 111, 116, 32, 111, 112, 101, 110, 32, 102, 105, 108, 101]) },
    ];
    let d = dict_T { dv_hashtab: items, dv_lock: VarLockStatus::VAR_UNLOCKED, dv_refcount: 0, dv_watchers: Vec::new() };
    proof { lemma_dict_view_parts(d); }
    assert(d@.keys =~= seq![seq![101u8, 114, 114, 111, 114]]);
    assert(d@.vals =~= seq![str_tv(seq![67u8, 97, 110, 110, 111, 116, 32, 111, 112, 101, 110, 32, 102, 105, 108, 101])]);
    assert(d@.watchers =~= Seq::<WatcherVal>::empty());
    rettv.v_type = VarType::VAR_DICT;
    rettv.vval = typval_vval_union::v_dict(Some(d));
}

/// "getcharsearch()": No character search yet: the defaults.
pub fn f_getcharsearch(argvars: &[typval_T], rettv: &mut typval_T)
    ensures final(rettv)@ == with_dict(old(rettv)@, DictVal { keys: seq![seq![99u8, 104, 97, 114], seq![102u8, 111, 114, 119, 97, 114, 100], seq![117u8, 110, 116, 105, 108]], vals: seq![str_tv(Seq::<u8>::empty()), num_tv(1), num_tv(0)], ..empty_dict_val() }),
{
    let items: Vec<dictitem_T> = vec![
        dictitem_T { di_key: vec![99u8, 104, 97, 114], di_tv: string_tv(Vec::new()) },
        dictitem_T { di_key: vec![102u8, 111, 114, 119, 97, 114, 100], di_tv: number_tv(1) },
        dictitem_T { di_key: vec![117u8, 110, 116, 105, 108], di_tv: number_tv(0) },
    ];
    let d = dict_T { dv_hashtab: items, dv_lock: VarLockStatus::VAR_UNLOCKED, dv_refcount: 0, dv_watchers: Vec::new() };
    proof { lemma_dict_view_parts(d); }
    assert(d@.keys =~= seq![seq![99u8, 104, 97, 114], seq![102u8, 111, 114, 119, 97, 114, 100], seq![117u8, 110, 116, 105, 108]]);
    assert(d@.vals =~= seq![str_tv(Seq::<u8>::empty()), num_tv(1), num_tv(0)]);
    assert(d@.watchers =~= Seq::<WatcherVal>::empty());
    rettv.v_type = VarType::VAR_DICT;
    rettv.vval = typval_vval_union::v_dict(Some(d));
}

/// "bufnr()": No buffer list: -1.
pub fn f_bufnr(argvars: &[typval_T], rettv: &mut typval_T)
    ensures final(rettv)@ == num_tv(-1),
{
    *rettv = number_tv(-1);
}

/// "bufname()": No buffer list: "".
pub fn f_bufname(argvars: &[typval_T], rettv: &mut typval_T)
    ensures final(rettv)@ == str_tv(Seq::empty()),
{
    *rettv = string_tv(Vec::new());
}

} // verus!
