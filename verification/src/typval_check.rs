//! Checks on the types of values and builtin arguments.
use vstd::prelude::*;
use crate::typval_defs::{
    varnumber_T, OK, FAIL, VarType, VarLockStatus, BoolVarValue, SpecialVarValue, typval_vval_union,
    typval_T, list_T, dict_T, dictitem_T, blob_T, partial_T, Callback, DictWatcher, TypVal, VVal,
    ListVal, DictVal, BlobVal, CallbackVal, WatcherVal, tv_view, list_view, dict_view, items_view, dict_index_of,
    mk_tv, num_tv, str_tv, list_tv, blob_tv, dict_tv, empty_dict_val, dict_wf, keys_unique,
    lemma_items_view_ext, lemma_items_view_index, lemma_items_view_push, lemma_items_view_subrange,
    lemma_items_view_add, lemma_items_view_reverse, lemma_items_view_update, lemma_items_view_insert,
    lemma_items_view_remove, lemma_items_view_empty,
};
use crate::charset::{nr2str, nr2bytes, str2nr, str2nr_all};
use crate::message::{emsg, msgs_view, msg_e1212, msg_e1212_exec};
use crate::dup::{bytes_dup, tv_dup, list_dup, dict_dup, blob_dup, items_dup, slice_to_vec, callback_dup};
use crate::typval::{
    number_of, number_chk_result, string_of, string_or_empty, tv_get_number_chk, tv_get_number,
    tv_get_bool, tv_get_string, tv_get_string_chk, tv_get_string_buf_chk, tv_equal, tv_equal_spec,
    bytes_eq, dict_find_index,
};

verus! {

/// The type of argument `idx`, `None` when there are fewer arguments (the
/// absent argument reads as `VAR_UNKNOWN`).
pub open spec fn arg_type_spec(args: Seq<typval_T>, idx: int) -> Option<VarType> {
    if 0 <= idx < args.len() { Some(args[idx].v_type) } else { None }
}

/// Argument `idx` is absent or `VAR_UNKNOWN`.
pub open spec fn arg_unknown(args: Seq<typval_T>, idx: int) -> bool {
    arg_type_spec(args, idx) is None || arg_type_spec(args, idx) == Some(VarType::VAR_UNKNOWN)
}

pub fn arg_type(args: &[typval_T], idx: usize) -> (r: Option<VarType>)
    ensures r == arg_type_spec(args@, idx as int),
{
    if idx < args.len() { Some(args[idx].v_type) } else { None }
}

fn arg_is_unknown(args: &[typval_T], idx: usize) -> (r: bool)
    ensures r == arg_unknown(args@, idx as int),
{
    idx >= args.len() || args[idx].v_type == VarType::VAR_UNKNOWN
}

/// `OK` when argument `idx` is a String.
pub fn tv_check_for_string_arg(args: &[typval_T], idx: usize) -> (r: i32)
    ensures r == (if arg_type_spec(args@, idx as int) == Some(VarType::VAR_STRING) { OK } else { FAIL }),
{
    let t = arg_type(args, idx);
    if t == Some(VarType::VAR_STRING) { OK } else { FAIL }
}

/// `OK` when argument `idx` is a Number.
pub fn tv_check_for_number_arg(args: &[typval_T], idx: usize) -> (r: i32)
    ensures r == (if arg_type_spec(args@, idx as int) == Some(VarType::VAR_NUMBER) { OK } else { FAIL }),
{
    let t = arg_type(args, idx);
    if t == Some(VarType::VAR_NUMBER) { OK } else { FAIL }
}

/// `OK` when argument `idx` is a Float or a Number.
pub fn tv_check_for_float_or_nr_arg(args: &[typval_T], idx: usize) -> (r: i32)
    ensures r == (if arg_type_spec(args@, idx as int) == Some(VarType::VAR_FLOAT) || arg_type_spec(args@, idx as int) == Some(VarType::VAR_NUMBER) { OK } else { FAIL }),
{
    let t = arg_type(args, idx);
    if t == Some(VarType::VAR_FLOAT) || t == Some(VarType::VAR_NUMBER) { OK } else { FAIL }
}

/// `OK` when argument `idx` is a Blob.
pub fn tv_check_for_blob_arg(args: &[typval_T], idx: usize) -> (r: i32)
    ensures r == (if arg_type_spec(args@, idx as int) == Some(VarType::VAR_BLOB) { OK } else { FAIL }),
{
    let t = arg_type(args, idx);
    if t == Some(VarType::VAR_BLOB) { OK } else { FAIL }
}

/// `OK` when argument `idx` is a List.
pub fn tv_check_for_list_arg(args: &[typval_T], idx: usize) -> (r: i32)
    ensures r == (if arg_type_spec(args@, idx as int) == Some(VarType::VAR_LIST) { OK } else { FAIL }),
{
    let t = arg_type(args, idx);
    if t == Some(VarType::VAR_LIST) { OK } else { FAIL }
}

/// `OK` when argument `idx` is a Dictionary.
pub fn tv_check_for_dict_arg(args: &[typval_T], idx: usize) -> (r: i32)
    ensures r == (if arg_type_spec(args@, idx as int) == Some(VarType::VAR_DICT) { OK } else { FAIL }),
{
    let t = arg_type(args, idx);
    if t == Some(VarType::VAR_DICT) { OK } else { FAIL }
}

/// `OK` when argument `idx` is a String or a Number.
pub fn tv_check_for_string_or_number_arg(args: &[typval_T], idx: usize) -> (r: i32)
    ensures r == (if arg_type_spec(args@, idx as int) == Some(VarType::VAR_STRING) || arg_type_spec(args@, idx as int) == Some(VarType::VAR_NUMBER) { OK } else { FAIL }),
{
    let t = arg_type(args, idx);
    if t == Some(VarType::VAR_STRING) || t == Some(VarType::VAR_NUMBER) { OK } else { FAIL }
}

/// `OK` when argument `idx` is a String or a List.
pub fn tv_check_for_string_or_list_arg(args: &[typval_T], idx: usize) -> (r: i32)
    ensures r == (if arg_type_spec(args@, idx as int) == Some(VarType::VAR_STRING) || arg_type_spec(args@, idx as int) == Some(VarType::VAR_LIST) { OK } else { FAIL }),
{
    let t = arg_type(args, idx);
    if t == Some(VarType::VAR_STRING) || t == Some(VarType::VAR_LIST) { OK } else { FAIL }
}

/// `OK` when argument `idx` is a String, a List or a Blob.
pub fn tv_check_for_string_or_list_or_blob_arg(args: &[typval_T], idx: usize) -> (r: i32)
    ensures r == (if arg_type_spec(args@, idx as int) == Some(VarType::VAR_STRING) || arg_type_spec(args@, idx as int) == Some(VarType::VAR_LIST) || arg_type_spec(args@, idx as int) == Some(VarType::VAR_BLOB) { OK } else { FAIL }),
{
    let t = arg_type(args, idx);
    if t == Some(VarType::VAR_STRING) || t == Some(VarType::VAR_LIST) || t == Some(VarType::VAR_BLOB) { OK } else { FAIL }
}

/// `OK` when argument `idx` is a String, a Funcref or a Partial.
pub fn tv_check_for_string_or_func_arg(args: &[typval_T], idx: usize) -> (r: i32)
    ensures r == (if arg_type_spec(args@, idx as int) == Some(VarType::VAR_PARTIAL) || arg_type_spec(args@, idx as int) == Some(VarType::VAR_FUNC) || arg_type_spec(args@, idx as int) == Some(VarType::VAR_STRING) { OK } else { FAIL }),
{
    let t = arg_type(args, idx);
    if t == Some(VarType::VAR_PARTIAL) || t == Some(VarType::VAR_FUNC) || t == Some(VarType::VAR_STRING) { OK } else { FAIL }
}

/// `OK` when argument `idx` is a List or a Blob.
pub fn tv_check_for_list_or_blob_arg(args: &[typval_T], idx: usize) -> (r: i32)
    ensures r == (if arg_type_spec(args@, idx as int) == Some(VarType::VAR_LIST) || arg_type_spec(args@, idx as int) == Some(VarType::VAR_BLOB) { OK } else { FAIL }),
{
    let t = arg_type(args, idx);
    if t == Some(VarType::VAR_LIST) || t == Some(VarType::VAR_BLOB) { OK } else { FAIL }
}

/// `OK` when argument `idx` is
/// a non-empty String.
pub fn tv_check_for_nonempty_string_arg(args: &[typval_T], idx: usize) -> (r: i32)
    ensures r == (if arg_type_spec(args@, idx as int) == Some(VarType::VAR_STRING)
        && !(args@[idx as int]@.v is Str && args@[idx as int]@.v->Str_0.len() == 0) { OK } else { FAIL }),
{
    if tv_check_for_string_arg(args, idx) == FAIL {
        return FAIL;
    }
    match &args[idx].vval {
        typval_vval_union::v_string(s) => if s.len() == 0 { FAIL } else { OK },
        _ => OK,
    }
}

/// `OK` when argument `idx` is
/// absent or a String.
pub fn tv_check_for_opt_string_arg(args: &[typval_T], idx: usize) -> (r: i32)
    ensures r == (if arg_unknown(args@, idx as int) || arg_type_spec(args@, idx as int) == Some(VarType::VAR_STRING) { OK } else { FAIL }),
{
    if arg_is_unknown(args, idx) || tv_check_for_string_arg(args, idx) != FAIL { OK } else { FAIL }
}

/// `OK` when argument `idx` is
/// absent or a Number.
pub fn tv_check_for_opt_number_arg(args: &[typval_T], idx: usize) -> (r: i32)
    ensures r == (if arg_unknown(args@, idx as int) || arg_type_spec(args@, idx as int) == Some(VarType::VAR_NUMBER) { OK } else { FAIL }),
{
    if arg_is_unknown(args, idx) || tv_check_for_number_arg(args, idx) != FAIL { OK } else { FAIL }
}

/// A Bool argument: a Bool, or a Number that is 0 or 1.
pub open spec fn is_bool_arg(args: Seq<typval_T>, idx: int) -> bool {
    0 <= idx < args.len() && (args[idx].v_type == VarType::VAR_BOOL
        || (args[idx].v_type == VarType::VAR_NUMBER && (args[idx]@.v == VVal::Number(0) || args[idx]@.v == VVal::Number(1))))
}

/// The error for argument `idx` that is no Bool (E1212, with the
/// argument's place counted from 1).
pub open spec fn bool_arg_error(idx: int) -> Seq<u8> {
    msg_e1212() + nr2str(idx + 1)
}

fn report_bool_arg(errs: &mut Vec<Vec<u8>>, idx: usize)
    requires idx < 0x7fff_ffff_ffff_ffff,
    ensures msgs_view(final(errs)@) == msgs_view(old(errs)@).push(bool_arg_error(idx as int)),
{
    let mut m = msg_e1212_exec();
    let s = nr2bytes(idx as i64 + 1);
    crate::dup::append_bytes(&mut m, s.as_slice());
    emsg(errs, m);
}

/// `OK` when argument `idx` is a Bool, or
/// a Number that is 0 or 1; else `FAIL`, reported (E1212).
pub fn tv_check_for_bool_arg(args: &[typval_T], idx: usize, errs: &mut Vec<Vec<u8>>) -> (r: i32)
    requires idx < 0x7fff_ffff_ffff_ffff,
    ensures
        r == (if is_bool_arg(args@, idx as int) { OK } else { FAIL }),
        msgs_view(final(errs)@) == (if is_bool_arg(args@, idx as int) { msgs_view(old(errs)@) }
            else { msgs_view(old(errs)@).push(bool_arg_error(idx as int)) }),
{
    if idx >= args.len() {
        report_bool_arg(errs, idx);
        return FAIL;
    }
    let a = &args[idx];
    let ok = if a.v_type == VarType::VAR_BOOL {
        true
    } else if a.v_type == VarType::VAR_NUMBER {
        match &a.vval {
            typval_vval_union::v_number(n) => *n == 0 || *n == 1,
            _ => false,
        }
    } else {
        false
    };
    if ok {
        OK
    } else {
        report_bool_arg(errs, idx);
        FAIL
    }
}

/// `OK` when argument `idx` is absent
/// or a Bool.
pub fn tv_check_for_opt_bool_arg(args: &[typval_T], idx: usize, errs: &mut Vec<Vec<u8>>) -> (r: i32)
    requires idx < 0x7fff_ffff_ffff_ffff,
    ensures
        r == (if arg_unknown(args@, idx as int) || is_bool_arg(args@, idx as int) { OK } else { FAIL }),
        msgs_view(final(errs)@) == (if arg_unknown(args@, idx as int) || is_bool_arg(args@, idx as int) { msgs_view(old(errs)@) }
            else { msgs_view(old(errs)@).push(bool_arg_error(idx as int)) }),
{
    if arg_is_unknown(args, idx) {
        return OK;
    }
    tv_check_for_bool_arg(args, idx, errs)
}

/// `OK` when argument `idx` is absent
/// or a Dictionary.
pub fn tv_check_for_opt_dict_arg(args: &[typval_T], idx: usize) -> (r: i32)
    ensures r == (if arg_unknown(args@, idx as int) || arg_type_spec(args@, idx as int) == Some(VarType::VAR_DICT) { OK } else { FAIL }),
{
    if arg_is_unknown(args, idx) || tv_check_for_dict_arg(args, idx) != FAIL { OK } else { FAIL }
}

/// `OK` when argument `idx`
/// is absent, a String or a List.
pub fn tv_check_for_opt_string_or_list_arg(args: &[typval_T], idx: usize) -> (r: i32)
    ensures r == (if arg_unknown(args@, idx as int) || arg_type_spec(args@, idx as int) == Some(VarType::VAR_STRING)
        || arg_type_spec(args@, idx as int) == Some(VarType::VAR_LIST) { OK } else { FAIL }),
{
    if arg_is_unknown(args, idx) || tv_check_for_string_or_list_arg(args, idx) != FAIL { OK } else { FAIL }
}

/// A buffer is a Number or a String.
pub fn tv_check_for_buffer_arg(args: &[typval_T], idx: usize) -> (r: i32)
    ensures r == (if arg_type_spec(args@, idx as int) == Some(VarType::VAR_STRING) || arg_type_spec(args@, idx as int) == Some(VarType::VAR_NUMBER) { OK } else { FAIL }),
{
    tv_check_for_string_or_number_arg(args, idx)
}

/// A line number is a Number or a String.
pub fn tv_check_for_lnum_arg(args: &[typval_T], idx: usize) -> (r: i32)
    ensures r == (if arg_type_spec(args@, idx as int) == Some(VarType::VAR_STRING) || arg_type_spec(args@, idx as int) == Some(VarType::VAR_NUMBER) { OK } else { FAIL }),
{
    tv_check_for_string_or_number_arg(args, idx)
}

/// The value is a Number or a String.
pub fn tv_check_str_or_nr(tv: &typval_T) -> (r: bool)
    ensures r == (tv.v_type == VarType::VAR_NUMBER || tv.v_type == VarType::VAR_STRING),
{
    tv.v_type == VarType::VAR_NUMBER || tv.v_type == VarType::VAR_STRING
}

/// The value is a Number or converts to one
/// (Bool, Special, String).
pub fn tv_check_num(tv: &typval_T) -> (r: bool)
    ensures r == (tv.v_type == VarType::VAR_NUMBER || tv.v_type == VarType::VAR_BOOL
        || tv.v_type == VarType::VAR_SPECIAL || tv.v_type == VarType::VAR_STRING),
{
    tv.v_type == VarType::VAR_NUMBER || tv.v_type == VarType::VAR_BOOL
        || tv.v_type == VarType::VAR_SPECIAL || tv.v_type == VarType::VAR_STRING
}

/// The value is a String or converts to one
/// (Number, Bool, Special, Float).
pub fn tv_check_str(tv: &typval_T) -> (r: bool)
    ensures r == (tv.v_type == VarType::VAR_NUMBER || tv.v_type == VarType::VAR_BOOL
        || tv.v_type == VarType::VAR_SPECIAL || tv.v_type == VarType::VAR_STRING || tv.v_type == VarType::VAR_FLOAT),
{
    tv.v_type == VarType::VAR_NUMBER || tv.v_type == VarType::VAR_BOOL
        || tv.v_type == VarType::VAR_SPECIAL || tv.v_type == VarType::VAR_STRING || tv.v_type == VarType::VAR_FLOAT
}

} // verus!
