//! Global variables as a Dict: finding one by name for builtins that ask about variables.
use vstd::prelude::*;
use crate::typval_defs::{
    varnumber_T, OK, FAIL, VarType, VarLockStatus, BoolVarValue, SpecialVarValue, typval_vval_union,
    typval_T, list_T, dict_T, dictitem_T, blob_T, partial_T, Callback, DictWatcher, TypVal, VVal,
    ListVal, DictVal, BlobVal, CallbackVal, WatcherVal, tv_view, list_view, dict_view, items_view, dict_index_of,
    mk_tv, num_tv, str_tv, list_tv, blob_tv, dict_tv, empty_dict_val, dict_wf, keys_unique,
    lemma_items_view_ext, lemma_items_view_index, lemma_items_view_push, lemma_items_view_subrange,
    lemma_items_view_add, lemma_items_view_reverse, lemma_items_view_update, lemma_items_view_insert,
    lemma_items_view_remove, lemma_items_view_empty,
};
use crate::charset::{nr2str, nr2bytes, str2nr, str2nr_all};
use crate::dup::{bytes_dup, tv_dup, list_dup, dict_dup, blob_dup, items_dup, slice_to_vec, callback_dup, append_bytes};
use crate::typval::{
    number_of, number_chk_result, string_of, string_or_empty, tv_get_number_chk, tv_get_number,
    tv_get_bool, tv_get_string, tv_get_string_chk, tv_get_string_buf_chk, tv_equal, tv_equal_spec,
    bytes_eq, dict_find_index,
};
use crate::mbyte::bytes_between;
use crate::typval_dict::{dict_get, tv_dict_find};
use crate::typval_copy::{islocked_spec, tv_islocked};
use crate::typval_list::number_tv;

verus! {

/// A byte that may appear in a variable name.
pub open spec fn is_name_byte(c: u8) -> bool {
    (65 <= c <= 90) || (97 <= c <= 122) || (48 <= c <= 57) || c == 95
}

/// The global variable a name refers to: the name with an optional `g:`
/// scope removed; `None` unless the rest is a plain variable name.
pub open spec fn global_var_name(s: Seq<u8>) -> Option<Seq<u8>> {
    let t = strip_global_scope(s);
    if t.len() > 0 && !(48 <= t[0] <= 57) && all_name_bytes(t) { Some(t) } else { None }
}

/// `s` without a leading `g:`.
pub open spec fn strip_global_scope(s: Seq<u8>) -> Seq<u8> {
    if s.len() >= 2 && s[0] == 103 && s[1] == 58 { s.subrange(2, s.len() as int) } else { s }
}

/// Every byte of `t` may be in a variable name.
pub open spec fn all_name_bytes(t: Seq<u8>) -> bool {
    forall|i: int| 0 <= i < t.len() ==> is_name_byte(#[trigger] t[i])
}

#[verifier::loop_isolation(false)]
fn global_var_name_exec(s: &[u8]) -> (r: Option<Vec<u8>>)
    ensures match global_var_name(s@) { Some(n) => r is Some && r->Some_0@ == n, None => r is None },
{
    let start: usize = if s.len() >= 2 && s[0] == 103u8 && s[1] == 58u8 { 2 } else { 0 };
    let t = bytes_between(s, start, s.len());
    let ghost tt = strip_global_scope(s@);
    proof {
        if start == 0 { assert(t@ =~= s@); }
    }
    assert(t@ == tt);
    if t.len() == 0 || (48u8 <= t[0] && t[0] <= 57u8) {
        return None;
    }
    let mut i: usize = 0;
    while i < t.len()
        invariant i <= t@.len(), forall|k: int| 0 <= k < i ==> is_name_byte(#[trigger] t@[k]),
        decreases t@.len() - i,
    {
        let c = t[i];
        if !((65u8 <= c && c <= 90u8) || (97u8 <= c && c <= 122u8) || (48u8 <= c && c <= 57u8) || c == 95u8) {
            assert(!is_name_byte(t@[i as int]));
            assert(!is_name_byte(tt[i as int]));
            assert(!all_name_bytes(tt));
            return None;
        }
        i += 1;
    }
    Some(t)
}

/// What `islocked()` gives for a name: 1 for a locked global variable, 0
/// for an unlocked one, -1 when there is no such variable (or the name is
/// not one).
pub open spec fn islocked_result(s: Seq<u8>, globals: DictVal) -> int {
    match global_var_name(s) {
        Some(n) => match dict_get(globals, n) {
            Some(v) => if islocked_spec(v) { 1 } else { 0 },
            None => -1,
        },
        None => -1,
    }
}

/// "islocked({expr})": whether the global variable named by `{expr}` is
/// locked (1), not locked (0), or missing (-1).
pub fn f_islocked(argvars: &[typval_T], rettv: &mut typval_T, globals: &dict_T)
    requires argvars@.len() >= 1,
    ensures final(rettv)@ == num_tv(islocked_result(string_or_empty(argvars@[0]@), globals@)),
{
    *rettv = number_tv(-1);
    let name = tv_get_string(&argvars[0]);
    match global_var_name_exec(name.as_slice()) {
        None => {},
        Some(n) => {
            match tv_dict_find(globals, n.as_slice()) {
                Some(v) => {
                    let l = tv_islocked(v);
                    *rettv = number_tv(if l { 1 } else { 0 });
                },
                None => {},
            }
        },
    }
}

} // verus!
