//! The table of builtin functions and their argument counts; looking builtins up and calling them.
use vstd::prelude::*;
use crate::typval_defs::{
    varnumber_T, OK, FAIL, VarType, VarLockStatus, BoolVarValue, SpecialVarValue, typval_vval_union,
    typval_T, list_T, dict_T, dictitem_T, blob_T, partial_T, Callback, DictWatcher, TypVal, VVal,
    ListVal, DictVal, BlobVal, CallbackVal, WatcherVal, tv_view, list_view, dict_view, items_view, dict_index_of,
    mk_tv, num_tv, str_tv, list_tv, blob_tv, dict_tv, empty_dict_val, dict_wf, keys_unique,
    lemma_items_view_ext, lemma_items_view_index, lemma_items_view_push, lemma_items_view_subrange,
    lemma_items_view_add, lemma_items_view_reverse, lemma_items_view_update, lemma_items_view_insert,
    lemma_items_view_remove, lemma_items_view_empty,
};
use crate::charset::{nr2str, nr2bytes, str2nr, str2nr_all};
use crate::message::{emsg, msgs_view, after_report, msg_e119, msg_e119_exec, msg_e118, msg_e118_exec};
use crate::dup::{bytes_dup, tv_dup, list_dup, dict_dup, blob_dup, items_dup, slice_to_vec, callback_dup, append_bytes};
use crate::typval::{
    number_of, number_chk_result, string_of, string_or_empty, tv_get_number_chk, tv_get_number,
    tv_get_bool, tv_get_string, tv_get_string_chk, tv_get_string_buf_chk, tv_equal, tv_equal_spec,
    bytes_eq, dict_find_index,
};
use crate::funcs_basic::{with_number, with_string};

verus! {

/// One builtin's argument counts: the fewest and most arguments it takes
/// (`ARGC_ANY`: no limit) and the position of the argument a method call puts
/// its base in (1-based, 0 for none).
pub struct BuiltinArgc {
    pub name: Vec<u8>,
    pub min_argc: u8,
    pub max_argc: u8,
    pub base_arg: u8,
}

/// `max_argc` of a builtin that takes any number of arguments.
pub const ARGC_ANY: u8 = 255;

/// The models of table rows.
pub open spec fn argc_view(t: Seq<BuiltinArgc>) -> Seq<(Seq<u8>, u8, u8, u8)> {
    Seq::new(t.len(), |i: int| (t[i].name@, t[i].min_argc, t[i].max_argc, t[i].base_arg))
}

/// Rows of the builtin table.
pub open spec fn builtins_0() -> Seq<(Seq<u8>, u8, u8, u8)> {
    seq![(seq![97u8, 98u8, 115u8], 1u8, 1u8, 1u8), (seq![97u8, 100u8, 100u8], 2u8, 2u8, 1u8), (seq![97u8, 110u8, 100u8], 2u8, 2u8, 1u8), (seq![97u8, 112u8, 105u8, 95u8, 105u8, 110u8, 102u8, 111u8], 0u8, 0u8, 0u8), (seq![97u8, 112u8, 112u8, 101u8, 110u8, 100u8], 2u8, 2u8, 2u8), (seq![97u8, 112u8, 112u8, 101u8, 110u8, 100u8, 98u8, 117u8, 102u8, 108u8, 105u8, 110u8, 101u8], 3u8, 3u8, 3u8), (seq![97u8, 114u8, 103u8, 99u8], 0u8, 1u8, 0u8), (seq![97u8, 114u8, 103u8, 105u8, 100u8, 120u8], 0u8, 0u8, 0u8), (seq![97u8, 114u8, 103u8, 108u8, 105u8, 115u8, 116u8, 105u8, 100u8], 0u8, 2u8, 0u8), (seq![97u8, 114u8, 103u8, 118u8], 0u8, 2u8, 0u8)]
}

fn push_builtins_0(t: &mut Vec<BuiltinArgc>)
    ensures argc_view(final(t)@) =~= argc_view(old(t)@) + builtins_0(),
{
    let ghost start = argc_view(t@);
    let n0: Vec<u8> = vec![97u8, 98u8, 115u8];
    assert(n0@ =~= seq![97u8, 98u8, 115u8]);
    t.push(BuiltinArgc { name: n0, min_argc: 1, max_argc: 1, base_arg: 1 });
    let n1: Vec<u8> = vec![97u8, 100u8, 100u8];
    assert(n1@ =~= seq![97u8, 100u8, 100u8]);
    t.push(BuiltinArgc { name: n1, min_argc: 2, max_argc: 2, base_arg: 1 });
    let n2: Vec<u8> = vec![97u8, 110u8, 100u8];
    assert(n2@ =~= seq![97u8, 110u8, 100u8]);
    t.push(BuiltinArgc { name: n2, min_argc: 2, max_argc: 2, base_arg: 1 });
    let n3: Vec<u8> = vec![97u8, 112u8, 105u8, 95u8, 105u8, 110u8, 102u8, 111u8];
    assert(n3@ =~= seq![97u8, 112u8, 105u8, 95u8, 105u8, 110u8, 102u8, 111u8]);
    t.push(BuiltinArgc { name: n3, min_argc: 0, max_argc: 0, base_arg: 0 });
    let n4: Vec<u8> = vec![97u8, 112u8, 112u8, 101u8, 110u8, 100u8];
    assert(n4@ =~= seq![97u8, 112u8, 112u8, 101u8, 110u8, 100u8]);
    t.push(BuiltinArgc { name: n4, min_argc: 2, max_argc: 2, base_arg: 2 });
    let n5: Vec<u8> = vec![97u8, 112u8, 112u8, 101u8, 110u8, 100u8, 98u8, 117u8, 102u8, 108u8, 105u8, 110u8, 101u8];
    assert(n5@ =~= seq![97u8, 112u8, 112u8, 101u8, 110u8, 100u8, 98u8, 117u8, 102u8, 108u8, 105u8, 110u8, 101u8]);
    t.push(BuiltinArgc { name: n5, min_argc: 3, max_argc: 3, base_arg: 3 });
    let n6: Vec<u8> = vec![97u8, 114u8, 103u8, 99u8];
    assert(n6@ =~= seq![97u8, 114u8, 103u8, 99u8]);
    t.push(BuiltinArgc { name: n6, min_argc: 0, max_argc: 1, base_arg: 0 });
    let n7: Vec<u8> = vec![97u8, 114u8, 103u8, 105u8, 100u8, 120u8];
    assert(n7@ =~= seq![97u8, 114u8, 103u8, 105u8, 100u8, 120u8]);
    t.push(BuiltinArgc { name: n7, min_argc: 0, max_argc: 0, base_arg: 0 });
    let n8: Vec<u8> = vec![97u8, 114u8, 103u8, 108u8, 105u8, 115u8, 116u8, 105u8, 100u8];
    assert(n8@ =~= seq![97u8, 114u8, 103u8, 108u8, 105u8, 115u8, 116u8, 105u8, 100u8]);
    t.push(BuiltinArgc { name: n8, min_argc: 0, max_argc: 2, base_arg: 0 });
    let n9: Vec<u8> = vec![97u8, 114u8, 103u8, 118u8];
    assert(n9@ =~= seq![97u8, 114u8, 103u8, 118u8]);
    t.push(BuiltinArgc { name: n9, min_argc: 0, max_argc: 2, base_arg: 0 });
    assert(argc_view(t@) =~= start + builtins_0());
}

/// Rows of the builtin table.
pub open spec fn builtins_1() -> Seq<(Seq<u8>, u8, u8, u8)> {
    seq![(seq![97u8, 115u8, 115u8, 101u8, 114u8, 116u8, 95u8, 101u8, 113u8, 117u8, 97u8, 108u8], 2u8, 3u8, 2u8), (seq![97u8, 115u8, 115u8, 101u8, 114u8, 116u8, 95u8, 101u8, 113u8, 117u8, 97u8, 108u8, 102u8, 105u8, 108u8, 101u8], 2u8, 3u8, 1u8), (seq![97u8, 115u8, 115u8, 101u8, 114u8, 116u8, 95u8, 101u8, 120u8, 99u8, 101u8, 112u8, 116u8, 105u8, 111u8, 110u8], 1u8, 2u8, 0u8), (seq![97u8, 115u8, 115u8, 101u8, 114u8, 116u8, 95u8, 102u8, 97u8, 108u8, 115u8, 101u8], 1u8, 2u8, 1u8), (seq![97u8, 115u8, 115u8, 101u8, 114u8, 116u8, 95u8, 105u8, 110u8, 114u8, 97u8, 110u8, 103u8, 101u8], 3u8, 4u8, 3u8), (seq![97u8, 115u8, 115u8, 101u8, 114u8, 116u8, 95u8, 109u8, 97u8, 116u8, 99u8, 104u8], 2u8, 3u8, 2u8), (seq![97u8, 115u8, 115u8, 101u8, 114u8, 116u8, 95u8, 110u8, 111u8, 116u8, 101u8, 113u8, 117u8, 97u8, 108u8], 2u8, 3u8, 2u8), (seq![97u8, 115u8, 115u8, 101u8, 114u8, 116u8, 95u8, 110u8, 111u8, 116u8, 109u8, 97u8, 116u8, 99u8, 104u8], 2u8, 3u8, 2u8), (seq![97u8, 115u8, 115u8, 101u8, 114u8, 116u8, 95u8, 114u8, 101u8, 112u8, 111u8, 114u8, 116u8], 1u8, 1u8, 1u8), (seq![97u8, 115u8, 115u8, 101u8, 114u8, 116u8, 95u8, 116u8, 114u8, 117u8, 101u8], 1u8, 2u8, 1u8)]
}

fn push_builtins_1(t: &mut Vec<BuiltinArgc>)
    ensures argc_view(final(t)@) =~= argc_view(old(t)@) + builtins_1(),
{
    let ghost start = argc_view(t@);
    let n0: Vec<u8> = vec![97u8, 115u8, 115u8, 101u8, 114u8, 116u8, 95u8, 101u8, 113u8, 117u8, 97u8, 108u8];
    assert(n0@ =~= seq![97u8, 115u8, 115u8, 101u8, 114u8, 116u8, 95u8, 101u8, 113u8, 117u8, 97u8, 108u8]);
    t.push(BuiltinArgc { name: n0, min_argc: 2, max_argc: 3, base_arg: 2 });
    let n1: Vec<u8> = vec![97u8, 115u8, 115u8, 101u8, 114u8, 116u8, 95u8, 101u8, 113u8, 117u8, 97u8, 108u8, 102u8, 105u8, 108u8, 101u8];
    assert(n1@ =~= seq![97u8, 115u8, 115u8, 101u8, 114u8, 116u8, 95u8, 101u8, 113u8, 117u8, 97u8, 108u8, 102u8, 105u8, 108u8, 101u8]);
    t.push(BuiltinArgc { name: n1, min_argc: 2, max_argc: 3, base_arg: 1 });
    let n2: Vec<u8> = vec![97u8, 115u8, 115u8, 101u8, 114u8, 116u8, 95u8, 101u8, 120u8, 99u8, 101u8, 112u8, 116u8, 105u8, 111u8, 110u8];
    assert(n2@ =~= seq![97u8, 115u8, 115u8, 101u8, 114u8, 116u8, 95u8, 101u8, 120u8, 99u8, 101u8, 112u8, 116u8, 105u8, 111u8, 110u8]);
    t.push(BuiltinArgc { name: n2, min_argc: 1, max_argc: 2, base_arg: 0 });
    let n3: Vec<u8> = vec![97u8, 115u8, 115u8, 101u8, 114u8, 116u8, 95u8, 102u8, 97u8, 108u8, 115u8, 101u8];
    assert(n3@ =~= seq![97u8, 115u8, 115u8, 101u8, 114u8, 116u8, 95u8, 102u8, 97u8, 108u8, 115u8, 101u8]);
    t.push(BuiltinArgc { name: n3, min_argc: 1, max_argc: 2, base_arg: 1 });
    let n4: Vec<u8> = vec![97u8, 115u8, 115u8, 101u8, 114u8, 116u8, 95u8, 105u8, 110u8, 114u8, 97u8, 110u8, 103u8, 101u8];
    assert(n4@ =~= seq![97u8, 115u8, 115u8, 101u8, 114u8, 116u8, 95u8, 105u8, 110u8, 114u8, 97u8, 110u8, 103u8, 101u8]);
    t.push(BuiltinArgc { name: n4, min_argc: 3, max_argc: 4, base_arg: 3 });
    let n5: Vec<u8> = vec![97u8, 115u8, 115u8, 101u8, 114u8, 116u8, 95u8, 109u8, 97u8, 116u8, 99u8, 104u8];
    assert(n5@ =~= seq![97u8, 115u8, 115u8, 101u8, 114u8, 116u8, 95u8, 109u8, 97u8, 116u8, 99u8, 104u8]);
    t.push(BuiltinArgc { name: n5, min_argc: 2, max_argc: 3, base_arg: 2 });
    let n6: Vec<u8> = vec![97u8, 115u8, 115u8, 101u8, 114u8, 116u8, 95u8, 110u8, 111u8, 116u8, 101u8, 113u8, 117u8, 97u8, 108u8];
    assert(n6@ =~= seq![97u8, 115u8, 115u8, 101u8, 114u8, 116u8, 95u8, 110u8, 111u8, 116u8, 101u8, 113u8, 117u8, 97u8, 108u8]);
    t.push(BuiltinArgc { name: n6, min_argc: 2, max_argc: 3, base_arg: 2 });
    let n7: Vec<u8> = vec![97u8, 115u8, 115u8, 101u8, 114u8, 116u8, 95u8, 110u8, 111u8, 116u8, 109u8, 97u8, 116u8, 99u8, 104u8];
    assert(n7@ =~= seq![97u8, 115u8, 115u8, 101u8, 114u8, 116u8, 95u8, 110u8, 111u8, 116u8, 109u8, 97u8, 116u8, 99u8, 104u8]);
    t.push(BuiltinArgc { name: n7, min_argc: 2, max_argc: 3, base_arg: 2 });
    let n8: Vec<u8> = vec![97u8, 115u8, 115u8, 101u8, 114u8, 116u8, 95u8, 114u8, 101u8, 112u8, 111u8, 114u8, 116u8];
    assert(n8@ =~= seq![97u8, 115u8, 115u8, 101u8, 114u8, 116u8, 95u8, 114u8, 101u8, 112u8, 111u8, 114u8, 116u8]);
    t.push(BuiltinArgc { name: n8, min_argc: 1, max_argc: 1, base_arg: 1 });
    let n9: Vec<u8> = vec![97u8, 115u8, 115u8, 101u8, 114u8, 116u8, 95u8, 116u8, 114u8, 117u8, 101u8];
    assert(n9@ =~= seq![97u8, 115u8, 115u8, 101u8, 114u8, 116u8, 95u8, 116u8, 114u8, 117u8, 101u8]);
    t.push(BuiltinArgc { name: n9, min_argc: 1, max_argc: 2, base_arg: 1 });
    assert(argc_view(t@) =~= start + builtins_1());
}

/// Rows of the builtin table.
pub open spec fn builtins_2() -> Seq<(Seq<u8>, u8, u8, u8)> {
    seq![(seq![97u8, 116u8, 97u8, 110u8, 50u8], 2u8, 2u8, 1u8), (seq![98u8, 108u8, 111u8, 98u8, 50u8, 108u8, 105u8, 115u8, 116u8], 1u8, 1u8, 1u8), (seq![98u8, 117u8, 102u8, 97u8, 100u8, 100u8], 1u8, 1u8, 1u8), (seq![98u8, 117u8, 102u8, 101u8, 120u8, 105u8, 115u8, 116u8, 115u8], 1u8, 1u8, 1u8), (seq![98u8, 117u8, 102u8, 108u8, 105u8, 115u8, 116u8, 101u8, 100u8], 1u8, 1u8, 1u8), (seq![98u8, 117u8, 102u8, 108u8, 111u8, 97u8, 100u8], 1u8, 1u8, 1u8), (seq![98u8, 117u8, 102u8, 108u8, 111u8, 97u8, 100u8, 101u8, 100u8], 1u8, 1u8, 1u8), (seq![98u8, 117u8, 102u8, 110u8, 97u8, 109u8, 101u8], 0u8, 1u8, 1u8), (seq![98u8, 117u8, 102u8, 110u8, 114u8], 0u8, 2u8, 1u8), (seq![98u8, 117u8, 102u8, 119u8, 105u8, 110u8, 105u8, 100u8], 1u8, 1u8, 1u8)]
}

fn push_builtins_2(t: &mut Vec<BuiltinArgc>)
    ensures argc_view(final(t)@) =~= argc_view(old(t)@) + builtins_2(),
{
    let ghost start = argc_view(t@);
    let n0: Vec<u8> = vec![97u8, 116u8, 97u8, 110u8, 50u8];
    assert(n0@ =~= seq![97u8, 116u8, 97u8, 110u8, 50u8]);
    t.push(BuiltinArgc { name: n0, min_argc: 2, max_argc: 2, base_arg: 1 });
    let n1: Vec<u8> = vec![98u8, 108u8, 111u8, 98u8, 50u8, 108u8, 105u8, 115u8, 116u8];
    assert(n1@ =~= seq![98u8, 108u8, 111u8, 98u8, 50u8, 108u8, 105u8, 115u8, 116u8]);
    t.push(BuiltinArgc { name: n1, min_argc: 1, max_argc: 1, base_arg: 1 });
    let n2: Vec<u8> = vec![98u8, 117u8, 102u8, 97u8, 100u8, 100u8];
    assert(n2@ =~= seq![98u8, 117u8, 102u8, 97u8, 100u8, 100u8]);
    t.push(BuiltinArgc { name: n2, min_argc: 1, max_argc: 1, base_arg: 1 });
    let n3: Vec<u8> = vec![98u8, 117u8, 102u8, 101u8, 120u8, 105u8, 115u8, 116u8, 115u8];
    assert(n3@ =~= seq![98u8, 117u8, 102u8, 101u8, 120u8, 105u8, 115u8, 116u8, 115u8]);
    t.push(BuiltinArgc { name: n3, min_argc: 1, max_argc: 1, base_arg: 1 });
    let n4: Vec<u8> = vec![98u8, 117u8, 102u8, 108u8, 105u8, 115u8, 116u8, 101u8, 100u8];
    assert(n4@ =~= seq![98u8, 117u8, 102u8, 108u8, 105u8, 115u8, 116u8, 101u8, 100u8]);
    t.push(BuiltinArgc { name: n4, min_argc: 1, max_argc: 1, base_arg: 1 });
    let n5: Vec<u8> = vec![98u8, 117u8, 102u8, 108u8, 111u8, 97u8, 100u8];
    assert(n5@ =~= seq![98u8, 117u8, 102u8, 108u8, 111u8, 97u8, 100u8]);
    t.push(BuiltinArgc { name: n5, min_argc: 1, max_argc: 1, base_arg: 1 });
    let n6: Vec<u8> = vec![98u8, 117u8, 102u8, 108u8, 111u8, 97u8, 100u8, 101u8, 100u8];
    assert(n6@ =~= seq![98u8, 117u8, 102u8, 108u8, 111u8, 97u8, 100u8, 101u8, 100u8]);
    t.push(BuiltinArgc { name: n6, min_argc: 1, max_argc: 1, base_arg: 1 });
    let n7: Vec<u8> = vec![98u8, 117u8, 102u8, 110u8, 97u8, 109u8, 101u8];
    assert(n7@ =~= seq![98u8, 117u8, 102u8, 110u8, 97u8, 109u8, 101u8]);
    t.push(BuiltinArgc { name: n7, min_argc: 0, max_argc: 1, base_arg: 1 });
    let n8: Vec<u8> = vec![98u8, 117u8, 102u8, 110u8, 114u8];
    assert(n8@ =~= seq![98u8, 117u8, 102u8, 110u8, 114u8]);
    t.push(BuiltinArgc { name: n8, min_argc: 0, max_argc: 2, base_arg: 1 });
    let n9: Vec<u8> = vec![98u8, 117u8, 102u8, 119u8, 105u8, 110u8, 105u8, 100u8];
    assert(n9@ =~= seq![98u8, 117u8, 102u8, 119u8, 105u8, 110u8, 105u8, 100u8]);
    t.push(BuiltinArgc { name: n9, min_argc: 1, max_argc: 1, base_arg: 1 });
    assert(argc_view(t@) =~= start + builtins_2());
}

/// Rows of the builtin table.
pub open spec fn builtins_3() -> Seq<(Seq<u8>, u8, u8, u8)> {
    seq![(seq![98u8, 117u8, 102u8, 119u8, 105u8, 110u8, 110u8, 114u8], 1u8, 1u8, 1u8), (seq![98u8, 121u8, 116u8, 101u8, 50u8, 108u8, 105u8, 110u8, 101u8], 1u8, 1u8, 1u8), (seq![99u8, 97u8, 108u8, 108u8], 2u8, 3u8, 1u8), (seq![99u8, 104u8, 97u8, 110u8, 99u8, 108u8, 111u8, 115u8, 101u8], 1u8, 2u8, 0u8), (seq![99u8, 104u8, 97u8, 110u8, 103u8, 101u8, 110u8, 114u8], 0u8, 0u8, 0u8), (seq![99u8, 104u8, 97u8, 110u8, 115u8, 101u8, 110u8, 100u8], 2u8, 2u8, 0u8), (seq![99u8, 104u8, 97u8, 114u8, 50u8, 110u8, 114u8], 1u8, 2u8, 1u8), (seq![99u8, 104u8, 97u8, 114u8, 99u8, 111u8, 108u8], 1u8, 2u8, 1u8), (seq![99u8, 105u8, 110u8, 100u8, 101u8, 110u8, 116u8], 1u8, 1u8, 1u8), (seq![99u8, 108u8, 101u8, 97u8, 114u8, 109u8, 97u8, 116u8, 99u8, 104u8, 101u8, 115u8], 0u8, 1u8, 1u8)]
}

fn push_builtins_3(t: &mut Vec<BuiltinArgc>)
    ensures argc_view(final(t)@) =~= argc_view(old(t)@) + builtins_3(),
{
    let ghost start = argc_view(t@);
    let n0: Vec<u8> = vec![98u8, 117u8, 102u8, 119u8, 105u8, 110u8, 110u8, 114u8];
    assert(n0@ =~= seq![98u8, 117u8, 102u8, 119u8, 105u8, 110u8, 110u8, 114u8]);
    t.push(BuiltinArgc { name: n0, min_argc: 1, max_argc: 1, base_arg: 1 });
    let n1: Vec<u8> = vec![98u8, 121u8, 116u8, 101u8, 50u8, 108u8, 105u8, 110u8, 101u8];
    assert(n1@ =~= seq![98u8, 121u8, 116u8, 101u8, 50u8, 108u8, 105u8, 110u8, 101u8]);
    t.push(BuiltinArgc { name: n1, min_argc: 1, max_argc: 1, base_arg: 1 });
    let n2: Vec<u8> = vec![99u8, 97u8, 108u8, 108u8];
    assert(n2@ =~= seq![99u8, 97u8, 108u8, 108u8]);
    t.push(BuiltinArgc { name: n2, min_argc: 2, max_argc: 3, base_arg: 1 });
    let n3: Vec<u8> = vec![99u8, 104u8, 97u8, 110u8, 99u8, 108u8, 111u8, 115u8, 101u8];
    assert(n3@ =~= seq![99u8, 104u8, 97u8, 110u8, 99u8, 108u8, 111u8, 115u8, 101u8]);
    t.push(BuiltinArgc { name: n3, min_argc: 1, max_argc: 2, base_arg: 0 });
    let n4: Vec<u8> = vec![99u8, 104u8, 97u8, 110u8, 103u8, 101u8, 110u8, 114u8];
    assert(n4@ =~= seq![99u8, 104u8, 97u8, 110u8, 103u8, 101u8, 110u8, 114u8]);
    t.push(BuiltinArgc { name: n4, min_argc: 0, max_argc: 0, base_arg: 0 });
    let n5: Vec<u8> = vec![99u8, 104u8, 97u8, 110u8, 115u8, 101u8, 110u8, 100u8];
    assert(n5@ =~= seq![99u8, 104u8, 97u8, 110u8, 115u8, 101u8, 110u8, 100u8]);
    t.push(BuiltinArgc { name: n5, min_argc: 2, max_argc: 2, base_arg: 0 });
    let n6: Vec<u8> = vec![99u8, 104u8, 97u8, 114u8, 50u8, 110u8, 114u8];
    assert(n6@ =~= seq![99u8, 104u8, 97u8, 114u8, 50u8, 110u8, 114u8]);
    t.push(BuiltinArgc { name: n6, min_argc: 1, max_argc: 2, base_arg: 1 });
    let n7: Vec<u8> = vec![99u8, 104u8, 97u8, 114u8, 99u8, 111u8, 108u8];
    assert(n7@ =~= seq![99u8, 104u8, 97u8, 114u8, 99u8, 111u8, 108u8]);
    t.push(BuiltinArgc { name: n7, min_argc: 1, max_argc: 2, base_arg: 1 });
    let n8: Vec<u8> = vec![99u8, 105u8, 110u8, 100u8, 101u8, 110u8, 116u8];
    assert(n8@ =~= seq![99u8, 105u8, 110u8, 100u8, 101u8, 110u8, 116u8]);
    t.push(BuiltinArgc { name: n8, min_argc: 1, max_argc: 1, base_arg: 1 });
    let n9: Vec<u8> = vec![99u8, 108u8, 101u8, 97u8, 114u8, 109u8, 97u8, 116u8, 99u8, 104u8, 101u8, 115u8];
    assert(n9@ =~= seq![99u8, 108u8, 101u8, 97u8, 114u8, 109u8, 97u8, 116u8, 99u8, 104u8, 101u8, 115u8]);
    t.push(BuiltinArgc { name: n9, min_argc: 0, max_argc: 1, base_arg: 1 });
    assert(argc_view(t@) =~= start + builtins_3());
}

/// Rows of the builtin table.
pub open spec fn builtins_4() -> Seq<(Seq<u8>, u8, u8, u8)> {
    seq![(seq![99u8, 109u8, 100u8, 99u8, 111u8, 109u8, 112u8, 108u8, 101u8, 116u8, 101u8, 95u8, 105u8, 110u8, 102u8, 111u8], 0u8, 0u8, 0u8), (seq![99u8, 111u8, 108u8], 1u8, 2u8, 1u8), (seq![99u8, 111u8, 109u8, 112u8, 108u8, 101u8, 116u8, 101u8], 2u8, 2u8, 2u8), (seq![99u8, 111u8, 109u8, 112u8, 108u8, 101u8, 116u8, 101u8, 95u8, 97u8, 100u8, 100u8], 1u8, 1u8, 1u8), (seq![99u8, 111u8, 109u8, 112u8, 108u8, 101u8, 116u8, 101u8, 95u8, 99u8, 104u8, 101u8, 99u8, 107u8], 0u8, 0u8, 0u8), (seq![99u8, 111u8, 109u8, 112u8, 108u8, 101u8, 116u8, 101u8, 95u8, 105u8, 110u8, 102u8, 111u8], 0u8, 1u8, 1u8), (seq![99u8, 111u8, 110u8, 102u8, 105u8, 114u8, 109u8], 1u8, 4u8, 1u8), (seq![99u8, 111u8, 112u8, 121u8], 1u8, 1u8, 1u8), (seq![99u8, 111u8, 117u8, 110u8, 116u8], 2u8, 4u8, 1u8), (seq![99u8, 116u8, 120u8, 103u8, 101u8, 116u8], 0u8, 1u8, 0u8)]
}

fn push_builtins_4(t: &mut Vec<BuiltinArgc>)
    ensures argc_view(final(t)@) =~= argc_view(old(t)@) + builtins_4(),
{
    let ghost start = argc_view(t@);
    let n0: Vec<u8> = vec![99u8, 109u8, 100u8, 99u8, 111u8, 109u8, 112u8, 108u8, 101u8, 116u8, 101u8, 95u8, 105u8, 110u8, 102u8, 111u8];
    assert(n0@ =~= seq![99u8, 109u8, 100u8, 99u8, 111u8, 109u8, 112u8, 108u8, 101u8, 116u8, 101u8, 95u8, 105u8, 110u8, 102u8, 111u8]);
    t.push(BuiltinArgc { name: n0, min_argc: 0, max_argc: 0, base_arg: 0 });
    let n1: Vec<u8> = vec![99u8, 111u8, 108u8];
    assert(n1@ =~= seq![99u8, 111u8, 108u8]);
    t.push(BuiltinArgc { name: n1, min_argc: 1, max_argc: 2, base_arg: 1 });
    let n2: Vec<u8> = vec![99u8, 111u8, 109u8, 112u8, 108u8, 101u8, 116u8, 101u8];
    assert(n2@ =~= seq![99u8, 111u8, 109u8, 112u8, 108u8, 101u8, 116u8, 101u8]);
    t.push(BuiltinArgc { name: n2, min_argc: 2, max_argc: 2, base_arg: 2 });
    let n3: Vec<u8> = vec![99u8, 111u8, 109u8, 112u8, 108u8, 101u8, 116u8, 101u8, 95u8, 97u8, 100u8, 100u8];
    assert(n3@ =~= seq![99u8, 111u8, 109u8, 112u8, 108u8, 101u8, 116u8, 101u8, 95u8, 97u8, 100u8, 100u8]);
    t.push(BuiltinArgc { name: n3, min_argc: 1, max_argc: 1, base_arg: 1 });
    let n4: Vec<u8> = vec![99u8, 111u8, 109u8, 112u8, 108u8, 101u8, 116u8, 101u8, 95u8, 99u8, 104u8, 101u8, 99u8, 107u8];
    assert(n4@ =~= seq![99u8, 111u8, 109u8, 112u8, 108u8, 101u8, 116u8, 101u8, 95u8, 99u8, 104u8, 101u8, 99u8, 107u8]);
    t.push(BuiltinArgc { name: n4, min_argc: 0, max_argc: 0, base_arg: 0 });
    let n5: Vec<u8> = vec![99u8, 111u8, 109u8, 112u8, 108u8, 101u8, 116u8, 101u8, 95u8, 105u8, 110u8, 102u8, 111u8];
    assert(n5@ =~= seq![99u8, 111u8, 109u8, 112u8, 108u8, 101u8, 116u8, 101u8, 95u8, 105u8, 110u8, 102u8, 111u8]);
    t.push(BuiltinArgc { name: n5, min_argc: 0, max_argc: 1, base_arg: 1 });
    let n6: Vec<u8> = vec![99u8, 111u8, 110u8, 102u8, 105u8, 114u8, 109u8];
    assert(n6@ =~= seq![99u8, 111u8, 110u8, 102u8, 105u8, 114u8, 109u8]);
    t.push(BuiltinArgc { name: n6, min_argc: 1, max_argc: 4, base_arg: 1 });
    let n7: Vec<u8> = vec![99u8, 111u8, 112u8, 121u8];
    assert(n7@ =~= seq![99u8, 111u8, 112u8, 121u8]);
    t.push(BuiltinArgc { name: n7, min_argc: 1, max_argc: 1, base_arg: 1 });
    let n8: Vec<u8> = vec![99u8, 111u8, 117u8, 110u8, 116u8];
    assert(n8@ =~= seq![99u8, 111u8, 117u8, 110u8, 116u8]);
    t.push(BuiltinArgc { name: n8, min_argc: 2, max_argc: 4, base_arg: 1 });
    let n9: Vec<u8> = vec![99u8, 116u8, 120u8, 103u8, 101u8, 116u8];
    assert(n9@ =~= seq![99u8, 116u8, 120u8, 103u8, 101u8, 116u8]);
    t.push(BuiltinArgc { name: n9, min_argc: 0, max_argc: 1, base_arg: 0 });
    assert(argc_view(t@) =~= start + builtins_4());
}

/// Rows of the builtin table.
pub open spec fn builtins_5() -> Seq<(Seq<u8>, u8, u8, u8)> {
    seq![(seq![99u8, 116u8, 120u8, 112u8, 111u8, 112u8], 0u8, 0u8, 0u8), (seq![99u8, 116u8, 120u8, 112u8, 117u8, 115u8, 104u8], 0u8, 1u8, 0u8), (seq![99u8, 116u8, 120u8, 115u8, 101u8, 116u8], 1u8, 2u8, 0u8), (seq![99u8, 116u8, 120u8, 115u8, 105u8, 122u8, 101u8], 0u8, 0u8, 0u8), (seq![99u8, 117u8, 114u8, 115u8, 111u8, 114u8], 1u8, 3u8, 1u8), (seq![100u8, 101u8, 98u8, 117u8, 103u8, 98u8, 114u8, 101u8, 97u8, 107u8], 1u8, 1u8, 1u8), (seq![100u8, 101u8, 101u8, 112u8, 99u8, 111u8, 112u8, 121u8], 1u8, 2u8, 1u8), (seq![100u8, 101u8, 108u8, 101u8, 116u8, 101u8, 98u8, 117u8, 102u8, 108u8, 105u8, 110u8, 101u8], 2u8, 3u8, 1u8), (seq![100u8, 105u8, 99u8, 116u8, 119u8, 97u8, 116u8, 99u8, 104u8, 101u8, 114u8, 97u8, 100u8, 100u8], 3u8, 3u8, 0u8), (seq![100u8, 105u8, 99u8, 116u8, 119u8, 97u8, 116u8, 99u8, 104u8, 101u8, 114u8, 100u8, 101u8, 108u8], 3u8, 3u8, 0u8)]
}

fn push_builtins_5(t: &mut Vec<BuiltinArgc>)
    ensures argc_view(final(t)@) =~= argc_view(old(t)@) + builtins_5(),
{
    let ghost start = argc_view(t@);
    let n0: Vec<u8> = vec![99u8, 116u8, 120u8, 112u8, 111u8, 112u8];
    assert(n0@ =~= seq![99u8, 116u8, 120u8, 112u8, 111u8, 112u8]);
    t.push(BuiltinArgc { name: n0, min_argc: 0, max_argc: 0, base_arg: 0 });
    let n1: Vec<u8> = vec![99u8, 116u8, 120u8, 112u8, 117u8, 115u8, 104u8];
    assert(n1@ =~= seq![99u8, 116u8, 120u8, 112u8, 117u8, 115u8, 104u8]);
    t.push(BuiltinArgc { name: n1, min_argc: 0, max_argc: 1, base_arg: 0 });
    let n2: Vec<u8> = vec![99u8, 116u8, 120u8, 115u8, 101u8, 116u8];
    assert(n2@ =~= seq![99u8, 116u8, 120u8, 115u8, 101u8, 116u8]);
    t.push(BuiltinArgc { name: n2, min_argc: 1, max_argc: 2, base_arg: 0 });
    let n3: Vec<u8> = vec![99u8, 116u8, 120u8, 115u8, 105u8, 122u8, 101u8];
    assert(n3@ =~= seq![99u8, 116u8, 120u8, 115u8, 105u8, 122u8, 101u8]);
    t.push(BuiltinArgc { name: n3, min_argc: 0, max_argc: 0, base_arg: 0 });
    let n4: Vec<u8> = vec![99u8, 117u8, 114u8, 115u8, 111u8, 114u8];
    assert(n4@ =~= seq![99u8, 117u8, 114u8, 115u8, 111u8, 114u8]);
    t.push(BuiltinArgc { name: n4, min_argc: 1, max_argc: 3, base_arg: 1 });
    let n5: Vec<u8> = vec![100u8, 101u8, 98u8, 117u8, 103u8, 98u8, 114u8, 101u8, 97u8, 107u8];
    assert(n5@ =~= seq![100u8, 101u8, 98u8, 117u8, 103u8, 98u8, 114u8, 101u8, 97u8, 107u8]);
    t.push(BuiltinArgc { name: n5, min_argc: 1, max_argc: 1, base_arg: 1 });
    let n6: Vec<u8> = vec![100u8, 101u8, 101u8, 112u8, 99u8, 111u8, 112u8, 121u8];
    assert(n6@ =~= seq![100u8, 101u8, 101u8, 112u8, 99u8, 111u8, 112u8, 121u8]);
    t.push(BuiltinArgc { name: n6, min_argc: 1, max_argc: 2, base_arg: 1 });
    let n7: Vec<u8> = vec![100u8, 101u8, 108u8, 101u8, 116u8, 101u8, 98u8, 117u8, 102u8, 108u8, 105u8, 110u8, 101u8];
    assert(n7@ =~= seq![100u8, 101u8, 108u8, 101u8, 116u8, 101u8, 98u8, 117u8, 102u8, 108u8, 105u8, 110u8, 101u8]);
    t.push(BuiltinArgc { name: n7, min_argc: 2, max_argc: 3, base_arg: 1 });
    let n8: Vec<u8> = vec![100u8, 105u8, 99u8, 116u8, 119u8, 97u8, 116u8, 99u8, 104u8, 101u8, 114u8, 97u8, 100u8, 100u8];
    assert(n8@ =~= seq![100u8, 105u8, 99u8, 116u8, 119u8, 97u8, 116u8, 99u8, 104u8, 101u8, 114u8, 97u8, 100u8, 100u8]);
    t.push(BuiltinArgc { name: n8, min_argc: 3, max_argc: 3, base_arg: 0 });
    let n9: Vec<u8> = vec![100u8, 105u8, 99u8, 116u8, 119u8, 97u8, 116u8, 99u8, 104u8, 101u8, 114u8, 100u8, 101u8, 108u8];
    assert(n9@ =~= seq![100u8, 105u8, 99u8, 116u8, 119u8, 97u8, 116u8, 99u8, 104u8, 101u8, 114u8, 100u8, 101u8, 108u8]);
    t.push(BuiltinArgc { name: n9, min_argc: 3, max_argc: 3, base_arg: 0 });
    assert(argc_view(t@) =~= start + builtins_5());
}

/// Rows of the builtin table.
pub open spec fn builtins_6() -> Seq<(Seq<u8>, u8, u8, u8)> {
    seq![(seq![100u8, 105u8, 100u8, 95u8, 102u8, 105u8, 108u8, 101u8, 116u8, 121u8, 112u8, 101u8], 0u8, 0u8, 0u8), (seq![100u8, 105u8, 102u8, 102u8, 95u8, 102u8, 105u8, 108u8, 108u8, 101u8, 114u8], 1u8, 1u8, 1u8), (seq![100u8, 105u8, 102u8, 102u8, 95u8, 104u8, 108u8, 73u8, 68u8], 2u8, 2u8, 1u8), (seq![100u8, 105u8, 103u8, 114u8, 97u8, 112u8, 104u8, 95u8, 103u8, 101u8, 116u8], 1u8, 1u8, 1u8), (seq![100u8, 105u8, 103u8, 114u8, 97u8, 112u8, 104u8, 95u8, 103u8, 101u8, 116u8, 108u8, 105u8, 115u8, 116u8], 0u8, 1u8, 1u8), (seq![100u8, 105u8, 103u8, 114u8, 97u8, 112u8, 104u8, 95u8, 115u8, 101u8, 116u8], 2u8, 2u8, 1u8), (seq![100u8, 105u8, 103u8, 114u8, 97u8, 112u8, 104u8, 95u8, 115u8, 101u8, 116u8, 108u8, 105u8, 115u8, 116u8], 1u8, 1u8, 1u8), (seq![101u8, 109u8, 112u8, 116u8, 121u8], 1u8, 1u8, 1u8), (seq![101u8, 110u8, 118u8, 105u8, 114u8, 111u8, 110u8], 0u8, 0u8, 0u8), (seq![101u8, 115u8, 99u8, 97u8, 112u8, 101u8], 2u8, 2u8, 1u8)]
}

fn push_builtins_6(t: &mut Vec<BuiltinArgc>)
    ensures argc_view(final(t)@) =~= argc_view(old(t)@) + builtins_6(),
{
    let ghost start = argc_view(t@);
    let n0: Vec<u8> = vec![100u8, 105u8, 100u8, 95u8, 102u8, 105u8, 108u8, 101u8, 116u8, 121u8, 112u8, 101u8];
    assert(n0@ =~= seq![100u8, 105u8, 100u8, 95u8, 102u8, 105u8, 108u8, 101u8, 116u8, 121u8, 112u8, 101u8]);
    t.push(BuiltinArgc { name: n0, min_argc: 0, max_argc: 0, base_arg: 0 });
    let n1: Vec<u8> = vec![100u8, 105u8, 102u8, 102u8, 95u8, 102u8, 105u8, 108u8, 108u8, 101u8, 114u8];
    assert(n1@ =~= seq![100u8, 105u8, 102u8, 102u8, 95u8, 102u8, 105u8, 108u8, 108u8, 101u8, 114u8]);
    t.push(BuiltinArgc { name: n1, min_argc: 1, max_argc: 1, base_arg: 1 });
    let n2: Vec<u8> = vec![100u8, 105u8, 102u8, 102u8, 95u8, 104u8, 108u8, 73u8, 68u8];
    assert(n2@ =~= seq![100u8, 105u8, 102u8, 102u8, 95u8, 104u8, 108u8, 73u8, 68u8]);
    t.push(BuiltinArgc { name: n2, min_argc: 2, max_argc: 2, base_arg: 1 });
    let n3: Vec<u8> = vec![100u8, 105u8, 103u8, 114u8, 97u8, 112u8, 104u8, 95u8, 103u8, 101u8, 116u8];
    assert(n3@ =~= seq![100u8, 105u8, 103u8, 114u8, 97u8, 112u8, 104u8, 95u8, 103u8, 101u8, 116u8]);
    t.push(BuiltinArgc { name: n3, min_argc: 1, max_argc: 1, base_arg: 1 });
    let n4: Vec<u8> = vec![100u8, 105u8, 103u8, 114u8, 97u8, 112u8, 104u8, 95u8, 103u8, 101u8, 116u8, 108u8, 105u8, 115u8, 116u8];
    assert(n4@ =~= seq![100u8, 105u8, 103u8, 114u8, 97u8, 112u8, 104u8, 95u8, 103u8, 101u8, 116u8, 108u8, 105u8, 115u8, 116u8]);
    t.push(BuiltinArgc { name: n4, min_argc: 0, max_argc: 1, base_arg: 1 });
    let n5: Vec<u8> = vec![100u8, 105u8, 103u8, 114u8, 97u8, 112u8, 104u8, 95u8, 115u8, 101u8, 116u8];
    assert(n5@ =~= seq![100u8, 105u8, 103u8, 114u8, 97u8, 112u8, 104u8, 95u8, 115u8, 101u8, 116u8]);
    t.push(BuiltinArgc { name: n5, min_argc: 2, max_argc: 2, base_arg: 1 });
    let n6: Vec<u8> = vec![100u8, 105u8, 103u8, 114u8, 97u8, 112u8, 104u8, 95u8, 115u8, 101u8, 116u8, 108u8, 105u8, 115u8, 116u8];
    assert(n6@ =~= seq![100u8, 105u8, 103u8, 114u8, 97u8, 112u8, 104u8, 95u8, 115u8, 101u8, 116u8, 108u8, 105u8, 115u8, 116u8]);
    t.push(BuiltinArgc { name: n6, min_argc: 1, max_argc: 1, base_arg: 1 });
    let n7: Vec<u8> = vec![101u8, 109u8, 112u8, 116u8, 121u8];
    assert(n7@ =~= seq![101u8, 109u8, 112u8, 116u8, 121u8]);
    t.push(BuiltinArgc { name: n7, min_argc: 1, max_argc: 1, base_arg: 1 });
    let n8: Vec<u8> = vec![101u8, 110u8, 118u8, 105u8, 114u8, 111u8, 110u8];
    assert(n8@ =~= seq![101u8, 110u8, 118u8, 105u8, 114u8, 111u8, 110u8]);
    t.push(BuiltinArgc { name: n8, min_argc: 0, max_argc: 0, base_arg: 0 });
    let n9: Vec<u8> = vec![101u8, 115u8, 99u8, 97u8, 112u8, 101u8];
    assert(n9@ =~= seq![101u8, 115u8, 99u8, 97u8, 112u8, 101u8]);
    t.push(BuiltinArgc { name: n9, min_argc: 2, max_argc: 2, base_arg: 1 });
    assert(argc_view(t@) =~= start + builtins_6());
}

/// Rows of the builtin table.
pub open spec fn builtins_7() -> Seq<(Seq<u8>, u8, u8, u8)> {
    seq![(seq![101u8, 118u8, 97u8, 108u8], 1u8, 1u8, 1u8), (seq![101u8, 118u8, 101u8, 110u8, 116u8, 104u8, 97u8, 110u8, 100u8, 108u8, 101u8, 114u8], 0u8, 0u8, 0u8), (seq![101u8, 120u8, 101u8, 99u8, 117u8, 116u8, 101u8], 1u8, 2u8, 1u8), (seq![101u8, 120u8, 105u8, 115u8, 116u8, 115u8], 1u8, 1u8, 1u8), (seq![101u8, 120u8, 116u8, 101u8, 110u8, 100u8], 2u8, 3u8, 1u8), (seq![101u8, 120u8, 116u8, 101u8, 110u8, 100u8, 110u8, 101u8, 119u8], 2u8, 3u8, 1u8), (seq![102u8, 101u8, 101u8, 100u8, 107u8, 101u8, 121u8, 115u8], 1u8, 2u8, 1u8), (seq![102u8, 105u8, 108u8, 116u8, 101u8, 114u8], 2u8, 2u8, 1u8), (seq![102u8, 108u8, 97u8, 116u8, 116u8, 101u8, 110u8], 1u8, 2u8, 1u8), (seq![102u8, 108u8, 97u8, 116u8, 116u8, 101u8, 110u8, 110u8, 101u8, 119u8], 1u8, 2u8, 1u8)]
}

fn push_builtins_7(t: &mut Vec<BuiltinArgc>)
    ensures argc_view(final(t)@) =~= argc_view(old(t)@) + builtins_7(),
{
    let ghost start = argc_view(t@);
    let n0: Vec<u8> = vec![101u8, 118u8, 97u8, 108u8];
    assert(n0@ =~= seq![101u8, 118u8, 97u8, 108u8]);
    t.push(BuiltinArgc { name: n0, min_argc: 1, max_argc: 1, base_arg: 1 });
    let n1: Vec<u8> = vec![101u8, 118u8, 101u8, 110u8, 116u8, 104u8, 97u8, 110u8, 100u8, 108u8, 101u8, 114u8];
    assert(n1@ =~= seq![101u8, 118u8, 101u8, 110u8, 116u8, 104u8, 97u8, 110u8, 100u8, 108u8, 101u8, 114u8]);
    t.push(BuiltinArgc { name: n1, min_argc: 0, max_argc: 0, base_arg: 0 });
    let n2: Vec<u8> = vec![101u8, 120u8, 101u8, 99u8, 117u8, 116u8, 101u8];
    assert(n2@ =~= seq![101u8, 120u8, 101u8, 99u8, 117u8, 116u8, 101u8]);
    t.push(BuiltinArgc { name: n2, min_argc: 1, max_argc: 2, base_arg: 1 });
    let n3: Vec<u8> = vec![101u8, 120u8, 105u8, 115u8, 116u8, 115u8];
    assert(n3@ =~= seq![101u8, 120u8, 105u8, 115u8, 116u8, 115u8]);
    t.push(BuiltinArgc { name: n3, min_argc: 1, max_argc: 1, base_arg: 1 });
    let n4: Vec<u8> = vec![101u8, 120u8, 116u8, 101u8, 110u8, 100u8];
    assert(n4@ =~= seq![101u8, 120u8, 116u8, 101u8, 110u8, 100u8]);
    t.push(BuiltinArgc { name: n4, min_argc: 2, max_argc: 3, base_arg: 1 });
    let n5: Vec<u8> = vec![101u8, 120u8, 116u8, 101u8, 110u8, 100u8, 110u8, 101u8, 119u8];
    assert(n5@ =~= seq![101u8, 120u8, 116u8, 101u8, 110u8, 100u8, 110u8, 101u8, 119u8]);
    t.push(BuiltinArgc { name: n5, min_argc: 2, max_argc: 3, base_arg: 1 });
    let n6: Vec<u8> = vec![102u8, 101u8, 101u8, 100u8, 107u8, 101u8, 121u8, 115u8];
    assert(n6@ =~= seq![102u8, 101u8, 101u8, 100u8, 107u8, 101u8, 121u8, 115u8]);
    t.push(BuiltinArgc { name: n6, min_argc: 1, max_argc: 2, base_arg: 1 });
    let n7: Vec<u8> = vec![102u8, 105u8, 108u8, 116u8, 101u8, 114u8];
    assert(n7@ =~= seq![102u8, 105u8, 108u8, 116u8, 101u8, 114u8]);
    t.push(BuiltinArgc { name: n7, min_argc: 2, max_argc: 2, base_arg: 1 });
    let n8: Vec<u8> = vec![102u8, 108u8, 97u8, 116u8, 116u8, 101u8, 110u8];
    assert(n8@ =~= seq![102u8, 108u8, 97u8, 116u8, 116u8, 101u8, 110u8]);
    t.push(BuiltinArgc { name: n8, min_argc: 1, max_argc: 2, base_arg: 1 });
    let n9: Vec<u8> = vec![102u8, 108u8, 97u8, 116u8, 116u8, 101u8, 110u8, 110u8, 101u8, 119u8];
    assert(n9@ =~= seq![102u8, 108u8, 97u8, 116u8, 116u8, 101u8, 110u8, 110u8, 101u8, 119u8]);
    t.push(BuiltinArgc { name: n9, min_argc: 1, max_argc: 2, base_arg: 1 });
    assert(argc_view(t@) =~= start + builtins_7());
}

/// Rows of the builtin table.
pub open spec fn builtins_8() -> Seq<(Seq<u8>, u8, u8, u8)> {
    seq![(seq![102u8, 108u8, 111u8, 97u8, 116u8, 50u8, 110u8, 114u8], 1u8, 1u8, 1u8), (seq![102u8, 109u8, 111u8, 100u8], 2u8, 2u8, 1u8), (seq![102u8, 110u8, 97u8, 109u8, 101u8, 101u8, 115u8, 99u8, 97u8, 112u8, 101u8], 1u8, 1u8, 1u8), (seq![102u8, 111u8, 108u8, 100u8, 99u8, 108u8, 111u8, 115u8, 101u8, 100u8], 1u8, 1u8, 1u8), (seq![102u8, 111u8, 108u8, 100u8, 99u8, 108u8, 111u8, 115u8, 101u8, 100u8, 101u8, 110u8, 100u8], 1u8, 1u8, 1u8), (seq![102u8, 111u8, 108u8, 100u8, 108u8, 101u8, 118u8, 101u8, 108u8], 1u8, 1u8, 1u8), (seq![102u8, 111u8, 108u8, 100u8, 116u8, 101u8, 120u8, 116u8], 0u8, 0u8, 0u8), (seq![102u8, 111u8, 108u8, 100u8, 116u8, 101u8, 120u8, 116u8, 114u8, 101u8, 115u8, 117u8, 108u8, 116u8], 1u8, 1u8, 1u8), (seq![102u8, 111u8, 114u8, 101u8, 97u8, 99u8, 104u8], 2u8, 2u8, 1u8), (seq![102u8, 111u8, 114u8, 101u8, 103u8, 114u8, 111u8, 117u8, 110u8, 100u8], 0u8, 0u8, 0u8)]
}

fn push_builtins_8(t: &mut Vec<BuiltinArgc>)
    ensures argc_view(final(t)@) =~= argc_view(old(t)@) + builtins_8(),
{
    let ghost start = argc_view(t@);
    let n0: Vec<u8> = vec![102u8, 108u8, 111u8, 97u8, 116u8, 50u8, 110u8, 114u8];
    assert(n0@ =~= seq![102u8, 108u8, 111u8, 97u8, 116u8, 50u8, 110u8, 114u8]);
    t.push(BuiltinArgc { name: n0, min_argc: 1, max_argc: 1, base_arg: 1 });
    let n1: Vec<u8> = vec![102u8, 109u8, 111u8, 100u8];
    assert(n1@ =~= seq![102u8, 109u8, 111u8, 100u8]);
    t.push(BuiltinArgc { name: n1, min_argc: 2, max_argc: 2, base_arg: 1 });
    let n2: Vec<u8> = vec![102u8, 110u8, 97u8, 109u8, 101u8, 101u8, 115u8, 99u8, 97u8, 112u8, 101u8];
    assert(n2@ =~= seq![102u8, 110u8, 97u8, 109u8, 101u8, 101u8, 115u8, 99u8, 97u8, 112u8, 101u8]);
    t.push(BuiltinArgc { name: n2, min_argc: 1, max_argc: 1, base_arg: 1 });
    let n3: Vec<u8> = vec![102u8, 111u8, 108u8, 100u8, 99u8, 108u8, 111u8, 115u8, 101u8, 100u8];
    assert(n3@ =~= seq![102u8, 111u8, 108u8, 100u8, 99u8, 108u8, 111u8, 115u8, 101u8, 100u8]);
    t.push(BuiltinArgc { name: n3, min_argc: 1, max_argc: 1, base_arg: 1 });
    let n4: Vec<u8> = vec![102u8, 111u8, 108u8, 100u8, 99u8, 108u8, 111u8, 115u8, 101u8, 100u8, 101u8, 110u8, 100u8];
    assert(n4@ =~= seq![102u8, 111u8, 108u8, 100u8, 99u8, 108u8, 111u8, 115u8, 101u8, 100u8, 101u8, 110u8, 100u8]);
    t.push(BuiltinArgc { name: n4, min_argc: 1, max_argc: 1, base_arg: 1 });
    let n5: Vec<u8> = vec![102u8, 111u8, 108u8, 100u8, 108u8, 101u8, 118u8, 101u8, 108u8];
    assert(n5@ =~= seq![102u8, 111u8, 108u8, 100u8, 108u8, 101u8, 118u8, 101u8, 108u8]);
    t.push(BuiltinArgc { name: n5, min_argc: 1, max_argc: 1, base_arg: 1 });
    let n6: Vec<u8> = vec![102u8, 111u8, 108u8, 100u8, 116u8, 101u8, 120u8, 116u8];
    assert(n6@ =~= seq![102u8, 111u8, 108u8, 100u8, 116u8, 101u8, 120u8, 116u8]);
    t.push(BuiltinArgc { name: n6, min_argc: 0, max_argc: 0, base_arg: 0 });
    let n7: Vec<u8> = vec![102u8, 111u8, 108u8, 100u8, 116u8, 101u8, 120u8, 116u8, 114u8, 101u8, 115u8, 117u8, 108u8, 116u8];
    assert(n7@ =~= seq![102u8, 111u8, 108u8, 100u8, 116u8, 101u8, 120u8, 116u8, 114u8, 101u8, 115u8, 117u8, 108u8, 116u8]);
    t.push(BuiltinArgc { name: n7, min_argc: 1, max_argc: 1, base_arg: 1 });
    let n8: Vec<u8> = vec![102u8, 111u8, 114u8, 101u8, 97u8, 99u8, 104u8];
    assert(n8@ =~= seq![102u8, 111u8, 114u8, 101u8, 97u8, 99u8, 104u8]);
    t.push(BuiltinArgc { name: n8, min_argc: 2, max_argc: 2, base_arg: 1 });
    let n9: Vec<u8> = vec![102u8, 111u8, 114u8, 101u8, 103u8, 114u8, 111u8, 117u8, 110u8, 100u8];
    assert(n9@ =~= seq![102u8, 111u8, 114u8, 101u8, 103u8, 114u8, 111u8, 117u8, 110u8, 100u8]);
    t.push(BuiltinArgc { name: n9, min_argc: 0, max_argc: 0, base_arg: 0 });
    assert(argc_view(t@) =~= start + builtins_8());
}

/// Rows of the builtin table.
pub open spec fn builtins_9() -> Seq<(Seq<u8>, u8, u8, u8)> {
    seq![(seq![102u8, 117u8, 108u8, 108u8, 99u8, 111u8, 109u8, 109u8, 97u8, 110u8, 100u8], 1u8, 2u8, 1u8), (seq![102u8, 117u8, 110u8, 99u8, 114u8, 101u8, 102u8], 1u8, 3u8, 1u8), (seq![102u8, 117u8, 110u8, 99u8, 116u8, 105u8, 111u8, 110u8], 1u8, 3u8, 1u8), (seq![103u8, 97u8, 114u8, 98u8, 97u8, 103u8, 101u8, 99u8, 111u8, 108u8, 108u8, 101u8, 99u8, 116u8], 0u8, 1u8, 0u8), (seq![103u8, 101u8, 116u8], 2u8, 3u8, 1u8), (seq![103u8, 101u8, 116u8, 98u8, 117u8, 102u8, 105u8, 110u8, 102u8, 111u8], 0u8, 1u8, 1u8), (seq![103u8, 101u8, 116u8, 98u8, 117u8, 102u8, 108u8, 105u8, 110u8, 101u8], 2u8, 3u8, 1u8), (seq![103u8, 101u8, 116u8, 98u8, 117u8, 102u8, 111u8, 110u8, 101u8, 108u8, 105u8, 110u8, 101u8], 2u8, 2u8, 1u8), (seq![103u8, 101u8, 116u8, 98u8, 117u8, 102u8, 118u8, 97u8, 114u8], 2u8, 3u8, 1u8), (seq![103u8, 101u8, 116u8, 99u8, 104u8, 97u8, 110u8, 103u8, 101u8, 108u8, 105u8, 115u8, 116u8], 0u8, 1u8, 1u8)]
}

fn push_builtins_9(t: &mut Vec<BuiltinArgc>)
    ensures argc_view(final(t)@) =~= argc_view(old(t)@) + builtins_9(),
{
    let ghost start = argc_view(t@);
    let n0: Vec<u8> = vec![102u8, 117u8, 108u8, 108u8, 99u8, 111u8, 109u8, 109u8, 97u8, 110u8, 100u8];
    assert(n0@ =~= seq![102u8, 117u8, 108u8, 108u8, 99u8, 111u8, 109u8, 109u8, 97u8, 110u8, 100u8]);
    t.push(BuiltinArgc { name: n0, min_argc: 1, max_argc: 2, base_arg: 1 });
    let n1: Vec<u8> = vec![102u8, 117u8, 110u8, 99u8, 114u8, 101u8, 102u8];
    assert(n1@ =~= seq![102u8, 117u8, 110u8, 99u8, 114u8, 101u8, 102u8]);
    t.push(BuiltinArgc { name: n1, min_argc: 1, max_argc: 3, base_arg: 1 });
    let n2: Vec<u8> = vec![102u8, 117u8, 110u8, 99u8, 116u8, 105u8, 111u8, 110u8];
    assert(n2@ =~= seq![102u8, 117u8, 110u8, 99u8, 116u8, 105u8, 111u8, 110u8]);
    t.push(BuiltinArgc { name: n2, min_argc: 1, max_argc: 3, base_arg: 1 });
    let n3: Vec<u8> = vec![103u8, 97u8, 114u8, 98u8, 97u8, 103u8, 101u8, 99u8, 111u8, 108u8, 108u8, 101u8, 99u8, 116u8];
    assert(n3@ =~= seq![103u8, 97u8, 114u8, 98u8, 97u8, 103u8, 101u8, 99u8, 111u8, 108u8, 108u8, 101u8, 99u8, 116u8]);
    t.push(BuiltinArgc { name: n3, min_argc: 0, max_argc: 1, base_arg: 0 });
    let n4: Vec<u8> = vec![103u8, 101u8, 116u8];
    assert(n4@ =~= seq![103u8, 101u8, 116u8]);
    t.push(BuiltinArgc { name: n4, min_argc: 2, max_argc: 3, base_arg: 1 });
    let n5: Vec<u8> = vec![103u8, 101u8, 116u8, 98u8, 117u8, 102u8, 105u8, 110u8, 102u8, 111u8];
    assert(n5@ =~= seq![103u8, 101u8, 116u8, 98u8, 117u8, 102u8, 105u8, 110u8, 102u8, 111u8]);
    t.push(BuiltinArgc { name: n5, min_argc: 0, max_argc: 1, base_arg: 1 });
    let n6: Vec<u8> = vec![103u8, 101u8, 116u8, 98u8, 117u8, 102u8, 108u8, 105u8, 110u8, 101u8];
    assert(n6@ =~= seq![103u8, 101u8, 116u8, 98u8, 117u8, 102u8, 108u8, 105u8, 110u8, 101u8]);
    t.push(BuiltinArgc { name: n6, min_argc: 2, max_argc: 3, base_arg: 1 });
    let n7: Vec<u8> = vec![103u8, 101u8, 116u8, 98u8, 117u8, 102u8, 111u8, 110u8, 101u8, 108u8, 105u8, 110u8, 101u8];
    assert(n7@ =~= seq![103u8, 101u8, 116u8, 98u8, 117u8, 102u8, 111u8, 110u8, 101u8, 108u8, 105u8, 110u8, 101u8]);
    t.push(BuiltinArgc { name: n7, min_argc: 2, max_argc: 2, base_arg: 1 });
    let n8: Vec<u8> = vec![103u8, 101u8, 116u8, 98u8, 117u8, 102u8, 118u8, 97u8, 114u8];
    assert(n8@ =~= seq![103u8, 101u8, 116u8, 98u8, 117u8, 102u8, 118u8, 97u8, 114u8]);
    t.push(BuiltinArgc { name: n8, min_argc: 2, max_argc: 3, base_arg: 1 });
    let n9: Vec<u8> = vec![103u8, 101u8, 116u8, 99u8, 104u8, 97u8, 110u8, 103u8, 101u8, 108u8, 105u8, 115u8, 116u8];
    assert(n9@ =~= seq![103u8, 101u8, 116u8, 99u8, 104u8, 97u8, 110u8, 103u8, 101u8, 108u8, 105u8, 115u8, 116u8]);
    t.push(BuiltinArgc { name: n9, min_argc: 0, max_argc: 1, base_arg: 1 });
    assert(argc_view(t@) =~= start + builtins_9());
}

/// Rows of the builtin table.
pub open spec fn builtins_10() -> Seq<(Seq<u8>, u8, u8, u8)> {
    seq![(seq![103u8, 101u8, 116u8, 99u8, 104u8, 97u8, 114u8], 0u8, 2u8, 0u8), (seq![103u8, 101u8, 116u8, 99u8, 104u8, 97u8, 114u8, 109u8, 111u8, 100u8], 0u8, 0u8, 0u8), (seq![103u8, 101u8, 116u8, 99u8, 104u8, 97u8, 114u8, 112u8, 111u8, 115u8], 1u8, 1u8, 1u8), (seq![103u8, 101u8, 116u8, 99u8, 104u8, 97u8, 114u8, 115u8, 101u8, 97u8, 114u8, 99u8, 104u8], 0u8, 0u8, 0u8), (seq![103u8, 101u8, 116u8, 99u8, 104u8, 97u8, 114u8, 115u8, 116u8, 114u8], 0u8, 2u8, 0u8), (seq![103u8, 101u8, 116u8, 99u8, 109u8, 100u8, 99u8, 111u8, 109u8, 112u8, 108u8, 112u8, 97u8, 116u8], 0u8, 0u8, 0u8), (seq![103u8, 101u8, 116u8, 99u8, 109u8, 100u8, 99u8, 111u8, 109u8, 112u8, 108u8, 116u8, 121u8, 112u8, 101u8], 0u8, 0u8, 0u8), (seq![103u8, 101u8, 116u8, 99u8, 109u8, 100u8, 108u8, 105u8, 110u8, 101u8], 0u8, 0u8, 0u8), (seq![103u8, 101u8, 116u8, 99u8, 109u8, 100u8, 112u8, 111u8, 115u8], 0u8, 0u8, 0u8), (seq![103u8, 101u8, 116u8, 99u8, 109u8, 100u8, 112u8, 114u8, 111u8, 109u8, 112u8, 116u8], 0u8, 0u8, 0u8)]
}

fn push_builtins_10(t: &mut Vec<BuiltinArgc>)
    ensures argc_view(final(t)@) =~= argc_view(old(t)@) + builtins_10(),
{
    let ghost start = argc_view(t@);
    let n0: Vec<u8> = vec![103u8, 101u8, 116u8, 99u8, 104u8, 97u8, 114u8];
    assert(n0@ =~= seq![103u8, 101u8, 116u8, 99u8, 104u8, 97u8, 114u8]);
    t.push(BuiltinArgc { name: n0, min_argc: 0, max_argc: 2, base_arg: 0 });
    let n1: Vec<u8> = vec![103u8, 101u8, 116u8, 99u8, 104u8, 97u8, 114u8, 109u8, 111u8, 100u8];
    assert(n1@ =~= seq![103u8, 101u8, 116u8, 99u8, 104u8, 97u8, 114u8, 109u8, 111u8, 100u8]);
    t.push(BuiltinArgc { name: n1, min_argc: 0, max_argc: 0, base_arg: 0 });
    let n2: Vec<u8> = vec![103u8, 101u8, 116u8, 99u8, 104u8, 97u8, 114u8, 112u8, 111u8, 115u8];
    assert(n2@ =~= seq![103u8, 101u8, 116u8, 99u8, 104u8, 97u8, 114u8, 112u8, 111u8, 115u8]);
    t.push(BuiltinArgc { name: n2, min_argc: 1, max_argc: 1, base_arg: 1 });
    let n3: Vec<u8> = vec![103u8, 101u8, 116u8, 99u8, 104u8, 97u8, 114u8, 115u8, 101u8, 97u8, 114u8, 99u8, 104u8];
    assert(n3@ =~= seq![103u8, 101u8, 116u8, 99u8, 104u8, 97u8, 114u8, 115u8, 101u8, 97u8, 114u8, 99u8, 104u8]);
    t.push(BuiltinArgc { name: n3, min_argc: 0, max_argc: 0, base_arg: 0 });
    let n4: Vec<u8> = vec![103u8, 101u8, 116u8, 99u8, 104u8, 97u8, 114u8, 115u8, 116u8, 114u8];
    assert(n4@ =~= seq![103u8, 101u8, 116u8, 99u8, 104u8, 97u8, 114u8, 115u8, 116u8, 114u8]);
    t.push(BuiltinArgc { name: n4, min_argc: 0, max_argc: 2, base_arg: 0 });
    let n5: Vec<u8> = vec![103u8, 101u8, 116u8, 99u8, 109u8, 100u8, 99u8, 111u8, 109u8, 112u8, 108u8, 112u8, 97u8, 116u8];
    assert(n5@ =~= seq![103u8, 101u8, 116u8, 99u8, 109u8, 100u8, 99u8, 111u8, 109u8, 112u8, 108u8, 112u8, 97u8, 116u8]);
    t.push(BuiltinArgc { name: n5, min_argc: 0, max_argc: 0, base_arg: 0 });
    let n6: Vec<u8> = vec![103u8, 101u8, 116u8, 99u8, 109u8, 100u8, 99u8, 111u8, 109u8, 112u8, 108u8, 116u8, 121u8, 112u8, 101u8];
    assert(n6@ =~= seq![103u8, 101u8, 116u8, 99u8, 109u8, 100u8, 99u8, 111u8, 109u8, 112u8, 108u8, 116u8, 121u8, 112u8, 101u8]);
    t.push(BuiltinArgc { name: n6, min_argc: 0, max_argc: 0, base_arg: 0 });
    let n7: Vec<u8> = vec![103u8, 101u8, 116u8, 99u8, 109u8, 100u8, 108u8, 105u8, 110u8, 101u8];
    assert(n7@ =~= seq![103u8, 101u8, 116u8, 99u8, 109u8, 100u8, 108u8, 105u8, 110u8, 101u8]);
    t.push(BuiltinArgc { name: n7, min_argc: 0, max_argc: 0, base_arg: 0 });
    let n8: Vec<u8> = vec![103u8, 101u8, 116u8, 99u8, 109u8, 100u8, 112u8, 111u8, 115u8];
    assert(n8@ =~= seq![103u8, 101u8, 116u8, 99u8, 109u8, 100u8, 112u8, 111u8, 115u8]);
    t.push(BuiltinArgc { name: n8, min_argc: 0, max_argc: 0, base_arg: 0 });
    let n9: Vec<u8> = vec![103u8, 101u8, 116u8, 99u8, 109u8, 100u8, 112u8, 114u8, 111u8, 109u8, 112u8, 116u8];
    assert(n9@ =~= seq![103u8, 101u8, 116u8, 99u8, 109u8, 100u8, 112u8, 114u8, 111u8, 109u8, 112u8, 116u8]);
    t.push(BuiltinArgc { name: n9, min_argc: 0, max_argc: 0, base_arg: 0 });
    assert(argc_view(t@) =~= start + builtins_10());
}

/// Rows of the builtin table.
pub open spec fn builtins_11() -> Seq<(Seq<u8>, u8, u8, u8)> {
    seq![(seq![103u8, 101u8, 116u8, 99u8, 109u8, 100u8, 115u8, 99u8, 114u8, 101u8, 101u8, 110u8, 112u8, 111u8, 115u8], 0u8, 0u8, 0u8), (seq![103u8, 101u8, 116u8, 99u8, 109u8, 100u8, 116u8, 121u8, 112u8, 101u8], 0u8, 0u8, 0u8), (seq![103u8, 101u8, 116u8, 99u8, 109u8, 100u8, 119u8, 105u8, 110u8, 116u8, 121u8, 112u8, 101u8], 0u8, 0u8, 0u8), (seq![103u8, 101u8, 116u8, 99u8, 111u8, 109u8, 112u8, 108u8, 101u8, 116u8, 105u8, 111u8, 110u8], 2u8, 3u8, 1u8), (seq![103u8, 101u8, 116u8, 99u8, 111u8, 109u8, 112u8, 108u8, 101u8, 116u8, 105u8, 111u8, 110u8, 116u8, 121u8, 112u8, 101u8], 1u8, 1u8, 1u8), (seq![103u8, 101u8, 116u8, 99u8, 117u8, 114u8, 112u8, 111u8, 115u8], 0u8, 1u8, 1u8), (seq![103u8, 101u8, 116u8, 99u8, 117u8, 114u8, 115u8, 111u8, 114u8, 99u8, 104u8, 97u8, 114u8, 112u8, 111u8, 115u8], 0u8, 1u8, 1u8), (seq![103u8, 101u8, 116u8, 101u8, 110u8, 118u8], 1u8, 1u8, 1u8), (seq![103u8, 101u8, 116u8, 102u8, 111u8, 110u8, 116u8, 110u8, 97u8, 109u8, 101u8], 0u8, 1u8, 0u8), (seq![103u8, 101u8, 116u8, 106u8, 117u8, 109u8, 112u8, 108u8, 105u8, 115u8, 116u8], 0u8, 2u8, 1u8)]
}

fn push_builtins_11(t: &mut Vec<BuiltinArgc>)
    ensures argc_view(final(t)@) =~= argc_view(old(t)@) + builtins_11(),
{
    let ghost start = argc_view(t@);
    let n0: Vec<u8> = vec![103u8, 101u8, 116u8, 99u8, 109u8, 100u8, 115u8, 99u8, 114u8, 101u8, 101u8, 110u8, 112u8, 111u8, 115u8];
    assert(n0@ =~= seq![103u8, 101u8, 116u8, 99u8, 109u8, 100u8, 115u8, 99u8, 114u8, 101u8, 101u8, 110u8, 112u8, 111u8, 115u8]);
    t.push(BuiltinArgc { name: n0, min_argc: 0, max_argc: 0, base_arg: 0 });
    let n1: Vec<u8> = vec![103u8, 101u8, 116u8, 99u8, 109u8, 100u8, 116u8, 121u8, 112u8, 101u8];
    assert(n1@ =~= seq![103u8, 101u8, 116u8, 99u8, 109u8, 100u8, 116u8, 121u8, 112u8, 101u8]);
    t.push(BuiltinArgc { name: n1, min_argc: 0, max_argc: 0, base_arg: 0 });
    let n2: Vec<u8> = vec![103u8, 101u8, 116u8, 99u8, 109u8, 100u8, 119u8, 105u8, 110u8, 116u8, 121u8, 112u8, 101u8];
    assert(n2@ =~= seq![103u8, 101u8, 116u8, 99u8, 109u8, 100u8, 119u8, 105u8, 110u8, 116u8, 121u8, 112u8, 101u8]);
    t.push(BuiltinArgc { name: n2, min_argc: 0, max_argc: 0, base_arg: 0 });
    let n3: Vec<u8> = vec![103u8, 101u8, 116u8, 99u8, 111u8, 109u8, 112u8, 108u8, 101u8, 116u8, 105u8, 111u8, 110u8];
    assert(n3@ =~= seq![103u8, 101u8, 116u8, 99u8, 111u8, 109u8, 112u8, 108u8, 101u8, 116u8, 105u8, 111u8, 110u8]);
    t.push(BuiltinArgc { name: n3, min_argc: 2, max_argc: 3, base_arg: 1 });
    let n4: Vec<u8> = vec![103u8, 101u8, 116u8, 99u8, 111u8, 109u8, 112u8, 108u8, 101u8, 116u8, 105u8, 111u8, 110u8, 116u8, 121u8, 112u8, 101u8];
    assert(n4@ =~= seq![103u8, 101u8, 116u8, 99u8, 111u8, 109u8, 112u8, 108u8, 101u8, 116u8, 105u8, 111u8, 110u8, 116u8, 121u8, 112u8, 101u8]);
    t.push(BuiltinArgc { name: n4, min_argc: 1, max_argc: 1, base_arg: 1 });
    let n5: Vec<u8> = vec![103u8, 101u8, 116u8, 99u8, 117u8, 114u8, 112u8, 111u8, 115u8];
    assert(n5@ =~= seq![103u8, 101u8, 116u8, 99u8, 117u8, 114u8, 112u8, 111u8, 115u8]);
    t.push(BuiltinArgc { name: n5, min_argc: 0, max_argc: 1, base_arg: 1 });
    let n6: Vec<u8> = vec![103u8, 101u8, 116u8, 99u8, 117u8, 114u8, 115u8, 111u8, 114u8, 99u8, 104u8, 97u8, 114u8, 112u8, 111u8, 115u8];
    assert(n6@ =~= seq![103u8, 101u8, 116u8, 99u8, 117u8, 114u8, 115u8, 111u8, 114u8, 99u8, 104u8, 97u8, 114u8, 112u8, 111u8, 115u8]);
    t.push(BuiltinArgc { name: n6, min_argc: 0, max_argc: 1, base_arg: 1 });
    let n7: Vec<u8> = vec![103u8, 101u8, 116u8, 101u8, 110u8, 118u8];
    assert(n7@ =~= seq![103u8, 101u8, 116u8, 101u8, 110u8, 118u8]);
    t.push(BuiltinArgc { name: n7, min_argc: 1, max_argc: 1, base_arg: 1 });
    let n8: Vec<u8> = vec![103u8, 101u8, 116u8, 102u8, 111u8, 110u8, 116u8, 110u8, 97u8, 109u8, 101u8];
    assert(n8@ =~= seq![103u8, 101u8, 116u8, 102u8, 111u8, 110u8, 116u8, 110u8, 97u8, 109u8, 101u8]);
    t.push(BuiltinArgc { name: n8, min_argc: 0, max_argc: 1, base_arg: 0 });
    let n9: Vec<u8> = vec![103u8, 101u8, 116u8, 106u8, 117u8, 109u8, 112u8, 108u8, 105u8, 115u8, 116u8];
    assert(n9@ =~= seq![103u8, 101u8, 116u8, 106u8, 117u8, 109u8, 112u8, 108u8, 105u8, 115u8, 116u8]);
    t.push(BuiltinArgc { name: n9, min_argc: 0, max_argc: 2, base_arg: 1 });
    assert(argc_view(t@) =~= start + builtins_11());
}

/// Rows of the builtin table.
pub open spec fn builtins_12() -> Seq<(Seq<u8>, u8, u8, u8)> {
    seq![(seq![103u8, 101u8, 116u8, 108u8, 105u8, 110u8, 101u8], 1u8, 2u8, 1u8), (seq![103u8, 101u8, 116u8, 108u8, 111u8, 99u8, 108u8, 105u8, 115u8, 116u8], 1u8, 2u8, 0u8), (seq![103u8, 101u8, 116u8, 109u8, 97u8, 114u8, 107u8, 108u8, 105u8, 115u8, 116u8], 0u8, 1u8, 1u8), (seq![103u8, 101u8, 116u8, 109u8, 97u8, 116u8, 99u8, 104u8, 101u8, 115u8], 0u8, 1u8, 0u8), (seq![103u8, 101u8, 116u8, 109u8, 111u8, 117u8, 115u8, 101u8, 112u8, 111u8, 115u8], 0u8, 0u8, 0u8), (seq![103u8, 101u8, 116u8, 112u8, 105u8, 100u8], 0u8, 0u8, 0u8), (seq![103u8, 101u8, 116u8, 112u8, 111u8, 115u8], 1u8, 1u8, 1u8), (seq![103u8, 101u8, 116u8, 113u8, 102u8, 108u8, 105u8, 115u8, 116u8], 0u8, 1u8, 0u8), (seq![103u8, 101u8, 116u8, 114u8, 101u8, 103u8], 0u8, 3u8, 1u8), (seq![103u8, 101u8, 116u8, 114u8, 101u8, 103u8, 105u8, 110u8, 102u8, 111u8], 0u8, 1u8, 1u8)]
}

fn push_builtins_12(t: &mut Vec<BuiltinArgc>)
    ensures argc_view(final(t)@) =~= argc_view(old(t)@) + builtins_12(),
{
    let ghost start = argc_view(t@);
    let n0: Vec<u8> = vec![103u8, 101u8, 116u8, 108u8, 105u8, 110u8, 101u8];
    assert(n0@ =~= seq![103u8, 101u8, 116u8, 108u8, 105u8, 110u8, 101u8]);
    t.push(BuiltinArgc { name: n0, min_argc: 1, max_argc: 2, base_arg: 1 });
    let n1: Vec<u8> = vec![103u8, 101u8, 116u8, 108u8, 111u8, 99u8, 108u8, 105u8, 115u8, 116u8];
    assert(n1@ =~= seq![103u8, 101u8, 116u8, 108u8, 111u8, 99u8, 108u8, 105u8, 115u8, 116u8]);
    t.push(BuiltinArgc { name: n1, min_argc: 1, max_argc: 2, base_arg: 0 });
    let n2: Vec<u8> = vec![103u8, 101u8, 116u8, 109u8, 97u8, 114u8, 107u8, 108u8, 105u8, 115u8, 116u8];
    assert(n2@ =~= seq![103u8, 101u8, 116u8, 109u8, 97u8, 114u8, 107u8, 108u8, 105u8, 115u8, 116u8]);
    t.push(BuiltinArgc { name: n2, min_argc: 0, max_argc: 1, base_arg: 1 });
    let n3: Vec<u8> = vec![103u8, 101u8, 116u8, 109u8, 97u8, 116u8, 99u8, 104u8, 101u8, 115u8];
    assert(n3@ =~= seq![103u8, 101u8, 116u8, 109u8, 97u8, 116u8, 99u8, 104u8, 101u8, 115u8]);
    t.push(BuiltinArgc { name: n3, min_argc: 0, max_argc: 1, base_arg: 0 });
    let n4: Vec<u8> = vec![103u8, 101u8, 116u8, 109u8, 111u8, 117u8, 115u8, 101u8, 112u8, 111u8, 115u8];
    assert(n4@ =~= seq![103u8, 101u8, 116u8, 109u8, 111u8, 117u8, 115u8, 101u8, 112u8, 111u8, 115u8]);
    t.push(BuiltinArgc { name: n4, min_argc: 0, max_argc: 0, base_arg: 0 });
    let n5: Vec<u8> = vec![103u8, 101u8, 116u8, 112u8, 105u8, 100u8];
    assert(n5@ =~= seq![103u8, 101u8, 116u8, 112u8, 105u8, 100u8]);
    t.push(BuiltinArgc { name: n5, min_argc: 0, max_argc: 0, base_arg: 0 });
    let n6: Vec<u8> = vec![103u8, 101u8, 116u8, 112u8, 111u8, 115u8];
    assert(n6@ =~= seq![103u8, 101u8, 116u8, 112u8, 111u8, 115u8]);
    t.push(BuiltinArgc { name: n6, min_argc: 1, max_argc: 1, base_arg: 1 });
    let n7: Vec<u8> = vec![103u8, 101u8, 116u8, 113u8, 102u8, 108u8, 105u8, 115u8, 116u8];
    assert(n7@ =~= seq![103u8, 101u8, 116u8, 113u8, 102u8, 108u8, 105u8, 115u8, 116u8]);
    t.push(BuiltinArgc { name: n7, min_argc: 0, max_argc: 1, base_arg: 0 });
    let n8: Vec<u8> = vec![103u8, 101u8, 116u8, 114u8, 101u8, 103u8];
    assert(n8@ =~= seq![103u8, 101u8, 116u8, 114u8, 101u8, 103u8]);
    t.push(BuiltinArgc { name: n8, min_argc: 0, max_argc: 3, base_arg: 1 });
    let n9: Vec<u8> = vec![103u8, 101u8, 116u8, 114u8, 101u8, 103u8, 105u8, 110u8, 102u8, 111u8];
    assert(n9@ =~= seq![103u8, 101u8, 116u8, 114u8, 101u8, 103u8, 105u8, 110u8, 102u8, 111u8]);
    t.push(BuiltinArgc { name: n9, min_argc: 0, max_argc: 1, base_arg: 1 });
    assert(argc_view(t@) =~= start + builtins_12());
}

/// Rows of the builtin table.
pub open spec fn builtins_13() -> Seq<(Seq<u8>, u8, u8, u8)> {
    seq![(seq![103u8, 101u8, 116u8, 114u8, 101u8, 103u8, 105u8, 111u8, 110u8], 2u8, 3u8, 1u8), (seq![103u8, 101u8, 116u8, 114u8, 101u8, 103u8, 105u8, 111u8, 110u8, 112u8, 111u8, 115u8], 2u8, 3u8, 1u8), (seq![103u8, 101u8, 116u8, 114u8, 101u8, 103u8, 116u8, 121u8, 112u8, 101u8], 0u8, 1u8, 1u8), (seq![103u8, 101u8, 116u8, 115u8, 99u8, 114u8, 105u8, 112u8, 116u8, 105u8, 110u8, 102u8, 111u8], 0u8, 1u8, 0u8), (seq![103u8, 101u8, 116u8, 115u8, 116u8, 97u8, 99u8, 107u8, 116u8, 114u8, 97u8, 99u8, 101u8], 0u8, 0u8, 0u8), (seq![103u8, 101u8, 116u8, 116u8, 97u8, 98u8, 105u8, 110u8, 102u8, 111u8], 0u8, 1u8, 1u8), (seq![103u8, 101u8, 116u8, 116u8, 97u8, 98u8, 118u8, 97u8, 114u8], 2u8, 3u8, 1u8), (seq![103u8, 101u8, 116u8, 116u8, 97u8, 98u8, 119u8, 105u8, 110u8, 118u8, 97u8, 114u8], 3u8, 4u8, 1u8), (seq![103u8, 101u8, 116u8, 116u8, 97u8, 103u8, 115u8, 116u8, 97u8, 99u8, 107u8], 0u8, 1u8, 1u8), (seq![103u8, 101u8, 116u8, 116u8, 101u8, 120u8, 116u8], 1u8, 1u8, 1u8)]
}

fn push_builtins_13(t: &mut Vec<BuiltinArgc>)
    ensures argc_view(final(t)@) =~= argc_view(old(t)@) + builtins_13(),
{
    let ghost start = argc_view(t@);
    let n0: Vec<u8> = vec![103u8, 101u8, 116u8, 114u8, 101u8, 103u8, 105u8, 111u8, 110u8];
    assert(n0@ =~= seq![103u8, 101u8, 116u8, 114u8, 101u8, 103u8, 105u8, 111u8, 110u8]);
    t.push(BuiltinArgc { name: n0, min_argc: 2, max_argc: 3, base_arg: 1 });
    let n1: Vec<u8> = vec![103u8, 101u8, 116u8, 114u8, 101u8, 103u8, 105u8, 111u8, 110u8, 112u8, 111u8, 115u8];
    assert(n1@ =~= seq![103u8, 101u8, 116u8, 114u8, 101u8, 103u8, 105u8, 111u8, 110u8, 112u8, 111u8, 115u8]);
    t.push(BuiltinArgc { name: n1, min_argc: 2, max_argc: 3, base_arg: 1 });
    let n2: Vec<u8> = vec![103u8, 101u8, 116u8, 114u8, 101u8, 103u8, 116u8, 121u8, 112u8, 101u8];
    assert(n2@ =~= seq![103u8, 101u8, 116u8, 114u8, 101u8, 103u8, 116u8, 121u8, 112u8, 101u8]);
    t.push(BuiltinArgc { name: n2, min_argc: 0, max_argc: 1, base_arg: 1 });
    let n3: Vec<u8> = vec![103u8, 101u8, 116u8, 115u8, 99u8, 114u8, 105u8, 112u8, 116u8, 105u8, 110u8, 102u8, 111u8];
    assert(n3@ =~= seq![103u8, 101u8, 116u8, 115u8, 99u8, 114u8, 105u8, 112u8, 116u8, 105u8, 110u8, 102u8, 111u8]);
    t.push(BuiltinArgc { name: n3, min_argc: 0, max_argc: 1, base_arg: 0 });
    let n4: Vec<u8> = vec![103u8, 101u8, 116u8, 115u8, 116u8, 97u8, 99u8, 107u8, 116u8, 114u8, 97u8, 99u8, 101u8];
    assert(n4@ =~= seq![103u8, 101u8, 116u8, 115u8, 116u8, 97u8, 99u8, 107u8, 116u8, 114u8, 97u8, 99u8, 101u8]);
    t.push(BuiltinArgc { name: n4, min_argc: 0, max_argc: 0, base_arg: 0 });
    let n5: Vec<u8> = vec![103u8, 101u8, 116u8, 116u8, 97u8, 98u8, 105u8, 110u8, 102u8, 111u8];
    assert(n5@ =~= seq![103u8, 101u8, 116u8, 116u8, 97u8, 98u8, 105u8, 110u8, 102u8, 111u8]);
    t.push(BuiltinArgc { name: n5, min_argc: 0, max_argc: 1, base_arg: 1 });
    let n6: Vec<u8> = vec![103u8, 101u8, 116u8, 116u8, 97u8, 98u8, 118u8, 97u8, 114u8];
    assert(n6@ =~= seq![103u8, 101u8, 116u8, 116u8, 97u8, 98u8, 118u8, 97u8, 114u8]);
    t.push(BuiltinArgc { name: n6, min_argc: 2, max_argc: 3, base_arg: 1 });
    let n7: Vec<u8> = vec![103u8, 101u8, 116u8, 116u8, 97u8, 98u8, 119u8, 105u8, 110u8, 118u8, 97u8, 114u8];
    assert(n7@ =~= seq![103u8, 101u8, 116u8, 116u8, 97u8, 98u8, 119u8, 105u8, 110u8, 118u8, 97u8, 114u8]);
    t.push(BuiltinArgc { name: n7, min_argc: 3, max_argc: 4, base_arg: 1 });
    let n8: Vec<u8> = vec![103u8, 101u8, 116u8, 116u8, 97u8, 103u8, 115u8, 116u8, 97u8, 99u8, 107u8];
    assert(n8@ =~= seq![103u8, 101u8, 116u8, 116u8, 97u8, 103u8, 115u8, 116u8, 97u8, 99u8, 107u8]);
    t.push(BuiltinArgc { name: n8, min_argc: 0, max_argc: 1, base_arg: 1 });
    let n9: Vec<u8> = vec![103u8, 101u8, 116u8, 116u8, 101u8, 120u8, 116u8];
    assert(n9@ =~= seq![103u8, 101u8, 116u8, 116u8, 101u8, 120u8, 116u8]);
    t.push(BuiltinArgc { name: n9, min_argc: 1, max_argc: 1, base_arg: 1 });
    assert(argc_view(t@) =~= start + builtins_13());
}

/// Rows of the builtin table.
pub open spec fn builtins_14() -> Seq<(Seq<u8>, u8, u8, u8)> {
    seq![(seq![103u8, 101u8, 116u8, 119u8, 105u8, 110u8, 105u8, 110u8, 102u8, 111u8], 0u8, 1u8, 1u8), (seq![103u8, 101u8, 116u8, 119u8, 105u8, 110u8, 112u8, 111u8, 115u8], 0u8, 1u8, 1u8), (seq![103u8, 101u8, 116u8, 119u8, 105u8, 110u8, 112u8, 111u8, 115u8, 120u8], 0u8, 0u8, 0u8), (seq![103u8, 101u8, 116u8, 119u8, 105u8, 110u8, 112u8, 111u8, 115u8, 121u8], 0u8, 0u8, 0u8), (seq![103u8, 101u8, 116u8, 119u8, 105u8, 110u8, 118u8, 97u8, 114u8], 2u8, 3u8, 1u8), (seq![104u8, 97u8, 115u8], 1u8, 2u8, 0u8), (seq![104u8, 97u8, 115u8, 95u8, 107u8, 101u8, 121u8], 2u8, 2u8, 1u8), (seq![104u8, 97u8, 115u8, 109u8, 97u8, 112u8, 116u8, 111u8], 1u8, 3u8, 1u8), (seq![104u8, 105u8, 103u8, 104u8, 108u8, 105u8, 103u8, 104u8, 116u8, 95u8, 101u8, 120u8, 105u8, 115u8, 116u8, 115u8], 1u8, 1u8, 1u8), (seq![104u8, 105u8, 115u8, 116u8, 97u8, 100u8, 100u8], 2u8, 2u8, 2u8)]
}

fn push_builtins_14(t: &mut Vec<BuiltinArgc>)
    ensures argc_view(final(t)@) =~= argc_view(old(t)@) + builtins_14(),
{
    let ghost start = argc_view(t@);
    let n0: Vec<u8> = vec![103u8, 101u8, 116u8, 119u8, 105u8, 110u8, 105u8, 110u8, 102u8, 111u8];
    assert(n0@ =~= seq![103u8, 101u8, 116u8, 119u8, 105u8, 110u8, 105u8, 110u8, 102u8, 111u8]);
    t.push(BuiltinArgc { name: n0, min_argc: 0, max_argc: 1, base_arg: 1 });
    let n1: Vec<u8> = vec![103u8, 101u8, 116u8, 119u8, 105u8, 110u8, 112u8, 111u8, 115u8];
    assert(n1@ =~= seq![103u8, 101u8, 116u8, 119u8, 105u8, 110u8, 112u8, 111u8, 115u8]);
    t.push(BuiltinArgc { name: n1, min_argc: 0, max_argc: 1, base_arg: 1 });
    let n2: Vec<u8> = vec![103u8, 101u8, 116u8, 119u8, 105u8, 110u8, 112u8, 111u8, 115u8, 120u8];
    assert(n2@ =~= seq![103u8, 101u8, 116u8, 119u8, 105u8, 110u8, 112u8, 111u8, 115u8, 120u8]);
    t.push(BuiltinArgc { name: n2, min_argc: 0, max_argc: 0, base_arg: 0 });
    let n3: Vec<u8> = vec![103u8, 101u8, 116u8, 119u8, 105u8, 110u8, 112u8, 111u8, 115u8, 121u8];
    assert(n3@ =~= seq![103u8, 101u8, 116u8, 119u8, 105u8, 110u8, 112u8, 111u8, 115u8, 121u8]);
    t.push(BuiltinArgc { name: n3, min_argc: 0, max_argc: 0, base_arg: 0 });
    let n4: Vec<u8> = vec![103u8, 101u8, 116u8, 119u8, 105u8, 110u8, 118u8, 97u8, 114u8];
    assert(n4@ =~= seq![103u8, 101u8, 116u8, 119u8, 105u8, 110u8, 118u8, 97u8, 114u8]);
    t.push(BuiltinArgc { name: n4, min_argc: 2, max_argc: 3, base_arg: 1 });
    let n5: Vec<u8> = vec![104u8, 97u8, 115u8];
    assert(n5@ =~= seq![104u8, 97u8, 115u8]);
    t.push(BuiltinArgc { name: n5, min_argc: 1, max_argc: 2, base_arg: 0 });
    let n6: Vec<u8> = vec![104u8, 97u8, 115u8, 95u8, 107u8, 101u8, 121u8];
    assert(n6@ =~= seq![104u8, 97u8, 115u8, 95u8, 107u8, 101u8, 121u8]);
    t.push(BuiltinArgc { name: n6, min_argc: 2, max_argc: 2, base_arg: 1 });
    let n7: Vec<u8> = vec![104u8, 97u8, 115u8, 109u8, 97u8, 112u8, 116u8, 111u8];
    assert(n7@ =~= seq![104u8, 97u8, 115u8, 109u8, 97u8, 112u8, 116u8, 111u8]);
    t.push(BuiltinArgc { name: n7, min_argc: 1, max_argc: 3, base_arg: 1 });
    let n8: Vec<u8> = vec![104u8, 105u8, 103u8, 104u8, 108u8, 105u8, 103u8, 104u8, 116u8, 95u8, 101u8, 120u8, 105u8, 115u8, 116u8, 115u8];
    assert(n8@ =~= seq![104u8, 105u8, 103u8, 104u8, 108u8, 105u8, 103u8, 104u8, 116u8, 95u8, 101u8, 120u8, 105u8, 115u8, 116u8, 115u8]);
    t.push(BuiltinArgc { name: n8, min_argc: 1, max_argc: 1, base_arg: 1 });
    let n9: Vec<u8> = vec![104u8, 105u8, 115u8, 116u8, 97u8, 100u8, 100u8];
    assert(n9@ =~= seq![104u8, 105u8, 115u8, 116u8, 97u8, 100u8, 100u8]);
    t.push(BuiltinArgc { name: n9, min_argc: 2, max_argc: 2, base_arg: 2 });
    assert(argc_view(t@) =~= start + builtins_14());
}

/// Rows of the builtin table.
pub open spec fn builtins_15() -> Seq<(Seq<u8>, u8, u8, u8)> {
    seq![(seq![104u8, 105u8, 115u8, 116u8, 100u8, 101u8, 108u8], 1u8, 2u8, 1u8), (seq![104u8, 105u8, 115u8, 116u8, 103u8, 101u8, 116u8], 1u8, 2u8, 1u8), (seq![104u8, 105u8, 115u8, 116u8, 110u8, 114u8], 1u8, 1u8, 1u8), (seq![104u8, 108u8, 73u8, 68u8], 1u8, 1u8, 1u8), (seq![104u8, 108u8, 101u8, 120u8, 105u8, 115u8, 116u8, 115u8], 1u8, 1u8, 1u8), (seq![104u8, 111u8, 115u8, 116u8, 110u8, 97u8, 109u8, 101u8], 0u8, 0u8, 0u8), (seq![105u8, 99u8, 111u8, 110u8, 118u8], 3u8, 3u8, 1u8), (seq![105u8, 100u8], 1u8, 1u8, 0u8), (seq![105u8, 110u8, 100u8, 101u8, 110u8, 116u8], 1u8, 1u8, 1u8), (seq![105u8, 110u8, 100u8, 101u8, 120u8], 2u8, 4u8, 1u8)]
}

fn push_builtins_15(t: &mut Vec<BuiltinArgc>)
    ensures argc_view(final(t)@) =~= argc_view(old(t)@) + builtins_15(),
{
    let ghost start = argc_view(t@);
    let n0: Vec<u8> = vec![104u8, 105u8, 115u8, 116u8, 100u8, 101u8, 108u8];
    assert(n0@ =~= seq![104u8, 105u8, 115u8, 116u8, 100u8, 101u8, 108u8]);
    t.push(BuiltinArgc { name: n0, min_argc: 1, max_argc: 2, base_arg: 1 });
    let n1: Vec<u8> = vec![104u8, 105u8, 115u8, 116u8, 103u8, 101u8, 116u8];
    assert(n1@ =~= seq![104u8, 105u8, 115u8, 116u8, 103u8, 101u8, 116u8]);
    t.push(BuiltinArgc { name: n1, min_argc: 1, max_argc: 2, base_arg: 1 });
    let n2: Vec<u8> = vec![104u8, 105u8, 115u8, 116u8, 110u8, 114u8];
    assert(n2@ =~= seq![104u8, 105u8, 115u8, 116u8, 110u8, 114u8]);
    t.push(BuiltinArgc { name: n2, min_argc: 1, max_argc: 1, base_arg: 1 });
    let n3: Vec<u8> = vec![104u8, 108u8, 73u8, 68u8];
    assert(n3@ =~= seq![104u8, 108u8, 73u8, 68u8]);
    t.push(BuiltinArgc { name: n3, min_argc: 1, max_argc: 1, base_arg: 1 });
    let n4: Vec<u8> = vec![104u8, 108u8, 101u8, 120u8, 105u8, 115u8, 116u8, 115u8];
    assert(n4@ =~= seq![104u8, 108u8, 101u8, 120u8, 105u8, 115u8, 116u8, 115u8]);
    t.push(BuiltinArgc { name: n4, min_argc: 1, max_argc: 1, base_arg: 1 });
    let n5: Vec<u8> = vec![104u8, 111u8, 115u8, 116u8, 110u8, 97u8, 109u8, 101u8];
    assert(n5@ =~= seq![104u8, 111u8, 115u8, 116u8, 110u8, 97u8, 109u8, 101u8]);
    t.push(BuiltinArgc { name: n5, min_argc: 0, max_argc: 0, base_arg: 0 });
    let n6: Vec<u8> = vec![105u8, 99u8, 111u8, 110u8, 118u8];
    assert(n6@ =~= seq![105u8, 99u8, 111u8, 110u8, 118u8]);
    t.push(BuiltinArgc { name: n6, min_argc: 3, max_argc: 3, base_arg: 1 });
    let n7: Vec<u8> = vec![105u8, 100u8];
    assert(n7@ =~= seq![105u8, 100u8]);
    t.push(BuiltinArgc { name: n7, min_argc: 1, max_argc: 1, base_arg: 0 });
    let n8: Vec<u8> = vec![105u8, 110u8, 100u8, 101u8, 110u8, 116u8];
    assert(n8@ =~= seq![105u8, 110u8, 100u8, 101u8, 110u8, 116u8]);
    t.push(BuiltinArgc { name: n8, min_argc: 1, max_argc: 1, base_arg: 1 });
    let n9: Vec<u8> = vec![105u8, 110u8, 100u8, 101u8, 120u8];
    assert(n9@ =~= seq![105u8, 110u8, 100u8, 101u8, 120u8]);
    t.push(BuiltinArgc { name: n9, min_argc: 2, max_argc: 4, base_arg: 1 });
    assert(argc_view(t@) =~= start + builtins_15());
}

/// Rows of the builtin table.
pub open spec fn builtins_16() -> Seq<(Seq<u8>, u8, u8, u8)> {
    seq![(seq![105u8, 110u8, 100u8, 101u8, 120u8, 111u8, 102u8], 2u8, 3u8, 1u8), (seq![105u8, 110u8, 112u8, 117u8, 116u8], 1u8, 3u8, 1u8), (seq![105u8, 110u8, 112u8, 117u8, 116u8, 100u8, 105u8, 97u8, 108u8, 111u8, 103u8], 1u8, 3u8, 1u8), (seq![105u8, 110u8, 112u8, 117u8, 116u8, 108u8, 105u8, 115u8, 116u8], 1u8, 1u8, 1u8), (seq![105u8, 110u8, 112u8, 117u8, 116u8, 114u8, 101u8, 115u8, 116u8, 111u8, 114u8, 101u8], 0u8, 0u8, 0u8), (seq![105u8, 110u8, 112u8, 117u8, 116u8, 115u8, 97u8, 118u8, 101u8], 0u8, 0u8, 0u8), (seq![105u8, 110u8, 112u8, 117u8, 116u8, 115u8, 101u8, 99u8, 114u8, 101u8, 116u8], 1u8, 2u8, 1u8), (seq![105u8, 110u8, 115u8, 101u8, 114u8, 116u8], 2u8, 3u8, 1u8), (seq![105u8, 110u8, 116u8, 101u8, 114u8, 114u8, 117u8, 112u8, 116u8], 0u8, 0u8, 0u8), (seq![105u8, 110u8, 118u8, 101u8, 114u8, 116u8], 1u8, 1u8, 1u8)]
}

fn push_builtins_16(t: &mut Vec<BuiltinArgc>)
    ensures argc_view(final(t)@) =~= argc_view(old(t)@) + builtins_16(),
{
    let ghost start = argc_view(t@);
    let n0: Vec<u8> = vec![105u8, 110u8, 100u8, 101u8, 120u8, 111u8, 102u8];
    assert(n0@ =~= seq![105u8, 110u8, 100u8, 101u8, 120u8, 111u8, 102u8]);
    t.push(BuiltinArgc { name: n0, min_argc: 2, max_argc: 3, base_arg: 1 });
    let n1: Vec<u8> = vec![105u8, 110u8, 112u8, 117u8, 116u8];
    assert(n1@ =~= seq![105u8, 110u8, 112u8, 117u8, 116u8]);
    t.push(BuiltinArgc { name: n1, min_argc: 1, max_argc: 3, base_arg: 1 });
    let n2: Vec<u8> = vec![105u8, 110u8, 112u8, 117u8, 116u8, 100u8, 105u8, 97u8, 108u8, 111u8, 103u8];
    assert(n2@ =~= seq![105u8, 110u8, 112u8, 117u8, 116u8, 100u8, 105u8, 97u8, 108u8, 111u8, 103u8]);
    t.push(BuiltinArgc { name: n2, min_argc: 1, max_argc: 3, base_arg: 1 });
    let n3: Vec<u8> = vec![105u8, 110u8, 112u8, 117u8, 116u8, 108u8, 105u8, 115u8, 116u8];
    assert(n3@ =~= seq![105u8, 110u8, 112u8, 117u8, 116u8, 108u8, 105u8, 115u8, 116u8]);
    t.push(BuiltinArgc { name: n3, min_argc: 1, max_argc: 1, base_arg: 1 });
    let n4: Vec<u8> = vec![105u8, 110u8, 112u8, 117u8, 116u8, 114u8, 101u8, 115u8, 116u8, 111u8, 114u8, 101u8];
    assert(n4@ =~= seq![105u8, 110u8, 112u8, 117u8, 116u8, 114u8, 101u8, 115u8, 116u8, 111u8, 114u8, 101u8]);
    t.push(BuiltinArgc { name: n4, min_argc: 0, max_argc: 0, base_arg: 0 });
    let n5: Vec<u8> = vec![105u8, 110u8, 112u8, 117u8, 116u8, 115u8, 97u8, 118u8, 101u8];
    assert(n5@ =~= seq![105u8, 110u8, 112u8, 117u8, 116u8, 115u8, 97u8, 118u8, 101u8]);
    t.push(BuiltinArgc { name: n5, min_argc: 0, max_argc: 0, base_arg: 0 });
    let n6: Vec<u8> = vec![105u8, 110u8, 112u8, 117u8, 116u8, 115u8, 101u8, 99u8, 114u8, 101u8, 116u8];
    assert(n6@ =~= seq![105u8, 110u8, 112u8, 117u8, 116u8, 115u8, 101u8, 99u8, 114u8, 101u8, 116u8]);
    t.push(BuiltinArgc { name: n6, min_argc: 1, max_argc: 2, base_arg: 1 });
    let n7: Vec<u8> = vec![105u8, 110u8, 115u8, 101u8, 114u8, 116u8];
    assert(n7@ =~= seq![105u8, 110u8, 115u8, 101u8, 114u8, 116u8]);
    t.push(BuiltinArgc { name: n7, min_argc: 2, max_argc: 3, base_arg: 1 });
    let n8: Vec<u8> = vec![105u8, 110u8, 116u8, 101u8, 114u8, 114u8, 117u8, 112u8, 116u8];
    assert(n8@ =~= seq![105u8, 110u8, 116u8, 101u8, 114u8, 114u8, 117u8, 112u8, 116u8]);
    t.push(BuiltinArgc { name: n8, min_argc: 0, max_argc: 0, base_arg: 0 });
    let n9: Vec<u8> = vec![105u8, 110u8, 118u8, 101u8, 114u8, 116u8];
    assert(n9@ =~= seq![105u8, 110u8, 118u8, 101u8, 114u8, 116u8]);
    t.push(BuiltinArgc { name: n9, min_argc: 1, max_argc: 1, base_arg: 1 });
    assert(argc_view(t@) =~= start + builtins_16());
}

/// Rows of the builtin table.
pub open spec fn builtins_17() -> Seq<(Seq<u8>, u8, u8, u8)> {
    seq![(seq![105u8, 115u8, 105u8, 110u8, 102u8], 1u8, 1u8, 1u8), (seq![105u8, 115u8, 108u8, 111u8, 99u8, 107u8, 101u8, 100u8], 1u8, 1u8, 1u8), (seq![105u8, 115u8, 110u8, 97u8, 110u8], 1u8, 1u8, 1u8), (seq![105u8, 116u8, 101u8, 109u8, 115u8], 1u8, 1u8, 1u8), (seq![106u8, 111u8, 98u8, 112u8, 105u8, 100u8], 1u8, 1u8, 0u8), (seq![106u8, 111u8, 98u8, 114u8, 101u8, 115u8, 105u8, 122u8, 101u8], 3u8, 3u8, 0u8), (seq![106u8, 111u8, 98u8, 115u8, 116u8, 97u8, 114u8, 116u8], 1u8, 2u8, 0u8), (seq![106u8, 111u8, 98u8, 115u8, 116u8, 111u8, 112u8], 1u8, 1u8, 0u8), (seq![106u8, 111u8, 98u8, 119u8, 97u8, 105u8, 116u8], 1u8, 2u8, 0u8), (seq![106u8, 111u8, 105u8, 110u8], 1u8, 2u8, 1u8)]
}

fn push_builtins_17(t: &mut Vec<BuiltinArgc>)
    ensures argc_view(final(t)@) =~= argc_view(old(t)@) + builtins_17(),
{
    let ghost start = argc_view(t@);
    let n0: Vec<u8> = vec![105u8, 115u8, 105u8, 110u8, 102u8];
    assert(n0@ =~= seq![105u8, 115u8, 105u8, 110u8, 102u8]);
    t.push(BuiltinArgc { name: n0, min_argc: 1, max_argc: 1, base_arg: 1 });
    let n1: Vec<u8> = vec![105u8, 115u8, 108u8, 111u8, 99u8, 107u8, 101u8, 100u8];
    assert(n1@ =~= seq![105u8, 115u8, 108u8, 111u8, 99u8, 107u8, 101u8, 100u8]);
    t.push(BuiltinArgc { name: n1, min_argc: 1, max_argc: 1, base_arg: 1 });
    let n2: Vec<u8> = vec![105u8, 115u8, 110u8, 97u8, 110u8];
    assert(n2@ =~= seq![105u8, 115u8, 110u8, 97u8, 110u8]);
    t.push(BuiltinArgc { name: n2, min_argc: 1, max_argc: 1, base_arg: 1 });
    let n3: Vec<u8> = vec![105u8, 116u8, 101u8, 109u8, 115u8];
    assert(n3@ =~= seq![105u8, 116u8, 101u8, 109u8, 115u8]);
    t.push(BuiltinArgc { name: n3, min_argc: 1, max_argc: 1, base_arg: 1 });
    let n4: Vec<u8> = vec![106u8, 111u8, 98u8, 112u8, 105u8, 100u8];
    assert(n4@ =~= seq![106u8, 111u8, 98u8, 112u8, 105u8, 100u8]);
    t.push(BuiltinArgc { name: n4, min_argc: 1, max_argc: 1, base_arg: 0 });
    let n5: Vec<u8> = vec![106u8, 111u8, 98u8, 114u8, 101u8, 115u8, 105u8, 122u8, 101u8];
    assert(n5@ =~= seq![106u8, 111u8, 98u8, 114u8, 101u8, 115u8, 105u8, 122u8, 101u8]);
    t.push(BuiltinArgc { name: n5, min_argc: 3, max_argc: 3, base_arg: 0 });
    let n6: Vec<u8> = vec![106u8, 111u8, 98u8, 115u8, 116u8, 97u8, 114u8, 116u8];
    assert(n6@ =~= seq![106u8, 111u8, 98u8, 115u8, 116u8, 97u8, 114u8, 116u8]);
    t.push(BuiltinArgc { name: n6, min_argc: 1, max_argc: 2, base_arg: 0 });
    let n7: Vec<u8> = vec![106u8, 111u8, 98u8, 115u8, 116u8, 111u8, 112u8];
    assert(n7@ =~= seq![106u8, 111u8, 98u8, 115u8, 116u8, 111u8, 112u8]);
    t.push(BuiltinArgc { name: n7, min_argc: 1, max_argc: 1, base_arg: 0 });
    let n8: Vec<u8> = vec![106u8, 111u8, 98u8, 119u8, 97u8, 105u8, 116u8];
    assert(n8@ =~= seq![106u8, 111u8, 98u8, 119u8, 97u8, 105u8, 116u8]);
    t.push(BuiltinArgc { name: n8, min_argc: 1, max_argc: 2, base_arg: 0 });
    let n9: Vec<u8> = vec![106u8, 111u8, 105u8, 110u8];
    assert(n9@ =~= seq![106u8, 111u8, 105u8, 110u8]);
    t.push(BuiltinArgc { name: n9, min_argc: 1, max_argc: 2, base_arg: 1 });
    assert(argc_view(t@) =~= start + builtins_17());
}

/// Rows of the builtin table.
pub open spec fn builtins_18() -> Seq<(Seq<u8>, u8, u8, u8)> {
    seq![(seq![106u8, 115u8, 111u8, 110u8, 95u8, 100u8, 101u8, 99u8, 111u8, 100u8, 101u8], 1u8, 1u8, 1u8), (seq![106u8, 115u8, 111u8, 110u8, 95u8, 101u8, 110u8, 99u8, 111u8, 100u8, 101u8], 1u8, 1u8, 1u8), (seq![107u8, 101u8, 121u8, 115u8], 1u8, 1u8, 1u8), (seq![107u8, 101u8, 121u8, 116u8, 114u8, 97u8, 110u8, 115u8], 1u8, 1u8, 1u8), (seq![108u8, 97u8, 115u8, 116u8, 95u8, 98u8, 117u8, 102u8, 102u8, 101u8, 114u8, 95u8, 110u8, 114u8], 0u8, 0u8, 0u8), (seq![108u8, 101u8, 110u8], 1u8, 1u8, 1u8), (seq![108u8, 105u8, 98u8, 99u8, 97u8, 108u8, 108u8], 3u8, 3u8, 3u8), (seq![108u8, 105u8, 98u8, 99u8, 97u8, 108u8, 108u8, 110u8, 114u8], 3u8, 3u8, 3u8), (seq![108u8, 105u8, 110u8, 101u8], 1u8, 2u8, 1u8), (seq![108u8, 105u8, 110u8, 101u8, 50u8, 98u8, 121u8, 116u8, 101u8], 1u8, 1u8, 1u8)]
}

fn push_builtins_18(t: &mut Vec<BuiltinArgc>)
    ensures argc_view(final(t)@) =~= argc_view(old(t)@) + builtins_18(),
{
    let ghost start = argc_view(t@);
    let n0: Vec<u8> = vec![106u8, 115u8, 111u8, 110u8, 95u8, 100u8, 101u8, 99u8, 111u8, 100u8, 101u8];
    assert(n0@ =~= seq![106u8, 115u8, 111u8, 110u8, 95u8, 100u8, 101u8, 99u8, 111u8, 100u8, 101u8]);
    t.push(BuiltinArgc { name: n0, min_argc: 1, max_argc: 1, base_arg: 1 });
    let n1: Vec<u8> = vec![106u8, 115u8, 111u8, 110u8, 95u8, 101u8, 110u8, 99u8, 111u8, 100u8, 101u8];
    assert(n1@ =~= seq![106u8, 115u8, 111u8, 110u8, 95u8, 101u8, 110u8, 99u8, 111u8, 100u8, 101u8]);
    t.push(BuiltinArgc { name: n1, min_argc: 1, max_argc: 1, base_arg: 1 });
    let n2: Vec<u8> = vec![107u8, 101u8, 121u8, 115u8];
    assert(n2@ =~= seq![107u8, 101u8, 121u8, 115u8]);
    t.push(BuiltinArgc { name: n2, min_argc: 1, max_argc: 1, base_arg: 1 });
    let n3: Vec<u8> = vec![107u8, 101u8, 121u8, 116u8, 114u8, 97u8, 110u8, 115u8];
    assert(n3@ =~= seq![107u8, 101u8, 121u8, 116u8, 114u8, 97u8, 110u8, 115u8]);
    t.push(BuiltinArgc { name: n3, min_argc: 1, max_argc: 1, base_arg: 1 });
    let n4: Vec<u8> = vec![108u8, 97u8, 115u8, 116u8, 95u8, 98u8, 117u8, 102u8, 102u8, 101u8, 114u8, 95u8, 110u8, 114u8];
    assert(n4@ =~= seq![108u8, 97u8, 115u8, 116u8, 95u8, 98u8, 117u8, 102u8, 102u8, 101u8, 114u8, 95u8, 110u8, 114u8]);
    t.push(BuiltinArgc { name: n4, min_argc: 0, max_argc: 0, base_arg: 0 });
    let n5: Vec<u8> = vec![108u8, 101u8, 110u8];
    assert(n5@ =~= seq![108u8, 101u8, 110u8]);
    t.push(BuiltinArgc { name: n5, min_argc: 1, max_argc: 1, base_arg: 1 });
    let n6: Vec<u8> = vec![108u8, 105u8, 98u8, 99u8, 97u8, 108u8, 108u8];
    assert(n6@ =~= seq![108u8, 105u8, 98u8, 99u8, 97u8, 108u8, 108u8]);
    t.push(BuiltinArgc { name: n6, min_argc: 3, max_argc: 3, base_arg: 3 });
    let n7: Vec<u8> = vec![108u8, 105u8, 98u8, 99u8, 97u8, 108u8, 108u8, 110u8, 114u8];
    assert(n7@ =~= seq![108u8, 105u8, 98u8, 99u8, 97u8, 108u8, 108u8, 110u8, 114u8]);
    t.push(BuiltinArgc { name: n7, min_argc: 3, max_argc: 3, base_arg: 3 });
    let n8: Vec<u8> = vec![108u8, 105u8, 110u8, 101u8];
    assert(n8@ =~= seq![108u8, 105u8, 110u8, 101u8]);
    t.push(BuiltinArgc { name: n8, min_argc: 1, max_argc: 2, base_arg: 1 });
    let n9: Vec<u8> = vec![108u8, 105u8, 110u8, 101u8, 50u8, 98u8, 121u8, 116u8, 101u8];
    assert(n9@ =~= seq![108u8, 105u8, 110u8, 101u8, 50u8, 98u8, 121u8, 116u8, 101u8]);
    t.push(BuiltinArgc { name: n9, min_argc: 1, max_argc: 1, base_arg: 1 });
    assert(argc_view(t@) =~= start + builtins_18());
}

/// Rows of the builtin table.
pub open spec fn builtins_19() -> Seq<(Seq<u8>, u8, u8, u8)> {
    seq![(seq![108u8, 105u8, 115u8, 112u8, 105u8, 110u8, 100u8, 101u8, 110u8, 116u8], 1u8, 1u8, 1u8), (seq![108u8, 105u8, 115u8, 116u8, 50u8, 98u8, 108u8, 111u8, 98u8], 1u8, 1u8, 1u8), (seq![108u8, 105u8, 115u8, 116u8, 50u8, 115u8, 116u8, 114u8], 1u8, 2u8, 1u8), (seq![108u8, 111u8, 99u8, 97u8, 108u8, 116u8, 105u8, 109u8, 101u8], 0u8, 0u8, 0u8), (seq![108u8, 117u8, 97u8, 101u8, 118u8, 97u8, 108u8], 1u8, 2u8, 1u8), (seq![109u8, 97u8, 112u8], 2u8, 2u8, 1u8), (seq![109u8, 97u8, 112u8, 97u8, 114u8, 103u8], 1u8, 4u8, 1u8), (seq![109u8, 97u8, 112u8, 99u8, 104u8, 101u8, 99u8, 107u8], 1u8, 3u8, 1u8), (seq![109u8, 97u8, 112u8, 108u8, 105u8, 115u8, 116u8], 0u8, 1u8, 0u8), (seq![109u8, 97u8, 112u8, 110u8, 101u8, 119u8], 2u8, 2u8, 1u8)]
}

fn push_builtins_19(t: &mut Vec<BuiltinArgc>)
    ensures argc_view(final(t)@) =~= argc_view(old(t)@) + builtins_19(),
{
    let ghost start = argc_view(t@);
    let n0: Vec<u8> = vec![108u8, 105u8, 115u8, 112u8, 105u8, 110u8, 100u8, 101u8, 110u8, 116u8];
    assert(n0@ =~= seq![108u8, 105u8, 115u8, 112u8, 105u8, 110u8, 100u8, 101u8, 110u8, 116u8]);
    t.push(BuiltinArgc { name: n0, min_argc: 1, max_argc: 1, base_arg: 1 });
    let n1: Vec<u8> = vec![108u8, 105u8, 115u8, 116u8, 50u8, 98u8, 108u8, 111u8, 98u8];
    assert(n1@ =~= seq![108u8, 105u8, 115u8, 116u8, 50u8, 98u8, 108u8, 111u8, 98u8]);
    t.push(BuiltinArgc { name: n1, min_argc: 1, max_argc: 1, base_arg: 1 });
    let n2: Vec<u8> = vec![108u8, 105u8, 115u8, 116u8, 50u8, 115u8, 116u8, 114u8];
    assert(n2@ =~= seq![108u8, 105u8, 115u8, 116u8, 50u8, 115u8, 116u8, 114u8]);
    t.push(BuiltinArgc { name: n2, min_argc: 1, max_argc: 2, base_arg: 1 });
    let n3: Vec<u8> = vec![108u8, 111u8, 99u8, 97u8, 108u8, 116u8, 105u8, 109u8, 101u8];
    assert(n3@ =~= seq![108u8, 111u8, 99u8, 97u8, 108u8, 116u8, 105u8, 109u8, 101u8]);
    t.push(BuiltinArgc { name: n3, min_argc: 0, max_argc: 0, base_arg: 0 });
    let n4: Vec<u8> = vec![108u8, 117u8, 97u8, 101u8, 118u8, 97u8, 108u8];
    assert(n4@ =~= seq![108u8, 117u8, 97u8, 101u8, 118u8, 97u8, 108u8]);
    t.push(BuiltinArgc { name: n4, min_argc: 1, max_argc: 2, base_arg: 1 });
    let n5: Vec<u8> = vec![109u8, 97u8, 112u8];
    assert(n5@ =~= seq![109u8, 97u8, 112u8]);
    t.push(BuiltinArgc { name: n5, min_argc: 2, max_argc: 2, base_arg: 1 });
    let n6: Vec<u8> = vec![109u8, 97u8, 112u8, 97u8, 114u8, 103u8];
    assert(n6@ =~= seq![109u8, 97u8, 112u8, 97u8, 114u8, 103u8]);
    t.push(BuiltinArgc { name: n6, min_argc: 1, max_argc: 4, base_arg: 1 });
    let n7: Vec<u8> = vec![109u8, 97u8, 112u8, 99u8, 104u8, 101u8, 99u8, 107u8];
    assert(n7@ =~= seq![109u8, 97u8, 112u8, 99u8, 104u8, 101u8, 99u8, 107u8]);
    t.push(BuiltinArgc { name: n7, min_argc: 1, max_argc: 3, base_arg: 1 });
    let n8: Vec<u8> = vec![109u8, 97u8, 112u8, 108u8, 105u8, 115u8, 116u8];
    assert(n8@ =~= seq![109u8, 97u8, 112u8, 108u8, 105u8, 115u8, 116u8]);
    t.push(BuiltinArgc { name: n8, min_argc: 0, max_argc: 1, base_arg: 0 });
    let n9: Vec<u8> = vec![109u8, 97u8, 112u8, 110u8, 101u8, 119u8];
    assert(n9@ =~= seq![109u8, 97u8, 112u8, 110u8, 101u8, 119u8]);
    t.push(BuiltinArgc { name: n9, min_argc: 2, max_argc: 2, base_arg: 1 });
    assert(argc_view(t@) =~= start + builtins_19());
}

/// Rows of the builtin table.
pub open spec fn builtins_20() -> Seq<(Seq<u8>, u8, u8, u8)> {
    seq![(seq![109u8, 97u8, 112u8, 115u8, 101u8, 116u8], 1u8, 3u8, 1u8), (seq![109u8, 97u8, 116u8, 99u8, 104u8], 2u8, 4u8, 1u8), (seq![109u8, 97u8, 116u8, 99u8, 104u8, 97u8, 100u8, 100u8], 2u8, 5u8, 1u8), (seq![109u8, 97u8, 116u8, 99u8, 104u8, 97u8, 100u8, 100u8, 112u8, 111u8, 115u8], 2u8, 5u8, 1u8), (seq![109u8, 97u8, 116u8, 99u8, 104u8, 97u8, 114u8, 103u8], 1u8, 1u8, 1u8), (seq![109u8, 97u8, 116u8, 99u8, 104u8, 98u8, 117u8, 102u8, 108u8, 105u8, 110u8, 101u8], 4u8, 5u8, 1u8), (seq![109u8, 97u8, 116u8, 99u8, 104u8, 100u8, 101u8, 108u8, 101u8, 116u8, 101u8], 1u8, 2u8, 1u8), (seq![109u8, 97u8, 116u8, 99u8, 104u8, 101u8, 110u8, 100u8], 2u8, 4u8, 1u8), (seq![109u8, 97u8, 116u8, 99u8, 104u8, 102u8, 117u8, 122u8, 122u8, 121u8], 2u8, 3u8, 1u8), (seq![109u8, 97u8, 116u8, 99u8, 104u8, 102u8, 117u8, 122u8, 122u8, 121u8, 112u8, 111u8, 115u8], 2u8, 3u8, 1u8)]
}

fn push_builtins_20(t: &mut Vec<BuiltinArgc>)
    ensures argc_view(final(t)@) =~= argc_view(old(t)@) + builtins_20(),
{
    let ghost start = argc_view(t@);
    let n0: Vec<u8> = vec![109u8, 97u8, 112u8, 115u8, 101u8, 116u8];
    assert(n0@ =~= seq![109u8, 97u8, 112u8, 115u8, 101u8, 116u8]);
    t.push(BuiltinArgc { name: n0, min_argc: 1, max_argc: 3, base_arg: 1 });
    let n1: Vec<u8> = vec![109u8, 97u8, 116u8, 99u8, 104u8];
    assert(n1@ =~= seq![109u8, 97u8, 116u8, 99u8, 104u8]);
    t.push(BuiltinArgc { name: n1, min_argc: 2, max_argc: 4, base_arg: 1 });
    let n2: Vec<u8> = vec![109u8, 97u8, 116u8, 99u8, 104u8, 97u8, 100u8, 100u8];
    assert(n2@ =~= seq![109u8, 97u8, 116u8, 99u8, 104u8, 97u8, 100u8, 100u8]);
    t.push(BuiltinArgc { name: n2, min_argc: 2, max_argc: 5, base_arg: 1 });
    let n3: Vec<u8> = vec![109u8, 97u8, 116u8, 99u8, 104u8, 97u8, 100u8, 100u8, 112u8, 111u8, 115u8];
    assert(n3@ =~= seq![109u8, 97u8, 116u8, 99u8, 104u8, 97u8, 100u8, 100u8, 112u8, 111u8, 115u8]);
    t.push(BuiltinArgc { name: n3, min_argc: 2, max_argc: 5, base_arg: 1 });
    let n4: Vec<u8> = vec![109u8, 97u8, 116u8, 99u8, 104u8, 97u8, 114u8, 103u8];
    assert(n4@ =~= seq![109u8, 97u8, 116u8, 99u8, 104u8, 97u8, 114u8, 103u8]);
    t.push(BuiltinArgc { name: n4, min_argc: 1, max_argc: 1, base_arg: 1 });
    let n5: Vec<u8> = vec![109u8, 97u8, 116u8, 99u8, 104u8, 98u8, 117u8, 102u8, 108u8, 105u8, 110u8, 101u8];
    assert(n5@ =~= seq![109u8, 97u8, 116u8, 99u8, 104u8, 98u8, 117u8, 102u8, 108u8, 105u8, 110u8, 101u8]);
    t.push(BuiltinArgc { name: n5, min_argc: 4, max_argc: 5, base_arg: 1 });
    let n6: Vec<u8> = vec![109u8, 97u8, 116u8, 99u8, 104u8, 100u8, 101u8, 108u8, 101u8, 116u8, 101u8];
    assert(n6@ =~= seq![109u8, 97u8, 116u8, 99u8, 104u8, 100u8, 101u8, 108u8, 101u8, 116u8, 101u8]);
    t.push(BuiltinArgc { name: n6, min_argc: 1, max_argc: 2, base_arg: 1 });
    let n7: Vec<u8> = vec![109u8, 97u8, 116u8, 99u8, 104u8, 101u8, 110u8, 100u8];
    assert(n7@ =~= seq![109u8, 97u8, 116u8, 99u8, 104u8, 101u8, 110u8, 100u8]);
    t.push(BuiltinArgc { name: n7, min_argc: 2, max_argc: 4, base_arg: 1 });
    let n8: Vec<u8> = vec![109u8, 97u8, 116u8, 99u8, 104u8, 102u8, 117u8, 122u8, 122u8, 121u8];
    assert(n8@ =~= seq![109u8, 97u8, 116u8, 99u8, 104u8, 102u8, 117u8, 122u8, 122u8, 121u8]);
    t.push(BuiltinArgc { name: n8, min_argc: 2, max_argc: 3, base_arg: 1 });
    let n9: Vec<u8> = vec![109u8, 97u8, 116u8, 99u8, 104u8, 102u8, 117u8, 122u8, 122u8, 121u8, 112u8, 111u8, 115u8];
    assert(n9@ =~= seq![109u8, 97u8, 116u8, 99u8, 104u8, 102u8, 117u8, 122u8, 122u8, 121u8, 112u8, 111u8, 115u8]);
    t.push(BuiltinArgc { name: n9, min_argc: 2, max_argc: 3, base_arg: 1 });
    assert(argc_view(t@) =~= start + builtins_20());
}

/// Rows of the builtin table.
pub open spec fn builtins_21() -> Seq<(Seq<u8>, u8, u8, u8)> {
    seq![(seq![109u8, 97u8, 116u8, 99u8, 104u8, 108u8, 105u8, 115u8, 116u8], 2u8, 4u8, 1u8), (seq![109u8, 97u8, 116u8, 99u8, 104u8, 115u8, 116u8, 114u8], 2u8, 4u8, 1u8), (seq![109u8, 97u8, 116u8, 99u8, 104u8, 115u8, 116u8, 114u8, 108u8, 105u8, 115u8, 116u8], 2u8, 3u8, 1u8), (seq![109u8, 97u8, 116u8, 99u8, 104u8, 115u8, 116u8, 114u8, 112u8, 111u8, 115u8], 2u8, 4u8, 1u8), (seq![109u8, 97u8, 120u8], 1u8, 1u8, 1u8), (seq![109u8, 101u8, 110u8, 117u8, 95u8, 103u8, 101u8, 116u8], 1u8, 2u8, 0u8), (seq![109u8, 101u8, 110u8, 117u8, 95u8, 105u8, 110u8, 102u8, 111u8], 1u8, 2u8, 1u8), (seq![109u8, 105u8, 110u8], 1u8, 1u8, 1u8), (seq![109u8, 111u8, 100u8, 101u8], 0u8, 1u8, 1u8), (seq![109u8, 115u8, 103u8, 112u8, 97u8, 99u8, 107u8, 100u8, 117u8, 109u8, 112u8], 1u8, 2u8, 0u8)]
}

fn push_builtins_21(t: &mut Vec<BuiltinArgc>)
    ensures argc_view(final(t)@) =~= argc_view(old(t)@) + builtins_21(),
{
    let ghost start = argc_view(t@);
    let n0: Vec<u8> = vec![109u8, 97u8, 116u8, 99u8, 104u8, 108u8, 105u8, 115u8, 116u8];
    assert(n0@ =~= seq![109u8, 97u8, 116u8, 99u8, 104u8, 108u8, 105u8, 115u8, 116u8]);
    t.push(BuiltinArgc { name: n0, min_argc: 2, max_argc: 4, base_arg: 1 });
    let n1: Vec<u8> = vec![109u8, 97u8, 116u8, 99u8, 104u8, 115u8, 116u8, 114u8];
    assert(n1@ =~= seq![109u8, 97u8, 116u8, 99u8, 104u8, 115u8, 116u8, 114u8]);
    t.push(BuiltinArgc { name: n1, min_argc: 2, max_argc: 4, base_arg: 1 });
    let n2: Vec<u8> = vec![109u8, 97u8, 116u8, 99u8, 104u8, 115u8, 116u8, 114u8, 108u8, 105u8, 115u8, 116u8];
    assert(n2@ =~= seq![109u8, 97u8, 116u8, 99u8, 104u8, 115u8, 116u8, 114u8, 108u8, 105u8, 115u8, 116u8]);
    t.push(BuiltinArgc { name: n2, min_argc: 2, max_argc: 3, base_arg: 1 });
    let n3: Vec<u8> = vec![109u8, 97u8, 116u8, 99u8, 104u8, 115u8, 116u8, 114u8, 112u8, 111u8, 115u8];
    assert(n3@ =~= seq![109u8, 97u8, 116u8, 99u8, 104u8, 115u8, 116u8, 114u8, 112u8, 111u8, 115u8]);
    t.push(BuiltinArgc { name: n3, min_argc: 2, max_argc: 4, base_arg: 1 });
    let n4: Vec<u8> = vec![109u8, 97u8, 120u8];
    assert(n4@ =~= seq![109u8, 97u8, 120u8]);
    t.push(BuiltinArgc { name: n4, min_argc: 1, max_argc: 1, base_arg: 1 });
    let n5: Vec<u8> = vec![109u8, 101u8, 110u8, 117u8, 95u8, 103u8, 101u8, 116u8];
    assert(n5@ =~= seq![109u8, 101u8, 110u8, 117u8, 95u8, 103u8, 101u8, 116u8]);
    t.push(BuiltinArgc { name: n5, min_argc: 1, max_argc: 2, base_arg: 0 });
    let n6: Vec<u8> = vec![109u8, 101u8, 110u8, 117u8, 95u8, 105u8, 110u8, 102u8, 111u8];
    assert(n6@ =~= seq![109u8, 101u8, 110u8, 117u8, 95u8, 105u8, 110u8, 102u8, 111u8]);
    t.push(BuiltinArgc { name: n6, min_argc: 1, max_argc: 2, base_arg: 1 });
    let n7: Vec<u8> = vec![109u8, 105u8, 110u8];
    assert(n7@ =~= seq![109u8, 105u8, 110u8]);
    t.push(BuiltinArgc { name: n7, min_argc: 1, max_argc: 1, base_arg: 1 });
    let n8: Vec<u8> = vec![109u8, 111u8, 100u8, 101u8];
    assert(n8@ =~= seq![109u8, 111u8, 100u8, 101u8]);
    t.push(BuiltinArgc { name: n8, min_argc: 0, max_argc: 1, base_arg: 1 });
    let n9: Vec<u8> = vec![109u8, 115u8, 103u8, 112u8, 97u8, 99u8, 107u8, 100u8, 117u8, 109u8, 112u8];
    assert(n9@ =~= seq![109u8, 115u8, 103u8, 112u8, 97u8, 99u8, 107u8, 100u8, 117u8, 109u8, 112u8]);
    t.push(BuiltinArgc { name: n9, min_argc: 1, max_argc: 2, base_arg: 0 });
    assert(argc_view(t@) =~= start + builtins_21());
}

/// Rows of the builtin table.
pub open spec fn builtins_22() -> Seq<(Seq<u8>, u8, u8, u8)> {
    seq![(seq![109u8, 115u8, 103u8, 112u8, 97u8, 99u8, 107u8, 112u8, 97u8, 114u8, 115u8, 101u8], 1u8, 1u8, 0u8), (seq![110u8, 101u8, 120u8, 116u8, 110u8, 111u8, 110u8, 98u8, 108u8, 97u8, 110u8, 107u8], 1u8, 1u8, 1u8), (seq![110u8, 114u8, 50u8, 99u8, 104u8, 97u8, 114u8], 1u8, 2u8, 1u8), (seq![111u8, 114u8], 2u8, 2u8, 1u8), (seq![112u8, 101u8, 114u8, 108u8, 101u8, 118u8, 97u8, 108u8], 1u8, 1u8, 1u8), (seq![112u8, 111u8, 119u8], 2u8, 2u8, 1u8), (seq![112u8, 114u8, 101u8, 105u8, 110u8, 115u8, 101u8, 114u8, 116u8, 101u8, 100u8], 0u8, 0u8, 0u8), (seq![112u8, 114u8, 101u8, 118u8, 110u8, 111u8, 110u8, 98u8, 108u8, 97u8, 110u8, 107u8], 1u8, 1u8, 1u8), (seq![112u8, 114u8, 105u8, 110u8, 116u8, 102u8], 1u8, 255u8, 2u8), (seq![112u8, 114u8, 111u8, 109u8, 112u8, 116u8, 95u8, 103u8, 101u8, 116u8, 105u8, 110u8, 112u8, 117u8, 116u8], 1u8, 1u8, 1u8)]
}

fn push_builtins_22(t: &mut Vec<BuiltinArgc>)
    ensures argc_view(final(t)@) =~= argc_view(old(t)@) + builtins_22(),
{
    let ghost start = argc_view(t@);
    let n0: Vec<u8> = vec![109u8, 115u8, 103u8, 112u8, 97u8, 99u8, 107u8, 112u8, 97u8, 114u8, 115u8, 101u8];
    assert(n0@ =~= seq![109u8, 115u8, 103u8, 112u8, 97u8, 99u8, 107u8, 112u8, 97u8, 114u8, 115u8, 101u8]);
    t.push(BuiltinArgc { name: n0, min_argc: 1, max_argc: 1, base_arg: 0 });
    let n1: Vec<u8> = vec![110u8, 101u8, 120u8, 116u8, 110u8, 111u8, 110u8, 98u8, 108u8, 97u8, 110u8, 107u8];
    assert(n1@ =~= seq![110u8, 101u8, 120u8, 116u8, 110u8, 111u8, 110u8, 98u8, 108u8, 97u8, 110u8, 107u8]);
    t.push(BuiltinArgc { name: n1, min_argc: 1, max_argc: 1, base_arg: 1 });
    let n2: Vec<u8> = vec![110u8, 114u8, 50u8, 99u8, 104u8, 97u8, 114u8];
    assert(n2@ =~= seq![110u8, 114u8, 50u8, 99u8, 104u8, 97u8, 114u8]);
    t.push(BuiltinArgc { name: n2, min_argc: 1, max_argc: 2, base_arg: 1 });
    let n3: Vec<u8> = vec![111u8, 114u8];
    assert(n3@ =~= seq![111u8, 114u8]);
    t.push(BuiltinArgc { name: n3, min_argc: 2, max_argc: 2, base_arg: 1 });
    let n4: Vec<u8> = vec![112u8, 101u8, 114u8, 108u8, 101u8, 118u8, 97u8, 108u8];
    assert(n4@ =~= seq![112u8, 101u8, 114u8, 108u8, 101u8, 118u8, 97u8, 108u8]);
    t.push(BuiltinArgc { name: n4, min_argc: 1, max_argc: 1, base_arg: 1 });
    let n5: Vec<u8> = vec![112u8, 111u8, 119u8];
    assert(n5@ =~= seq![112u8, 111u8, 119u8]);
    t.push(BuiltinArgc { name: n5, min_argc: 2, max_argc: 2, base_arg: 1 });
    let n6: Vec<u8> = vec![112u8, 114u8, 101u8, 105u8, 110u8, 115u8, 101u8, 114u8, 116u8, 101u8, 100u8];
    assert(n6@ =~= seq![112u8, 114u8, 101u8, 105u8, 110u8, 115u8, 101u8, 114u8, 116u8, 101u8, 100u8]);
    t.push(BuiltinArgc { name: n6, min_argc: 0, max_argc: 0, base_arg: 0 });
    let n7: Vec<u8> = vec![112u8, 114u8, 101u8, 118u8, 110u8, 111u8, 110u8, 98u8, 108u8, 97u8, 110u8, 107u8];
    assert(n7@ =~= seq![112u8, 114u8, 101u8, 118u8, 110u8, 111u8, 110u8, 98u8, 108u8, 97u8, 110u8, 107u8]);
    t.push(BuiltinArgc { name: n7, min_argc: 1, max_argc: 1, base_arg: 1 });
    let n8: Vec<u8> = vec![112u8, 114u8, 105u8, 110u8, 116u8, 102u8];
    assert(n8@ =~= seq![112u8, 114u8, 105u8, 110u8, 116u8, 102u8]);
    t.push(BuiltinArgc { name: n8, min_argc: 1, max_argc: 255, base_arg: 2 });
    let n9: Vec<u8> = vec![112u8, 114u8, 111u8, 109u8, 112u8, 116u8, 95u8, 103u8, 101u8, 116u8, 105u8, 110u8, 112u8, 117u8, 116u8];
    assert(n9@ =~= seq![112u8, 114u8, 111u8, 109u8, 112u8, 116u8, 95u8, 103u8, 101u8, 116u8, 105u8, 110u8, 112u8, 117u8, 116u8]);
    t.push(BuiltinArgc { name: n9, min_argc: 1, max_argc: 1, base_arg: 1 });
    assert(argc_view(t@) =~= start + builtins_22());
}

/// Rows of the builtin table.
pub open spec fn builtins_23() -> Seq<(Seq<u8>, u8, u8, u8)> {
    seq![(seq![112u8, 114u8, 111u8, 109u8, 112u8, 116u8, 95u8, 103u8, 101u8, 116u8, 112u8, 114u8, 111u8, 109u8, 112u8, 116u8], 1u8, 1u8, 1u8), (seq![112u8, 114u8, 111u8, 109u8, 112u8, 116u8, 95u8, 115u8, 101u8, 116u8, 99u8, 97u8, 108u8, 108u8, 98u8, 97u8, 99u8, 107u8], 2u8, 2u8, 1u8), (seq![112u8, 114u8, 111u8, 109u8, 112u8, 116u8, 95u8, 115u8, 101u8, 116u8, 105u8, 110u8, 116u8, 101u8, 114u8, 114u8, 117u8, 112u8, 116u8], 2u8, 2u8, 1u8), (seq![112u8, 114u8, 111u8, 109u8, 112u8, 116u8, 95u8, 115u8, 101u8, 116u8, 112u8, 114u8, 111u8, 109u8, 112u8, 116u8], 2u8, 2u8, 1u8), (seq![112u8, 117u8, 109u8, 95u8, 103u8, 101u8, 116u8, 112u8, 111u8, 115u8], 0u8, 0u8, 0u8), (seq![112u8, 117u8, 109u8, 118u8, 105u8, 115u8, 105u8, 98u8, 108u8, 101u8], 0u8, 0u8, 0u8), (seq![112u8, 121u8, 51u8, 101u8, 118u8, 97u8, 108u8], 1u8, 2u8, 1u8), (seq![112u8, 121u8, 101u8, 118u8, 97u8, 108u8], 1u8, 2u8, 1u8), (seq![112u8, 121u8, 120u8, 101u8, 118u8, 97u8, 108u8], 1u8, 2u8, 1u8), (seq![114u8, 97u8, 110u8, 100u8], 0u8, 1u8, 1u8)]
}

fn push_builtins_23(t: &mut Vec<BuiltinArgc>)
    ensures argc_view(final(t)@) =~= argc_view(old(t)@) + builtins_23(),
{
    let ghost start = argc_view(t@);
    let n0: Vec<u8> = vec![112u8, 114u8, 111u8, 109u8, 112u8, 116u8, 95u8, 103u8, 101u8, 116u8, 112u8, 114u8, 111u8, 109u8, 112u8, 116u8];
    assert(n0@ =~= seq![112u8, 114u8, 111u8, 109u8, 112u8, 116u8, 95u8, 103u8, 101u8, 116u8, 112u8, 114u8, 111u8, 109u8, 112u8, 116u8]);
    t.push(BuiltinArgc { name: n0, min_argc: 1, max_argc: 1, base_arg: 1 });
    let n1: Vec<u8> = vec![112u8, 114u8, 111u8, 109u8, 112u8, 116u8, 95u8, 115u8, 101u8, 116u8, 99u8, 97u8, 108u8, 108u8, 98u8, 97u8, 99u8, 107u8];
    assert(n1@ =~= seq![112u8, 114u8, 111u8, 109u8, 112u8, 116u8, 95u8, 115u8, 101u8, 116u8, 99u8, 97u8, 108u8, 108u8, 98u8, 97u8, 99u8, 107u8]);
    t.push(BuiltinArgc { name: n1, min_argc: 2, max_argc: 2, base_arg: 1 });
    let n2: Vec<u8> = vec![112u8, 114u8, 111u8, 109u8, 112u8, 116u8, 95u8, 115u8, 101u8, 116u8, 105u8, 110u8, 116u8, 101u8, 114u8, 114u8, 117u8, 112u8, 116u8];
    assert(n2@ =~= seq![112u8, 114u8, 111u8, 109u8, 112u8, 116u8, 95u8, 115u8, 101u8, 116u8, 105u8, 110u8, 116u8, 101u8, 114u8, 114u8, 117u8, 112u8, 116u8]);
    t.push(BuiltinArgc { name: n2, min_argc: 2, max_argc: 2, base_arg: 1 });
    let n3: Vec<u8> = vec![112u8, 114u8, 111u8, 109u8, 112u8, 116u8, 95u8, 115u8, 101u8, 116u8, 112u8, 114u8, 111u8, 109u8, 112u8, 116u8];
    assert(n3@ =~= seq![112u8, 114u8, 111u8, 109u8, 112u8, 116u8, 95u8, 115u8, 101u8, 116u8, 112u8, 114u8, 111u8, 109u8, 112u8, 116u8]);
    t.push(BuiltinArgc { name: n3, min_argc: 2, max_argc: 2, base_arg: 1 });
    let n4: Vec<u8> = vec![112u8, 117u8, 109u8, 95u8, 103u8, 101u8, 116u8, 112u8, 111u8, 115u8];
    assert(n4@ =~= seq![112u8, 117u8, 109u8, 95u8, 103u8, 101u8, 116u8, 112u8, 111u8, 115u8]);
    t.push(BuiltinArgc { name: n4, min_argc: 0, max_argc: 0, base_arg: 0 });
    let n5: Vec<u8> = vec![112u8, 117u8, 109u8, 118u8, 105u8, 115u8, 105u8, 98u8, 108u8, 101u8];
    assert(n5@ =~= seq![112u8, 117u8, 109u8, 118u8, 105u8, 115u8, 105u8, 98u8, 108u8, 101u8]);
    t.push(BuiltinArgc { name: n5, min_argc: 0, max_argc: 0, base_arg: 0 });
    let n6: Vec<u8> = vec![112u8, 121u8, 51u8, 101u8, 118u8, 97u8, 108u8];
    assert(n6@ =~= seq![112u8, 121u8, 51u8, 101u8, 118u8, 97u8, 108u8]);
    t.push(BuiltinArgc { name: n6, min_argc: 1, max_argc: 2, base_arg: 1 });
    let n7: Vec<u8> = vec![112u8, 121u8, 101u8, 118u8, 97u8, 108u8];
    assert(n7@ =~= seq![112u8, 121u8, 101u8, 118u8, 97u8, 108u8]);
    t.push(BuiltinArgc { name: n7, min_argc: 1, max_argc: 2, base_arg: 1 });
    let n8: Vec<u8> = vec![112u8, 121u8, 120u8, 101u8, 118u8, 97u8, 108u8];
    assert(n8@ =~= seq![112u8, 121u8, 120u8, 101u8, 118u8, 97u8, 108u8]);
    t.push(BuiltinArgc { name: n8, min_argc: 1, max_argc: 2, base_arg: 1 });
    let n9: Vec<u8> = vec![114u8, 97u8, 110u8, 100u8];
    assert(n9@ =~= seq![114u8, 97u8, 110u8, 100u8]);
    t.push(BuiltinArgc { name: n9, min_argc: 0, max_argc: 1, base_arg: 1 });
    assert(argc_view(t@) =~= start + builtins_23());
}

/// Rows of the builtin table.
pub open spec fn builtins_24() -> Seq<(Seq<u8>, u8, u8, u8)> {
    seq![(seq![114u8, 97u8, 110u8, 103u8, 101u8], 1u8, 3u8, 1u8), (seq![114u8, 101u8, 100u8, 117u8, 99u8, 101u8], 2u8, 3u8, 1u8), (seq![114u8, 101u8, 103u8, 95u8, 101u8, 120u8, 101u8, 99u8, 117u8, 116u8, 105u8, 110u8, 103u8], 0u8, 0u8, 0u8), (seq![114u8, 101u8, 103u8, 95u8, 114u8, 101u8, 99u8, 111u8, 114u8, 100u8, 101u8, 100u8], 0u8, 0u8, 0u8), (seq![114u8, 101u8, 103u8, 95u8, 114u8, 101u8, 99u8, 111u8, 114u8, 100u8, 105u8, 110u8, 103u8], 0u8, 0u8, 0u8), (seq![114u8, 101u8, 108u8, 116u8, 105u8, 109u8, 101u8], 0u8, 2u8, 1u8), (seq![114u8, 101u8, 108u8, 116u8, 105u8, 109u8, 101u8, 102u8, 108u8, 111u8, 97u8, 116u8], 1u8, 1u8, 1u8), (seq![114u8, 101u8, 108u8, 116u8, 105u8, 109u8, 101u8, 115u8, 116u8, 114u8], 1u8, 1u8, 1u8), (seq![114u8, 101u8, 109u8, 111u8, 118u8, 101u8], 2u8, 3u8, 1u8), (seq![114u8, 101u8, 112u8, 101u8, 97u8, 116u8], 2u8, 2u8, 1u8)]
}

fn push_builtins_24(t: &mut Vec<BuiltinArgc>)
    ensures argc_view(final(t)@) =~= argc_view(old(t)@) + builtins_24(),
{
    let ghost start = argc_view(t@);
    let n0: Vec<u8> = vec![114u8, 97u8, 110u8, 103u8, 101u8];
    assert(n0@ =~= seq![114u8, 97u8, 110u8, 103u8, 101u8]);
    t.push(BuiltinArgc { name: n0, min_argc: 1, max_argc: 3, base_arg: 1 });
    let n1: Vec<u8> = vec![114u8, 101u8, 100u8, 117u8, 99u8, 101u8];
    assert(n1@ =~= seq![114u8, 101u8, 100u8, 117u8, 99u8, 101u8]);
    t.push(BuiltinArgc { name: n1, min_argc: 2, max_argc: 3, base_arg: 1 });
    let n2: Vec<u8> = vec![114u8, 101u8, 103u8, 95u8, 101u8, 120u8, 101u8, 99u8, 117u8, 116u8, 105u8, 110u8, 103u8];
    assert(n2@ =~= seq![114u8, 101u8, 103u8, 95u8, 101u8, 120u8, 101u8, 99u8, 117u8, 116u8, 105u8, 110u8, 103u8]);
    t.push(BuiltinArgc { name: n2, min_argc: 0, max_argc: 0, base_arg: 0 });
    let n3: Vec<u8> = vec![114u8, 101u8, 103u8, 95u8, 114u8, 101u8, 99u8, 111u8, 114u8, 100u8, 101u8, 100u8];
    assert(n3@ =~= seq![114u8, 101u8, 103u8, 95u8, 114u8, 101u8, 99u8, 111u8, 114u8, 100u8, 101u8, 100u8]);
    t.push(BuiltinArgc { name: n3, min_argc: 0, max_argc: 0, base_arg: 0 });
    let n4: Vec<u8> = vec![114u8, 101u8, 103u8, 95u8, 114u8, 101u8, 99u8, 111u8, 114u8, 100u8, 105u8, 110u8, 103u8];
    assert(n4@ =~= seq![114u8, 101u8, 103u8, 95u8, 114u8, 101u8, 99u8, 111u8, 114u8, 100u8, 105u8, 110u8, 103u8]);
    t.push(BuiltinArgc { name: n4, min_argc: 0, max_argc: 0, base_arg: 0 });
    let n5: Vec<u8> = vec![114u8, 101u8, 108u8, 116u8, 105u8, 109u8, 101u8];
    assert(n5@ =~= seq![114u8, 101u8, 108u8, 116u8, 105u8, 109u8, 101u8]);
    t.push(BuiltinArgc { name: n5, min_argc: 0, max_argc: 2, base_arg: 1 });
    let n6: Vec<u8> = vec![114u8, 101u8, 108u8, 116u8, 105u8, 109u8, 101u8, 102u8, 108u8, 111u8, 97u8, 116u8];
    assert(n6@ =~= seq![114u8, 101u8, 108u8, 116u8, 105u8, 109u8, 101u8, 102u8, 108u8, 111u8, 97u8, 116u8]);
    t.push(BuiltinArgc { name: n6, min_argc: 1, max_argc: 1, base_arg: 1 });
    let n7: Vec<u8> = vec![114u8, 101u8, 108u8, 116u8, 105u8, 109u8, 101u8, 115u8, 116u8, 114u8];
    assert(n7@ =~= seq![114u8, 101u8, 108u8, 116u8, 105u8, 109u8, 101u8, 115u8, 116u8, 114u8]);
    t.push(BuiltinArgc { name: n7, min_argc: 1, max_argc: 1, base_arg: 1 });
    let n8: Vec<u8> = vec![114u8, 101u8, 109u8, 111u8, 118u8, 101u8];
    assert(n8@ =~= seq![114u8, 101u8, 109u8, 111u8, 118u8, 101u8]);
    t.push(BuiltinArgc { name: n8, min_argc: 2, max_argc: 3, base_arg: 1 });
    let n9: Vec<u8> = vec![114u8, 101u8, 112u8, 101u8, 97u8, 116u8];
    assert(n9@ =~= seq![114u8, 101u8, 112u8, 101u8, 97u8, 116u8]);
    t.push(BuiltinArgc { name: n9, min_argc: 2, max_argc: 2, base_arg: 1 });
    assert(argc_view(t@) =~= start + builtins_24());
}

/// Rows of the builtin table.
pub open spec fn builtins_25() -> Seq<(Seq<u8>, u8, u8, u8)> {
    seq![(seq![114u8, 101u8, 118u8, 101u8, 114u8, 115u8, 101u8], 1u8, 1u8, 1u8), (seq![114u8, 112u8, 99u8, 110u8, 111u8, 116u8, 105u8, 102u8, 121u8], 2u8, 255u8, 0u8), (seq![114u8, 112u8, 99u8, 114u8, 101u8, 113u8, 117u8, 101u8, 115u8, 116u8], 2u8, 255u8, 0u8), (seq![114u8, 112u8, 99u8, 115u8, 116u8, 97u8, 114u8, 116u8], 1u8, 2u8, 0u8), (seq![114u8, 112u8, 99u8, 115u8, 116u8, 111u8, 112u8], 1u8, 1u8, 0u8), (seq![114u8, 117u8, 98u8, 121u8, 101u8, 118u8, 97u8, 108u8], 1u8, 1u8, 1u8), (seq![115u8, 99u8, 114u8, 101u8, 101u8, 110u8, 97u8, 116u8, 116u8, 114u8], 2u8, 2u8, 1u8), (seq![115u8, 99u8, 114u8, 101u8, 101u8, 110u8, 99u8, 104u8, 97u8, 114u8], 2u8, 2u8, 1u8), (seq![115u8, 99u8, 114u8, 101u8, 101u8, 110u8, 99u8, 104u8, 97u8, 114u8, 115u8], 2u8, 2u8, 1u8), (seq![115u8, 99u8, 114u8, 101u8, 101u8, 110u8, 99u8, 111u8, 108u8], 0u8, 0u8, 0u8)]
}

fn push_builtins_25(t: &mut Vec<BuiltinArgc>)
    ensures argc_view(final(t)@) =~= argc_view(old(t)@) + builtins_25(),
{
    let ghost start = argc_view(t@);
    let n0: Vec<u8> = vec![114u8, 101u8, 118u8, 101u8, 114u8, 115u8, 101u8];
    assert(n0@ =~= seq![114u8, 101u8, 118u8, 101u8, 114u8, 115u8, 101u8]);
    t.push(BuiltinArgc { name: n0, min_argc: 1, max_argc: 1, base_arg: 1 });
    let n1: Vec<u8> = vec![114u8, 112u8, 99u8, 110u8, 111u8, 116u8, 105u8, 102u8, 121u8];
    assert(n1@ =~= seq![114u8, 112u8, 99u8, 110u8, 111u8, 116u8, 105u8, 102u8, 121u8]);
    t.push(BuiltinArgc { name: n1, min_argc: 2, max_argc: 255, base_arg: 0 });
    let n2: Vec<u8> = vec![114u8, 112u8, 99u8, 114u8, 101u8, 113u8, 117u8, 101u8, 115u8, 116u8];
    assert(n2@ =~= seq![114u8, 112u8, 99u8, 114u8, 101u8, 113u8, 117u8, 101u8, 115u8, 116u8]);
    t.push(BuiltinArgc { name: n2, min_argc: 2, max_argc: 255, base_arg: 0 });
    let n3: Vec<u8> = vec![114u8, 112u8, 99u8, 115u8, 116u8, 97u8, 114u8, 116u8];
    assert(n3@ =~= seq![114u8, 112u8, 99u8, 115u8, 116u8, 97u8, 114u8, 116u8]);
    t.push(BuiltinArgc { name: n3, min_argc: 1, max_argc: 2, base_arg: 0 });
    let n4: Vec<u8> = vec![114u8, 112u8, 99u8, 115u8, 116u8, 111u8, 112u8];
    assert(n4@ =~= seq![114u8, 112u8, 99u8, 115u8, 116u8, 111u8, 112u8]);
    t.push(BuiltinArgc { name: n4, min_argc: 1, max_argc: 1, base_arg: 0 });
    let n5: Vec<u8> = vec![114u8, 117u8, 98u8, 121u8, 101u8, 118u8, 97u8, 108u8];
    assert(n5@ =~= seq![114u8, 117u8, 98u8, 121u8, 101u8, 118u8, 97u8, 108u8]);
    t.push(BuiltinArgc { name: n5, min_argc: 1, max_argc: 1, base_arg: 1 });
    let n6: Vec<u8> = vec![115u8, 99u8, 114u8, 101u8, 101u8, 110u8, 97u8, 116u8, 116u8, 114u8];
    assert(n6@ =~= seq![115u8, 99u8, 114u8, 101u8, 101u8, 110u8, 97u8, 116u8, 116u8, 114u8]);
    t.push(BuiltinArgc { name: n6, min_argc: 2, max_argc: 2, base_arg: 1 });
    let n7: Vec<u8> = vec![115u8, 99u8, 114u8, 101u8, 101u8, 110u8, 99u8, 104u8, 97u8, 114u8];
    assert(n7@ =~= seq![115u8, 99u8, 114u8, 101u8, 101u8, 110u8, 99u8, 104u8, 97u8, 114u8]);
    t.push(BuiltinArgc { name: n7, min_argc: 2, max_argc: 2, base_arg: 1 });
    let n8: Vec<u8> = vec![115u8, 99u8, 114u8, 101u8, 101u8, 110u8, 99u8, 104u8, 97u8, 114u8, 115u8];
    assert(n8@ =~= seq![115u8, 99u8, 114u8, 101u8, 101u8, 110u8, 99u8, 104u8, 97u8, 114u8, 115u8]);
    t.push(BuiltinArgc { name: n8, min_argc: 2, max_argc: 2, base_arg: 1 });
    let n9: Vec<u8> = vec![115u8, 99u8, 114u8, 101u8, 101u8, 110u8, 99u8, 111u8, 108u8];
    assert(n9@ =~= seq![115u8, 99u8, 114u8, 101u8, 101u8, 110u8, 99u8, 111u8, 108u8]);
    t.push(BuiltinArgc { name: n9, min_argc: 0, max_argc: 0, base_arg: 0 });
    assert(argc_view(t@) =~= start + builtins_25());
}

/// Rows of the builtin table.
pub open spec fn builtins_26() -> Seq<(Seq<u8>, u8, u8, u8)> {
    seq![(seq![115u8, 99u8, 114u8, 101u8, 101u8, 110u8, 112u8, 111u8, 115u8], 3u8, 3u8, 1u8), (seq![115u8, 99u8, 114u8, 101u8, 101u8, 110u8, 114u8, 111u8, 119u8], 0u8, 0u8, 0u8), (seq![115u8, 99u8, 114u8, 101u8, 101u8, 110u8, 115u8, 116u8, 114u8, 105u8, 110u8, 103u8], 2u8, 2u8, 1u8), (seq![115u8, 101u8, 97u8, 114u8, 99u8, 104u8], 1u8, 5u8, 1u8), (seq![115u8, 101u8, 97u8, 114u8, 99u8, 104u8, 99u8, 111u8, 117u8, 110u8, 116u8], 0u8, 1u8, 1u8), (seq![115u8, 101u8, 97u8, 114u8, 99u8, 104u8, 100u8, 101u8, 99u8, 108u8], 1u8, 3u8, 1u8), (seq![115u8, 101u8, 97u8, 114u8, 99u8, 104u8, 112u8, 97u8, 105u8, 114u8], 3u8, 7u8, 0u8), (seq![115u8, 101u8, 97u8, 114u8, 99u8, 104u8, 112u8, 97u8, 105u8, 114u8, 112u8, 111u8, 115u8], 3u8, 7u8, 0u8), (seq![115u8, 101u8, 97u8, 114u8, 99u8, 104u8, 112u8, 111u8, 115u8], 1u8, 5u8, 1u8), (seq![115u8, 101u8, 114u8, 118u8, 101u8, 114u8, 108u8, 105u8, 115u8, 116u8], 0u8, 1u8, 0u8)]
}

fn push_builtins_26(t: &mut Vec<BuiltinArgc>)
    ensures argc_view(final(t)@) =~= argc_view(old(t)@) + builtins_26(),
{
    let ghost start = argc_view(t@);
    let n0: Vec<u8> = vec![115u8, 99u8, 114u8, 101u8, 101u8, 110u8, 112u8, 111u8, 115u8];
    assert(n0@ =~= seq![115u8, 99u8, 114u8, 101u8, 101u8, 110u8, 112u8, 111u8, 115u8]);
    t.push(BuiltinArgc { name: n0, min_argc: 3, max_argc: 3, base_arg: 1 });
    let n1: Vec<u8> = vec![115u8, 99u8, 114u8, 101u8, 101u8, 110u8, 114u8, 111u8, 119u8];
    assert(n1@ =~= seq![115u8, 99u8, 114u8, 101u8, 101u8, 110u8, 114u8, 111u8, 119u8]);
    t.push(BuiltinArgc { name: n1, min_argc: 0, max_argc: 0, base_arg: 0 });
    let n2: Vec<u8> = vec![115u8, 99u8, 114u8, 101u8, 101u8, 110u8, 115u8, 116u8, 114u8, 105u8, 110u8, 103u8];
    assert(n2@ =~= seq![115u8, 99u8, 114u8, 101u8, 101u8, 110u8, 115u8, 116u8, 114u8, 105u8, 110u8, 103u8]);
    t.push(BuiltinArgc { name: n2, min_argc: 2, max_argc: 2, base_arg: 1 });
    let n3: Vec<u8> = vec![115u8, 101u8, 97u8, 114u8, 99u8, 104u8];
    assert(n3@ =~= seq![115u8, 101u8, 97u8, 114u8, 99u8, 104u8]);
    t.push(BuiltinArgc { name: n3, min_argc: 1, max_argc: 5, base_arg: 1 });
    let n4: Vec<u8> = vec![115u8, 101u8, 97u8, 114u8, 99u8, 104u8, 99u8, 111u8, 117u8, 110u8, 116u8];
    assert(n4@ =~= seq![115u8, 101u8, 97u8, 114u8, 99u8, 104u8, 99u8, 111u8, 117u8, 110u8, 116u8]);
    t.push(BuiltinArgc { name: n4, min_argc: 0, max_argc: 1, base_arg: 1 });
    let n5: Vec<u8> = vec![115u8, 101u8, 97u8, 114u8, 99u8, 104u8, 100u8, 101u8, 99u8, 108u8];
    assert(n5@ =~= seq![115u8, 101u8, 97u8, 114u8, 99u8, 104u8, 100u8, 101u8, 99u8, 108u8]);
    t.push(BuiltinArgc { name: n5, min_argc: 1, max_argc: 3, base_arg: 1 });
    let n6: Vec<u8> = vec![115u8, 101u8, 97u8, 114u8, 99u8, 104u8, 112u8, 97u8, 105u8, 114u8];
    assert(n6@ =~= seq![115u8, 101u8, 97u8, 114u8, 99u8, 104u8, 112u8, 97u8, 105u8, 114u8]);
    t.push(BuiltinArgc { name: n6, min_argc: 3, max_argc: 7, base_arg: 0 });
    let n7: Vec<u8> = vec![115u8, 101u8, 97u8, 114u8, 99u8, 104u8, 112u8, 97u8, 105u8, 114u8, 112u8, 111u8, 115u8];
    assert(n7@ =~= seq![115u8, 101u8, 97u8, 114u8, 99u8, 104u8, 112u8, 97u8, 105u8, 114u8, 112u8, 111u8, 115u8]);
    t.push(BuiltinArgc { name: n7, min_argc: 3, max_argc: 7, base_arg: 0 });
    let n8: Vec<u8> = vec![115u8, 101u8, 97u8, 114u8, 99u8, 104u8, 112u8, 111u8, 115u8];
    assert(n8@ =~= seq![115u8, 101u8, 97u8, 114u8, 99u8, 104u8, 112u8, 111u8, 115u8]);
    t.push(BuiltinArgc { name: n8, min_argc: 1, max_argc: 5, base_arg: 1 });
    let n9: Vec<u8> = vec![115u8, 101u8, 114u8, 118u8, 101u8, 114u8, 108u8, 105u8, 115u8, 116u8];
    assert(n9@ =~= seq![115u8, 101u8, 114u8, 118u8, 101u8, 114u8, 108u8, 105u8, 115u8, 116u8]);
    t.push(BuiltinArgc { name: n9, min_argc: 0, max_argc: 1, base_arg: 0 });
    assert(argc_view(t@) =~= start + builtins_26());
}

/// Rows of the builtin table.
pub open spec fn builtins_27() -> Seq<(Seq<u8>, u8, u8, u8)> {
    seq![(seq![115u8, 101u8, 114u8, 118u8, 101u8, 114u8, 115u8, 116u8, 97u8, 114u8, 116u8], 0u8, 1u8, 0u8), (seq![115u8, 101u8, 114u8, 118u8, 101u8, 114u8, 115u8, 116u8, 111u8, 112u8], 1u8, 1u8, 0u8), (seq![115u8, 101u8, 116u8, 98u8, 117u8, 102u8, 108u8, 105u8, 110u8, 101u8], 3u8, 3u8, 3u8), (seq![115u8, 101u8, 116u8, 98u8, 117u8, 102u8, 118u8, 97u8, 114u8], 3u8, 3u8, 3u8), (seq![115u8, 101u8, 116u8, 99u8, 104u8, 97u8, 114u8, 112u8, 111u8, 115u8], 2u8, 2u8, 2u8), (seq![115u8, 101u8, 116u8, 99u8, 104u8, 97u8, 114u8, 115u8, 101u8, 97u8, 114u8, 99u8, 104u8], 1u8, 1u8, 1u8), (seq![115u8, 101u8, 116u8, 99u8, 109u8, 100u8, 108u8, 105u8, 110u8, 101u8], 1u8, 2u8, 1u8), (seq![115u8, 101u8, 116u8, 99u8, 109u8, 100u8, 112u8, 111u8, 115u8], 1u8, 1u8, 1u8), (seq![115u8, 101u8, 116u8, 99u8, 117u8, 114u8, 115u8, 111u8, 114u8, 99u8, 104u8, 97u8, 114u8, 112u8, 111u8, 115u8], 1u8, 3u8, 1u8), (seq![115u8, 101u8, 116u8, 101u8, 110u8, 118u8], 2u8, 2u8, 2u8)]
}

fn push_builtins_27(t: &mut Vec<BuiltinArgc>)
    ensures argc_view(final(t)@) =~= argc_view(old(t)@) + builtins_27(),
{
    let ghost start = argc_view(t@);
    let n0: Vec<u8> = vec![115u8, 101u8, 114u8, 118u8, 101u8, 114u8, 115u8, 116u8, 97u8, 114u8, 116u8];
    assert(n0@ =~= seq![115u8, 101u8, 114u8, 118u8, 101u8, 114u8, 115u8, 116u8, 97u8, 114u8, 116u8]);
    t.push(BuiltinArgc { name: n0, min_argc: 0, max_argc: 1, base_arg: 0 });
    let n1: Vec<u8> = vec![115u8, 101u8, 114u8, 118u8, 101u8, 114u8, 115u8, 116u8, 111u8, 112u8];
    assert(n1@ =~= seq![115u8, 101u8, 114u8, 118u8, 101u8, 114u8, 115u8, 116u8, 111u8, 112u8]);
    t.push(BuiltinArgc { name: n1, min_argc: 1, max_argc: 1, base_arg: 0 });
    let n2: Vec<u8> = vec![115u8, 101u8, 116u8, 98u8, 117u8, 102u8, 108u8, 105u8, 110u8, 101u8];
    assert(n2@ =~= seq![115u8, 101u8, 116u8, 98u8, 117u8, 102u8, 108u8, 105u8, 110u8, 101u8]);
    t.push(BuiltinArgc { name: n2, min_argc: 3, max_argc: 3, base_arg: 3 });
    let n3: Vec<u8> = vec![115u8, 101u8, 116u8, 98u8, 117u8, 102u8, 118u8, 97u8, 114u8];
    assert(n3@ =~= seq![115u8, 101u8, 116u8, 98u8, 117u8, 102u8, 118u8, 97u8, 114u8]);
    t.push(BuiltinArgc { name: n3, min_argc: 3, max_argc: 3, base_arg: 3 });
    let n4: Vec<u8> = vec![115u8, 101u8, 116u8, 99u8, 104u8, 97u8, 114u8, 112u8, 111u8, 115u8];
    assert(n4@ =~= seq![115u8, 101u8, 116u8, 99u8, 104u8, 97u8, 114u8, 112u8, 111u8, 115u8]);
    t.push(BuiltinArgc { name: n4, min_argc: 2, max_argc: 2, base_arg: 2 });
    let n5: Vec<u8> = vec![115u8, 101u8, 116u8, 99u8, 104u8, 97u8, 114u8, 115u8, 101u8, 97u8, 114u8, 99u8, 104u8];
    assert(n5@ =~= seq![115u8, 101u8, 116u8, 99u8, 104u8, 97u8, 114u8, 115u8, 101u8, 97u8, 114u8, 99u8, 104u8]);
    t.push(BuiltinArgc { name: n5, min_argc: 1, max_argc: 1, base_arg: 1 });
    let n6: Vec<u8> = vec![115u8, 101u8, 116u8, 99u8, 109u8, 100u8, 108u8, 105u8, 110u8, 101u8];
    assert(n6@ =~= seq![115u8, 101u8, 116u8, 99u8, 109u8, 100u8, 108u8, 105u8, 110u8, 101u8]);
    t.push(BuiltinArgc { name: n6, min_argc: 1, max_argc: 2, base_arg: 1 });
    let n7: Vec<u8> = vec![115u8, 101u8, 116u8, 99u8, 109u8, 100u8, 112u8, 111u8, 115u8];
    assert(n7@ =~= seq![115u8, 101u8, 116u8, 99u8, 109u8, 100u8, 112u8, 111u8, 115u8]);
    t.push(BuiltinArgc { name: n7, min_argc: 1, max_argc: 1, base_arg: 1 });
    let n8: Vec<u8> = vec![115u8, 101u8, 116u8, 99u8, 117u8, 114u8, 115u8, 111u8, 114u8, 99u8, 104u8, 97u8, 114u8, 112u8, 111u8, 115u8];
    assert(n8@ =~= seq![115u8, 101u8, 116u8, 99u8, 117u8, 114u8, 115u8, 111u8, 114u8, 99u8, 104u8, 97u8, 114u8, 112u8, 111u8, 115u8]);
    t.push(BuiltinArgc { name: n8, min_argc: 1, max_argc: 3, base_arg: 1 });
    let n9: Vec<u8> = vec![115u8, 101u8, 116u8, 101u8, 110u8, 118u8];
    assert(n9@ =~= seq![115u8, 101u8, 116u8, 101u8, 110u8, 118u8]);
    t.push(BuiltinArgc { name: n9, min_argc: 2, max_argc: 2, base_arg: 2 });
    assert(argc_view(t@) =~= start + builtins_27());
}

/// Rows of the builtin table.
pub open spec fn builtins_28() -> Seq<(Seq<u8>, u8, u8, u8)> {
    seq![(seq![115u8, 101u8, 116u8, 108u8, 105u8, 110u8, 101u8], 2u8, 2u8, 2u8), (seq![115u8, 101u8, 116u8, 108u8, 111u8, 99u8, 108u8, 105u8, 115u8, 116u8], 2u8, 4u8, 2u8), (seq![115u8, 101u8, 116u8, 109u8, 97u8, 116u8, 99u8, 104u8, 101u8, 115u8], 1u8, 2u8, 1u8), (seq![115u8, 101u8, 116u8, 112u8, 111u8, 115u8], 2u8, 2u8, 2u8), (seq![115u8, 101u8, 116u8, 113u8, 102u8, 108u8, 105u8, 115u8, 116u8], 1u8, 3u8, 1u8), (seq![115u8, 101u8, 116u8, 114u8, 101u8, 103u8], 2u8, 3u8, 2u8), (seq![115u8, 101u8, 116u8, 116u8, 97u8, 98u8, 118u8, 97u8, 114u8], 3u8, 3u8, 3u8), (seq![115u8, 101u8, 116u8, 116u8, 97u8, 98u8, 119u8, 105u8, 110u8, 118u8, 97u8, 114u8], 4u8, 4u8, 4u8), (seq![115u8, 101u8, 116u8, 116u8, 97u8, 103u8, 115u8, 116u8, 97u8, 99u8, 107u8], 2u8, 3u8, 2u8), (seq![115u8, 101u8, 116u8, 119u8, 105u8, 110u8, 118u8, 97u8, 114u8], 3u8, 3u8, 3u8)]
}

fn push_builtins_28(t: &mut Vec<BuiltinArgc>)
    ensures argc_view(final(t)@) =~= argc_view(old(t)@) + builtins_28(),
{
    let ghost start = argc_view(t@);
    let n0: Vec<u8> = vec![115u8, 101u8, 116u8, 108u8, 105u8, 110u8, 101u8];
    assert(n0@ =~= seq![115u8, 101u8, 116u8, 108u8, 105u8, 110u8, 101u8]);
    t.push(BuiltinArgc { name: n0, min_argc: 2, max_argc: 2, base_arg: 2 });
    let n1: Vec<u8> = vec![115u8, 101u8, 116u8, 108u8, 111u8, 99u8, 108u8, 105u8, 115u8, 116u8];
    assert(n1@ =~= seq![115u8, 101u8, 116u8, 108u8, 111u8, 99u8, 108u8, 105u8, 115u8, 116u8]);
    t.push(BuiltinArgc { name: n1, min_argc: 2, max_argc: 4, base_arg: 2 });
    let n2: Vec<u8> = vec![115u8, 101u8, 116u8, 109u8, 97u8, 116u8, 99u8, 104u8, 101u8, 115u8];
    assert(n2@ =~= seq![115u8, 101u8, 116u8, 109u8, 97u8, 116u8, 99u8, 104u8, 101u8, 115u8]);
    t.push(BuiltinArgc { name: n2, min_argc: 1, max_argc: 2, base_arg: 1 });
    let n3: Vec<u8> = vec![115u8, 101u8, 116u8, 112u8, 111u8, 115u8];
    assert(n3@ =~= seq![115u8, 101u8, 116u8, 112u8, 111u8, 115u8]);
    t.push(BuiltinArgc { name: n3, min_argc: 2, max_argc: 2, base_arg: 2 });
    let n4: Vec<u8> = vec![115u8, 101u8, 116u8, 113u8, 102u8, 108u8, 105u8, 115u8, 116u8];
    assert(n4@ =~= seq![115u8, 101u8, 116u8, 113u8, 102u8, 108u8, 105u8, 115u8, 116u8]);
    t.push(BuiltinArgc { name: n4, min_argc: 1, max_argc: 3, base_arg: 1 });
    let n5: Vec<u8> = vec![115u8, 101u8, 116u8, 114u8, 101u8, 103u8];
    assert(n5@ =~= seq![115u8, 101u8, 116u8, 114u8, 101u8, 103u8]);
    t.push(BuiltinArgc { name: n5, min_argc: 2, max_argc: 3, base_arg: 2 });
    let n6: Vec<u8> = vec![115u8, 101u8, 116u8, 116u8, 97u8, 98u8, 118u8, 97u8, 114u8];
    assert(n6@ =~= seq![115u8, 101u8, 116u8, 116u8, 97u8, 98u8, 118u8, 97u8, 114u8]);
    t.push(BuiltinArgc { name: n6, min_argc: 3, max_argc: 3, base_arg: 3 });
    let n7: Vec<u8> = vec![115u8, 101u8, 116u8, 116u8, 97u8, 98u8, 119u8, 105u8, 110u8, 118u8, 97u8, 114u8];
    assert(n7@ =~= seq![115u8, 101u8, 116u8, 116u8, 97u8, 98u8, 119u8, 105u8, 110u8, 118u8, 97u8, 114u8]);
    t.push(BuiltinArgc { name: n7, min_argc: 4, max_argc: 4, base_arg: 4 });
    let n8: Vec<u8> = vec![115u8, 101u8, 116u8, 116u8, 97u8, 103u8, 115u8, 116u8, 97u8, 99u8, 107u8];
    assert(n8@ =~= seq![115u8, 101u8, 116u8, 116u8, 97u8, 103u8, 115u8, 116u8, 97u8, 99u8, 107u8]);
    t.push(BuiltinArgc { name: n8, min_argc: 2, max_argc: 3, base_arg: 2 });
    let n9: Vec<u8> = vec![115u8, 101u8, 116u8, 119u8, 105u8, 110u8, 118u8, 97u8, 114u8];
    assert(n9@ =~= seq![115u8, 101u8, 116u8, 119u8, 105u8, 110u8, 118u8, 97u8, 114u8]);
    t.push(BuiltinArgc { name: n9, min_argc: 3, max_argc: 3, base_arg: 3 });
    assert(argc_view(t@) =~= start + builtins_28());
}

/// Rows of the builtin table.
pub open spec fn builtins_29() -> Seq<(Seq<u8>, u8, u8, u8)> {
    seq![(seq![115u8, 104u8, 97u8, 50u8, 53u8, 54u8], 1u8, 1u8, 1u8), (seq![115u8, 104u8, 101u8, 108u8, 108u8, 101u8, 115u8, 99u8, 97u8, 112u8, 101u8], 1u8, 2u8, 1u8), (seq![115u8, 104u8, 105u8, 102u8, 116u8, 119u8, 105u8, 100u8, 116u8, 104u8], 0u8, 1u8, 1u8), (seq![115u8, 105u8, 103u8, 110u8, 95u8, 100u8, 101u8, 102u8, 105u8, 110u8, 101u8], 1u8, 2u8, 1u8), (seq![115u8, 105u8, 103u8, 110u8, 95u8, 103u8, 101u8, 116u8, 100u8, 101u8, 102u8, 105u8, 110u8, 101u8, 100u8], 0u8, 1u8, 1u8), (seq![115u8, 105u8, 103u8, 110u8, 95u8, 103u8, 101u8, 116u8, 112u8, 108u8, 97u8, 99u8, 101u8, 100u8], 0u8, 2u8, 1u8), (seq![115u8, 105u8, 103u8, 110u8, 95u8, 106u8, 117u8, 109u8, 112u8], 3u8, 3u8, 1u8), (seq![115u8, 105u8, 103u8, 110u8, 95u8, 112u8, 108u8, 97u8, 99u8, 101u8], 4u8, 5u8, 1u8), (seq![115u8, 105u8, 103u8, 110u8, 95u8, 112u8, 108u8, 97u8, 99u8, 101u8, 108u8, 105u8, 115u8, 116u8], 1u8, 1u8, 1u8), (seq![115u8, 105u8, 103u8, 110u8, 95u8, 117u8, 110u8, 100u8, 101u8, 102u8, 105u8, 110u8, 101u8], 0u8, 1u8, 1u8)]
}

fn push_builtins_29(t: &mut Vec<BuiltinArgc>)
    ensures argc_view(final(t)@) =~= argc_view(old(t)@) + builtins_29(),
{
    let ghost start = argc_view(t@);
    let n0: Vec<u8> = vec![115u8, 104u8, 97u8, 50u8, 53u8, 54u8];
    assert(n0@ =~= seq![115u8, 104u8, 97u8, 50u8, 53u8, 54u8]);
    t.push(BuiltinArgc { name: n0, min_argc: 1, max_argc: 1, base_arg: 1 });
    let n1: Vec<u8> = vec![115u8, 104u8, 101u8, 108u8, 108u8, 101u8, 115u8, 99u8, 97u8, 112u8, 101u8];
    assert(n1@ =~= seq![115u8, 104u8, 101u8, 108u8, 108u8, 101u8, 115u8, 99u8, 97u8, 112u8, 101u8]);
    t.push(BuiltinArgc { name: n1, min_argc: 1, max_argc: 2, base_arg: 1 });
    let n2: Vec<u8> = vec![115u8, 104u8, 105u8, 102u8, 116u8, 119u8, 105u8, 100u8, 116u8, 104u8];
    assert(n2@ =~= seq![115u8, 104u8, 105u8, 102u8, 116u8, 119u8, 105u8, 100u8, 116u8, 104u8]);
    t.push(BuiltinArgc { name: n2, min_argc: 0, max_argc: 1, base_arg: 1 });
    let n3: Vec<u8> = vec![115u8, 105u8, 103u8, 110u8, 95u8, 100u8, 101u8, 102u8, 105u8, 110u8, 101u8];
    assert(n3@ =~= seq![115u8, 105u8, 103u8, 110u8, 95u8, 100u8, 101u8, 102u8, 105u8, 110u8, 101u8]);
    t.push(BuiltinArgc { name: n3, min_argc: 1, max_argc: 2, base_arg: 1 });
    let n4: Vec<u8> = vec![115u8, 105u8, 103u8, 110u8, 95u8, 103u8, 101u8, 116u8, 100u8, 101u8, 102u8, 105u8, 110u8, 101u8, 100u8];
    assert(n4@ =~= seq![115u8, 105u8, 103u8, 110u8, 95u8, 103u8, 101u8, 116u8, 100u8, 101u8, 102u8, 105u8, 110u8, 101u8, 100u8]);
    t.push(BuiltinArgc { name: n4, min_argc: 0, max_argc: 1, base_arg: 1 });
    let n5: Vec<u8> = vec![115u8, 105u8, 103u8, 110u8, 95u8, 103u8, 101u8, 116u8, 112u8, 108u8, 97u8, 99u8, 101u8, 100u8];
    assert(n5@ =~= seq![115u8, 105u8, 103u8, 110u8, 95u8, 103u8, 101u8, 116u8, 112u8, 108u8, 97u8, 99u8, 101u8, 100u8]);
    t.push(BuiltinArgc { name: n5, min_argc: 0, max_argc: 2, base_arg: 1 });
    let n6: Vec<u8> = vec![115u8, 105u8, 103u8, 110u8, 95u8, 106u8, 117u8, 109u8, 112u8];
    assert(n6@ =~= seq![115u8, 105u8, 103u8, 110u8, 95u8, 106u8, 117u8, 109u8, 112u8]);
    t.push(BuiltinArgc { name: n6, min_argc: 3, max_argc: 3, base_arg: 1 });
    let n7: Vec<u8> = vec![115u8, 105u8, 103u8, 110u8, 95u8, 112u8, 108u8, 97u8, 99u8, 101u8];
    assert(n7@ =~= seq![115u8, 105u8, 103u8, 110u8, 95u8, 112u8, 108u8, 97u8, 99u8, 101u8]);
    t.push(BuiltinArgc { name: n7, min_argc: 4, max_argc: 5, base_arg: 1 });
    let n8: Vec<u8> = vec![115u8, 105u8, 103u8, 110u8, 95u8, 112u8, 108u8, 97u8, 99u8, 101u8, 108u8, 105u8, 115u8, 116u8];
    assert(n8@ =~= seq![115u8, 105u8, 103u8, 110u8, 95u8, 112u8, 108u8, 97u8, 99u8, 101u8, 108u8, 105u8, 115u8, 116u8]);
    t.push(BuiltinArgc { name: n8, min_argc: 1, max_argc: 1, base_arg: 1 });
    let n9: Vec<u8> = vec![115u8, 105u8, 103u8, 110u8, 95u8, 117u8, 110u8, 100u8, 101u8, 102u8, 105u8, 110u8, 101u8];
    assert(n9@ =~= seq![115u8, 105u8, 103u8, 110u8, 95u8, 117u8, 110u8, 100u8, 101u8, 102u8, 105u8, 110u8, 101u8]);
    t.push(BuiltinArgc { name: n9, min_argc: 0, max_argc: 1, base_arg: 1 });
    assert(argc_view(t@) =~= start + builtins_29());
}

/// Rows of the builtin table.
pub open spec fn builtins_30() -> Seq<(Seq<u8>, u8, u8, u8)> {
    seq![(seq![115u8, 105u8, 103u8, 110u8, 95u8, 117u8, 110u8, 112u8, 108u8, 97u8, 99u8, 101u8], 1u8, 2u8, 1u8), (seq![115u8, 105u8, 103u8, 110u8, 95u8, 117u8, 110u8, 112u8, 108u8, 97u8, 99u8, 101u8, 108u8, 105u8, 115u8, 116u8], 1u8, 2u8, 1u8), (seq![115u8, 111u8, 99u8, 107u8, 99u8, 111u8, 110u8, 110u8, 101u8, 99u8, 116u8], 2u8, 3u8, 0u8), (seq![115u8, 111u8, 114u8, 116u8], 1u8, 3u8, 1u8), (seq![115u8, 111u8, 117u8, 110u8, 100u8, 102u8, 111u8, 108u8, 100u8], 1u8, 1u8, 1u8), (seq![115u8, 112u8, 101u8, 108u8, 108u8, 98u8, 97u8, 100u8, 119u8, 111u8, 114u8, 100u8], 0u8, 1u8, 1u8), (seq![115u8, 112u8, 101u8, 108u8, 108u8, 115u8, 117u8, 103u8, 103u8, 101u8, 115u8, 116u8], 1u8, 3u8, 1u8), (seq![115u8, 112u8, 108u8, 105u8, 116u8], 1u8, 3u8, 1u8), (seq![115u8, 114u8, 97u8, 110u8, 100u8], 0u8, 1u8, 1u8), (seq![115u8, 116u8, 97u8, 116u8, 101u8], 0u8, 1u8, 1u8)]
}

fn push_builtins_30(t: &mut Vec<BuiltinArgc>)
    ensures argc_view(final(t)@) =~= argc_view(old(t)@) + builtins_30(),
{
    let ghost start = argc_view(t@);
    let n0: Vec<u8> = vec![115u8, 105u8, 103u8, 110u8, 95u8, 117u8, 110u8, 112u8, 108u8, 97u8, 99u8, 101u8];
    assert(n0@ =~= seq![115u8, 105u8, 103u8, 110u8, 95u8, 117u8, 110u8, 112u8, 108u8, 97u8, 99u8, 101u8]);
    t.push(BuiltinArgc { name: n0, min_argc: 1, max_argc: 2, base_arg: 1 });
    let n1: Vec<u8> = vec![115u8, 105u8, 103u8, 110u8, 95u8, 117u8, 110u8, 112u8, 108u8, 97u8, 99u8, 101u8, 108u8, 105u8, 115u8, 116u8];
    assert(n1@ =~= seq![115u8, 105u8, 103u8, 110u8, 95u8, 117u8, 110u8, 112u8, 108u8, 97u8, 99u8, 101u8, 108u8, 105u8, 115u8, 116u8]);
    t.push(BuiltinArgc { name: n1, min_argc: 1, max_argc: 2, base_arg: 1 });
    let n2: Vec<u8> = vec![115u8, 111u8, 99u8, 107u8, 99u8, 111u8, 110u8, 110u8, 101u8, 99u8, 116u8];
    assert(n2@ =~= seq![115u8, 111u8, 99u8, 107u8, 99u8, 111u8, 110u8, 110u8, 101u8, 99u8, 116u8]);
    t.push(BuiltinArgc { name: n2, min_argc: 2, max_argc: 3, base_arg: 0 });
    let n3: Vec<u8> = vec![115u8, 111u8, 114u8, 116u8];
    assert(n3@ =~= seq![115u8, 111u8, 114u8, 116u8]);
    t.push(BuiltinArgc { name: n3, min_argc: 1, max_argc: 3, base_arg: 1 });
    let n4: Vec<u8> = vec![115u8, 111u8, 117u8, 110u8, 100u8, 102u8, 111u8, 108u8, 100u8];
    assert(n4@ =~= seq![115u8, 111u8, 117u8, 110u8, 100u8, 102u8, 111u8, 108u8, 100u8]);
    t.push(BuiltinArgc { name: n4, min_argc: 1, max_argc: 1, base_arg: 1 });
    let n5: Vec<u8> = vec![115u8, 112u8, 101u8, 108u8, 108u8, 98u8, 97u8, 100u8, 119u8, 111u8, 114u8, 100u8];
    assert(n5@ =~= seq![115u8, 112u8, 101u8, 108u8, 108u8, 98u8, 97u8, 100u8, 119u8, 111u8, 114u8, 100u8]);
    t.push(BuiltinArgc { name: n5, min_argc: 0, max_argc: 1, base_arg: 1 });
    let n6: Vec<u8> = vec![115u8, 112u8, 101u8, 108u8, 108u8, 115u8, 117u8, 103u8, 103u8, 101u8, 115u8, 116u8];
    assert(n6@ =~= seq![115u8, 112u8, 101u8, 108u8, 108u8, 115u8, 117u8, 103u8, 103u8, 101u8, 115u8, 116u8]);
    t.push(BuiltinArgc { name: n6, min_argc: 1, max_argc: 3, base_arg: 1 });
    let n7: Vec<u8> = vec![115u8, 112u8, 108u8, 105u8, 116u8];
    assert(n7@ =~= seq![115u8, 112u8, 108u8, 105u8, 116u8]);
    t.push(BuiltinArgc { name: n7, min_argc: 1, max_argc: 3, base_arg: 1 });
    let n8: Vec<u8> = vec![115u8, 114u8, 97u8, 110u8, 100u8];
    assert(n8@ =~= seq![115u8, 114u8, 97u8, 110u8, 100u8]);
    t.push(BuiltinArgc { name: n8, min_argc: 0, max_argc: 1, base_arg: 1 });
    let n9: Vec<u8> = vec![115u8, 116u8, 97u8, 116u8, 101u8];
    assert(n9@ =~= seq![115u8, 116u8, 97u8, 116u8, 101u8]);
    t.push(BuiltinArgc { name: n9, min_argc: 0, max_argc: 1, base_arg: 1 });
    assert(argc_view(t@) =~= start + builtins_30());
}

/// Rows of the builtin table.
pub open spec fn builtins_31() -> Seq<(Seq<u8>, u8, u8, u8)> {
    seq![(seq![115u8, 116u8, 100u8, 105u8, 111u8, 111u8, 112u8, 101u8, 110u8], 1u8, 1u8, 0u8), (seq![115u8, 116u8, 100u8, 112u8, 97u8, 116u8, 104u8], 1u8, 1u8, 0u8), (seq![115u8, 116u8, 114u8, 50u8, 102u8, 108u8, 111u8, 97u8, 116u8], 1u8, 1u8, 1u8), (seq![115u8, 116u8, 114u8, 102u8, 116u8, 105u8, 109u8, 101u8], 1u8, 2u8, 1u8), (seq![115u8, 116u8, 114u8, 112u8, 116u8, 105u8, 109u8, 101u8], 2u8, 2u8, 1u8), (seq![115u8, 117u8, 98u8, 109u8, 97u8, 116u8, 99u8, 104u8], 1u8, 2u8, 1u8), (seq![115u8, 117u8, 98u8, 115u8, 116u8, 105u8, 116u8, 117u8, 116u8, 101u8], 4u8, 4u8, 1u8), (seq![115u8, 119u8, 97u8, 112u8, 102u8, 105u8, 108u8, 101u8, 108u8, 105u8, 115u8, 116u8], 0u8, 0u8, 0u8), (seq![115u8, 119u8, 97u8, 112u8, 105u8, 110u8, 102u8, 111u8], 1u8, 1u8, 1u8), (seq![115u8, 119u8, 97u8, 112u8, 110u8, 97u8, 109u8, 101u8], 1u8, 1u8, 1u8)]
}

fn push_builtins_31(t: &mut Vec<BuiltinArgc>)
    ensures argc_view(final(t)@) =~= argc_view(old(t)@) + builtins_31(),
{
    let ghost start = argc_view(t@);
    let n0: Vec<u8> = vec![115u8, 116u8, 100u8, 105u8, 111u8, 111u8, 112u8, 101u8, 110u8];
    assert(n0@ =~= seq![115u8, 116u8, 100u8, 105u8, 111u8, 111u8, 112u8, 101u8, 110u8]);
    t.push(BuiltinArgc { name: n0, min_argc: 1, max_argc: 1, base_arg: 0 });
    let n1: Vec<u8> = vec![115u8, 116u8, 100u8, 112u8, 97u8, 116u8, 104u8];
    assert(n1@ =~= seq![115u8, 116u8, 100u8, 112u8, 97u8, 116u8, 104u8]);
    t.push(BuiltinArgc { name: n1, min_argc: 1, max_argc: 1, base_arg: 0 });
    let n2: Vec<u8> = vec![115u8, 116u8, 114u8, 50u8, 102u8, 108u8, 111u8, 97u8, 116u8];
    assert(n2@ =~= seq![115u8, 116u8, 114u8, 50u8, 102u8, 108u8, 111u8, 97u8, 116u8]);
    t.push(BuiltinArgc { name: n2, min_argc: 1, max_argc: 1, base_arg: 1 });
    let n3: Vec<u8> = vec![115u8, 116u8, 114u8, 102u8, 116u8, 105u8, 109u8, 101u8];
    assert(n3@ =~= seq![115u8, 116u8, 114u8, 102u8, 116u8, 105u8, 109u8, 101u8]);
    t.push(BuiltinArgc { name: n3, min_argc: 1, max_argc: 2, base_arg: 1 });
    let n4: Vec<u8> = vec![115u8, 116u8, 114u8, 112u8, 116u8, 105u8, 109u8, 101u8];
    assert(n4@ =~= seq![115u8, 116u8, 114u8, 112u8, 116u8, 105u8, 109u8, 101u8]);
    t.push(BuiltinArgc { name: n4, min_argc: 2, max_argc: 2, base_arg: 1 });
    let n5: Vec<u8> = vec![115u8, 117u8, 98u8, 109u8, 97u8, 116u8, 99u8, 104u8];
    assert(n5@ =~= seq![115u8, 117u8, 98u8, 109u8, 97u8, 116u8, 99u8, 104u8]);
    t.push(BuiltinArgc { name: n5, min_argc: 1, max_argc: 2, base_arg: 1 });
    let n6: Vec<u8> = vec![115u8, 117u8, 98u8, 115u8, 116u8, 105u8, 116u8, 117u8, 116u8, 101u8];
    assert(n6@ =~= seq![115u8, 117u8, 98u8, 115u8, 116u8, 105u8, 116u8, 117u8, 116u8, 101u8]);
    t.push(BuiltinArgc { name: n6, min_argc: 4, max_argc: 4, base_arg: 1 });
    let n7: Vec<u8> = vec![115u8, 119u8, 97u8, 112u8, 102u8, 105u8, 108u8, 101u8, 108u8, 105u8, 115u8, 116u8];
    assert(n7@ =~= seq![115u8, 119u8, 97u8, 112u8, 102u8, 105u8, 108u8, 101u8, 108u8, 105u8, 115u8, 116u8]);
    t.push(BuiltinArgc { name: n7, min_argc: 0, max_argc: 0, base_arg: 0 });
    let n8: Vec<u8> = vec![115u8, 119u8, 97u8, 112u8, 105u8, 110u8, 102u8, 111u8];
    assert(n8@ =~= seq![115u8, 119u8, 97u8, 112u8, 105u8, 110u8, 102u8, 111u8]);
    t.push(BuiltinArgc { name: n8, min_argc: 1, max_argc: 1, base_arg: 1 });
    let n9: Vec<u8> = vec![115u8, 119u8, 97u8, 112u8, 110u8, 97u8, 109u8, 101u8];
    assert(n9@ =~= seq![115u8, 119u8, 97u8, 112u8, 110u8, 97u8, 109u8, 101u8]);
    t.push(BuiltinArgc { name: n9, min_argc: 1, max_argc: 1, base_arg: 1 });
    assert(argc_view(t@) =~= start + builtins_31());
}

/// Rows of the builtin table.
pub open spec fn builtins_32() -> Seq<(Seq<u8>, u8, u8, u8)> {
    seq![(seq![115u8, 121u8, 110u8, 73u8, 68u8], 3u8, 3u8, 0u8), (seq![115u8, 121u8, 110u8, 73u8, 68u8, 97u8, 116u8, 116u8, 114u8], 2u8, 3u8, 1u8), (seq![115u8, 121u8, 110u8, 73u8, 68u8, 116u8, 114u8, 97u8, 110u8, 115u8], 1u8, 1u8, 1u8), (seq![115u8, 121u8, 110u8, 99u8, 111u8, 110u8, 99u8, 101u8, 97u8, 108u8, 101u8, 100u8], 2u8, 2u8, 0u8), (seq![115u8, 121u8, 110u8, 115u8, 116u8, 97u8, 99u8, 107u8], 2u8, 2u8, 0u8), (seq![115u8, 121u8, 115u8, 116u8, 101u8, 109u8], 1u8, 2u8, 1u8), (seq![115u8, 121u8, 115u8, 116u8, 101u8, 109u8, 108u8, 105u8, 115u8, 116u8], 1u8, 3u8, 1u8), (seq![116u8, 97u8, 98u8, 112u8, 97u8, 103u8, 101u8, 98u8, 117u8, 102u8, 108u8, 105u8, 115u8, 116u8], 0u8, 1u8, 1u8), (seq![116u8, 97u8, 98u8, 112u8, 97u8, 103u8, 101u8, 110u8, 114u8], 0u8, 1u8, 0u8), (seq![116u8, 97u8, 98u8, 112u8, 97u8, 103u8, 101u8, 119u8, 105u8, 110u8, 110u8, 114u8], 1u8, 2u8, 1u8)]
}

fn push_builtins_32(t: &mut Vec<BuiltinArgc>)
    ensures argc_view(final(t)@) =~= argc_view(old(t)@) + builtins_32(),
{
    let ghost start = argc_view(t@);
    let n0: Vec<u8> = vec![115u8, 121u8, 110u8, 73u8, 68u8];
    assert(n0@ =~= seq![115u8, 121u8, 110u8, 73u8, 68u8]);
    t.push(BuiltinArgc { name: n0, min_argc: 3, max_argc: 3, base_arg: 0 });
    let n1: Vec<u8> = vec![115u8, 121u8, 110u8, 73u8, 68u8, 97u8, 116u8, 116u8, 114u8];
    assert(n1@ =~= seq![115u8, 121u8, 110u8, 73u8, 68u8, 97u8, 116u8, 116u8, 114u8]);
    t.push(BuiltinArgc { name: n1, min_argc: 2, max_argc: 3, base_arg: 1 });
    let n2: Vec<u8> = vec![115u8, 121u8, 110u8, 73u8, 68u8, 116u8, 114u8, 97u8, 110u8, 115u8];
    assert(n2@ =~= seq![115u8, 121u8, 110u8, 73u8, 68u8, 116u8, 114u8, 97u8, 110u8, 115u8]);
    t.push(BuiltinArgc { name: n2, min_argc: 1, max_argc: 1, base_arg: 1 });
    let n3: Vec<u8> = vec![115u8, 121u8, 110u8, 99u8, 111u8, 110u8, 99u8, 101u8, 97u8, 108u8, 101u8, 100u8];
    assert(n3@ =~= seq![115u8, 121u8, 110u8, 99u8, 111u8, 110u8, 99u8, 101u8, 97u8, 108u8, 101u8, 100u8]);
    t.push(BuiltinArgc { name: n3, min_argc: 2, max_argc: 2, base_arg: 0 });
    let n4: Vec<u8> = vec![115u8, 121u8, 110u8, 115u8, 116u8, 97u8, 99u8, 107u8];
    assert(n4@ =~= seq![115u8, 121u8, 110u8, 115u8, 116u8, 97u8, 99u8, 107u8]);
    t.push(BuiltinArgc { name: n4, min_argc: 2, max_argc: 2, base_arg: 0 });
    let n5: Vec<u8> = vec![115u8, 121u8, 115u8, 116u8, 101u8, 109u8];
    assert(n5@ =~= seq![115u8, 121u8, 115u8, 116u8, 101u8, 109u8]);
    t.push(BuiltinArgc { name: n5, min_argc: 1, max_argc: 2, base_arg: 1 });
    let n6: Vec<u8> = vec![115u8, 121u8, 115u8, 116u8, 101u8, 109u8, 108u8, 105u8, 115u8, 116u8];
    assert(n6@ =~= seq![115u8, 121u8, 115u8, 116u8, 101u8, 109u8, 108u8, 105u8, 115u8, 116u8]);
    t.push(BuiltinArgc { name: n6, min_argc: 1, max_argc: 3, base_arg: 1 });
    let n7: Vec<u8> = vec![116u8, 97u8, 98u8, 112u8, 97u8, 103u8, 101u8, 98u8, 117u8, 102u8, 108u8, 105u8, 115u8, 116u8];
    assert(n7@ =~= seq![116u8, 97u8, 98u8, 112u8, 97u8, 103u8, 101u8, 98u8, 117u8, 102u8, 108u8, 105u8, 115u8, 116u8]);
    t.push(BuiltinArgc { name: n7, min_argc: 0, max_argc: 1, base_arg: 1 });
    let n8: Vec<u8> = vec![116u8, 97u8, 98u8, 112u8, 97u8, 103u8, 101u8, 110u8, 114u8];
    assert(n8@ =~= seq![116u8, 97u8, 98u8, 112u8, 97u8, 103u8, 101u8, 110u8, 114u8]);
    t.push(BuiltinArgc { name: n8, min_argc: 0, max_argc: 1, base_arg: 0 });
    let n9: Vec<u8> = vec![116u8, 97u8, 98u8, 112u8, 97u8, 103u8, 101u8, 119u8, 105u8, 110u8, 110u8, 114u8];
    assert(n9@ =~= seq![116u8, 97u8, 98u8, 112u8, 97u8, 103u8, 101u8, 119u8, 105u8, 110u8, 110u8, 114u8]);
    t.push(BuiltinArgc { name: n9, min_argc: 1, max_argc: 2, base_arg: 1 });
    assert(argc_view(t@) =~= start + builtins_32());
}

/// Rows of the builtin table.
pub open spec fn builtins_33() -> Seq<(Seq<u8>, u8, u8, u8)> {
    seq![(seq![116u8, 97u8, 103u8, 102u8, 105u8, 108u8, 101u8, 115u8], 0u8, 0u8, 0u8), (seq![116u8, 97u8, 103u8, 108u8, 105u8, 115u8, 116u8], 1u8, 2u8, 1u8), (seq![116u8, 101u8, 114u8, 109u8, 111u8, 112u8, 101u8, 110u8], 1u8, 2u8, 0u8), (seq![116u8, 101u8, 115u8, 116u8, 95u8, 103u8, 97u8, 114u8, 98u8, 97u8, 103u8, 101u8, 99u8, 111u8, 108u8, 108u8, 101u8, 99u8, 116u8, 95u8, 110u8, 111u8, 119u8], 0u8, 0u8, 0u8), (seq![116u8, 101u8, 115u8, 116u8, 95u8, 119u8, 114u8, 105u8, 116u8, 101u8, 95u8, 108u8, 105u8, 115u8, 116u8, 95u8, 108u8, 111u8, 103u8], 1u8, 1u8, 0u8), (seq![116u8, 105u8, 109u8, 101u8, 114u8, 95u8, 105u8, 110u8, 102u8, 111u8], 0u8, 1u8, 1u8), (seq![116u8, 105u8, 109u8, 101u8, 114u8, 95u8, 112u8, 97u8, 117u8, 115u8, 101u8], 2u8, 2u8, 1u8), (seq![116u8, 105u8, 109u8, 101u8, 114u8, 95u8, 115u8, 116u8, 97u8, 114u8, 116u8], 2u8, 3u8, 1u8), (seq![116u8, 105u8, 109u8, 101u8, 114u8, 95u8, 115u8, 116u8, 111u8, 112u8], 1u8, 1u8, 1u8), (seq![116u8, 105u8, 109u8, 101u8, 114u8, 95u8, 115u8, 116u8, 111u8, 112u8, 97u8, 108u8, 108u8], 0u8, 0u8, 0u8)]
}

fn push_builtins_33(t: &mut Vec<BuiltinArgc>)
    ensures argc_view(final(t)@) =~= argc_view(old(t)@) + builtins_33(),
{
    let ghost start = argc_view(t@);
    let n0: Vec<u8> = vec![116u8, 97u8, 103u8, 102u8, 105u8, 108u8, 101u8, 115u8];
    assert(n0@ =~= seq![116u8, 97u8, 103u8, 102u8, 105u8, 108u8, 101u8, 115u8]);
    t.push(BuiltinArgc { name: n0, min_argc: 0, max_argc: 0, base_arg: 0 });
    let n1: Vec<u8> = vec![116u8, 97u8, 103u8, 108u8, 105u8, 115u8, 116u8];
    assert(n1@ =~= seq![116u8, 97u8, 103u8, 108u8, 105u8, 115u8, 116u8]);
    t.push(BuiltinArgc { name: n1, min_argc: 1, max_argc: 2, base_arg: 1 });
    let n2: Vec<u8> = vec![116u8, 101u8, 114u8, 109u8, 111u8, 112u8, 101u8, 110u8];
    assert(n2@ =~= seq![116u8, 101u8, 114u8, 109u8, 111u8, 112u8, 101u8, 110u8]);
    t.push(BuiltinArgc { name: n2, min_argc: 1, max_argc: 2, base_arg: 0 });
    let n3: Vec<u8> = vec![116u8, 101u8, 115u8, 116u8, 95u8, 103u8, 97u8, 114u8, 98u8, 97u8, 103u8, 101u8, 99u8, 111u8, 108u8, 108u8, 101u8, 99u8, 116u8, 95u8, 110u8, 111u8, 119u8];
    assert(n3@ =~= seq![116u8, 101u8, 115u8, 116u8, 95u8, 103u8, 97u8, 114u8, 98u8, 97u8, 103u8, 101u8, 99u8, 111u8, 108u8, 108u8, 101u8, 99u8, 116u8, 95u8, 110u8, 111u8, 119u8]);
    t.push(BuiltinArgc { name: n3, min_argc: 0, max_argc: 0, base_arg: 0 });
    let n4: Vec<u8> = vec![116u8, 101u8, 115u8, 116u8, 95u8, 119u8, 114u8, 105u8, 116u8, 101u8, 95u8, 108u8, 105u8, 115u8, 116u8, 95u8, 108u8, 111u8, 103u8];
    assert(n4@ =~= seq![116u8, 101u8, 115u8, 116u8, 95u8, 119u8, 114u8, 105u8, 116u8, 101u8, 95u8, 108u8, 105u8, 115u8, 116u8, 95u8, 108u8, 111u8, 103u8]);
    t.push(BuiltinArgc { name: n4, min_argc: 1, max_argc: 1, base_arg: 0 });
    let n5: Vec<u8> = vec![116u8, 105u8, 109u8, 101u8, 114u8, 95u8, 105u8, 110u8, 102u8, 111u8];
    assert(n5@ =~= seq![116u8, 105u8, 109u8, 101u8, 114u8, 95u8, 105u8, 110u8, 102u8, 111u8]);
    t.push(BuiltinArgc { name: n5, min_argc: 0, max_argc: 1, base_arg: 1 });
    let n6: Vec<u8> = vec![116u8, 105u8, 109u8, 101u8, 114u8, 95u8, 112u8, 97u8, 117u8, 115u8, 101u8];
    assert(n6@ =~= seq![116u8, 105u8, 109u8, 101u8, 114u8, 95u8, 112u8, 97u8, 117u8, 115u8, 101u8]);
    t.push(BuiltinArgc { name: n6, min_argc: 2, max_argc: 2, base_arg: 1 });
    let n7: Vec<u8> = vec![116u8, 105u8, 109u8, 101u8, 114u8, 95u8, 115u8, 116u8, 97u8, 114u8, 116u8];
    assert(n7@ =~= seq![116u8, 105u8, 109u8, 101u8, 114u8, 95u8, 115u8, 116u8, 97u8, 114u8, 116u8]);
    t.push(BuiltinArgc { name: n7, min_argc: 2, max_argc: 3, base_arg: 1 });
    let n8: Vec<u8> = vec![116u8, 105u8, 109u8, 101u8, 114u8, 95u8, 115u8, 116u8, 111u8, 112u8];
    assert(n8@ =~= seq![116u8, 105u8, 109u8, 101u8, 114u8, 95u8, 115u8, 116u8, 111u8, 112u8]);
    t.push(BuiltinArgc { name: n8, min_argc: 1, max_argc: 1, base_arg: 1 });
    let n9: Vec<u8> = vec![116u8, 105u8, 109u8, 101u8, 114u8, 95u8, 115u8, 116u8, 111u8, 112u8, 97u8, 108u8, 108u8];
    assert(n9@ =~= seq![116u8, 105u8, 109u8, 101u8, 114u8, 95u8, 115u8, 116u8, 111u8, 112u8, 97u8, 108u8, 108u8]);
    t.push(BuiltinArgc { name: n9, min_argc: 0, max_argc: 0, base_arg: 0 });
    assert(argc_view(t@) =~= start + builtins_33());
}

/// Rows of the builtin table.
pub open spec fn builtins_34() -> Seq<(Seq<u8>, u8, u8, u8)> {
    seq![(seq![116u8, 121u8, 112u8, 101u8], 1u8, 1u8, 1u8), (seq![117u8, 110u8, 100u8, 111u8, 102u8, 105u8, 108u8, 101u8], 1u8, 1u8, 1u8), (seq![117u8, 110u8, 100u8, 111u8, 116u8, 114u8, 101u8, 101u8], 0u8, 1u8, 1u8), (seq![117u8, 110u8, 105u8, 113u8], 1u8, 3u8, 1u8), (seq![118u8, 97u8, 108u8, 117u8, 101u8, 115u8], 1u8, 1u8, 1u8), (seq![118u8, 105u8, 114u8, 116u8, 99u8, 111u8, 108u8], 1u8, 3u8, 1u8), (seq![118u8, 105u8, 114u8, 116u8, 99u8, 111u8, 108u8, 50u8, 99u8, 111u8, 108u8], 3u8, 3u8, 1u8), (seq![118u8, 105u8, 115u8, 117u8, 97u8, 108u8, 109u8, 111u8, 100u8, 101u8], 0u8, 1u8, 0u8), (seq![119u8, 97u8, 105u8, 116u8], 2u8, 3u8, 0u8), (seq![119u8, 105u8, 108u8, 100u8, 109u8, 101u8, 110u8, 117u8, 109u8, 111u8, 100u8, 101u8], 0u8, 0u8, 0u8)]
}

fn push_builtins_34(t: &mut Vec<BuiltinArgc>)
    ensures argc_view(final(t)@) =~= argc_view(old(t)@) + builtins_34(),
{
    let ghost start = argc_view(t@);
    let n0: Vec<u8> = vec![116u8, 121u8, 112u8, 101u8];
    assert(n0@ =~= seq![116u8, 121u8, 112u8, 101u8]);
    t.push(BuiltinArgc { name: n0, min_argc: 1, max_argc: 1, base_arg: 1 });
    let n1: Vec<u8> = vec![117u8, 110u8, 100u8, 111u8, 102u8, 105u8, 108u8, 101u8];
    assert(n1@ =~= seq![117u8, 110u8, 100u8, 111u8, 102u8, 105u8, 108u8, 101u8]);
    t.push(BuiltinArgc { name: n1, min_argc: 1, max_argc: 1, base_arg: 1 });
    let n2: Vec<u8> = vec![117u8, 110u8, 100u8, 111u8, 116u8, 114u8, 101u8, 101u8];
    assert(n2@ =~= seq![117u8, 110u8, 100u8, 111u8, 116u8, 114u8, 101u8, 101u8]);
    t.push(BuiltinArgc { name: n2, min_argc: 0, max_argc: 1, base_arg: 1 });
    let n3: Vec<u8> = vec![117u8, 110u8, 105u8, 113u8];
    assert(n3@ =~= seq![117u8, 110u8, 105u8, 113u8]);
    t.push(BuiltinArgc { name: n3, min_argc: 1, max_argc: 3, base_arg: 1 });
    let n4: Vec<u8> = vec![118u8, 97u8, 108u8, 117u8, 101u8, 115u8];
    assert(n4@ =~= seq![118u8, 97u8, 108u8, 117u8, 101u8, 115u8]);
    t.push(BuiltinArgc { name: n4, min_argc: 1, max_argc: 1, base_arg: 1 });
    let n5: Vec<u8> = vec![118u8, 105u8, 114u8, 116u8, 99u8, 111u8, 108u8];
    assert(n5@ =~= seq![118u8, 105u8, 114u8, 116u8, 99u8, 111u8, 108u8]);
    t.push(BuiltinArgc { name: n5, min_argc: 1, max_argc: 3, base_arg: 1 });
    let n6: Vec<u8> = vec![118u8, 105u8, 114u8, 116u8, 99u8, 111u8, 108u8, 50u8, 99u8, 111u8, 108u8];
    assert(n6@ =~= seq![118u8, 105u8, 114u8, 116u8, 99u8, 111u8, 108u8, 50u8, 99u8, 111u8, 108u8]);
    t.push(BuiltinArgc { name: n6, min_argc: 3, max_argc: 3, base_arg: 1 });
    let n7: Vec<u8> = vec![118u8, 105u8, 115u8, 117u8, 97u8, 108u8, 109u8, 111u8, 100u8, 101u8];
    assert(n7@ =~= seq![118u8, 105u8, 115u8, 117u8, 97u8, 108u8, 109u8, 111u8, 100u8, 101u8]);
    t.push(BuiltinArgc { name: n7, min_argc: 0, max_argc: 1, base_arg: 0 });
    let n8: Vec<u8> = vec![119u8, 97u8, 105u8, 116u8];
    assert(n8@ =~= seq![119u8, 97u8, 105u8, 116u8]);
    t.push(BuiltinArgc { name: n8, min_argc: 2, max_argc: 3, base_arg: 0 });
    let n9: Vec<u8> = vec![119u8, 105u8, 108u8, 100u8, 109u8, 101u8, 110u8, 117u8, 109u8, 111u8, 100u8, 101u8];
    assert(n9@ =~= seq![119u8, 105u8, 108u8, 100u8, 109u8, 101u8, 110u8, 117u8, 109u8, 111u8, 100u8, 101u8]);
    t.push(BuiltinArgc { name: n9, min_argc: 0, max_argc: 0, base_arg: 0 });
    assert(argc_view(t@) =~= start + builtins_34());
}

/// Rows of the builtin table.
pub open spec fn builtins_35() -> Seq<(Seq<u8>, u8, u8, u8)> {
    seq![(seq![119u8, 105u8, 108u8, 100u8, 116u8, 114u8, 105u8, 103u8, 103u8, 101u8, 114u8], 0u8, 0u8, 0u8), (seq![119u8, 105u8, 110u8, 95u8, 101u8, 120u8, 101u8, 99u8, 117u8, 116u8, 101u8], 2u8, 3u8, 2u8), (seq![119u8, 105u8, 110u8, 95u8, 102u8, 105u8, 110u8, 100u8, 98u8, 117u8, 102u8], 1u8, 1u8, 1u8), (seq![119u8, 105u8, 110u8, 95u8, 103u8, 101u8, 116u8, 105u8, 100u8], 0u8, 2u8, 1u8), (seq![119u8, 105u8, 110u8, 95u8, 103u8, 101u8, 116u8, 116u8, 121u8, 112u8, 101u8], 0u8, 1u8, 1u8), (seq![119u8, 105u8, 110u8, 95u8, 103u8, 111u8, 116u8, 111u8, 105u8, 100u8], 1u8, 1u8, 1u8), (seq![119u8, 105u8, 110u8, 95u8, 105u8, 100u8, 50u8, 116u8, 97u8, 98u8, 119u8, 105u8, 110u8], 1u8, 1u8, 1u8), (seq![119u8, 105u8, 110u8, 95u8, 105u8, 100u8, 50u8, 119u8, 105u8, 110u8], 1u8, 1u8, 1u8), (seq![119u8, 105u8, 110u8, 95u8, 109u8, 111u8, 118u8, 101u8, 95u8, 115u8, 101u8, 112u8, 97u8, 114u8, 97u8, 116u8, 111u8, 114u8], 2u8, 2u8, 1u8), (seq![119u8, 105u8, 110u8, 95u8, 109u8, 111u8, 118u8, 101u8, 95u8, 115u8, 116u8, 97u8, 116u8, 117u8, 115u8, 108u8, 105u8, 110u8, 101u8], 2u8, 2u8, 1u8)]
}

fn push_builtins_35(t: &mut Vec<BuiltinArgc>)
    ensures argc_view(final(t)@) =~= argc_view(old(t)@) + builtins_35(),
{
    let ghost start = argc_view(t@);
    let n0: Vec<u8> = vec![119u8, 105u8, 108u8, 100u8, 116u8, 114u8, 105u8, 103u8, 103u8, 101u8, 114u8];
    assert(n0@ =~= seq![119u8, 105u8, 108u8, 100u8, 116u8, 114u8, 105u8, 103u8, 103u8, 101u8, 114u8]);
    t.push(BuiltinArgc { name: n0, min_argc: 0, max_argc: 0, base_arg: 0 });
    let n1: Vec<u8> = vec![119u8, 105u8, 110u8, 95u8, 101u8, 120u8, 101u8, 99u8, 117u8, 116u8, 101u8];
    assert(n1@ =~= seq![119u8, 105u8, 110u8, 95u8, 101u8, 120u8, 101u8, 99u8, 117u8, 116u8, 101u8]);
    t.push(BuiltinArgc { name: n1, min_argc: 2, max_argc: 3, base_arg: 2 });
    let n2: Vec<u8> = vec![119u8, 105u8, 110u8, 95u8, 102u8, 105u8, 110u8, 100u8, 98u8, 117u8, 102u8];
    assert(n2@ =~= seq![119u8, 105u8, 110u8, 95u8, 102u8, 105u8, 110u8, 100u8, 98u8, 117u8, 102u8]);
    t.push(BuiltinArgc { name: n2, min_argc: 1, max_argc: 1, base_arg: 1 });
    let n3: Vec<u8> = vec![119u8, 105u8, 110u8, 95u8, 103u8, 101u8, 116u8, 105u8, 100u8];
    assert(n3@ =~= seq![119u8, 105u8, 110u8, 95u8, 103u8, 101u8, 116u8, 105u8, 100u8]);
    t.push(BuiltinArgc { name: n3, min_argc: 0, max_argc: 2, base_arg: 1 });
    let n4: Vec<u8> = vec![119u8, 105u8, 110u8, 95u8, 103u8, 101u8, 116u8, 116u8, 121u8, 112u8, 101u8];
    assert(n4@ =~= seq![119u8, 105u8, 110u8, 95u8, 103u8, 101u8, 116u8, 116u8, 121u8, 112u8, 101u8]);
    t.push(BuiltinArgc { name: n4, min_argc: 0, max_argc: 1, base_arg: 1 });
    let n5: Vec<u8> = vec![119u8, 105u8, 110u8, 95u8, 103u8, 111u8, 116u8, 111u8, 105u8, 100u8];
    assert(n5@ =~= seq![119u8, 105u8, 110u8, 95u8, 103u8, 111u8, 116u8, 111u8, 105u8, 100u8]);
    t.push(BuiltinArgc { name: n5, min_argc: 1, max_argc: 1, base_arg: 1 });
    let n6: Vec<u8> = vec![119u8, 105u8, 110u8, 95u8, 105u8, 100u8, 50u8, 116u8, 97u8, 98u8, 119u8, 105u8, 110u8];
    assert(n6@ =~= seq![119u8, 105u8, 110u8, 95u8, 105u8, 100u8, 50u8, 116u8, 97u8, 98u8, 119u8, 105u8, 110u8]);
    t.push(BuiltinArgc { name: n6, min_argc: 1, max_argc: 1, base_arg: 1 });
    let n7: Vec<u8> = vec![119u8, 105u8, 110u8, 95u8, 105u8, 100u8, 50u8, 119u8, 105u8, 110u8];
    assert(n7@ =~= seq![119u8, 105u8, 110u8, 95u8, 105u8, 100u8, 50u8, 119u8, 105u8, 110u8]);
    t.push(BuiltinArgc { name: n7, min_argc: 1, max_argc: 1, base_arg: 1 });
    let n8: Vec<u8> = vec![119u8, 105u8, 110u8, 95u8, 109u8, 111u8, 118u8, 101u8, 95u8, 115u8, 101u8, 112u8, 97u8, 114u8, 97u8, 116u8, 111u8, 114u8];
    assert(n8@ =~= seq![119u8, 105u8, 110u8, 95u8, 109u8, 111u8, 118u8, 101u8, 95u8, 115u8, 101u8, 112u8, 97u8, 114u8, 97u8, 116u8, 111u8, 114u8]);
    t.push(BuiltinArgc { name: n8, min_argc: 2, max_argc: 2, base_arg: 1 });
    let n9: Vec<u8> = vec![119u8, 105u8, 110u8, 95u8, 109u8, 111u8, 118u8, 101u8, 95u8, 115u8, 116u8, 97u8, 116u8, 117u8, 115u8, 108u8, 105u8, 110u8, 101u8];
    assert(n9@ =~= seq![119u8, 105u8, 110u8, 95u8, 109u8, 111u8, 118u8, 101u8, 95u8, 115u8, 116u8, 97u8, 116u8, 117u8, 115u8, 108u8, 105u8, 110u8, 101u8]);
    t.push(BuiltinArgc { name: n9, min_argc: 2, max_argc: 2, base_arg: 1 });
    assert(argc_view(t@) =~= start + builtins_35());
}

/// Rows of the builtin table.
pub open spec fn builtins_36() -> Seq<(Seq<u8>, u8, u8, u8)> {
    seq![(seq![119u8, 105u8, 110u8, 95u8, 115u8, 99u8, 114u8, 101u8, 101u8, 110u8, 112u8, 111u8, 115u8], 1u8, 1u8, 1u8), (seq![119u8, 105u8, 110u8, 95u8, 115u8, 112u8, 108u8, 105u8, 116u8, 109u8, 111u8, 118u8, 101u8], 2u8, 3u8, 1u8), (seq![119u8, 105u8, 110u8, 98u8, 117u8, 102u8, 110u8, 114u8], 1u8, 1u8, 1u8), (seq![119u8, 105u8, 110u8, 99u8, 111u8, 108u8], 0u8, 0u8, 0u8), (seq![119u8, 105u8, 110u8, 100u8, 111u8, 119u8, 115u8, 118u8, 101u8, 114u8, 115u8, 105u8, 111u8, 110u8], 0u8, 0u8, 0u8), (seq![119u8, 105u8, 110u8, 104u8, 101u8, 105u8, 103u8, 104u8, 116u8], 1u8, 1u8, 1u8), (seq![119u8, 105u8, 110u8, 108u8, 97u8, 121u8, 111u8, 117u8, 116u8], 0u8, 1u8, 1u8), (seq![119u8, 105u8, 110u8, 108u8, 105u8, 110u8, 101u8], 0u8, 0u8, 0u8), (seq![119u8, 105u8, 110u8, 110u8, 114u8], 0u8, 1u8, 1u8), (seq![119u8, 105u8, 110u8, 114u8, 101u8, 115u8, 116u8, 99u8, 109u8, 100u8], 0u8, 0u8, 0u8)]
}

fn push_builtins_36(t: &mut Vec<BuiltinArgc>)
    ensures argc_view(final(t)@) =~= argc_view(old(t)@) + builtins_36(),
{
    let ghost start = argc_view(t@);
    let n0: Vec<u8> = vec![119u8, 105u8, 110u8, 95u8, 115u8, 99u8, 114u8, 101u8, 101u8, 110u8, 112u8, 111u8, 115u8];
    assert(n0@ =~= seq![119u8, 105u8, 110u8, 95u8, 115u8, 99u8, 114u8, 101u8, 101u8, 110u8, 112u8, 111u8, 115u8]);
    t.push(BuiltinArgc { name: n0, min_argc: 1, max_argc: 1, base_arg: 1 });
    let n1: Vec<u8> = vec![119u8, 105u8, 110u8, 95u8, 115u8, 112u8, 108u8, 105u8, 116u8, 109u8, 111u8, 118u8, 101u8];
    assert(n1@ =~= seq![119u8, 105u8, 110u8, 95u8, 115u8, 112u8, 108u8, 105u8, 116u8, 109u8, 111u8, 118u8, 101u8]);
    t.push(BuiltinArgc { name: n1, min_argc: 2, max_argc: 3, base_arg: 1 });
    let n2: Vec<u8> = vec![119u8, 105u8, 110u8, 98u8, 117u8, 102u8, 110u8, 114u8];
    assert(n2@ =~= seq![119u8, 105u8, 110u8, 98u8, 117u8, 102u8, 110u8, 114u8]);
    t.push(BuiltinArgc { name: n2, min_argc: 1, max_argc: 1, base_arg: 1 });
    let n3: Vec<u8> = vec![119u8, 105u8, 110u8, 99u8, 111u8, 108u8];
    assert(n3@ =~= seq![119u8, 105u8, 110u8, 99u8, 111u8, 108u8]);
    t.push(BuiltinArgc { name: n3, min_argc: 0, max_argc: 0, base_arg: 0 });
    let n4: Vec<u8> = vec![119u8, 105u8, 110u8, 100u8, 111u8, 119u8, 115u8, 118u8, 101u8, 114u8, 115u8, 105u8, 111u8, 110u8];
    assert(n4@ =~= seq![119u8, 105u8, 110u8, 100u8, 111u8, 119u8, 115u8, 118u8, 101u8, 114u8, 115u8, 105u8, 111u8, 110u8]);
    t.push(BuiltinArgc { name: n4, min_argc: 0, max_argc: 0, base_arg: 0 });
    let n5: Vec<u8> = vec![119u8, 105u8, 110u8, 104u8, 101u8, 105u8, 103u8, 104u8, 116u8];
    assert(n5@ =~= seq![119u8, 105u8, 110u8, 104u8, 101u8, 105u8, 103u8, 104u8, 116u8]);
    t.push(BuiltinArgc { name: n5, min_argc: 1, max_argc: 1, base_arg: 1 });
    let n6: Vec<u8> = vec![119u8, 105u8, 110u8, 108u8, 97u8, 121u8, 111u8, 117u8, 116u8];
    assert(n6@ =~= seq![119u8, 105u8, 110u8, 108u8, 97u8, 121u8, 111u8, 117u8, 116u8]);
    t.push(BuiltinArgc { name: n6, min_argc: 0, max_argc: 1, base_arg: 1 });
    let n7: Vec<u8> = vec![119u8, 105u8, 110u8, 108u8, 105u8, 110u8, 101u8];
    assert(n7@ =~= seq![119u8, 105u8, 110u8, 108u8, 105u8, 110u8, 101u8]);
    t.push(BuiltinArgc { name: n7, min_argc: 0, max_argc: 0, base_arg: 0 });
    let n8: Vec<u8> = vec![119u8, 105u8, 110u8, 110u8, 114u8];
    assert(n8@ =~= seq![119u8, 105u8, 110u8, 110u8, 114u8]);
    t.push(BuiltinArgc { name: n8, min_argc: 0, max_argc: 1, base_arg: 1 });
    let n9: Vec<u8> = vec![119u8, 105u8, 110u8, 114u8, 101u8, 115u8, 116u8, 99u8, 109u8, 100u8];
    assert(n9@ =~= seq![119u8, 105u8, 110u8, 114u8, 101u8, 115u8, 116u8, 99u8, 109u8, 100u8]);
    t.push(BuiltinArgc { name: n9, min_argc: 0, max_argc: 0, base_arg: 0 });
    assert(argc_view(t@) =~= start + builtins_36());
}

/// Rows of the builtin table.
pub open spec fn builtins_37() -> Seq<(Seq<u8>, u8, u8, u8)> {
    seq![(seq![119u8, 105u8, 110u8, 114u8, 101u8, 115u8, 116u8, 118u8, 105u8, 101u8, 119u8], 1u8, 1u8, 1u8), (seq![119u8, 105u8, 110u8, 115u8, 97u8, 118u8, 101u8, 118u8, 105u8, 101u8, 119u8], 0u8, 0u8, 0u8), (seq![119u8, 105u8, 110u8, 119u8, 105u8, 100u8, 116u8, 104u8], 1u8, 1u8, 1u8), (seq![119u8, 111u8, 114u8, 100u8, 99u8, 111u8, 117u8, 110u8, 116u8], 0u8, 0u8, 0u8), (seq![120u8, 111u8, 114u8], 2u8, 2u8, 1u8)]
}

fn push_builtins_37(t: &mut Vec<BuiltinArgc>)
    ensures argc_view(final(t)@) =~= argc_view(old(t)@) + builtins_37(),
{
    let ghost start = argc_view(t@);
    let n0: Vec<u8> = vec![119u8, 105u8, 110u8, 114u8, 101u8, 115u8, 116u8, 118u8, 105u8, 101u8, 119u8];
    assert(n0@ =~= seq![119u8, 105u8, 110u8, 114u8, 101u8, 115u8, 116u8, 118u8, 105u8, 101u8, 119u8]);
    t.push(BuiltinArgc { name: n0, min_argc: 1, max_argc: 1, base_arg: 1 });
    let n1: Vec<u8> = vec![119u8, 105u8, 110u8, 115u8, 97u8, 118u8, 101u8, 118u8, 105u8, 101u8, 119u8];
    assert(n1@ =~= seq![119u8, 105u8, 110u8, 115u8, 97u8, 118u8, 101u8, 118u8, 105u8, 101u8, 119u8]);
    t.push(BuiltinArgc { name: n1, min_argc: 0, max_argc: 0, base_arg: 0 });
    let n2: Vec<u8> = vec![119u8, 105u8, 110u8, 119u8, 105u8, 100u8, 116u8, 104u8];
    assert(n2@ =~= seq![119u8, 105u8, 110u8, 119u8, 105u8, 100u8, 116u8, 104u8]);
    t.push(BuiltinArgc { name: n2, min_argc: 1, max_argc: 1, base_arg: 1 });
    let n3: Vec<u8> = vec![119u8, 111u8, 114u8, 100u8, 99u8, 111u8, 117u8, 110u8, 116u8];
    assert(n3@ =~= seq![119u8, 111u8, 114u8, 100u8, 99u8, 111u8, 117u8, 110u8, 116u8]);
    t.push(BuiltinArgc { name: n3, min_argc: 0, max_argc: 0, base_arg: 0 });
    let n4: Vec<u8> = vec![120u8, 111u8, 114u8];
    assert(n4@ =~= seq![120u8, 111u8, 114u8]);
    t.push(BuiltinArgc { name: n4, min_argc: 2, max_argc: 2, base_arg: 1 });
    assert(argc_view(t@) =~= start + builtins_37());
}


/// The builtin functions with their argument counts, sorted by name.
pub open spec fn builtin_table_spec() -> Seq<(Seq<u8>, u8, u8, u8)> {
    builtins_0() + builtins_1() + builtins_2() + builtins_3() + builtins_4() + builtins_5() + builtins_6() + builtins_7() + builtins_8() + builtins_9() + builtins_10() + builtins_11() + builtins_12() + builtins_13() + builtins_14() + builtins_15() + builtins_16() + builtins_17() + builtins_18() + builtins_19() + builtins_20() + builtins_21() + builtins_22() + builtins_23() + builtins_24() + builtins_25() + builtins_26() + builtins_27() + builtins_28() + builtins_29() + builtins_30() + builtins_31() + builtins_32() + builtins_33() + builtins_34() + builtins_35() + builtins_36() + builtins_37()
}

/// The builtin table.
pub fn builtin_table() -> (t: Vec<BuiltinArgc>)
    ensures argc_view(t@) == builtin_table_spec(),
{
    let mut t: Vec<BuiltinArgc> = Vec::new();
    assert(argc_view(t@) =~= Seq::<(Seq<u8>, u8, u8, u8)>::empty());
    push_builtins_0(&mut t);
    push_builtins_1(&mut t);
    push_builtins_2(&mut t);
    push_builtins_3(&mut t);
    push_builtins_4(&mut t);
    push_builtins_5(&mut t);
    push_builtins_6(&mut t);
    push_builtins_7(&mut t);
    push_builtins_8(&mut t);
    push_builtins_9(&mut t);
    push_builtins_10(&mut t);
    push_builtins_11(&mut t);
    push_builtins_12(&mut t);
    push_builtins_13(&mut t);
    push_builtins_14(&mut t);
    push_builtins_15(&mut t);
    push_builtins_16(&mut t);
    push_builtins_17(&mut t);
    push_builtins_18(&mut t);
    push_builtins_19(&mut t);
    push_builtins_20(&mut t);
    push_builtins_21(&mut t);
    push_builtins_22(&mut t);
    push_builtins_23(&mut t);
    push_builtins_24(&mut t);
    push_builtins_25(&mut t);
    push_builtins_26(&mut t);
    push_builtins_27(&mut t);
    push_builtins_28(&mut t);
    push_builtins_29(&mut t);
    push_builtins_30(&mut t);
    push_builtins_31(&mut t);
    push_builtins_32(&mut t);
    push_builtins_33(&mut t);
    push_builtins_34(&mut t);
    push_builtins_35(&mut t);
    push_builtins_36(&mut t);
    push_builtins_37(&mut t);
    assert(argc_view(t@) =~= builtin_table_spec());
    t
}

/// The index of the first row named `name` from row `i` on, or -1.
pub open spec fn row_index(t: Seq<(Seq<u8>, u8, u8, u8)>, name: Seq<u8>, i: int) -> int
    decreases t.len() - i,
{
    if i >= t.len() || i < 0 { -1 } else if t[i].0 == name { i } else { row_index(t, name, i + 1) }
}

/// The row of the builtin `name`, if it is one.
pub open spec fn builtin_row(name: Seq<u8>) -> Option<(Seq<u8>, u8, u8, u8)> {
    let i = row_index(builtin_table_spec(), name, 0);
    if i >= 0 { Some(builtin_table_spec()[i]) } else { None }
}

/// The metadata of a builtin function.
#[derive(Debug)]
pub struct EvalFuncDef {
    pub name: Vec<u8>,
    pub min_argc: u8,
    pub max_argc: u8,
    pub base_arg: u8,
}

fn lookup_row(name: &[u8]) -> (r: Option<(u8, u8, u8)>)
    ensures
        match builtin_row(name@) {
            Some(row) => r == Some((row.1, row.2, row.3)),
            None => r is None,
        },
{
    let t = builtin_table();
    let mut i: usize = 0;
    while i < t.len()
        invariant
            i <= t@.len(),
            argc_view(t@) == builtin_table_spec(),
            row_index(builtin_table_spec(), name@, 0) == row_index(builtin_table_spec(), name@, i as int),
        decreases t@.len() - i,
    {
        if bytes_eq(t[i].name.as_slice(), name) {
            return Some((t[i].min_argc, t[i].max_argc, t[i].base_arg));
        }
        i += 1;
    }
    None
}

/// The metadata of the builtin `name`, or `None` when there is no such
/// builtin.
pub fn find_internal_func(name: &[u8]) -> (r: Option<EvalFuncDef>)
    ensures
        match builtin_row(name@) {
            Some(row) => r is Some && r->Some_0.name@ == name@ && r->Some_0.min_argc == row.1
                && r->Some_0.max_argc == row.2 && r->Some_0.base_arg == row.3,
            None => r is None,
        },
{
    match lookup_row(name) {
        Some((mn, mx, base)) => Some(EvalFuncDef { name: slice_to_vec(name), min_argc: mn, max_argc: mx, base_arg: base }),
        None => None,
    }
}

/// The name of the Lua function that implements a builtin; no builtin is
/// implemented in Lua.
pub fn find_internal_func_lua(name: &[u8]) -> (r: Option<Vec<u8>>)
    ensures r is None,
{
    None
}

/// The next line of a List given to `execute()` as commands; the lines are
/// handed over whole, so there is none.
pub fn get_list_line() -> (r: Option<Vec<u8>>)
    ensures r is None,
{
    None
}

/// What `check_internal_func()` returns for `argcount` arguments.
pub open spec fn check_spec(name: Seq<u8>, argcount: int) -> int {
    match builtin_row(name) {
        None => -1,
        Some(row) => if argcount < row.1 || (row.2 != ARGC_ANY && argcount > row.2) { -1 } else { row.3 as int },
    }
}

/// The error `check_internal_func()` reports: E119 for too few arguments,
/// E118 for too many, each with the function's name.
pub open spec fn check_error(name: Seq<u8>, argcount: int) -> Option<Seq<u8>> {
    match builtin_row(name) {
        None => None,
        Some(row) => if argcount < row.1 { Some(msg_e119() + name) }
            else if row.2 != ARGC_ANY && argcount > row.2 { Some(msg_e118() + name) }
            else { None },
    }
}

/// Check the number of arguments of the builtin `name`: -1 when there is no
/// such builtin or the count is out of its range (reported: E119, E118),
/// else the position of its method base (0 for none).
pub fn check_internal_func(name: &[u8], argcount: i32, errs: &mut Vec<Vec<u8>>) -> (r: i32)
    ensures
        r as int == check_spec(name@, argcount as int),
        msgs_view(final(errs)@) == after_report(old(errs)@, check_error(name@, argcount as int)),
{
    match lookup_row(name) {
        None => -1,
        Some((mn, mx, base)) => {
            if argcount < mn as i32 {
                let mut m = msg_e119_exec();
                append_bytes(&mut m, name);
                emsg(errs, m);
                -1
            } else if mx != ARGC_ANY && argcount > mx as i32 {
                let mut m = msg_e118_exec();
                append_bytes(&mut m, name);
                emsg(errs, m);
                -1
            } else {
                base as i32
            }
        },
    }
}

/// Result of calling a function: unknown function.
pub const FCERR_UNKNOWN: i32 = 0;
/// Result of calling a function: too many arguments.
pub const FCERR_TOOMANY: i32 = 1;
/// Result of calling a function: too few arguments.
pub const FCERR_TOOFEW: i32 = 2;
/// Result of calling a function: script-local function outside a script.
pub const FCERR_SCRIPT: i32 = 3;
/// Result of calling a function: a dict function without a Dict.
pub const FCERR_DICT: i32 = 4;
/// Result of calling a function: it was called.
pub const FCERR_NONE: i32 = 5;
/// Result of calling a function: another error.
pub const FCERR_OTHER: i32 = 6;
/// Result of calling a function: the function was deleted.
pub const FCERR_DELETED: i32 = 7;
/// Result of calling a function: it cannot be used as a method.
pub const FCERR_NOTMETHOD: i32 = 8;

/// The Funcref value naming the builtin `name`.
pub open spec fn callee_tv(name: Seq<u8>) -> TypVal {
    TypVal { ty: VarType::VAR_FUNC, lock: VarLockStatus::VAR_UNLOCKED, v: VVal::Str(name) }
}

/// `args` with `base` put in at position `i`.
pub open spec fn with_base(args: Seq<typval_T>, base: typval_T, i: int) -> Seq<TypVal> {
    items_view(args.subrange(0, i)).push(base@) + items_view(args.subrange(i, args.len() as int))
}

/// The arity outcome of calling the builtin `name` with `argcount`
/// arguments: `FCERR_NONE` when it may be called.
pub open spec fn arity_check(name: Seq<u8>, argcount: int) -> i32 {
    match builtin_row(name) {
        None => FCERR_UNKNOWN,
        Some(row) => if argcount < row.1 { FCERR_TOOFEW }
            else if row.2 != ARGC_ANY && argcount > row.2 { FCERR_TOOMANY } else { FCERR_NONE },
    }
}

/// Call the builtin `fname` with `argvars`: check the number of arguments,
/// then hand the Funcref and the arguments to `call`, which runs builtins by
/// name. Returns `FCERR_NONE` with the result in `rettv`, or the reason the
/// call was not made (`FCERR_UNKNOWN` also when `call` is absent or fails).
pub fn call_internal_func<F: Fn(typval_T, Vec<typval_T>) -> Option<typval_T>>(fname: &[u8], argvars: &[typval_T],
    rettv: &mut typval_T, call: Option<&F>) -> (r: i32)
    requires
        call is Some ==> forall|c: typval_T, a: Vec<typval_T>| #[trigger] call->Some_0.requires((c, a)),
    ensures
        arity_check(fname@, argvars@.len() as int) != FCERR_NONE ==> r == arity_check(fname@, argvars@.len() as int)
            && final(rettv)@ == old(rettv)@,
        arity_check(fname@, argvars@.len() as int) == FCERR_NONE ==> match call {
            None => r == FCERR_UNKNOWN && final(rettv)@ == old(rettv)@,
            Some(f) => exists|c: typval_T, a: Vec<typval_T>, o: Option<typval_T>|
                c@ == callee_tv(fname@) && items_view(a@) == items_view(argvars@) && #[trigger] f.ensures((c, a), o)
                && match o {
                    Some(v) => r == FCERR_NONE && final(rettv)@ == v@,
                    None => r == FCERR_UNKNOWN && final(rettv)@ == old(rettv)@,
                },
        },
{
    let (mn, mx) = match lookup_row(fname) {
        None => { return FCERR_UNKNOWN; },
        Some((mn, mx, _)) => (mn, mx),
    };
    let argcount = argvars.len();
    if argcount < mn as usize {
        return FCERR_TOOFEW;
    }
    if mx != ARGC_ANY && argcount > mx as usize {
        return FCERR_TOOMANY;
    }
    match call {
        None => FCERR_UNKNOWN,
        Some(f) => {
            let callee = typval_T { v_type: VarType::VAR_FUNC, v_lock: VarLockStatus::VAR_UNLOCKED, vval: typval_vval_union::v_string(slice_to_vec(fname)) };
            let args = items_dup_range(argvars, 0, argvars.len());
            proof { assert(argvars@.subrange(0, argvars@.len() as int) =~= argvars@); }
            let ghost cv = callee;
            let ghost av = args;
            let res = f(callee, args);
            match res {
                Some(v) => {
                    *rettv = v;
                    FCERR_NONE
                },
                None => FCERR_UNKNOWN,
            }
        },
    }
}

fn items_dup_range(v: &[typval_T], lo: usize, hi: usize) -> (r: Vec<typval_T>)
    requires lo <= hi <= v@.len(),
    ensures items_view(r@) == items_view(v@.subrange(lo as int, hi as int)),
{
    let mut out: Vec<typval_T> = Vec::new();
    let mut i: usize = lo;
    while i < hi
        invariant lo <= i <= hi, hi <= v@.len(), out@.len() == i - lo,
            forall|j: int| 0 <= j < i - lo ==> #[trigger] out@[j]@ == v@[lo + j]@,
        decreases hi - i,
    {
        out.push(tv_dup(&v[i]));
        i += 1;
    }
    proof { lemma_items_view_ext(out@, v@.subrange(lo as int, hi as int)); }
    out
}

/// What `call_internal_method()` checks before calling: the outcome, and the
/// position of the base.
pub open spec fn method_check(name: Seq<u8>, argcount: int) -> i32 {
    match builtin_row(name) {
        None => FCERR_UNKNOWN,
        Some(row) => if row.3 == 0 { FCERR_NOTMETHOD }
            else if argcount + 1 < row.1 { FCERR_TOOFEW }
            else if row.2 != ARGC_ANY && argcount + 1 > row.2 { FCERR_TOOMANY }
            else if argcount < row.3 - 1 { FCERR_TOOFEW }
            else { FCERR_NONE },
    }
}

/// Call the builtin `fname` as a method of `basetv` (`base->fname(args)`):
/// the base goes in at the builtin's base position, the arguments are
/// checked, and the call is handed to `call` as in `call_internal_func()`.
/// `FCERR_NOTMETHOD` for a builtin that has no base position.
pub fn call_internal_method<F: Fn(typval_T, Vec<typval_T>) -> Option<typval_T>>(fname: &[u8], argvars: &[typval_T],
    basetv: &typval_T, rettv: &mut typval_T, call: Option<&F>) -> (r: i32)
    requires
        argvars@.len() < i32::MAX,
        call is Some ==> forall|c: typval_T, a: Vec<typval_T>| #[trigger] call->Some_0.requires((c, a)),
    ensures
        method_check(fname@, argvars@.len() as int) != FCERR_NONE ==> r == method_check(fname@, argvars@.len() as int)
            && final(rettv)@ == old(rettv)@,
        method_check(fname@, argvars@.len() as int) == FCERR_NONE ==> match call {
            None => r == FCERR_UNKNOWN && final(rettv)@ == old(rettv)@,
            Some(f) => exists|c: typval_T, a: Vec<typval_T>, o: Option<typval_T>|
                c@ == callee_tv(fname@)
                && items_view(a@) == with_base(argvars@, *basetv, builtin_row(fname@)->Some_0.3 - 1)
                && #[trigger] f.ensures((c, a), o)
                && match o {
                    Some(v) => r == FCERR_NONE && final(rettv)@ == v@,
                    None => r == FCERR_UNKNOWN && final(rettv)@ == old(rettv)@,
                },
        },
{
    let (mn, mx, base) = match lookup_row(fname) {
        None => { return FCERR_UNKNOWN; },
        Some(row) => row,
    };
    if base == 0 {
        return FCERR_NOTMETHOD;
    }
    let argcount = argvars.len();
    if argcount + 1 < mn as usize {
        return FCERR_TOOFEW;
    }
    if mx != ARGC_ANY && argcount + 1 > mx as usize {
        return FCERR_TOOMANY;
    }
    let base_index = (base - 1) as usize;
    if argcount < base_index {
        return FCERR_TOOFEW;
    }
    match call {
        None => FCERR_UNKNOWN,
        Some(f) => {
            let mut argv: Vec<typval_T> = items_dup_range(argvars, 0, base_index);
            argv.push(tv_dup(basetv));
            let rest = items_dup_range(argvars, base_index, argcount);
            let ghost before = argv@;
            let mut rest_m = rest;
            proof { lemma_items_view_add(argv@, rest_m@); }
            argv.append(&mut rest_m);
            proof {
                lemma_items_view_push(argvars@.subrange(0, base_index as int), *basetv);
            }
            let callee = typval_T { v_type: VarType::VAR_FUNC, v_lock: VarLockStatus::VAR_UNLOCKED, vval: typval_vval_union::v_string(slice_to_vec(fname)) };
            let res = f(callee, argv);
            match res {
                Some(v) => {
                    *rettv = v;
                    FCERR_NONE
                },
                None => FCERR_UNKNOWN,
            }
        },
    }
}

} // verus!
