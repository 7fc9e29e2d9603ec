//! Blob operations.
use vstd::prelude::*;
use crate::typval_defs::{
    varnumber_T, OK, FAIL, VarType, VarLockStatus, BoolVarValue, SpecialVarValue, typval_vval_union,
    typval_T, list_T, dict_T, dictitem_T, blob_T, partial_T, Callback, DictWatcher, TypVal, VVal,
    ListVal, DictVal, BlobVal, CallbackVal, WatcherVal, tv_view, list_view, dict_view, items_view, dict_index_of,
    mk_tv, num_tv, str_tv, list_tv, blob_tv, dict_tv, empty_dict_val, dict_wf, keys_unique,
    lemma_items_view_ext, lemma_items_view_index, lemma_items_view_push, lemma_items_view_subrange,
    lemma_items_view_add, lemma_items_view_reverse, lemma_items_view_update, lemma_items_view_insert,
    lemma_items_view_remove, lemma_items_view_empty,
};
use crate::charset::{nr2str, nr2bytes, str2nr, str2nr_all};
use crate::message::{emsg, msgs_view, msg_e972, msg_e972_exec};
use crate::dup::{bytes_dup, tv_dup, list_dup, dict_dup, blob_dup, items_dup, slice_to_vec, callback_dup};
use crate::typval::{
    number_of, number_chk_result, string_of, string_or_empty, tv_get_number_chk, tv_get_number,
    tv_get_bool, tv_get_string, tv_get_string_chk, tv_get_string_buf_chk, tv_equal, tv_equal_spec,
    bytes_eq, dict_find_index,
};
use crate::typval_list::{empty_list_val, with_items, tv_list_alloc, tv_list_append_number, number_tv};

verus! {

pub open spec fn empty_blob_val() -> BlobVal {
    BlobVal { bytes: Seq::empty(), lock: VarLockStatus::VAR_UNLOCKED, refcount: 0 }
}

/// An empty Blob.
pub fn tv_blob_alloc() -> (r: blob_T)
    ensures r@ == empty_blob_val(),
{
    blob_T { bv_ga: Vec::new(), bv_lock: VarLockStatus::VAR_UNLOCKED, bv_refcount: 0 }
}

/// The number of bytes.
pub fn tv_blob_len(b: &blob_T) -> (r: i32)
    requires b.bv_ga@.len() <= i32::MAX,
    ensures r as int == b@.bytes.len(),
{
    b.bv_ga.len() as i32
}

/// The byte at `idx`.
pub fn tv_blob_get(b: &blob_T, idx: i32) -> (r: u8)
    requires 0 <= idx < b.bv_ga@.len(),
    ensures r == b@.bytes[idx as int],
{
    b.bv_ga[idx as usize]
}

/// Store `c` at `idx`.
pub fn tv_blob_set(blob: &mut blob_T, idx: i32, c: u8)
    requires 0 <= idx < old(blob).bv_ga@.len(),
    ensures final(blob)@ == (BlobVal { bytes: old(blob)@.bytes.update(idx as int, c), ..old(blob)@ }),
{
    blob.bv_ga.set(idx as usize, c);
}

/// Make `tv` the Blob `b`.
pub fn tv_blob_set_ret(tv: &mut typval_T, b: blob_T)
    ensures final(tv)@ == (TypVal { ty: VarType::VAR_BLOB, lock: old(tv)@.lock, v: VVal::Blob(Some(b@)) }),
{
    tv.v_type = VarType::VAR_BLOB;
    tv.vval = typval_vval_union::v_blob(Some(b));
}

/// Make `ret_tv` a new empty Blob.
pub fn tv_blob_alloc_ret(ret_tv: &mut typval_T)
    ensures final(ret_tv)@ == (TypVal { ty: VarType::VAR_BLOB, lock: old(ret_tv)@.lock, v: VVal::Blob(Some(empty_blob_val())) }),
{
    tv_blob_set_ret(ret_tv, tv_blob_alloc());
}

/// Make `to` an unlocked copy of the bytes of
/// `from` (a missing blob stays missing).
pub fn tv_blob_copy(from: Option<&blob_T>, to: &mut typval_T)
    ensures
        final(to)@ == (TypVal { ty: VarType::VAR_BLOB, lock: VarLockStatus::VAR_UNLOCKED, v: match from {
            None => VVal::Blob(None),
            Some(b) => VVal::Blob(Some(BlobVal { bytes: b@.bytes, ..empty_blob_val() })),
        } }),
{
    to.v_type = VarType::VAR_BLOB;
    to.v_lock = VarLockStatus::VAR_UNLOCKED;
    match from {
        None => { to.vval = typval_vval_union::v_blob(None); },
        Some(b) => {
            let nb = blob_T { bv_ga: bytes_dup(&b.bv_ga), bv_lock: VarLockStatus::VAR_UNLOCKED, bv_refcount: 0 };
            to.vval = typval_vval_union::v_blob(Some(nb));
        },
    }
}

/// Set bytes `n1..=n2` of `dest` from `src`;
/// `FAIL` when the byte counts differ, which is reported (E972).
pub fn tv_blob_set_range(dest: &mut blob_T, n1: varnumber_T, n2: varnumber_T, src: &blob_T, errs: &mut Vec<Vec<u8>>) -> (r: i32)
    requires
        i64::MIN <= n2 - n1, n2 - n1 + 1 <= i64::MAX,
        src.bv_ga@.len() <= i32::MAX,
        old(dest).bv_ga@.len() <= i32::MAX,
        n2 - n1 + 1 == src.bv_ga@.len() ==> 0 <= n1 && n2 < old(dest).bv_ga@.len(),
    ensures
        n2 - n1 + 1 != src@.bytes.len() ==> r == FAIL && final(dest)@ == old(dest)@
            && msgs_view(final(errs)@) == msgs_view(old(errs)@).push(msg_e972()),
        n2 - n1 + 1 == src@.bytes.len() ==> msgs_view(final(errs)@) == msgs_view(old(errs)@),
        n2 - n1 + 1 == src@.bytes.len() ==> r == OK && final(dest)@ == (BlobVal {
            bytes: old(dest)@.bytes.subrange(0, n1 as int) + src@.bytes + old(dest)@.bytes.subrange(n2 + 1, old(dest)@.bytes.len() as int),
            ..old(dest)@ }),
{
    if n2 - n1 + 1 != tv_blob_len(src) as varnumber_T {
        emsg(errs, msg_e972_exec());
        return FAIL;
    }
    let ghost od = dest@.bytes;
    let mut ir: i32 = 0;
    let mut il: varnumber_T = n1;
    while il <= n2
        invariant
            n1 <= il <= n2 + 1,
            ir as int == il - n1,
            n2 - n1 + 1 == src@.bytes.len(),
            0 <= n1, n2 < od.len(),
            dest@.bytes.len() == od.len(), od.len() <= i32::MAX, src@.bytes.len() <= i32::MAX,
            dest@.lock == old(dest)@.lock, dest@.refcount == old(dest)@.refcount,
            forall|k: int| 0 <= k < n1 ==> dest@.bytes[k] == od[k],
            forall|k: int| n2 < k < od.len() ==> dest@.bytes[k] == od[k],
            forall|k: int| n1 <= k < il ==> dest@.bytes[k] == src@.bytes[k - n1],
        decreases n2 + 1 - il,
    {
        let c = tv_blob_get(src, ir);
        tv_blob_set(dest, il as i32, c);
        ir += 1;
        il += 1;
    }
    assert(dest@.bytes =~= od.subrange(0, n1 as int) + src@.bytes + od.subrange(n2 + 1, od.len() as int));
    OK
}

/// Store `byte` at `idx`, appending one byte
/// when `idx` is the current length; an index past that is ignored.
pub fn tv_blob_set_append(blob: &mut blob_T, idx: i32, byte: u8)
    requires idx >= 0, old(blob).bv_ga@.len() <= i32::MAX,
    ensures
        idx < old(blob)@.bytes.len() ==> final(blob)@ == (BlobVal { bytes: old(blob)@.bytes.update(idx as int, byte), ..old(blob)@ }),
        idx == old(blob)@.bytes.len() ==> final(blob)@ == (BlobVal { bytes: old(blob)@.bytes.push(byte), ..old(blob)@ }),
        idx > old(blob)@.bytes.len() ==> final(blob)@ == old(blob)@,
{
    let ga_len = blob.bv_ga.len() as i32;
    if idx <= ga_len {
        if idx == ga_len {
            blob.bv_ga.push(0);
        }
        tv_blob_set(blob, idx, byte);
        assert(idx == ga_len ==> blob@.bytes =~= old(blob)@.bytes.push(byte));
    }
}

/// Whether `n1` may index a blob of length
/// `bloblen` for assignment (`0..=bloblen`).
pub fn tv_blob_check_index(bloblen: i32, n1: varnumber_T, quiet: bool) -> (r: i32)
    ensures r == (if n1 < 0 || n1 > bloblen { FAIL } else { OK }),
{
    if n1 < 0 || n1 > bloblen as varnumber_T {
        return FAIL;
    }
    OK
}

/// Whether `[n1, n2]` is a valid range in a
/// blob of length `bloblen`.
pub fn tv_blob_check_range(bloblen: i32, n1: varnumber_T, n2: varnumber_T, quiet: bool) -> (r: i32)
    ensures r == (if n2 < 0 || n2 >= bloblen || n2 < n1 { FAIL } else { OK }),
{
    if n2 < 0 || n2 >= bloblen as varnumber_T || n2 < n1 {
        return FAIL;
    }
    OK
}

/// The result of indexing a blob of bytes `b` at `idx`.
pub open spec fn blob_index_spec(b: Seq<u8>, idx: int) -> Option<int> {
    let i = if idx < 0 { b.len() + idx } else { idx };
    if 0 <= i < b.len() { Some(b[i] as int) } else { None }
}

/// The bounds `[lo, hi]` a blob slice covers (inclusive; empty when `lo > hi`).
pub open spec fn blob_slice_bounds(len: int, n1: int, n2: int, exclusive: bool) -> (int, int) {
    let a = if n1 < 0 { if len + n1 < 0 { 0 } else { len + n1 } } else { n1 };
    let b0 = if n2 < 0 { len + n2 } else if n2 >= len { len - (if exclusive { 0int } else { 1int }) } else { n2 };
    let b = if exclusive { b0 - 1 } else { b0 };
    (a, b)
}

fn tv_blob_index(blob: &blob_T, len: i32, idx: varnumber_T, rettv: &mut typval_T) -> (r: i32)
    requires len as int == blob.bv_ga@.len(),
    ensures
        match blob_index_spec(blob@.bytes, idx as int) {
            Some(v) => r == OK && final(rettv)@ == num_tv(v),
            None => r == FAIL && final(rettv)@ == old(rettv)@,
        },
{
    let mut idx = idx;
    if idx < 0 {
        idx = len as varnumber_T + idx;
    }
    if idx < len as varnumber_T && idx >= 0 {
        let v = tv_blob_get(blob, idx as i32) as varnumber_T;
        *rettv = number_tv(v);
        OK
    } else {
        FAIL
    }
}

fn tv_blob_slice(blob: &blob_T, len: i32, n1: varnumber_T, n2: varnumber_T, exclusive: bool, rettv: &mut typval_T) -> (r: i32)
    requires len as int == blob.bv_ga@.len(), !(exclusive && n2 == i64::MIN && len == 0),
    ensures
        r == OK,
        ({
            let (a, b) = blob_slice_bounds(len as int, n1 as int, n2 as int, exclusive);
            if a >= len || b < 0 || a > b {
                final(rettv)@ == mk_tv(VarType::VAR_BLOB, VVal::Blob(None))
            } else {
                final(rettv)@ == blob_tv(blob@.bytes.subrange(a, b + 1))
            }
        }),
{
    let len = len as varnumber_T;
    let mut n1 = n1;
    let mut n2 = n2;
    if n1 < 0 {
        n1 = len + n1;
        if n1 < 0 {
            n1 = 0;
        }
    }
    if n2 < 0 {
        n2 = len + n2;
    } else if n2 >= len {
        n2 = len - if exclusive { 0 } else { 1 };
    }
    if exclusive {
        n2 -= 1;
    }
    if n1 >= len || n2 < 0 || n1 > n2 {
        *rettv = typval_T { v_type: VarType::VAR_BLOB, v_lock: VarLockStatus::VAR_UNLOCKED, vval: typval_vval_union::v_blob(None) };
    } else {
        let mut out: Vec<u8> = Vec::new();
        let blen: usize = blob.bv_ga.len();
        let mut i: varnumber_T = n1;
        while i <= n2
            invariant n1 <= i <= n2 + 1, 0 <= n1, n2 < len, len == blob.bv_ga@.len(), blen == blob.bv_ga@.len(),
                out@ == blob@.bytes.subrange(n1 as int, i as int),
            decreases n2 + 1 - i,
        {
            let ghost prev = out@;
            let c = blob.bv_ga[i as usize];
            assert(c == blob@.bytes[i as int]);
            out.push(c);
            assert(out@ =~= blob@.bytes.subrange(n1 as int, i + 1)) by {
                assert(prev =~= blob@.bytes.subrange(n1 as int, i as int));
            }
            i += 1;
        }
        *rettv = typval_T { v_type: VarType::VAR_BLOB, v_lock: VarLockStatus::VAR_UNLOCKED,
            vval: typval_vval_union::v_blob(Some(blob_T { bv_ga: out, bv_lock: VarLockStatus::VAR_UNLOCKED, bv_refcount: 0 })) };
    }
    OK
}

/// A blob subscript, either one byte (a
/// Number) or a sub-blob.
pub fn tv_blob_slice_or_index(blob: &blob_T, is_range: bool, n1: varnumber_T, n2: varnumber_T, exclusive: bool, rettv: &mut typval_T) -> (r: i32)
    requires blob.bv_ga@.len() <= i32::MAX, !(is_range && exclusive && n2 == i64::MIN && blob.bv_ga@.len() == 0),
    ensures
        !is_range ==> match blob_index_spec(blob@.bytes, n1 as int) {
            Some(v) => r == OK && final(rettv)@ == num_tv(v),
            None => r == FAIL && final(rettv)@ == old(rettv)@,
        },
        is_range ==> r == OK && ({
            let len = blob@.bytes.len() as int;
            let (a, b) = blob_slice_bounds(len, n1 as int, n2 as int, exclusive);
            if a >= len || b < 0 || a > b {
                final(rettv)@ == mk_tv(VarType::VAR_BLOB, VVal::Blob(None))
            } else {
                final(rettv)@ == blob_tv(blob@.bytes.subrange(a, b + 1))
            }
        }),
{
    let len = tv_blob_len(blob);
    if is_range {
        tv_blob_slice(blob, len, n1, n2, exclusive, rettv)
    } else {
        tv_blob_index(blob, len, n1, rettv)
    }
}

/// One reference fewer.
pub fn tv_blob_unref(b: &mut blob_T)
    requires old(b).bv_refcount > i32::MIN,
    ensures final(b)@ == (BlobVal { refcount: old(b)@.refcount - 1, ..old(b)@ }),
{
    b.bv_refcount -= 1;
}

/// Drop the bytes.
pub fn tv_blob_free(b: &mut blob_T)
    ensures final(b)@ == (BlobVal { bytes: Seq::empty(), ..old(b)@ }),
{
    b.bv_ga = Vec::new();
}

/// The items `[0, b0], [1, b1], ...` of a blob, or of a list of values.
pub open spec fn bytes_as_numbers(b: Seq<u8>) -> Seq<TypVal> {
    Seq::new(b.len(), |i: int| num_tv(b[i] as int))
}

/// A List of the byte values of the Blob argument
/// (empty when the argument is not a Blob).
pub fn f_blob2list(argvars: &[typval_T], rettv: &mut typval_T)
    ensures
        final(rettv)@ == (TypVal { ty: VarType::VAR_LIST, lock: old(rettv)@.lock, v: VVal::List(Some(ListVal {
            items: if argvars@.len() > 0 && argvars@[0].v_type == VarType::VAR_BLOB && argvars@[0]@.v is Blob && argvars@[0]@.v->Blob_0 is Some {
                bytes_as_numbers(argvars@[0]@.v->Blob_0->Some_0.bytes)
            } else { Seq::empty() },
            ..empty_list_val() })) }),
{
    let mut l = tv_list_alloc(0);
    if argvars.len() > 0 && argvars[0].v_type == VarType::VAR_BLOB {
        if let typval_vval_union::v_blob(Some(blob)) = &argvars[0].vval {
            let mut i: usize = 0;
            assert(bytes_as_numbers(blob@.bytes).subrange(0, 0) =~= Seq::<TypVal>::empty());
            while i < blob.bv_ga.len()
                invariant i <= blob.bv_ga@.len(),
                    l@ == (ListVal { items: bytes_as_numbers(blob@.bytes).subrange(0, i as int), ..empty_list_val() }),
                decreases blob.bv_ga@.len() - i,
            {
                let ghost before = l@.items;
                tv_list_append_number(&mut l, blob.bv_ga[i] as varnumber_T);
                assert(l@.items =~= bytes_as_numbers(blob@.bytes).subrange(0, i + 1));
                i += 1;
            }
            assert(bytes_as_numbers(blob@.bytes).subrange(0, blob@.bytes.len() as int) =~= bytes_as_numbers(blob@.bytes));
        }
    }
    rettv.v_type = VarType::VAR_LIST;
    rettv.vval = typval_vval_union::v_list(Some(l));
}

/// The bytes of a List of Numbers `0..=255`, or `None` at the first item that
/// is not one.
pub open spec fn list2blob_spec(items: Seq<TypVal>) -> Option<Seq<u8>>
    decreases items.len(),
{
    if items.len() == 0 {
        Some(Seq::empty())
    } else {
        match list2blob_spec(items.drop_last()) {
            None => None,
            Some(b) => match number_of(items.last()) {
                Some(n) => if 0 <= n <= 255 { Some(b.push(n as u8)) } else { None },
                None => None,
            },
        }
    }
}

proof fn lemma_list2blob_none_prefix(items: Seq<TypVal>, k: int)
    requires 0 <= k <= items.len(), list2blob_spec(items.subrange(0, k)) is None,
    ensures list2blob_spec(items) is None,
    decreases items.len() - k,
{
    if k < items.len() {
        assert(items.subrange(0, k + 1).drop_last() =~= items.subrange(0, k));
        lemma_list2blob_none_prefix(items, k + 1);
    } else {
        assert(items.subrange(0, k) =~= items);
    }
}

/// A Blob of the byte values in the List argument;
/// empty when the argument is not a List or an item is not a Number `0..=255`.
pub fn f_list2blob(argvars: &[typval_T], rettv: &mut typval_T)
    ensures
        final(rettv)@ == (TypVal { ty: VarType::VAR_BLOB, lock: old(rettv)@.lock, v: VVal::Blob(Some(BlobVal {
            bytes: if argvars@.len() > 0 && argvars@[0].v_type == VarType::VAR_LIST && argvars@[0]@.v is List && argvars@[0]@.v->List_0 is Some {
                match list2blob_spec(argvars@[0]@.v->List_0->Some_0.items) { Some(b) => b, None => Seq::empty() }
            } else { Seq::empty() },
            ..empty_blob_val() })) }),
{
    let mut bytes: Vec<u8> = Vec::new();
    if argvars.len() > 0 && argvars[0].v_type == VarType::VAR_LIST {
        if let typval_vval_union::v_list(Some(l)) = &argvars[0].vval {
            let ghost items = l@.items;
            proof { crate::typval_list::lemma_items_view_index_all(l.lv_items@); }
            let mut i: usize = 0;
            let mut failed = false;
            while i < l.lv_items.len() && !failed
                invariant i <= l.lv_items@.len(), items == l@.items, items.len() == l.lv_items@.len(),
                    forall|k: int| 0 <= k < items.len() ==> #[trigger] items[k] == tv_view(l.lv_items@[k]),
                    !failed ==> list2blob_spec(items.subrange(0, i as int)) == Some(bytes@),
                    failed ==> list2blob_spec(items) is None && bytes@.len() == 0,
                decreases l.lv_items@.len() - i + (if failed { 0int } else { 1int }),
            {
                assert(items.subrange(0, i + 1).drop_last() =~= items.subrange(0, i as int));
                let mut error = false;
                let n = tv_get_number_chk(&l.lv_items[i], Some(&mut error));
                if error || n < 0 || n > 255 {
                    proof { lemma_list2blob_none_prefix(items, i + 1); }
                    bytes = Vec::new();
                    failed = true;
                } else {
                    bytes.push(n as u8);
                    i += 1;
                }
            }
            if !failed {
                assert(items.subrange(0, items.len() as int) =~= items);
            } else {
                assert(bytes@ =~= Seq::<u8>::empty());
            }
        }
    }
    rettv.v_type = VarType::VAR_BLOB;
    rettv.vval = typval_vval_union::v_blob(Some(blob_T { bv_ga: bytes, bv_lock: VarLockStatus::VAR_UNLOCKED, bv_refcount: 0 }));
}

} // verus!
