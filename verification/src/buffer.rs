//! A list of buffers (number and file name each) and finding a buffer from a builtin's argument.
use vstd::prelude::*;
use crate::typval_defs::{
    varnumber_T, OK, FAIL, VarType, VarLockStatus, BoolVarValue, SpecialVarValue, typval_vval_union,
    typval_T, list_T, dict_T, dictitem_T, blob_T, partial_T, Callback, DictWatcher, TypVal, VVal,
    ListVal, DictVal, BlobVal, CallbackVal, WatcherVal, tv_view, list_view, dict_view, items_view, dict_index_of,
    mk_tv, num_tv, str_tv, list_tv, blob_tv, dict_tv, empty_dict_val, dict_wf, keys_unique,
    lemma_items_view_ext, lemma_items_view_index, lemma_items_view_push, lemma_items_view_subrange,
    lemma_items_view_add, lemma_items_view_reverse, lemma_items_view_update, lemma_items_view_insert,
    lemma_items_view_remove, lemma_items_view_empty,
};
use crate::charset::{nr2str, nr2bytes, str2nr, str2nr_all};
use crate::dup::{bytes_dup, tv_dup, list_dup, dict_dup, blob_dup, items_dup, slice_to_vec, callback_dup, append_bytes};
use crate::typval::{
    number_of, number_chk_result, string_of, string_or_empty, tv_get_number_chk, tv_get_number,
    tv_get_bool, tv_get_string, tv_get_string_chk, tv_get_string_buf_chk, tv_equal, tv_equal_spec,
    bytes_eq, dict_find_index,
};
use crate::mbyte::bytes_between;

verus! {

/// A buffer: its number and full file name.
#[derive(Debug)]
pub struct buf_T {
    pub b_fnum: i32,
    pub b_ffname: Vec<u8>,
    pub b_listed: bool,
}

/// The model of a buffer.
pub struct BufVal {
    pub fnum: i32,
    pub name: Seq<u8>,
    pub listed: bool,
}

impl View for buf_T {
    type V = BufVal;
    open spec fn view(&self) -> BufVal { BufVal { fnum: self.b_fnum, name: self.b_ffname@, listed: self.b_listed } }
}

/// The buffer list: the buffers in the order they were made, the current
/// buffer (an index into `bufs`) and the number the next buffer gets.
pub struct BufList {
    pub bufs: Vec<buf_T>,
    pub curbuf: Option<usize>,
    pub top_file_num: i32,
}

/// The model of the buffer list.
pub struct BufListVal {
    pub bufs: Seq<BufVal>,
    pub curbuf: Option<int>,
    pub top: int,
}

impl View for BufList {
    type V = BufListVal;
    open spec fn view(&self) -> BufListVal {
        BufListVal {
            bufs: Seq::new(self.bufs@.len(), |i: int| self.bufs@[i]@),
            curbuf: match self.curbuf { Some(i) => Some(i as int), None => None },
            top: self.top_file_num as int,
        }
    }
}

/// Flag of `buflist_new()`: the buffer is listed.
pub const BLN_LISTED: i32 = 2;

/// An empty buffer list; the first buffer gets number 1.
pub fn buflist_init() -> (r: BufList)
    ensures r@ == (BufListVal { bufs: Seq::empty(), curbuf: None, top: 1 }),
{
    let r = BufList { bufs: Vec::new(), curbuf: None, top_file_num: 1 };
    assert(r@.bufs =~= Seq::<BufVal>::empty());
    r
}

/// The index of the first buffer whose name is `name`, or -1.
pub open spec fn name_index(bufs: Seq<BufVal>, name: Seq<u8>, i: int) -> int
    decreases bufs.len() - i,
{
    if i < 0 || i >= bufs.len() { -1 } else if bufs[i].name == name { i } else { name_index(bufs, name, i + 1) }
}

/// The index of the first buffer numbered `nr`, or -1.
pub open spec fn fnum_index(bufs: Seq<BufVal>, nr: int, i: int) -> int
    decreases bufs.len() - i,
{
    if i < 0 || i >= bufs.len() { -1 } else if bufs[i].fnum == nr { i } else { fnum_index(bufs, nr, i + 1) }
}

/// A found index is in range and names the wanted buffer.
pub proof fn lemma_name_index(bufs: Seq<BufVal>, name: Seq<u8>, i: int)
    ensures
        name_index(bufs, name, i) >= 0 ==> i <= name_index(bufs, name, i) < bufs.len() && bufs[name_index(bufs, name, i)].name == name,
    decreases bufs.len() - i,
{
    if 0 <= i < bufs.len() && bufs[i].name != name {
        lemma_name_index(bufs, name, i + 1);
    }
}

fn find_name(list: &BufList, name: &[u8]) -> (r: Option<usize>)
    ensures
        match r {
            Some(i) => name_index(list@.bufs, name@, 0) == i as int && i < list.bufs@.len(),
            None => name_index(list@.bufs, name@, 0) < 0,
        },
{
    proof { lemma_name_index(list@.bufs, name@, 0); }
    let mut i: usize = 0;
    while i < list.bufs.len()
        invariant i <= list.bufs@.len(), name_index(list@.bufs, name@, 0) == name_index(list@.bufs, name@, i as int),
        decreases list.bufs@.len() - i,
    {
        if bytes_eq(list.bufs[i].b_ffname.as_slice(), name) {
            return Some(i);
        }
        i += 1;
    }
    None
}

/// Add a buffer for the file `name`, or find the one that already has it;
/// returns its number. The new buffer gets the next number; `None` when the
/// numbers are used up.
pub fn buflist_new(list: &mut BufList, name: &[u8], lnum: i32, flags: i32) -> (r: Option<i32>)
    ensures ({
        let i = name_index(old(list)@.bufs, name@, 0);
        if i >= 0 {
            r == Some(old(list)@.bufs[i].fnum) && final(list)@ == old(list)@
        } else if old(list)@.top < i32::MAX {
            r == Some(old(list)@.top as i32) && final(list)@ == (BufListVal {
                bufs: old(list)@.bufs.push(BufVal { fnum: old(list)@.top as i32, name: name@, listed: flags & BLN_LISTED != 0 }),
                top: old(list)@.top + 1, ..old(list)@ })
        } else {
            r is None && final(list)@ == old(list)@
        }
    }),
{
    proof { lemma_name_index(list@.bufs, name@, 0); }
    match find_name(list, name) {
        Some(i) => Some(list.bufs[i].b_fnum),
        None => {
            if list.top_file_num == i32::MAX {
                return None;
            }
            let n = list.top_file_num;
            let ghost ol = list@;
            list.bufs.push(buf_T { b_fnum: n, b_ffname: slice_to_vec(name), b_listed: flags & BLN_LISTED != 0 });
            list.top_file_num = n + 1;
            assert(list@.bufs =~= ol.bufs.push(BufVal { fnum: n, name: name@, listed: flags & BLN_LISTED != 0 }));
            Some(n)
        },
    }
}

/// The buffer numbered `nr`, if there is one.
pub fn buflist_findnr(list: &BufList, nr: i32) -> (r: Option<i32>)
    ensures
        fnum_index(list@.bufs, nr as int, 0) < 0 ==> r is None,
        fnum_index(list@.bufs, nr as int, 0) >= 0 ==> r == Some(nr),
{
    let mut i: usize = 0;
    while i < list.bufs.len()
        invariant i <= list.bufs@.len(), fnum_index(list@.bufs, nr as int, 0) == fnum_index(list@.bufs, nr as int, i as int),
        decreases list.bufs@.len() - i,
    {
        if list.bufs[i].b_fnum == nr {
            return Some(nr);
        }
        i += 1;
    }
    None
}

/// Whether `pat` occurs in `s`.
pub open spec fn contains_bytes(s: Seq<u8>, pat: Seq<u8>) -> bool {
    exists|k: int| 0 <= k && k + pat.len() <= s.len() && #[trigger] s.subrange(k, k + pat.len()) == pat
}

fn contains_bytes_exec(s: &[u8], pat: &[u8]) -> (r: bool)
    ensures r == contains_bytes(s@, pat@),
{
    if pat.len() > s.len() {
        assert forall|k: int| 0 <= k && k + pat@.len() <= s@.len() implies #[trigger] s@.subrange(k, k + pat@.len()) != pat@ by {}
        return false;
    }
    if pat.len() == 0 {
        assert(s@.subrange(0int, 0int + pat@.len()) =~= pat@);
        return true;
    }
    let slen: usize = s.len();
    let last: usize = slen - pat.len() + 1;
    let mut k: usize = 0;
    while k < last
        invariant
            1 <= pat@.len() <= s@.len(),
            last == slen - pat@.len() + 1, slen == s@.len(),
            k <= last,
            forall|j: int| 0 <= j < k ==> #[trigger] s@.subrange(j, j + pat@.len()) != pat@,
        decreases last - k,
    {
        assert(k + pat@.len() <= slen);
        if bytes_eq(bytes_between(s, k, k + pat.len()).as_slice(), pat) {
            return true;
        }
        k += 1;
    }
    assert forall|j: int| 0 <= j && j + pat@.len() <= s@.len() implies #[trigger] s@.subrange(j, j + pat@.len()) != pat@ by {
        assert(j < k);
    }
    false
}

/// The number of matches of `pat` among the buffer names from `i` on, capped
/// at two, and the number of the last one found.
pub open spec fn pat_matches(bufs: Seq<BufVal>, pat: Seq<u8>, i: int) -> (int, int)
    decreases bufs.len() - i,
{
    if i < 0 || i >= bufs.len() {
        (0, -1)
    } else {
        let (n, f) = pat_matches(bufs, pat, i + 1);
        if contains_bytes(bufs[i].name, pat) { (if n >= 2 { 2 } else { n + 1 }, bufs[i].fnum as int) } else { (n, f) }
    }
}

/// The number of the one buffer whose name contains `pat`; -1 when none
/// does, -2 when several do.
pub open spec fn findpat_spec(bufs: Seq<BufVal>, pat: Seq<u8>) -> int {
    let (n, f) = pat_matches(bufs, pat, 0);
    if n == 0 { -1 } else if n == 1 { f } else { -2 }
}

/// Find a buffer by a piece of its name: the number of the one buffer whose
/// name contains `pat`, -1 for none, -2 when it is ambiguous.
pub fn buflist_findpat(list: &BufList, pat: &[u8], unlisted: bool, diffmode: bool, curtab_only: bool) -> (r: i32)
    requires forall|i: int| 0 <= i < list@.bufs.len() ==> list@.bufs[i].fnum >= 1,
    ensures r as int == findpat_spec(list@.bufs, pat@),
{
    let mut count: i32 = 0;
    let mut found: i32 = -1;
    let mut i: usize = list.bufs.len();
    while i > 0
        invariant
            i <= list.bufs@.len(),
            forall|j: int| 0 <= j < list@.bufs.len() ==> list@.bufs[j].fnum >= 1,
            (count as int, found as int) == pat_matches(list@.bufs, pat@, i as int),
        decreases i,
    {
        i -= 1;
        if contains_bytes_exec(list.bufs[i].b_ffname.as_slice(), pat) {
            count = if count >= 2 { 2 } else { count + 1 };
            found = list.bufs[i].b_fnum;
        }
    }
    if count == 0 { -1 } else if count == 1 { found } else { -2 }
}

/// The buffer named exactly as the String value `tv`, if any.
pub fn find_buffer(list: &BufList, tv: &typval_T) -> (r: Option<i32>)
    ensures
        match tv@.v {
            VVal::Str(s) => if tv.v_type == VarType::VAR_STRING && name_index(list@.bufs, s, 0) >= 0 {
                r == Some(list@.bufs[name_index(list@.bufs, s, 0)].fnum) } else { r is None },
            _ => r is None,
        },
{
    if tv.v_type != VarType::VAR_STRING {
        return None;
    }
    match &tv.vval {
        typval_vval_union::v_string(s) => {
            proof { lemma_name_index(list@.bufs, s@, 0); }
            match find_name(list, s.as_slice()) {
                Some(i) => Some(list.bufs[i].b_fnum),
                None => None,
            }
        },
        _ => None,
    }
}

/// The buffer a value names: a Number is a buffer number; an empty String the
/// current buffer; `"$"` the last buffer; another String the one buffer whose
/// name contains it, else the buffer with exactly that name.
pub open spec fn tv_buf_spec(list: BufListVal, t: TypVal) -> Option<int> {
    if t.ty == VarType::VAR_NUMBER {
        match t.v {
            VVal::Number(n) => if fnum_index(list.bufs, (n as i32) as int, 0) >= 0 { Some((n as i32) as int) } else { None },
            _ => None,
        }
    } else if t.ty != VarType::VAR_STRING {
        None
    } else {
        match t.v {
            VVal::Str(s) => {
                if s.len() == 0 {
                    match list.curbuf { Some(c) => if 0 <= c < list.bufs.len() { Some(list.bufs[c].fnum as int) } else { None }, None => None }
                } else if s == seq![36u8] {
                    if list.bufs.len() > 0 { Some(list.bufs.last().fnum as int) } else { None }
                } else {
                    let p = findpat_spec(list.bufs, s);
                    if p >= 0 && fnum_index(list.bufs, p, 0) >= 0 { Some(p) }
                    else if name_index(list.bufs, s, 0) >= 0 { Some(list.bufs[name_index(list.bufs, s, 0)].fnum as int) }
                    else { None }
                }
            },
            _ => None,
        }
    }
}

/// The number of the buffer that `tv` names (see `tv_buf_spec`).
pub fn tv_get_buf(list: &BufList, tv: &typval_T, curtab_only: bool) -> (r: Option<i32>)
    requires forall|i: int| 0 <= i < list@.bufs.len() ==> list@.bufs[i].fnum >= 1,
    ensures
        match tv_buf_spec(list@, tv@) { Some(n) => r == Some(n as i32), None => r is None },
{
    if tv.v_type == VarType::VAR_NUMBER {
        return match &tv.vval {
            typval_vval_union::v_number(n) => buflist_findnr(list, *n as i32),
            _ => None,
        };
    }
    if tv.v_type != VarType::VAR_STRING {
        return None;
    }
    let name = match &tv.vval {
        typval_vval_union::v_string(s) => s,
        _ => { return None; },
    };
    if name.len() == 0 {
        return match list.curbuf {
            Some(c) => if c < list.bufs.len() { Some(list.bufs[c].b_fnum) } else { None },
            None => None,
        };
    }
    if name.len() == 1 && name[0] == 36u8 {
        assert(name@ =~= seq![36u8]);
        let n = list.bufs.len();
        return if n > 0 { Some(list.bufs[n - 1].b_fnum) } else { None };
    }
    proof {
        if name@ == seq![36u8] {
            assert(name@.len() == 1 && name@[0] == 36u8);
        }
    }
    let p = buflist_findpat(list, name.as_slice(), true, false, curtab_only);
    let mut buf = if p >= 0 { buflist_findnr(list, p) } else { None };
    if buf.is_none() {
        buf = find_buffer(list, tv);
    }
    buf
}

/// The message `tv_check_str_or_nr()` gives for a value that is not a
/// Number or a String.
pub open spec fn str_or_nr_error(t: VarType) -> Seq<u8> {
    let tail = seq![69u8, 120, 112, 101, 99, 116, 101, 100, 32, 97, 32, 78, 117, 109, 98, 101, 114, 32, 111, 114, 32, 97, 32, 83, 116, 114, 105, 110, 103];
    match t {
        VarType::VAR_FLOAT => seq![69u8, 56, 48, 53, 58, 32] + tail + seq![44u8, 32, 70, 108, 111, 97, 116, 32, 102, 111, 117, 110, 100],
        VarType::VAR_FUNC => seq![69u8, 55, 48, 51, 58, 32] + tail + seq![44u8, 32, 70, 117, 110, 99, 114, 101, 102, 32, 102, 111, 117, 110, 100],
        VarType::VAR_PARTIAL => seq![69u8, 55, 48, 51, 58, 32] + tail + seq![44u8, 32, 70, 117, 110, 99, 114, 101, 102, 32, 102, 111, 117, 110, 100],
        VarType::VAR_LIST => seq![69u8, 55, 52, 53, 58, 32] + tail + seq![44u8, 32, 76, 105, 115, 116, 32, 102, 111, 117, 110, 100],
        VarType::VAR_DICT => seq![69u8, 55, 50, 56, 58, 32] + tail + seq![44u8, 32, 68, 105, 99, 116, 105, 111, 110, 97, 114, 121, 32, 102, 111, 117, 110, 100],
        VarType::VAR_BLOB => seq![69u8, 57, 55, 52, 58, 32] + tail + seq![44u8, 32, 66, 108, 111, 98, 32, 102, 111, 117, 110, 100],
        VarType::VAR_BOOL => seq![69u8, 53, 50, 57, 57, 58, 32] + tail + seq![44u8, 32, 66, 111, 111, 108, 101, 97, 110, 32, 102, 111, 117, 110, 100],
        VarType::VAR_SPECIAL => seq![69u8, 53, 51, 48, 48, 58, 32] + tail,
        _ => seq![69u8, 54, 56, 53, 58, 32, 73, 110, 116, 101, 114, 110, 97, 108, 32, 101, 114, 114, 111, 114],
    }
}

fn str_or_nr_error_exec(t: VarType) -> (r: Vec<u8>)
    ensures r@ == str_or_nr_error(t),
{
    let mut tail: Vec<u8> = vec![69u8, 120, 112, 101, 99, 116, 101, 100, 32, 97, 32, 78, 117, 109, 98, 101, 114, 32, 111, 114, 32, 97, 32, 83, 116, 114, 105, 110, 103];
    let (head, kind): (Vec<u8>, Vec<u8>) = match t {
        VarType::VAR_FLOAT => (vec![69u8, 56, 48, 53, 58, 32], vec![44u8, 32, 70, 108, 111, 97, 116, 32, 102, 111, 117, 110, 100]),
        VarType::VAR_FUNC => (vec![69u8, 55, 48, 51, 58, 32], vec![44u8, 32, 70, 117, 110, 99, 114, 101, 102, 32, 102, 111, 117, 110, 100]),
        VarType::VAR_PARTIAL => (vec![69u8, 55, 48, 51, 58, 32], vec![44u8, 32, 70, 117, 110, 99, 114, 101, 102, 32, 102, 111, 117, 110, 100]),
        VarType::VAR_LIST => (vec![69u8, 55, 52, 53, 58, 32], vec![44u8, 32, 76, 105, 115, 116, 32, 102, 111, 117, 110, 100]),
        VarType::VAR_DICT => (vec![69u8, 55, 50, 56, 58, 32], vec![44u8, 32, 68, 105, 99, 116, 105, 111, 110, 97, 114, 121, 32, 102, 111, 117, 110, 100]),
        VarType::VAR_BLOB => (vec![69u8, 57, 55, 52, 58, 32], vec![44u8, 32, 66, 108, 111, 98, 32, 102, 111, 117, 110, 100]),
        VarType::VAR_BOOL => (vec![69u8, 53, 50, 57, 57, 58, 32], vec![44u8, 32, 66, 111, 111, 108, 101, 97, 110, 32, 102, 111, 117, 110, 100]),
        VarType::VAR_SPECIAL => (vec![69u8, 53, 51, 48, 48, 58, 32], Vec::new()),
        _ => {
            let r: Vec<u8> = vec![69u8, 54, 56, 53, 58, 32, 73, 110, 116, 101, 114, 110, 97, 108, 32, 101, 114, 114, 111, 114];
            assert(r@ =~= str_or_nr_error(t));
            return r;
        },
    };
    let mut out: Vec<u8> = Vec::new();
    append_bytes(&mut out, head.as_slice());
    append_bytes(&mut out, tail.as_slice());
    append_bytes(&mut out, kind.as_slice());
    assert(out@ =~= str_or_nr_error(t));
    out
}

/// Like `tv_get_buf()`, but a value that is neither a Number nor a String is
/// rejected with its error message (returned).
pub fn tv_get_buf_from_arg(list: &BufList, tv: &typval_T) -> (r: (Option<i32>, Option<Vec<u8>>))
    requires forall|i: int| 0 <= i < list@.bufs.len() ==> list@.bufs[i].fnum >= 1,
    ensures
        (tv.v_type == VarType::VAR_NUMBER || tv.v_type == VarType::VAR_STRING) ==> r.1 is None
            && match tv_buf_spec(list@, tv@) { Some(n) => r.0 == Some(n as i32), None => r.0 is None },
        !(tv.v_type == VarType::VAR_NUMBER || tv.v_type == VarType::VAR_STRING) ==> r.0 is None
            && r.1 is Some && r.1->Some_0@ == str_or_nr_error(tv.v_type),
{
    if tv.v_type != VarType::VAR_NUMBER && tv.v_type != VarType::VAR_STRING {
        return (None, Some(str_or_nr_error_exec(tv.v_type)));
    }
    (tv_get_buf(list, tv, false), None)
}

/// `E158: Invalid buffer name: NAME`.
pub open spec fn invalid_buffer_msg(name: Seq<u8>) -> Seq<u8> {
    seq![69u8, 49, 53, 56, 58, 32, 73, 110, 118, 97, 108, 105, 100, 32, 98, 117, 102, 102, 101, 114, 32, 110, 97, 109, 101, 58, 32] + name
}

/// The buffer `arg` names; when there is none, the error message E158 is
/// returned with it.
pub fn get_buf_arg(list: &BufList, arg: &typval_T) -> (r: (Option<i32>, Option<Vec<u8>>))
    requires forall|i: int| 0 <= i < list@.bufs.len() ==> list@.bufs[i].fnum >= 1,
    ensures
        match tv_buf_spec(list@, arg@) {
            Some(n) => r.0 == Some(n as i32) && r.1 is None,
            None => r.0 is None && r.1 is Some && r.1->Some_0@ == invalid_buffer_msg(string_or_empty(arg@)),
        },
{
    let buf = tv_get_buf(list, arg, false);
    match buf {
        Some(b) => (Some(b), None),
        None => {
            let mut msg: Vec<u8> = vec![69u8, 49, 53, 56, 58, 32, 73, 110, 118, 97, 108, 105, 100, 32, 98, 117, 102, 102, 101, 114, 32, 110, 97, 109, 101, 58, 32];
            assert(msg@ =~= seq![69u8, 49, 53, 56, 58, 32, 73, 110, 118, 97, 108, 105, 100, 32, 98, 117, 102, 102, 101, 114, 32, 110, 97, 109, 101, 58, 32]);
            let name = tv_get_string(arg);
            append_bytes(&mut msg, name.as_slice());
            (None, Some(msg))
        },
    }
}

} // verus!
