//! The interpreter's current buffer: its lines, cursor and marks, and the builtins that read and change them.
use vstd::prelude::*;
use crate::typval_defs::{
    varnumber_T, OK, FAIL, VarType, VarLockStatus, BoolVarValue, SpecialVarValue, typval_vval_union,
    typval_T, list_T, dict_T, dictitem_T, blob_T, partial_T, Callback, DictWatcher, TypVal, VVal,
    ListVal, DictVal, BlobVal, CallbackVal, WatcherVal, tv_view, list_view, dict_view, items_view, dict_index_of,
    mk_tv, num_tv, str_tv, list_tv, blob_tv, dict_tv, empty_dict_val, dict_wf, keys_unique,
    lemma_items_view_ext, lemma_items_view_index, lemma_items_view_push, lemma_items_view_subrange,
    lemma_items_view_add, lemma_items_view_reverse, lemma_items_view_update, lemma_items_view_insert,
    lemma_items_view_remove, lemma_items_view_empty,
};
use crate::charset::{nr2str, nr2bytes, str2nr, str2nr_all};
use crate::dup::{bytes_dup, tv_dup, list_dup, dict_dup, blob_dup, items_dup, slice_to_vec, callback_dup, append_bytes};
use crate::typval::{
    number_of, number_chk_result, string_of, string_or_empty, tv_get_number_chk, tv_get_number,
    tv_get_bool, tv_get_string, tv_get_string_chk, tv_get_string_buf_chk, tv_equal, tv_equal_spec,
    bytes_eq, dict_find_index,
};
use crate::typval_list::{lemma_items_view_index_all, tv_list_alloc, empty_list_val};
use crate::typval_dict::lemma_dict_view_parts;
use crate::funcs_basic::{with_number, set_number, set_list, with_list, with_string, set_string};
use crate::mbyte::{bytes_between, first_char_code, char_code_at, char2bytes, char_to_bytes};
use crate::charset::{utf8_split, utf8_chars, char_len_at};
use crate::charset::char_len_exec;

verus! {

// ── the buffer ──

/// A mark: its name (a character, by code point) and its position.
#[derive(Clone, Copy, Debug, PartialEq, Eq, Structural)]
pub struct Mark {
    pub name: u32,
    pub lnum: i64,
    pub col: i64,
}

/// The interpreter's current buffer: its lines (none stands for a single
/// empty line), the cursor (line, column, wanted column, all from 1) and
/// the marks, ordered by name.
pub struct TextBuf {
    pub lines: Vec<Vec<u8>>,
    pub cur_lnum: i64,
    pub cur_col: i64,
    pub curswant: i64,
    pub marks: Vec<Mark>,
}

/// The model of a `TextBuf`.
pub struct TextBufVal {
    pub lines: Seq<Seq<u8>>,
    pub cur_lnum: int,
    pub cur_col: int,
    pub curswant: int,
    pub marks: Seq<Mark>,
}

impl View for TextBuf {
    type V = TextBufVal;
    open spec fn view(&self) -> TextBufVal {
        TextBufVal {
            lines: Seq::new(self.lines@.len(), |i: int| self.lines@[i]@),
            cur_lnum: self.cur_lnum as int,
            cur_col: self.cur_col as int,
            curswant: self.curswant as int,
            marks: self.marks@,
        }
    }
}

/// The marks are ordered by name, no name twice.
pub open spec fn marks_sorted(m: Seq<Mark>) -> bool {
    forall|i: int, j: int| 0 <= i < j < m.len() ==> m[i].name < m[j].name
}

/// Well-formed buffer: ordered marks, and numbers of lines and of bytes in
/// a line that fit a Number.
pub open spec fn textbuf_wf(b: TextBufVal) -> bool {
    &&& marks_sorted(b.marks)
    &&& forall|i: int| 0 <= i < b.marks.len() ==> (#[trigger] b.marks[i]).name <= 0x13_ffff
    &&& b.lines.len() < i64::MAX
    &&& forall|i: int| 0 <= i < b.lines.len() ==> (#[trigger] b.lines[i]).len() < i64::MAX
}

/// A new buffer: one empty line, the cursor at its start, no marks.
pub fn textbuf_new() -> (r: TextBuf)
    ensures
        textbuf_wf(r@),
        r@.lines.len() == 0, r@.cur_lnum == 1, r@.cur_col == 1, r@.curswant == 1, r@.marks.len() == 0,
{
    TextBuf { lines: Vec::new(), cur_lnum: 1, cur_col: 1, curswant: 1, marks: Vec::new() }
}

/// The lines as they read: a buffer without lines has one empty line.
pub open spec fn eff_lines(b: TextBufVal) -> Seq<Seq<u8>> {
    if b.lines.len() == 0 { seq![Seq::<u8>::empty()] } else { b.lines }
}

/// The number of lines (at least 1).
pub open spec fn buf_len(b: TextBufVal) -> int {
    eff_lines(b).len() as int
}

pub open spec fn clamp(v: int, lo: int, hi: int) -> int {
    if v < lo { lo } else if v > hi { hi } else { v }
}

/// Lines `start` to `end` (from 1, both included), within the buffer.
pub open spec fn lines_range(b: TextBufVal, start: int, end: int) -> Seq<Seq<u8>> {
    let l = eff_lines(b);
    let s = if start < 1 { 1 } else { start };
    let e = if end > l.len() { l.len() as int } else { end };
    if s > e { Seq::empty() } else { l.subrange(s - 1, e) }
}

proof fn lemma_view_lines(b: &TextBuf)
    ensures
        b@.lines.len() == b.lines@.len(),
        forall|i: int| 0 <= i < b.lines@.len() ==> #[trigger] b@.lines[i] == b.lines@[i]@,
{
}

/// The number of lines.
pub fn curbuf_len(b: &TextBuf) -> (r: i64)
    requires textbuf_wf(b@),
    ensures r as int == buf_len(b@),
{
    if b.lines.len() == 0 { 1 } else { b.lines.len() as i64 }
}

/// Line `lnum` (from 1) of the buffer, which has it.
fn line_at(b: &TextBuf, lnum: i64) -> (r: Vec<u8>)
    requires 1 <= lnum <= buf_len(b@),
    ensures r@ == eff_lines(b@)[lnum - 1],
{
    if b.lines.len() == 0 {
        Vec::new()
    } else {
        bytes_dup(&b.lines[(lnum - 1) as usize])
    }
}

/// Lines `start` to `end` (from 1, both included) that the buffer has.
pub fn get_buffer_lines(b: &TextBuf, start: i64, end: i64) -> (r: Vec<Vec<u8>>)
    requires textbuf_wf(b@),
    ensures
        r@.len() == lines_range(b@, start as int, end as int).len(),
        forall|i: int| 0 <= i < r@.len() ==> #[trigger] r@[i]@ == lines_range(b@, start as int, end as int)[i],
{
    let len = curbuf_len(b);
    let s: i64 = if start < 1 { 1 } else { start };
    let e: i64 = if end > len { len } else { end };
    let mut out: Vec<Vec<u8>> = Vec::new();
    if s > e {
        return out;
    }
    let mut k: i64 = s;
    while k <= e
        invariant
            1 <= s <= k, k <= e + 1, e <= len, len == buf_len(b@), textbuf_wf(b@),
            out@.len() == k - s,
            forall|i: int| 0 <= i < out@.len() ==> #[trigger] out@[i]@ == eff_lines(b@)[s - 1 + i],
        decreases e + 1 - k,
    {
        out.push(line_at(b, k));
        k += 1;
    }
    out
}

// ── numbers in lines ──

/// Whether `s` is one or more decimal digits.
pub open spec fn all_digits(s: Seq<u8>) -> bool {
    s.len() > 0 && forall|i: int| 0 <= i < s.len() ==> 48 <= #[trigger] s[i] <= 57
}

/// The value of decimal digits.
pub open spec fn digits_value(s: Seq<u8>) -> int
    decreases s.len(),
{
    if s.len() == 0 { 0 } else { digits_value(s.drop_last()) * 10 + (s.last() - 48) }
}

/// A whole String read as a decimal Number (a sign may come first); `None`
/// when it is not one or does not fit 64 bits.
pub open spec fn parse_int(s: Seq<u8>) -> Option<int> {
    let signed = s.len() > 0 && (s[0] == 43u8 || s[0] == 45u8);
    let ds = if signed { s.subrange(1, s.len() as int) } else { s };
    if !all_digits(ds) {
        None
    } else {
        let v = if signed && s[0] == 45u8 { -digits_value(ds) } else { digits_value(ds) };
        if i64::MIN <= v <= i64::MAX { Some(v) } else { None }
    }
}

proof fn lemma_digits_value_nonneg(s: Seq<u8>)
    requires forall|i: int| 0 <= i < s.len() ==> 48 <= #[trigger] s[i] <= 57,
    ensures digits_value(s) >= 0,
    decreases s.len(),
{
    if s.len() > 0 {
        lemma_digits_value_nonneg(s.drop_last());
    }
}

/// `s` read as a decimal Number with an optional sign.
#[verifier::rlimit(40)]
pub fn parse_int_exec(s: &[u8]) -> (r: Option<i64>)
    ensures
        match parse_int(s@) {
            None => r is None,
            Some(v) => r is Some && r->Some_0 as int == v,
        },
{
    let signed = s.len() > 0 && (s[0] == 43u8 || s[0] == 45u8);
    let start: usize = if signed { 1 } else { 0 };
    let ghost ds = if signed { s@.subrange(1, s@.len() as int) } else { s@ };
    if s.len() == start {
        return None;
    }
    let mut acc: i128 = 0;
    let mut big = false;
    let mut i: usize = start;
    while i < s.len()
        invariant
            start <= i <= s@.len(), ds.len() == s@.len() - start, start < s@.len(),
            signed == (s@.len() > 0 && (s@[0] == 43u8 || s@[0] == 45u8)),
            ds == (if signed { s@.subrange(1, s@.len() as int) } else { s@ }),
            acc >= 0,
            forall|k: int| 0 <= k < ds.len() ==> ds[k] == s@[start + k],
            forall|k: int| 0 <= k < i - start ==> 48 <= #[trigger] ds[k] <= 57,
            !big ==> acc == digits_value(ds.subrange(0, i - start)) && acc <= 0x8000_0000_0000_0000,
            big ==> digits_value(ds.subrange(0, i - start)) > 0x8000_0000_0000_0000,
        decreases s.len() - i,
    {
        let c = s[i];
        if c < 48 || c > 57 {
            assert(!all_digits(ds)) by { assert(ds[i - start] == c); }
            return None;
        }
        let ghost pre = ds.subrange(0, i - start);
        assert(ds.subrange(0, i - start + 1).drop_last() =~= pre);
        proof { lemma_digits_value_nonneg(pre); }
        if !big {
            acc = acc * 10 + (c - 48) as i128;
            if acc > 0x8000_0000_0000_0000 {
                big = true;
            }
        } else {
            assert(digits_value(ds.subrange(0, i - start + 1)) >= digits_value(pre) * 10);
        }
        i += 1;
    }
    assert(ds.subrange(0, ds.len() as int) =~= ds);
    if big {
        return None;
    }
    let v: i128 = if signed && s[0] == 45u8 { -acc } else { acc };
    if v < -0x8000_0000_0000_0000 || v > 0x7fff_ffff_ffff_ffff {
        None
    } else {
        Some(v as i64)
    }
}

// ── marks ──

/// The mark called `name`, if there is one.
pub open spec fn mark_of(marks: Seq<Mark>, name: u32) -> Option<Mark>
    decreases marks.len(),
{
    if marks.len() == 0 {
        None
    } else if marks.last().name == name {
        Some(marks.last())
    } else {
        mark_of(marks.drop_last(), name)
    }
}

/// How many marks have a name before `name`.
pub open spec fn marks_before(marks: Seq<Mark>, name: u32) -> int
    decreases marks.len(),
{
    if marks.len() == 0 {
        0
    } else {
        marks_before(marks.drop_last(), name) + if marks.last().name < name { 1int } else { 0int }
    }
}

/// The marks once mark `name` is set to (`lnum`, `col`).
pub open spec fn marks_set(marks: Seq<Mark>, name: u32, lnum: int, col: int) -> Seq<Mark> {
    let i = marks_before(marks, name);
    let m = Mark { name, lnum: lnum as i64, col: col as i64 };
    if i < marks.len() && marks[i].name == name { marks.update(i, m) } else { marks.insert(i, m) }
}

proof fn lemma_marks_before(marks: Seq<Mark>, name: u32)
    requires marks_sorted(marks),
    ensures
        0 <= marks_before(marks, name) <= marks.len(),
        forall|k: int| 0 <= k < marks_before(marks, name) ==> (#[trigger] marks[k]).name < name,
        forall|k: int| marks_before(marks, name) <= k < marks.len() ==> (#[trigger] marks[k]).name >= name,
    decreases marks.len(),
{
    if marks.len() > 0 {
        let d = marks.drop_last();
        lemma_marks_before(d, name);
        assert forall|k: int| 0 <= k < marks_before(marks, name) implies (#[trigger] marks[k]).name < name by {
            if k < d.len() { assert(marks[k] == d[k]); }
        }
        assert forall|k: int| marks_before(marks, name) <= k < marks.len() implies (#[trigger] marks[k]).name >= name by {
            if k < d.len() {
                assert(marks[k] == d[k]);
                if marks.last().name < name {
                    assert(marks[k].name < marks.last().name);
                }
            }
        }
    }
}

proof fn lemma_mark_of(marks: Seq<Mark>, name: u32)
    requires marks_sorted(marks),
    ensures
        mark_of(marks, name) is Some <==> (exists|k: int| 0 <= k < marks.len() && (#[trigger] marks[k]).name == name),
        mark_of(marks, name) is Some ==> mark_of(marks, name)->Some_0.name == name
            && marks_before(marks, name) < marks.len() && marks[marks_before(marks, name)] == mark_of(marks, name)->Some_0,
    decreases marks.len(),
{
    lemma_marks_before(marks, name);
    if marks.len() > 0 {
        let d = marks.drop_last();
        lemma_mark_of(d, name);
        lemma_marks_before(d, name);
        if marks.last().name != name {
            if exists|k: int| 0 <= k < marks.len() && (#[trigger] marks[k]).name == name {
                let k = choose|k: int| 0 <= k < marks.len() && (#[trigger] marks[k]).name == name;
                assert(d[k] == marks[k]);
            }
            if mark_of(d, name) is Some {
                assert(d[marks_before(d, name)] == marks[marks_before(d, name)]);
            }
        } else {
            assert(marks[marks.len() - 1].name == name);
        }
    }
}

/// Where mark `name` is, or `None`.
pub fn getmark(b: &TextBuf, name: u32) -> (r: Option<(i64, i64)>)
    requires textbuf_wf(b@),
    ensures
        match mark_of(b@.marks, name) {
            None => r is None,
            Some(m) => r == Some((m.lnum, m.col)),
        },
{
    proof { lemma_mark_of(b@.marks, name); }
    let mut i: usize = 0;
    while i < b.marks.len()
        invariant
            i <= b.marks@.len(), marks_sorted(b.marks@),
            forall|k: int| 0 <= k < i ==> (#[trigger] b.marks@[k]).name != name,
            mark_of(b@.marks, name) is Some <==> (exists|k: int| 0 <= k < b.marks@.len() && (#[trigger] b.marks@[k]).name == name),
        decreases b.marks.len() - i,
    {
        if b.marks[i].name == name {
            proof {
                lemma_marks_before(b.marks@, name);
                lemma_mark_of(b.marks@, name);
                let mb = marks_before(b.marks@, name);
                assert(b.marks@[i as int].name == name);
                if (i as int) < mb {
                    assert(b.marks@[i as int].name < name);
                } else if (i as int) > mb {
                    assert(b.marks@[mb].name < b.marks@[i as int].name);
                }
            }
            return Some((b.marks[i].lnum, b.marks[i].col));
        }
        i += 1;
    }
    None
}

/// Set mark `name` to (`lnum`, `col`).
pub fn setmark(b: &mut TextBuf, name: u32, lnum: i64, col: i64)
    requires textbuf_wf(old(b)@), name <= 0x13_ffff,
    ensures
        textbuf_wf(final(b)@),
        final(b)@ == (TextBufVal { marks: marks_set(old(b)@.marks, name, lnum as int, col as int), ..old(b)@ }),
{
    proof { lemma_marks_before(b.marks@, name); }
    let ghost om = b.marks@;
    let mut i: usize = 0;
    while i < b.marks.len() && b.marks[i].name < name
        invariant
            i <= b.marks@.len(), b.marks@ == om, marks_sorted(om),
            forall|k: int| 0 <= k < i ==> (#[trigger] om[k]).name < name,
            0 <= marks_before(om, name) <= om.len(),
            forall|k: int| 0 <= k < marks_before(om, name) ==> (#[trigger] om[k]).name < name,
            forall|k: int| marks_before(om, name) <= k < om.len() ==> (#[trigger] om[k]).name >= name,
        decreases b.marks.len() - i,
    {
        i += 1;
    }
    assert(i as int == marks_before(om, name)) by {
        if (i as int) < marks_before(om, name) {
            assert(om[i as int].name < name);
        }
        if (i as int) > marks_before(om, name) {
            assert(om[marks_before(om, name)].name < name);
        }
    }
    let m = Mark { name, lnum, col };
    if i < b.marks.len() && b.marks[i].name == name {
        b.marks.set(i, m);
    } else {
        b.marks.insert(i, m);
    }
}

// ── line numbers and the cursor ──

/// `"."`, `"$"`, `"w$"`, `"w0"`.
pub open spec fn dot_bytes() -> Seq<u8> { seq![46u8] }
pub open spec fn dollar_bytes() -> Seq<u8> { seq![36u8] }
pub open spec fn wdollar_bytes() -> Seq<u8> { seq![119u8, 36] }
pub open spec fn wzero_bytes() -> Seq<u8> { seq![119u8, 48] }

/// The line a line argument names: for a String `"."` the cursor line,
/// `"$"` and `"w$"` the last line, `"w0"` the first, `'x` the line of mark
/// x (0 when it is not set), else the String read as a Number (0 when it is
/// not one); any other value as a Number.
pub open spec fn lnum_of(b: TextBufVal, t: TypVal) -> int {
    if t.ty == VarType::VAR_STRING {
        let s = string_or_empty(t);
        if s == dot_bytes() {
            b.cur_lnum
        } else if s == dollar_bytes() || s == wdollar_bytes() {
            buf_len(b)
        } else if s == wzero_bytes() {
            1
        } else if s.len() > 0 && s[0] == 39u8 {
            if s.len() > 1 {
                match mark_of(b.marks, first_char_code(s.subrange(1, s.len() as int)) as u32) {
                    Some(m) => m.lnum as int,
                    None => 0,
                }
            } else {
                0
            }
        } else {
            match parse_int(s) { Some(v) => v, None => 0 }
        }
    } else {
        number_chk_result(t, true)
    }
}

fn bytes_is(s: &Vec<u8>, lit: &[u8]) -> (r: bool)
    ensures r == (s@ == lit@),
{
    bytes_eq(s.as_slice(), lit)
}

pub(crate) proof fn lemma_first_char_code_bound(s: Seq<u8>)
    ensures 0 <= first_char_code(s) <= 0x13_ffff,
{
    if s.len() > 0 {
        let n = char_len_at(s, 0);
        let c = s.subrange(0, n);
        if n == 2 {
            assert(c[0] == s[0] && c[1] == s[1]);
        } else if n == 3 {
            assert(c[0] == s[0] && c[1] == s[1] && c[2] == s[2]);
        } else if n == 4 {
            assert(c[0] == s[0] && c[1] == s[1] && c[2] == s[2] && c[3] == s[3]);
        } else {
            assert(c[0] == s[0]);
        }
    }
}

/// The code point of the character after the first byte of `s`.
fn mark_name_of(s: &Vec<u8>) -> (r: u32)
    requires s@.len() > 1,
    ensures r == first_char_code(s@.subrange(1, s@.len() as int)) as u32, r <= 0x13_ffff,
{
    proof { lemma_first_char_code_bound(s@.subrange(1, s@.len() as int)); }
    let rest = bytes_between(s.as_slice(), 1, s.len());
    char_code_at(rest.as_slice(), 0) 
}

/// The line a line argument names (see `lnum_of`).
pub fn tv_get_lnum(b: &TextBuf, tv: &typval_T) -> (r: i64)
    requires textbuf_wf(b@),
    ensures r as int == lnum_of(b@, tv@),
{
    if tv.v_type == VarType::VAR_STRING {
        let s = tv_get_string(tv);
        let dot: [u8; 1] = [46u8];
        let dl: [u8; 1] = [36u8];
        let wd: [u8; 2] = [119u8, 36];
        let wz: [u8; 2] = [119u8, 48];
        assert(dot@ =~= dot_bytes());
        assert(dl@ =~= dollar_bytes());
        assert(wd@ =~= wdollar_bytes());
        assert(wz@ =~= wzero_bytes());
        if bytes_is(&s, &dot) {
            b.cur_lnum
        } else if bytes_is(&s, &dl) || bytes_is(&s, &wd) {
            curbuf_len(b)
        } else if bytes_is(&s, &wz) {
            1
        } else if s.len() > 0 && s[0] == 39u8 {
            if s.len() > 1 {
                match getmark(b, mark_name_of(&s)) {
                    Some((l, _)) => l,
                    None => 0,
                }
            } else {
                0
            }
        } else {
            match parse_int_exec(s.as_slice()) {
                Some(v) => v,
                None => 0,
            }
        }
    } else {
        tv_get_number(tv)
    }
}

/// The buffer once the cursor moves to line `lnum`, column `col`, each
/// kept within the buffer (the column may be one past the end of the line).
pub open spec fn cursor_set(b: TextBufVal, lnum: int, col: int) -> TextBufVal {
    let l = clamp(lnum, 1, buf_len(b));
    let c = clamp(col, 1, eff_lines(b)[l - 1].len() as int + 1);
    TextBufVal { cur_lnum: l, cur_col: c, curswant: c, ..b }
}

/// Move the cursor to line `lnum`, column `col`, within the buffer.
pub fn set_cursorpos(b: &mut TextBuf, lnum: i64, col: i64)
    requires textbuf_wf(old(b)@),
    ensures final(b)@ == cursor_set(old(b)@, lnum as int, col as int), textbuf_wf(final(b)@),
{
    let len = curbuf_len(b);
    let l: i64 = if lnum < 1 { 1 } else if lnum > len { len } else { lnum };
    let line = line_at(b, l);
    let ll = line.len();
    let c: i64 = if col < 1 { 1 } else if (col as i128) > (ll as i128) + 1 { ((ll as i128) + 1) as i64 } else { col };
    b.cur_lnum = l;
    b.cur_col = c;
    b.curswant = c;
    assert(final(b)@.lines =~= old(b)@.lines);
}

// ── changing lines ──

/// The buffer and status once `new` lines are put at line `lnum`: after it
/// (`append`; 0 puts them first), or over the lines from it (lines past the
/// end are added). Replacing from a line below 1 fails with status 1.
pub open spec fn lines_set(b: TextBufVal, lnum: int, new: Seq<Seq<u8>>, append: bool) -> (TextBufVal, int) {
    let l = eff_lines(b);
    if append {
        let pos = clamp(lnum, 0, l.len() as int);
        (TextBufVal { lines: l.subrange(0, pos) + new + l.subrange(pos, l.len() as int), ..b }, 0)
    } else if lnum < 1 {
        (TextBufVal { lines: l, ..b }, 1)
    } else if lnum - 1 > l.len() {
        (TextBufVal { lines: l, ..b }, 0)
    } else {
        let st = lnum - 1;
        let tail = if st + new.len() < l.len() { l.subrange(st + new.len(), l.len() as int) } else { Seq::<Seq<u8>>::empty() };
        (TextBufVal { lines: l.subrange(0, st) + new + tail, ..b }, 0)
    }
}

/// The buffer and status once lines `first` to `last` go; an invalid range
/// fails with status 1. A buffer left without lines keeps one empty line.
pub open spec fn lines_delete(b: TextBufVal, first: int, last: int) -> (TextBufVal, int) {
    let len = buf_len(b);
    if first < 1 || first > len || last < first {
        (b, 1)
    } else {
        let l = eff_lines(b);
        let hi = if last < l.len() { last } else { l.len() as int };
        let rest = l.subrange(0, first - 1) + l.subrange(hi, l.len() as int);
        (TextBufVal { lines: if rest.len() == 0 { seq![Seq::<u8>::empty()] } else { rest }, ..b }, 0)
    }
}

/// The lines a text argument gives: the Strings of a List's items, or the
/// String of any other value.
pub open spec fn lines_arg(t: TypVal) -> Seq<Seq<u8>> {
    match (t.ty, t.v) {
        (VarType::VAR_LIST, VVal::List(Some(l))) => Seq::new(l.items.len(), |i: int| string_or_empty(l.items[i])),
        _ => seq![string_or_empty(t)],
    }
}

/// Copy lines `lo..hi` of `src` to the end of `out`.
fn push_lines(out: &mut Vec<Vec<u8>>, src: &Vec<Vec<u8>>, lo: usize, hi: usize)
    requires lo <= hi <= src@.len(),
    ensures
        final(out)@.len() == old(out)@.len() + (hi - lo),
        forall|i: int| 0 <= i < old(out)@.len() ==> #[trigger] final(out)@[i] == old(out)@[i],
        forall|k: int| old(out)@.len() <= k < final(out)@.len() ==> #[trigger] final(out)@[k]@ == src@[lo + k - old(out)@.len()]@,
{
    let ghost base = out@;
    let mut k: usize = lo;
    while k < hi
        invariant
            lo <= k <= hi, hi <= src@.len(),
            out@.len() == base.len() + (k - lo),
            forall|i: int| 0 <= i < base.len() ==> #[trigger] out@[i] == base[i],
            forall|j: int| base.len() <= j < out@.len() ==> #[trigger] out@[j]@ == src@[lo + j - base.len()]@,
        decreases hi - k,
    {
        out.push(bytes_dup(&src[k]));
        k += 1;
    }
}

/// The models of several lines.
pub open spec fn lines_view(v: Seq<Vec<u8>>) -> Seq<Seq<u8>> {
    Seq::new(v.len(), |i: int| v[i]@)
}

/// The lines of the buffer as they read (one empty line when there is none).
fn eff_lines_exec(b: &TextBuf) -> (r: Vec<Vec<u8>>)
    ensures lines_view(r@) == eff_lines(b@),
{
    let mut r: Vec<Vec<u8>> = Vec::new();
    if b.lines.len() == 0 {
        r.push(Vec::new());
        assert(lines_view(r@) =~= eff_lines(b@));
    } else {
        push_lines(&mut r, &b.lines, 0, b.lines.len());
        assert(lines_view(r@) =~= eff_lines(b@));
    }
    r
}

/// Put `new` lines at line `lnum` (see `lines_set`); the status.
pub fn set_buffer_lines(b: &mut TextBuf, lnum: i64, new: &Vec<Vec<u8>>, append: bool) -> (r: i64)
    requires
        textbuf_wf(old(b)@), old(b)@.lines.len() + new@.len() + 1 < i64::MAX,
        forall|i: int| 0 <= i < lines_view(new@).len() ==> (#[trigger] lines_view(new@)[i]).len() < i64::MAX,
    ensures
        final(b)@ == lines_set(old(b)@, lnum as int, lines_view(new@), append).0,
        r as int == lines_set(old(b)@, lnum as int, lines_view(new@), append).1,
        textbuf_wf(final(b)@),
{
    let l = eff_lines_exec(b);
    let n = l.len();
    let ghost lv = eff_lines(b@);
    let ghost nv = lines_view(new@);
    let mut out: Vec<Vec<u8>> = Vec::new();
    let r: i64;
    if append {
        let pos: usize = if lnum < 0 { 0 } else if lnum > n as i64 { n } else { lnum as usize };
        push_lines(&mut out, &l, 0, pos);
        push_lines(&mut out, new, 0, new.len());
        push_lines(&mut out, &l, pos, n);
        assert(lines_view(out@) =~= lv.subrange(0, pos as int) + nv + lv.subrange(pos as int, n as int));
        r = 0;
    } else if lnum < 1 {
        push_lines(&mut out, &l, 0, n);
        assert(lines_view(out@) =~= lv);
        r = 1;
    } else if lnum - 1 > n as i64 {
        push_lines(&mut out, &l, 0, n);
        assert(lines_view(out@) =~= lv);
        r = 0;
    } else {
        let st = (lnum - 1) as usize;
        push_lines(&mut out, &l, 0, st);
        push_lines(&mut out, new, 0, new.len());
        if new.len() < n - st {
            push_lines(&mut out, &l, st + new.len(), n);
            assert(lines_view(out@) =~= lv.subrange(0, st as int) + nv + lv.subrange(st + nv.len(), n as int));
        } else {
            assert(lines_view(out@) =~= lv.subrange(0, st as int) + nv + Seq::<Seq<u8>>::empty());
        }
        r = 0;
    }
    b.lines = out;
    assert(b@.lines =~= lines_set(old(b)@, lnum as int, nv, append).0.lines);
    r
}

/// Delete lines `first` to `last` (see `lines_delete`); the status.
pub fn delete_buffer_lines(b: &mut TextBuf, first: i64, last: i64) -> (r: i64)
    requires textbuf_wf(old(b)@),
    ensures
        final(b)@ == lines_delete(old(b)@, first as int, last as int).0,
        r as int == lines_delete(old(b)@, first as int, last as int).1,
        textbuf_wf(final(b)@),
{
    let len = curbuf_len(b);
    if first < 1 || first > len || last < first {
        return 1;
    }
    let l = eff_lines_exec(b);
    let n = l.len();
    let ghost lv = eff_lines(b@);
    let hi: usize = if last < n as i64 { last as usize } else { n };
    let mut out: Vec<Vec<u8>> = Vec::new();
    push_lines(&mut out, &l, 0, (first - 1) as usize);
    push_lines(&mut out, &l, hi, n);
    assert(lines_view(out@) =~= lv.subrange(0, first - 1) + lv.subrange(hi as int, n as int));
    if out.len() == 0 {
        out.push(Vec::new());
        assert(lines_view(out@) =~= seq![Seq::<u8>::empty()]);
    }
    b.lines = out;
    assert(b@.lines =~= lines_delete(old(b)@, first as int, last as int).0.lines);
    0
}

/// The lines a text argument gives (see `lines_arg`).
pub fn tv_lines_arg(tv: &typval_T) -> (r: Vec<Vec<u8>>)
    ensures lines_view(r@) == lines_arg(tv@),
{
    let mut out: Vec<Vec<u8>> = Vec::new();
    match (&tv.v_type, &tv.vval) {
        (VarType::VAR_LIST, typval_vval_union::v_list(Some(l))) => {
            proof { lemma_items_view_index_all(l.lv_items@); }
            let mut i: usize = 0;
            while i < l.lv_items.len()
                invariant
                    i <= l.lv_items@.len(), out@.len() == i,
                    forall|k: int| 0 <= k < i ==> #[trigger] out@[k]@ == string_or_empty(l@.items[k]),
                decreases l.lv_items.len() - i,
            {
                out.push(tv_get_string(&l.lv_items[i]));
                i += 1;
            }
            assert(lines_view(out@) =~= lines_arg(tv@));
        },
        _ => {
            out.push(tv_get_string(tv));
            assert(lines_view(out@) =~= lines_arg(tv@));
        },
    }
    out
}

// ── builtins that read lines ──

/// String values of lines.
pub open spec fn str_values(lines: Seq<Seq<u8>>) -> Seq<TypVal> {
    Seq::new(lines.len(), |i: int| str_tv(lines[i]))
}

/// A line, or the empty String when there is none.
pub open spec fn first_or_empty(lines: Seq<Seq<u8>>) -> Seq<u8> {
    if lines.len() > 0 { lines[0] } else { Seq::empty() }
}

fn str_values_exec(lines: Vec<Vec<u8>>) -> (r: Vec<typval_T>)
    ensures items_view(r@) == str_values(lines_view(lines@)),
{
    let mut out: Vec<typval_T> = Vec::new();
    let mut i: usize = 0;
    while i < lines.len()
        invariant
            i <= lines@.len(), out@.len() == i,
            forall|k: int| 0 <= k < i ==> #[trigger] out@[k]@ == str_tv(lines@[k]@),
        decreases lines.len() - i,
    {
        out.push(typval_T { v_type: VarType::VAR_STRING, v_lock: VarLockStatus::VAR_UNLOCKED, vval: typval_vval_union::v_string(bytes_dup(&lines[i])) });
        i += 1;
    }
    proof { lemma_items_view_index_all(out@); }
    assert forall|k: int| 0 <= k < out@.len() implies #[trigger] items_view(out@)[k] == str_values(lines_view(lines@))[k] by {
        assert(out@[k]@ == str_tv(lines@[k]@));
    }
    assert(items_view(out@) =~= str_values(lines_view(lines@)));
    out
}

pub(crate) fn str_value(s: Vec<u8>) -> (r: typval_T)
    ensures r@ == str_tv(s@),
{
    typval_T { v_type: VarType::VAR_STRING, v_lock: VarLockStatus::VAR_UNLOCKED, vval: typval_vval_union::v_string(s) }
}

pub(crate) fn num_value(n: i64) -> (r: typval_T)
    ensures r@ == num_tv(n as int),
{
    typval_T { v_type: VarType::VAR_NUMBER, v_lock: VarLockStatus::VAR_UNLOCKED, vval: typval_vval_union::v_number(n) }
}

/// A line or the empty String.
fn first_line(lines: Vec<Vec<u8>>) -> (r: Vec<u8>)
    ensures r@ == first_or_empty(lines_view(lines@)),
{
    if lines.len() > 0 { bytes_dup(&lines[0]) } else { Vec::new() }
}

/// Make `rettv` a new List of the lines.
fn set_lines_list(rettv: &mut typval_T, lines: Vec<Vec<u8>>)
    ensures final(rettv)@ == with_list(old(rettv)@, str_values(lines_view(lines@))),
{
    let items = str_values_exec(lines);
    set_list(rettv, list_T { lv_items: items, lv_lock: VarLockStatus::VAR_UNLOCKED, lv_refcount: 0 });
}

/// Whether an optional argument is given.
pub open spec fn has_arg(args: Seq<typval_T>, i: int) -> bool {
    args.len() > i && args[i]@.ty != VarType::VAR_UNKNOWN
}

/// "getline({lnum} [, {end}])": line `{lnum}` as a String ("" when the
/// buffer has no such line), or with `{end}` the List of the lines from
/// `{lnum}` to `{end}` that the buffer has.
pub fn f_getline(b: &TextBuf, argvars: &[typval_T], rettv: &mut typval_T)
    requires textbuf_wf(b@), argvars@.len() >= 1,
    ensures
        final(rettv)@ == if has_arg(argvars@, 1) {
            with_list(old(rettv)@, str_values(lines_range(b@, lnum_of(b@, argvars@[0]@), lnum_of(b@, argvars@[1]@))))
        } else {
            str_tv(first_or_empty(lines_range(b@, lnum_of(b@, argvars@[0]@), lnum_of(b@, argvars@[0]@))))
        },
{
    let lnum = tv_get_lnum(b, &argvars[0]);
    if argvars.len() >= 2 && argvars[1].v_type != VarType::VAR_UNKNOWN {
        let end = tv_get_lnum(b, &argvars[1]);
        let lines = get_buffer_lines(b, lnum, end);
        assert(lines_view(lines@) =~= lines_range(b@, lnum as int, end as int));
        set_lines_list(rettv, lines);
    } else {
        let lines = get_buffer_lines(b, lnum, lnum);
        assert(lines_view(lines@) =~= lines_range(b@, lnum as int, lnum as int));
        *rettv = str_value(first_line(lines));
    }
}

/// "getbufline({buf}, {lnum} [, {end}])": the List of lines `{lnum}` to
/// `{end}` (just `{lnum}` without it) of the one buffer there is.
pub fn f_getbufline(b: &TextBuf, argvars: &[typval_T], rettv: &mut typval_T)
    requires textbuf_wf(b@), argvars@.len() >= 2,
    ensures
        final(rettv)@ == with_list(old(rettv)@, str_values(lines_range(b@, lnum_of(b@, argvars@[1]@),
            if has_arg(argvars@, 2) { lnum_of(b@, argvars@[2]@) } else { lnum_of(b@, argvars@[1]@) }))),
{
    let lnum = tv_get_lnum(b, &argvars[1]);
    let end = if argvars.len() >= 3 && argvars[2].v_type != VarType::VAR_UNKNOWN { tv_get_lnum(b, &argvars[2]) } else { lnum };
    let lines = get_buffer_lines(b, lnum, end);
    assert(lines_view(lines@) =~= lines_range(b@, lnum as int, end as int));
    set_lines_list(rettv, lines);
}

/// "getbufoneline({buf}, {lnum})": line `{lnum}` as a String.
pub fn f_getbufoneline(b: &TextBuf, argvars: &[typval_T], rettv: &mut typval_T)
    requires textbuf_wf(b@), argvars@.len() >= 2,
    ensures final(rettv)@ == str_tv(first_or_empty(lines_range(b@, lnum_of(b@, argvars@[1]@), lnum_of(b@, argvars@[1]@)))),
{
    let lnum = tv_get_lnum(b, &argvars[1]);
    let lines = get_buffer_lines(b, lnum, lnum);
    assert(lines_view(lines@) =~= lines_range(b@, lnum as int, lnum as int));
    *rettv = str_value(first_line(lines));
}

/// Whether the lines of a text argument fit with the buffer's.
pub open spec fn lines_fit(b: TextBufVal, t: TypVal) -> bool {
    &&& b.lines.len() + lines_arg(t).len() + 1 < i64::MAX
    &&& forall|i: int| 0 <= i < lines_arg(t).len() ==> (#[trigger] lines_arg(t)[i]).len() < i64::MAX
}

/// "setline({lnum}, {text})": put the line or lines of `{text}` over the
/// lines from `{lnum}` (see `lines_set`); the result is the status.
pub fn f_setline(b: &mut TextBuf, argvars: &[typval_T], rettv: &mut typval_T)
    requires textbuf_wf(old(b)@), argvars@.len() >= 2, lines_fit(old(b)@, argvars@[1]@),
    ensures
        textbuf_wf(final(b)@),
        final(b)@ == lines_set(old(b)@, lnum_of(old(b)@, argvars@[0]@), lines_arg(argvars@[1]@), false).0,
        final(rettv)@ == num_tv(lines_set(old(b)@, lnum_of(old(b)@, argvars@[0]@), lines_arg(argvars@[1]@), false).1),
{
    let lnum = tv_get_lnum(b, &argvars[0]);
    let lines = tv_lines_arg(&argvars[1]);
    let r = set_buffer_lines(b, lnum, &lines, false);
    *rettv = num_value(r);
}

/// "setbufline({buf}, {lnum}, {text})": "setline()" on the one buffer.
pub fn f_setbufline(b: &mut TextBuf, argvars: &[typval_T], rettv: &mut typval_T)
    requires textbuf_wf(old(b)@), argvars@.len() >= 3, lines_fit(old(b)@, argvars@[2]@),
    ensures
        textbuf_wf(final(b)@),
        final(b)@ == lines_set(old(b)@, lnum_of(old(b)@, argvars@[1]@), lines_arg(argvars@[2]@), false).0,
        final(rettv)@ == num_tv(lines_set(old(b)@, lnum_of(old(b)@, argvars@[1]@), lines_arg(argvars@[2]@), false).1),
{
    let lnum = tv_get_lnum(b, &argvars[1]);
    let lines = tv_lines_arg(&argvars[2]);
    let r = set_buffer_lines(b, lnum, &lines, false);
    *rettv = num_value(r);
}

/// "append({lnum}, {text})": put the line or lines of `{text}` after line
/// `{lnum}` (0 puts them first); the result is 0.
pub fn f_append(b: &mut TextBuf, argvars: &[typval_T], rettv: &mut typval_T)
    requires textbuf_wf(old(b)@), argvars@.len() >= 2, lines_fit(old(b)@, argvars@[1]@),
    ensures
        textbuf_wf(final(b)@),
        final(b)@ == lines_set(old(b)@, lnum_of(old(b)@, argvars@[0]@), lines_arg(argvars@[1]@), true).0,
        final(rettv)@ == num_tv(0),
{
    let lnum = tv_get_lnum(b, &argvars[0]);
    let lines = tv_lines_arg(&argvars[1]);
    let r = set_buffer_lines(b, lnum, &lines, true);
    *rettv = num_value(r);
}

/// "appendbufline({buf}, {lnum}, {text})": "append()" on the one buffer.
pub fn f_appendbufline(b: &mut TextBuf, argvars: &[typval_T], rettv: &mut typval_T)
    requires textbuf_wf(old(b)@), argvars@.len() >= 3, lines_fit(old(b)@, argvars@[2]@),
    ensures
        textbuf_wf(final(b)@),
        final(b)@ == lines_set(old(b)@, lnum_of(old(b)@, argvars@[1]@), lines_arg(argvars@[2]@), true).0,
        final(rettv)@ == num_tv(0),
{
    let lnum = tv_get_lnum(b, &argvars[1]);
    let lines = tv_lines_arg(&argvars[2]);
    let r = set_buffer_lines(b, lnum, &lines, true);
    *rettv = num_value(r);
}

/// "deletebufline({buf}, {first} [, {last}])": delete lines `{first}` to
/// `{last}` (just `{first}` without it); the result is the status.
pub fn f_deletebufline(b: &mut TextBuf, argvars: &[typval_T], rettv: &mut typval_T)
    requires textbuf_wf(old(b)@), argvars@.len() >= 2,
    ensures
        textbuf_wf(final(b)@),
        final(b)@ == lines_delete(old(b)@, lnum_of(old(b)@, argvars@[1]@),
            if has_arg(argvars@, 2) { lnum_of(old(b)@, argvars@[2]@) } else { lnum_of(old(b)@, argvars@[1]@) }).0,
        final(rettv)@ == num_tv(lines_delete(old(b)@, lnum_of(old(b)@, argvars@[1]@),
            if has_arg(argvars@, 2) { lnum_of(old(b)@, argvars@[2]@) } else { lnum_of(old(b)@, argvars@[1]@) }).1),
{
    let first = tv_get_lnum(b, &argvars[1]);
    let last = if argvars.len() >= 3 && argvars[2].v_type != VarType::VAR_UNKNOWN { tv_get_lnum(b, &argvars[2]) } else { first };
    let r = delete_buffer_lines(b, first, last);
    *rettv = num_value(r);
}

// ── positions ──

/// Number values.
pub open spec fn num_values(v: Seq<i64>) -> Seq<TypVal> {
    Seq::new(v.len(), |i: int| num_tv(v[i] as int))
}

/// Make `rettv` a new List of the Numbers `v`.
fn set_num_list(rettv: &mut typval_T, v: Vec<i64>)
    ensures final(rettv)@ == with_list(old(rettv)@, num_values(v@)),
{
    let mut out: Vec<typval_T> = Vec::new();
    let mut i: usize = 0;
    while i < v.len()
        invariant
            i <= v@.len(), out@.len() == i,
            forall|k: int| 0 <= k < i ==> #[trigger] out@[k]@ == num_tv(v@[k] as int),
        decreases v.len() - i,
    {
        out.push(num_value(v[i]));
        i += 1;
    }
    proof { lemma_items_view_index_all(out@); }
    assert forall|k: int| 0 <= k < out@.len() implies #[trigger] items_view(out@)[k] == num_values(v@)[k] by {
        assert(out@[k]@ == num_tv(v@[k] as int));
    }
    assert(items_view(out@) =~= num_values(v@));
    set_list(rettv, list_T { lv_items: out, lv_lock: VarLockStatus::VAR_UNLOCKED, lv_refcount: 0 });
}

/// The name of the mark that a String `'x` names.
pub open spec fn mark_name(s: Seq<u8>) -> u32 {
    first_char_code(s.subrange(1, s.len() as int)) as u32
}

/// The line and column a position argument names: the cursor for `"."`,
/// mark x for `'x` ((0, 0) when it is not set), else the line it names
/// and column 0.
pub open spec fn pos_of(b: TextBufVal, t: TypVal) -> (int, int) {
    let s = string_or_empty(t);
    if s == dot_bytes() {
        (b.cur_lnum, b.cur_col)
    } else if s.len() > 1 && s[0] == 39u8 {
        match mark_of(b.marks, mark_name(s)) {
            Some(m) => (m.lnum as int, m.col as int),
            None => (0, 0),
        }
    } else {
        (lnum_of(b, t), 0)
    }
}

/// "getpos({expr})": `[0, lnum, col, 0]` for the position `{expr}` names.
pub fn f_getpos(b: &TextBuf, argvars: &[typval_T], rettv: &mut typval_T)
    requires textbuf_wf(b@), argvars@.len() >= 1,
    ensures
        final(rettv)@ == with_list(old(rettv)@, seq![num_tv(0), num_tv(pos_of(b@, argvars@[0]@).0), num_tv(pos_of(b@, argvars@[0]@).1), num_tv(0)]),
{
    let s = tv_get_string(&argvars[0]);
    let dot: [u8; 1] = [46u8];
    assert(dot@ =~= dot_bytes());
    let (lnum, col): (i64, i64) = if bytes_is(&s, &dot) {
        (b.cur_lnum, b.cur_col)
    } else if s.len() > 1 && s[0] == 39u8 {
        match getmark(b, mark_name_of(&s)) {
            Some(p) => p,
            None => (0, 0),
        }
    } else {
        (tv_get_lnum(b, &argvars[0]), 0)
    };
    let v: Vec<i64> = vec![0, lnum, col, 0];
    assert(num_values(v@) =~= seq![num_tv(0), num_tv(lnum as int), num_tv(col as int), num_tv(0)]);
    set_num_list(rettv, v);
}

/// "getcharpos({expr})": like "getpos()".
pub fn f_getcharpos(b: &TextBuf, argvars: &[typval_T], rettv: &mut typval_T)
    requires textbuf_wf(b@), argvars@.len() >= 1,
    ensures
        final(rettv)@ == with_list(old(rettv)@, seq![num_tv(0), num_tv(pos_of(b@, argvars@[0]@).0), num_tv(pos_of(b@, argvars@[0]@).1), num_tv(0)]),
{
    f_getpos(b, argvars, rettv);
}

/// "getcurpos()": `[0, lnum, col, 0, curswant]` for the cursor.
pub fn f_getcurpos(b: &TextBuf, argvars: &[typval_T], rettv: &mut typval_T)
    ensures
        final(rettv)@ == with_list(old(rettv)@, seq![num_tv(0), num_tv(b@.cur_lnum), num_tv(b@.cur_col), num_tv(0), num_tv(b@.curswant)]),
{
    let v: Vec<i64> = vec![0, b.cur_lnum, b.cur_col, 0, b.curswant];
    assert(num_values(v@) =~= seq![num_tv(0), num_tv(b@.cur_lnum), num_tv(b@.cur_col), num_tv(0), num_tv(b@.curswant)]);
    set_num_list(rettv, v);
}

/// "getcursorcharpos()": `[0, 0, 0, 0, 0]`: there is no window whose
/// cursor it could give.
pub fn f_getcursorcharpos(argvars: &[typval_T], rettv: &mut typval_T)
    ensures final(rettv)@ == with_list(old(rettv)@, seq![num_tv(0), num_tv(0), num_tv(0), num_tv(0), num_tv(0)]),
{
    let v: Vec<i64> = vec![0, 0, 0, 0, 0];
    assert(num_values(v@) =~= seq![num_tv(0), num_tv(0), num_tv(0), num_tv(0), num_tv(0)]);
    set_num_list(rettv, v);
}

/// The byte column "col()" gives: the cursor column for `"."`, one past the
/// end of the cursor line for `"$"` (1 when the cursor is off the buffer),
/// mark x's column for `'x` (0 when not set), else 0.
pub open spec fn col_of(b: TextBufVal, s: Seq<u8>) -> int {
    if s == dot_bytes() {
        b.cur_col
    } else if s == dollar_bytes() {
        let r = lines_range(b, b.cur_lnum, b.cur_lnum);
        if r.len() > 0 { r[0].len() as int + 1 } else { 1 }
    } else if s.len() > 0 && s[0] == 39u8 {
        if s.len() > 1 {
            match mark_of(b.marks, mark_name(s)) { Some(m) => m.col as int, None => 0 }
        } else {
            0
        }
    } else {
        0
    }
}

/// "col({expr})": the byte column `{expr}` names (see `col_of`).
pub fn f_col(b: &TextBuf, argvars: &[typval_T], rettv: &mut typval_T)
    requires textbuf_wf(b@), argvars@.len() >= 1,
    ensures final(rettv)@ == num_tv(col_of(b@, string_or_empty(argvars@[0]@))),
{
    let s = tv_get_string(&argvars[0]);
    let dot: [u8; 1] = [46u8];
    let dl: [u8; 1] = [36u8];
    assert(dot@ =~= dot_bytes());
    assert(dl@ =~= dollar_bytes());
    let col: i64 = if bytes_is(&s, &dot) {
        b.cur_col
    } else if bytes_is(&s, &dl) {
        let r = get_buffer_lines(b, b.cur_lnum, b.cur_lnum);
        if r.len() > 0 {
            r[0].len() as i64 + 1
        } else {
            1
        }
    } else if s.len() > 0 && s[0] == 39u8 {
        if s.len() > 1 {
            match getmark(b, mark_name_of(&s)) { Some((_, c)) => c, None => 0 }
        } else {
            0
        }
    } else {
        0
    };
    *rettv = num_value(col);
}

/// The character column "charcol()" gives: the cursor column for `"."`,
/// one past the number of characters of the cursor line for `"$"` (1 when
/// the cursor is off the buffer), else 0.
pub open spec fn charcol_of(b: TextBufVal, s: Seq<u8>) -> int {
    if s == dot_bytes() {
        b.cur_col
    } else if s == dollar_bytes() {
        let r = lines_range(b, b.cur_lnum, b.cur_lnum);
        if r.len() > 0 { utf8_split(r[0]).len() as int + 1 } else { 1 }
    } else {
        0
    }
}

proof fn lemma_utf8_split_count(s: Seq<u8>)
    ensures utf8_split(s).len() <= s.len(),
    decreases s.len(),
{
    if s.len() > 0 {
        let n = char_len_at(s, 0);
        lemma_utf8_split_count(s.subrange(n, s.len() as int));
    }
}

/// "charcol({expr})": the character column `{expr}` names (see `charcol_of`).
pub fn f_charcol(b: &TextBuf, argvars: &[typval_T], rettv: &mut typval_T)
    requires textbuf_wf(b@), argvars@.len() >= 1,
    ensures final(rettv)@ == num_tv(charcol_of(b@, string_or_empty(argvars@[0]@))),
{
    let s = tv_get_string(&argvars[0]);
    let dot: [u8; 1] = [46u8];
    let dl: [u8; 1] = [36u8];
    assert(dot@ =~= dot_bytes());
    assert(dl@ =~= dollar_bytes());
    let col: i64 = if bytes_is(&s, &dot) {
        b.cur_col
    } else if bytes_is(&s, &dl) {
        let r = get_buffer_lines(b, b.cur_lnum, b.cur_lnum);
        if r.len() > 0 {
            let cs = utf8_chars(r[0].as_slice());
            proof { lemma_utf8_split_count(r[0]@); }
            cs.len() as i64 + 1
        } else {
            1
        }
    } else {
        0
    };
    *rettv = num_value(col);
}

/// "line({expr})": the line `{expr}` names (see `lnum_of`).
pub fn f_line(b: &TextBuf, argvars: &[typval_T], rettv: &mut typval_T)
    requires textbuf_wf(b@), argvars@.len() >= 1,
    ensures final(rettv)@ == num_tv(lnum_of(b@, argvars@[0]@)),
{
    *rettv = num_value(tv_get_lnum(b, &argvars[0]));
}

/// Item `i` of a List as a Number, or `d` when the List is shorter.
pub open spec fn item_num_or(items: Seq<TypVal>, i: int, d: int) -> int {
    if i < items.len() { number_chk_result(items[i], true) } else { d }
}

fn item_num_or_exec(l: &list_T, i: usize, d: i64) -> (r: i64)
    ensures r as int == item_num_or(l@.items, i as int, d as int),
{
    proof { lemma_items_view_index_all(l.lv_items@); }
    if i < l.lv_items.len() { tv_get_number(&l.lv_items[i]) } else { d }
}

/// What "setpos({expr}, {list})" does to the buffer: with a List, `"."`
/// moves the cursor and `'x` sets mark x to its line (item 1, else 0) and
/// column (item 2, else 1).
pub open spec fn setpos_result(b: TextBufVal, args: Seq<typval_T>) -> TextBufVal {
    let s = string_or_empty(args[0]@);
    match (args[1]@.ty, args[1]@.v) {
        (VarType::VAR_LIST, VVal::List(Some(l))) => {
            let lnum = item_num_or(l.items, 1, 0);
            let col = item_num_or(l.items, 2, 1);
            if s == dot_bytes() {
                cursor_set(b, lnum, col)
            } else if s.len() > 1 && s[0] == 39u8 {
                TextBufVal { marks: marks_set(b.marks, mark_name(s), lnum, col), ..b }
            } else {
                b
            }
        },
        _ => b,
    }
}

/// "setpos({expr}, {list})": move the cursor or set a mark (see
/// `setpos_result`); the result is 0.
pub fn f_setpos(b: &mut TextBuf, argvars: &[typval_T], rettv: &mut typval_T)
    requires textbuf_wf(old(b)@), argvars@.len() >= 2,
    ensures textbuf_wf(final(b)@), final(b)@ == setpos_result(old(b)@, argvars@), final(rettv)@ == num_tv(0),
{
    let s = tv_get_string(&argvars[0]);
    let dot: [u8; 1] = [46u8];
    assert(dot@ =~= dot_bytes());
    if let (VarType::VAR_LIST, typval_vval_union::v_list(Some(l))) = (&argvars[1].v_type, &argvars[1].vval) {
        let lnum = item_num_or_exec(l, 1, 0);
        let col = item_num_or_exec(l, 2, 1);
        if bytes_is(&s, &dot) {
            set_cursorpos(b, lnum, col);
        } else if s.len() > 1 && s[0] == 39u8 {
            setmark(b, mark_name_of(&s), lnum, col);
        }
    }
    *rettv = num_value(0);
}

/// "setcharpos({expr}, {list})": like "setpos()".
pub fn f_setcharpos(b: &mut TextBuf, argvars: &[typval_T], rettv: &mut typval_T)
    requires textbuf_wf(old(b)@), argvars@.len() >= 2,
    ensures textbuf_wf(final(b)@), final(b)@ == setpos_result(old(b)@, argvars@), final(rettv)@ == num_tv(0),
{
    f_setpos(b, argvars, rettv);
}

/// The line and column "cursor()" moves to: from a List (items 0 and 1,
/// each 1 when missing; (1, 1) for a missing List), else from the first
/// two arguments (the column 1 when missing).
pub open spec fn cursor_target(args: Seq<typval_T>) -> (int, int) {
    if args[0]@.ty == VarType::VAR_LIST {
        match args[0]@.v {
            VVal::List(Some(l)) => (item_num_or(l.items, 0, 1), item_num_or(l.items, 1, 1)),
            _ => (1, 1),
        }
    } else {
        (number_chk_result(args[0]@, true), if args.len() > 1 { number_chk_result(args[1]@, true) } else { 1 })
    }
}

/// "cursor({lnum}, {col})" or "cursor({list})": move the cursor, within
/// the buffer; the result is 0.
pub fn f_cursor(b: &mut TextBuf, argvars: &[typval_T], rettv: &mut typval_T)
    requires textbuf_wf(old(b)@), argvars@.len() >= 1,
    ensures
        textbuf_wf(final(b)@),
        final(b)@ == cursor_set(old(b)@, cursor_target(argvars@).0, cursor_target(argvars@).1),
        final(rettv)@ == num_tv(0),
{
    let (lnum, col): (i64, i64) = if argvars[0].v_type == VarType::VAR_LIST {
        match &argvars[0].vval {
            typval_vval_union::v_list(Some(l)) => (item_num_or_exec(l, 0, 1), item_num_or_exec(l, 1, 1)),
            _ => (1, 1),
        }
    } else {
        (tv_get_number(&argvars[0]), if argvars.len() > 1 { tv_get_number(&argvars[1]) } else { 1 })
    };
    set_cursorpos(b, lnum, col);
    *rettv = num_value(0);
}

/// "setcursorcharpos()": like "cursor()".
pub fn f_setcursorcharpos(b: &mut TextBuf, argvars: &[typval_T], rettv: &mut typval_T)
    requires textbuf_wf(old(b)@), argvars@.len() >= 1,
    ensures
        textbuf_wf(final(b)@),
        final(b)@ == cursor_set(old(b)@, cursor_target(argvars@).0, cursor_target(argvars@).1),
        final(rettv)@ == num_tv(0),
{
    f_cursor(b, argvars, rettv);
}

// ── bytes and lines ──

/// The bytes of the first `k` lines, each with its newline.
pub open spec fn prefix_bytes(lines: Seq<Seq<u8>>, k: int) -> int
    decreases k,
{
    if k <= 0 || k > lines.len() { 0 } else { prefix_bytes(lines, k - 1) + lines[k - 1].len() + 1 }
}

/// Whether the buffer's size in bytes (a newline after each line) fits a Number.
pub open spec fn size_fits(b: TextBufVal) -> bool {
    prefix_bytes(eff_lines(b), buf_len(b)) + 1 < i64::MAX
}

proof fn lemma_prefix_bytes_mono(lines: Seq<Seq<u8>>, j: int, k: int)
    requires 0 <= j <= k <= lines.len(),
    ensures 0 <= prefix_bytes(lines, j) <= prefix_bytes(lines, k),
    decreases k,
{
    if j < k {
        lemma_prefix_bytes_mono(lines, j, k - 1);
    } else if k > 0 {
        lemma_prefix_bytes_mono(lines, 0, k - 1);
    }
}

/// What "line2byte({lnum})" gives: 1 plus the bytes of the lines before
/// `lnum` (one past the end of the buffer counts too), or -1.
pub open spec fn line2byte_of(b: TextBufVal, lnum: int) -> int {
    if lnum < 1 || lnum > buf_len(b) + 1 { -1 } else { 1 + prefix_bytes(eff_lines(b), lnum - 1) }
}

/// "line2byte({lnum})": where line `{lnum}` starts, in bytes from 1.
pub fn f_line2byte(b: &TextBuf, argvars: &[typval_T], rettv: &mut typval_T)
    requires textbuf_wf(b@), size_fits(b@), argvars@.len() >= 1,
    ensures final(rettv)@ == num_tv(line2byte_of(b@, lnum_of(b@, argvars@[0]@))),
{
    let lnum = tv_get_lnum(b, &argvars[0]);
    let len = curbuf_len(b);
    if lnum < 1 || lnum > len + 1 {
        *rettv = num_value(-1);
        return;
    }
    let lines = eff_lines_exec(b);
    let ghost lv = eff_lines(b@);
    let mut off: i64 = 1;
    let mut k: usize = 0;
    let upto = (lnum - 1) as usize;
    proof { lemma_prefix_bytes_mono(lv, upto as int, lv.len() as int); }
    while k < upto
        invariant
            k <= upto, upto <= lv.len(), lv == lines_view(lines@), lines@.len() == lv.len(),
            off == 1 + prefix_bytes(lv, k as int),
            prefix_bytes(lv, upto as int) + 1 < i64::MAX,
            prefix_bytes(lv, lv.len() as int) + 1 < i64::MAX,
        decreases upto - k,
    {
        proof {
            lemma_prefix_bytes_mono(lv, k + 1, lv.len() as int);
            lemma_prefix_bytes_mono(lv, k as int, k + 1);
        }
        let ll = lines[k].len();
        assert(lines_view(lines@)[k as int] == lines@[k as int]@);
        assert(ll as int == lv[k as int].len());
        assert(prefix_bytes(lv, k + 1) == prefix_bytes(lv, k as int) + lv[k as int].len() + 1);
        off = off + ll as i64 + 1;
        k += 1;
    }
    *rettv = num_value(off);
}

/// The first line from `k` on whose bytes reach past byte `target`, or -1.
pub open spec fn byte2line_from(lines: Seq<Seq<u8>>, target: int, k: int) -> int
    decreases lines.len() + 1 - k,
{
    if k < 1 || k > lines.len() {
        -1
    } else if target < 1 + prefix_bytes(lines, k) {
        k
    } else {
        byte2line_from(lines, target, k + 1)
    }
}

/// What "byte2line({byte})" gives: the line holding byte `target`, or -1.
pub open spec fn byte2line_of(b: TextBufVal, target: int) -> int {
    if target < 1 { -1 } else { byte2line_from(eff_lines(b), target, 1) }
}

/// "byte2line({byte})": the line that holds byte `{byte}` (from 1).
pub fn f_byte2line(b: &TextBuf, argvars: &[typval_T], rettv: &mut typval_T)
    requires textbuf_wf(b@), size_fits(b@), argvars@.len() >= 1,
    ensures final(rettv)@ == num_tv(byte2line_of(b@, number_chk_result(argvars@[0]@, true))),
{
    let target = tv_get_number(&argvars[0]);
    if target < 1 {
        *rettv = num_value(-1);
        return;
    }
    let lines = eff_lines_exec(b);
    let ghost lv = eff_lines(b@);
    let mut off: i64 = 1;
    let mut k: usize = 0;
    while k < lines.len()
        invariant
            k <= lines@.len(), lv == lines_view(lines@), lines@.len() == lv.len(),
            off == 1 + prefix_bytes(lv, k as int),
            prefix_bytes(lv, lv.len() as int) + 1 < i64::MAX,
            byte2line_from(lv, target as int, 1) == byte2line_from(lv, target as int, k + 1),
            lv.len() < i64::MAX, lv == eff_lines(b@), target >= 1,
            target as int == number_chk_result(argvars@[0]@, true),
        decreases lines.len() - k,
    {
        proof {
            lemma_prefix_bytes_mono(lv, k + 1, lv.len() as int);
            lemma_prefix_bytes_mono(lv, k as int, k + 1);
        }
        let ll = lines[k].len();
        assert(lines_view(lines@)[k as int] == lines@[k as int]@);
        assert(ll as int == lv[k as int].len());
        assert(prefix_bytes(lv, k + 1) == prefix_bytes(lv, k as int) + lv[k as int].len() + 1);
        off = off + ll as i64 + 1;
        if target < off {
            assert(byte2line_from(lv, target as int, k + 1) == k + 1);
            *rettv = num_value((k + 1) as i64);
            return;
        }
        k += 1;
    }
    *rettv = num_value(-1);
}

// ── blank lines ──

/// Unicode white space.
pub open spec fn is_white(c: int) -> bool {
    (9 <= c <= 13) || c == 32 || c == 0x85 || c == 0xa0 || c == 0x1680 || (0x2000 <= c <= 0x200a)
        || c == 0x2028 || c == 0x2029 || c == 0x202f || c == 0x205f || c == 0x3000
}

/// A line of white space only (or empty).
pub open spec fn is_blank_line(s: Seq<u8>) -> bool {
    forall|k: int| 0 <= k < utf8_split(s).len() ==> is_white(first_char_code(#[trigger] utf8_split(s)[k]))
}

pub(crate) fn first_code_exec(p: &[u8]) -> (r: u32)
    ensures r as int == first_char_code(p@),
{
    if p.len() == 0 { 0 } else { char_code_at(p, 0) }
}

pub(crate) fn is_white_exec(c: u32) -> (r: bool)
    ensures r == is_white(c as int),
{
    (9 <= c && c <= 13) || c == 32 || c == 0x85 || c == 0xa0 || c == 0x1680 || (0x2000 <= c && c <= 0x200a)
        || c == 0x2028 || c == 0x2029 || c == 0x202f || c == 0x205f || c == 0x3000
}

fn is_blank_exec(s: &[u8]) -> (r: bool)
    ensures r == is_blank_line(s@),
{
    let cs = utf8_chars(s);
    let mut k: usize = 0;
    while k < cs.len()
        invariant
            k <= cs@.len(), cs@.len() == utf8_split(s@).len(),
            forall|j: int| 0 <= j < cs@.len() ==> #[trigger] cs@[j]@ == utf8_split(s@)[j],
            forall|j: int| 0 <= j < k ==> is_white(first_char_code(#[trigger] utf8_split(s@)[j])),
        decreases cs.len() - k,
    {
        if !is_white_exec(first_code_exec(cs[k].as_slice())) {
            assert(!is_white(first_char_code(utf8_split(s@)[k as int])));
            return false;
        }
        k += 1;
    }
    true
}

/// The first line from `k` on that is not blank, or 0.
pub open spec fn next_nonblank_from(lines: Seq<Seq<u8>>, k: int) -> int
    decreases lines.len() + 1 - k,
{
    if k < 1 || k > lines.len() { 0 } else if !is_blank_line(lines[k - 1]) { k } else { next_nonblank_from(lines, k + 1) }
}

/// The last line from `k` back that is not blank, or 0.
pub open spec fn prev_nonblank_from(lines: Seq<Seq<u8>>, k: int) -> int
    decreases k,
{
    if k < 1 || k > lines.len() { 0 } else if !is_blank_line(lines[k - 1]) { k } else { prev_nonblank_from(lines, k - 1) }
}

/// "nextnonblank({lnum})": the first line from `{lnum}` on (at least line 1)
/// that is not all white space, or 0.
pub fn f_nextnonblank(b: &TextBuf, argvars: &[typval_T], rettv: &mut typval_T)
    requires textbuf_wf(b@), argvars@.len() >= 1,
    ensures
        final(rettv)@ == num_tv(next_nonblank_from(eff_lines(b@), if lnum_of(b@, argvars@[0]@) < 1 { 1 } else { lnum_of(b@, argvars@[0]@) })),
{
    let l0 = tv_get_lnum(b, &argvars[0]);
    let mut lnum: i64 = if l0 < 1 { 1 } else { l0 };
    let len = curbuf_len(b);
    let lines = eff_lines_exec(b);
    let ghost lv = eff_lines(b@);
    let ghost start = lnum as int;
    while lnum <= len
        invariant
            1 <= lnum, lv == lines_view(lines@), lv.len() == len, len < i64::MAX, lv == eff_lines(b@),
            start == (if lnum_of(b@, argvars@[0]@) < 1 { 1 } else { lnum_of(b@, argvars@[0]@) }),
            next_nonblank_from(lv, start) == next_nonblank_from(lv, lnum as int),
        decreases len + 1 - lnum,
    {
        let idx = (lnum - 1) as usize;
        assert(lines_view(lines@)[idx as int] == lines@[idx as int]@);
        if !is_blank_exec(lines[idx].as_slice()) {
            *rettv = num_value(lnum);
            return;
        }
        lnum += 1;
    }
    *rettv = num_value(0);
}

/// "prevnonblank({lnum})": the last line from `{lnum}` back (at most the
/// last line) that is not all white space, or 0.
pub fn f_prevnonblank(b: &TextBuf, argvars: &[typval_T], rettv: &mut typval_T)
    requires textbuf_wf(b@), argvars@.len() >= 1,
    ensures
        final(rettv)@ == num_tv(prev_nonblank_from(eff_lines(b@), if lnum_of(b@, argvars@[0]@) > buf_len(b@) { buf_len(b@) } else { lnum_of(b@, argvars@[0]@) })),
{
    let l0 = tv_get_lnum(b, &argvars[0]);
    let len = curbuf_len(b);
    let mut lnum: i64 = if l0 > len { len } else { l0 };
    let lines = eff_lines_exec(b);
    let ghost lv = eff_lines(b@);
    let ghost start = lnum as int;
    while lnum >= 1
        invariant
            lnum <= len, lv == lines_view(lines@), lv.len() == len, len < i64::MAX, lv == eff_lines(b@),
            len == buf_len(b@),
            start == (if lnum_of(b@, argvars@[0]@) > buf_len(b@) { buf_len(b@) } else { lnum_of(b@, argvars@[0]@) }),
            prev_nonblank_from(lv, start) == prev_nonblank_from(lv, lnum as int),
        decreases lnum,
    {
        let idx = (lnum - 1) as usize;
        assert(lines_view(lines@)[idx as int] == lines@[idx as int]@);
        if !is_blank_exec(lines[idx].as_slice()) {
            *rettv = num_value(lnum);
            return;
        }
        lnum -= 1;
    }
    assert(prev_nonblank_from(lv, lnum as int) == 0);
    *rettv = num_value(0);
}

// ── lists of places ──

/// `[[], 0]`: no entries, at index 0.
pub open spec fn empty_places() -> Seq<TypVal> {
    seq![list_tv(Seq::empty()), num_tv(0)]
}

fn set_empty_places(rettv: &mut typval_T)
    ensures final(rettv)@ == with_list(old(rettv)@, empty_places()),
{
    let inner = typval_T { v_type: VarType::VAR_LIST, v_lock: VarLockStatus::VAR_UNLOCKED, vval: typval_vval_union::v_list(Some(tv_list_alloc(0))) };
    let items: Vec<typval_T> = vec![inner, num_value(0)];
    proof { lemma_items_view_index_all(items@); }
    assert(items_view(items@) =~= empty_places());
    set_list(rettv, list_T { lv_items: items, lv_lock: VarLockStatus::VAR_UNLOCKED, lv_refcount: 0 });
}

/// "getjumplist()": `[[], 0]`: the interpreter keeps no jumps.
pub fn f_getjumplist(argvars: &[typval_T], rettv: &mut typval_T)
    ensures final(rettv)@ == with_list(old(rettv)@, empty_places()),
{
    set_empty_places(rettv);
}

/// "getchangelist()": `[[], 0]`: the interpreter keeps no changes.
pub fn f_getchangelist(argvars: &[typval_T], rettv: &mut typval_T)
    ensures final(rettv)@ == with_list(old(rettv)@, empty_places()),
{
    set_empty_places(rettv);
}

/// `"mark"`, `"pos"`.
pub open spec fn mark_key() -> Seq<u8> { seq![109u8, 97, 114, 107] }
pub open spec fn pos_key() -> Seq<u8> { seq![112u8, 111, 115] }

/// The entry "getmarklist()" gives for a mark: `{'mark': "'x", 'pos': [0, lnum, col, 0]}`.
pub open spec fn mark_entry(m: Mark) -> TypVal {
    dict_tv(DictVal {
        keys: seq![mark_key(), pos_key()],
        vals: seq![
            str_tv(seq![39u8] + char2bytes(m.name as int)),
            list_tv(seq![num_tv(0), num_tv(m.lnum as int), num_tv(m.col as int), num_tv(0)]),
        ],
        ..empty_dict_val()
    })
}

fn mark_entry_exec(m: Mark) -> (r: typval_T)
    requires m.name <= 0x13_ffff,
    ensures r@ == mark_entry(m),
{
    let mut name: Vec<u8> = vec![39u8];
    assert(name@ =~= seq![39u8]);
    let cb = char_to_bytes(m.name);
    append_bytes(&mut name, cb.as_slice());
    assert(name@ =~= seq![39u8] + char2bytes(m.name as int));
    let pos: Vec<typval_T> = vec![num_value(0), num_value(m.lnum), num_value(m.col), num_value(0)];
    proof { lemma_items_view_index_all(pos@); }
    let pl = typval_T { v_type: VarType::VAR_LIST, v_lock: VarLockStatus::VAR_UNLOCKED,
        vval: typval_vval_union::v_list(Some(list_T { lv_items: pos, lv_lock: VarLockStatus::VAR_UNLOCKED, lv_refcount: 0 })) };
    assert(pl@.v->List_0->Some_0.items =~= seq![num_tv(0), num_tv(m.lnum as int), num_tv(m.col as int), num_tv(0)]);
    let k1: Vec<u8> = vec![109u8, 97, 114, 107];
    let k2: Vec<u8> = vec![112u8, 111, 115];
    let items: Vec<dictitem_T> = vec![
        dictitem_T { di_key: k1, di_tv: str_value(name) },
        dictitem_T { di_key: k2, di_tv: pl },
    ];
    let d = dict_T { dv_hashtab: items, dv_lock: VarLockStatus::VAR_UNLOCKED, dv_refcount: 0, dv_watchers: Vec::new() };
    proof { lemma_dict_view_parts(d); }
    assert(d@.keys =~= seq![mark_key(), pos_key()]);
    assert(d@.vals[0] == str_tv(seq![39u8] + char2bytes(m.name as int)));
    assert(pl@ == list_tv(seq![num_tv(0), num_tv(m.lnum as int), num_tv(m.col as int), num_tv(0)]));
    assert(d@.vals[1] == pl@);
    assert(d@.vals =~= mark_entry(m).v->Dict_0->Some_0.vals);
    assert(d@.watchers =~= Seq::<WatcherVal>::empty());
    typval_T { v_type: VarType::VAR_DICT, v_lock: VarLockStatus::VAR_UNLOCKED, vval: typval_vval_union::v_dict(Some(d)) }
}

/// "getmarklist()": an entry for each mark, by name.
pub fn f_getmarklist(b: &TextBuf, argvars: &[typval_T], rettv: &mut typval_T)
    requires textbuf_wf(b@),
    ensures final(rettv)@ == with_list(old(rettv)@, Seq::new(b@.marks.len(), |i: int| mark_entry(b@.marks[i]))),
{
    let mut out: Vec<typval_T> = Vec::new();
    let mut i: usize = 0;
    while i < b.marks.len()
        invariant
            i <= b.marks@.len(), out@.len() == i, textbuf_wf(b@),
            forall|k: int| 0 <= k < i ==> #[trigger] out@[k]@ == mark_entry(b.marks@[k]),
        decreases b.marks.len() - i,
    {
        out.push(mark_entry_exec(b.marks[i]));
        i += 1;
    }
    proof { lemma_items_view_index_all(out@); }
    assert forall|k: int| 0 <= k < out@.len() implies #[trigger] items_view(out@)[k] == mark_entry(b@.marks[k]) by {
        assert(out@[k]@ == mark_entry(b.marks@[k]));
    }
    assert(items_view(out@) =~= Seq::new(b@.marks.len(), |k: int| mark_entry(b@.marks[k])));
    set_list(rettv, list_T { lv_items: out, lv_lock: VarLockStatus::VAR_UNLOCKED, lv_refcount: 0 });
}

/// `"items"`, `"length"`, `"curidx"`.
pub open spec fn items_key() -> Seq<u8> { seq![105u8, 116, 101, 109, 115] }
pub open spec fn length_key() -> Seq<u8> { seq![108u8, 101, 110, 103, 116, 104] }
pub open spec fn curidx_key() -> Seq<u8> { seq![99u8, 117, 114, 105, 100, 120] }

/// "gettagstack()": `{'items': [], 'length': 0, 'curidx': 0}`: the
/// interpreter keeps no tags.
pub fn f_gettagstack(argvars: &[typval_T], rettv: &mut typval_T)
    ensures
        final(rettv)@ == (TypVal { ty: VarType::VAR_DICT, v: VVal::Dict(Some(DictVal {
            keys: seq![items_key(), length_key(), curidx_key()],
            vals: seq![list_tv(Seq::empty()), num_tv(0), num_tv(0)],
            ..empty_dict_val()
        })), ..old(rettv)@ }),
{
    let it = typval_T { v_type: VarType::VAR_LIST, v_lock: VarLockStatus::VAR_UNLOCKED, vval: typval_vval_union::v_list(Some(tv_list_alloc(0))) };
    let items: Vec<dictitem_T> = vec![
        dictitem_T { di_key: vec![105u8, 116, 101, 109, 115], di_tv: it },
        dictitem_T { di_key: vec![108u8, 101, 110, 103, 116, 104], di_tv: num_value(0) },
        dictitem_T { di_key: vec![99u8, 117, 114, 105, 100, 120], di_tv: num_value(0) },
    ];
    let d = dict_T { dv_hashtab: items, dv_lock: VarLockStatus::VAR_UNLOCKED, dv_refcount: 0, dv_watchers: Vec::new() };
    proof { lemma_dict_view_parts(d); }
    assert(d@.keys =~= seq![items_key(), length_key(), curidx_key()]);
    assert(d@.vals =~= seq![list_tv(Seq::empty()), num_tv(0), num_tv(0)]);
    assert(d@.watchers =~= Seq::<WatcherVal>::empty());
    rettv.v_type = VarType::VAR_DICT;
    rettv.vval = typval_vval_union::v_dict(Some(d));
}

/// "taglist({expr})": 0 for an empty pattern, else an empty List: the
/// interpreter knows no tags.
pub fn f_taglist(argvars: &[typval_T], rettv: &mut typval_T)
    requires argvars@.len() >= 1,
    ensures final(rettv)@ == if string_or_empty(argvars@[0]@).len() == 0 { num_tv(0) } else { with_list(old(rettv)@, Seq::empty()) },
{
    if tv_get_string(&argvars[0]).len() == 0 {
        *rettv = num_value(0);
    } else {
        set_list(rettv, tv_list_alloc(0));
    }
}

// ── screen columns ──

/// The screen column reached scanning `line` from byte `pos` with `vcol`
/// columns so far: a Tab goes to the next multiple of `ts`, any other
/// character takes one column; the scan stops after the character at or
/// past byte `target` (unless `dollar`).
pub open spec fn vcol_scan(line: Seq<u8>, pos: int, vcol: int, ts: int, target: int, dollar: bool) -> int
    decreases line.len() - pos,
{
    if pos < 0 || pos >= line.len() {
        vcol
    } else {
        let v2 = vcol + if line[pos] == 9u8 { ts - vcol % ts } else { 1 };
        if !dollar && pos >= target { v2 } else { vcol_scan(line, pos + char_len_at(line, pos), v2, ts, target, dollar) }
    }
}

/// A column from 1 as a byte index (a column below 1 stands past any line).
pub open spec fn col_index(c: int) -> int {
    if c >= 1 { c - 1 } else if c == 0 { 0 } else { i64::MAX as int }
}

/// The screen column "virtcol()" gives on the cursor line, with Tabs every
/// `ts` columns: of the end of the character at the cursor, at mark x
/// (`'x`; at column 1 when not set), or one past the end of the line (`"$"`).
pub open spec fn virtcol_of(b: TextBufVal, s: Seq<u8>, ts: int) -> int {
    let line = first_or_empty(lines_range(b, b.cur_lnum, b.cur_lnum));
    let dollar = s == dollar_bytes();
    let target = if dollar {
        line.len() as int
    } else if s == dot_bytes() {
        col_index(b.cur_col)
    } else if s.len() > 1 && s[0] == 39u8 {
        col_index(match mark_of(b.marks, mark_name(s)) { Some(m) => m.col as int, None => 1 })
    } else {
        col_index(b.cur_col)
    };
    vcol_scan(line, 0, 0, ts, target, dollar) + if dollar { 1int } else { 0int }
}

/// Whether every line is short enough for its screen columns to fit a Number.
pub open spec fn lines_short(b: TextBufVal) -> bool {
    forall|i: int| 0 <= i < eff_lines(b).len() ==> (#[trigger] eff_lines(b)[i]).len() < 0x1_0000_0000_0000
}

proof fn lemma_vcol_scan_bound(line: Seq<u8>, pos: int, vcol: int, ts: int, target: int, dollar: bool)
    requires 0 <= pos <= line.len(), 0 <= vcol, 0 < ts,
    ensures vcol <= vcol_scan(line, pos, vcol, ts, target, dollar) <= vcol + ts * (line.len() - pos + 1),
    decreases line.len() - pos,
{
    if pos < line.len() {
        let w = if line[pos] == 9u8 { ts - vcol % ts } else { 1 };
        assert(1 <= w <= ts);
        let n = char_len_at(line, pos);
        if !(!dollar && pos >= target) {
            lemma_vcol_scan_bound(line, pos + n, vcol + w, ts, target, dollar);
            assert(ts * (line.len() - (pos + n) + 1) + w <= ts * (line.len() - pos + 1)) by (nonlinear_arith)
                requires n >= 1, w <= ts, ts > 0;
        } else {
            assert(w <= ts * (line.len() - pos + 1)) by (nonlinear_arith)
                requires w <= ts, ts > 0, line.len() - pos >= 1;
        }
    } else {
        assert(0 <= ts * (line.len() - pos + 1)) by (nonlinear_arith)
            requires ts > 0, line.len() - pos + 1 >= 0;
    }
}

/// "virtcol({expr} [, {list}])": the screen column of `{expr}` on the
/// cursor line (see `virtcol_of`), `ts` being the 'tabstop' option (8 when
/// not positive); with a true `{list}` the List `[col, col]`.
pub fn f_virtcol(b: &TextBuf, argvars: &[typval_T], rettv: &mut typval_T, tabstop: i64)
    requires textbuf_wf(b@), lines_short(b@), argvars@.len() >= 1, tabstop <= 9999,
    ensures ({
        let v = virtcol_of(b@, string_or_empty(argvars@[0]@), if tabstop > 0 { tabstop as int } else { 8 });
        final(rettv)@ == if argvars@.len() > 1 && number_chk_result(argvars@[1]@, false) != 0 {
            with_list(old(rettv)@, seq![num_tv(v), num_tv(v)])
        } else {
            num_tv(v)
        }
    }),
{
    let s = tv_get_string(&argvars[0]);
    let want_list = argvars.len() > 1 && tv_get_bool(&argvars[1]) != 0;
    let r = get_buffer_lines(b, b.cur_lnum, b.cur_lnum);
    let line: Vec<u8> = if r.len() > 0 { bytes_dup(&r[0]) } else { Vec::new() };
    assert(lines_view(r@) =~= lines_range(b@, b@.cur_lnum, b@.cur_lnum));
    assert(line@ == first_or_empty(lines_range(b@, b@.cur_lnum, b@.cur_lnum)));
    let ts: i64 = if tabstop > 0 { tabstop } else { 8 };
    let dot: [u8; 1] = [46u8];
    let dl: [u8; 1] = [36u8];
    assert(dot@ =~= dot_bytes());
    assert(dl@ =~= dollar_bytes());
    let dollar = bytes_is(&s, &dl);
    let ci = |c: i64| -> (t: i64)
        ensures t as int == col_index(c as int),
    { if c >= 1 { c - 1 } else if c == 0 { 0 } else { i64::MAX } };
    let target: i64 = if dollar {
        line.len() as i64
    } else if bytes_is(&s, &dot) {
        ci(b.cur_col)
    } else if s.len() > 1 && s[0] == 39u8 {
        match getmark(b, mark_name_of(&s)) { Some((_, c)) => ci(c), None => ci(1) }
    } else {
        ci(b.cur_col)
    };
    proof {
        if r.len() > 0 {
            let lr = lines_range(b@, b@.cur_lnum, b@.cur_lnum);
            assert(lr[0] == eff_lines(b@)[b@.cur_lnum - 1]);
        }
        lemma_vcol_scan_bound(line@, 0, 0, ts as int, target as int, dollar);
    }
    let mut pos: usize = 0;
    let mut vcol: i64 = 0;
    let mut stop = false;
    assert(ts * (line@.len() + 1) <= 9999 * (line@.len() + 1)) by (nonlinear_arith)
        requires 0 < ts <= 9999;
    assert(9999 * (line@.len() + 1) < 0x7fff_ffff_ffff_fff0) by (nonlinear_arith)
        requires line@.len() < 0x1_0000_0000_0000;
    while pos < line.len() && !stop
        invariant
            pos <= line@.len(), 0 <= vcol, 0 < ts <= 9999, line@.len() < 0x1_0000_0000_0000,
            ts * (line@.len() + 1) < 0x7fff_ffff_ffff_fff0,
            !stop ==> vcol + ts * (line@.len() - pos + 1) <= ts * (line@.len() + 1),
            vcol <= ts * (line@.len() + 1),
            stop ==> vcol_scan(line@, 0, 0, ts as int, target as int, dollar) == vcol,
            !stop ==> vcol_scan(line@, 0, 0, ts as int, target as int, dollar) == vcol_scan(line@, pos as int, vcol as int, ts as int, target as int, dollar),
        decreases line.len() - pos + (if stop { 0int } else { 1int }),
    {
        let w: i64 = if line[pos] == 9u8 { ts - vcol % ts } else { 1 };
        let n = char_len_exec(line.as_slice(), pos);
        assert(ts * (line@.len() - (pos + n) + 1) + w <= ts * (line@.len() - pos + 1)) by (nonlinear_arith)
            requires n >= 1, w <= ts, ts > 0, w >= 1;
        assert(w <= ts * (line@.len() - pos + 1)) by (nonlinear_arith)
            requires w <= ts, ts > 0, line@.len() - pos + 1 >= 1;
        vcol = vcol + w;
        if !dollar && (pos as i64) >= target {
            stop = true;
        } else {
            pos = pos + n;
        }
    }
    if dollar {
        vcol = vcol + 1;
    }
    if want_list {
        let v: Vec<i64> = vec![vcol, vcol];
        assert(num_values(v@) =~= seq![num_tv(vcol as int), num_tv(vcol as int)]);
        set_num_list(rettv, v);
    } else {
        *rettv = num_value(vcol);
    }
}

/// The keys of the entry "getbufinfo()" gives.
pub open spec fn bufinfo_keys() -> Seq<Seq<u8>> {
    seq![seq![98u8, 117, 102, 110, 114], seq![110u8, 97, 109, 101], seq![108u8, 110, 117, 109], seq![108u8, 105, 110, 101, 99, 111, 117, 110, 116], seq![108u8, 111, 97, 100, 101, 100], seq![108u8, 105, 115, 116, 101, 100], seq![104u8, 105, 100, 100, 101, 110], seq![99u8, 104, 97, 110, 103, 101, 100], seq![99u8, 104, 97, 110, 103, 101, 100, 116, 105, 99, 107], seq![119u8, 105, 110, 100, 111, 119, 115], seq![112u8, 111, 112, 117, 112, 115]]
}

/// The entry "getbufinfo()" gives for the one buffer: number 1, no name,
/// the cursor line, the number of lines, loaded and listed, not hidden or
/// changed, no windows or popups.
pub open spec fn bufinfo_entry(b: TextBufVal) -> TypVal {
    dict_tv(DictVal { keys: bufinfo_keys(), vals: seq![num_tv(1), str_tv(Seq::empty()), num_tv(b.cur_lnum), num_tv(buf_len(b)), num_tv(1), num_tv(1), num_tv(0), num_tv(0), num_tv(1), list_tv(Seq::empty()), list_tv(Seq::empty())], ..empty_dict_val() })
}

fn empty_list_value() -> (r: typval_T)
    ensures r@ == list_tv(Seq::empty()),
{
    let l = tv_list_alloc(0);
    typval_T { v_type: VarType::VAR_LIST, v_lock: VarLockStatus::VAR_UNLOCKED, vval: typval_vval_union::v_list(Some(l)) }
}

/// "getbufinfo()": a List with the entry of the one buffer there is.
pub fn f_getbufinfo(b: &TextBuf, argvars: &[typval_T], rettv: &mut typval_T)
    requires textbuf_wf(b@),
    ensures final(rettv)@ == with_list(old(rettv)@, seq![bufinfo_entry(b@)]),
{
    let items: Vec<dictitem_T> = vec![
        dictitem_T { di_key: vec![98u8, 117, 102, 110, 114], di_tv: num_value(1) },
        dictitem_T { di_key: vec![110u8, 97, 109, 101], di_tv: str_value(Vec::new()) },
        dictitem_T { di_key: vec![108u8, 110, 117, 109], di_tv: num_value(b.cur_lnum) },
        dictitem_T { di_key: vec![108u8, 105, 110, 101, 99, 111, 117, 110, 116], di_tv: num_value(curbuf_len(b)) },
        dictitem_T { di_key: vec![108u8, 111, 97, 100, 101, 100], di_tv: num_value(1) },
        dictitem_T { di_key: vec![108u8, 105, 115, 116, 101, 100], di_tv: num_value(1) },
        dictitem_T { di_key: vec![104u8, 105, 100, 100, 101, 110], di_tv: num_value(0) },
        dictitem_T { di_key: vec![99u8, 104, 97, 110, 103, 101, 100], di_tv: num_value(0) },
        dictitem_T { di_key: vec![99u8, 104, 97, 110, 103, 101, 100, 116, 105, 99, 107], di_tv: num_value(1) },
        dictitem_T { di_key: vec![119u8, 105, 110, 100, 111, 119, 115], di_tv: empty_list_value() },
        dictitem_T { di_key: vec![112u8, 111, 112, 117, 112, 115], di_tv: empty_list_value() },
    ];
    let d = dict_T { dv_hashtab: items, dv_lock: VarLockStatus::VAR_UNLOCKED, dv_refcount: 0, dv_watchers: Vec::new() };
    proof { lemma_dict_view_parts(d); }
    assert(d@.keys =~= bufinfo_keys());
    assert(d@.vals =~= bufinfo_entry(b@).v->Dict_0->Some_0.vals);
    assert(d@.watchers =~= Seq::<WatcherVal>::empty());
    let e = typval_T { v_type: VarType::VAR_DICT, v_lock: VarLockStatus::VAR_UNLOCKED, vval: typval_vval_union::v_dict(Some(d)) };
    let out: Vec<typval_T> = vec![e];
    proof { lemma_items_view_index_all(out@); }
    assert(items_view(out@) =~= seq![bufinfo_entry(b@)]);
    set_list(rettv, list_T { lv_items: out, lv_lock: VarLockStatus::VAR_UNLOCKED, lv_refcount: 0 });
}

// ── laws ──

/// After "setline(lnum, text)" with `lnum` a line of the buffer or the one
/// after it, the lines from `lnum` read back as the text.
pub proof fn lemma_setline_getline(b: TextBufVal, lnum: int, new: Seq<Seq<u8>>)
    requires 1 <= lnum <= buf_len(b) + 1, new.len() > 0,
    ensures
        lines_set(b, lnum, new, false).1 == 0,
        lines_range(lines_set(b, lnum, new, false).0, lnum, lnum + new.len() - 1) == new,
{
    let r = lines_set(b, lnum, new, false).0;
    let l = eff_lines(b);
    let st = lnum - 1;
    let tail = if st + new.len() < l.len() { l.subrange(st + new.len(), l.len() as int) } else { Seq::<Seq<u8>>::empty() };
    assert(r.lines == l.subrange(0, st) + new + tail);
    assert(eff_lines(r) == r.lines);
    assert(lines_range(r, lnum, lnum + new.len() - 1) =~= new);
}

/// After "append(lnum, text)" with `lnum` from 0 to the last line, the lines
/// after `lnum` read back as the text, and the buffer grew by its length.
pub proof fn lemma_append_getline(b: TextBufVal, lnum: int, new: Seq<Seq<u8>>)
    requires 0 <= lnum <= buf_len(b), new.len() > 0,
    ensures
        lines_range(lines_set(b, lnum, new, true).0, lnum + 1, lnum + new.len()) == new,
        buf_len(lines_set(b, lnum, new, true).0) == buf_len(b) + new.len(),
{
    let r = lines_set(b, lnum, new, true).0;
    let l = eff_lines(b);
    assert(r.lines == l.subrange(0, lnum) + new + l.subrange(lnum, l.len() as int));
    assert(eff_lines(r) == r.lines);
    assert(lines_range(r, lnum + 1, lnum + new.len()) =~= new);
}

/// The cursor stays on the buffer: on one of its lines, at most one column
/// past the end of that line.
pub proof fn lemma_cursor_in_buffer(b: TextBufVal, lnum: int, col: int)
    ensures
        1 <= cursor_set(b, lnum, col).cur_lnum <= buf_len(b),
        1 <= cursor_set(b, lnum, col).cur_col <= eff_lines(b)[cursor_set(b, lnum, col).cur_lnum - 1].len() + 1,
        cursor_set(b, lnum, col).lines == b.lines,
{
}

/// After a mark is set, it reads back at the new place, every other mark is
/// where it was, and the marks stay ordered.
pub proof fn lemma_setmark_getmark(marks: Seq<Mark>, name: u32, lnum: i64, col: i64, other: u32)
    requires marks_sorted(marks), other != name,
    ensures
        marks_sorted(marks_set(marks, name, lnum as int, col as int)),
        mark_of(marks_set(marks, name, lnum as int, col as int), name) == Some(Mark { name, lnum, col }),
        mark_of(marks_set(marks, name, lnum as int, col as int), other) == mark_of(marks, other),
{
    lemma_marks_before(marks, name);
    let m2 = marks_set(marks, name, lnum as int, col as int);
    let i = marks_before(marks, name);
    assert(marks_sorted(m2));
    lemma_mark_of(m2, name);
    lemma_mark_of(m2, other);
    lemma_mark_of(marks, other);
    lemma_marks_before(m2, name);
    lemma_marks_before(m2, other);
    lemma_marks_before(marks, other);
    assert(m2[i].name == name);
    if mark_of(m2, other) is Some {
        let j = choose|k: int| 0 <= k < m2.len() && (#[trigger] m2[k]).name == other;
        if i < marks.len() && marks[i].name == name {
            assert(marks[j].name == other);
        } else if j < i {
            assert(marks[j].name == other);
        } else {
            assert(marks[j - 1].name == other);
        }
    }
    if mark_of(marks, other) is Some {
        let j = choose|k: int| 0 <= k < marks.len() && (#[trigger] marks[k]).name == other;
        if i < marks.len() && marks[i].name == name {
            assert(m2[j].name == other);
        } else if j < i {
            assert(m2[j].name == other);
        } else {
            assert(m2[j + 1].name == other);
        }
    }
    if mark_of(m2, other) is Some && mark_of(marks, other) is Some {
        let mo = marks_before(marks, other);
        let m2o = marks_before(m2, other);
        assert(m2[m2o] == mark_of(m2, other)->Some_0);
        assert(marks[mo] == mark_of(marks, other)->Some_0);
        if i < marks.len() && marks[i].name == name {
            assert(m2[mo].name == other);
            if m2o < mo { assert(m2[m2o].name < m2[mo].name); }
            if m2o > mo { assert(m2[mo].name < m2[m2o].name); }
        } else if mo < i {
            assert(m2[mo].name == other);
            if m2o < mo { assert(m2[m2o].name < m2[mo].name); }
            if m2o > mo { assert(m2[mo].name < m2[m2o].name); }
        } else {
            assert(m2[mo + 1].name == other);
            if m2o < mo + 1 { assert(m2[m2o].name < m2[mo + 1].name); }
            if m2o > mo + 1 { assert(m2[mo + 1].name < m2[m2o].name); }
        }
    }
}

proof fn lemma_byte2line_scan(lines: Seq<Seq<u8>>, l: int, k: int)
    requires 1 <= k <= l <= lines.len(),
    ensures byte2line_from(lines, 1 + prefix_bytes(lines, l - 1), k) == l,
    decreases l - k,
{
    if k < l {
        lemma_prefix_bytes_mono(lines, k, l - 1);
        lemma_byte2line_scan(lines, l, k + 1);
    } else {
        lemma_prefix_bytes_mono(lines, 0, l - 1);
    }
}

/// "byte2line()" of where "line2byte()" says a line starts gives the line back.
pub proof fn lemma_byte2line_line2byte(b: TextBufVal, lnum: int)
    requires 1 <= lnum <= buf_len(b),
    ensures
        line2byte_of(b, lnum) >= 1,
        byte2line_of(b, line2byte_of(b, lnum)) == lnum,
{
    lemma_prefix_bytes_mono(eff_lines(b), 0, lnum - 1);
    lemma_byte2line_scan(eff_lines(b), lnum, 1);
}

} // verus!
