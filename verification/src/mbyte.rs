//! Characters of UTF-8 byte strings: code points, encoding, and cells (a character with its combining marks).
use vstd::prelude::*;
use crate::typval_defs::{
    varnumber_T, OK, FAIL, VarType, VarLockStatus, BoolVarValue, SpecialVarValue, typval_vval_union,
    typval_T, list_T, dict_T, dictitem_T, blob_T, partial_T, Callback, DictWatcher, TypVal, VVal,
    ListVal, DictVal, BlobVal, CallbackVal, WatcherVal, tv_view, list_view, dict_view, items_view, dict_index_of,
    mk_tv, num_tv, str_tv, list_tv, blob_tv, dict_tv, empty_dict_val, dict_wf, keys_unique,
    lemma_items_view_ext, lemma_items_view_index, lemma_items_view_push, lemma_items_view_subrange,
    lemma_items_view_add, lemma_items_view_reverse, lemma_items_view_update, lemma_items_view_insert,
    lemma_items_view_remove, lemma_items_view_empty,
};
use crate::charset::{nr2str, nr2bytes, str2nr, str2nr_all};
use crate::dup::{bytes_dup, tv_dup, list_dup, dict_dup, blob_dup, items_dup, slice_to_vec, callback_dup, append_bytes};
use crate::typval::{
    number_of, number_chk_result, string_of, string_or_empty, tv_get_number_chk, tv_get_number,
    tv_get_bool, tv_get_string, tv_get_string_chk, tv_get_string_buf_chk, tv_equal, tv_equal_spec,
    bytes_eq, dict_find_index,
};
use crate::charset::{utf8_split, char_len_at, utf8_chars, char_len_exec};

verus! {

/// The code point of one character given by its bytes (a lone byte stands
/// for itself).
pub open spec fn utf8_decode(c: Seq<u8>) -> int {
    if c.len() == 2 {
        (c[0] - 0xc0) * 64 + (c[1] - 0x80)
    } else if c.len() == 3 {
        (c[0] - 0xe0) * 4096 + (c[1] - 0x80) * 64 + (c[2] - 0x80)
    } else if c.len() == 4 {
        (c[0] - 0xf0) * 262144 + (c[1] - 0x80) * 4096 + (c[2] - 0x80) * 64 + (c[3] - 0x80)
    } else {
        c[0] as int
    }
}

/// The code point of the first character of `s`, 0 for an empty string.
pub open spec fn first_char_code(s: Seq<u8>) -> int {
    if s.len() == 0 { 0 } else { utf8_decode(s.subrange(0, char_len_at(s, 0))) }
}

/// The code point of the character at `i`.
pub fn char_code_at(s: &[u8], i: usize) -> (r: u32)
    requires i < s@.len(),
    ensures r as int == utf8_decode(s@.subrange(i as int, i + char_len_at(s@, i as int))),
{
    let n = char_len_exec(s, i);
    let ghost c = s@.subrange(i as int, i + n);
    if n == 2 {
        assert(c[0] == s@[i as int] && c[1] == s@[i + 1]);
        (s[i] as u32 - 0xc0) * 64 + (s[i + 1] as u32 - 0x80)
    } else if n == 3 {
        assert(c[0] == s@[i as int] && c[1] == s@[i + 1] && c[2] == s@[i + 2]);
        (s[i] as u32 - 0xe0) * 4096 + (s[i + 1] as u32 - 0x80) * 64 + (s[i + 2] as u32 - 0x80)
    } else if n == 4 {
        assert(c[0] == s@[i as int] && c[1] == s@[i + 1] && c[2] == s@[i + 2] && c[3] == s@[i + 3]);
        (s[i] as u32 - 0xf0) * 262144 + (s[i + 1] as u32 - 0x80) * 4096 + (s[i + 2] as u32 - 0x80) * 64 + (s[i + 3] as u32 - 0x80)
    } else {
        assert(c[0] == s@[i as int]);
        s[i] as u32
    }
}

/// The UTF-8 bytes of the code point `c` (up to six bytes for values past
/// Unicode, as Vim writes them).
pub open spec fn char2bytes(c: int) -> Seq<u8> {
    if c < 0x80 {
        seq![c as u8]
    } else if c < 0x800 {
        seq![(0xc0 + c / 64) as u8, (0x80 + c % 64) as u8]
    } else if c < 0x10000 {
        seq![(0xe0 + c / 4096) as u8, (0x80 + (c / 64) % 64) as u8, (0x80 + c % 64) as u8]
    } else if c < 0x200000 {
        seq![(0xf0 + c / 262144) as u8, (0x80 + (c / 4096) % 64) as u8, (0x80 + (c / 64) % 64) as u8, (0x80 + c % 64) as u8]
    } else if c < 0x4000000 {
        seq![(0xf8 + c / 16777216) as u8, (0x80 + (c / 262144) % 64) as u8, (0x80 + (c / 4096) % 64) as u8,
            (0x80 + (c / 64) % 64) as u8, (0x80 + c % 64) as u8]
    } else {
        seq![(0xfc + c / 1073741824) as u8, (0x80 + (c / 16777216) % 64) as u8, (0x80 + (c / 262144) % 64) as u8,
            (0x80 + (c / 4096) % 64) as u8, (0x80 + (c / 64) % 64) as u8, (0x80 + c % 64) as u8]
    }
}

/// The bytes of code point `c`.
pub fn char_to_bytes(c: u32) -> (r: Vec<u8>)
    requires c <= i32::MAX,
    ensures r@ == char2bytes(c as int),
{
    let mut r: Vec<u8> = Vec::new();
    if c < 0x80 {
        r.push(c as u8);
    } else if c < 0x800 {
        r.push((0xc0 + c / 64) as u8);
        r.push((0x80 + c % 64) as u8);
    } else if c < 0x10000 {
        r.push((0xe0 + c / 4096) as u8);
        r.push((0x80 + (c / 64) % 64) as u8);
        r.push((0x80 + c % 64) as u8);
    } else if c < 0x200000 {
        r.push((0xf0 + c / 262144) as u8);
        r.push((0x80 + (c / 4096) % 64) as u8);
        r.push((0x80 + (c / 64) % 64) as u8);
        r.push((0x80 + c % 64) as u8);
    } else if c < 0x4000000 {
        r.push((0xf8 + c / 16777216) as u8);
        r.push((0x80 + (c / 262144) % 64) as u8);
        r.push((0x80 + (c / 4096) % 64) as u8);
        r.push((0x80 + (c / 64) % 64) as u8);
        r.push((0x80 + c % 64) as u8);
    } else {
        r.push((0xfc + c / 1073741824) as u8);
        r.push((0x80 + (c / 16777216) % 64) as u8);
        r.push((0x80 + (c / 262144) % 64) as u8);
        r.push((0x80 + (c / 4096) % 64) as u8);
        r.push((0x80 + (c / 64) % 64) as u8);
        r.push((0x80 + c % 64) as u8);
    }
    assert(r@ =~= char2bytes(c as int));
    r
}


/// Whether code point `c` is a combining mark that belongs to the character
/// before it (the combining-mark blocks of Unicode).
pub open spec fn is_composing(c: int) -> bool {
    (0x300 <= c <= 0x36f) || (0x1ab0 <= c <= 0x1aff) || (0x1dc0 <= c <= 0x1dff)
        || (0x20d0 <= c <= 0x20ff) || (0xfe00 <= c <= 0xfe0f) || (0xfe20 <= c <= 0xfe2f)
}

fn is_composing_exec(c: u32) -> (r: bool)
    ensures r == is_composing(c as int),
{
    (0x300 <= c && c <= 0x36f) || (0x1ab0 <= c && c <= 0x1aff) || (0x1dc0 <= c && c <= 0x1dff)
        || (0x20d0 <= c && c <= 0x20ff) || (0xfe00 <= c && c <= 0xfe0f) || (0xfe20 <= c && c <= 0xfe2f)
}

/// The code point of the character at `i`.
pub open spec fn code_at(s: Seq<u8>, i: int) -> int {
    utf8_decode(s.subrange(i, i + char_len_at(s, i)))
}

/// Length of the character at `i` together with the combining characters
/// that follow it: one screen cell of text.
pub open spec fn cell_len(s: Seq<u8>, i: int) -> int
    decreases s.len() - i,
{
    if i < 0 || i >= s.len() {
        0
    } else {
        let n = char_len_at(s, i);
        if i + n < s.len() && is_composing(code_at(s, i + n)) { n + cell_len(s, i + n) } else { n }
    }
}

/// A cell is at least one byte and ends within the string.
pub proof fn lemma_cell_len_bounds(s: Seq<u8>, i: int)
    requires 0 <= i < s.len(),
    ensures 1 <= cell_len(s, i) <= s.len() - i,
    decreases s.len() - i,
{
    let n = char_len_at(s, i);
    if i + n < s.len() && is_composing(code_at(s, i + n)) {
        lemma_cell_len_bounds(s, i + n);
    }
}

proof fn lemma_char_len_shift_at(s: Seq<u8>, i: int, j: int)
    requires 0 <= i, 0 <= j, i + j < s.len(),
    ensures
        char_len_at(s.subrange(i, s.len() as int), j) == char_len_at(s, i + j),
        code_at(s.subrange(i, s.len() as int), j) == code_at(s, i + j),
{
    let t = s.subrange(i, s.len() as int);
    let n = char_len_at(s, i + j);
    assert(char_len_at(t, j) == n);
    assert(t.subrange(j, j + n) =~= s.subrange(i + j, i + j + n));
}

/// Cells do not depend on what comes before them.
pub proof fn lemma_cell_len_shift(s: Seq<u8>, i: int, j: int)
    requires 0 <= i, 0 <= j, i + j < s.len(),
    ensures cell_len(s.subrange(i, s.len() as int), j) == cell_len(s, i + j),
    decreases s.len() - i - j,
{
    let t = s.subrange(i, s.len() as int);
    lemma_char_len_shift_at(s, i, j);
    let n = char_len_at(s, i + j);
    if i + j + n < s.len() {
        lemma_char_len_shift_at(s, i, j + n);
        if is_composing(code_at(s, i + j + n)) {
            lemma_cell_len_shift(s, i, j + n);
        }
    }
}

/// Length of the cell at `i`.
pub fn cell_len_exec(s: &[u8], i: usize) -> (r: usize)
    requires i < s@.len(),
    ensures r as int == cell_len(s@, i as int), 1 <= r, i + r <= s@.len(),
{
    proof { lemma_cell_len_bounds(s@, i as int); }
    let n = char_len_exec(s, i);
    assert(i + n <= s.len());
    let mut j: usize = i + n;
    while j < s.len() && is_composing_exec(char_code_at(s, j))
        invariant
            i < j <= s@.len(),
            cell_len(s@, i as int) == (j - i) + (if j < s@.len() && is_composing(code_at(s@, j as int)) { cell_len(s@, j as int) } else { 0 }),
        decreases s@.len() - j,
    {
        let m = char_len_exec(s, j);
        assert(j + m <= s.len());
        j = j + m;
    }
    j - i
}

/// The text with its cells in reverse order.
pub open spec fn reverse_cells(s: Seq<u8>) -> Seq<u8>
    decreases s.len(),
{
    if s.len() == 0 {
        Seq::empty()
    } else {
        let n = cell_len(s, 0);
        proof { lemma_cell_len_bounds(s, 0); }
        reverse_cells(s.subrange(n, s.len() as int)) + s.subrange(0, n)
    }
}

/// Reverse a string by cells: each character stays together with the
/// combining characters that follow it.
pub fn reverse_text(s: &[u8]) -> (r: Vec<u8>)
    ensures r@ == reverse_cells(s@),
{
    let mut out: Vec<u8> = Vec::new();
    let mut i: usize = 0;
    assert(s@.subrange(0, s@.len() as int) =~= s@);
    while i < s.len()
        invariant
            i <= s@.len(),
            reverse_cells(s@) == reverse_cells(s@.subrange(i as int, s@.len() as int)) + out@,
        decreases s@.len() - i,
    {
        let n = cell_len_exec(s, i);
        let ghost rest = s@.subrange(i as int, s@.len() as int);
        proof {
            lemma_cell_len_shift(s@, i as int, 0);
            assert(rest.subrange(n as int, rest.len() as int) =~= s@.subrange(i + n, s@.len() as int));
            assert(rest.subrange(0, n as int) =~= s@.subrange(i as int, i + n));
        }
        let mut piece: Vec<u8> = Vec::new();
        append_bytes(&mut piece, bytes_between(s, i, i + n).as_slice());
        append_bytes(&mut piece, out.as_slice());
        proof {
            assert(reverse_cells(rest) == reverse_cells(s@.subrange(i + n, s@.len() as int)) + s@.subrange(i as int, i + n));
            assert(reverse_cells(s@.subrange(i + n, s@.len() as int)) + s@.subrange(i as int, i + n) + out@
                =~= reverse_cells(s@.subrange(i + n, s@.len() as int)) + piece@);
        }
        out = piece;
        i = i + n;
    }
    assert(s@.subrange(i as int, s@.len() as int) =~= Seq::<u8>::empty());
    assert(reverse_cells(Seq::<u8>::empty()) + out@ =~= out@);
    out
}

/// The bytes `s[lo..hi]`.
pub fn bytes_between(s: &[u8], lo: usize, hi: usize) -> (r: Vec<u8>)
    requires lo <= hi <= s@.len(),
    ensures r@ == s@.subrange(lo as int, hi as int),
{
    let mut r: Vec<u8> = Vec::new();
    let mut k: usize = lo;
    while k < hi
        invariant lo <= k <= hi, hi <= s@.len(), r@ == s@.subrange(lo as int, k as int),
        decreases hi - k,
    {
        r.push(s[k]);
        k += 1;
        assert(r@ =~= s@.subrange(lo as int, k as int));
    }
    r
}

/// `s` with a backslash before every single-byte cell whose byte occurs in
/// `esc`; cells of several bytes are kept as they are.
pub open spec fn escape_spec(s: Seq<u8>, esc: Seq<u8>) -> Seq<u8>
    decreases s.len(),
{
    if s.len() == 0 {
        Seq::empty()
    } else {
        let n = cell_len(s, 0);
        proof { lemma_cell_len_bounds(s, 0); }
        let head = if n > 1 { s.subrange(0, n) } else if esc.contains(s[0]) { seq![92u8, s[0]] } else { seq![s[0]] };
        head + escape_spec(s.subrange(n, s.len() as int), esc)
    }
}

/// "escape()" changes nothing in a string none of whose bytes is one of
/// the characters to escape.
pub proof fn lemma_escape_nothing_to_escape(s: Seq<u8>, esc: Seq<u8>)
    requires forall|i: int| 0 <= i < s.len() ==> !esc.contains(#[trigger] s[i]),
    ensures escape_spec(s, esc) == s,
    decreases s.len(),
{
    if s.len() > 0 {
        let n = cell_len(s, 0);
        lemma_cell_len_bounds(s, 0);
        let rest = s.subrange(n, s.len() as int);
        assert forall|i: int| 0 <= i < rest.len() implies !esc.contains(#[trigger] rest[i]) by {
            assert(rest[i] == s[i + n]);
        }
        lemma_escape_nothing_to_escape(rest, esc);
        assert(!esc.contains(s[0]));
        assert(s.subrange(0, 1) =~= seq![s[0]]);
        assert(s =~= s.subrange(0, n) + rest);
    }
}

/// "escape()" only adds backslashes: the result is at least as long as the
/// string and at most twice as long.
pub proof fn lemma_escape_length(s: Seq<u8>, esc: Seq<u8>)
    ensures s.len() <= escape_spec(s, esc).len() <= 2 * s.len(),
    decreases s.len(),
{
    if s.len() > 0 {
        let n = cell_len(s, 0);
        lemma_cell_len_bounds(s, 0);
        lemma_escape_length(s.subrange(n, s.len() as int), esc);
    }
}

fn byte_in(b: u8, set: &[u8]) -> (r: bool)
    ensures r == set@.contains(b),
{
    let mut i: usize = 0;
    while i < set.len()
        invariant i <= set@.len(), forall|k: int| 0 <= k < i ==> set@[k] != b,
        decreases set@.len() - i,
    {
        if set[i] == b {
            return true;
        }
        i += 1;
    }
    false
}

/// Backslash-escape the single-byte characters of `s` that occur in `esc`.
pub fn escape_bytes(s: &[u8], esc: &[u8]) -> (r: Vec<u8>)
    ensures r@ == escape_spec(s@, esc@),
{
    let mut out: Vec<u8> = Vec::new();
    let mut i: usize = 0;
    assert(s@.subrange(0, s@.len() as int) =~= s@);
    while i < s.len()
        invariant
            i <= s@.len(),
            escape_spec(s@, esc@) == out@ + escape_spec(s@.subrange(i as int, s@.len() as int), esc@),
        decreases s@.len() - i,
    {
        let n = cell_len_exec(s, i);
        let ghost rest = s@.subrange(i as int, s@.len() as int);
        let ghost before = out@;
        proof {
            lemma_cell_len_shift(s@, i as int, 0);
            assert(rest.subrange(n as int, rest.len() as int) =~= s@.subrange(i + n, s@.len() as int));
            assert(rest.subrange(0, n as int) =~= s@.subrange(i as int, i + n));
        }
        if n > 1 {
            append_bytes(&mut out, bytes_between(s, i, i + n).as_slice());
        } else {
            if byte_in(s[i], esc) {
                out.push(92u8);
            }
            out.push(s[i]);
        }
        proof {
            let head = if n > 1 { rest.subrange(0, n as int) } else if esc@.contains(rest[0]) { seq![92u8, rest[0]] } else { seq![rest[0]] };
            assert(out@ =~= before + head);
            assert(escape_spec(rest, esc@) == head + escape_spec(s@.subrange(i + n, s@.len() as int), esc@));
            assert(before + (head + escape_spec(s@.subrange(i + n, s@.len() as int), esc@)) =~= out@ + escape_spec(s@.subrange(i + n, s@.len() as int), esc@));
        }
        i = i + n;
    }
    assert(s@.subrange(i as int, s@.len() as int) =~= Seq::<u8>::empty());
    assert(out@ + escape_spec(Seq::<u8>::empty(), esc@) =~= out@);
    out
}

} // verus!
