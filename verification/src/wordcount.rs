//! Counting the buffer: "wordcount()" and "indent()".
use vstd::prelude::*;
use crate::typval_defs::{
    varnumber_T, OK, FAIL, VarType, VarLockStatus, BoolVarValue, SpecialVarValue, typval_vval_union,
    typval_T, list_T, dict_T, dictitem_T, blob_T, partial_T, Callback, DictWatcher, TypVal, VVal,
    ListVal, DictVal, BlobVal, CallbackVal, WatcherVal, tv_view, list_view, dict_view, items_view, dict_index_of,
    mk_tv, num_tv, str_tv, list_tv, blob_tv, dict_tv, empty_dict_val, dict_wf, keys_unique,
    lemma_items_view_ext, lemma_items_view_index, lemma_items_view_push, lemma_items_view_subrange,
    lemma_items_view_add, lemma_items_view_reverse, lemma_items_view_update, lemma_items_view_insert,
    lemma_items_view_remove, lemma_items_view_empty,
};
use crate::charset::{nr2str, nr2bytes, str2nr, str2nr_all};
use crate::dup::{bytes_dup, tv_dup, list_dup, dict_dup, blob_dup, items_dup, slice_to_vec, callback_dup, append_bytes};
use crate::typval::{
    number_of, number_chk_result, string_of, string_or_empty, tv_get_number_chk, tv_get_number,
    tv_get_bool, tv_get_string, tv_get_string_chk, tv_get_string_buf_chk, tv_equal, tv_equal_spec,
    bytes_eq, dict_find_index,
};
use crate::typval_dict::lemma_dict_view_parts;
use crate::typval_list::number_tv;
use crate::list_funcs::with_dict;
use crate::charset::{utf8_split, utf8_chars, char_len_at, is_cont};
use crate::highlight::{ws_words, split_words, word_fold, word_step};
use crate::textbuf::{TextBuf, TextBufVal, textbuf_wf, eff_lines, buf_len, lines_range, prefix_bytes, size_fits, get_buffer_lines, curbuf_len};

verus! {


/// How far the cursor's line counts toward "wordcount()": the bytes before
/// column `col` (a column of 0 none, a negative one the whole line).
pub open spec fn upto_len(line: Seq<u8>, col: int) -> int {
    if col < 0 { line.len() as int } else if col == 0 { 0 } else if col - 1 < line.len() { col - 1 } else { line.len() as int }
}

/// Bytes, characters and words of the first `n` lines, a newline counted
/// after each line as a byte and a character.
pub open spec fn wc_totals(lines: Seq<Seq<u8>>, n: int) -> (int, int, int)
    decreases n,
{
    if n <= 0 || n > lines.len() { (0, 0, 0) } else {
        let r = wc_totals(lines, n - 1);
        let l = lines[n - 1];
        (r.0 + l.len() + 1, r.1 + utf8_split(l).len() + 1, r.2 + ws_words(l).len())
    }
}

/// The same up to the cursor at line `lnum`, column `col`: whole lines
/// before it, then the part of its line before the column.
pub open spec fn wc_cursor(lines: Seq<Seq<u8>>, lnum: int, col: int, n: int) -> (int, int, int)
    decreases n,
{
    if n <= 0 || n > lines.len() { (0, 0, 0) } else {
        let r = wc_cursor(lines, lnum, col, n - 1);
        let l = lines[n - 1];
        if n < lnum {
            (r.0 + l.len() + 1, r.1 + utf8_split(l).len() + 1, r.2 + ws_words(l).len())
        } else if n == lnum {
            let u = l.subrange(0, upto_len(l, col));
            (r.0 + u.len(), r.1 + utf8_split(u).len(), r.2 + ws_words(u).len())
        } else {
            r
        }
    }
}

/// The cursor column falls on a character boundary of its line.
pub open spec fn cursor_on_boundary(b: TextBufVal) -> bool {
    let lines = eff_lines(b);
    1 <= b.cur_lnum <= lines.len() ==> ({
        let l = lines[b.cur_lnum - 1];
        let k = upto_len(l, b.cur_col);
        !(0 < k < l.len() && is_cont(l[k]))
    })
}

/// The keys of "wordcount()".
pub open spec fn wc_keys() -> Seq<Seq<u8>> {
    seq![seq![98u8, 121, 116, 101, 115], seq![99u8, 104, 97, 114, 115], seq![119u8, 111, 114, 100, 115],
        seq![99u8, 117, 114, 115, 111, 114, 95, 98, 121, 116, 101, 115], seq![99u8, 117, 114, 115, 111, 114, 95, 99, 104, 97, 114, 115],
        seq![99u8, 117, 114, 115, 111, 114, 95, 119, 111, 114, 100, 115]]
}

proof fn lemma_split_le(s: Seq<u8>)
    ensures utf8_split(s).len() <= s.len(),
    decreases s.len(),
{
    if s.len() > 0 {
        lemma_split_le(s.subrange(char_len_at(s, 0), s.len() as int));
    }
}

proof fn lemma_fold_le(cs: Seq<Seq<u8>>, n: int)
    requires 0 <= n <= cs.len(),
    ensures word_fold(cs, n).0.len() + (if word_fold(cs, n).1.len() > 0 { 1int } else { 0int }) <= n,
    decreases n,
{
    if n > 0 { lemma_fold_le(cs, n - 1); }
}

proof fn lemma_words_le(s: Seq<u8>)
    ensures ws_words(s).len() <= s.len(),
{
    lemma_split_le(s);
    lemma_fold_le(utf8_split(s), utf8_split(s).len() as int);
}

proof fn lemma_totals_le(lines: Seq<Seq<u8>>, n: int)
    requires 0 <= n <= lines.len(),
    ensures
        wc_totals(lines, n).0 == prefix_bytes(lines, n),
        0 <= wc_totals(lines, n).2 <= wc_totals(lines, n).1 <= wc_totals(lines, n).0,
    decreases n,
{
    if n > 0 {
        lemma_totals_le(lines, n - 1);
        lemma_split_le(lines[n - 1]);
        lemma_words_le(lines[n - 1]);
        lemma_split_le(lines[n - 1]);
        lemma_word_le_chars(lines[n - 1]);
    }
}

proof fn lemma_word_le_chars(s: Seq<u8>)
    ensures ws_words(s).len() <= utf8_split(s).len(),
{
    lemma_fold_le(utf8_split(s), utf8_split(s).len() as int);
}

proof fn lemma_cursor_le(lines: Seq<Seq<u8>>, lnum: int, col: int, n: int)
    requires 0 <= n <= lines.len(),
    ensures
        0 <= wc_cursor(lines, lnum, col, n).0 <= prefix_bytes(lines, n),
        0 <= wc_cursor(lines, lnum, col, n).1 <= prefix_bytes(lines, n),
        0 <= wc_cursor(lines, lnum, col, n).2 <= prefix_bytes(lines, n),
    decreases n,
{
    if n > 0 {
        lemma_cursor_le(lines, lnum, col, n - 1);
        let l = lines[n - 1];
        lemma_split_le(l);
        lemma_words_le(l);
        let u = l.subrange(0, upto_len(l, col));
        lemma_split_le(u);
        lemma_words_le(u);
    }
}

proof fn lemma_prefix_mono(lines: Seq<Seq<u8>>, j: int, k: int)
    requires 0 <= j <= k <= lines.len(),
    ensures 0 <= prefix_bytes(lines, j) <= prefix_bytes(lines, k),
    decreases k,
{
    if j < k {
        lemma_prefix_mono(lines, j, k - 1);
    } else if k > 0 {
        lemma_prefix_mono(lines, 0, k - 1);
    }
}

/// "wordcount()": the bytes, characters and words of the buffer, and those
/// before the cursor, as a Dict.
pub fn f_wordcount(b: &TextBuf, argvars: &[typval_T], rettv: &mut typval_T)
    requires textbuf_wf(b@), size_fits(b@), cursor_on_boundary(b@),
    ensures ({
        let lines = eff_lines(b@);
        let t = wc_totals(lines, lines.len() as int);
        let c = wc_cursor(lines, b@.cur_lnum, b@.cur_col, lines.len() as int);
        final(rettv)@ == with_dict(old(rettv)@, DictVal {
            keys: wc_keys(),
            vals: seq![num_tv(t.0), num_tv(t.1), num_tv(t.2), num_tv(c.0), num_tv(c.1), num_tv(c.2)],
            ..empty_dict_val()
        })
    }),
{
    let n = curbuf_len(b);
    let lines = get_buffer_lines(b, 1, n);
    let ghost gl = eff_lines(b@);
    assert(lines_range(b@, 1, n as int) =~= gl);
    let clnum = b.cur_lnum;
    let ccol = b.cur_col;
    proof { lemma_prefix_mono(gl, 0, gl.len() as int); }
    let (mut bytes, mut chars, mut words): (i64, i64, i64) = (0, 0, 0);
    let (mut cb, mut cc, mut cw): (i64, i64, i64) = (0, 0, 0);
    let mut i: usize = 0;
    while i < lines.len()
        invariant
            i <= lines@.len(), lines@.len() == gl.len(),
            forall|k: int| 0 <= k < lines@.len() ==> #[trigger] lines@[k]@ == gl[k],
            prefix_bytes(gl, gl.len() as int) + 1 < i64::MAX,
            clnum == b@.cur_lnum, ccol == b@.cur_col, cursor_on_boundary(b@), gl == eff_lines(b@), textbuf_wf(b@),
            (bytes as int, chars as int, words as int) == wc_totals(gl, i as int),
            (cb as int, cc as int, cw as int) == wc_cursor(gl, clnum as int, ccol as int, i as int),
        decreases lines.len() - i,
    {
        proof {
            lemma_totals_le(gl, i as int + 1);
            lemma_cursor_le(gl, clnum as int, ccol as int, i as int + 1);
            lemma_prefix_mono(gl, i as int + 1, gl.len() as int);
        }
        let line = &lines[i];
        proof {
            assert(line@ == gl[i as int]);
            lemma_words_le(gl[i as int]);
            lemma_split_le(gl[i as int]);
            lemma_prefix_mono(gl, i as int, i as int + 1);
        }
        let lnum: i64 = i as i64 + 1;
        let lw = split_words(line.as_slice()).len() as i64;
        let lc = utf8_chars(line.as_slice()).len() as i64;
        let ll = line.len() as i64;
        words = words + lw;
        if lnum < clnum {
            cb = cb + ll + 1;
            cc = cc + lc + 1;
            cw = cw + lw;
        } else if lnum == clnum {
            let k: usize = if ccol < 0 { line.len() } else if ccol == 0 { 0 } else if ((ccol - 1) as u64) < (line.len() as u64) { (ccol - 1) as usize } else { line.len() };
            let u = &line[0..k];
            assert(u@ =~= gl[i as int].subrange(0, upto_len(gl[i as int], ccol as int)));
            proof { lemma_split_le(u@); lemma_words_le(u@); }
            cb = cb + k as i64;
            cc = cc + utf8_chars(u).len() as i64;
            cw = cw + split_words(u).len() as i64;
        }
        bytes = bytes + ll + 1;
        chars = chars + lc + 1;
        i += 1;
    }
    let items: Vec<dictitem_T> = vec![
        dictitem_T { di_key: vec![98u8, 121, 116, 101, 115], di_tv: number_tv(bytes) },
        dictitem_T { di_key: vec![99u8, 104, 97, 114, 115], di_tv: number_tv(chars) },
        dictitem_T { di_key: vec![119u8, 111, 114, 100, 115], di_tv: number_tv(words) },
        dictitem_T { di_key: vec![99u8, 117, 114, 115, 111, 114, 95, 98, 121, 116, 101, 115], di_tv: number_tv(cb) },
        dictitem_T { di_key: vec![99u8, 117, 114, 115, 111, 114, 95, 99, 104, 97, 114, 115], di_tv: number_tv(cc) },
        dictitem_T { di_key: vec![99u8, 117, 114, 115, 111, 114, 95, 119, 111, 114, 100, 115], di_tv: number_tv(cw) },
    ];
    let d = dict_T { dv_hashtab: items, dv_lock: VarLockStatus::VAR_UNLOCKED, dv_refcount: 0, dv_watchers: Vec::new() };
    proof { lemma_dict_view_parts(d); }
    assert(d@.keys =~= wc_keys());
    assert(d@.vals =~= seq![num_tv(bytes as int), num_tv(chars as int), num_tv(words as int), num_tv(cb as int), num_tv(cc as int), num_tv(cw as int)]);
    assert(d@.watchers =~= Seq::<WatcherVal>::empty());
    rettv.v_type = VarType::VAR_DICT;
    rettv.vval = typval_vval_union::v_dict(Some(d));
}

/// The screen width of the leading white space of `l` from `i` on, at
/// column `col`: a space is one column, a Tab goes to the next multiple of
/// `ts`.
pub open spec fn indent_from(l: Seq<u8>, i: int, col: int, ts: int) -> int
    decreases l.len() - i,
{
    if 0 <= i < l.len() && l[i] == 32u8 {
        indent_from(l, i + 1, col + 1, ts)
    } else if 0 <= i < l.len() && l[i] == 9u8 {
        indent_from(l, i + 1, col + ts - col % ts, ts)
    } else {
        col
    }
}

proof fn lemma_indent_bound(l: Seq<u8>, i: int, col: int, ts: int)
    requires 0 <= i <= l.len(), 0 <= col <= i * ts, 0 < ts,
    ensures 0 <= indent_from(l, i, col, ts) <= l.len() * ts,
    decreases l.len() - i,
{
    if i < l.len() && l[i] == 32u8 {
        assert(col + 1 <= (i + 1) * ts) by (nonlinear_arith) requires col <= i * ts, ts >= 1;
        lemma_indent_bound(l, i + 1, col + 1, ts);
    } else if i < l.len() && l[i] == 9u8 {
        assert(0 <= col % ts < ts) by (nonlinear_arith) requires ts > 0;
        assert(col + ts - col % ts <= (i + 1) * ts) by (nonlinear_arith) requires col <= i * ts, ts >= 1, col % ts >= 0;
        lemma_indent_bound(l, i + 1, col + ts - col % ts, ts);
    } else {
        assert(i * ts <= l.len() * ts) by (nonlinear_arith) requires i <= l.len(), ts > 0;
    }
}

/// "indent({lnum})": the indent of line `{lnum}`, `tabstop` being the
/// 'tabstop' option (8 when not positive); -1 for a line the buffer does
/// not have.
pub fn f_indent(b: &TextBuf, argvars: &[typval_T], rettv: &mut typval_T, tabstop: i64)
    requires textbuf_wf(b@), crate::textbuf::lines_short(b@), argvars@.len() >= 1, tabstop <= 9999,
    ensures ({
        let lnum = crate::textbuf::lnum_of(b@, argvars@[0]@);
        let ts = if tabstop > 0 { tabstop as int } else { 8 };
        final(rettv)@ == crate::funcs_basic::with_number(old(rettv)@,
            if lnum < 1 || lnum > buf_len(b@) { -1 } else { indent_from(eff_lines(b@)[lnum - 1], 0, 0, ts) })
    }),
{
    let lnum = crate::textbuf::tv_get_lnum(b, &argvars[0]);
    if lnum < 1 || lnum > curbuf_len(b) {
        rettv.vval = typval_vval_union::v_number(-1);
        return;
    }
    let lines = get_buffer_lines(b, lnum, lnum);
    let ghost l = eff_lines(b@)[lnum - 1];
    assert(lines_range(b@, lnum as int, lnum as int) =~= seq![l]);
    let line = &lines[0];
    let ts: i64 = if tabstop > 0 { tabstop } else { 8 };
    proof { lemma_indent_bound(l, 0, 0, ts as int); }
    let mut col: i64 = 0;
    let mut i: usize = 0;
    while i < line.len() && (line[i] == 32u8 || line[i] == 9u8)
        invariant
            i <= line@.len(), line@ == l, 0 < ts <= 9999, l.len() < 0x1_0000_0000_0000,
            0 <= col <= i * ts, indent_from(l, i as int, col as int, ts as int) == indent_from(l, 0, 0, ts as int),
        decreases line.len() - i,
    {
        assert((i + 1) * ts <= 0x1_0000_0000_0000 * 9999) by (nonlinear_arith) requires i < 0x1_0000_0000_0000, 0 < ts <= 9999;
        if line[i] == 32u8 {
            assert(col + 1 <= (i + 1) * ts) by (nonlinear_arith) requires col <= i * ts, ts >= 1;
            col = col + 1;
        } else {
            assert(0 <= col % ts < ts) by (nonlinear_arith) requires ts > 0, col >= 0;
            assert(col + ts - col % ts <= (i + 1) * ts) by (nonlinear_arith) requires col <= i * ts, ts >= 1, col % ts >= 0;
            col = col + ts - col % ts;
        }
        i += 1;
    }
    rettv.vval = typval_vval_union::v_number(col);
}

} // verus!
