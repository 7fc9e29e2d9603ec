use vimlrs::typval_defs::{typval_T, typval_vval_union, list_T, VarType, VarLockStatus};
use vimlrs::textbuf::{
    TextBuf, textbuf_new, curbuf_len, get_buffer_lines, parse_int_exec, getmark, setmark,
    set_cursorpos, set_buffer_lines, delete_buffer_lines, f_getline, f_getbufline, f_getbufoneline,
    f_setline, f_append, f_deletebufline, f_getpos, f_getcurpos, f_col, f_charcol, f_line,
    f_setpos, f_cursor, f_line2byte, f_byte2line, f_nextnonblank, f_prevnonblank, f_getmarklist,
    f_virtcol, f_taglist,
};

fn tv(t: VarType, v: typval_vval_union) -> typval_T {
    typval_T { v_type: t, v_lock: VarLockStatus::VAR_UNLOCKED, vval: v }
}

fn nr(n: i64) -> typval_T {
    tv(VarType::VAR_NUMBER, typval_vval_union::v_number(n))
}

fn s(x: &str) -> typval_T {
    tv(VarType::VAR_STRING, typval_vval_union::v_string(x.as_bytes().to_vec()))
}

fn list_of(items: Vec<typval_T>) -> typval_T {
    tv(VarType::VAR_LIST, typval_vval_union::v_list(Some(list_T { lv_items: items, lv_lock: VarLockStatus::VAR_UNLOCKED, lv_refcount: 0 })))
}

fn out() -> typval_T {
    nr(0)
}

fn num_of(t: &typval_T) -> i64 {
    match t.vval {
        typval_vval_union::v_number(n) => n,
        _ => panic!("not a Number"),
    }
}

fn str_of(t: &typval_T) -> String {
    match &t.vval {
        typval_vval_union::v_string(v) => String::from_utf8(v.clone()).unwrap(),
        _ => panic!("not a String"),
    }
}

fn items_of(t: &typval_T) -> &Vec<typval_T> {
    match &t.vval {
        typval_vval_union::v_list(Some(l)) => &l.lv_items,
        _ => panic!("not a List"),
    }
}

fn nums_of(t: &typval_T) -> Vec<i64> {
    items_of(t).iter().map(num_of).collect()
}

fn strs_of(t: &typval_T) -> Vec<String> {
    items_of(t).iter().map(str_of).collect()
}

fn buf(lines: &[&str]) -> TextBuf {
    let mut b = textbuf_new();
    b.lines = lines.iter().map(|l| l.as_bytes().to_vec()).collect();
    b
}

fn lines_of(b: &TextBuf) -> Vec<String> {
    b.lines.iter().map(|l| String::from_utf8(l.clone()).unwrap()).collect()
}

#[test]
fn new_buffer_has_one_empty_line() {
    let b = textbuf_new();
    assert_eq!(curbuf_len(&b), 1);
    let mut r = out();
    f_getline(&b, &[nr(1)], &mut r);
    assert_eq!(str_of(&r), "");
    assert_eq!(get_buffer_lines(&b, 1, 5), vec![Vec::<u8>::new()]);
}

#[test]
fn getline_one_and_range() {
    let b = buf(&["one", "two", "three"]);
    let mut r = out();
    f_getline(&b, &[nr(2)], &mut r);
    assert_eq!(str_of(&r), "two");
    f_getline(&b, &[nr(9)], &mut r);
    assert_eq!(str_of(&r), "");
    f_getline(&b, &[nr(2), s("$")], &mut r);
    assert_eq!(strs_of(&r), vec!["two", "three"]);
    f_getline(&b, &[nr(3), nr(1)], &mut r);
    assert!(strs_of(&r).is_empty());
    f_getline(&b, &[s("."), nr(0)], &mut r);
    assert!(strs_of(&r).is_empty());
}

#[test]
fn getbufline_and_oneline() {
    let b = buf(&["a", "b", "c"]);
    let mut r = out();
    f_getbufline(&b, &[nr(0), nr(2)], &mut r);
    assert_eq!(strs_of(&r), vec!["b"]);
    f_getbufline(&b, &[nr(0), nr(1), nr(3)], &mut r);
    assert_eq!(strs_of(&r), vec!["a", "b", "c"]);
    f_getbufoneline(&b, &[nr(0), nr(3)], &mut r);
    assert_eq!(str_of(&r), "c");
}

#[test]
fn setline_then_getline_gives_the_line() {
    let mut b = buf(&["one", "two"]);
    let mut r = out();
    f_setline(&mut b, &[nr(2), s("deux")], &mut r);
    assert_eq!(num_of(&r), 0);
    f_getline(&b, &[nr(2)], &mut r);
    assert_eq!(str_of(&r), "deux");
    f_setline(&mut b, &[nr(2), list_of(vec![s("x"), s("y"), s("z")])], &mut r);
    assert_eq!(lines_of(&b), vec!["one", "x", "y", "z"]);
}

#[test]
fn setline_below_one_fails() {
    let mut b = buf(&["one"]);
    let mut r = out();
    f_setline(&mut b, &[nr(0), s("x")], &mut r);
    assert_eq!(num_of(&r), 1);
    assert_eq!(lines_of(&b), vec!["one"]);
}

#[test]
fn setline_past_end_adds_only_the_next_line() {
    let mut b = buf(&["one"]);
    let mut r = out();
    f_setline(&mut b, &[nr(2), s("two")], &mut r);
    assert_eq!(num_of(&r), 0);
    assert_eq!(lines_of(&b), vec!["one", "two"]);
    f_setline(&mut b, &[nr(9), s("far")], &mut r);
    assert_eq!(num_of(&r), 0);
    assert_eq!(lines_of(&b), vec!["one", "two"]);
}

#[test]
fn append_after_line_and_at_top() {
    let mut b = buf(&["a", "c"]);
    let mut r = out();
    f_append(&mut b, &[nr(1), s("b")], &mut r);
    assert_eq!(num_of(&r), 0);
    assert_eq!(lines_of(&b), vec!["a", "b", "c"]);
    f_append(&mut b, &[nr(0), list_of(vec![s("x"), s("y")])], &mut r);
    assert_eq!(lines_of(&b), vec!["x", "y", "a", "b", "c"]);
    f_append(&mut b, &[s("$"), s("z")], &mut r);
    assert_eq!(lines_of(&b), vec!["x", "y", "a", "b", "c", "z"]);
}

#[test]
fn deletebufline_ranges_and_errors() {
    let mut b = buf(&["a", "b", "c", "d"]);
    let mut r = out();
    f_deletebufline(&mut b, &[nr(0), nr(2), nr(3)], &mut r);
    assert_eq!(num_of(&r), 0);
    assert_eq!(lines_of(&b), vec!["a", "d"]);
    f_deletebufline(&mut b, &[nr(0), nr(5)], &mut r);
    assert_eq!(num_of(&r), 1);
    f_deletebufline(&mut b, &[nr(0), nr(2), nr(1)], &mut r);
    assert_eq!(num_of(&r), 1);
    f_deletebufline(&mut b, &[nr(0), nr(1), nr(9)], &mut r);
    assert_eq!(num_of(&r), 0);
    assert_eq!(lines_of(&b), vec![""]);
    assert_eq!(curbuf_len(&b), 1);
}

#[test]
fn set_and_delete_buffer_lines_direct() {
    let mut b = buf(&["1", "2", "3"]);
    let new = vec![b"x".to_vec()];
    assert_eq!(set_buffer_lines(&mut b, 3, &new, true), 0);
    assert_eq!(lines_of(&b), vec!["1", "2", "3", "x"]);
    assert_eq!(delete_buffer_lines(&mut b, 1, 1), 0);
    assert_eq!(lines_of(&b), vec!["2", "3", "x"]);
}

#[test]
fn parse_int_forms() {
    assert_eq!(parse_int_exec(b"42"), Some(42));
    assert_eq!(parse_int_exec(b"-7"), Some(-7));
    assert_eq!(parse_int_exec(b"+7"), Some(7));
    assert_eq!(parse_int_exec(b"-9223372036854775808"), Some(i64::MIN));
    assert_eq!(parse_int_exec(b"9223372036854775808"), None);
    assert_eq!(parse_int_exec(b""), None);
    assert_eq!(parse_int_exec(b"-"), None);
    assert_eq!(parse_int_exec(b"1x"), None);
}

#[test]
fn line_names_positions() {
    let mut b = buf(&["a", "b", "c"]);
    set_cursorpos(&mut b, 2, 1);
    setmark(&mut b, 'm' as u32, 3, 1);
    let mut r = out();
    f_line(&b, &[s(".")], &mut r);
    assert_eq!(num_of(&r), 2);
    f_line(&b, &[s("$")], &mut r);
    assert_eq!(num_of(&r), 3);
    f_line(&b, &[s("w0")], &mut r);
    assert_eq!(num_of(&r), 1);
    f_line(&b, &[s("'m")], &mut r);
    assert_eq!(num_of(&r), 3);
    f_line(&b, &[s("'q")], &mut r);
    assert_eq!(num_of(&r), 0);
    f_line(&b, &[s("2")], &mut r);
    assert_eq!(num_of(&r), 2);
    f_line(&b, &[nr(7)], &mut r);
    assert_eq!(num_of(&r), 7);
}

#[test]
fn setmark_then_getmark() {
    let mut b = textbuf_new();
    assert_eq!(getmark(&b, 'a' as u32), None);
    setmark(&mut b, 'b' as u32, 2, 3);
    setmark(&mut b, 'a' as u32, 1, 1);
    setmark(&mut b, 'b' as u32, 4, 5);
    assert_eq!(getmark(&b, 'a' as u32), Some((1, 1)));
    assert_eq!(getmark(&b, 'b' as u32), Some((4, 5)));
    assert_eq!(b.marks.len(), 2);
    assert!(b.marks[0].name < b.marks[1].name);
}

#[test]
fn cursor_is_kept_in_the_buffer() {
    let mut b = buf(&["abc", "de"]);
    let mut r = out();
    f_cursor(&mut b, &[nr(9), nr(2)], &mut r);
    assert_eq!(num_of(&r), 0);
    assert_eq!(b.cur_lnum, 2);
    f_cursor(&mut b, &[nr(-3), nr(1)], &mut r);
    assert_eq!(b.cur_lnum, 1);
    f_cursor(&mut b, &[list_of(vec![nr(2), nr(2)])], &mut r);
    assert_eq!((b.cur_lnum, b.cur_col), (2, 2));
    f_getcurpos(&b, &[], &mut r);
    assert_eq!(nums_of(&r)[..3].to_vec(), vec![0, 2, 2]);
}

#[test]
fn setpos_and_getpos() {
    let mut b = buf(&["abc", "def", "ghi"]);
    let mut r = out();
    f_setpos(&mut b, &[s("."), list_of(vec![nr(0), nr(3), nr(2), nr(0)])], &mut r);
    assert_eq!(num_of(&r), 0);
    f_getpos(&b, &[s(".")], &mut r);
    assert_eq!(nums_of(&r), vec![0, 3, 2, 0]);
    f_setpos(&mut b, &[s("'x"), list_of(vec![nr(0), nr(2), nr(3), nr(0)])], &mut r);
    f_getpos(&b, &[s("'x")], &mut r);
    assert_eq!(nums_of(&r), vec![0, 2, 3, 0]);
    f_getpos(&b, &[s("'y")], &mut r);
    assert_eq!(nums_of(&r), vec![0, 0, 0, 0]);
    f_getmarklist(&b, &[], &mut r);
    assert_eq!(items_of(&r).len(), 1);
}

#[test]
fn col_and_charcol() {
    let mut b = buf(&["h\u{e9}llo"]);
    set_cursorpos(&mut b, 1, 2);
    let mut r = out();
    f_col(&b, &[s(".")], &mut r);
    assert_eq!(num_of(&r), 2);
    f_col(&b, &[s("$")], &mut r);
    assert_eq!(num_of(&r), 7);
    f_charcol(&b, &[s("$")], &mut r);
    assert_eq!(num_of(&r), 6);
    f_col(&b, &[s("nonsense")], &mut r);
    assert_eq!(num_of(&r), 0);
}

#[test]
fn virtcol_counts_tabs() {
    let mut b = buf(&["\tab"]);
    set_cursorpos(&mut b, 1, 1);
    let mut r = out();
    f_virtcol(&b, &[s(".")], &mut r, 8);
    assert_eq!(num_of(&r), 8);
    f_virtcol(&b, &[s("$")], &mut r, 8);
    assert_eq!(num_of(&r), 11);
    f_virtcol(&b, &[s("$")], &mut r, 4);
    assert_eq!(num_of(&r), 7);
    f_virtcol(&b, &[s("."), nr(1)], &mut r, 0);
    assert_eq!(nums_of(&r), vec![8, 8]);
}

#[test]
fn line2byte_and_byte2line_agree() {
    let b = buf(&["ab", "", "cde"]);
    let mut r = out();
    f_line2byte(&b, &[nr(1)], &mut r);
    assert_eq!(num_of(&r), 1);
    f_line2byte(&b, &[nr(3)], &mut r);
    assert_eq!(num_of(&r), 5);
    f_line2byte(&b, &[nr(4)], &mut r);
    assert_eq!(num_of(&r), 9);
    f_line2byte(&b, &[nr(5)], &mut r);
    assert_eq!(num_of(&r), -1);
    for lnum in 1..=3 {
        f_line2byte(&b, &[nr(lnum)], &mut r);
        let off = num_of(&r);
        f_byte2line(&b, &[nr(off)], &mut r);
        assert_eq!(num_of(&r), lnum);
    }
    f_byte2line(&b, &[nr(4)], &mut r);
    assert_eq!(num_of(&r), 2);
    f_byte2line(&b, &[nr(0)], &mut r);
    assert_eq!(num_of(&r), -1);
    f_byte2line(&b, &[nr(100)], &mut r);
    assert_eq!(num_of(&r), -1);
}

#[test]
fn nonblank_search() {
    let b = buf(&["x", "  ", "\t", "y", ""]);
    let mut r = out();
    f_nextnonblank(&b, &[nr(2)], &mut r);
    assert_eq!(num_of(&r), 4);
    f_nextnonblank(&b, &[nr(5)], &mut r);
    assert_eq!(num_of(&r), 0);
    f_prevnonblank(&b, &[nr(3)], &mut r);
    assert_eq!(num_of(&r), 1);
    f_prevnonblank(&b, &[nr(4)], &mut r);
    assert_eq!(num_of(&r), 4);
}

#[test]
fn taglist_of_empty_pattern_is_zero() {
    let mut r = out();
    f_taglist(&[s("")], &mut r);
    assert_eq!(num_of(&r), 0);
    f_taglist(&[s("foo")], &mut r);
    assert!(items_of(&r).is_empty());
}
