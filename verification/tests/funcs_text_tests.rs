use vimlrs::typval_defs::{typval_T, typval_vval_union, list_T, dict_T, VarType, VarLockStatus};
use vimlrs::funcs_text::{f_fnameescape, f_shellescape, f_iconv, f_gettext, f_getbufvar, f_gettabwinvar, f_fullcommand};
use vimlrs::funcs_inactive::{f_argidx, f_foldclosed, f_foldtext, f_pyeval, f_getwinpos, f_undotree, f_swapinfo, f_getcharsearch, f_bufnr, f_bufname, f_complete_info};

fn tv(t: VarType, v: typval_vval_union) -> typval_T {
    typval_T { v_type: t, v_lock: VarLockStatus::VAR_UNLOCKED, vval: v }
}
fn nr(n: i64) -> typval_T {
    tv(VarType::VAR_NUMBER, typval_vval_union::v_number(n))
}
fn s(x: &str) -> typval_T {
    tv(VarType::VAR_STRING, typval_vval_union::v_string(x.as_bytes().to_vec()))
}
fn str_of(t: &typval_T) -> String {
    match &t.vval { typval_vval_union::v_string(v) => String::from_utf8(v.clone()).unwrap(), _ => panic!("not a String") }
}
fn num_of(t: &typval_T) -> i64 {
    match t.vval { typval_vval_union::v_number(n) => n, _ => panic!("not a Number") }
}
fn call(f: fn(&[typval_T], &mut typval_T), args: &[typval_T]) -> typval_T {
    let mut r = nr(0);
    f(args, &mut r);
    r
}

#[test]
fn text_fnameescape() {
    assert_eq!(str_of(&call(f_fnameescape, &[s("a b%c")])), "a\\ b\\%c");
    assert_eq!(str_of(&call(f_fnameescape, &[s("+x+")])), "\\+x+");
    assert_eq!(str_of(&call(f_fnameescape, &[s("ünï")])), "ünï");
}

#[test]
fn text_shellescape() {
    assert_eq!(str_of(&call(f_shellescape, &[s("it's")])), "'it'\\''s'");
    assert_eq!(str_of(&call(f_shellescape, &[s("a!b"), nr(1)])), "'a\\!b'");
    assert_eq!(str_of(&call(f_shellescape, &[s("a!b")])), "'a!b'");
}

#[test]
fn text_iconv() {
    assert_eq!(str_of(&call(f_iconv, &[s("añ€"), s("UTF-8"), s("latin1")])), "añ?");
    assert_eq!(str_of(&call(f_iconv, &[s("añ€"), s("utf8"), s("utf-8")])), "añ€");
    assert_eq!(str_of(&call(f_iconv, &[s("x€"), s("latin1"), s("utf-8")])), "x€");
}

#[test]
fn text_gettext_and_vars() {
    assert_eq!(str_of(&call(f_gettext, &[s("hello")])), "hello");
    assert_eq!(num_of(&call(f_gettext, &[nr(5)])), 0);
    assert_eq!(num_of(&call(f_getbufvar, &[nr(1), s("x"), nr(7)])), 7);
    assert_eq!(str_of(&call(f_getbufvar, &[nr(1), s("x")])), "");
    assert_eq!(str_of(&call(f_gettabwinvar, &[nr(1), nr(1), s("x"), s("d")])), "d");
}

#[test]
fn text_fullcommand() {
    assert_eq!(str_of(&call(f_fullcommand, &[s("ec")])), "echo");
    assert_eq!(str_of(&call(f_fullcommand, &[s(":: e")])), "edit");
    assert_eq!(str_of(&call(f_fullcommand, &[s("echom!")])), "echomsg");
    assert_eq!(str_of(&call(f_fullcommand, &[s("xyz")])), "");
    assert_eq!(str_of(&call(f_fullcommand, &[s("!")])), "");
}

#[test]
fn inactive_answers() {
    let mut r = s("keep");
    f_argidx(&[], &mut r);
    assert_eq!(num_of(&r), 0);
    assert_eq!(num_of(&call(f_foldclosed, &[nr(3)])), -1);
    assert_eq!(str_of(&call(f_foldtext, &[])), "");
    assert_eq!(call(f_pyeval, &[s("1")]).v_type, VarType::VAR_SPECIAL);
    assert_eq!(num_of(&call(f_bufnr, &[])), -1);
    assert_eq!(str_of(&call(f_bufname, &[])), "");
    let w = call(f_getwinpos, &[]);
    match &w.vval {
        typval_vval_union::v_list(Some(l)) => {
            let l: &list_T = l;
            assert_eq!(l.lv_items.len(), 2);
            assert_eq!(num_of(&l.lv_items[0]), -1);
        }
        _ => panic!("not a List"),
    }
    for (f, n) in [(f_undotree as fn(&[typval_T], &mut typval_T), 7usize), (f_swapinfo, 1), (f_getcharsearch, 3), (f_complete_info, 4)] {
        let d = call(f, &[]);
        match &d.vval {
            typval_vval_union::v_dict(Some(dd)) => {
                let dd: &dict_T = dd;
                assert_eq!(dd.dv_hashtab.len(), n);
            }
            _ => panic!("not a Dict"),
        }
    }
}
