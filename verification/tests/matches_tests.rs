use vimlrs::typval_defs::{typval_T, typval_vval_union, list_T, dict_T, dictitem_T, VarType, VarLockStatus};
use vimlrs::matches::{matches_new, f_matchadd, f_matchaddpos, f_matchdelete, f_getmatches, f_setmatches, f_clearmatches, f_matcharg};
use vimlrs::cmdstate::{cmdline_new, f_setcmdline, f_getcmdline, f_setcmdpos, f_getcmdpos, f_getcmdtype, ArgList, set_arglist, f_argc, f_argv, f_arglistid};

fn tv(t: VarType, v: typval_vval_union) -> typval_T {
    typval_T { v_type: t, v_lock: VarLockStatus::VAR_UNLOCKED, vval: v }
}

fn nr(n: i64) -> typval_T {
    tv(VarType::VAR_NUMBER, typval_vval_union::v_number(n))
}

fn s(x: &str) -> typval_T {
    tv(VarType::VAR_STRING, typval_vval_union::v_string(x.as_bytes().to_vec()))
}

fn list_of(items: Vec<typval_T>) -> typval_T {
    tv(VarType::VAR_LIST, typval_vval_union::v_list(Some(list_T { lv_items: items, lv_lock: VarLockStatus::VAR_UNLOCKED, lv_refcount: 0 })))
}

fn dict_of(entries: Vec<(&str, typval_T)>) -> typval_T {
    let items = entries.into_iter().map(|(k, v)| dictitem_T { di_key: k.as_bytes().to_vec(), di_tv: v }).collect();
    tv(VarType::VAR_DICT, typval_vval_union::v_dict(Some(dict_T { dv_hashtab: items, dv_lock: VarLockStatus::VAR_UNLOCKED, dv_refcount: 0, dv_watchers: Vec::new() })))
}

fn num_of(t: &typval_T) -> i64 {
    match t.vval {
        typval_vval_union::v_number(n) => n,
        _ => panic!("not a Number"),
    }
}

fn str_of(t: &typval_T) -> String {
    match &t.vval {
        typval_vval_union::v_string(v) => String::from_utf8(v.clone()).unwrap(),
        _ => panic!("not a String"),
    }
}

fn items_of(t: &typval_T) -> &Vec<typval_T> {
    match &t.vval {
        typval_vval_union::v_list(Some(l)) => &l.lv_items,
        _ => panic!("not a List"),
    }
}

fn entry<'a>(d: &'a typval_T, key: &str) -> &'a typval_T {
    match &d.vval {
        typval_vval_union::v_dict(Some(dd)) => &dd.dv_hashtab.iter().find(|i| i.di_key == key.as_bytes()).unwrap().di_tv,
        _ => panic!("not a Dict"),
    }
}

#[test]
fn matchadd_gives_ids_and_getmatches_lists_them() {
    let mut m = matches_new();
    let mut r = nr(0);
    f_matchadd(&mut m, &[s("Error"), s("foo")], &mut r);
    assert_eq!(num_of(&r), 1001);
    f_matchadd(&mut m, &[s("Todo"), s("bar"), nr(5), nr(42)], &mut r);
    assert_eq!(num_of(&r), 42);
    f_matchadd(&mut m, &[s("Todo"), s("baz"), nr(5), nr(-1)], &mut r);
    assert_eq!(num_of(&r), 1002);
    f_matchadd(&mut m, &[s("Todo"), s("baz"), nr(5), nr(0)], &mut r);
    assert_eq!(num_of(&r), -1);
    f_getmatches(&m, &[], &mut r);
    let all = items_of(&r);
    assert_eq!(all.len(), 3);
    assert_eq!(str_of(entry(&all[0], "group")), "Error");
    assert_eq!(str_of(entry(&all[0], "pattern")), "foo");
    assert_eq!(num_of(entry(&all[0], "priority")), 10);
    assert_eq!(num_of(entry(&all[1], "id")), 42);
}

#[test]
fn matchaddpos_stores_positions() {
    let mut m = matches_new();
    let mut r = nr(0);
    f_matchaddpos(&mut m, &[s("Search"), list_of(vec![nr(3), list_of(vec![nr(4), nr(2)])])], &mut r);
    assert_eq!(num_of(&r), 1001);
    f_getmatches(&m, &[], &mut r);
    let d = &items_of(&r)[0];
    assert_eq!(num_of(entry(d, "pos1")), 3);
    assert_eq!(items_of(entry(d, "pos2")).len(), 2);
}

#[test]
fn matchdelete_removes_by_id() {
    let mut m = matches_new();
    let mut r = nr(0);
    f_matchadd(&mut m, &[s("A"), s("a")], &mut r);
    f_matchadd(&mut m, &[s("B"), s("b")], &mut r);
    let mut d = nr(77);
    f_matchdelete(&mut m, &[nr(1001)], &mut d);
    assert_eq!(num_of(&d), 77);
    f_matchdelete(&mut m, &[nr(1001)], &mut d);
    assert_eq!(num_of(&d), -1);
    f_getmatches(&m, &[], &mut r);
    assert_eq!(items_of(&r).len(), 1);
    f_clearmatches(&mut m, &[], &mut r);
    f_getmatches(&m, &[], &mut r);
    assert!(items_of(&r).is_empty());
}

#[test]
fn setmatches_takes_only_lists_of_dicts() {
    let mut m = matches_new();
    let mut r = nr(5);
    f_setmatches(&mut m, &[list_of(vec![dict_of(vec![("group", s("X")), ("id", nr(9))])])], &mut r);
    assert_eq!(num_of(&r), 5);
    f_setmatches(&mut m, &[list_of(vec![nr(1)])], &mut r);
    assert_eq!(num_of(&r), -1);
    f_setmatches(&mut m, &[s("x")], &mut r);
    assert_eq!(num_of(&r), -1);
    f_getmatches(&m, &[], &mut r);
    assert_eq!(items_of(&r).len(), 1);
    let mut d = nr(0);
    f_matchdelete(&mut m, &[nr(9)], &mut d);
    assert_eq!(num_of(&d), 0);
    f_matcharg(&[nr(2)], &mut r);
    assert_eq!(items_of(&r).len(), 2);
    f_matcharg(&[nr(4)], &mut r);
    assert!(items_of(&r).is_empty());
}

#[test]
fn command_line_state() {
    let mut c = cmdline_new();
    let mut r = nr(0);
    f_setcmdline(&mut c, &[s("echo")], &mut r);
    assert_eq!(num_of(&r), 0);
    f_getcmdline(&c, &[], &mut r);
    assert_eq!(str_of(&r), "echo");
    f_getcmdpos(&c, &[], &mut r);
    assert_eq!(num_of(&r), 5);
    f_setcmdpos(&mut c, &[nr(2)], &mut r);
    f_getcmdpos(&c, &[], &mut r);
    assert_eq!(num_of(&r), 2);
    f_setcmdline(&mut c, &[s("ls"), nr(1)], &mut r);
    f_getcmdpos(&c, &[], &mut r);
    assert_eq!(num_of(&r), 1);
    f_getcmdtype(&c, &[], &mut r);
    assert_eq!(str_of(&r), "");
}

#[test]
fn argument_list() {
    let mut a = ArgList { args: Vec::new() };
    set_arglist(&mut a, &vec![b"a.vim".to_vec(), b"b.vim".to_vec()]);
    let mut r = nr(0);
    f_argc(&a, &[], &mut r);
    assert_eq!(num_of(&r), 2);
    f_argv(&a, &[nr(1)], &mut r);
    assert_eq!(str_of(&r), "b.vim");
    f_argv(&a, &[nr(5)], &mut r);
    assert_eq!(str_of(&r), "");
    f_argv(&a, &[], &mut r);
    assert_eq!(items_of(&r).len(), 2);
    f_argv(&a, &[nr(-1)], &mut r);
    assert_eq!(items_of(&r).len(), 2);
    f_arglistid(&[], &mut r);
    assert_eq!(num_of(&r), 0);
}
