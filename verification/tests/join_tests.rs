use vimlrs::typval_defs::{typval_T, typval_vval_union, list_T, VarType, VarLockStatus};
use vimlrs::join::{f_join, tv_list_join};

fn tv(t: VarType, v: typval_vval_union) -> typval_T {
    typval_T { v_type: t, v_lock: VarLockStatus::VAR_UNLOCKED, vval: v }
}
fn nr(n: i64) -> typval_T {
    tv(VarType::VAR_NUMBER, typval_vval_union::v_number(n))
}
fn s(x: &str) -> typval_T {
    tv(VarType::VAR_STRING, typval_vval_union::v_string(x.as_bytes().to_vec()))
}
fn list(items: Vec<typval_T>) -> list_T {
    list_T { lv_items: items, lv_lock: VarLockStatus::VAR_UNLOCKED, lv_refcount: 0 }
}
fn str_of(t: &typval_T) -> String {
    match &t.vval { typval_vval_union::v_string(v) => String::from_utf8(v.clone()).unwrap(), _ => panic!("not a String") }
}

#[test]
fn join_with_default_and_given_separator() {
    let l = || tv(VarType::VAR_LIST, typval_vval_union::v_list(Some(list(vec![s("a"), nr(1), s("b")]))));
    let echo = vec![b"a".to_vec(), b"1".to_vec(), b"b".to_vec()];
    let mut r = nr(0);
    let mut e = Vec::new();
    f_join(&[l()], &mut r, &echo, &mut e);
    assert_eq!(str_of(&r), "a 1 b");
    f_join(&[l(), s(", ")], &mut r, &echo, &mut e);
    assert_eq!(str_of(&r), "a, 1, b");
    f_join(&[l(), nr(7)], &mut r, &echo, &mut e);
    assert_eq!(str_of(&r), "a717b");
    assert!(e.is_empty());
}

#[test]
fn join_of_empty_and_not_a_list() {
    let mut r = nr(5);
    let mut e = Vec::new();
    f_join(&[s("x")], &mut r, &Vec::new(), &mut e);
    assert!(matches!(r.vval, typval_vval_union::v_number(5)));
    assert_eq!(e, vec![b"E714: List required".to_vec()]);
    let empty = tv(VarType::VAR_LIST, typval_vval_union::v_list(Some(list(vec![]))));
    f_join(&[empty], &mut r, &Vec::new(), &mut e);
    assert_eq!(str_of(&r), "");
    let mut gap = b"[".to_vec();
    assert_eq!(tv_list_join(&mut gap, &list(vec![nr(1), nr(2)]), b"-", &vec![b"1".to_vec(), b"2".to_vec()]), 1);
    assert_eq!(gap, b"[1-2".to_vec());
}
