use vimlrs::typval_defs::{typval_T, typval_vval_union, dict_T, dictitem_T, list_T, VarType, VarLockStatus};
use vimlrs::signs::{
    signs_new, f_sign_define, f_sign_getdefined, f_sign_undefine, f_sign_place, f_sign_placelist,
    f_sign_getplaced, f_sign_unplace, f_sign_unplacelist, f_sign_jump, Signs,
};

fn tv(t: VarType, v: typval_vval_union) -> typval_T {
    typval_T { v_type: t, v_lock: VarLockStatus::VAR_UNLOCKED, vval: v }
}
fn nr(n: i64) -> typval_T {
    tv(VarType::VAR_NUMBER, typval_vval_union::v_number(n))
}
fn s(x: &str) -> typval_T {
    tv(VarType::VAR_STRING, typval_vval_union::v_string(x.as_bytes().to_vec()))
}
fn dict_of(entries: Vec<(&str, typval_T)>) -> typval_T {
    let items = entries.into_iter().map(|(k, v)| dictitem_T { di_key: k.as_bytes().to_vec(), di_tv: v }).collect();
    tv(VarType::VAR_DICT, typval_vval_union::v_dict(Some(dict_T { dv_hashtab: items, dv_lock: VarLockStatus::VAR_UNLOCKED, dv_refcount: 0, dv_watchers: Vec::new() })))
}
fn list_of(items: Vec<typval_T>) -> typval_T {
    tv(VarType::VAR_LIST, typval_vval_union::v_list(Some(list_T { lv_items: items, lv_lock: VarLockStatus::VAR_UNLOCKED, lv_refcount: 0 })))
}
fn num_of(t: &typval_T) -> i64 {
    match t.vval { typval_vval_union::v_number(n) => n, _ => panic!("not a Number") }
}
fn items_of(t: &typval_T) -> &Vec<typval_T> {
    match &t.vval {
        typval_vval_union::v_list(Some(l)) => &l.lv_items,
        _ => panic!("not a List"),
    }
}
fn get<'a>(t: &'a typval_T, k: &str) -> &'a typval_T {
    match &t.vval {
        typval_vval_union::v_dict(Some(d)) => &d.dv_hashtab.iter().find(|i| i.di_key == k.as_bytes()).unwrap().di_tv,
        _ => panic!("not a Dict"),
    }
}
fn str_of(t: &typval_T) -> String {
    match &t.vval { typval_vval_union::v_string(v) => String::from_utf8(v.clone()).unwrap(), _ => panic!("not a String") }
}
fn defined(sg: &Signs, args: &[typval_T]) -> Vec<String> {
    let mut r = nr(0);
    f_sign_getdefined(sg, args, &mut r);
    items_of(&r).iter().map(|d| str_of(get(d, "name"))).collect()
}

#[test]
fn signs_define_sorted_and_redefine() {
    let mut sg = signs_new();
    let mut r = nr(0);
    f_sign_define(&mut sg, &[s("b"), dict_of(vec![("text", s(">>"))])], &mut r);
    assert_eq!(num_of(&r), 0);
    f_sign_define(&mut sg, &[s("a")], &mut r);
    f_sign_define(&mut sg, &[s("ab")], &mut r);
    assert_eq!(defined(&sg, &[]), vec!["a", "ab", "b"]);
    f_sign_define(&mut sg, &[s("b"), dict_of(vec![("text", s("!!"))])], &mut r);
    let mut g = nr(0);
    f_sign_getdefined(&sg, &[s("b")], &mut g);
    let es = items_of(&g);
    assert_eq!(es.len(), 1);
    assert_eq!(str_of(get(&es[0], "text")), "!!");
    assert_eq!(defined(&sg, &[s("zz")]), Vec::<String>::new());
}

#[test]
fn signs_define_errors() {
    let mut sg = signs_new();
    let mut r = nr(0);
    f_sign_define(&mut sg, &[s("")], &mut r);
    assert_eq!(num_of(&r), -1);
    let mut r2 = nr(0);
    f_sign_define(&mut sg, &[list_of(vec![])], &mut r2);
    assert_eq!(num_of(&r2), -1);
    assert!(defined(&sg, &[]).is_empty());
}

#[test]
fn signs_undefine() {
    let mut sg = signs_new();
    let mut r = nr(0);
    f_sign_define(&mut sg, &[s("a")], &mut r);
    f_sign_define(&mut sg, &[s("b")], &mut r);
    f_sign_undefine(&mut sg, &[s("a")], &mut r);
    assert_eq!(num_of(&r), 0);
    assert_eq!(defined(&sg, &[]), vec!["b"]);
    f_sign_undefine(&mut sg, &[s("nope")], &mut r);
    assert_eq!(num_of(&r), -1);
    let mut r3 = nr(0);
    f_sign_undefine(&mut sg, &[], &mut r3);
    assert!(defined(&sg, &[]).is_empty());
}

#[test]
fn signs_place_ids_and_getplaced() {
    let mut sg = signs_new();
    let mut r = nr(0);
    f_sign_place(&mut sg, &[nr(0), s("g"), s("a"), nr(3), dict_of(vec![("lnum", nr(7))])], &mut r);
    assert_eq!(num_of(&r), 1);
    f_sign_place(&mut sg, &[nr(50), s(""), s("a"), s("x")], &mut r);
    assert_eq!(num_of(&r), 50);
    f_sign_place(&mut sg, &[nr(0), s("g"), s("b"), nr(3)], &mut r);
    assert_eq!(num_of(&r), 2);
    let mut g = nr(0);
    f_sign_getplaced(&sg, &[], &mut g);
    let bufs = items_of(&g);
    assert_eq!(bufs.len(), 2);
    assert_eq!(num_of(get(&bufs[0], "bufnr")), 3);
    let signs3 = items_of(get(&bufs[0], "signs"));
    assert_eq!(signs3.len(), 2);
    assert_eq!(num_of(get(&signs3[0], "lnum")), 7);
    assert_eq!(num_of(get(&signs3[0], "priority")), 10);
    assert_eq!(num_of(get(&signs3[1], "id")), 2);
    assert_eq!(num_of(get(&bufs[1], "bufnr")), 1);
    let mut g2 = nr(0);
    f_sign_getplaced(&sg, &[nr(1)], &mut g2);
    assert_eq!(items_of(&g2).len(), 1);
    let mut g3 = nr(0);
    f_sign_getplaced(&sg, &[s("all"), dict_of(vec![("group", s("g"))])], &mut g3);
    let b3 = items_of(&g3);
    assert_eq!(b3.len(), 1);
    assert_eq!(items_of(get(&b3[0], "signs")).len(), 2);
}

#[test]
fn signs_placelist() {
    let mut sg = signs_new();
    let mut r = nr(0);
    let l = list_of(vec![
        dict_of(vec![("name", s("a")), ("buffer", nr(2)), ("lnum", nr(4))]),
        nr(5),
        dict_of(vec![("id", nr(9)), ("name", s("b"))]),
    ]);
    f_sign_placelist(&mut sg, &[l], &mut r);
    let ids: Vec<i64> = items_of(&r).iter().map(num_of).collect();
    assert_eq!(ids, vec![1, -1, 9]);
    let mut keep = nr(7);
    f_sign_placelist(&mut sg, &[nr(1)], &mut keep);
    assert_eq!(num_of(&keep), 7);
}

#[test]
fn signs_unplace() {
    let mut sg = signs_new();
    let mut r = nr(0);
    f_sign_place(&mut sg, &[nr(1), s("g"), s("a"), nr(1)], &mut r);
    f_sign_place(&mut sg, &[nr(2), s("h"), s("a"), nr(1)], &mut r);
    f_sign_place(&mut sg, &[nr(3), s("g"), s("a"), nr(2)], &mut r);
    f_sign_unplace(&mut sg, &[s("g"), dict_of(vec![("buffer", nr(2))])], &mut r);
    assert_eq!(num_of(&r), 0);
    let mut g = nr(0);
    f_sign_getplaced(&sg, &[], &mut g);
    assert_eq!(items_of(&g).len(), 1);
    f_sign_unplace(&mut sg, &[s("*"), dict_of(vec![("id", nr(2))])], &mut r);
    let mut g2 = nr(0);
    f_sign_getplaced(&sg, &[], &mut g2);
    let b = items_of(&g2);
    assert_eq!(items_of(get(&b[0], "signs")).len(), 1);
    f_sign_unplace(&mut sg, &[s("")], &mut r);
    let mut g3 = nr(0);
    f_sign_getplaced(&sg, &[], &mut g3);
    assert!(items_of(&g3).is_empty());
}

#[test]
fn signs_unplacelist_and_jump() {
    let mut sg = signs_new();
    let mut r = nr(0);
    f_sign_place(&mut sg, &[nr(1), s("g"), s("a"), nr(1)], &mut r);
    f_sign_place(&mut sg, &[nr(2), s("g"), s("a"), nr(1)], &mut r);
    let mut out = nr(0);
    f_sign_unplacelist(&mut sg, &[list_of(vec![dict_of(vec![("group", s("g")), ("id", nr(1))])])], &mut out);
    let zs: Vec<i64> = items_of(&out).iter().map(num_of).collect();
    assert_eq!(zs, vec![0]);
    let mut g = nr(0);
    f_sign_getplaced(&sg, &[], &mut g);
    let b = items_of(&g);
    assert_eq!(items_of(get(&b[0], "signs")).len(), 1);
    let mut j = nr(0);
    f_sign_jump(&[nr(2)], &mut j);
    assert_eq!(num_of(&j), -1);
}
