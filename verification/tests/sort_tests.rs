use vimlrs::typval_defs::{typval_T, typval_vval_union, list_T, VarType, VarLockStatus};
use vimlrs::sort::{f_sort, f_uniq, parse_sort_uniq_args, SortInfo};

fn tv(t: VarType, v: typval_vval_union) -> typval_T {
    typval_T { v_type: t, v_lock: VarLockStatus::VAR_UNLOCKED, vval: v }
}
fn nr(n: i64) -> typval_T {
    tv(VarType::VAR_NUMBER, typval_vval_union::v_number(n))
}
fn s(x: &str) -> typval_T {
    tv(VarType::VAR_STRING, typval_vval_union::v_string(x.as_bytes().to_vec()))
}
fn list_of(items: Vec<typval_T>) -> typval_T {
    tv(VarType::VAR_LIST, typval_vval_union::v_list(Some(list_T { lv_items: items, lv_lock: VarLockStatus::VAR_UNLOCKED, lv_refcount: 0 })))
}
fn items_of(t: &typval_T) -> &Vec<typval_T> {
    match &t.vval { typval_vval_union::v_list(Some(l)) => &l.lv_items, _ => panic!("not a List") }
}
fn text(t: &typval_T) -> String {
    match &t.vval {
        typval_vval_union::v_string(v) => String::from_utf8(v.clone()).unwrap(),
        typval_vval_union::v_number(n) => n.to_string(),
        _ => String::from("?"),
    }
}
fn texts(t: &typval_T) -> Vec<String> {
    items_of(t).iter().map(text).collect()
}

/// The string order, by the texts of the items, ignoring case when asked.
fn by_text(info: &SortInfo, a: &typval_T, b: &typval_T) -> Option<i32> {
    let (x, y) = if info.ic { (text(a).to_lowercase(), text(b).to_lowercase()) } else { (text(a), text(b)) };
    Some(if x == y { 0 } else if x > y { 1 } else { -1 })
}

#[test]
fn sort_strings_and_numbers() {
    let mut e = Vec::new();
    let mut r = nr(0);
    let mut a = vec![list_of(vec![s("b"), s("C"), s("a")])];
    f_sort(&mut a, &mut r, &by_text, &mut e);
    assert_eq!(texts(&a[0]), vec!["C", "a", "b"]);
    assert_eq!(texts(&r), vec!["C", "a", "b"]);
    let mut a = vec![list_of(vec![s("b"), s("C"), s("a")]), nr(1)];
    f_sort(&mut a, &mut r, &by_text, &mut e);
    assert_eq!(texts(&r), vec!["a", "b", "C"]);
    let mut a = vec![list_of(vec![nr(10), nr(-2), nr(3)]), s("N")];
    f_sort(&mut a, &mut r, &by_text, &mut e);
    assert_eq!(texts(&r), vec!["-2", "3", "10"]);
    assert!(e.is_empty());
}

#[test]
fn sort_is_stable_and_reports_failures() {
    let mut e = Vec::new();
    let mut r = nr(0);
    let first = |_: &SortInfo, a: &typval_T, b: &typval_T| -> Option<i32> {
        let (x, y) = (text(a).chars().next(), text(b).chars().next());
        Some(if x == y { 0 } else if x > y { 1 } else { -1 })
    };
    let mut a = vec![list_of(vec![s("b2"), s("a1"), s("b1"), s("a2")])];
    f_sort(&mut a, &mut r, &first, &mut e);
    assert_eq!(texts(&r), vec!["a1", "a2", "b2", "b1"]);
    let fail = |_: &SortInfo, _: &typval_T, _: &typval_T| -> Option<i32> { None };
    let mut a = vec![list_of(vec![s("b"), s("a")])];
    f_sort(&mut a, &mut r, &fail, &mut e);
    assert_eq!(texts(&a[0]), vec!["b", "a"]);
    assert_eq!(e, vec![b"E702: Sort compare function failed".to_vec()]);
}

#[test]
fn uniq_drops_neighbours() {
    let mut e = Vec::new();
    let mut r = nr(0);
    let mut a = vec![list_of(vec![s("a"), s("a"), s("b"), s("a"), s("a")])];
    f_uniq(&mut a, &mut r, &by_text, &mut e);
    assert_eq!(texts(&r), vec!["a", "b", "a"]);
    let mut a = vec![list_of(vec![s("a"), s("A")]), s("i")];
    f_uniq(&mut a, &mut r, &by_text, &mut e);
    assert_eq!(texts(&r), vec!["a"]);
    assert!(e.is_empty());
}

#[test]
fn sort_refusals() {
    let mut e = Vec::new();
    let mut r = nr(7);
    let mut a = vec![s("x")];
    f_sort(&mut a, &mut r, &by_text, &mut e);
    let mut a = vec![s("x")];
    f_uniq(&mut a, &mut r, &by_text, &mut e);
    let mut a = vec![list_of(vec![s("b"), s("a")]), nr(5)];
    f_sort(&mut a, &mut r, &by_text, &mut e);
    assert_eq!(texts(&r), vec!["b", "a"]);
    let mut locked = list_of(vec![s("b"), s("a")]);
    if let typval_vval_union::v_list(Some(l)) = &mut locked.vval { l.lv_lock = VarLockStatus::VAR_LOCKED; }
    let mut a = vec![locked];
    f_sort(&mut a, &mut r, &by_text, &mut e);
    assert_eq!(e.iter().map(|m| String::from_utf8(m.clone()).unwrap()).collect::<Vec<_>>(), vec![
        "E686: Argument of sort() must be a List",
        "E686: Argument of uniq() must be a List",
        "E474: Invalid argument",
        "E741: Value is locked: sort() argument",
    ]);
    assert!(parse_sort_uniq_args(&[nr(0), s("n")]).unwrap().numeric);
    assert!(parse_sort_uniq_args(&[nr(0), s("f")]).unwrap().float);
    assert_eq!(parse_sort_uniq_args(&[nr(0), s("MyCmp")]).unwrap().func, Some(b"MyCmp".to_vec()));
    assert!(parse_sort_uniq_args(&[nr(0), nr(0), nr(1)]).is_err());
}
