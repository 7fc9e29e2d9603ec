use vimlrs::typval_defs::{typval_T, typval_vval_union, list_T, VarType, VarLockStatus, BoolVarValue};
use vimlrs::digraph::{digraphs_new, f_digraph_get, f_digraph_set, f_digraph_getlist, f_digraph_setlist, Digraphs};

fn tv(t: VarType, v: typval_vval_union) -> typval_T {
    typval_T { v_type: t, v_lock: VarLockStatus::VAR_UNLOCKED, vval: v }
}

fn nr(n: i64) -> typval_T {
    tv(VarType::VAR_NUMBER, typval_vval_union::v_number(n))
}

fn s(x: &str) -> typval_T {
    tv(VarType::VAR_STRING, typval_vval_union::v_string(x.as_bytes().to_vec()))
}

fn list_of(items: Vec<typval_T>) -> typval_T {
    tv(VarType::VAR_LIST, typval_vval_union::v_list(Some(list_T { lv_items: items, lv_lock: VarLockStatus::VAR_UNLOCKED, lv_refcount: 0 })))
}

fn str_of(t: &typval_T) -> String {
    match &t.vval {
        typval_vval_union::v_string(v) => String::from_utf8(v.clone()).unwrap(),
        _ => panic!("not a String"),
    }
}

fn bool_of(t: &typval_T) -> bool {
    assert!(t.v_type == VarType::VAR_BOOL);
    match t.vval {
        typval_vval_union::v_bool(b) => b == BoolVarValue::kBoolVarTrue,
        _ => panic!("not a Boolean"),
    }
}

fn get(d: &Digraphs, chars: &str) -> String {
    let mut r = nr(0);
    f_digraph_get(d, &[s(chars)], &mut r);
    str_of(&r)
}

fn pairs(t: &typval_T) -> Vec<(String, String)> {
    match &t.vval {
        typval_vval_union::v_list(Some(l)) => l
            .lv_items
            .iter()
            .map(|p| match &p.vval {
                typval_vval_union::v_list(Some(pl)) => (str_of(&pl.lv_items[0]), str_of(&pl.lv_items[1])),
                _ => panic!("not a pair"),
            })
            .collect(),
        _ => panic!("not a List"),
    }
}

#[test]
fn builtin_digraphs() {
    let d = digraphs_new();
    assert_eq!(get(&d, "a:"), "\u{e4}");
    assert_eq!(get(&d, "->"), "\u{2192}");
    assert_eq!(get(&d, "OK"), "\u{2713}");
    assert_eq!(get(&d, "zz"), "");
    assert_eq!(get(&d, "abc"), "");
}

#[test]
fn digraph_set_then_get() {
    let mut d = digraphs_new();
    let mut r = nr(0);
    f_digraph_set(&mut d, &[s("xy"), s("\u{2603}")], &mut r);
    assert!(bool_of(&r));
    assert_eq!(get(&d, "xy"), "\u{2603}");
    f_digraph_set(&mut d, &[s("a:"), s("A")], &mut r);
    assert_eq!(get(&d, "a:"), "A");
    f_digraph_set(&mut d, &[s("x"), s("nope")], &mut r);
    assert!(!bool_of(&r));
    f_digraph_set(&mut d, &[s("\u{e9}\u{e8}"), s("E")], &mut r);
    assert!(bool_of(&r));
    assert_eq!(get(&d, "\u{e9}\u{e8}"), "E");
}

#[test]
fn digraph_getlist_is_ordered() {
    let mut d = digraphs_new();
    let mut r = nr(0);
    f_digraph_set(&mut d, &[s("zz"), s("1")], &mut r);
    f_digraph_set(&mut d, &[s("ab"), s("2")], &mut r);
    f_digraph_set(&mut d, &[s("aa"), s("3")], &mut r);
    f_digraph_set(&mut d, &[s("ab"), s("4")], &mut r);
    f_digraph_getlist(&d, &[], &mut r);
    assert_eq!(
        pairs(&r),
        vec![("aa".to_string(), "3".to_string()), ("ab".to_string(), "4".to_string()), ("zz".to_string(), "1".to_string())]
    );
}

#[test]
fn digraph_setlist_all_or_nothing() {
    let mut d = digraphs_new();
    let mut r = nr(0);
    let good = list_of(vec![list_of(vec![s("qq"), s("Q")]), list_of(vec![s("ww"), s("W")])]);
    f_digraph_setlist(&mut d, &[good], &mut r);
    assert!(bool_of(&r));
    assert_eq!(get(&d, "qq"), "Q");
    assert_eq!(get(&d, "ww"), "W");
    let bad = list_of(vec![list_of(vec![s("ee"), s("E")]), list_of(vec![s("toolong"), s("X")])]);
    f_digraph_setlist(&mut d, &[bad], &mut r);
    assert!(!bool_of(&r));
    assert_eq!(get(&d, "ee"), "");
    f_digraph_setlist(&mut d, &[s("notalist")], &mut r);
    assert!(!bool_of(&r));
    let short = list_of(vec![list_of(vec![s("rr")])]);
    f_digraph_setlist(&mut d, &[short], &mut r);
    assert!(!bool_of(&r));
}
