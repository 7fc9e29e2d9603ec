use vimlrs::typval_defs::{typval_T, typval_vval_union, VarType, VarLockStatus};
use vimlrs::history::{history_new, f_histadd, f_histget, f_histnr, f_histdel, History};

fn tv(t: VarType, v: typval_vval_union) -> typval_T {
    typval_T { v_type: t, v_lock: VarLockStatus::VAR_UNLOCKED, vval: v }
}

fn nr(n: i64) -> typval_T {
    tv(VarType::VAR_NUMBER, typval_vval_union::v_number(n))
}

fn s(x: &str) -> typval_T {
    tv(VarType::VAR_STRING, typval_vval_union::v_string(x.as_bytes().to_vec()))
}

fn num_of(t: &typval_T) -> i64 {
    match t.vval {
        typval_vval_union::v_number(n) => n,
        _ => panic!("not a Number"),
    }
}

fn str_of(t: &typval_T) -> String {
    match &t.vval {
        typval_vval_union::v_string(v) => String::from_utf8(v.clone()).unwrap(),
        _ => panic!("not a String"),
    }
}

fn add(h: &mut History, name: &str, item: &str) -> i64 {
    let mut r = nr(0);
    f_histadd(h, &[s(name), s(item)], &mut r);
    num_of(&r)
}

fn get(h: &History, args: &[typval_T]) -> String {
    let mut r = nr(0);
    f_histget(h, args, &mut r);
    str_of(&r)
}

fn count(h: &History, name: &str) -> i64 {
    let mut r = nr(0);
    f_histnr(h, &[s(name)], &mut r);
    num_of(&r)
}

fn exact(p: Vec<u8>, e: Vec<u8>) -> bool {
    p == e
}

#[test]
fn histadd_then_histget_gives_the_newest() {
    let mut h = history_new();
    assert_eq!(add(&mut h, "cmd", "echo 1"), 1);
    assert_eq!(add(&mut h, ":", "echo 2"), 1);
    assert_eq!(get(&h, &[s("cmd")]), "echo 2");
    assert_eq!(get(&h, &[s(":"), nr(-1)]), "echo 2");
    assert_eq!(get(&h, &[s(""), nr(1)]), "echo 1");
    assert_eq!(get(&h, &[s("cmd"), nr(-2)]), "echo 1");
    assert_eq!(get(&h, &[s("cmd"), nr(3)]), "");
    assert_eq!(get(&h, &[s("cmd"), nr(-3)]), "");
    assert_eq!(count(&h, "cmd"), 2);
}

#[test]
fn histadd_moves_a_copy_to_the_end() {
    let mut h = history_new();
    add(&mut h, "search", "a");
    add(&mut h, "/", "b");
    add(&mut h, "?", "a");
    assert_eq!(count(&h, "search"), 2);
    assert_eq!(get(&h, &[s("search"), nr(1)]), "b");
    assert_eq!(get(&h, &[s("search"), nr(2)]), "a");
}

#[test]
fn histadd_rejects_bad_names_and_empty_items() {
    let mut h = history_new();
    assert_eq!(add(&mut h, "nope", "x"), 0);
    assert_eq!(add(&mut h, "expr", ""), 0);
    assert_eq!(count(&h, "nope"), -1);
    assert_eq!(count(&h, "="), 0);
    assert_eq!(get(&h, &[s("nope")]), "");
}

#[test]
fn histdel_by_index_pattern_and_all() {
    let mut h = history_new();
    add(&mut h, "input", "one");
    add(&mut h, "@", "two");
    add(&mut h, "input", "three");
    let mut r = nr(0);
    f_histdel(&mut h, &[s("input"), nr(-1)], &mut r, &exact);
    assert_eq!(num_of(&r), 1);
    assert_eq!(count(&h, "input"), 2);
    assert_eq!(get(&h, &[s("input")]), "two");
    f_histdel(&mut h, &[s("input"), nr(0)], &mut r, &exact);
    assert_eq!(count(&h, "input"), 2);
    f_histdel(&mut h, &[s("input"), s("one")], &mut r, &exact);
    assert_eq!(count(&h, "input"), 1);
    assert_eq!(get(&h, &[s("input"), nr(1)]), "two");
    f_histdel(&mut h, &[s("input")], &mut r, &exact);
    assert_eq!(count(&h, "input"), 0);
    let mut r2 = nr(7);
    f_histdel(&mut h, &[s("bogus")], &mut r2, &exact);
    assert_eq!(num_of(&r2), 7);
}

#[test]
fn histories_are_separate() {
    let mut h = history_new();
    add(&mut h, "debug", "x");
    add(&mut h, ">", "y");
    assert_eq!(count(&h, "debug"), 2);
    assert_eq!(count(&h, "cmd"), 0);
}
