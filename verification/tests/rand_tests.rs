use vimlrs::typval_defs::{typval_T, typval_vval_union, list_T, VarType, VarLockStatus};
use vimlrs::rand::{f_srand, f_rand};

fn tv(t: VarType, v: typval_vval_union) -> typval_T {
    typval_T { v_type: t, v_lock: VarLockStatus::VAR_UNLOCKED, vval: v }
}

fn nr(n: i64) -> typval_T {
    tv(VarType::VAR_NUMBER, typval_vval_union::v_number(n))
}

fn s(x: &str) -> typval_T {
    tv(VarType::VAR_STRING, typval_vval_union::v_string(x.as_bytes().to_vec()))
}

fn list_of(items: Vec<typval_T>) -> typval_T {
    tv(VarType::VAR_LIST, typval_vval_union::v_list(Some(list_T { lv_items: items, lv_lock: VarLockStatus::VAR_UNLOCKED, lv_refcount: 0 })))
}

fn num_of(t: &typval_T) -> i64 {
    match t.vval {
        typval_vval_union::v_number(n) => n,
        _ => panic!("not a Number"),
    }
}

fn nums_of(t: &typval_T) -> Vec<i64> {
    match &t.vval {
        typval_vval_union::v_list(Some(l)) => l.lv_items.iter().map(num_of).collect(),
        _ => panic!("not a List"),
    }
}

#[test]
fn srand_from_a_seed() {
    let mut r = nr(0);
    f_srand(&[nr(100)], &mut r, 0);
    assert_eq!(nums_of(&r), vec![1056860996, 1453913760, 2633181887, 3653016021]);
    f_srand(&[nr(-1)], &mut r, 0);
    assert_eq!(nums_of(&r), vec![920564995, 4230986166, 697614773, 1778835764]);
    f_srand(&[list_of(vec![])], &mut r, 0);
    assert!(nums_of(&r).is_empty());
}

#[test]
fn srand_without_seed_uses_entropy() {
    let mut a = nr(0);
    let mut b = nr(0);
    f_srand(&[], &mut a, 100);
    f_srand(&[nr(100)], &mut b, 7);
    assert_eq!(nums_of(&a), nums_of(&b));
}

#[test]
fn rand_advances_the_seed_list() {
    let mut seed = nr(0);
    f_srand(&[nr(100)], &mut seed, 0);
    let mut args = vec![seed];
    let mut r = nr(0);
    let mut state = None;
    f_rand(&mut args, &mut r, &mut state, 0, &mut Vec::new());
    assert_eq!(num_of(&r), 3651998488);
    assert_eq!(nums_of(&args[0]), vec![2984903729, 4104501083, 4091544059, 2742791288]);
    f_rand(&mut args, &mut r, &mut state, 0, &mut Vec::new());
    assert_eq!(num_of(&r), 2426241787);
    assert!(state.is_none());
}

#[test]
fn rand_without_argument_uses_the_global_state() {
    let mut r = nr(0);
    let mut state = None;
    let mut none: Vec<typval_T> = Vec::new();
    f_rand(&mut none, &mut r, &mut state, 100, &mut Vec::new());
    assert_eq!(num_of(&r), 3651998488);
    f_rand(&mut none, &mut r, &mut state, 999, &mut Vec::new());
    assert_eq!(num_of(&r), 2426241787);
}

#[test]
fn rand_rejects_bad_seeds() {
    let mut r = nr(0);
    let mut state = None;
    let mut args = vec![list_of(vec![nr(1), nr(2), nr(3)])];
    f_rand(&mut args, &mut r, &mut state, 0, &mut Vec::new());
    assert_eq!(num_of(&r), -1);
    let mut args = vec![list_of(vec![nr(1), nr(2), nr(3), s("x")])];
    f_rand(&mut args, &mut r, &mut state, 0, &mut Vec::new());
    assert_eq!(num_of(&r), -1);
    let mut args = vec![nr(5)];
    f_rand(&mut args, &mut r, &mut state, 0, &mut Vec::new());
    assert_eq!(num_of(&r), -1);
}
