use vimlrs::typval_defs::{typval_T, typval_vval_union, list_T, blob_T, dict_T, dictitem_T, VarType, VarLockStatus};
use vimlrs::reduce::{f_reduce, f_indexof};

fn tv(t: VarType, v: typval_vval_union) -> typval_T {
    typval_T { v_type: t, v_lock: VarLockStatus::VAR_UNLOCKED, vval: v }
}

fn nr(n: i64) -> typval_T {
    tv(VarType::VAR_NUMBER, typval_vval_union::v_number(n))
}

fn s(x: &str) -> typval_T {
    tv(VarType::VAR_STRING, typval_vval_union::v_string(x.as_bytes().to_vec()))
}

fn list_of(items: Vec<typval_T>) -> typval_T {
    tv(VarType::VAR_LIST, typval_vval_union::v_list(Some(list_T { lv_items: items, lv_lock: VarLockStatus::VAR_UNLOCKED, lv_refcount: 0 })))
}

fn blob_of(bytes: &[u8]) -> typval_T {
    tv(VarType::VAR_BLOB, typval_vval_union::v_blob(Some(blob_T { bv_ga: bytes.to_vec(), bv_lock: VarLockStatus::VAR_UNLOCKED, bv_refcount: 0 })))
}

fn opts(startidx: i64) -> typval_T {
    let items = vec![dictitem_T { di_key: b"startidx".to_vec(), di_tv: nr(startidx) }];
    tv(VarType::VAR_DICT, typval_vval_union::v_dict(Some(dict_T { dv_hashtab: items, dv_lock: VarLockStatus::VAR_UNLOCKED, dv_refcount: 0, dv_watchers: Vec::new() })))
}

fn num_of(t: &typval_T) -> i64 {
    match t.vval {
        typval_vval_union::v_number(n) => n,
        _ => panic!("not a Number"),
    }
}

fn bytes_of(t: &typval_T) -> Vec<u8> {
    match &t.vval {
        typval_vval_union::v_string(v) => v.clone(),
        _ => panic!("not a String"),
    }
}

fn add(_f: typval_T, a: typval_T, i: typval_T) -> Option<typval_T> {
    Some(nr(num_of(&a) + num_of(&i)))
}

fn concat(_f: typval_T, a: typval_T, i: typval_T) -> Option<typval_T> {
    let mut v = bytes_of(&a);
    v.extend(bytes_of(&i));
    Some(tv(VarType::VAR_STRING, typval_vval_union::v_string(v)))
}

fn prepend(_f: typval_T, a: typval_T, i: typval_T) -> Option<typval_T> {
    let mut v = bytes_of(&i);
    v.extend(bytes_of(&a));
    Some(tv(VarType::VAR_STRING, typval_vval_union::v_string(v)))
}

fn fail_after_ten(_f: typval_T, a: typval_T, i: typval_T) -> Option<typval_T> {
    let n = num_of(&a) + num_of(&i);
    if n > 10 { None } else { Some(nr(n)) }
}

#[test]
fn reduce_list_sums() {
    let mut r = nr(0);
    f_reduce(&[list_of(vec![nr(1), nr(3), nr(5)]), s("Add")], &mut r, &add);
    assert_eq!(num_of(&r), 9);
}

#[test]
fn reduce_list_with_initial() {
    let mut r = nr(0);
    f_reduce(&[list_of(vec![s("x"), s("y")]), s("Cat"), s("a")], &mut r, &concat);
    assert_eq!(bytes_of(&r), b"axy".to_vec());
}

#[test]
fn reduce_string_over_characters() {
    let mut r = nr(0);
    f_reduce(&[s("xyz"), s("Rev")], &mut r, &prepend);
    assert_eq!(bytes_of(&r), b"zyx".to_vec());
    f_reduce(&[s("\u{e9}a"), s("Rev")], &mut r, &prepend);
    assert_eq!(bytes_of(&r), "a\u{e9}".as_bytes().to_vec());
}

#[test]
fn reduce_blob_over_bytes() {
    let mut r = nr(0);
    f_reduce(&[blob_of(&[1, 2, 3]), s("Add")], &mut r, &add);
    assert_eq!(num_of(&r), 6);
    f_reduce(&[blob_of(&[1, 2, 3]), s("Add"), nr(10)], &mut r, &add);
    assert_eq!(num_of(&r), 16);
}

#[test]
fn reduce_stops_at_a_failing_call() {
    let mut r = nr(0);
    f_reduce(&[list_of(vec![nr(4), nr(5), nr(6), nr(7)]), s("F")], &mut r, &fail_after_ten);
    assert_eq!(num_of(&r), 9);
}

#[test]
fn reduce_refuses_bad_arguments() {
    let mut r = nr(42);
    f_reduce(&[list_of(vec![]), s("Add")], &mut r, &add);
    assert_eq!(num_of(&r), 42);
    f_reduce(&[nr(3), s("Add")], &mut r, &add);
    assert_eq!(num_of(&r), 42);
    f_reduce(&[list_of(vec![nr(1)]), s("")], &mut r, &add);
    assert_eq!(num_of(&r), 42);
    f_reduce(&[s("ab"), s("Cat"), nr(1)], &mut r, &concat);
    assert_eq!(num_of(&r), 42);
    f_reduce(&[blob_of(&[1]), s("Add"), s("x")], &mut r, &add);
    assert_eq!(num_of(&r), 42);
}

fn is_twenty(_e: typval_T, _k: typval_T, v: typval_T) -> Option<typval_T> {
    Some(nr(if num_of(&v) == 20 { 1 } else { 0 }))
}

fn eval_fails(_e: typval_T, _k: typval_T, _v: typval_T) -> Option<typval_T> {
    None
}

#[test]
fn indexof_finds_the_first_match() {
    let l = list_of(vec![nr(10), nr(20), nr(30), nr(20)]);
    let mut r = nr(0);
    f_indexof(&[l.clone_tv(), s("v:val == 20")], &mut r, &is_twenty);
    assert_eq!(num_of(&r), 1);
    f_indexof(&[l.clone_tv(), s("v:val == 20"), opts(2)], &mut r, &is_twenty);
    assert_eq!(num_of(&r), 3);
    f_indexof(&[l.clone_tv(), s("v:val == 20"), opts(-1)], &mut r, &is_twenty);
    assert_eq!(num_of(&r), 3);
    f_indexof(&[l.clone_tv(), s("v:val == 20"), opts(9)], &mut r, &is_twenty);
    assert_eq!(num_of(&r), -1);
    f_indexof(&[l.clone_tv(), s("")], &mut r, &is_twenty);
    assert_eq!(num_of(&r), -1);
    f_indexof(&[l.clone_tv(), s("x")], &mut r, &eval_fails);
    assert_eq!(num_of(&r), -1);
}

#[test]
fn indexof_in_a_blob() {
    let mut r = nr(0);
    f_indexof(&[blob_of(&[5, 20, 7]), s("v:val == 20")], &mut r, &is_twenty);
    assert_eq!(num_of(&r), 1);
    f_indexof(&[blob_of(&[5, 20, 7]), s("v:val == 20"), opts(-9)], &mut r, &is_twenty);
    assert_eq!(num_of(&r), 1);
    f_indexof(&[nr(5), s("v:val == 20")], &mut r, &is_twenty);
    assert_eq!(num_of(&r), -1);
}

trait CloneTv {
    fn clone_tv(&self) -> typval_T;
}

impl CloneTv for typval_T {
    fn clone_tv(&self) -> typval_T {
        vimlrs::dup::tv_dup(self)
    }
}
