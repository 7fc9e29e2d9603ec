use vimlrs::typval_defs::{typval_T, typval_vval_union, blob_T, list_T, VarType, VarLockStatus};
use vimlrs::funcs_basic::{f_len, f_nr2char, f_range, f_get, f_insert};
use vimlrs::typval_list::tv_list_find_str;
use vimlrs::typval_copy::{value_check_lock, tv_check_lock};
use vimlrs::typval_check::tv_check_for_bool_arg;
use vimlrs::typval_blob::tv_blob_set_range;
use vimlrs::funcs_table::check_internal_func;
use vimlrs::rand::f_rand;
use vimlrs::typval_items::f_remove;
use vimlrs::typval_defs::{dict_T, dictitem_T};

fn tv(t: VarType, v: typval_vval_union) -> typval_T {
    typval_T { v_type: t, v_lock: VarLockStatus::VAR_UNLOCKED, vval: v }
}
fn nr(n: i64) -> typval_T {
    tv(VarType::VAR_NUMBER, typval_vval_union::v_number(n))
}
fn s(x: &str) -> typval_T {
    tv(VarType::VAR_STRING, typval_vval_union::v_string(x.as_bytes().to_vec()))
}
fn list(items: Vec<typval_T>) -> list_T {
    list_T { lv_items: items, lv_lock: VarLockStatus::VAR_UNLOCKED, lv_refcount: 0 }
}
fn list_of(items: Vec<typval_T>) -> typval_T {
    tv(VarType::VAR_LIST, typval_vval_union::v_list(Some(list(items))))
}
fn blob(bytes: Vec<u8>) -> blob_T {
    blob_T { bv_ga: bytes, bv_lock: VarLockStatus::VAR_UNLOCKED, bv_refcount: 0 }
}
fn texts(e: &[Vec<u8>]) -> Vec<String> {
    e.iter().map(|m| String::from_utf8(m.clone()).unwrap()).collect()
}

#[test]
fn len_reports_invalid_type() {
    let mut e = Vec::new();
    let mut r = nr(0);
    f_len(&[s("abc")], &mut r, &mut e);
    assert!(e.is_empty());
    let fl = tv(VarType::VAR_FLOAT, typval_vval_union::v_float(1.5f64.to_bits()));
    f_len(&[fl], &mut r, &mut e);
    assert_eq!(texts(&e), vec!["E701: Invalid type for len()"]);
}

#[test]
fn nr2char_reports_range() {
    let mut e = Vec::new();
    let mut r = nr(0);
    f_nr2char(&[nr(-1)], &mut r, &mut e);
    f_nr2char(&[nr(1 << 31)], &mut r, &mut e);
    f_nr2char(&[nr(65)], &mut r, &mut e);
    assert_eq!(texts(&e), vec![
        "E5070: Character number must not be less than zero",
        "E5071: Character number must not be greater than INT_MAX (2147483647)",
    ]);
}

#[test]
fn range_reports_stride_and_start() {
    let mut e = Vec::new();
    let mut r = nr(0);
    f_range(&[nr(0), nr(1), nr(0)], &mut r, &mut e);
    f_range(&[nr(10), nr(5), nr(1)], &mut r, &mut e);
    assert_eq!(texts(&e), vec!["E726: Stride is zero", "E727: Start past end"]);
    assert!(matches!(r.vval, typval_vval_union::v_number(0)));
}

#[test]
fn get_reports_bad_container() {
    let mut e = Vec::new();
    let mut r = nr(0);
    f_get(&[s("abc"), nr(0)], &mut r, &mut e);
    assert_eq!(texts(&e), vec!["E1531: Argument of get() must be a List, Tuple, Dictionary or Blob"]);
}

#[test]
fn insert_reports_each_error() {
    let mut e = Vec::new();
    let mut r = nr(0);
    let mut a = vec![list_of(vec![nr(1), nr(2), nr(3)]), nr(9), nr(9)];
    f_insert(&mut a, &mut r, &mut e);
    let mut a = vec![nr(1), nr(2)];
    f_insert(&mut a, &mut r, &mut e);
    let mut a = vec![tv(VarType::VAR_BLOB, typval_vval_union::v_blob(Some(blob(vec![1])))), nr(7), nr(5)];
    f_insert(&mut a, &mut r, &mut e);
    let mut a = vec![tv(VarType::VAR_BLOB, typval_vval_union::v_blob(Some(blob(vec![1])))), nr(300)];
    f_insert(&mut a, &mut r, &mut e);
    assert_eq!(texts(&e), vec![
        "E684: List index out of range: 9",
        "E897: List or Blob required",
        "E475: Invalid argument: 5",
        "E475: Invalid argument: 300",
    ]);
}

#[test]
fn list_find_str_reports_index() {
    let mut e = Vec::new();
    let l = list(vec![nr(10)]);
    assert_eq!(tv_list_find_str(&l, 9, &mut e), None);
    assert_eq!(texts(&e), vec!["E684: list index out of range: 9"]);
}

#[test]
fn lock_checks_report_name() {
    let mut e = Vec::new();
    assert!(value_check_lock(VarLockStatus::VAR_LOCKED, None, usize::MAX, &mut e));
    assert!(value_check_lock(VarLockStatus::VAR_FIXED, Some(b"xyz"), 2, &mut e));
    assert!(!value_check_lock(VarLockStatus::VAR_UNLOCKED, Some(b"xyz"), 2, &mut e));
    let mut t = nr(1);
    t.v_lock = VarLockStatus::VAR_LOCKED;
    assert!(tv_check_lock(&t, Some(b"g:x"), usize::MAX, &mut e));
    assert_eq!(texts(&e), vec!["E741: Value is locked", "E742: Cannot change value of xy", "E741: Value is locked: g:x"]);
}

#[test]
fn bool_arg_blob_range_and_arg_count_report() {
    let mut e = Vec::new();
    tv_check_for_bool_arg(&[nr(2)], 0, &mut e);
    let mut b = blob(vec![0, 1, 2]);
    tv_blob_set_range(&mut b, 0, 2, &blob(vec![1, 2]), &mut e);
    check_internal_func(b"add", 1, &mut e);
    check_internal_func(b"add", 5, &mut e);
    assert_eq!(check_internal_func(b"add", 2, &mut e), 1);
    assert_eq!(texts(&e), vec![
        "E1212: Bool required for argument 1",
        "E972: Blob value does not have the right number of bytes",
        "E119: Not enough arguments for function: add",
        "E118: Too many arguments for function: add",
    ]);
}

#[test]
fn rand_reports_bad_seed() {
    let mut e = Vec::new();
    let mut r = nr(0);
    let mut state = None;
    let mut a = vec![nr(5)];
    f_rand(&mut a, &mut r, &mut state, 0, &mut e);
    assert_eq!(texts(&e), vec!["E475: Invalid argument: 5"]);
}

#[test]
fn remove_reports_each_error() {
    let mut e = Vec::new();
    let mut r = nr(0);
    let l = || list_of(vec![nr(1), nr(2), nr(3)]);
    f_remove(&mut vec![l(), nr(5)], &mut r, &mut e);
    f_remove(&mut vec![l(), nr(2), nr(0)], &mut r, &mut e);
    f_remove(&mut vec![l(), nr(0), nr(-9)], &mut r, &mut e);
    let b = || tv(VarType::VAR_BLOB, typval_vval_union::v_blob(Some(blob(vec![1, 2]))));
    f_remove(&mut vec![b(), nr(-3)], &mut r, &mut e);
    let d = tv(VarType::VAR_DICT, typval_vval_union::v_dict(Some(dict_T {
        dv_hashtab: vec![dictitem_T { di_key: b"a".to_vec(), di_tv: nr(1) }],
        dv_lock: VarLockStatus::VAR_UNLOCKED, dv_refcount: 0, dv_watchers: Vec::new() })));
    f_remove(&mut vec![d, s("zz")], &mut r, &mut e);
    f_remove(&mut vec![nr(1), nr(0)], &mut r, &mut e);
    let mut locked = l();
    if let typval_vval_union::v_list(Some(x)) = &mut locked.vval { x.lv_lock = VarLockStatus::VAR_FIXED; }
    f_remove(&mut vec![locked, nr(0)], &mut r, &mut e);
    assert_eq!(texts(&e), vec![
        "E684: List index out of range: 5",
        "E16: Invalid range",
        "E684: List index out of range: -9",
        "E979: Blob index out of range: -1",
        "E716: Key not present in Dictionary: \"zz\"",
        "E896: Argument of remove() must be a List, Dictionary or Blob",
        "E742: Cannot change value of remove() argument",
    ]);
}
