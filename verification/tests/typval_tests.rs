use vimlrs::typval_defs::{
    typval_T, typval_vval_union, list_T, blob_T, Callback, VarType, VarLockStatus, BoolVarValue, OK, FAIL,
};
use vimlrs::typval_dict::{
    tv_dict_alloc, tv_dict_add_nr, tv_dict_add_tv, tv_dict_get_number, tv_dict_add_str, tv_dict_add_bool,
    tv_dict_has_key, tv_dict_get_string, tv_dict_get_number_def, tv_dict_get_bool, tv_dict_extend,
    tv_dict_to_env, tv_dict_clear, tv_dict_len,
};
use vimlrs::typval_list::{tv_list_alloc, tv_list_append_number, tv_list_uidx, tv_list_find_nr, tv_list_find_str, tv_list_reverse};
use vimlrs::typval_copy::{tv_copy, value_check_lock, tv_item_lock, tv_check_lock, tv_clear, tv_islocked, tv2bool, TV_TRANSLATE};
use vimlrs::typval_items::{
    callback_copy, callback_to_string, tv_callback_equal, callback_put, callback_free, tv_dict_get_callback,
};
use vimlrs::typval_blob::{
    tv_blob_alloc, tv_blob_slice_or_index, tv_blob_set_append, tv_blob_len, tv_blob_get, tv_blob_set, tv_blob_copy,
    tv_blob_set_range,
};
use vimlrs::typval_check::{
    tv_check_for_number_arg, tv_check_for_string_arg, tv_check_for_opt_string_arg, tv_check_for_opt_number_arg,
    tv_check_for_bool_arg, tv_check_for_nonempty_string_arg, tv_check_str_or_nr, tv_check_str, tv_check_num,
    tv_check_for_string_or_number_arg, tv_check_for_buffer_arg, tv_check_for_lnum_arg, tv_check_for_list_or_blob_arg,
    tv_check_for_opt_string_or_list_arg,
};

fn nr(n: i64) -> typval_T {
    typval_T { v_type: VarType::VAR_NUMBER, v_lock: VarLockStatus::VAR_UNLOCKED, vval: typval_vval_union::v_number(n) }
}

fn str_tv(s: &str) -> typval_T {
    typval_T { v_type: VarType::VAR_STRING, v_lock: VarLockStatus::VAR_UNLOCKED, vval: typval_vval_union::v_string(s.as_bytes().to_vec()) }
}

fn blob_tv() -> typval_T {
    typval_T { v_type: VarType::VAR_BLOB, v_lock: VarLockStatus::VAR_UNLOCKED, vval: typval_vval_union::v_blob(Some(tv_blob_alloc())) }
}

fn list_of(items: Vec<typval_T>) -> list_T {
    let mut l = tv_list_alloc(0);
    l.lv_items = items;
    l
}

#[test]
fn dict_add_fails_on_existing_key_but_add_tv_overwrites() {
    let mut db = tv_dict_alloc();
    assert_eq!(tv_dict_add_nr(&mut db, b"a", 1), OK);
    assert_eq!(tv_dict_add_nr(&mut db, b"a", 2), FAIL);
    assert_eq!(tv_dict_get_number(&db, b"a"), 1);
    tv_dict_add_tv(&mut db, b"a", nr(9));
    assert_eq!(tv_dict_get_number(&db, b"a"), 9);
}

#[test]
fn dict_typed_getters_and_defaults() {
    let mut db = tv_dict_alloc();
    tv_dict_add_str(&mut db, b"s", b"hi");
    tv_dict_add_bool(&mut db, b"b", BoolVarValue::kBoolVarTrue);
    assert!(tv_dict_has_key(&db, b"s"));
    assert!(!tv_dict_has_key(&db, b"missing"));
    assert_eq!(tv_dict_get_string(&db, b"s"), Some(b"hi".to_vec()));
    assert_eq!(tv_dict_get_string(&db, b"missing"), None);
    assert_eq!(tv_dict_get_number_def(&db, b"missing", 7), 7);
    assert_eq!(tv_dict_get_bool(&db, b"b", 0), 1);
    assert_eq!(tv_dict_get_bool(&db, b"missing", 0), 0);
}

#[test]
fn list_find_uidx_reverse_and_copy() {
    let mut l = tv_list_alloc(0);
    tv_list_append_number(&mut l, 10);
    tv_list_append_number(&mut l, 20);
    tv_list_append_number(&mut l, 30);
    assert_eq!(tv_list_uidx(&l, 0), 0);
    assert_eq!(tv_list_uidx(&l, -1), 2);
    assert_eq!(tv_list_uidx(&l, 3), -1);
    assert_eq!(tv_list_uidx(&l, -4), -1);
    assert_eq!(tv_list_find_nr(&l, 1, None), 20);
    assert_eq!(tv_list_find_nr(&l, -1, None), 30);
    let mut err = false;
    assert_eq!(tv_list_find_nr(&l, 9, Some(&mut err)), -1);
    assert!(err);
    assert_eq!(tv_list_find_str(&l, 0, &mut Vec::new()), Some(b"10".to_vec()));
    assert_eq!(tv_list_find_str(&l, 9, &mut Vec::new()), None);
    tv_list_reverse(&mut l);
    assert_eq!(tv_list_find_nr(&l, 0, None), 30);
    assert_eq!(tv_list_find_nr(&l, 2, None), 10);
    // tv_copy clears the lock and keeps the same List contents. Values here
    // are held, not shared, so the copy equals the source List rather than
    // being the same List.
    let expected = list_of(vec![nr(30), nr(20), nr(10)]);
    let src = typval_T { v_type: VarType::VAR_LIST, v_lock: VarLockStatus::VAR_LOCKED, vval: typval_vval_union::v_list(Some(l)) };
    let mut dst = nr(0);
    tv_copy(&src, &mut dst);
    assert_eq!(dst.v_type, VarType::VAR_LIST);
    assert_eq!(dst.v_lock, VarLockStatus::VAR_UNLOCKED);
    match &dst.vval {
        typval_vval_union::v_list(Some(d)) => assert_eq!(d, &expected),
        _ => panic!("expected a List"),
    }
}

#[test]
fn callback_family() {
    let func = |n: &str| typval_T { v_type: VarType::VAR_FUNC, v_lock: VarLockStatus::VAR_UNLOCKED, vval: typval_vval_union::v_string(n.as_bytes().to_vec()) };
    let mut c = Callback::kCallbackNone;
    callback_copy(&mut c, &Callback::kCallbackFuncref(b"Foo".to_vec()));
    assert_eq!(c, Callback::kCallbackFuncref(b"Foo".to_vec()));
    assert_eq!(callback_to_string(&c), b"<vim function: Foo>".to_vec());
    assert!(tv_callback_equal(&c, &Callback::kCallbackFuncref(b"Foo".to_vec())));
    assert!(!tv_callback_equal(&c, &Callback::kCallbackFuncref(b"Bar".to_vec())));
    let mut tv = nr(0);
    callback_put(&c, &mut tv);
    assert!(matches!((tv.v_type, &tv.vval), (VarType::VAR_FUNC, typval_vval_union::v_string(s)) if s == b"Foo"));
    callback_free(&mut c);
    assert_eq!(c, Callback::kCallbackNone);
    let mut d = tv_dict_alloc();
    tv_dict_add_tv(&mut d, b"cb", func("Handler"));
    let mut r = Callback::kCallbackNone;
    assert!(tv_dict_get_callback(&d, b"cb", &mut r));
    assert_eq!(r, Callback::kCallbackFuncref(b"Handler".to_vec()));
    let mut r2 = Callback::kCallbackFuncref(b"x".to_vec());
    assert!(tv_dict_get_callback(&d, b"nope", &mut r2));
    assert_eq!(r2, Callback::kCallbackNone);
}

fn list_lock(tv: &typval_T) -> VarLockStatus {
    match &tv.vval {
        typval_vval_union::v_list(Some(l)) => l.lv_lock,
        _ => panic!("expected a List"),
    }
}

#[test]
fn lock_family() {
    assert!(!value_check_lock(VarLockStatus::VAR_UNLOCKED, None, TV_TRANSLATE, &mut Vec::new()));
    assert!(value_check_lock(VarLockStatus::VAR_LOCKED, None, TV_TRANSLATE, &mut Vec::new()));
    assert!(value_check_lock(VarLockStatus::VAR_FIXED, Some(b"x"), TV_TRANSLATE, &mut Vec::new()));
    let l = list_of(vec![nr(1), nr(2)]);
    let mut tv = typval_T { v_type: VarType::VAR_LIST, v_lock: VarLockStatus::VAR_UNLOCKED, vval: typval_vval_union::v_list(Some(l)) };
    tv_item_lock(&mut tv, -1, true, false);
    assert_eq!(tv.v_lock, VarLockStatus::VAR_LOCKED);
    assert_eq!(list_lock(&tv), VarLockStatus::VAR_LOCKED);
    match &tv.vval {
        typval_vval_union::v_list(Some(l)) => assert_eq!(l.lv_items[0].v_lock, VarLockStatus::VAR_LOCKED),
        _ => panic!("expected a List"),
    }
    assert!(tv_check_lock(&tv, None, TV_TRANSLATE, &mut Vec::new()));
    tv_item_lock(&mut tv, -1, false, false);
    assert_eq!(list_lock(&tv), VarLockStatus::VAR_UNLOCKED);
    assert!(!tv_check_lock(&tv, None, TV_TRANSLATE, &mut Vec::new()));
    let mut fixed = nr(1);
    fixed.v_lock = VarLockStatus::VAR_FIXED;
    tv_item_lock(&mut fixed, 1, false, false);
    assert_eq!(fixed.v_lock, VarLockStatus::VAR_FIXED);
}

fn blob_of(bytes: Vec<u8>) -> blob_T {
    let mut b = tv_blob_alloc();
    b.bv_ga = bytes;
    b
}

fn blob_value(bytes: Vec<u8>) -> typval_T {
    typval_T { v_type: VarType::VAR_BLOB, v_lock: VarLockStatus::VAR_UNLOCKED, vval: typval_vval_union::v_blob(Some(blob_of(bytes))) }
}

#[test]
fn blob_index_and_slice() {
    let b = blob_of(vec![10, 20, 30, 40]);
    let mut rt = blob_value(vec![10, 20, 30, 40]);
    assert_eq!(tv_blob_slice_or_index(&b, false, 2, 0, false, &mut rt), OK);
    assert!(matches!((rt.v_type, &rt.vval), (VarType::VAR_NUMBER, typval_vval_union::v_number(30))));
    let mut rt = blob_value(vec![10, 20, 30, 40]);
    assert_eq!(tv_blob_slice_or_index(&b, false, -1, 0, false, &mut rt), OK);
    assert!(matches!((rt.v_type, &rt.vval), (VarType::VAR_NUMBER, typval_vval_union::v_number(40))));
    let mut rt = blob_value(vec![10, 20, 30, 40]);
    assert_eq!(tv_blob_slice_or_index(&b, false, 10, 0, false, &mut rt), FAIL);
    let mut rt = blob_value(vec![10, 20, 30, 40]);
    assert_eq!(tv_blob_slice_or_index(&b, true, 1, 2, false, &mut rt), OK);
    match (&rt.v_type, &rt.vval) {
        (VarType::VAR_BLOB, typval_vval_union::v_blob(Some(nb))) => assert_eq!(nb.bv_ga, vec![20, 30]),
        _ => panic!("expected a blob slice"),
    }
}

#[test]
fn arg_type_checks_required_and_optional() {
    let args = [nr(5), str_tv("hi")];
    assert_eq!(tv_check_for_number_arg(&args, 0), OK);
    assert_eq!(tv_check_for_string_arg(&args, 1), OK);
    assert_eq!(tv_check_for_string_arg(&args, 0), FAIL);
    assert_eq!(tv_check_for_number_arg(&args, 1), FAIL);
    assert_eq!(tv_check_for_string_arg(&args, 5), FAIL);
    assert_eq!(tv_check_for_opt_string_arg(&args, 5), OK);
    assert_eq!(tv_check_for_opt_string_arg(&args, 1), OK);
    assert_eq!(tv_check_for_opt_number_arg(&args, 1), FAIL);
    assert_eq!(tv_check_for_bool_arg(&[nr(1)], 0, &mut Vec::new()), OK);
    assert_eq!(tv_check_for_bool_arg(&[nr(0)], 0, &mut Vec::new()), OK);
    assert_eq!(tv_check_for_bool_arg(&[nr(2)], 0, &mut Vec::new()), FAIL);
    assert_eq!(tv_check_for_nonempty_string_arg(&[str_tv("x")], 0), OK);
    assert_eq!(tv_check_for_nonempty_string_arg(&[str_tv("")], 0), FAIL);
    assert!(tv_check_str_or_nr(&nr(1)));
    assert!(tv_check_str(&nr(1)));
    assert!(tv_check_num(&str_tv("3")));
    assert_eq!(tv_check_for_string_or_number_arg(&[nr(1)], 0), OK);
    assert_eq!(tv_check_for_string_or_number_arg(&[str_tv("x")], 0), OK);
    assert_eq!(tv_check_for_string_or_number_arg(&[blob_tv()], 0), FAIL);
    assert_eq!(tv_check_for_buffer_arg(&[nr(2)], 0), OK);
    assert_eq!(tv_check_for_lnum_arg(&[str_tv("$")], 0), OK);
    assert_eq!(tv_check_for_list_or_blob_arg(&[blob_tv()], 0), OK);
    assert_eq!(tv_check_for_list_or_blob_arg(&[nr(1)], 0), FAIL);
    assert_eq!(tv_check_for_opt_string_or_list_arg(&[str_tv("x")], 5), OK);
    assert_eq!(tv_check_for_opt_string_or_list_arg(&[str_tv("x")], 0), OK);
    assert_eq!(tv_check_for_opt_string_or_list_arg(&[nr(1)], 0), FAIL);
}

#[test]
fn blob_get_set_copy_and_ranges() {
    let mut b = tv_blob_alloc();
    tv_blob_set_append(&mut b, 0, 0xde);
    tv_blob_set_append(&mut b, 1, 0xad);
    tv_blob_set_append(&mut b, 2, 0xbe);
    tv_blob_set_append(&mut b, 9, 0xff);
    assert_eq!(tv_blob_len(&b), 3);
    assert_eq!(tv_blob_get(&b, 0), 0xde);
    tv_blob_set(&mut b, 0, 0x00);
    assert_eq!(tv_blob_get(&b, 0), 0x00);
    let mut dst = nr(0);
    tv_blob_copy(Some(&b), &mut dst);
    if let typval_vval_union::v_blob(Some(d)) = &dst.vval {
        assert_eq!(d.bv_ga, b.bv_ga);
    } else {
        panic!("expected blob");
    }
    let mut dst2 = nr(0);
    tv_blob_copy(None, &mut dst2);
    assert!(matches!(dst2.vval, typval_vval_union::v_blob(None)));
    let src = blob_of(vec![1, 2]);
    assert_eq!(tv_blob_set_range(&mut b, 0, 1, &src, &mut Vec::new()), OK);
    assert_eq!(b.bv_ga[..2], [1, 2]);
    assert_eq!(tv_blob_set_range(&mut b, 0, 2, &src, &mut Vec::new()), FAIL);
}

#[test]
fn dict_extend_clear_env_and_tv_clear() {
    let mut d1 = tv_dict_alloc();
    let mut d2 = tv_dict_alloc();
    tv_dict_add_nr(&mut d1, b"x", 1);
    tv_dict_add_nr(&mut d2, b"x", 2);
    tv_dict_add_str(&mut d2, b"y", b"hi");
    tv_dict_extend(&mut d1, &d2, b"keep");
    assert_eq!(tv_dict_get_number(&d1, b"x"), 1);
    assert!(tv_dict_has_key(&d1, b"y"));
    tv_dict_extend(&mut d1, &d2, b"force");
    assert_eq!(tv_dict_get_number(&d1, b"x"), 2);
    let env = tv_dict_to_env(&d1);
    assert!(env.contains(&b"y=hi".to_vec()));
    tv_dict_clear(&mut d1);
    assert_eq!(tv_dict_len(&d1), 0);
    let mut t = str_tv("gone");
    tv_clear(&mut t);
    assert_eq!(t.v_type, VarType::VAR_UNKNOWN);
    let mut l = tv_list_alloc(0);
    l.lv_lock = VarLockStatus::VAR_LOCKED;
    let tv = typval_T { v_type: VarType::VAR_LIST, v_lock: VarLockStatus::VAR_UNLOCKED, vval: typval_vval_union::v_list(Some(l)) };
    assert!(tv_islocked(&tv));
}

#[test]
fn tv2bool_matches_vim_truthiness() {
    assert!(!tv2bool(&nr(0)));
    assert!(tv2bool(&nr(5)));
    assert!(!tv2bool(&str_tv("")));
    assert!(tv2bool(&str_tv("x")));
    let l = tv_list_alloc(0);
    assert!(!tv2bool(&typval_T { v_type: VarType::VAR_LIST, v_lock: VarLockStatus::VAR_UNLOCKED, vval: typval_vval_union::v_list(Some(l)) }));
    let mut l2 = tv_list_alloc(0);
    tv_list_append_number(&mut l2, 1);
    assert!(tv2bool(&typval_T { v_type: VarType::VAR_LIST, v_lock: VarLockStatus::VAR_UNLOCKED, vval: typval_vval_union::v_list(Some(l2)) }));
}
