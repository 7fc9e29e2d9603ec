use vimlrs::typval_defs::{typval_T, typval_vval_union, list_T, blob_T, VarType, VarLockStatus};
use vimlrs::typval_dict::{tv_dict_alloc, tv_dict_add_nr};
use vimlrs::list_funcs::{f_count, f_extend, f_extendnew, f_filter, f_map, f_mapnew, f_foreach};

fn tv(t: VarType, v: typval_vval_union) -> typval_T {
    typval_T { v_type: t, v_lock: VarLockStatus::VAR_UNLOCKED, vval: v }
}

fn nr(n: i64) -> typval_T {
    tv(VarType::VAR_NUMBER, typval_vval_union::v_number(n))
}

fn s(x: &str) -> typval_T {
    tv(VarType::VAR_STRING, typval_vval_union::v_string(x.as_bytes().to_vec()))
}

fn list_of(items: Vec<typval_T>) -> typval_T {
    tv(VarType::VAR_LIST, typval_vval_union::v_list(Some(list_T { lv_items: items, lv_lock: VarLockStatus::VAR_UNLOCKED, lv_refcount: 0 })))
}

fn unknown() -> typval_T {
    tv(VarType::VAR_UNKNOWN, typval_vval_union::v_number(0))
}

fn num_of(t: &typval_T) -> i64 {
    match t.vval {
        typval_vval_union::v_number(n) => n,
        _ => panic!("not a Number"),
    }
}

fn items_of(t: &typval_T) -> Vec<i64> {
    match &t.vval {
        typval_vval_union::v_list(Some(l)) => l.lv_items.iter().map(num_of).collect(),
        _ => panic!("not a List"),
    }
}

fn string_of(t: &typval_T) -> Vec<u8> {
    match &t.vval {
        typval_vval_union::v_string(x) => x.clone(),
        _ => panic!("not a String"),
    }
}

type Cmd = fn(Vec<u8>, typval_T, typval_T) -> bool;

#[test]
fn count_in_string_list_and_dict() {
    let mut r = unknown();
    f_count(&[s("aaaa"), s("aa")], &mut r);
    assert_eq!(num_of(&r), 2);
    f_count(&[s("Hello hello"), s("HELLO"), nr(1)], &mut r);
    assert_eq!(num_of(&r), 2);
    f_count(&[s("Hello hello"), s("HELLO")], &mut r);
    assert_eq!(num_of(&r), 0);
    let l = list_of(vec![nr(1), nr(2), nr(1), nr(1)]);
    f_count(&[l, nr(1)], &mut r);
    assert_eq!(num_of(&r), 3);
    let l = list_of(vec![nr(1), nr(2), nr(1), nr(1)]);
    f_count(&[l, nr(1), nr(0), nr(-2)], &mut r);
    assert_eq!(num_of(&r), 2);
    let l = list_of(vec![nr(1), nr(2)]);
    f_count(&[l, nr(1), nr(0), nr(5)], &mut r);
    assert_eq!(num_of(&r), 0);
    let mut d = tv_dict_alloc();
    tv_dict_add_nr(&mut d, b"a", 7);
    tv_dict_add_nr(&mut d, b"b", 7);
    let dt = tv(VarType::VAR_DICT, typval_vval_union::v_dict(Some(d)));
    f_count(&[dt, nr(7)], &mut r);
    assert_eq!(num_of(&r), 2);
    f_count(&[nr(3), nr(3)], &mut r);
    assert_eq!(num_of(&r), 0);
    f_count(&[s("abc"), s("")], &mut r);
    assert_eq!(num_of(&r), 0);
}

#[test]
fn extend_list_and_dict() {
    let mut args = vec![list_of(vec![nr(1), nr(2)]), list_of(vec![nr(3)])];
    let mut r = unknown();
    f_extend(&mut args, &mut r);
    assert_eq!(items_of(&args[0]), vec![1, 2, 3]);
    assert_eq!(items_of(&r), vec![1, 2, 3]);
    let mut args = vec![list_of(vec![nr(1), nr(2)]), list_of(vec![nr(3)]), nr(0)];
    f_extend(&mut args, &mut r);
    assert_eq!(items_of(&args[0]), vec![3, 1, 2]);
    // An index past the end: nothing changes.
    let mut args = vec![list_of(vec![nr(1)]), list_of(vec![nr(3)]), nr(5)];
    let mut r = nr(42);
    f_extend(&mut args, &mut r);
    assert_eq!(items_of(&args[0]), vec![1]);
    assert_eq!(num_of(&r), 42);
    // extendnew() leaves its first argument alone.
    let args = vec![list_of(vec![nr(1)]), list_of(vec![nr(2)])];
    let mut r = unknown();
    f_extendnew(&args, &mut r);
    assert_eq!(items_of(&r), vec![1, 2]);
    assert_eq!(items_of(&args[0]), vec![1]);
    // Dicts: "keep" keeps the first value, "force" takes the second.
    let mut d1 = tv_dict_alloc();
    tv_dict_add_nr(&mut d1, b"k", 1);
    let mut d2 = tv_dict_alloc();
    tv_dict_add_nr(&mut d2, b"k", 2);
    tv_dict_add_nr(&mut d2, b"n", 3);
    let dt1 = tv(VarType::VAR_DICT, typval_vval_union::v_dict(Some(d1)));
    let dt2 = tv(VarType::VAR_DICT, typval_vval_union::v_dict(Some(d2)));
    let args = vec![dt1, dt2, s("keep")];
    let mut r = unknown();
    f_extendnew(&args, &mut r);
    match &r.vval {
        typval_vval_union::v_dict(Some(d)) => {
            assert_eq!(d.dv_hashtab.len(), 2);
            assert_eq!(num_of(&d.dv_hashtab[0].di_tv), 1);
            assert_eq!(num_of(&d.dv_hashtab[1].di_tv), 3);
        },
        _ => panic!("no Dict"),
    }
    let mut args = args;
    args[2] = s("force");
    f_extend(&mut args, &mut r);
    match &args[0].vval {
        typval_vval_union::v_dict(Some(d)) => assert_eq!(num_of(&d.dv_hashtab[0].di_tv), 2),
        _ => panic!("no Dict"),
    }
    // A bad action changes nothing.
    args[2] = s("bogus");
    let mut r = nr(9);
    f_extend(&mut args, &mut r);
    assert_eq!(num_of(&r), 9);
}

fn double(_e: typval_T, _k: typval_T, v: typval_T) -> Option<typval_T> {
    match v.vval {
        typval_vval_union::v_number(n) => Some(nr(n * 2)),
        _ => None,
    }
}

fn odd(_e: typval_T, _k: typval_T, v: typval_T) -> Option<typval_T> {
    match v.vval {
        typval_vval_union::v_number(n) => Some(nr(n % 2)),
        _ => None,
    }
}

fn upper(_e: typval_T, _k: typval_T, v: typval_T) -> Option<typval_T> {
    match v.vval {
        typval_vval_union::v_string(x) => Some(s(&String::from_utf8(x).unwrap().to_uppercase())),
        _ => None,
    }
}

#[test]
fn map_filter_and_mapnew_on_lists() {
    let mut args = vec![list_of(vec![nr(1), nr(2), nr(3)]), s("v:val * 2")];
    let mut r = unknown();
    f_map::<_, Cmd>(&mut args, &mut r, Some(&double), None);
    assert_eq!(items_of(&args[0]), vec![2, 4, 6]);
    assert_eq!(items_of(&r), vec![2, 4, 6]);
    let mut args = vec![list_of(vec![nr(1), nr(2), nr(3)]), s("v:val % 2")];
    f_filter::<_, Cmd>(&mut args, &mut r, Some(&odd), None);
    assert_eq!(items_of(&args[0]), vec![1, 3]);
    let args = vec![list_of(vec![nr(5)]), s("v:val * 2")];
    let mut r = unknown();
    f_mapnew::<_, Cmd>(&args, &mut r, Some(&double), None);
    assert_eq!(items_of(&r), vec![10]);
    assert_eq!(items_of(&args[0]), vec![5]);
    // A failing step stops the work: the rest stays.
    let mut args = vec![list_of(vec![nr(1), s("x"), nr(3)]), s("v:val * 2")];
    f_map::<_, Cmd>(&mut args, &mut r, Some(&double), None);
    match &args[0].vval {
        typval_vval_union::v_list(Some(l)) => {
            assert_eq!(num_of(&l.lv_items[0]), 2);
            assert_eq!(string_of(&l.lv_items[1]), b"x".to_vec());
            assert_eq!(num_of(&l.lv_items[2]), 3);
        },
        _ => panic!("no List"),
    }
    // Without an evaluator nothing is done.
    let mut args = vec![list_of(vec![nr(1)]), s("v:val")];
    f_map::<fn(typval_T, typval_T, typval_T) -> Option<typval_T>, Cmd>(&mut args, &mut r, None, None);
    assert_eq!(items_of(&args[0]), vec![1]);
}

#[test]
fn map_on_strings_blobs_and_dicts() {
    let args = vec![s("abc"), s("toupper(v:val)")];
    let mut r = unknown();
    f_mapnew::<_, Cmd>(&args, &mut r, Some(&upper), None);
    assert_eq!(string_of(&r), b"ABC".to_vec());
    let blob = tv(VarType::VAR_BLOB, typval_vval_union::v_blob(Some(blob_T { bv_ga: vec![1, 2, 200], bv_lock: VarLockStatus::VAR_UNLOCKED, bv_refcount: 0 })));
    let mut args = vec![blob, s("v:val * 2")];
    f_map::<_, Cmd>(&mut args, &mut r, Some(&double), None);
    match &args[0].vval {
        typval_vval_union::v_blob(Some(b)) => assert_eq!(b.bv_ga, vec![2, 4, 144]),
        _ => panic!("no Blob"),
    }
    let mut d = tv_dict_alloc();
    tv_dict_add_nr(&mut d, b"a", 1);
    tv_dict_add_nr(&mut d, b"b", 2);
    let mut args = vec![tv(VarType::VAR_DICT, typval_vval_union::v_dict(Some(d))), s("v:val % 2")];
    f_filter::<_, Cmd>(&mut args, &mut r, Some(&odd), None);
    match &args[0].vval {
        typval_vval_union::v_dict(Some(d)) => {
            assert_eq!(d.dv_hashtab.len(), 1);
            assert_eq!(d.dv_hashtab[0].di_key, b"a".to_vec());
        },
        _ => panic!("no Dict"),
    }
}

#[test]
fn foreach_runs_commands() {
    let seen = std::cell::RefCell::new(Vec::new());
    let cmd = |c: Vec<u8>, _k: typval_T, v: typval_T| -> bool {
        seen.borrow_mut().push((c, num_of(&v)));
        true
    };
    let args = vec![list_of(vec![nr(4), nr(5)]), s("echo v:val")];
    let mut r = unknown();
    f_foreach::<fn(typval_T, typval_T, typval_T) -> Option<typval_T>, _>(&args, &mut r, None, Some(&cmd));
    assert_eq!(items_of(&r), vec![4, 5]);
    assert_eq!(seen.borrow().len(), 2);
    assert_eq!(seen.borrow()[1], (b"echo v:val".to_vec(), 5));
}
