use vimlrs::typval_defs::{typval_T, typval_vval_union, dict_T, dictitem_T, list_T, VarType, VarLockStatus};
use vimlrs::registers::{f_setreg, f_getreg, f_getregtype, f_getreginfo, MotionType, RegValue, Registers};

fn tv(t: VarType, v: typval_vval_union) -> typval_T {
    typval_T { v_type: t, v_lock: VarLockStatus::VAR_UNLOCKED, vval: v }
}
fn nr(n: i64) -> typval_T {
    tv(VarType::VAR_NUMBER, typval_vval_union::v_number(n))
}
fn s(x: &str) -> typval_T {
    tv(VarType::VAR_STRING, typval_vval_union::v_string(x.as_bytes().to_vec()))
}
fn dict_of(entries: Vec<(&str, typval_T)>) -> typval_T {
    let items = entries.into_iter().map(|(k, v)| dictitem_T { di_key: k.as_bytes().to_vec(), di_tv: v }).collect();
    tv(VarType::VAR_DICT, typval_vval_union::v_dict(Some(dict_T { dv_hashtab: items, dv_lock: VarLockStatus::VAR_UNLOCKED, dv_refcount: 0, dv_watchers: Vec::new() })))
}
fn list_of(items: Vec<typval_T>) -> typval_T {
    tv(VarType::VAR_LIST, typval_vval_union::v_list(Some(list_T { lv_items: items, lv_lock: VarLockStatus::VAR_UNLOCKED, lv_refcount: 0 })))
}
fn num_of(t: &typval_T) -> i64 {
    match t.vval { typval_vval_union::v_number(n) => n, _ => panic!("not a Number") }
}

#[test]
fn setreg_text_charwise_and_linewise() {
    let mut ret = nr(5);
    let w = f_setreg(&[s("a"), s("hello")], &mut ret).unwrap();
    assert_eq!(num_of(&ret), 0);
    assert_eq!(w.regname, 'a' as u32);
    assert!(matches!(w.mtype, MotionType::CharWise));
    assert!(!w.append);
    match w.value { RegValue::Text(t) => assert_eq!(t, b"hello".to_vec()), _ => panic!() }
    let w = f_setreg(&[s("b"), s("line\n")], &mut ret).unwrap();
    assert!(matches!(w.mtype, MotionType::LineWise));
}

#[test]
fn setreg_name_defaults_to_unnamed() {
    let mut ret = nr(5);
    assert_eq!(f_setreg(&[s(""), s("x")], &mut ret).unwrap().regname, '"' as u32);
    assert_eq!(f_setreg(&[s("@"), s("x")], &mut ret).unwrap().regname, '"' as u32);
    assert_eq!(f_setreg(&[nr(7), s("x")], &mut ret).unwrap().regname, '7' as u32);
}

#[test]
fn setreg_list_and_options() {
    let mut ret = nr(5);
    let w = f_setreg(&[s("c"), list_of(vec![s("one"), nr(2)])], &mut ret).unwrap();
    assert!(matches!(w.mtype, MotionType::LineWise));
    match w.value { RegValue::Lines(l) => assert_eq!(l, vec![b"one".to_vec(), b"2".to_vec()]), _ => panic!() }
    let w = f_setreg(&[s("c"), s("x"), s("ab")], &mut ret).unwrap();
    assert!(w.append);
    assert!(matches!(w.mtype, MotionType::BlockWise));
    let w = f_setreg(&[s("c"), s("x\n"), s("Auv")], &mut ret).unwrap();
    assert!(w.append);
    assert!(matches!(w.mtype, MotionType::CharWise));
}

#[test]
fn setreg_dict_value() {
    let mut ret = nr(5);
    let d = dict_of(vec![("regcontents", list_of(vec![s("a"), s("b")])), ("regtype", s("v"))]);
    let w = f_setreg(&[s("d"), d], &mut ret).unwrap();
    assert!(matches!(w.mtype, MotionType::CharWise));
    match w.value { RegValue::Lines(l) => assert_eq!(l.len(), 2), _ => panic!() }
}

#[test]
fn setreg_refuses_a_list_name() {
    let mut ret = nr(5);
    assert!(f_setreg(&[list_of(vec![]), s("x")], &mut ret).is_none());
    assert_eq!(num_of(&ret), 1);
}

fn regs() -> Registers {
    Registers {
        names: vec!['a' as u32, '"' as u32, 'b' as u32],
        lines: vec![vec![b"one".to_vec(), b"two".to_vec()], vec![b"x".to_vec()], vec![b"ab".to_vec(), b"c".to_vec()]],
        types: vec![MotionType::LineWise, MotionType::CharWise, MotionType::BlockWise],
        widths: vec![0, 0, 2],
    }
}
fn str_of(t: &typval_T) -> String {
    match &t.vval { typval_vval_union::v_string(v) => String::from_utf8(v.clone()).unwrap(), _ => panic!("not a String") }
}

#[test]
fn getreg_text_and_list() {
    let r = regs();
    let mut ret = nr(0);
    f_getreg(&r, &[s("a")], &mut ret, b"");
    assert_eq!(str_of(&ret), "one\ntwo\n");
    f_getreg(&r, &[s("b")], &mut ret, b"");
    assert_eq!(str_of(&ret), "ab\nc");
    f_getreg(&r, &[], &mut ret, b"");
    assert_eq!(str_of(&ret), "x");
    f_getreg(&r, &[s("z")], &mut ret, b"");
    assert_eq!(str_of(&ret), "");
    f_getreg(&r, &[s("a"), nr(1), nr(1)], &mut ret, b"");
    match &ret.vval {
        typval_vval_union::v_list(Some(l)) => assert_eq!(l.lv_items.iter().map(str_of).collect::<Vec<_>>(), vec!["one", "two"]),
        _ => panic!("expected a List"),
    }
}

#[test]
fn getregtype_and_getreginfo() {
    let r = regs();
    let mut ret = nr(0);
    f_getregtype(&r, &[s("a")], &mut ret, b"");
    assert_eq!(str_of(&ret), "V");
    f_getregtype(&r, &[s("b")], &mut ret, b"");
    assert_eq!(str_of(&ret), "\u{16}2");
    f_getregtype(&r, &[s("z")], &mut ret, b"");
    assert_eq!(str_of(&ret), "");
    f_getreginfo(&r, &[s("@")], &mut ret, b"");
    match &ret.vval {
        typval_vval_union::v_dict(Some(d)) => {
            let keys: Vec<String> = d.dv_hashtab.iter().map(|i| String::from_utf8(i.di_key.clone()).unwrap()).collect();
            assert_eq!(keys, vec!["regcontents", "regtype", "points_to"]);
        },
        _ => panic!("expected a Dict"),
    }
    f_getreginfo(&r, &[s("z")], &mut ret, b"");
    match &ret.vval {
        typval_vval_union::v_dict(Some(d)) => assert!(d.dv_hashtab.is_empty()),
        _ => panic!("expected a Dict"),
    }
}
