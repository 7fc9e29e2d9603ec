use vimlrs::typval_defs::{typval_T, typval_vval_union, list_T, VarType, VarLockStatus};
use vimlrs::somematch::{f_match, f_matchend, f_matchstr, f_matchlist, f_matchstrpos};

fn tv(t: VarType, v: typval_vval_union) -> typval_T {
    typval_T { v_type: t, v_lock: VarLockStatus::VAR_UNLOCKED, vval: v }
}
fn nr(n: i64) -> typval_T {
    tv(VarType::VAR_NUMBER, typval_vval_union::v_number(n))
}
fn s(x: &str) -> typval_T {
    tv(VarType::VAR_STRING, typval_vval_union::v_string(x.as_bytes().to_vec()))
}
fn list_of(items: Vec<typval_T>) -> typval_T {
    tv(VarType::VAR_LIST, typval_vval_union::v_list(Some(list_T { lv_items: items, lv_lock: VarLockStatus::VAR_UNLOCKED, lv_refcount: 0 })))
}
fn num_of(t: &typval_T) -> i64 {
    match t.vval { typval_vval_union::v_number(n) => n, _ => panic!("not a Number") }
}
fn str_of(t: &typval_T) -> String {
    match &t.vval { typval_vval_union::v_string(v) => String::from_utf8(v.clone()).unwrap(), _ => panic!("not a String") }
}
fn items_of(t: &typval_T) -> &Vec<typval_T> {
    match &t.vval { typval_vval_union::v_list(Some(l)) => &l.lv_items, _ => panic!("not a List") }
}

/// A plain substring finder standing in for the pattern engine.
fn find(pat: &[u8], subj: &[u8], _ic: bool, col: usize, count: i64) -> Option<(i64, i64, Vec<Vec<u8>>)> {
    let mut n = if count < 1 { 1 } else { count };
    let mut i = col;
    while i + pat.len() <= subj.len() {
        if &subj[i..i + pat.len()] == pat {
            n -= 1;
            if n == 0 {
                return Some((i as i64, (i + pat.len()) as i64, vec![pat.to_vec()]));
            }
        }
        i += 1;
    }
    None
}

fn none() -> Vec<Vec<u8>> {
    Vec::new()
}

#[test]
fn match_in_a_string() {
    let mut r = nr(0);
    f_match(&[s("hello world"), s("o")], &mut r, &none(), false, &find);
    assert_eq!(num_of(&r), 4);
    f_match(&[s("hello world"), s("o"), nr(5)], &mut r, &none(), false, &find);
    assert_eq!(num_of(&r), 7);
    f_match(&[s("hello world"), s("o"), nr(0), nr(2)], &mut r, &none(), false, &find);
    assert_eq!(num_of(&r), 7);
    f_match(&[s("hello"), s("z")], &mut r, &none(), false, &find);
    assert_eq!(num_of(&r), -1);
    f_match(&[s("hello"), s("l"), nr(9)], &mut r, &none(), false, &find);
    assert_eq!(num_of(&r), -1);
    f_matchend(&[s("hello world"), s("o")], &mut r, &none(), false, &find);
    assert_eq!(num_of(&r), 5);
}

#[test]
fn matchstr_and_matchlist() {
    let mut r = nr(0);
    f_matchstr(&[s("testing"), s("ing")], &mut r, &none(), false, &find);
    assert_eq!(str_of(&r), "ing");
    f_matchstr(&[s("testing"), s("x")], &mut r, &none(), false, &find);
    assert_eq!(str_of(&r), "");
    f_matchlist(&[s("testing"), s("ing")], &mut r, &none(), false, &find);
    assert_eq!(items_of(&r).iter().map(str_of).collect::<Vec<_>>(), vec!["ing"]);
    f_matchlist(&[s("testing"), s("x")], &mut r, &none(), false, &find);
    assert!(items_of(&r).is_empty());
}

#[test]
fn matchstrpos_string_and_list() {
    let mut r = nr(0);
    f_matchstrpos(&[s("testing"), s("ing")], &mut r, &none(), false, &find);
    let p = items_of(&r);
    assert_eq!((str_of(&p[0]), num_of(&p[1]), num_of(&p[2])), ("ing".to_string(), 4, 7));
    let l = list_of(vec![s("a"), s("bob"), s("cob")]);
    let echo = vec![b"a".to_vec(), b"bob".to_vec(), b"cob".to_vec()];
    f_matchstrpos(&[l, s("ob")], &mut r, &echo, false, &find);
    let p = items_of(&r);
    assert_eq!((str_of(&p[0]), num_of(&p[1]), num_of(&p[2]), num_of(&p[3])), ("ob".to_string(), 1, 1, 3));
    f_matchstrpos(&[s("abc"), s("x")], &mut r, &none(), false, &find);
    let p = items_of(&r);
    assert_eq!((str_of(&p[0]), num_of(&p[1]), num_of(&p[2])), ("".to_string(), -1, -1));
}

#[test]
fn match_in_a_list() {
    let mut r = nr(0);
    let echo = vec![b"a".to_vec(), b"bob".to_vec(), b"cob".to_vec()];
    let l = || list_of(vec![s("a"), s("bob"), s("cob")]);
    f_match(&[l(), s("ob")], &mut r, &echo, false, &find);
    assert_eq!(num_of(&r), 1);
    f_match(&[l(), s("ob"), nr(0), nr(2)], &mut r, &echo, false, &find);
    assert_eq!(num_of(&r), 2);
    f_match(&[l(), s("ob"), nr(-1)], &mut r, &echo, false, &find);
    assert_eq!(num_of(&r), 2);
    f_match(&[l(), s("ob"), nr(3)], &mut r, &echo, false, &find);
    assert_eq!(num_of(&r), -1);
    f_matchstr(&[l(), s("co")], &mut r, &echo, false, &find);
    assert_eq!(str_of(&r), "cob");
}
