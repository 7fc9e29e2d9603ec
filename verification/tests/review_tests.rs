use vimlrs::typval_defs::{typval_T, typval_vval_union, blob_T, VarType, VarLockStatus};
use vimlrs::funcs_basic::{f_type, f_char2nr, f_nr2char};
use vimlrs::textbuf::TextBuf;
use vimlrs::wordcount::f_wordcount;

fn tv(t: VarType, v: typval_vval_union) -> typval_T {
    typval_T { v_type: t, v_lock: VarLockStatus::VAR_UNLOCKED, vval: v }
}
fn nr(n: i64) -> typval_T {
    tv(VarType::VAR_NUMBER, typval_vval_union::v_number(n))
}
fn s(x: &str) -> typval_T {
    tv(VarType::VAR_STRING, typval_vval_union::v_string(x.as_bytes().to_vec()))
}
fn num_of(t: &typval_T) -> i64 {
    match t.vval { typval_vval_union::v_number(n) => n, _ => panic!("not a Number") }
}

#[test]
fn type_of_blob_is_ten() {
    let b = tv(VarType::VAR_BLOB, typval_vval_union::v_blob(Some(blob_T { bv_ga: vec![1, 2], bv_lock: VarLockStatus::VAR_UNLOCKED, bv_refcount: 0 })));
    let mut r = nr(0);
    f_type(&[b], &mut r);
    assert_eq!(num_of(&r), 10);
    f_type(&[s("x")], &mut r);
    assert_eq!(num_of(&r), 1);
}

#[test]
fn char2nr_of_nr2char_round_trip() {
    for c in [1i64, 65, 127, 128, 233, 0x7ff, 0x800, 0x20ac, 0xffff, 0x10000, 0x1f600, 0x10ffff] {
        let mut t = nr(0);
        f_nr2char(&[nr(c)], &mut t, &mut Vec::new());
        let mut back = nr(0);
        f_char2nr(&[t], &mut back);
        assert_eq!(num_of(&back), c);
    }
}

#[test]
fn wordcount_counts_and_cursor() {
    let b = TextBuf { lines: vec![b"one two".to_vec(), "é three".as_bytes().to_vec()], cur_lnum: 2, cur_col: 4, curswant: 4, marks: Vec::new() };
    let mut r = nr(0);
    f_wordcount(&b, &[], &mut r);
    let d = match &r.vval { typval_vval_union::v_dict(Some(d)) => d, _ => panic!("not a Dict") };
    let get = |k: &str| num_of(&d.dv_hashtab.iter().find(|i| i.di_key == k.as_bytes()).unwrap().di_tv);
    assert_eq!(get("bytes"), 8 + 9);
    assert_eq!(get("chars"), 8 + 8);
    assert_eq!(get("words"), 4);
    assert_eq!(get("cursor_bytes"), 8 + 3);
    assert_eq!(get("cursor_chars"), 8 + 2);
    assert_eq!(get("cursor_words"), 3);
}

#[test]
fn indent_and_soundfold() {
    let b = TextBuf { lines: vec![b"  \tx".to_vec(), b"y".to_vec()], cur_lnum: 1, cur_col: 1, curswant: 1, marks: Vec::new() };
    let mut r = nr(0);
    vimlrs::wordcount::f_indent(&b, &[nr(1)], &mut r, 8);
    assert_eq!(num_of(&r), 8);
    vimlrs::wordcount::f_indent(&b, &[nr(1)], &mut r, 4);
    assert_eq!(num_of(&r), 4);
    vimlrs::wordcount::f_indent(&b, &[nr(2)], &mut r, 8);
    assert_eq!(num_of(&r), 0);
    vimlrs::wordcount::f_indent(&b, &[nr(9)], &mut r, 8);
    assert_eq!(num_of(&r), -1);
    let mut t = nr(0);
    vimlrs::funcs_text::f_soundfold(&[s("word")], &mut t);
    assert!(matches!(&t.vval, typval_vval_union::v_string(v) if v == b"word"));
}
