use vimlrs::typval_defs::{typval_T, typval_vval_union, VarType, VarLockStatus};
use vimlrs::asserts::{f_assert_equal, f_assert_notequal, f_assert_true, f_assert_false, f_assert_report, f_assert_exception, f_assert_match, f_assert_notmatch};

fn tv(t: VarType, v: typval_vval_union) -> typval_T {
    typval_T { v_type: t, v_lock: VarLockStatus::VAR_UNLOCKED, vval: v }
}
fn nr(n: i64) -> typval_T {
    tv(VarType::VAR_NUMBER, typval_vval_union::v_number(n))
}
fn s(x: &str) -> typval_T {
    tv(VarType::VAR_STRING, typval_vval_union::v_string(x.as_bytes().to_vec()))
}
fn num_of(t: &typval_T) -> i64 {
    match t.vval { typval_vval_union::v_number(n) => n, _ => panic!("not a Number") }
}
fn text_of(t: &typval_T) -> Vec<u8> {
    match &t.vval {
        typval_vval_union::v_string(v) => { let mut o = vec![b'\'']; o.extend_from_slice(v); o.push(b'\''); o }
        typval_vval_union::v_number(n) => n.to_string().into_bytes(),
        _ => b"?".to_vec(),
    }
}
fn echo_of(t: &typval_T) -> Vec<u8> {
    match &t.vval {
        typval_vval_union::v_string(v) => v.clone(),
        typval_vval_union::v_number(n) => n.to_string().into_bytes(),
        _ => b"?".to_vec(),
    }
}
fn texts(a: &[typval_T]) -> (Vec<Vec<u8>>, Vec<Vec<u8>>) {
    (a.iter().map(text_of).collect(), a.iter().map(echo_of).collect())
}
fn msgs(e: &[Vec<u8>]) -> Vec<String> {
    e.iter().map(|m| String::from_utf8(m.clone()).unwrap()).collect()
}

#[test]
fn assert_equal_and_notequal() {
    let mut errors: Vec<Vec<u8>> = Vec::new();
    let mut r = nr(9);
    let a = [nr(1), nr(1)];
    let (t, e) = texts(&a);
    f_assert_equal(&a, &mut r, &mut errors, &t, &e);
    assert_eq!(num_of(&r), 0);
    assert!(errors.is_empty());
    let a = [s("x"), s("y"), s("ctx")];
    let (t, e) = texts(&a);
    f_assert_equal(&a, &mut r, &mut errors, &t, &e);
    assert_eq!(num_of(&r), 1);
    assert_eq!(msgs(&errors), vec!["ctx: Expected 'x' but got 'y'"]);
    let a = [nr(2), nr(2)];
    let (t, e) = texts(&a);
    f_assert_notequal(&a, &mut r, &mut errors, &t, &e);
    assert_eq!(msgs(&errors)[1], "Expected not equal to 2");
}

#[test]
fn assert_true_false_report() {
    let mut errors: Vec<Vec<u8>> = Vec::new();
    let mut r = nr(0);
    let a = [nr(3)];
    let (t, e) = texts(&a);
    f_assert_true(&a, &mut r, &mut errors, &t, &e);
    assert_eq!(num_of(&r), 0);
    f_assert_false(&a, &mut r, &mut errors, &t, &e);
    assert_eq!(num_of(&r), 1);
    assert_eq!(msgs(&errors), vec!["Expected False but got 3"]);
    let a = [s("1")];
    let (t, e) = texts(&a);
    f_assert_true(&a, &mut r, &mut errors, &t, &e);
    assert_eq!(msgs(&errors)[1], "Expected True but got '1'");
    f_assert_report(&[s("boom")], &mut r, &mut errors);
    assert_eq!(num_of(&r), 1);
    assert_eq!(msgs(&errors)[2], "boom");
}

#[test]
fn assert_exception_cases() {
    let mut errors: Vec<Vec<u8>> = Vec::new();
    let mut r = nr(0);
    let a = [s("E42")];
    let (t, e) = texts(&a);
    f_assert_exception(&a, &mut r, &mut errors, &t, &e, b"");
    assert_eq!(msgs(&errors), vec!["v:exception is not set"]);
    f_assert_exception(&a, &mut r, &mut errors, &t, &e, b"Vim:E42: oops");
    assert_eq!(num_of(&r), 0);
    f_assert_exception(&a, &mut r, &mut errors, &t, &e, b"it's E1");
    assert_eq!(num_of(&r), 1);
    assert_eq!(msgs(&errors)[1], "Expected 'E42' but got 'it''s E1'");
}

#[test]
fn assert_match_with_matcher() {
    let m = |p: &[u8], t: &[u8]| t.windows(p.len().max(1)).any(|w| w == p) || p.is_empty();
    let mut errors: Vec<Vec<u8>> = Vec::new();
    let mut r = nr(0);
    let a = [s("b"), s("abc")];
    let (t, e) = texts(&a);
    f_assert_match(&a, &mut r, &mut errors, &t, &e, &m);
    assert_eq!(num_of(&r), 0);
    f_assert_notmatch(&a, &mut r, &mut errors, &t, &e, &m);
    assert_eq!(num_of(&r), 1);
    assert_eq!(msgs(&errors), vec!["Pattern 'b' does match 'abc'"]);
}
