use vimlrs::typval_defs::{typval_T, typval_vval_union, VarType, VarLockStatus};
use vimlrs::printf::{f_printf, FloatText};

fn tv(t: VarType, v: typval_vval_union) -> typval_T {
    typval_T { v_type: t, v_lock: VarLockStatus::VAR_UNLOCKED, vval: v }
}
fn nr(n: i64) -> typval_T {
    tv(VarType::VAR_NUMBER, typval_vval_union::v_number(n))
}
fn s(x: &str) -> typval_T {
    tv(VarType::VAR_STRING, typval_vval_union::v_string(x.as_bytes().to_vec()))
}
fn fl(x: f64) -> typval_T {
    tv(VarType::VAR_FLOAT, typval_vval_union::v_float(x.to_bits()))
}
fn echo_of(t: &typval_T) -> Vec<u8> {
    match &t.vval {
        typval_vval_union::v_string(v) => v.clone(),
        typval_vval_union::v_number(n) => n.to_string().into_bytes(),
        typval_vval_union::v_float(b) => f64::from_bits(*b).to_string().into_bytes(),
        _ => b"?".to_vec(),
    }
}
fn float_fmt(c: u8, p: Option<u64>, a: Option<&typval_T>) -> FloatText {
    let v = match a {
        Some(t) => match t.vval {
            typval_vval_union::v_float(b) => f64::from_bits(b),
            typval_vval_union::v_number(n) => n as f64,
            _ => 0.0,
        },
        None => 0.0,
    };
    let text = if c == b'f' || c == b'F' { format!("{:.*}", p.unwrap_or(6) as usize, v) } else { format!("{}", v) };
    FloatText { text: text.into_bytes(), nonfinite: !v.is_finite(), nan: v.is_nan() }
}
fn printf(args: &[typval_T]) -> String {
    let echo: Vec<Vec<u8>> = args.iter().map(echo_of).collect();
    let mut r = nr(0);
    f_printf(args, &mut r, true, &echo, &float_fmt);
    match &r.vval {
        typval_vval_union::v_string(v) => String::from_utf8(v.clone()).unwrap(),
        _ => panic!("not a String"),
    }
}

#[test]
fn printf_integers() {
    assert_eq!(printf(&[s("%d|%5d|%-5d|%05d"), nr(7), nr(-42), nr(3), nr(-9)]), "7|  -42|3    |-0009");
    assert_eq!(printf(&[s("%+d % d %.3d %.0d"), nr(5), nr(5), nr(7), nr(0)]), "+5  5 007 ");
    assert_eq!(printf(&[s("%x %X %o %b %#x %#o %#b"), nr(255), nr(255), nr(8), nr(5), nr(255), nr(8), nr(5)]), "ff FF 10 101 0xff 010 0b101");
    assert_eq!(printf(&[s("%x %u"), nr(-1), nr(-1)]), "ffffffffffffffff 18446744073709551615");
    assert_eq!(printf(&[s("%d"), nr(i64::MIN)]), "-9223372036854775808");
}

#[test]
fn printf_strings_and_chars() {
    assert_eq!(printf(&[s("[%s|%5s|%-5s|%.2s]"), s("abc"), s("ab"), s("ab"), s("xyz")]), "[abc|   ab|ab   |xy]");
    assert_eq!(printf(&[s("%.1s"), s("éa")]), "");
    assert_eq!(printf(&[s("%c%c"), nr(65), nr(233)]), "Aé");
    assert_eq!(printf(&[s("100%% %q")]), "");
    assert_eq!(printf(&[s("100%% %q"), nr(1)]), "100% %q");
    assert_eq!(printf(&[s("%*d|%-*d|%.*s"), nr(4), nr(1), nr(3), nr(2), nr(2), s("abcd")]), "   1|2  |ab");
}

#[test]
fn printf_positional_and_errors() {
    assert_eq!(printf(&[s("%2$s %1$s"), s("a"), s("b")]), "b a");
    assert_eq!(printf(&[s("%d %d"), nr(1)]), "");
    assert_eq!(printf(&[s("%d"), nr(1), nr(2)]), "");
    assert_eq!(printf(&[s("%2000000d"), nr(1)]), "");
    assert_eq!(printf(&[s("%f"), s("x")]), "");
    assert_eq!(printf(&[s("abc%")]), "abc%");
    assert_eq!(printf(&[s("%.2f"), fl(1.5)]), "1.50");
    let mut r = nr(0);
    f_printf(&[s("%d"), nr(1)], &mut r, false, &vec![Vec::new(), Vec::new()], &float_fmt);
    assert!(matches!(&r.vval, typval_vval_union::v_string(v) if v.is_empty()));
}
