use vimlrs::typval_defs::{
    typval_T, typval_vval_union, list_T, blob_T, VarType, VarLockStatus, BoolVarValue, SpecialVarValue,
};
use vimlrs::typval_list::{tv_list_alloc, tv_list_append_number, tv_list_append_string};
use vimlrs::typval_dict::{tv_dict_alloc, tv_dict_add_nr};
use vimlrs::msgpack::{
    f_msgpackdump, f_msgpackparse, msgpackparse_unpack_blob, msgpackparse_unpack_list, emsg_mpack_error,
};

fn tv(t: VarType, v: typval_vval_union) -> typval_T {
    typval_T { v_type: t, v_lock: VarLockStatus::VAR_UNLOCKED, vval: v }
}

fn nr(n: i64) -> typval_T {
    tv(VarType::VAR_NUMBER, typval_vval_union::v_number(n))
}

fn s(x: &str) -> typval_T {
    tv(VarType::VAR_STRING, typval_vval_union::v_string(x.as_bytes().to_vec()))
}

fn list_of(items: Vec<typval_T>) -> typval_T {
    tv(VarType::VAR_LIST, typval_vval_union::v_list(Some(list_T { lv_items: items, lv_lock: VarLockStatus::VAR_UNLOCKED, lv_refcount: 0 })))
}

fn blob_of(bytes: Vec<u8>) -> typval_T {
    tv(VarType::VAR_BLOB, typval_vval_union::v_blob(Some(blob_T { bv_ga: bytes, bv_lock: VarLockStatus::VAR_UNLOCKED, bv_refcount: 0 })))
}

fn unknown() -> typval_T {
    tv(VarType::VAR_UNKNOWN, typval_vval_union::v_number(0))
}

fn dump_blob(items: Vec<typval_T>) -> Vec<u8> {
    let args = vec![list_of(items), s("B")];
    let mut rettv = unknown();
    f_msgpackdump(&args, &mut rettv);
    match rettv.vval {
        typval_vval_union::v_blob(Some(b)) => b.bv_ga,
        _ => panic!("msgpackdump() did not return a Blob"),
    }
}

fn parse(arg: typval_T) -> Vec<typval_T> {
    let args = vec![arg];
    let mut rettv = unknown();
    f_msgpackparse(&args, &mut rettv);
    match rettv.vval {
        typval_vval_union::v_list(Some(l)) => l.lv_items,
        _ => panic!("msgpackparse() did not return a List"),
    }
}

#[test]
fn msgpackparse_blob_roundtrip_fixint() {
    let blob = blob_T { bv_ga: vec![0x01, 0x02], bv_lock: VarLockStatus::VAR_UNLOCKED, bv_refcount: 0 };
    let mut out = tv_list_alloc(0);
    msgpackparse_unpack_blob(&blob, &mut out);
    assert_eq!(out.lv_items.len(), 2);
    assert!(matches!(out.lv_items[0].vval, typval_vval_union::v_number(1)));
    assert!(matches!(out.lv_items[1].vval, typval_vval_union::v_number(2)));
}

#[test]
fn msgpackdump_integer_widths() {
    assert_eq!(dump_blob(vec![nr(5)]), vec![0x05]);
    assert_eq!(dump_blob(vec![nr(200)]), vec![0xcc, 200]);
    assert_eq!(dump_blob(vec![nr(300)]), vec![0xcd, 0x01, 0x2c]);
    assert_eq!(dump_blob(vec![nr(70000)]), vec![0xce, 0x00, 0x01, 0x11, 0x70]);
    assert_eq!(dump_blob(vec![nr(1 << 40)]), vec![0xcf, 0, 0, 1, 0, 0, 0, 0, 0]);
    assert_eq!(dump_blob(vec![nr(-1)]), vec![0xff]);
    assert_eq!(dump_blob(vec![nr(-32)]), vec![0xe0]);
    assert_eq!(dump_blob(vec![nr(-33)]), vec![0xd0, 0xdf]);
    assert_eq!(dump_blob(vec![nr(-200)]), vec![0xd1, 0xff, 0x38]);
    assert_eq!(dump_blob(vec![nr(-40000)]), vec![0xd2, 0xff, 0xff, 0x63, 0xc0]);
    assert_eq!(dump_blob(vec![nr(i64::MIN)]), vec![0xd3, 0x80, 0, 0, 0, 0, 0, 0, 0]);
}

#[test]
fn msgpackdump_strings_specials_and_containers() {
    let t = tv(VarType::VAR_BOOL, typval_vval_union::v_bool(BoolVarValue::kBoolVarTrue));
    let f = tv(VarType::VAR_BOOL, typval_vval_union::v_bool(BoolVarValue::kBoolVarFalse));
    let null = tv(VarType::VAR_SPECIAL, typval_vval_union::v_special(SpecialVarValue::kSpecialVarNull));
    assert_eq!(dump_blob(vec![t, f, null]), vec![0xc3, 0xc2, 0xc0]);
    assert_eq!(dump_blob(vec![s("ab")]), vec![0xc4, 2, b'a', b'b']);
    assert_eq!(dump_blob(vec![blob_of(vec![7])]), vec![0xc4, 1, 7]);
    assert_eq!(dump_blob(vec![list_of(vec![nr(1), nr(2)])]), vec![0x92, 1, 2]);
    let mut d = tv_dict_alloc();
    tv_dict_add_nr(&mut d, b"k", 1);
    let dtv = tv(VarType::VAR_DICT, typval_vval_union::v_dict(Some(d)));
    assert_eq!(dump_blob(vec![dtv]), vec![0x81, 0xa1, b'k', 1]);
    let flt = tv(VarType::VAR_FLOAT, typval_vval_union::v_float(1.5f64.to_bits()));
    assert_eq!(dump_blob(vec![flt]), vec![0xcb, 0x3f, 0xf8, 0, 0, 0, 0, 0, 0]);
}

#[test]
fn msgpackdump_refuses_funcref_and_non_list() {
    let fr = tv(VarType::VAR_FUNC, typval_vval_union::v_string(b"tr".to_vec()));
    let args = vec![list_of(vec![nr(1), fr]), s("B")];
    let mut rettv = unknown();
    f_msgpackdump(&args, &mut rettv);
    assert_eq!(rettv.v_type, VarType::VAR_LIST);
    assert!(matches!(&rettv.vval, typval_vval_union::v_list(Some(l)) if l.lv_items.is_empty()));
    let args = vec![nr(3)];
    let mut rettv = unknown();
    f_msgpackdump(&args, &mut rettv);
    assert!(matches!(&rettv.vval, typval_vval_union::v_list(Some(l)) if l.lv_items.is_empty()));
}

#[test]
fn msgpackdump_list_form_splits_lines() {
    // 10 encodes as the single byte 0x0a, a newline: two empty lines.
    let args = vec![list_of(vec![nr(10)])];
    let mut rettv = unknown();
    f_msgpackdump(&args, &mut rettv);
    let lines = match rettv.vval {
        typval_vval_union::v_list(Some(l)) => l.lv_items,
        _ => panic!("no List"),
    };
    assert_eq!(lines.len(), 2);
    assert!(lines.iter().all(|t| matches!(&t.vval, typval_vval_union::v_string(x) if x.is_empty())));
    // [1, 10, 2]: the lines "\x01" and "\x02".
    let args = vec![list_of(vec![nr(1), nr(10), nr(2)])];
    let mut rettv = unknown();
    f_msgpackdump(&args, &mut rettv);
    let lines = match rettv.vval {
        typval_vval_union::v_list(Some(l)) => l.lv_items,
        _ => panic!("no List"),
    };
    assert_eq!(lines.len(), 2);
    assert!(matches!(&lines[0].vval, typval_vval_union::v_string(x) if x == &vec![1u8]));
    assert!(matches!(&lines[1].vval, typval_vval_union::v_string(x) if x == &vec![2u8]));
    // Nothing to dump: no lines.
    let args = vec![list_of(vec![])];
    let mut rettv = unknown();
    f_msgpackdump(&args, &mut rettv);
    assert!(matches!(&rettv.vval, typval_vval_union::v_list(Some(l)) if l.lv_items.is_empty()));
}

#[test]
fn msgpack_dump_then_parse_gives_values_back() {
    let mut d = tv_dict_alloc();
    tv_dict_add_nr(&mut d, b"n", -7);
    let values = vec![
        nr(-5), nr(1 << 33), s("text"), list_of(vec![nr(1), list_of(vec![nr(2)])]),
        tv(VarType::VAR_DICT, typval_vval_union::v_dict(Some(d))),
    ];
    let bytes = dump_blob(values);
    let back = parse(blob_of(bytes.clone()));
    assert_eq!(back.len(), 5);
    assert!(matches!(back[0].vval, typval_vval_union::v_number(-5)));
    assert!(matches!(back[1].vval, typval_vval_union::v_number(n) if n == 1 << 33));
    // A String reads back as a Blob.
    assert_eq!(back[2].v_type, VarType::VAR_BLOB);
    assert!(matches!(&back[2].vval, typval_vval_union::v_blob(Some(b)) if b.bv_ga == b"text".to_vec()));
    match &back[3].vval {
        typval_vval_union::v_list(Some(l)) => {
            assert_eq!(l.lv_items.len(), 2);
            assert!(matches!(&l.lv_items[1].vval, typval_vval_union::v_list(Some(inner)) if inner.lv_items.len() == 1));
        },
        _ => panic!("no List"),
    }
    match &back[4].vval {
        typval_vval_union::v_dict(Some(d)) => {
            assert_eq!(d.dv_hashtab.len(), 1);
            assert_eq!(d.dv_hashtab[0].di_key, b"n".to_vec());
            assert!(matches!(d.dv_hashtab[0].di_tv.vval, typval_vval_union::v_number(-7)));
        },
        _ => panic!("no Dict"),
    }
    // The List form reads back the same way.
    let args = vec![list_of(vec![nr(-5), nr(1 << 33)])];
    let mut rettv = unknown();
    f_msgpackdump(&args, &mut rettv);
    let back = parse(rettv);
    assert_eq!(back.len(), 2);
    assert!(matches!(back[1].vval, typval_vval_union::v_number(n) if n == 1 << 33));
}

#[test]
fn msgpackparse_floats_and_failures() {
    // float32 1.0 widens to the double 1.0.
    let back = parse(blob_of(vec![0xca, 0x3f, 0x80, 0, 0]));
    assert!(matches!(back[0].vval, typval_vval_union::v_float(b) if b == 1.0f64.to_bits()));
    // A float32 subnormal keeps its value.
    let tiny = f32::from_bits(1);
    let back = parse(blob_of(vec![0xca, 0, 0, 0, 1]));
    assert!(matches!(back[0].vval, typval_vval_union::v_float(b) if b == (tiny as f64).to_bits()));
    // A uint above the largest Number stops the reading; what came before stays.
    let back = parse(blob_of(vec![0x07, 0xcf, 0xff, 0xff, 0xff, 0xff, 0xff, 0xff, 0xff, 0xff]));
    assert_eq!(back.len(), 1);
    // A cut-off value.
    let back = parse(blob_of(vec![0x92, 0x01]));
    assert!(back.is_empty());
    // A map with a key twice does not parse.
    let back = parse(blob_of(vec![0x82, 0xa1, b'a', 1, 0xa1, b'a', 2]));
    assert!(back.is_empty());
    // Neither a Blob nor a List.
    let back = parse(nr(1));
    assert!(back.is_empty());
}

#[test]
fn msgpackparse_unpack_list_lines() {
    let mut lines = tv_list_alloc(0);
    tv_list_append_string(&mut lines, &[0x01]);
    tv_list_append_string(&mut lines, &[0x02]);
    let mut out = tv_list_alloc(0);
    msgpackparse_unpack_list(&lines, &mut out);
    // "\x01" NL "\x02": the values 1, 10 and 2.
    assert_eq!(out.lv_items.len(), 3);
    assert!(matches!(out.lv_items[1].vval, typval_vval_union::v_number(10)));
    // A newline inside a line stands for a NUL byte: the value 0.
    let mut lines = tv_list_alloc(0);
    tv_list_append_string(&mut lines, &[0x0a]);
    let mut out = tv_list_alloc(0);
    msgpackparse_unpack_list(&lines, &mut out);
    assert_eq!(out.lv_items.len(), 1);
    assert!(matches!(out.lv_items[0].vval, typval_vval_union::v_number(0)));
    // An item that is not a String: nothing is added.
    let mut lines = tv_list_alloc(0);
    tv_list_append_string(&mut lines, &[0x01]);
    tv_list_append_number(&mut lines, 3);
    let mut out = tv_list_alloc(0);
    msgpackparse_unpack_list(&lines, &mut out);
    assert!(out.lv_items.is_empty());
}

#[test]
fn mpack_error_message() {
    assert!(emsg_mpack_error(0).is_none());
    assert_eq!(emsg_mpack_error(-1).unwrap(), b"E5004: Error while dumping or parsing msgpack".to_vec());
}
