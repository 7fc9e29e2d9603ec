use vimlrs::typval_defs::{typval_T, typval_vval_union, dict_T, dictitem_T, VarType, VarLockStatus};
use vimlrs::mapping::{
    map_table_new, mode_str2flags, get_map_mode, do_map, f_maparg, f_mapcheck, f_hasmapto, f_maplist, f_mapset,
    MapTable, MAP_DEFAULT, MAP_NORMAL, MAP_INSERT, MAP_CMDLINE, MAP_VISUAL, MAP_SELECT,
};

fn tv(t: VarType, v: typval_vval_union) -> typval_T {
    typval_T { v_type: t, v_lock: VarLockStatus::VAR_UNLOCKED, vval: v }
}

fn nr(n: i64) -> typval_T {
    tv(VarType::VAR_NUMBER, typval_vval_union::v_number(n))
}

fn s(x: &str) -> typval_T {
    tv(VarType::VAR_STRING, typval_vval_union::v_string(x.as_bytes().to_vec()))
}

fn dict_of(entries: Vec<(&str, typval_T)>) -> typval_T {
    let items = entries.into_iter().map(|(k, v)| dictitem_T { di_key: k.as_bytes().to_vec(), di_tv: v }).collect();
    tv(VarType::VAR_DICT, typval_vval_union::v_dict(Some(dict_T { dv_hashtab: items, dv_lock: VarLockStatus::VAR_UNLOCKED, dv_refcount: 0, dv_watchers: Vec::new() })))
}

fn num_of(t: &typval_T) -> i64 {
    match t.vval {
        typval_vval_union::v_number(n) => n,
        _ => panic!("not a Number"),
    }
}

fn str_of(t: &typval_T) -> String {
    match &t.vval {
        typval_vval_union::v_string(v) => String::from_utf8(v.clone()).unwrap(),
        _ => panic!("not a String"),
    }
}

fn entry<'a>(d: &'a typval_T, key: &str) -> &'a typval_T {
    match &d.vval {
        typval_vval_union::v_dict(Some(dd)) => &dd.dv_hashtab.iter().find(|i| i.di_key == key.as_bytes()).unwrap().di_tv,
        _ => panic!("not a Dict"),
    }
}

fn maparg(t: &MapTable, name: &str, mode: &str) -> String {
    let mut r = nr(0);
    f_maparg(t, &[s(name), s(mode)], &mut r);
    str_of(&r)
}

fn run(t: &mut MapTable, cmd: &str, arg: &str) {
    let (mode, unmap, clear, noremap) = get_map_mode(cmd.as_bytes()).unwrap();
    do_map(t, arg.as_bytes(), mode, unmap, clear, noremap);
}

#[test]
fn mode_strings() {
    assert_eq!(mode_str2flags(b""), MAP_DEFAULT);
    assert_eq!(mode_str2flags(b" "), MAP_DEFAULT);
    assert_eq!(mode_str2flags(b"n"), MAP_NORMAL);
    assert_eq!(mode_str2flags(b"v"), MAP_VISUAL | MAP_SELECT);
    assert_eq!(mode_str2flags(b"!"), MAP_INSERT | MAP_CMDLINE);
    assert_eq!(mode_str2flags(b"ni"), MAP_NORMAL | MAP_INSERT);
}

#[test]
fn command_words() {
    assert_eq!(get_map_mode(b"nnoremap"), Some((MAP_NORMAL, false, false, true)));
    assert_eq!(get_map_mode(b"iunmap"), Some((MAP_INSERT, true, false, false)));
    assert_eq!(get_map_mode(b"map!"), Some((MAP_INSERT | MAP_CMDLINE, false, false, false)));
    assert_eq!(get_map_mode(b"map"), Some((MAP_DEFAULT, false, false, false)));
    assert_eq!(get_map_mode(b"cmapclear"), Some((MAP_CMDLINE, false, true, false)));
    assert_eq!(get_map_mode(b"qmap"), None);
    assert_eq!(get_map_mode(b"echo"), None);
}

#[test]
fn map_then_maparg() {
    let mut t = map_table_new();
    run(&mut t, "nnoremap", "  <silent> <Leader>x   :echo 1  ");
    assert_eq!(maparg(&t, "<Leader>x", "n"), ":echo 1");
    assert_eq!(maparg(&t, "<Leader>x", "i"), "");
    let mut r = nr(0);
    f_maparg(&t, &[s("<Leader>x"), s("n"), nr(0), nr(1)], &mut r);
    assert_eq!(num_of(entry(&r, "silent")), 1);
    assert_eq!(num_of(entry(&r, "noremap")), 1);
    assert_eq!(str_of(entry(&r, "mode")), "n");
    assert_eq!(str_of(entry(&r, "rhs")), ":echo 1");
    run(&mut t, "nmap", "<Leader>x :echo 2");
    assert_eq!(maparg(&t, "<Leader>x", "n"), ":echo 2");
    run(&mut t, "nunmap", "<Leader>x");
    assert_eq!(maparg(&t, "<Leader>x", "n"), "");
}

#[test]
fn mapcheck_and_hasmapto() {
    let mut t = map_table_new();
    run(&mut t, "imap", "jk <Esc>");
    let mut r = nr(0);
    f_mapcheck(&t, &[s("j"), s("i")], &mut r);
    assert_eq!(str_of(&r), "<Esc>");
    f_mapcheck(&t, &[s("jkl"), s("i")], &mut r);
    assert_eq!(str_of(&r), "<Esc>");
    f_mapcheck(&t, &[s("x"), s("i")], &mut r);
    assert_eq!(str_of(&r), "");
    f_hasmapto(&t, &[s("Esc"), s("i")], &mut r);
    assert_eq!(num_of(&r), 1);
    f_hasmapto(&t, &[s("Esc"), s("n")], &mut r);
    assert_eq!(num_of(&r), 0);
}

#[test]
fn mapclear_and_maplist() {
    let mut t = map_table_new();
    run(&mut t, "nmap", "a b");
    run(&mut t, "imap", "c d");
    run(&mut t, "nmap", "e");
    let mut r = nr(0);
    f_maplist(&t, &[], &mut r);
    match &r.vval {
        typval_vval_union::v_list(Some(l)) => assert_eq!(l.lv_items.len(), 2),
        _ => panic!(),
    }
    run(&mut t, "nmapclear", "");
    assert_eq!(maparg(&t, "a", "n"), "");
    assert_eq!(maparg(&t, "c", "i"), "d");
}

#[test]
fn mapset_restores_a_mapping() {
    let mut t = map_table_new();
    let mut r = nr(0);
    f_mapset(&mut t, &[dict_of(vec![("lhs", s("gx")), ("rhs", s(":open")), ("mode", s("n")), ("silent", nr(1))])], &mut r);
    assert_eq!(maparg(&t, "gx", "n"), ":open");
    f_mapset(&mut t, &[s("i"), nr(0), dict_of(vec![("lhs", s("qq")), ("rhs", s("QQ"))])], &mut r);
    assert_eq!(maparg(&t, "qq", "i"), "QQ");
    f_mapset(&mut t, &[dict_of(vec![("lhs", s("zz")), ("rhs", s("ZZ")), ("mode_bits", nr(0x10))])], &mut r);
    assert_eq!(maparg(&t, "zz", "i"), "ZZ");
    f_mapset(&mut t, &[dict_of(vec![("rhs", s("no lhs"))])], &mut r);
    let mut l = nr(0);
    f_maplist(&t, &[], &mut l);
    match &l.vval {
        typval_vval_union::v_list(Some(ll)) => assert_eq!(ll.lv_items.len(), 3),
        _ => panic!(),
    }
}
