use vimlrs::typval_defs::{typval_T, typval_vval_union, VarType, VarLockStatus};
use vimlrs::highlight::{
    hl_registry_new, hl_define_from_args, hl_id, hl_exists, hl_names, hl_resolved, split_words,
    f_synIDattr, f_hlexists, f_hlID, f_highlight_exists, HlRegistry,
};

fn tv(t: VarType, v: typval_vval_union) -> typval_T {
    typval_T { v_type: t, v_lock: VarLockStatus::VAR_UNLOCKED, vval: v }
}

fn nr(n: i64) -> typval_T {
    tv(VarType::VAR_NUMBER, typval_vval_union::v_number(n))
}

fn s(x: &str) -> typval_T {
    tv(VarType::VAR_STRING, typval_vval_union::v_string(x.as_bytes().to_vec()))
}

fn num_of(t: &typval_T) -> i64 {
    match t.vval {
        typval_vval_union::v_number(n) => n,
        _ => panic!("not a Number"),
    }
}

fn str_of(t: &typval_T) -> String {
    match &t.vval {
        typval_vval_union::v_string(v) => String::from_utf8(v.clone()).unwrap(),
        _ => panic!("not a String"),
    }
}

fn def(reg: &mut HlRegistry, args: &str) -> Option<String> {
    hl_define_from_args(reg, args.as_bytes()).map(|v| String::from_utf8(v).unwrap())
}

fn attr(reg: &HlRegistry, id: i64, what: &str, mode: Option<&str>) -> String {
    let mut r = nr(0);
    let mut args = vec![nr(id), s(what)];
    if let Some(m) = mode {
        args.push(s(m));
    }
    f_synIDattr(reg, &args, &mut r);
    str_of(&r)
}

fn b(x: &str) -> Vec<u8> {
    x.as_bytes().to_vec()
}

#[test]
fn words_split_at_white_space() {
    let w = split_words("  hi\tNormal\u{3000}guifg=red  ".as_bytes());
    assert_eq!(w, vec![b("hi"), b("Normal"), b("guifg=red")]);
    assert!(split_words(b"   ").is_empty());
}

#[test]
fn define_group_then_read_it() {
    let mut reg = hl_registry_new();
    assert_eq!(def(&mut reg, "Normal guifg=#ffffff ctermfg=7 gui=bold,Italic,NONE"), Some("Normal".to_string()));
    assert_eq!(hl_id(&reg, b"normal"), 1);
    assert_eq!(hl_id(&reg, b"NORMAL"), 1);
    assert!(hl_exists(&reg, b"Normal"));
    assert_eq!(hl_id(&reg, b"Missing"), 0);
    assert!(!hl_exists(&reg, b"Missing"));
    let r = hl_resolved(&reg, b"Normal").unwrap();
    assert_eq!(r.guifg, Some(b("#ffffff")));
    assert_eq!(r.ctermfg, Some(b("7")));
    assert_eq!(r.guibg, None);
    assert_eq!(r.attrs, vec![b("bold"), b("italic")]);
    assert!(!r.cleared);
    assert!(hl_resolved(&reg, b"Missing").is_none());
}

#[test]
fn attribute_keys_ignore_case_and_later_values_win() {
    let mut reg = hl_registry_new();
    def(&mut reg, "Foo GUIFG=red guifg=blue noequals");
    assert_eq!(hl_resolved(&reg, b"foo").unwrap().guifg, Some(b("blue")));
    def(&mut reg, "default Foo guibg=NONE");
    let r = hl_resolved(&reg, b"Foo").unwrap();
    assert_eq!(r.guibg, None);
    assert_eq!(r.guifg, Some(b("blue")));
}

#[test]
fn link_reads_through_to_the_target() {
    let mut reg = hl_registry_new();
    def(&mut reg, "Normal guifg=#123456");
    assert_eq!(def(&mut reg, "link Comment Normal"), Some("Comment".to_string()));
    assert_eq!(hl_id(&reg, b"Comment"), 2);
    assert_eq!(hl_resolved(&reg, b"Comment").unwrap().guifg, Some(b("#123456")));
    assert_eq!(def(&mut reg, "link OnlyOne"), None);
    assert_eq!(hl_names(&reg), vec![b("normal"), b("comment")]);
}

#[test]
fn clear_keeps_ids_but_drops_groups() {
    let mut reg = hl_registry_new();
    def(&mut reg, "A guifg=red");
    def(&mut reg, "B guifg=blue");
    assert_eq!(def(&mut reg, "clear A"), Some("A".to_string()));
    assert!(!hl_exists(&reg, b"a"));
    assert_eq!(hl_id(&reg, b"a"), 1);
    let r = hl_resolved(&reg, b"A").unwrap();
    assert!(r.cleared);
    assert_eq!(r.guifg, None);
    assert!(hl_exists(&reg, b"B"));
    assert_eq!(def(&mut reg, "clear"), None);
    assert!(!hl_exists(&reg, b"B"));
    assert_eq!(hl_id(&reg, b"B"), 2);
    assert_eq!(def(&mut reg, ""), None);
    assert_eq!(def(&mut reg, "default"), None);
}

#[test]
fn synidattr_reads_names_colours_and_flags() {
    let mut reg = hl_registry_new();
    def(&mut reg, "Title guifg=#ff0000 ctermfg=1 gui=bold,reverse cterm=underline font=Mono");
    assert_eq!(attr(&reg, 1, "name", None), "title");
    assert_eq!(attr(&reg, 1, "fg", None), "#ff0000");
    assert_eq!(attr(&reg, 1, "fg#", Some("gui")), "#ff0000");
    assert_eq!(attr(&reg, 1, "fg", Some("cterm")), "1");
    assert_eq!(attr(&reg, 1, "bg", None), "");
    assert_eq!(attr(&reg, 1, "bold", None), "1");
    assert_eq!(attr(&reg, 1, "inverse", None), "1");
    assert_eq!(attr(&reg, 1, "italic", None), "");
    assert_eq!(attr(&reg, 1, "underline", Some("cterm")), "1");
    assert_eq!(attr(&reg, 1, "font", None), "Mono");
    assert_eq!(attr(&reg, 1, "other", None), "");
    assert_eq!(attr(&reg, 0, "name", None), "");
    assert_eq!(attr(&reg, 2, "name", None), "");
}

#[test]
fn builtins_report_groups() {
    let mut reg = hl_registry_new();
    def(&mut reg, "Error ctermfg=1");
    let mut r = nr(0);
    f_hlexists(&reg, &[s("error")], &mut r);
    assert_eq!(num_of(&r), 1);
    f_hlexists(&reg, &[s("Nope")], &mut r);
    assert_eq!(num_of(&r), 0);
    f_hlID(&reg, &[s("Error")], &mut r);
    assert_eq!(num_of(&r), 1);
    f_highlight_exists(&reg, &[s("Error")], &mut r);
    assert_eq!(num_of(&r), 1);
}
