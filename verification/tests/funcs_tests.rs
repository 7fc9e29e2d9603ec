use vimlrs::buffer::{buflist_init, buflist_new, tv_get_buf, tv_get_buf_from_arg, get_buf_arg, BLN_LISTED};
use vimlrs::typval_dict::{tv_dict_alloc, tv_dict_add_nr, tv_dict_add_list};
use vimlrs::typval_list::tv_list_append_number;
use vimlrs::typval_defs::{typval_T, typval_vval_union, list_T, VarType, VarLockStatus};
use vimlrs::typval_list::tv_list_alloc;
use vimlrs::funcs_basic::{return_register, may_add_state_char};
use vimlrs::funcs_misc::{
    f_execute, f_eval, get_search_arg, block_def2str, block_def, screenchar_adjust, ScreenGrid,
    BACKWARD, FORWARD, SP_NOMOVE, SP_START,
};
use vimlrs::funcs_table::{
    find_internal_func, check_internal_func, call_internal_method, call_internal_func, FCERR_NONE, FCERR_UNKNOWN,
    FCERR_TOOFEW, FCERR_TOOMANY,
};

fn nr(n: i64) -> typval_T {
    typval_T { v_type: VarType::VAR_NUMBER, v_lock: VarLockStatus::VAR_UNLOCKED, vval: typval_vval_union::v_number(n) }
}

fn str_tv(s: &str) -> typval_T {
    typval_T { v_type: VarType::VAR_STRING, v_lock: VarLockStatus::VAR_UNLOCKED, vval: typval_vval_union::v_string(s.as_bytes().to_vec()) }
}

fn unknown() -> typval_T {
    typval_T { v_type: VarType::VAR_UNKNOWN, v_lock: VarLockStatus::VAR_UNLOCKED, vval: typval_vval_union::v_number(0) }
}

type Runner = fn(Vec<u8>) -> Vec<u8>;

#[test]
fn execute_returns_hook_captured_text() {
    let hook = |cmd: Vec<u8>| -> Vec<u8> { let mut r = b"ran:".to_vec(); r.extend_from_slice(&cmd); r };
    let args = vec![str_tv("echo x"), unknown()];
    let mut rettv = unknown();
    f_execute(&args, &mut rettv, Some(&hook));
    match &rettv.vval {
        typval_vval_union::v_string(s) => assert_eq!(s, b"ran:echo x"),
        _ => panic!("expected VAR_STRING capture"),
    }
    assert!(matches!(rettv.v_type, VarType::VAR_STRING));
}

#[test]
fn execute_list_joins_lines() {
    let hook = |cmd: Vec<u8>| -> Vec<u8> { cmd };
    let mut list: list_T = tv_list_alloc(0);
    list.lv_items.push(str_tv("one"));
    list.lv_items.push(str_tv("two"));
    let cmds = typval_T { v_type: VarType::VAR_LIST, v_lock: VarLockStatus::VAR_UNLOCKED, vval: typval_vval_union::v_list(Some(list)) };
    let args = vec![cmds, unknown()];
    let mut rettv = unknown();
    f_execute(&args, &mut rettv, Some(&hook));
    match &rettv.vval {
        typval_vval_union::v_string(s) => assert_eq!(s, b"one\ntwo"),
        _ => panic!("expected VAR_STRING capture"),
    }
}

#[test]
fn execute_without_hook_is_empty() {
    let args = vec![str_tv("echo x"), unknown()];
    let mut rettv = unknown();
    f_execute::<Runner>(&args, &mut rettv, None);
    match &rettv.vval {
        typval_vval_union::v_string(s) => assert!(s.is_empty()),
        _ => panic!("expected VAR_STRING capture"),
    }
}

#[test]
fn screenchar_adjust_no_grid_leaves_coords() {
    let mut grid: Option<ScreenGrid> = None;
    let mut row = 5;
    let mut col = 7;
    screenchar_adjust(&mut grid, &mut row, &mut col);
    assert!(grid.is_none());
    assert_eq!((row, col), (5, 7));
}

#[test]
fn f_eval_evaluates_number() {
    let hook = |e: Vec<u8>| -> Option<typval_T> {
        std::str::from_utf8(&e).ok().and_then(|s| s.trim().parse::<i64>().ok()).map(nr)
    };
    let args = vec![str_tv("42")];
    let mut rettv = unknown();
    f_eval(&args, &mut rettv, &hook);
    assert!(matches!(rettv.vval, typval_vval_union::v_number(42)));
}

#[test]
fn get_search_arg_parses_flags() {
    let mut p_ws = true;
    let mut flags = 0;
    let varp = str_tv("bWnc");
    let dir = get_search_arg(&varp, Some(&mut flags), &mut p_ws);
    assert_eq!(dir, BACKWARD);
    assert!(!p_ws);
    assert_eq!(flags & SP_NOMOVE, SP_NOMOVE);
    assert_eq!(flags & SP_START, SP_START);
    let unk = unknown();
    let mut f2 = 0;
    assert_eq!(get_search_arg(&unk, Some(&mut f2), &mut p_ws), FORWARD);
    assert_eq!(f2, 0);
}

#[test]
fn block_def2str_pads_and_copies() {
    let bd = block_def { startspaces: 2, endspaces: 1, textlen: 3, textstart_off: 1, line: b"abcdef".to_vec(), ..Default::default() };
    assert_eq!(block_def2str(&bd), b"  bcd ".to_vec());
}

#[test]
fn return_register_char_or_empty() {
    let mut tv = nr(0);
    return_register(b'a', &mut tv);
    assert!(matches!(&tv.vval, typval_vval_union::v_string(s) if s == b"a"));
    assert_eq!(tv.v_type, VarType::VAR_STRING);
    return_register(0, &mut tv);
    assert!(matches!(&tv.vval, typval_vval_union::v_string(s) if s.is_empty()));
}

#[test]
fn may_add_state_char_filters() {
    let mut all: Vec<u8> = Vec::new();
    for c in ['m', 'o', 'x'] {
        may_add_state_char(&mut all, None, c);
    }
    assert_eq!(all, b"mox".to_vec());
    let mut some: Vec<u8> = Vec::new();
    for c in ['m', 'o', 'x'] {
        may_add_state_char(&mut some, Some(b"mx"), c);
    }
    assert_eq!(some, b"mx".to_vec());
}

#[test]
fn find_internal_func_lookup() {
    let add = find_internal_func(b"add").unwrap();
    assert_eq!((add.min_argc, add.max_argc, add.base_arg), (2, 2, 1));
    assert_eq!(find_internal_func(b"argc").unwrap().base_arg, 0);
    assert!(find_internal_func(b"not_a_builtin_xyz").is_none());
}

type Caller = fn(typval_T, Vec<typval_T>) -> Option<typval_T>;

#[test]
fn check_and_call_internal_method() {
    assert_eq!(check_internal_func(b"add", 2, &mut Vec::new()), 1);
    assert_eq!(check_internal_func(b"add", 1, &mut Vec::new()), -1);
    let hook = |_c: typval_T, args: Vec<typval_T>| -> Option<typval_T> { Some(nr(args.len() as i64)) };
    let mut rv = nr(0);
    assert_eq!(call_internal_method(b"add", &[nr(9)], &nr(1), &mut rv, Some(&hook)), FCERR_NONE);
    assert!(matches!(rv.vval, typval_vval_union::v_number(2)));
    assert_eq!(call_internal_method(b"no_such_xyz", &[], &nr(0), &mut rv, Some(&hook)), FCERR_UNKNOWN);
}

#[test]
fn call_internal_func_arity_and_dispatch() {
    let hook = |_c: typval_T, args: Vec<typval_T>| -> Option<typval_T> { Some(nr(args.len() as i64)) };
    let mut rv = nr(0);
    assert_eq!(call_internal_func::<Caller>(b"no_such_builtin_xyz", &[], &mut rv, None), FCERR_UNKNOWN);
    assert_eq!(call_internal_func::<Caller>(b"add", &[nr(1)], &mut rv, None), FCERR_TOOFEW);
    assert_eq!(call_internal_func::<Caller>(b"add", &[nr(1), nr(2), nr(3)], &mut rv, None), FCERR_TOOMANY);
    assert_eq!(call_internal_func::<Caller>(b"add", &[nr(1), nr(2)], &mut rv, None), FCERR_UNKNOWN);
    assert_eq!(call_internal_func(b"add", &[nr(1), nr(2)], &mut rv, Some(&hook)), FCERR_NONE);
}

#[test]
fn tv_get_buf_number_name_and_specials() {
    let mut list = buflist_init();
    let a = buflist_new(&mut list, b"/tmp/a", 0, BLN_LISTED).unwrap();
    let b = buflist_new(&mut list, b"/tmp/b", 0, BLN_LISTED).unwrap();
    list.curbuf = Some(0);
    assert_eq!(tv_get_buf(&list, &nr(1), false), Some(a));
    assert_eq!(tv_get_buf(&list, &str_tv(""), false), Some(a));
    assert_eq!(tv_get_buf(&list, &str_tv("$"), false), Some(b));
    assert!(tv_get_buf(&list, &nr(999), false).is_none());
    let flt = typval_T { v_type: VarType::VAR_FLOAT, v_lock: VarLockStatus::VAR_UNLOCKED, vval: typval_vval_union::v_float(1.5f64.to_bits()) };
    let (buf, err) = tv_get_buf_from_arg(&list, &flt);
    assert!(buf.is_none());
    assert!(err.unwrap().starts_with(b"E805"));
    assert_eq!(tv_get_buf_from_arg(&list, &nr(1)).0, Some(a));
    let (buf, err) = get_buf_arg(&list, &nr(999));
    assert!(buf.is_none());
    assert!(err.unwrap().starts_with(b"E158: Invalid buffer name: 999"));
}

fn islocked_of(name: &str, globals: &vimlrs::typval_defs::dict_T) -> i64 {
    let args = vec![str_tv(name)];
    let mut rettv = unknown();
    vimlrs::vars::f_islocked(&args, &mut rettv, globals);
    match rettv.vval {
        typval_vval_union::v_number(n) => n,
        _ => panic!("islocked() did not return a Number"),
    }
}

fn lock_global(globals: &mut vimlrs::typval_defs::dict_T, name: &[u8], lock: bool) {
    for item in globals.dv_hashtab.iter_mut() {
        if item.di_key == name {
            vimlrs::typval_copy::tv_item_lock(&mut item.di_tv, 2, lock, false);
        }
    }
}

#[test]
fn islocked_locked_unlocked_missing() {
    let mut g = tv_dict_alloc();
    tv_dict_add_nr(&mut g, b"il_x", 1);
    lock_global(&mut g, b"il_x", true);
    assert_eq!(islocked_of("g:il_x", &g), 1);
    tv_dict_add_nr(&mut g, b"il_y", 1);
    assert_eq!(islocked_of("g:il_y", &g), 0);
    assert_eq!(islocked_of("g:il_nope", &g), -1);
    lock_global(&mut g, b"il_x", false);
    assert_eq!(islocked_of("g:il_x", &g), 0);
}

#[test]
fn islocked_locked_container() {
    let mut g = tv_dict_alloc();
    let mut l = tv_list_alloc(0);
    tv_list_append_number(&mut l, 1);
    tv_list_append_number(&mut l, 2);
    tv_dict_add_list(&mut g, b"il_l", l);
    lock_global(&mut g, b"il_l", true);
    assert_eq!(islocked_of("g:il_l", &g), 1);
    let mut l2 = tv_list_alloc(0);
    tv_list_append_number(&mut l2, 3);
    tv_list_append_number(&mut l2, 4);
    tv_dict_add_list(&mut g, b"il_l2", l2);
    assert_eq!(islocked_of("g:il_l2", &g), 0);
}
