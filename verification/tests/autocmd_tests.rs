use vimlrs::autocmd::{autocmds_new, do_augroup, do_autocmd, apply_autocmds, do_doautocmd, au_exists, match_file_pat};

fn strs(v: Vec<Vec<u8>>) -> Vec<String> {
    v.into_iter().map(|x| String::from_utf8(x).unwrap()).collect()
}

#[test]
fn au_file_patterns() {
    assert!(match_file_pat(b"*.txt", b"notes.txt"));
    assert!(!match_file_pat(b"*.txt", b"notes.md"));
    assert!(match_file_pat(b"a?c", b"abc"));
    assert!(!match_file_pat(b"a?c", b"ac"));
    assert!(match_file_pat(b"*", b""));
    assert!(match_file_pat(b"a*b*c", b"axxbyyc"));
    assert!(!match_file_pat(b"a*b*c", b"axxbyy"));
    assert!(match_file_pat("é?".as_bytes(), "éü".as_bytes()));
    assert!(match_file_pat(b"abc", b"abc"));
    assert!(!match_file_pat(b"abc", b"abcd"));
}

#[test]
fn au_define_and_fire_in_order() {
    let mut a = autocmds_new();
    do_autocmd(&mut a, b"BufRead *.txt echo 1");
    do_autocmd(&mut a, b"bufread * echo 2");
    do_autocmd(&mut a, b"BufWrite * echo 3");
    assert_eq!(strs(apply_autocmds(&a, b"BUFREAD", b"x.txt")), vec!["echo 1", "echo 2"]);
    assert_eq!(strs(apply_autocmds(&a, b"BufRead", b"x.md")), vec!["echo 2"]);
    assert_eq!(strs(do_doautocmd(&a, b"  BufWrite  ")), vec!["echo 3"]);
    assert_eq!(strs(do_doautocmd(&a, b"BufRead y.txt")), vec!["echo 1", "echo 2"]);
    assert!(do_doautocmd(&a, b"   ").is_empty());
}

#[test]
fn au_comma_events() {
    let mut a = autocmds_new();
    do_autocmd(&mut a, b"BufRead,,BufNew *.c make");
    assert_eq!(strs(apply_autocmds(&a, b"bufnew", b"a.c")), vec!["make"]);
    assert_eq!(strs(apply_autocmds(&a, b"bufread", b"a.c")), vec!["make"]);
}

#[test]
fn au_force_replaces_and_removes() {
    let mut a = autocmds_new();
    do_autocmd(&mut a, b"BufRead *.txt echo 1");
    do_autocmd(&mut a, b"! BufRead *.txt echo 2");
    assert_eq!(strs(apply_autocmds(&a, b"BufRead", b"a.txt")), vec!["echo 2"]);
    do_autocmd(&mut a, b"BufRead *.txt");
    assert_eq!(strs(apply_autocmds(&a, b"BufRead", b"a.txt")), vec!["echo 2"]);
    do_autocmd(&mut a, b"!BufRead *.txt");
    assert!(apply_autocmds(&a, b"BufRead", b"a.txt").is_empty());
}

#[test]
fn au_groups() {
    let mut a = autocmds_new();
    do_augroup(&mut a, b" mine ");
    assert_eq!(a.group, b"mine".to_vec());
    do_autocmd(&mut a, b"BufRead * echo mine");
    do_augroup(&mut a, b"END");
    assert!(a.group.is_empty());
    do_autocmd(&mut a, b"BufRead * echo default");
    do_autocmd(&mut a, b"!");
    assert_eq!(strs(apply_autocmds(&a, b"BufRead", b"f")), vec!["echo mine"]);
    do_augroup(&mut a, b"mine");
    do_autocmd(&mut a, b"! BufRead");
    assert!(apply_autocmds(&a, b"BufRead", b"f").is_empty());
}

#[test]
fn au_exists_queries() {
    let mut a = autocmds_new();
    do_autocmd(&mut a, b"BufRead *.txt echo 1");
    assert!(au_exists(&a, b"bufread"));
    assert!(au_exists(&a, b"BufRead#*.txt"));
    assert!(!au_exists(&a, b"BufRead#*.md"));
    assert!(!au_exists(&a, b"BufWrite"));
}
