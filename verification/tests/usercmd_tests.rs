use vimlrs::usercmd::{user_commands_new, ex_command, ex_delcommand, do_ucmd, uc_check_code};

fn run(u: &vimlrs::usercmd::UserCommands, name: &str, args: &str, bang: bool) -> Option<String> {
    do_ucmd(u, name.as_bytes(), args.as_bytes(), bang).map(|v| String::from_utf8(v).unwrap())
}

#[test]
fn ucmd_define_and_run_args() {
    let mut u = user_commands_new();
    ex_command(&mut u, b"  Hello echo <args>  ");
    assert_eq!(run(&u, "Hello", "one two", false), Some("echo one two".to_string()));
}

#[test]
fn ucmd_q_args_and_f_args() {
    let mut u = user_commands_new();
    ex_command(&mut u, b"-nargs=* Q call F(<q-args>)");
    ex_command(&mut u, b"-nargs=* Fa call F(<f-args>)");
    assert_eq!(run(&u, "Q", "it's here", false), Some("call F('it''s here')".to_string()));
    assert_eq!(run(&u, "Fa", " a  b ", false), Some("call F('a', 'b')".to_string()));
    assert_eq!(run(&u, "Fa", "", false), Some("call F()".to_string()));
}

#[test]
fn ucmd_bang_only_where_allowed() {
    let mut u = user_commands_new();
    ex_command(&mut u, b"-bang W write<bang> x");
    ex_command(&mut u, b"N write<bang> y");
    assert_eq!(run(&u, "W", "", true), Some("write! x".to_string()));
    assert_eq!(run(&u, "W", "", false), Some("write x".to_string()));
    assert_eq!(run(&u, "N", "", true), Some("write y".to_string()));
}

#[test]
fn ucmd_codes_case_lt_and_unknown() {
    assert_eq!(uc_check_code(b"<LT>x<ARGS><foo>", b"a", false), b"<xa<foo>".to_vec());
    assert_eq!(uc_check_code(b"a<b", b"z", false), b"a<b".to_vec());
}

#[test]
fn ucmd_unique_prefix_lookup() {
    let mut u = user_commands_new();
    ex_command(&mut u, b"Foobar one");
    ex_command(&mut u, b"Fizz two");
    assert_eq!(run(&u, "Foo", "", false), Some("one".to_string()));
    assert_eq!(run(&u, "F", "", false), None);
    assert_eq!(run(&u, "Nope", "", false), None);
}

#[test]
fn ucmd_redefine_and_delete() {
    let mut u = user_commands_new();
    ex_command(&mut u, b"Foo one");
    ex_command(&mut u, b"! Foo two");
    assert_eq!(run(&u, "Foo", "", false), Some("two".to_string()));
    ex_delcommand(&mut u, b" Foo ");
    assert_eq!(run(&u, "Foo", "", false), None);
}

#[test]
fn ucmd_no_name_defines_nothing() {
    let mut u = user_commands_new();
    ex_command(&mut u, b"-nargs=1   ");
    assert_eq!(run(&u, "", "", false), None);
}
