//! User commands: ":command", ":delcommand" and running a user command.
use vstd::prelude::*;
use crate::typval_defs::{
    varnumber_T, OK, FAIL, VarType, VarLockStatus, BoolVarValue, SpecialVarValue, typval_vval_union,
    typval_T, list_T, dict_T, dictitem_T, blob_T, partial_T, Callback, DictWatcher, TypVal, VVal,
    ListVal, DictVal, BlobVal, CallbackVal, WatcherVal, tv_view, list_view, dict_view, items_view, dict_index_of,
    mk_tv, num_tv, str_tv, list_tv, blob_tv, dict_tv, empty_dict_val, dict_wf, keys_unique,
    lemma_items_view_ext, lemma_items_view_index, lemma_items_view_push, lemma_items_view_subrange,
    lemma_items_view_add, lemma_items_view_reverse, lemma_items_view_update, lemma_items_view_insert,
    lemma_items_view_remove, lemma_items_view_empty,
};
use crate::charset::{nr2str, nr2bytes, str2nr, str2nr_all};
use crate::dup::{bytes_dup, tv_dup, list_dup, dict_dup, blob_dup, items_dup, slice_to_vec, callback_dup, append_bytes};
use crate::typval::{
    number_of, number_chk_result, string_of, string_or_empty, tv_get_number_chk, tv_get_number,
    tv_get_bool, tv_get_string, tv_get_string_chk, tv_get_string_buf_chk, tv_equal, tv_equal_spec,
    bytes_eq, dict_find_index,
};
use crate::list_funcs::{ascii_lower, ascii_lower_exec};
use crate::highlight::{names_view, names_distinct, name_index, bytes_copy, find_name, lemma_name_index, lemma_name_index_none, lemma_name_index_some, ws_words, split_words};
use crate::mapping::{skip_white, find_white, trim_end_from, starts_with, starts_with_exec, skip_white_exec, find_white_exec, trim_end_exec, lemma_skip_white, lemma_find_white, lemma_trim_end};
use crate::mbyte::first_char_code;
use crate::textbuf::first_code_exec;

verus! {

// ── the table ──

/// A user command: its replacement text, its "-nargs" character (by code)
/// and whether it takes a bang.
pub struct ucmd_T {
    pub rep: Vec<u8>,
    pub nargs: u32,
    pub bang: bool,
}

/// The model of a user command.
pub struct UcmdVal {
    pub rep: Seq<u8>,
    pub nargs: u32,
    pub bang: bool,
}

impl View for ucmd_T {
    type V = UcmdVal;
    open spec fn view(&self) -> UcmdVal {
        UcmdVal { rep: self.rep@, nargs: self.nargs, bang: self.bang }
    }
}

/// The user commands: names (no name twice) and their definitions.
pub struct UserCommands {
    pub names: Vec<Vec<u8>>,
    pub cmds: Vec<ucmd_T>,
}

/// The model of the table.
pub struct UcTable {
    pub names: Seq<Seq<u8>>,
    pub cmds: Seq<UcmdVal>,
}

/// The model of a `UserCommands`.
pub open spec fn uc_view(u: &UserCommands) -> UcTable {
    UcTable { names: names_view(u.names@), cmds: Seq::new(u.cmds@.len(), |i: int| u.cmds@[i]@) }
}

/// One definition per name, no name twice.
pub open spec fn uc_wf(t: UcTable) -> bool {
    t.names.len() == t.cmds.len() && names_distinct(t.names)
}

/// No user commands.
pub fn user_commands_new() -> (u: UserCommands)
    ensures uc_wf(uc_view(&u)), uc_view(&u).names.len() == 0,
{
    let u = UserCommands { names: Vec::new(), cmds: Vec::new() };
    assert(uc_view(&u).names =~= Seq::<Seq<u8>>::empty());
    u
}

/// How many of the first `n` names start with `name`.
pub open spec fn prefix_count(names: Seq<Seq<u8>>, name: Seq<u8>, n: int) -> int
    decreases n,
{
    if n <= 0 { 0 } else { prefix_count(names, name, n - 1) + if starts_with(names[n - 1], name) { 1int } else { 0int } }
}

/// The last of the first `n` names that starts with `name`, or -1.
pub open spec fn last_prefix(names: Seq<Seq<u8>>, name: Seq<u8>, n: int) -> int
    decreases n,
{
    if n <= 0 { -1 } else if starts_with(names[n - 1], name) { n - 1 } else { last_prefix(names, name, n - 1) }
}

/// The command `name` names: the one of that name, else the only one whose
/// name starts with it.
pub open spec fn find_ucmd_spec(t: UcTable, name: Seq<u8>) -> Option<UcmdVal> {
    let i = name_index(t.names, name);
    if 0 <= i < t.cmds.len() {
        Some(t.cmds[i])
    } else if prefix_count(t.names, name, t.names.len() as int) == 1 && 0 <= last_prefix(t.names, name, t.names.len() as int) < t.cmds.len() {
        Some(t.cmds[last_prefix(t.names, name, t.names.len() as int)])
    } else {
        None
    }
}

fn ucmd_copy(c: &ucmd_T) -> (r: ucmd_T)
    ensures r@ == c@,
{
    ucmd_T { rep: bytes_copy(&c.rep), nargs: c.nargs, bang: c.bang }
}

/// The command `name` names (see `find_ucmd_spec`).
fn find_ucmd(u: &UserCommands, name: &[u8]) -> (r: Option<ucmd_T>)
    requires uc_wf(uc_view(u)),
    ensures
        match find_ucmd_spec(uc_view(u), name@) { Some(c) => r is Some && r->Some_0@ == c, None => r is None },
{
    let ghost t = uc_view(u);
    if let Some(i) = find_name(&u.names, name) {
        assert(t.cmds[i as int] == u.cmds@[i as int]@);
        return Some(ucmd_copy(&u.cmds[i]));
    }
    let mut count: usize = 0;
    let mut last: usize = 0;
    let mut k: usize = 0;
    while k < u.names.len()
        invariant
            k <= u.names@.len(), t == uc_view(u), count <= k,
            count as int == prefix_count(t.names, name@, k as int),
            count > 0 ==> last < k && last as int == last_prefix(t.names, name@, k as int),
            count == 0 ==> last_prefix(t.names, name@, k as int) == -1,
        decreases u.names.len() - k,
    {
        if starts_with_exec(u.names[k].as_slice(), name) {
            count = count + 1;
            last = k;
        }
        k += 1;
    }
    if count == 1 {
        assert(t.cmds[last as int] == u.cmds@[last as int]@);
        Some(ucmd_copy(&u.cmds[last]))
    } else {
        None
    }
}

// ── expanding a command ──

/// `s` with each quote doubled.
pub open spec fn dup_quotes(s: Seq<u8>) -> Seq<u8>
    decreases s.len(),
{
    if s.len() == 0 { s } else { dup_quotes(s.drop_last()) + if s.last() == 39u8 { seq![39u8, 39u8] } else { seq![s.last()] } }
}

/// `s` as a single-quoted String.
pub open spec fn quote_spec(s: Seq<u8>) -> Seq<u8> {
    seq![39u8] + dup_quotes(s) + seq![39u8]
}

/// The words quoted and joined with ", ".
pub open spec fn join_quoted(ws: Seq<Seq<u8>>) -> Seq<u8>
    decreases ws.len(),
{
    if ws.len() == 0 { Seq::empty() }
    else if ws.len() == 1 { quote_spec(ws[0]) }
    else { join_quoted(ws.drop_last()) + seq![44u8, 32u8] + quote_spec(ws.last()) }
}

/// The replacement of a code: "args" the arguments, "q-args" them quoted,
/// "f-args" each word quoted and joined with ", ", "bang" "!" (when given),
/// "lt" "<"; `None` for another code.
pub open spec fn code_repl(code: Seq<u8>, args: Seq<u8>, bang: bool) -> Option<Seq<u8>> {
    if code == seq![97u8, 114, 103, 115] { Some(args) }
    else if code == seq![113u8, 45, 97, 114, 103, 115] { Some(quote_spec(args)) }
    else if code == seq![102u8, 45, 97, 114, 103, 115] { Some(join_quoted(ws_words(args))) }
    else if code == seq![98u8, 97, 110, 103] { Some(if bang { seq![33u8] } else { Seq::empty() }) }
    else if code == seq![108u8, 116] { Some(seq![60u8]) }
    else { None }
}

/// Where byte `b` is first at or after `i`, or -1.
pub open spec fn find_from(s: Seq<u8>, i: int, b: u8) -> int
    decreases s.len() - i,
{
    if i < 0 || i >= s.len() { -1 } else if s[i] == b { i } else { find_from(s, i + 1, b) }
}

/// The replacement text from byte `i` on with its `<...>` codes replaced
/// (see `code_repl`; an unknown code is kept).
pub open spec fn expand_from(rep: Seq<u8>, args: Seq<u8>, bang: bool, i: int) -> Seq<u8>
    decreases rep.len() - i,
{
    if i < 0 || i >= rep.len() {
        Seq::empty()
    } else {
        let j = find_from(rep, i, 62u8);
        if rep[i] == 60u8 && j > i {
            match code_repl(ascii_lower(rep.subrange(i + 1, j)), args, bang) {
                Some(r) => { proof { lemma_find_from(rep, i, 62u8); } r + expand_from(rep, args, bang, j + 1) },
                None => seq![rep[i]] + expand_from(rep, args, bang, i + 1),
            }
        } else {
            seq![rep[i]] + expand_from(rep, args, bang, i + 1)
        }
    }
}

/// A byte found from `i` lies at or after `i`, within `s`.
pub proof fn lemma_find_from(s: Seq<u8>, i: int, b: u8)
    ensures find_from(s, i, b) == -1 || (i <= find_from(s, i, b) < s.len() && s[find_from(s, i, b)] == b),
    decreases s.len() - i,
{
    if 0 <= i < s.len() && s[i] != b {
        lemma_find_from(s, i + 1, b);
    }
}

pub(crate) fn find_from_exec(s: &[u8], i: usize, b: u8) -> (r: Option<usize>)
    requires i <= s@.len(),
    ensures
        match r {
            Some(j) => j as int == find_from(s@, i as int, b),
            None => find_from(s@, i as int, b) == -1,
        },
{
    let mut j = i;
    while j < s.len()
        invariant i <= j <= s@.len(), find_from(s@, j as int, b) == find_from(s@, i as int, b),
        decreases s.len() - j,
    {
        if s[j] == b {
            return Some(j);
        }
        j += 1;
    }
    None
}

/// `s` as a single-quoted String, quotes doubled.
pub(crate) fn quote_exec(s: &[u8]) -> (r: Vec<u8>)
    ensures r@ == quote_spec(s@),
{
    let mut out: Vec<u8> = Vec::new();
    out.push(39u8);
    let mut k: usize = 0;
    while k < s.len()
        invariant k <= s@.len(), out@ == seq![39u8] + dup_quotes(s@.subrange(0, k as int)),
        decreases s.len() - k,
    {
        assert(s@.subrange(0, k as int + 1).drop_last() =~= s@.subrange(0, k as int));
        if s[k] == 39u8 {
            out.push(39u8);
            out.push(39u8);
        } else {
            out.push(s[k]);
        }
        k += 1;
        assert(out@ =~= seq![39u8] + dup_quotes(s@.subrange(0, k as int)));
    }
    assert(s@.subrange(0, s@.len() as int) =~= s@);
    out.push(39u8);
    out
}

/// Each word quoted, joined with ", ".
fn join_quoted_exec(ws: &Vec<Vec<u8>>) -> (r: Vec<u8>)
    ensures r@ == join_quoted(names_view(ws@)),
{
    let ghost nv = names_view(ws@);
    let mut out: Vec<u8> = Vec::new();
    let mut k: usize = 0;
    while k < ws.len()
        invariant k <= ws@.len(), nv == names_view(ws@), out@ == join_quoted(nv.subrange(0, k as int)),
        decreases ws.len() - k,
    {
        let q = quote_exec(ws[k].as_slice());
        assert(nv.subrange(0, k as int + 1).drop_last() =~= nv.subrange(0, k as int));
        if k > 0 {
            out.push(44u8);
            out.push(32u8);
        }
        append_bytes(&mut out, q.as_slice());
        k += 1;
        assert(out@ =~= join_quoted(nv.subrange(0, k as int)));
    }
    assert(nv.subrange(0, ws@.len() as int) =~= nv);
    out
}

fn code_repl_exec(code: &[u8], args: &[u8], bang: bool) -> (r: Option<Vec<u8>>)
    ensures
        match code_repl(code@, args@, bang) { Some(v) => r is Some && r->Some_0@ == v, None => r is None },
{
    let w1: [u8; 4] = [97u8, 114, 103, 115];
    let w2: [u8; 6] = [113u8, 45, 97, 114, 103, 115];
    let w3: [u8; 6] = [102u8, 45, 97, 114, 103, 115];
    let w4: [u8; 4] = [98u8, 97, 110, 103];
    let w5: [u8; 2] = [108u8, 116];
    assert(w1@ =~= seq![97u8, 114, 103, 115] && w2@ =~= seq![113u8, 45, 97, 114, 103, 115]);
    assert(w3@ =~= seq![102u8, 45, 97, 114, 103, 115] && w4@ =~= seq![98u8, 97, 110, 103] && w5@ =~= seq![108u8, 116]);
    if bytes_eq(code, &w1) {
        Some(slice_to_vec(args))
    } else if bytes_eq(code, &w2) {
        Some(quote_exec(args))
    } else if bytes_eq(code, &w3) {
        let ws = split_words(args);
        assert(names_view(ws@) =~= ws_words(args@));
        Some(join_quoted_exec(&ws))
    } else if bytes_eq(code, &w4) {
        let mut v: Vec<u8> = Vec::new();
        if bang {
            v.push(33u8);
        }
        assert(v@ =~= (if bang { seq![33u8] } else { Seq::<u8>::empty() }));
        Some(v)
    } else if bytes_eq(code, &w5) {
        let mut v: Vec<u8> = Vec::new();
        v.push(60u8);
        assert(v@ =~= seq![60u8]);
        Some(v)
    } else {
        None
    }
}

/// The replacement text with its `<...>` codes replaced (see `expand_from`).
pub fn uc_check_code(rep: &[u8], args: &[u8], bang: bool) -> (r: Vec<u8>)
    ensures r@ == expand_from(rep@, args@, bang, 0),
{
    let mut out: Vec<u8> = Vec::new();
    let mut i: usize = 0;
    while i < rep.len()
        invariant
            i <= rep@.len(),
            out@ + expand_from(rep@, args@, bang, i as int) == expand_from(rep@, args@, bang, 0),
        decreases rep.len() - i,
    {
        let ghost gi = i as int;
        let mut done = false;
        if rep[i] == 60u8 {
            proof { lemma_find_from(rep@, gi, 62u8); }
            if let Some(j) = find_from_exec(rep, i, 62u8) {
                if j > i {
                    let lc = ascii_lower_exec(&rep[i + 1..j]);
                    assert(rep@.subrange(gi + 1, j as int) =~= rep@.subrange(gi + 1, j as int));
                    match code_repl_exec(lc.as_slice(), args, bang) {
                        Some(r) => {
                            let ghost before = out@;
                            append_bytes(&mut out, r.as_slice());
                            assert(out@ + expand_from(rep@, args@, bang, j as int + 1)
                                =~= before + expand_from(rep@, args@, bang, gi));
                            i = j + 1;
                            done = true;
                        },
                        None => {},
                    }
                }
            }
        }
        if !done {
            let ghost before = out@;
            out.push(rep[i]);
            assert(out@ + expand_from(rep@, args@, bang, gi + 1) =~= before + expand_from(rep@, args@, bang, gi));
            i += 1;
        }
    }
    assert(expand_from(rep@, args@, bang, i as int) =~= Seq::<u8>::empty());
    assert(out@ + Seq::<u8>::empty() =~= out@);
    out
}

/// User command `name` run with `args`: its replacement expanded (the bang
/// only where the command takes one); `None` where no command is named.
pub open spec fn do_ucmd_spec(t: UcTable, name: Seq<u8>, args: Seq<u8>, bang: bool) -> Option<Seq<u8>> {
    match find_ucmd_spec(t, name) {
        Some(c) => Some(expand_from(c.rep, args, bang && c.bang, 0)),
        None => None,
    }
}

/// Expands user command `name` with `args` and `bang`, ready to run.
pub fn do_ucmd(u: &UserCommands, name: &[u8], args: &[u8], bang: bool) -> (r: Option<Vec<u8>>)
    requires uc_wf(uc_view(u)),
    ensures
        match do_ucmd_spec(uc_view(u), name@, args@, bang) { Some(v) => r is Some && r->Some_0@ == v, None => r is None },
{
    match find_ucmd(u, name) {
        Some(c) => Some(uc_check_code(c.rep.as_slice(), args, bang && c.bang)),
        None => None,
    }
}

// ── defining and deleting ──

/// "nargs=" and "bang".
pub open spec fn nargs_w() -> Seq<u8> { seq![110u8, 97, 114, 103, 115, 61] }
pub open spec fn bang_w() -> Seq<u8> { seq![98u8, 97, 110, 103] }

/// The "-nargs" character an attribute sets: its first character after
/// "nargs=", or '0' when none follows.
pub open spec fn nargs_of(attr: Seq<u8>) -> u32 {
    let v = attr.subrange(6, attr.len() as int);
    if v.len() == 0 { 48u32 } else { first_char_code(v) as u32 }
}

/// The "-attr[=val]" attributes from `i` on in `t`, each followed by white
/// space: the "-nargs" character and the bang they leave from `nargs` and
/// `bang`, and where the rest starts. Other attributes are skipped.
pub open spec fn uc_attrs(t: Seq<u8>, i: int, nargs: u32, bang: bool) -> (u32, bool, int)
    decreases t.len() - i,
{
    if 0 <= i < t.len() && t[i] == 45u8 {
        proof { lemma_find_white(t, i + 1); }
        let end = find_white(t, i + 1);
        let attr = ascii_lower(t.subrange(i + 1, end));
        let is_n = starts_with(attr, nargs_w());
        proof { lemma_skip_white(t, end); }
        uc_attrs(t, skip_white(t, end), if is_n { nargs_of(attr) } else { nargs }, bang || (!is_n && attr == bang_w()))
    } else {
        (nargs, bang, i)
    }
}

/// The `arg` of ":command" trimmed.
pub open spec fn trimmed(arg: Seq<u8>) -> Seq<u8> {
    let a = skip_white(arg, 0);
    arg.subrange(a, trim_end_from(arg, a, a))
}

/// What ":command {arg}" defines: "[!] [-attrs] Name {replacement}" gives
/// the name and the command; `None` where no name is given.
pub open spec fn ex_command_parse(arg: Seq<u8>) -> Option<(Seq<u8>, UcmdVal)> {
    let t = trimmed(arg);
    let b = skip_white(t, if t.len() > 0 && t[0] == 33u8 { 1int } else { 0int });
    let at = uc_attrs(t, b, 48u32, false);
    let p = at.2;
    let q = find_white(t, p);
    let name = t.subrange(p, q);
    if name.len() == 0 {
        None
    } else {
        Some((name, UcmdVal { rep: t.subrange(skip_white(t, q), t.len() as int), nargs: at.0, bang: at.1 }))
    }
}

/// The table with `name` defined as `c` (replacing a command of that name).
pub open spec fn uc_insert(t: UcTable, name: Seq<u8>, c: UcmdVal) -> UcTable {
    let i = name_index(t.names, name);
    if 0 <= i < t.names.len() {
        UcTable { names: t.names, cmds: t.cmds.update(i, c) }
    } else {
        UcTable { names: t.names.push(name), cmds: t.cmds.push(c) }
    }
}

/// The table without the command named exactly `name`.
pub open spec fn uc_remove(t: UcTable, name: Seq<u8>) -> UcTable {
    let i = name_index(t.names, name);
    if 0 <= i < t.names.len() {
        UcTable { names: t.names.remove(i), cmds: t.cmds.remove(i) }
    } else {
        t
    }
}

fn uc_add_command(u: &mut UserCommands, name: Vec<u8>, c: ucmd_T)
    requires uc_wf(uc_view(old(u))),
    ensures uc_wf(uc_view(final(u))), uc_view(final(u)) == uc_insert(uc_view(old(u)), name@, c@),
{
    let ghost t = uc_view(u);
    let ghost cv = c@;
    let ghost nm = name@;
    match find_name(&u.names, name.as_slice()) {
        Some(i) => {
            u.cmds.set(i, c);
            assert(uc_view(u).names =~= t.names);
            assert(uc_view(u).cmds =~= t.cmds.update(i as int, cv));
        },
        None => {
            u.names.push(name);
            u.cmds.push(c);
            assert(uc_view(u).names =~= t.names.push(nm));
            assert(uc_view(u).cmds =~= t.cmds.push(cv));
            assert forall|a: int, b: int| 0 <= a < b < t.names.len() + 1 implies t.names.push(nm)[a] != t.names.push(nm)[b] by {
                if b == t.names.len() {
                    assert(t.names[a] != nm);
                }
            }
        },
    }
}

/// Defines a user command from a ":command" argument (see `ex_command_parse`).
pub fn ex_command(u: &mut UserCommands, arg: &[u8])
    requires uc_wf(uc_view(old(u))),
    ensures
        uc_wf(uc_view(final(u))),
        uc_view(final(u)) == match ex_command_parse(arg@) {
            Some(d) => uc_insert(uc_view(old(u)), d.0, d.1),
            None => uc_view(old(u)),
        },
{
    let a = skip_white_exec(arg, 0);
    let e = trim_end_exec(arg, a);
    let t = &arg[a..e];
    assert(t@ =~= trimmed(arg@));
    let b0: usize = if t.len() > 0 && t[0] == 33u8 { 1 } else { 0 };
    let b = skip_white_exec(t, b0);
    let nw: [u8; 6] = [110u8, 97, 114, 103, 115, 61];
    let bw: [u8; 4] = [98u8, 97, 110, 103];
    assert(nw@ =~= nargs_w() && bw@ =~= bang_w());
    let mut nargs: u32 = 48;
    let mut bang = false;
    let mut i = b;
    while i < t.len() && t[i] == 45u8
        invariant
            b <= i <= t@.len(), t@ == trimmed(arg@), nw@ == nargs_w(), bw@ == bang_w(),
            uc_attrs(t@, i as int, nargs, bang) == uc_attrs(t@, b as int, 48u32, false),
        decreases t.len() - i,
    {
        let end = find_white_exec(t, i + 1);
        let attr = ascii_lower_exec(&t[i + 1..end]);
        assert(t@.subrange(i as int + 1, end as int) =~= t@.subrange(i as int + 1, end as int));
        if starts_with_exec(attr.as_slice(), &nw) {
            let v = &attr[6..attr.len()];
            assert(v@ =~= attr@.subrange(6, attr@.len() as int));
            nargs = if v.len() == 0 { 48 } else { first_code_exec(v) };
        } else if bytes_eq(attr.as_slice(), &bw) {
            bang = true;
        }
        i = skip_white_exec(t, end);
    }
    let q = find_white_exec(t, i);
    if q == i {
        assert(t@.subrange(i as int, q as int).len() == 0);
        return;
    }
    let name = slice_to_vec(&t[i..q]);
    let r0 = skip_white_exec(t, q);
    let rep = slice_to_vec(&t[r0..t.len()]);
    assert(name@ =~= t@.subrange(i as int, q as int));
    assert(rep@ =~= t@.subrange(r0 as int, t@.len() as int));
    uc_add_command(u, name, ucmd_T { rep, nargs, bang });
}

/// Deletes the user command named `arg` (trimmed).
pub fn ex_delcommand(u: &mut UserCommands, arg: &[u8])
    requires uc_wf(uc_view(old(u))),
    ensures uc_wf(uc_view(final(u))), uc_view(final(u)) == uc_remove(uc_view(old(u)), trimmed(arg@)),
{
    let ghost t = uc_view(u);
    let a = skip_white_exec(arg, 0);
    let e = trim_end_exec(arg, a);
    let name = &arg[a..e];
    assert(name@ =~= trimmed(arg@));
    match find_name(&u.names, name) {
        Some(i) => {
            u.names.remove(i);
            u.cmds.remove(i);
            assert(uc_view(u).names =~= t.names.remove(i as int));
            assert(uc_view(u).cmds =~= t.cmds.remove(i as int));
            let ghost ns = t.names.remove(i as int);
            assert forall|x: int, y: int| 0 <= x < y < ns.len() implies ns[x] != ns[y] by {
                let ox = if x < i { x } else { x + 1 };
                let oy = if y < i { y } else { y + 1 };
                assert(ns[x] == t.names[ox] && ns[y] == t.names[oy]);
            }
        },
        None => {},
    }
}

// ── laws ──

/// After ":command" defines `name`, running `name` expands the new
/// replacement, with the bang where the command takes one.
pub proof fn lemma_command_then_run(t: UcTable, name: Seq<u8>, c: UcmdVal, args: Seq<u8>, bang: bool)
    requires uc_wf(t),
    ensures
        uc_wf(uc_insert(t, name, c)),
        do_ucmd_spec(uc_insert(t, name, c), name, args, bang) == Some(expand_from(c.rep, args, bang && c.bang, 0)),
{
    let t2 = uc_insert(t, name, c);
    let i = name_index(t.names, name);
    if 0 <= i < t.names.len() {
        lemma_name_index_some(t.names, name);
        lemma_name_index(t2.names, name, i);
    } else {
        assert forall|a: int, b: int| 0 <= a < b < t2.names.len() implies t2.names[a] != t2.names[b] by {
            if b == t.names.len() {
                assert(t.names[a] != name);
            }
        }
        lemma_name_index(t2.names, name, t.names.len() as int);
    }
}

/// After ":delcommand" no command has that exact name, and every other
/// name keeps its command.
pub proof fn lemma_delcommand(t: UcTable, name: Seq<u8>, other: Seq<u8>)
    requires uc_wf(t), other != name,
    ensures
        name_index(uc_remove(t, name).names, name) == -1,
        find_ucmd_spec(t, other) is Some && name_index(t.names, other) >= 0
            ==> name_index(uc_remove(t, name).names, other) >= 0
                && find_ucmd_spec(uc_remove(t, name), other) == find_ucmd_spec(t, other),
{
    let t2 = uc_remove(t, name);
    let i = name_index(t.names, name);
    if 0 <= i < t.names.len() {
        lemma_name_index_some(t.names, name);
        let ns = t2.names;
        assert forall|x: int, y: int| 0 <= x < y < ns.len() implies ns[x] != ns[y] by {
            let ox = if x < i { x } else { x + 1 };
            let oy = if y < i { y } else { y + 1 };
            assert(ns[x] == t.names[ox] && ns[y] == t.names[oy]);
        }
        assert forall|k: int| 0 <= k < ns.len() implies ns[k] != name by {
            let ok = if k < i { k } else { k + 1 };
            assert(ns[k] == t.names[ok]);
        }
        lemma_name_index_none(ns, name);
        if name_index(t.names, other) >= 0 {
            let j = name_index(t.names, other);
            lemma_name_index_some(t.names, other);
            let nj = if j < i { j } else { j - 1 };
            assert(ns[nj] == other);
            lemma_name_index(ns, other, nj);
        }
    } else {
        lemma_name_index_none(t.names, name);
    }
}

} // verus!
