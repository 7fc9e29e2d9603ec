//! String builtins: escaping for file names and shells, encoding conversion, messages, command names, and the scoped-variable getters.
use vstd::prelude::*;
use crate::typval_defs::{
    varnumber_T, OK, FAIL, VarType, VarLockStatus, BoolVarValue, SpecialVarValue, typval_vval_union,
    typval_T, list_T, dict_T, dictitem_T, blob_T, partial_T, Callback, DictWatcher, TypVal, VVal,
    ListVal, DictVal, BlobVal, CallbackVal, WatcherVal, tv_view, list_view, dict_view, items_view, dict_index_of,
    mk_tv, num_tv, str_tv, list_tv, blob_tv, dict_tv, empty_dict_val, dict_wf, keys_unique,
    lemma_items_view_ext, lemma_items_view_index, lemma_items_view_push, lemma_items_view_subrange,
    lemma_items_view_add, lemma_items_view_reverse, lemma_items_view_update, lemma_items_view_insert,
    lemma_items_view_remove, lemma_items_view_empty,
};
use crate::charset::{nr2str, nr2bytes, str2nr, str2nr_all};
use crate::dup::{bytes_dup, tv_dup, list_dup, dict_dup, blob_dup, items_dup, slice_to_vec, callback_dup, append_bytes};
use crate::typval::{
    number_of, number_chk_result, string_of, string_or_empty, tv_get_number_chk, tv_get_number,
    tv_get_bool, tv_get_string, tv_get_string_chk, tv_get_string_buf_chk, tv_equal, tv_equal_spec,
    bytes_eq, dict_find_index,
};
use crate::typval_list::{string_tv, number_tv};
use crate::typval_check::{tv_check_for_string_arg, arg_type_spec};
use crate::funcs_basic::with_string;
use crate::list_funcs::{ascii_lower, ascii_lower_exec};
use crate::charset::{utf8_split, utf8_chars};
use crate::mbyte::first_char_code;
use crate::textbuf::first_code_exec;
use crate::highlight::names_view;
use crate::mapping::{starts_with, starts_with_exec};

verus! {


// ── fnameescape() ──

/// The characters a file name argument escapes.
pub open spec fn fname_special(b: u8) -> bool {
    b == 32 || b == 9 || b == 10 || b == 42 || b == 63 || b == 91 || b == 123 || b == 96 || b == 36
        || b == 92 || b == 37 || b == 35 || b == 39 || b == 34 || b == 124 || b == 33 || b == 60
}

/// Whether byte `j` of `s` gets a backslash: a special character, or a
/// leading '+' or '>'.
pub open spec fn fname_escaped(s: Seq<u8>, j: int) -> bool {
    fname_special(s[j]) || (j == 0 && (s[j] == 43 || s[j] == 62))
}

/// The first `n` bytes of `s` escaped for a file name argument.
pub open spec fn fname_escape(s: Seq<u8>, n: int) -> Seq<u8>
    decreases n,
{
    if n <= 0 { Seq::empty() } else {
        fname_escape(s, n - 1) + if fname_escaped(s, n - 1) { seq![92u8, s[n - 1]] } else { seq![s[n - 1]] }
    }
}

/// The characters Vim escapes in a file name argument,
/// " \t\n*?[{`$\\%#'\"|!<", byte by byte.
pub open spec fn path_esc_chars() -> Seq<u8> {
    seq![32u8, 9, 10, 42, 63, 91, 123, 96, 36, 92, 37, 35, 39, 34, 124, 33, 60]
}

proof fn lemma_fname_escape_prefix(s: Seq<u8>, n: int, m: int)
    requires 0 <= n <= m <= s.len(),
    ensures
        fname_escape(s, n).len() <= fname_escape(s, m).len(),
        forall|i: int| 0 <= i < fname_escape(s, n).len() ==> #[trigger] fname_escape(s, m)[i] == fname_escape(s, n)[i],
    decreases m,
{
    if m > n {
        lemma_fname_escape_prefix(s, n, m - 1);
    }
}

proof fn lemma_fname_escape_len(s: Seq<u8>, n: int)
    requires 0 <= n <= s.len(),
    ensures fname_escape(s, n).len() >= n,
    decreases n,
{
    if n > 0 { lemma_fname_escape_len(s, n - 1); }
}

/// How many bytes of the first `n` of `s` get a backslash: those in
/// " \t\n*?[{`$\\%#'\"|!<", and a leading '+' or '>'.
pub open spec fn esc_count(s: Seq<u8>, n: int) -> int
    decreases n,
{
    if n <= 0 { 0 } else {
        esc_count(s, n - 1) + if path_esc_chars().contains(s[n - 1]) || (n - 1 == 0 && (s[0] == 43u8 || s[0] == 62u8)) { 1int } else { 0int }
    }
}

proof fn lemma_special_is_path_esc(b: u8)
    ensures fname_special(b) == path_esc_chars().contains(b),
{
    let e = path_esc_chars();
    if fname_special(b) {
        if b == 32 { assert(e[0] == b); } else if b == 9 { assert(e[1] == b); } else if b == 10 { assert(e[2] == b); }
        else if b == 42 { assert(e[3] == b); } else if b == 63 { assert(e[4] == b); } else if b == 91 { assert(e[5] == b); }
        else if b == 123 { assert(e[6] == b); } else if b == 96 { assert(e[7] == b); } else if b == 36 { assert(e[8] == b); }
        else if b == 92 { assert(e[9] == b); } else if b == 37 { assert(e[10] == b); } else if b == 35 { assert(e[11] == b); }
        else if b == 39 { assert(e[12] == b); } else if b == 34 { assert(e[13] == b); } else if b == 124 { assert(e[14] == b); }
        else if b == 33 { assert(e[15] == b); } else { assert(e[16] == b); }
    } else if e.contains(b) {
        let k = choose|k: int| 0 <= k < e.len() && e[k] == b;
        assert(false);
    }
}

proof fn lemma_fname_escape_count(s: Seq<u8>, n: int)
    requires 0 <= n <= s.len(),
    ensures fname_escape(s, n).len() == n + esc_count(s, n),
    decreases n,
{
    if n > 0 {
        lemma_fname_escape_count(s, n - 1);
        lemma_special_is_path_esc(s[n - 1]);
    }
}

/// "fnameescape()" adds a backslash for each byte that is one of
/// " \t\n*?[{`$\\%#'\"|!<", and for a leading '+' or '>', and for nothing else:
/// the result is that many bytes longer than the name.
pub proof fn lemma_fnameescape_length(s: Seq<u8>)
    ensures fname_escape(s, s.len() as int).len() == s.len() + esc_count(s, s.len() as int),
{
    lemma_fname_escape_count(s, s.len() as int);
}

/// "fnameescape()" keeps every byte of the name, in order, and puts a
/// backslash of its own right before each byte that is one of
/// " \t\n*?[{`$\\%#'\"|!<": there are places `pos[j]` of the result, rising
/// with `j`, where byte `j` of the name stands, and before the place of such
/// a byte, after the place of the byte before it, stands a backslash.
pub proof fn lemma_fnameescape_escapes(s: Seq<u8>)
    ensures ({
        let r = fname_escape(s, s.len() as int);
        exists|pos: Seq<int>| #![trigger pos.len()]
            pos.len() == s.len()
            && (forall|j: int| 0 <= j < s.len() ==> 0 <= #[trigger] pos[j] < r.len() && r[pos[j]] == s[j])
            && (forall|j: int| 0 < j < s.len() ==> pos[j - 1] < #[trigger] pos[j])
            && (forall|j: int| 0 <= j < s.len() && path_esc_chars().contains(#[trigger] s[j]) ==>
                    pos[j] >= 1 && r[pos[j] - 1] == 92u8 && (j == 0 || pos[j] - 1 > pos[j - 1]))
    }),
{
    let r = fname_escape(s, s.len() as int);
    let pos = Seq::new(s.len(), |j: int| fname_escape(s, j + 1).len() - 1);
    assert forall|j: int| 0 <= j < s.len() implies 0 <= #[trigger] pos[j] < r.len() && r[pos[j]] == s[j] by {
        lemma_fname_escape_prefix(s, j + 1, s.len() as int);
        lemma_fname_escape_len(s, j + 1);
    }
    assert forall|j: int| 0 < j < s.len() implies pos[j - 1] < #[trigger] pos[j] by {}
    assert forall|j: int| 0 <= j < s.len() && path_esc_chars().contains(#[trigger] s[j]) implies
        pos[j] >= 1 && r[pos[j] - 1] == 92u8 && (j == 0 || pos[j] - 1 > pos[j - 1]) by {
        let k = choose|k: int| 0 <= k < path_esc_chars().len() && path_esc_chars()[k] == s[j];
        assert(fname_special(s[j]));
        lemma_fname_escape_prefix(s, j + 1, s.len() as int);
        let pre = fname_escape(s, j);
        assert(fname_escape(s, j + 1) == pre + seq![92u8, s[j]]);
        assert(fname_escape(s, j + 1)[pre.len() as int] == 92u8);
    }
    assert(pos.len() == s.len());
}

/// "fnameescape({string})": a backslash before each character special in a
/// file name argument (and before a leading '+' or '>').
pub fn f_fnameescape(argvars: &[typval_T], rettv: &mut typval_T)
    requires argvars@.len() >= 1,
    ensures
        final(rettv)@ == str_tv(fname_escape(string_or_empty(argvars@[0]@), string_or_empty(argvars@[0]@).len() as int)),
{
    let name = tv_get_string(&argvars[0]);
    let mut out: Vec<u8> = Vec::new();
    let mut j: usize = 0;
    while j < name.len()
        invariant j <= name@.len(), out@ == fname_escape(name@, j as int),
        decreases name.len() - j,
    {
        let b = name[j];
        let special = b == 32 || b == 9 || b == 10 || b == 42 || b == 63 || b == 91 || b == 123 || b == 96 || b == 36
            || b == 92 || b == 37 || b == 35 || b == 39 || b == 34 || b == 124 || b == 33 || b == 60;
        let ghost before = out@;
        if special || (j == 0 && (b == 43 || b == 62)) {
            out.push(92u8);
        }
        out.push(b);
        assert(out@ =~= fname_escape(name@, j as int + 1));
        j += 1;
    }
    *rettv = string_tv(out);
}

// ── shellescape() ──

/// The first `n` bytes of `s` inside single quotes: a quote becomes
/// `'\''`, and with `special` a backslash goes before '!', '%', '#' and a
/// newline.
pub open spec fn shell_body(s: Seq<u8>, special: bool, n: int) -> Seq<u8>
    decreases n,
{
    if n <= 0 { Seq::empty() } else {
        let b = s[n - 1];
        shell_body(s, special, n - 1) + if b == 39u8 {
            seq![39u8, 92u8, 39u8, 39u8]
        } else if special && (b == 33 || b == 37 || b == 35 || b == 10) {
            seq![92u8, b]
        } else {
            seq![b]
        }
    }
}

/// "shellescape()" of a string with no single quote, and, when `special`
/// is set, none of '!', '%', '#' or a newline, is the string itself
/// between single quotes.
pub proof fn lemma_shellescape_plain(s: Seq<u8>, special: bool, n: int)
    requires
        0 <= n <= s.len(),
        forall|i: int| 0 <= i < n ==> #[trigger] s[i] != 39u8,
        special ==> forall|i: int| 0 <= i < n ==> (#[trigger] s[i] != 33u8 && s[i] != 37u8 && s[i] != 35u8 && s[i] != 10u8),
    ensures shell_body(s, special, n) == s.subrange(0, n),
    decreases n,
{
    if n > 0 {
        lemma_shellescape_plain(s, special, n - 1);
        assert(s[n - 1] != 39u8);
        assert(s.subrange(0, n) =~= s.subrange(0, n - 1) + seq![s[n - 1]]);
    } else {
        assert(s.subrange(0, 0) =~= Seq::<u8>::empty());
    }
}

/// "shellescape({string} [, {special}])": the string as one single-quoted
/// shell word.
pub fn f_shellescape(argvars: &[typval_T], rettv: &mut typval_T)
    requires argvars@.len() >= 1,
    ensures ({
        let s = string_or_empty(argvars@[0]@);
        let special = argvars@.len() >= 2 && number_chk_result(argvars@[1]@, false) != 0;
        final(rettv)@ == str_tv(seq![39u8] + shell_body(s, special, s.len() as int) + seq![39u8])
    }),
{
    let s = tv_get_string(&argvars[0]);
    let special = argvars.len() >= 2 && tv_get_number_chk(&argvars[1], None) != 0;
    let mut out: Vec<u8> = Vec::new();
    out.push(39u8);
    let mut j: usize = 0;
    while j < s.len()
        invariant j <= s@.len(), out@ == seq![39u8] + shell_body(s@, special, j as int),
        decreases s.len() - j,
    {
        let b = s[j];
        if b == 39u8 {
            out.push(39u8);
            out.push(92u8);
            out.push(39u8);
            out.push(39u8);
        } else {
            if special && (b == 33 || b == 37 || b == 35 || b == 10) {
                out.push(92u8);
            }
            out.push(b);
        }
        assert(out@ =~= seq![39u8] + shell_body(s@, special, j as int + 1));
        j += 1;
    }
    let ghost body = out@;
    out.push(39u8);
    assert(out@ =~= body + seq![39u8]);
    *rettv = string_tv(out);
}

// ── iconv() ──

/// The encoding families "iconv()" knows: 0 UTF-8, 1 Latin-1, 2 other.
pub open spec fn enc_family(e: Seq<u8>) -> int {
    let l = ascii_lower(e);
    if l == seq![117u8, 116, 102, 45, 56] || l == seq![117u8, 116, 102, 56] || l == seq![117u8, 110, 105, 99, 111, 100, 101] {
        0
    } else if l == seq![108u8, 97, 116, 105, 110, 49] || l == seq![105u8, 115, 111, 45, 56, 56, 53, 57, 45, 49]
        || l == seq![56u8, 98, 105, 116, 45, 105, 115, 111, 45, 56, 56, 53, 57, 45, 49] {
        1
    } else {
        2
    }
}

fn enc_family_exec(e: &[u8]) -> (r: u8)
    ensures r as int == enc_family(e@),
{
    let l = ascii_lower_exec(e);
    let u1: [u8; 5] = [117u8, 116, 102, 45, 56];
    let u2: [u8; 4] = [117u8, 116, 102, 56];
    let u3: [u8; 7] = [117u8, 110, 105, 99, 111, 100, 101];
    let l1: [u8; 6] = [108u8, 97, 116, 105, 110, 49];
    let l2: [u8; 10] = [105u8, 115, 111, 45, 56, 56, 53, 57, 45, 49];
    let l3: [u8; 15] = [56u8, 98, 105, 116, 45, 105, 115, 111, 45, 56, 56, 53, 57, 45, 49];
    assert(u1@ =~= seq![117u8, 116, 102, 45, 56] && u2@ =~= seq![117u8, 116, 102, 56] && u3@ =~= seq![117u8, 110, 105, 99, 111, 100, 101]);
    assert(l1@ =~= seq![108u8, 97, 116, 105, 110, 49] && l2@ =~= seq![105u8, 115, 111, 45, 56, 56, 53, 57, 45, 49]);
    assert(l3@ =~= seq![56u8, 98, 105, 116, 45, 105, 115, 111, 45, 56, 56, 53, 57, 45, 49]);
    if bytes_eq(l.as_slice(), &u1) || bytes_eq(l.as_slice(), &u2) || bytes_eq(l.as_slice(), &u3) {
        0
    } else if bytes_eq(l.as_slice(), &l1) || bytes_eq(l.as_slice(), &l2) || bytes_eq(l.as_slice(), &l3) {
        1
    } else {
        2
    }
}

/// The first `n` characters with each above U+00FF made '?'.
pub open spec fn to_latin1(cs: Seq<Seq<u8>>, n: int) -> Seq<u8>
    decreases n,
{
    if n <= 0 { Seq::empty() } else {
        to_latin1(cs, n - 1) + if first_char_code(cs[n - 1]) <= 255 { cs[n - 1] } else { seq![63u8] }
    }
}

/// What "iconv()" gives for text `s` from `from` to `to`: UTF-8 to Latin-1
/// makes each character above U+00FF a '?'; every other pairing keeps the
/// text.
pub open spec fn iconv_spec(s: Seq<u8>, from: Seq<u8>, to: Seq<u8>) -> Seq<u8> {
    if enc_family(from) == 0 && enc_family(to) == 1 {
        to_latin1(utf8_split(s), utf8_split(s).len() as int)
    } else {
        s
    }
}

/// "iconv({string}, {from}, {to})": the text converted (see `iconv_spec`).
pub fn f_iconv(argvars: &[typval_T], rettv: &mut typval_T)
    requires argvars@.len() >= 3,
    ensures
        final(rettv)@ == with_string(old(rettv)@, iconv_spec(string_or_empty(argvars@[0]@),
            string_or_empty(argvars@[1]@), string_or_empty(argvars@[2]@))),
{
    rettv.v_type = VarType::VAR_STRING;
    let s = tv_get_string(&argvars[0]);
    let from = enc_family_exec(tv_get_string(&argvars[1]).as_slice());
    let to = enc_family_exec(tv_get_string(&argvars[2]).as_slice());
    let out = if from == 0 && to == 1 {
        let cs = utf8_chars(s.as_slice());
        let ghost gc = names_view(cs@);
        assert(gc =~= utf8_split(s@));
        let mut o: Vec<u8> = Vec::new();
        let mut k: usize = 0;
        while k < cs.len()
            invariant k <= cs@.len(), gc == names_view(cs@), o@ == to_latin1(gc, k as int),
            decreases cs.len() - k,
        {
            let ghost before = o@;
            if first_code_exec(cs[k].as_slice()) <= 255 {
                append_bytes(&mut o, cs[k].as_slice());
            } else {
                o.push(63u8);
            }
            assert(o@ =~= to_latin1(gc, k as int + 1));
            k += 1;
        }
        o
    } else {
        s
    };
    rettv.vval = typval_vval_union::v_string(out);
}

// ── gettext() ──

/// "gettext({text})": no message catalog, so the text itself; for anything
/// but a String nothing changes.
pub fn f_gettext(argvars: &[typval_T], rettv: &mut typval_T)
    ensures
        final(rettv)@ == if arg_type_spec(argvars@, 0) == Some(VarType::VAR_STRING) {
            str_tv(string_or_empty(argvars@[0]@))
        } else {
            old(rettv)@
        },
{
    if tv_check_for_string_arg(argvars, 0) == FAIL {
        return;
    }
    *rettv = string_tv(tv_get_string(&argvars[0]));
}

// ── getbufvar() and friends ──

/// The `{def}` argument at `idx`, or "" where it is absent.
pub open spec fn var_default(a: Seq<typval_T>, idx: int) -> TypVal {
    if 0 <= idx < a.len() && a[idx]@.ty != VarType::VAR_UNKNOWN { a[idx]@ } else { str_tv(Seq::empty()) }
}

/// The value of a scoped variable that is never there: `{def}` or "".
pub fn get_var_from(argvars: &[typval_T], idx: usize) -> (r: typval_T)
    ensures r@ == var_default(argvars@, idx as int),
{
    if idx < argvars.len() && argvars[idx].v_type != VarType::VAR_UNKNOWN {
        tv_dup(&argvars[idx])
    } else {
        string_tv(Vec::new())
    }
}

/// "getbufvar({buf}, {name} [, {def}])": no buffers: `{def}` or "".
pub fn f_getbufvar(argvars: &[typval_T], rettv: &mut typval_T)
    ensures final(rettv)@ == var_default(argvars@, 2),
{
    *rettv = get_var_from(argvars, 2);
}

/// "getwinvar({win}, {name} [, {def}])": no windows: `{def}` or "".
pub fn f_getwinvar(argvars: &[typval_T], rettv: &mut typval_T)
    ensures final(rettv)@ == var_default(argvars@, 2),
{
    *rettv = get_var_from(argvars, 2);
}

/// "gettabvar({tab}, {name} [, {def}])": no tab pages: `{def}` or "".
pub fn f_gettabvar(argvars: &[typval_T], rettv: &mut typval_T)
    ensures final(rettv)@ == var_default(argvars@, 2),
{
    *rettv = get_var_from(argvars, 2);
}

/// "gettabwinvar({tab}, {win}, {name} [, {def}])": `{def}` or "".
pub fn f_gettabwinvar(argvars: &[typval_T], rettv: &mut typval_T)
    ensures final(rettv)@ == var_default(argvars@, 3),
{
    *rettv = get_var_from(argvars, 3);
}

// ── fullcommand() ──

/// How many Ex commands "fullcommand()" knows.
pub open spec fn cmd_count() -> int { 34 }

/// The shortest abbreviation of known command `k`, in the order tried.
pub open spec fn cmd_min(k: int) -> Seq<u8> {
    if k == 0 {
        seq![112u8, 114, 105, 110, 116, 102]
    } else if k == 1 {
        seq![101u8]
    } else if k == 2 {
        seq![101u8, 99]
    } else if k == 3 {
        seq![101u8, 99, 104, 111, 109]
    } else if k == 4 {
        seq![119u8]
    } else if k == 5 {
        seq![119u8, 113]
    } else if k == 6 {
        seq![113u8]
    } else if k == 7 {
        seq![113u8, 97]
    } else if k == 8 {
        seq![115u8]
    } else if k == 9 {
        seq![115u8, 112]
    } else if k == 10 {
        seq![115u8, 101]
    } else if k == 11 {
        seq![115u8, 111]
    } else if k == 12 {
        seq![103u8]
    } else if k == 13 {
        seq![110u8, 111, 114, 109]
    } else if k == 14 {
        seq![118u8, 115]
    } else if k == 15 {
        seq![98u8]
    } else if k == 16 {
        seq![98u8, 110]
    } else if k == 17 {
        seq![98u8, 112]
    } else if k == 18 {
        seq![100u8]
    } else if k == 19 {
        seq![121u8]
    } else if k == 20 {
        seq![112u8, 117]
    } else if k == 21 {
        seq![99u8, 111]
    } else if k == 22 {
        seq![109u8]
    } else if k == 23 {
        seq![114u8]
    } else if k == 24 {
        seq![108u8, 101, 116]
    } else if k == 25 {
        seq![99u8, 97, 108]
    } else if k == 26 {
        seq![102u8, 117]
    } else if k == 27 {
        seq![114u8, 101, 116, 117]
    } else if k == 28 {
        seq![105u8, 102]
    } else if k == 29 {
        seq![102u8, 111, 114]
    } else if k == 30 {
        seq![119u8, 104]
    } else if k == 31 {
        seq![116u8, 114, 121]
    } else if k == 32 {
        seq![97u8, 117]
    } else if k == 33 {
        seq![99u8, 111, 109]
    } else {
        Seq::empty()
    }
}

/// The full name of known command `k`.
pub open spec fn cmd_full(k: int) -> Seq<u8> {
    if k == 0 {
        seq![112u8, 114, 105, 110, 116, 102]
    } else if k == 1 {
        seq![101u8, 100, 105, 116]
    } else if k == 2 {
        seq![101u8, 99, 104, 111]
    } else if k == 3 {
        seq![101u8, 99, 104, 111, 109, 115, 103]
    } else if k == 4 {
        seq![119u8, 114, 105, 116, 101]
    } else if k == 5 {
        seq![119u8, 113]
    } else if k == 6 {
        seq![113u8, 117, 105, 116]
    } else if k == 7 {
        seq![113u8, 117, 105, 116, 97, 108, 108]
    } else if k == 8 {
        seq![115u8, 117, 98, 115, 116, 105, 116, 117, 116, 101]
    } else if k == 9 {
        seq![115u8, 112, 108, 105, 116]
    } else if k == 10 {
        seq![115u8, 101, 116]
    } else if k == 11 {
        seq![115u8, 111, 117, 114, 99, 101]
    } else if k == 12 {
        seq![103u8, 108, 111, 98, 97, 108]
    } else if k == 13 {
        seq![110u8, 111, 114, 109, 97, 108]
    } else if k == 14 {
        seq![118u8, 115, 112, 108, 105, 116]
    } else if k == 15 {
        seq![98u8, 117, 102, 102, 101, 114]
    } else if k == 16 {
        seq![98u8, 110, 101, 120, 116]
    } else if k == 17 {
        seq![98u8, 112, 114, 101, 118, 105, 111, 117, 115]
    } else if k == 18 {
        seq![100u8, 101, 108, 101, 116, 101]
    } else if k == 19 {
        seq![121u8, 97, 110, 107]
    } else if k == 20 {
        seq![112u8, 117, 116]
    } else if k == 21 {
        seq![99u8, 111, 112, 121]
    } else if k == 22 {
        seq![109u8, 111, 118, 101]
    } else if k == 23 {
        seq![114u8, 101, 97, 100]
    } else if k == 24 {
        seq![108u8, 101, 116]
    } else if k == 25 {
        seq![99u8, 97, 108, 108]
    } else if k == 26 {
        seq![102u8, 117, 110, 99, 116, 105, 111, 110]
    } else if k == 27 {
        seq![114u8, 101, 116, 117, 114, 110]
    } else if k == 28 {
        seq![105u8, 102]
    } else if k == 29 {
        seq![102u8, 111, 114]
    } else if k == 30 {
        seq![119u8, 104, 105, 108, 101]
    } else if k == 31 {
        seq![116u8, 114, 121]
    } else if k == 32 {
        seq![97u8, 117, 116, 111, 99, 109, 100]
    } else if k == 33 {
        seq![99u8, 111, 109, 109, 97, 110, 100]
    } else {
        Seq::empty()
    }
}

fn cmd_pair(k: usize) -> (r: (Vec<u8>, Vec<u8>))
    ensures r.0@ == cmd_min(k as int), r.1@ == cmd_full(k as int),
{
    if k == 0 {
        let a: Vec<u8> = vec![112u8, 114, 105, 110, 116, 102];
        let b: Vec<u8> = vec![112u8, 114, 105, 110, 116, 102];
        assert(a@ =~= seq![112u8, 114, 105, 110, 116, 102] && b@ =~= seq![112u8, 114, 105, 110, 116, 102]);
        (a, b)
    } else if k == 1 {
        let a: Vec<u8> = vec![101u8];
        let b: Vec<u8> = vec![101u8, 100, 105, 116];
        assert(a@ =~= seq![101u8] && b@ =~= seq![101u8, 100, 105, 116]);
        (a, b)
    } else if k == 2 {
        let a: Vec<u8> = vec![101u8, 99];
        let b: Vec<u8> = vec![101u8, 99, 104, 111];
        assert(a@ =~= seq![101u8, 99] && b@ =~= seq![101u8, 99, 104, 111]);
        (a, b)
    } else if k == 3 {
        let a: Vec<u8> = vec![101u8, 99, 104, 111, 109];
        let b: Vec<u8> = vec![101u8, 99, 104, 111, 109, 115, 103];
        assert(a@ =~= seq![101u8, 99, 104, 111, 109] && b@ =~= seq![101u8, 99, 104, 111, 109, 115, 103]);
        (a, b)
    } else if k == 4 {
        let a: Vec<u8> = vec![119u8];
        let b: Vec<u8> = vec![119u8, 114, 105, 116, 101];
        assert(a@ =~= seq![119u8] && b@ =~= seq![119u8, 114, 105, 116, 101]);
        (a, b)
    } else if k == 5 {
        let a: Vec<u8> = vec![119u8, 113];
        let b: Vec<u8> = vec![119u8, 113];
        assert(a@ =~= seq![119u8, 113] && b@ =~= seq![119u8, 113]);
        (a, b)
    } else if k == 6 {
        let a: Vec<u8> = vec![113u8];
        let b: Vec<u8> = vec![113u8, 117, 105, 116];
        assert(a@ =~= seq![113u8] && b@ =~= seq![113u8, 117, 105, 116]);
        (a, b)
    } else if k == 7 {
        let a: Vec<u8> = vec![113u8, 97];
        let b: Vec<u8> = vec![113u8, 117, 105, 116, 97, 108, 108];
        assert(a@ =~= seq![113u8, 97] && b@ =~= seq![113u8, 117, 105, 116, 97, 108, 108]);
        (a, b)
    } else if k == 8 {
        let a: Vec<u8> = vec![115u8];
        let b: Vec<u8> = vec![115u8, 117, 98, 115, 116, 105, 116, 117, 116, 101];
        assert(a@ =~= seq![115u8] && b@ =~= seq![115u8, 117, 98, 115, 116, 105, 116, 117, 116, 101]);
        (a, b)
    } else if k == 9 {
        let a: Vec<u8> = vec![115u8, 112];
        let b: Vec<u8> = vec![115u8, 112, 108, 105, 116];
        assert(a@ =~= seq![115u8, 112] && b@ =~= seq![115u8, 112, 108, 105, 116]);
        (a, b)
    } else if k == 10 {
        let a: Vec<u8> = vec![115u8, 101];
        let b: Vec<u8> = vec![115u8, 101, 116];
        assert(a@ =~= seq![115u8, 101] && b@ =~= seq![115u8, 101, 116]);
        (a, b)
    } else if k == 11 {
        let a: Vec<u8> = vec![115u8, 111];
        let b: Vec<u8> = vec![115u8, 111, 117, 114, 99, 101];
        assert(a@ =~= seq![115u8, 111] && b@ =~= seq![115u8, 111, 117, 114, 99, 101]);
        (a, b)
    } else if k == 12 {
        let a: Vec<u8> = vec![103u8];
        let b: Vec<u8> = vec![103u8, 108, 111, 98, 97, 108];
        assert(a@ =~= seq![103u8] && b@ =~= seq![103u8, 108, 111, 98, 97, 108]);
        (a, b)
    } else if k == 13 {
        let a: Vec<u8> = vec![110u8, 111, 114, 109];
        let b: Vec<u8> = vec![110u8, 111, 114, 109, 97, 108];
        assert(a@ =~= seq![110u8, 111, 114, 109] && b@ =~= seq![110u8, 111, 114, 109, 97, 108]);
        (a, b)
    } else if k == 14 {
        let a: Vec<u8> = vec![118u8, 115];
        let b: Vec<u8> = vec![118u8, 115, 112, 108, 105, 116];
        assert(a@ =~= seq![118u8, 115] && b@ =~= seq![118u8, 115, 112, 108, 105, 116]);
        (a, b)
    } else if k == 15 {
        let a: Vec<u8> = vec![98u8];
        let b: Vec<u8> = vec![98u8, 117, 102, 102, 101, 114];
        assert(a@ =~= seq![98u8] && b@ =~= seq![98u8, 117, 102, 102, 101, 114]);
        (a, b)
    } else if k == 16 {
        let a: Vec<u8> = vec![98u8, 110];
        let b: Vec<u8> = vec![98u8, 110, 101, 120, 116];
        assert(a@ =~= seq![98u8, 110] && b@ =~= seq![98u8, 110, 101, 120, 116]);
        (a, b)
    } else if k == 17 {
        let a: Vec<u8> = vec![98u8, 112];
        let b: Vec<u8> = vec![98u8, 112, 114, 101, 118, 105, 111, 117, 115];
        assert(a@ =~= seq![98u8, 112] && b@ =~= seq![98u8, 112, 114, 101, 118, 105, 111, 117, 115]);
        (a, b)
    } else if k == 18 {
        let a: Vec<u8> = vec![100u8];
        let b: Vec<u8> = vec![100u8, 101, 108, 101, 116, 101];
        assert(a@ =~= seq![100u8] && b@ =~= seq![100u8, 101, 108, 101, 116, 101]);
        (a, b)
    } else if k == 19 {
        let a: Vec<u8> = vec![121u8];
        let b: Vec<u8> = vec![121u8, 97, 110, 107];
        assert(a@ =~= seq![121u8] && b@ =~= seq![121u8, 97, 110, 107]);
        (a, b)
    } else if k == 20 {
        let a: Vec<u8> = vec![112u8, 117];
        let b: Vec<u8> = vec![112u8, 117, 116];
        assert(a@ =~= seq![112u8, 117] && b@ =~= seq![112u8, 117, 116]);
        (a, b)
    } else if k == 21 {
        let a: Vec<u8> = vec![99u8, 111];
        let b: Vec<u8> = vec![99u8, 111, 112, 121];
        assert(a@ =~= seq![99u8, 111] && b@ =~= seq![99u8, 111, 112, 121]);
        (a, b)
    } else if k == 22 {
        let a: Vec<u8> = vec![109u8];
        let b: Vec<u8> = vec![109u8, 111, 118, 101];
        assert(a@ =~= seq![109u8] && b@ =~= seq![109u8, 111, 118, 101]);
        (a, b)
    } else if k == 23 {
        let a: Vec<u8> = vec![114u8];
        let b: Vec<u8> = vec![114u8, 101, 97, 100];
        assert(a@ =~= seq![114u8] && b@ =~= seq![114u8, 101, 97, 100]);
        (a, b)
    } else if k == 24 {
        let a: Vec<u8> = vec![108u8, 101, 116];
        let b: Vec<u8> = vec![108u8, 101, 116];
        assert(a@ =~= seq![108u8, 101, 116] && b@ =~= seq![108u8, 101, 116]);
        (a, b)
    } else if k == 25 {
        let a: Vec<u8> = vec![99u8, 97, 108];
        let b: Vec<u8> = vec![99u8, 97, 108, 108];
        assert(a@ =~= seq![99u8, 97, 108] && b@ =~= seq![99u8, 97, 108, 108]);
        (a, b)
    } else if k == 26 {
        let a: Vec<u8> = vec![102u8, 117];
        let b: Vec<u8> = vec![102u8, 117, 110, 99, 116, 105, 111, 110];
        assert(a@ =~= seq![102u8, 117] && b@ =~= seq![102u8, 117, 110, 99, 116, 105, 111, 110]);
        (a, b)
    } else if k == 27 {
        let a: Vec<u8> = vec![114u8, 101, 116, 117];
        let b: Vec<u8> = vec![114u8, 101, 116, 117, 114, 110];
        assert(a@ =~= seq![114u8, 101, 116, 117] && b@ =~= seq![114u8, 101, 116, 117, 114, 110]);
        (a, b)
    } else if k == 28 {
        let a: Vec<u8> = vec![105u8, 102];
        let b: Vec<u8> = vec![105u8, 102];
        assert(a@ =~= seq![105u8, 102] && b@ =~= seq![105u8, 102]);
        (a, b)
    } else if k == 29 {
        let a: Vec<u8> = vec![102u8, 111, 114];
        let b: Vec<u8> = vec![102u8, 111, 114];
        assert(a@ =~= seq![102u8, 111, 114] && b@ =~= seq![102u8, 111, 114]);
        (a, b)
    } else if k == 30 {
        let a: Vec<u8> = vec![119u8, 104];
        let b: Vec<u8> = vec![119u8, 104, 105, 108, 101];
        assert(a@ =~= seq![119u8, 104] && b@ =~= seq![119u8, 104, 105, 108, 101]);
        (a, b)
    } else if k == 31 {
        let a: Vec<u8> = vec![116u8, 114, 121];
        let b: Vec<u8> = vec![116u8, 114, 121];
        assert(a@ =~= seq![116u8, 114, 121] && b@ =~= seq![116u8, 114, 121]);
        (a, b)
    } else if k == 32 {
        let a: Vec<u8> = vec![97u8, 117];
        let b: Vec<u8> = vec![97u8, 117, 116, 111, 99, 109, 100];
        assert(a@ =~= seq![97u8, 117] && b@ =~= seq![97u8, 117, 116, 111, 99, 109, 100]);
        (a, b)
    } else if k == 33 {
        let a: Vec<u8> = vec![99u8, 111, 109];
        let b: Vec<u8> = vec![99u8, 111, 109, 109, 97, 110, 100];
        assert(a@ =~= seq![99u8, 111, 109] && b@ =~= seq![99u8, 111, 109, 109, 97, 110, 100]);
        (a, b)
    } else {
        (Vec::new(), Vec::new())
    }
}

/// The position after the leading ':' and ' ' from `i` on.
pub open spec fn skip_colons(s: Seq<u8>, i: int) -> int
    decreases s.len() - i,
{
    if 0 <= i < s.len() && (s[i] == 58u8 || s[i] == 32u8) { skip_colons(s, i + 1) } else { i }
}

/// The end once the trailing '!' down to `lo` are dropped.
pub open spec fn drop_bangs(s: Seq<u8>, lo: int, e: int) -> int
    decreases e - lo,
{
    if lo < e && e <= s.len() && s[e - 1] == 33u8 { drop_bangs(s, lo, e - 1) } else { e }
}

/// The command name "fullcommand()" looks up: without leading ':' and ' '
/// and trailing '!'.
pub open spec fn bare_cmd(s: Seq<u8>) -> Seq<u8> {
    let a = skip_colons(s, 0);
    s.subrange(a, drop_bangs(s, a, s.len() as int))
}

/// The full name of the first command from `k` on that `name` abbreviates
/// (at least its shortest form, and a prefix of its full name), or "".
pub open spec fn find_cmd(name: Seq<u8>, k: int) -> Seq<u8>
    decreases cmd_count() - k,
{
    if k < 0 || k >= cmd_count() {
        Seq::empty()
    } else if starts_with(name, cmd_min(k)) && starts_with(cmd_full(k), name) {
        cmd_full(k)
    } else {
        find_cmd(name, k + 1)
    }
}

/// "fullcommand({name})": the full name of an Ex command (see `find_cmd`);
/// "" for an empty name or none found.
pub fn f_fullcommand(argvars: &[typval_T], rettv: &mut typval_T)
    requires argvars@.len() >= 1,
    ensures ({
        let n = bare_cmd(string_or_empty(argvars@[0]@));
        final(rettv)@ == with_string(old(rettv)@, if n.len() == 0 { Seq::empty() } else { find_cmd(n, 0) })
    }),
{
    rettv.v_type = VarType::VAR_STRING;
    let s = tv_get_string(&argvars[0]);
    let mut a: usize = 0;
    while a < s.len() && (s[a] == 58u8 || s[a] == 32u8)
        invariant a <= s@.len(), skip_colons(s@, a as int) == skip_colons(s@, 0),
        decreases s.len() - a,
    {
        a += 1;
    }
    let mut e: usize = s.len();
    while a < e && s[e - 1] == 33u8
        invariant a <= e <= s@.len(), drop_bangs(s@, a as int, e as int) == drop_bangs(s@, a as int, s@.len() as int),
        decreases e - a,
    {
        e -= 1;
    }
    let name = &s[a..e];
    assert(name@ =~= bare_cmd(s@));
    if name.len() == 0 {
        rettv.vval = typval_vval_union::v_string(Vec::new());
        return;
    }
    let mut k: usize = 0;
    while k < 34
        invariant
            k <= 34, cmd_count() == 34, find_cmd(name@, k as int) == find_cmd(name@, 0),
            name@ == bare_cmd(string_or_empty(argvars@[0]@)),
            rettv@.ty == VarType::VAR_STRING, rettv@.lock == old(rettv)@.lock,
        decreases 34 - k,
    {
        let (mn, full) = cmd_pair(k);
        if starts_with_exec(name, mn.as_slice()) && starts_with_exec(full.as_slice(), name) {
            rettv.vval = typval_vval_union::v_string(full);
            return;
        }
        k += 1;
    }
    rettv.vval = typval_vval_union::v_string(Vec::new());
}

/// "soundfold({word})": no spell file gives a sound folding, so the word.
pub fn f_soundfold(argvars: &[typval_T], rettv: &mut typval_T)
    requires argvars@.len() >= 1,
    ensures final(rettv)@ == with_string(old(rettv)@, string_or_empty(argvars@[0]@)),
{
    rettv.v_type = VarType::VAR_STRING;
    rettv.vval = typval_vval_union::v_string(tv_get_string(&argvars[0]));
}

} // verus!
