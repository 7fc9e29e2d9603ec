//! Builtins and helpers around command execution, evaluation and searching, with the outside work handed in by the caller.
use vstd::prelude::*;
use crate::typval_defs::{
    varnumber_T, OK, FAIL, VarType, VarLockStatus, BoolVarValue, SpecialVarValue, typval_vval_union,
    typval_T, list_T, dict_T, dictitem_T, blob_T, partial_T, Callback, DictWatcher, TypVal, VVal,
    ListVal, DictVal, BlobVal, CallbackVal, WatcherVal, tv_view, list_view, dict_view, items_view, dict_index_of,
    mk_tv, num_tv, str_tv, list_tv, blob_tv, dict_tv, empty_dict_val, dict_wf, keys_unique,
    lemma_items_view_ext, lemma_items_view_index, lemma_items_view_push, lemma_items_view_subrange,
    lemma_items_view_add, lemma_items_view_reverse, lemma_items_view_update, lemma_items_view_insert,
    lemma_items_view_remove, lemma_items_view_empty,
};
use crate::charset::{nr2str, nr2bytes, str2nr, str2nr_all};
use crate::dup::{bytes_dup, tv_dup, list_dup, dict_dup, blob_dup, items_dup, slice_to_vec, callback_dup, append_bytes};
use crate::typval::{
    number_of, number_chk_result, string_of, string_or_empty, tv_get_number_chk, tv_get_number,
    tv_get_bool, tv_get_string, tv_get_string_chk, tv_get_string_buf_chk, tv_equal, tv_equal_spec,
    bytes_eq, dict_find_index,
};
use crate::mbyte::bytes_between;
use crate::typval_list::lemma_items_view_index_all;
use crate::funcs_basic::{with_number, with_string, with_list, set_string, set_number, set_list};

verus! {

/// The part of a line that a block operation covers: padding spaces before,
/// the text, padding spaces after.
#[derive(Debug)]
pub struct block_def {
    pub startspaces: i32,
    pub endspaces: i32,
    pub textlen: i32,
    pub textcol: i32,
    /// Byte offset of the text in `line`.
    pub textstart_off: i32,
    pub is_oneChar: bool,
    pub start_vcol: i32,
    pub end_vcol: i32,
    pub start_char_vcols: i32,
    /// The line the text lies in.
    pub line: Vec<u8>,
}

impl Default for block_def {
    fn default() -> (r: Self)
        ensures r.startspaces == 0 && r.endspaces == 0 && r.textlen == 0 && r.textcol == 0 && r.textstart_off == 0
            && !r.is_oneChar && r.start_vcol == 0 && r.end_vcol == 0 && r.start_char_vcols == 0 && r.line@.len() == 0,
    {
        block_def { startspaces: 0, endspaces: 0, textlen: 0, textcol: 0, textstart_off: 0, is_oneChar: false,
            start_vcol: 0, end_vcol: 0, start_char_vcols: 0, line: Vec::new() }
    }
}

/// `n` spaces (none for `n <= 0`).
pub open spec fn spaces(n: int) -> Seq<u8> {
    Seq::new(if n > 0 { n as nat } else { 0 }, |i: int| 32u8)
}

/// The text of a block: the leading spaces, the covered bytes of the line
/// (clipped to the line), the trailing spaces.
pub open spec fn block_text(bd: block_def) -> Seq<u8> {
    let len = bd.line@.len() as int;
    let covered = if bd.textlen > 0 {
        let end = if bd.textstart_off + bd.textlen < len { bd.textstart_off + bd.textlen } else { len };
        let start = if bd.textstart_off < end { bd.textstart_off as int } else { end };
        bd.line@.subrange(start, end)
    } else {
        Seq::empty()
    };
    spaces(bd.startspaces as int) + covered + spaces(bd.endspaces as int)
}

fn push_spaces(out: &mut Vec<u8>, n: i32)
    ensures final(out)@ == old(out)@ + spaces(n as int),
{
    let ghost start = out@;
    let mut i: i32 = 0;
    while i < n
        invariant 0 <= i, n > 0 ==> i <= n, n <= 0 ==> i == 0, out@ == start + spaces(i as int),
        decreases n - i,
    {
        out.push(32u8);
        i += 1;
        assert(out@ =~= start + spaces(i as int));
    }
    assert(spaces(i as int) =~= spaces(n as int));
}

/// The text of a block as a String (see `block_text`).
pub fn block_def2str(bd: &block_def) -> (r: Vec<u8>)
    requires bd.textlen > 0 ==> bd.textstart_off >= 0,
    ensures r@ == block_text(*bd),
{
    let mut ret: Vec<u8> = Vec::new();
    push_spaces(&mut ret, bd.startspaces);
    if bd.textlen > 0 {
        let len = bd.line.len();
        let off = bd.textstart_off as usize;
        let tl = bd.textlen as usize;
        let end = if (off as u64) + (tl as u64) < (len as u64) { off + tl } else { len };
        let start = if off < end { off } else { end };
        append_bytes(&mut ret, bytes_between(bd.line.as_slice(), start, end).as_slice());
    }
    push_spaces(&mut ret, bd.endspaces);
    ret
}

/// Search direction: forward.
pub const FORWARD: i32 = 1;
/// Search direction: backward.
pub const BACKWARD: i32 = -1;

/// Search flag: do not move the cursor.
pub const SP_NOMOVE: i32 = 0x01;
/// Search flag: repeat to find an outer pair.
pub const SP_REPEAT: i32 = 0x02;
/// Search flag: return the number of matches.
pub const SP_RETCOUNT: i32 = 0x04;
/// Search flag: set the previous context mark.
pub const SP_SETPCMARK: i32 = 0x08;
/// Search flag: accept a match at the start position.
pub const SP_START: i32 = 0x10;
/// Search flag: return the number of the matching sub-pattern.
pub const SP_SUBPAT: i32 = 0x20;
/// Search flag: leave the cursor at the end of the match.
pub const SP_END: i32 = 0x40;
/// Search flag: start at the cursor column.
pub const SP_COLUMN: i32 = 0x80;

/// The flag bit of a search flag character, 0 for an unknown one.
pub open spec fn search_flag_bit(c: u8) -> i32 {
    if c == 99 { SP_START } else if c == 101 { SP_END } else if c == 109 { SP_RETCOUNT }
    else if c == 110 { SP_NOMOVE } else if c == 112 { SP_SUBPAT } else if c == 114 { SP_REPEAT }
    else if c == 115 { SP_SETPCMARK } else if c == 122 { SP_COLUMN } else { 0 }
}

/// The state `get_search_arg()` has after reading the flag characters
/// `f[0..n]`: direction (0 after a bad flag, where reading stops), flag bits,
/// and 'wrapscan'.
pub open spec fn search_args_upto(f: Seq<u8>, n: int, has_flags: bool, ws: bool) -> (i32, i32, bool)
    decreases n,
{
    if n <= 0 {
        (FORWARD, 0, ws)
    } else {
        let (dir, flags, w) = search_args_upto(f, n - 1, has_flags, ws);
        if dir == 0 {
            (dir, flags, w)
        } else {
            let c = f[n - 1];
            if c == 98 { (BACKWARD, flags, w) }
            else if c == 119 { (dir, flags, true) }
            else if c == 87 { (dir, flags, false) }
            else {
                let mask = if has_flags { search_flag_bit(c) } else { 0 };
                if mask == 0 { (0, flags, w) } else { (dir, flags | mask, w) }
            }
        }
    }
}

fn search_flag_bit_exec(c: u8) -> (r: i32)
    ensures r == search_flag_bit(c),
{
    if c == 99 { SP_START } else if c == 101 { SP_END } else if c == 109 { SP_RETCOUNT }
    else if c == 110 { SP_NOMOVE } else if c == 112 { SP_SUBPAT } else if c == 114 { SP_REPEAT }
    else if c == 115 { SP_SETPCMARK } else if c == 122 { SP_COLUMN } else { 0 }
}

/// Read the flags argument of a `search*()` builtin: `b` searches backward,
/// `w`/`W` turn 'wrapscan' on/off, and (when `flagsp` is given) `c e m n p r s z`
/// add their `SP_*` bits. Returns the direction, or 0 for a bad flag (or a
/// value that is not a String); an absent argument is a forward search. The
/// bits of the flags read before a bad one are still added.
#[verifier::loop_isolation(false)]
pub fn get_search_arg(varp: &typval_T, flagsp: Option<&mut i32>, p_ws: &mut bool) -> (dir: i32)
    ensures
        varp.v_type == VarType::VAR_UNKNOWN ==> dir == FORWARD && *final(p_ws) == *old(p_ws)
            && (match flagsp { Some(f) => *final(f) == *f, None => true }),
        varp.v_type != VarType::VAR_UNKNOWN && string_of(varp@) is None ==> dir == 0 && *final(p_ws) == *old(p_ws)
            && (match flagsp { Some(f) => *final(f) == *f, None => true }),
        varp.v_type != VarType::VAR_UNKNOWN && string_of(varp@) is Some ==> ({
            let f = string_of(varp@)->Some_0;
            let (d, bits, w) = search_args_upto(f, f.len() as int, flagsp is Some, *old(p_ws));
            &&& dir == d
            &&& *final(p_ws) == w
            &&& match flagsp { Some(fl) => *final(fl) == *fl | bits, None => true }
        }),
{
    if varp.v_type == VarType::VAR_UNKNOWN {
        return FORWARD;
    }
    let flags = match tv_get_string_buf_chk(varp) {
        Some(f) => f,
        None => { return 0; },
    };
    let has = flagsp.is_some();
    let mut dir: i32 = FORWARD;
    let mut bits: i32 = 0;
    let mut i: usize = 0;
    let ghost ws0 = *p_ws;
    while i < flags.len()
        invariant
            i <= flags@.len(),
            (dir, bits, *p_ws) == search_args_upto(flags@, i as int, has, ws0),
            dir != 0,
        decreases flags@.len() - i,
    {
        let c = flags[i];
        if c == 98u8 {
            dir = BACKWARD;
        } else if c == 119u8 {
            *p_ws = true;
        } else if c == 87u8 {
            *p_ws = false;
        } else {
            let mask = if has { search_flag_bit_exec(c) } else { 0 };
            if mask == 0 {
                proof {
                    assert(search_args_upto(flags@, i + 1, has, ws0) == (0i32, bits, *p_ws));
                    lemma_search_args_stop(flags@, i + 1, flags@.len() as int, has, ws0);
                }
                match flagsp {
                    Some(f) => { *f = *f | bits; },
                    None => {},
                }
                return 0;
            }
            bits = bits | mask;
        }
        i += 1;
    }
    match flagsp {
        Some(f) => { *f = *f | bits; },
        None => {},
    }
    dir
}

proof fn lemma_search_args_stop(f: Seq<u8>, i: int, n: int, has: bool, ws: bool)
    requires 0 <= i <= n, search_args_upto(f, i, has, ws).0 == 0,
    ensures search_args_upto(f, n, has, ws) == search_args_upto(f, i, has, ws),
    decreases n - i,
{
    if n > i {
        lemma_search_args_stop(f, i, n - 1, has, ws);
    }
}

/// Lines joined with newlines.
pub open spec fn join_lines(lines: Seq<Seq<u8>>) -> Seq<u8>
    decreases lines.len(),
{
    if lines.len() == 0 {
        Seq::empty()
    } else if lines.len() == 1 {
        lines[0]
    } else {
        join_lines(lines.drop_last()) + seq![10u8] + lines.last()
    }
}

/// The command text `execute()` runs for its first argument: a List gives
/// its items' Strings joined by newlines, anything else its String; a missing
/// List gives none.
pub open spec fn execute_cmd(a: TypVal) -> Option<Seq<u8>> {
    if a.ty == VarType::VAR_LIST {
        match a.v {
            VVal::List(Some(l)) => Some(join_lines(Seq::new(l.items.len(), |i: int| string_or_empty(l.items[i])))),
            _ => None,
        }
    } else {
        Some(string_or_empty(a))
    }
}

/// The Strings of `items` joined by newlines.
pub fn join_item_strings(items: &Vec<typval_T>) -> (r: Vec<u8>)
    ensures r@ == join_lines(Seq::new(items@.len(), |i: int| string_or_empty(items@[i]@))),
{
    let ghost lines = Seq::new(items@.len(), |i: int| string_or_empty(items@[i]@));
    let mut out: Vec<u8> = Vec::new();
    let mut i: usize = 0;
    while i < items.len()
        invariant
            i <= items@.len(),
            lines == Seq::new(items@.len(), |k: int| string_or_empty(items@[k]@)),
            out@ == join_lines(lines.subrange(0, i as int)),
        decreases items@.len() - i,
    {
        let s = tv_get_string(&items[i]);
        if i > 0 {
            out.push(10u8);
        }
        append_bytes(&mut out, s.as_slice());
        proof {
            let sub = lines.subrange(0, i + 1);
            assert(sub.drop_last() =~= lines.subrange(0, i as int));
            if i == 0 {
                assert(join_lines(lines.subrange(0, 0)) =~= Seq::<u8>::empty());
            }
        }
        i += 1;
    }
    assert(lines.subrange(0, i as int) =~= lines);
    out
}

/// Run a command (or the lines of a List) through `run` and make `rettv`
/// the String of what it printed. When the second argument is given it must
/// be a String (`"silent"` and the like); otherwise nothing happens. Without
/// a runner, or without a List to run, the output is empty.
pub fn execute_common<F: Fn(Vec<u8>) -> Vec<u8>>(argvars: &[typval_T], rettv: &mut typval_T, arg_off: usize, run: Option<&F>)
    requires
        arg_off + 2 <= argvars@.len(),
        run is Some ==> forall|c: Vec<u8>| #[trigger] run->Some_0.requires((c,)),
    ensures ({
        let second = argvars@[arg_off + 1];
        if second.v_type != VarType::VAR_UNKNOWN && string_of(second@) is None {
            final(rettv)@ == old(rettv)@
        } else {
            match (run, execute_cmd(argvars@[arg_off as int]@)) {
                (Some(f), Some(cmd)) => exists|c: Vec<u8>, o: Vec<u8>| c@ == cmd && #[trigger] f.ensures((c,), o)
                    && final(rettv)@ == with_string(old(rettv)@, o@),
                _ => final(rettv)@ == with_string(old(rettv)@, Seq::empty()),
            }
        }
    }),
{
    let nargs = argvars.len();
    assert(arg_off + 2 <= nargs);
    let second_i: usize = arg_off + 1;
    if argvars[second_i].v_type != VarType::VAR_UNKNOWN {
        match tv_get_string_buf_chk(&argvars[second_i]) {
            Some(_) => {},
            None => { return; },
        }
    }
    let a = &argvars[arg_off];
    let cmd: Option<Vec<u8>> = if a.v_type != VarType::VAR_LIST {
        Some(tv_get_string(a))
    } else {
        match &a.vval {
            typval_vval_union::v_list(Some(l)) => {
                proof {
                    lemma_items_view_index_all(l.lv_items@);
                    assert(Seq::new(l.lv_items@.len(), |i: int| string_or_empty(l.lv_items@[i]@))
                        =~= Seq::new(l@.items.len(), |i: int| string_or_empty(l@.items[i])));
                }
                Some(join_item_strings(&l.lv_items))
            },
            _ => None,
        }
    };
    match (run, cmd) {
        (Some(f), Some(c)) => {
            let ghost cv = c;
            let out = f(c);
            assert(cv@ == execute_cmd(argvars@[arg_off as int]@)->Some_0);
            set_string(rettv, out);
        },
        _ => {
            set_string(rettv, Vec::new());
        },
    }
}

/// "execute({command} [, {silent}])": run a command and return what it
/// printed (see `execute_common`).
pub fn f_execute<F: Fn(Vec<u8>) -> Vec<u8>>(argvars: &[typval_T], rettv: &mut typval_T, run: Option<&F>)
    requires
        2 <= argvars@.len(),
        run is Some ==> forall|c: Vec<u8>| #[trigger] run->Some_0.requires((c,)),
    ensures ({
        let second = argvars@[1];
        if second.v_type != VarType::VAR_UNKNOWN && string_of(second@) is None {
            final(rettv)@ == old(rettv)@
        } else {
            match (run, execute_cmd(argvars@[0]@)) {
                (Some(f), Some(cmd)) => exists|c: Vec<u8>, o: Vec<u8>| c@ == cmd && #[trigger] f.ensures((c,), o)
                    && final(rettv)@ == with_string(old(rettv)@, o@),
                _ => final(rettv)@ == with_string(old(rettv)@, Seq::empty()),
            }
        }
    }),
{
    execute_common(argvars, rettv, 0, run);
}

/// `s` without its leading spaces and tabs.
pub open spec fn skip_white(s: Seq<u8>) -> Seq<u8>
    decreases s.len(),
{
    if s.len() > 0 && (s[0] == 32 || s[0] == 9) { skip_white(s.subrange(1, s.len() as int)) } else { s }
}

fn skipwhite_bytes(s: &[u8]) -> (r: Vec<u8>)
    ensures r@ == skip_white(s@),
{
    let mut i: usize = 0;
    assert(s@.subrange(0, s@.len() as int) =~= s@);
    while i < s.len() && (s[i] == 32u8 || s[i] == 9u8)
        invariant i <= s@.len(), skip_white(s@) == skip_white(s@.subrange(i as int, s@.len() as int)),
        decreases s@.len() - i,
    {
        assert(s@.subrange(i as int, s@.len() as int).subrange(1, s@.len() - i) =~= s@.subrange(i + 1, s@.len() as int));
        i += 1;
    }
    bytes_between(s, i, s.len())
}

/// "eval({string})": the value of the expression in `{string}` (leading white
/// space skipped), as `evaluate` computes it; a `{string}` that is not a
/// String, or an expression that fails, gives the Number 0.
pub fn f_eval<F: Fn(Vec<u8>) -> Option<typval_T>>(argvars: &[typval_T], rettv: &mut typval_T, evaluate: &F)
    requires
        1 <= argvars@.len(),
        forall|c: Vec<u8>| #[trigger] evaluate.requires((c,)),
    ensures
        match string_of(argvars@[0]@) {
            None => final(rettv)@ == (TypVal { ty: VarType::VAR_NUMBER, v: VVal::Number(0), ..old(rettv)@ }),
            Some(s) => exists|c: Vec<u8>, o: Option<typval_T>| c@ == skip_white(s) && #[trigger] evaluate.ensures((c,), o)
                && match o {
                    Some(v) => final(rettv)@ == v@,
                    None => final(rettv)@ == (TypVal { ty: VarType::VAR_NUMBER, v: VVal::Number(0), ..old(rettv)@ }),
                },
        },
{
    match tv_get_string_chk(&argvars[0]) {
        None => {
            rettv.v_type = VarType::VAR_NUMBER;
            rettv.vval = typval_vval_union::v_number(0);
        },
        Some(s) => {
            let e = skipwhite_bytes(s.as_slice());
            let ghost ev = e;
            let r = evaluate(e);
            match r {
                Some(v) => { *rettv = v; },
                None => {
                    rettv.v_type = VarType::VAR_NUMBER;
                    rettv.vval = typval_vval_union::v_number(0);
                },
            }
        },
    }
}

/// A screen grid placed on the composed screen at (`comp_row`, `comp_col`).
pub struct ScreenGrid {
    pub comp_row: i32,
    pub comp_col: i32,
}

/// The grid on top at a screen position: there is no compositor, so none.
fn ui_comp_get_grid_at_coord(row: i32, col: i32) -> (r: Option<ScreenGrid>)
    ensures r is None,
{
    None
}

/// Find the grid at screen position (`row`, `col`) and make the position
/// relative to it; with no grid (there is no screen) the position stays as it
/// is.
pub fn screenchar_adjust(grid: &mut Option<ScreenGrid>, row: &mut i32, col: &mut i32)
    ensures
        *final(grid) is None,
        *final(row) == *old(row),
        *final(col) == *old(col),
{
    *grid = ui_comp_get_grid_at_coord(*row, *col);
    match grid {
        Some(g) => {
            if *row >= i32::MIN + g.comp_row.max(0) && *col >= i32::MIN + g.comp_col.max(0) {
                *row = *row - g.comp_row;
                *col = *col - g.comp_col;
            }
        },
        None => {},
    }
}

} // verus!
