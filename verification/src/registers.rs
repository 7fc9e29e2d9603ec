//! "setreg()": what is to be written into which register, read from its
//! arguments. The register store itself applies the write.

use vstd::prelude::*;
use crate::typval_defs::{typval_T, typval_vval_union, TypVal, VVal, VarType, VarLockStatus, dummy_tv, num_tv, items_view};
use crate::typval::{string_of, string_or_empty, tv_get_string, tv_get_string_chk};
use crate::typval_dict::{dict_get, tv_dict_find};
use crate::typval_list::{number_tv, string_tv, list_from_items, lemma_items_view_index_all};
use crate::typval_defs::{list_T, ListVal, DictVal, BoolVarValue, str_tv, list_tv, mk_tv};
use crate::typval_dict::{dict_set, tv_dict_alloc, tv_dict_add_tv};
use crate::typval_defs::empty_dict_val;
use crate::typval::{number_chk_result, tv_get_number_chk};
use crate::charset::{nr2str, nr2bytes};
use crate::join::join_spec;
use crate::highlight::names_view;
use crate::dup::append_bytes;
use crate::mbyte::bytes_between;
use crate::mbyte::{first_char_code, char_code_at};

verus! {

/// How register text is put: by characters, by lines or as a block.
#[derive(Clone, Copy, PartialEq, Eq, Structural)]
pub enum MotionType {
    CharWise,
    LineWise,
    BlockWise,
}

/// What goes into a register: lines from a List, or text that the store
/// splits at line breaks.
pub enum RegValue {
    Lines(Vec<Vec<u8>>),
    Text(Vec<u8>),
}

pub enum RegValueV {
    Lines(Seq<Seq<u8>>),
    Text(Seq<u8>),
}

/// A write into register `regname` (a code point).
pub struct RegWrite {
    pub regname: u32,
    pub value: RegValue,
    pub mtype: MotionType,
    pub append: bool,
}

pub struct RegWriteV {
    pub regname: int,
    pub value: RegValueV,
    pub mtype: MotionType,
    pub append: bool,
}

impl View for RegWrite {
    type V = RegWriteV;
    open spec fn view(&self) -> RegWriteV {
        RegWriteV {
            regname: self.regname as int,
            value: match self.value { RegValue::Lines(l) => RegValueV::Lines(l@.map_values(|x: Vec<u8>| x@)), RegValue::Text(t) => RegValueV::Text(t@) },
            mtype: self.mtype,
            append: self.append,
        }
    }
}

/// The type an option character selects: `c`/`v` by characters, `l`/`V` by
/// lines, `b`/CTRL-V as a block.
pub open spec fn yank_type(c: u8) -> Option<MotionType> {
    if c == 99 || c == 118 { Some(MotionType::CharWise) }
    else if c == 108 || c == 86 { Some(MotionType::LineWise) }
    else if c == 98 || c == 22 { Some(MotionType::BlockWise) }
    else { None }
}

fn yank_type_exec(c: u8) -> (r: Option<MotionType>)
    ensures r == yank_type(c),
{
    if c == 99 || c == 118 { Some(MotionType::CharWise) }
    else if c == 108 || c == 86 { Some(MotionType::LineWise) }
    else if c == 98 || c == 22 { Some(MotionType::BlockWise) }
    else { None }
}

/// The register a name selects: its first character, the unnamed register
/// `"` for an empty name or `@`.
pub open spec fn reg_of(name: Seq<u8>) -> int {
    let c = first_char_code(name);
    if c == 0 || c == 64 { 34 } else { c }
}

/// Reading the options String from byte `i` on, with the type and the
/// append flag so far: `a`/`A` append, `u` and `"` are passed over, a type
/// character sets the type, others are ignored.
pub open spec fn opts_from(o: Seq<u8>, i: int, t: Option<MotionType>, append: bool) -> (Option<MotionType>, bool)
    decreases o.len() - i,
{
    if i < 0 || i >= o.len() {
        (t, append)
    } else {
        let c = o[i];
        if c == 97 || c == 65 {
            opts_from(o, i + 1, t, true)
        } else if c == 117 || c == 34 {
            opts_from(o, i + 1, t, append)
        } else {
            opts_from(o, i + 1, if yank_type(c) is Some { yank_type(c) } else { t }, append)
        }
    }
}

pub open spec fn rt_key() -> Seq<u8> { seq![114u8, 101, 103, 116, 121, 112, 101] }
pub open spec fn rc_key() -> Seq<u8> { seq![114u8, 101, 103, 99, 111, 110, 116, 101, 110, 116, 115] }

/// The value to write and the type that a Dictionary value names, if any.
pub open spec fn contents_of(v: TypVal) -> (TypVal, Option<MotionType>) {
    if v.ty == VarType::VAR_DICT {
        match v.v {
            VVal::Dict(Some(d)) => {
                let t = match dict_get(d, rt_key()) {
                    Some(rt) => if string_or_empty(rt).len() > 0 { yank_type(string_or_empty(rt)[0]) } else { None },
                    None => None,
                };
                (match dict_get(d, rc_key()) { Some(c) => c, None => dummy_tv() }, t)
            },
            _ => (dummy_tv(), None),
        }
    } else {
        (v, None)
    }
}

/// The write that "setreg()" asks for, or `None` where the register name
/// does not convert to a String.
pub open spec fn setreg_spec(a: Seq<TypVal>) -> Option<RegWriteV> {
    match string_of(a[0]) {
        None => None,
        Some(name) => {
            let (c, t0) = contents_of(a[1]);
            let (t, append) = if a.len() > 2 { opts_from(string_or_empty(a[2]), 0, t0, false) } else { (t0, false) };
            Some(match c.v {
                VVal::List(Some(l)) => if c.ty == VarType::VAR_LIST {
                    RegWriteV {
                        regname: reg_of(name),
                        value: RegValueV::Lines(l.items.map_values(|x: TypVal| string_or_empty(x))),
                        mtype: if t is Some { t->Some_0 } else { MotionType::LineWise },
                        append,
                    }
                } else {
                    text_write(reg_of(name), string_or_empty(c), t, append)
                },
                _ => text_write(reg_of(name), string_or_empty(c), t, append),
            })
        }
    }
}

/// A write of text: without a type, by lines when the text ends in a line
/// break, else by characters.
pub open spec fn text_write(reg: int, s: Seq<u8>, t: Option<MotionType>, append: bool) -> RegWriteV {
    RegWriteV {
        regname: reg,
        value: RegValueV::Text(s),
        mtype: if t is Some { t->Some_0 } else if s.len() > 0 && s.last() == 10 { MotionType::LineWise } else { MotionType::CharWise },
        append,
    }
}

fn rt_bytes() -> (r: Vec<u8>)
    ensures r@ == rt_key(),
{
    let v: Vec<u8> = vec![114u8, 101, 103, 116, 121, 112, 101];
    assert(v@ =~= rt_key());
    v
}

fn rc_bytes() -> (r: Vec<u8>)
    ensures r@ == rc_key(),
{
    let v: Vec<u8> = vec![114u8, 101, 103, 99, 111, 110, 116, 101, 110, 116, 115];
    assert(v@ =~= rc_key());
    v
}

fn reg_of_exec(name: &[u8]) -> (r: u32)
    ensures r as int == reg_of(name@),
{
    let c: u32 = if name.len() == 0 { 0 } else { char_code_at(name, 0) };
    if c == 0 || c == 64 { 34 } else { c }
}

/// "setreg({regname}, {value} [, {options}])": sets `rettv` to 0 and gives
/// the write to apply, or sets it to 1 and gives `None` where the register
/// name does not convert to a String.
pub fn f_setreg(argvars: &[typval_T], rettv: &mut typval_T) -> (r: Option<RegWrite>)
    requires argvars@.len() >= 2,
    ensures
        match setreg_spec(items_view(argvars@)) {
            None => r is None && final(rettv)@ == num_tv(1),
            Some(w) => r is Some && r->Some_0@ == w && final(rettv)@ == num_tv(0),
        },
{
    let ghost av = items_view(argvars@);
    assert(av[0] == argvars@[0]@ && av[1] == argvars@[1]@);
    *rettv = number_tv(1);
    let name = match tv_get_string_chk(&argvars[0]) {
        Some(s) => s,
        None => { return None; }
    };
    let regname = reg_of_exec(name.as_slice());
    let mut yt: Option<MotionType> = None;
    let unknown = typval_T { v_type: VarType::VAR_UNKNOWN, v_lock: VarLockStatus::VAR_UNLOCKED, vval: typval_vval_union::v_number(0) };
    let contents: &typval_T = if argvars[1].v_type == VarType::VAR_DICT {
        match &argvars[1].vval {
            typval_vval_union::v_dict(Some(d)) => {
                match tv_dict_find(d, rt_bytes().as_slice()) {
                    Some(rt) => {
                        let s = tv_get_string(rt);
                        if s.len() > 0 { yt = yank_type_exec(s[0]); }
                    }
                    None => {}
                }
                match tv_dict_find(d, rc_bytes().as_slice()) {
                    Some(c) => c,
                    None => &unknown,
                }
            }
            _ => &unknown,
        }
    } else {
        &argvars[1]
    };
    assert(contents@ == contents_of(av[1]).0 && yt == contents_of(av[1]).1);
    let mut append = false;
    if argvars.len() > 2 {
        assert(av[2] == argvars@[2]@);
        let opt = tv_get_string(&argvars[2]);
        let mut i: usize = 0;
        while i < opt.len()
            invariant
                i <= opt@.len(),
                opts_from(opt@, 0, contents_of(av[1]).1, false) == opts_from(opt@, i as int, yt, append),
            decreases opt@.len() - i,
        {
            let c = opt[i];
            if c == 97 || c == 65 {
                append = true;
            } else if c == 117 || c == 34 {
            } else {
                match yank_type_exec(c) {
                    Some(t) => { yt = Some(t); }
                    None => {}
                }
            }
            i = i + 1;
        }
    }
    let value = match &contents.vval {
        typval_vval_union::v_list(Some(l)) => {
            if contents.v_type == VarType::VAR_LIST {
                let mut lines: Vec<Vec<u8>> = Vec::new();
                let mut k: usize = 0;
                while k < l.lv_items.len()
                    invariant
                        k <= l.lv_items@.len(), lines@.len() == k,
                        forall|q: int| 0 <= q < k ==> (#[trigger] lines@[q])@ == string_or_empty(l.lv_items@[q]@),
                    decreases l.lv_items@.len() - k,
                {
                    lines.push(tv_get_string(&l.lv_items[k]));
                    k = k + 1;
                }
                let ghost lv = items_view(l.lv_items@);
                assert(lines@.map_values(|x: Vec<u8>| x@) =~= lv.map_values(|x: TypVal| string_or_empty(x)));
                let mt = match yt { Some(t) => t, None => MotionType::LineWise };
                *rettv = number_tv(0);
                return Some(RegWrite { regname, value: RegValue::Lines(lines), mtype: mt, append });
            }
            RegValue::Text(tv_get_string(contents))
        }
        _ => RegValue::Text(tv_get_string(contents)),
    };
    let mt = match yt {
        Some(t) => t,
        None => match &value {
            RegValue::Text(s) => if s.len() > 0 && s[s.len() - 1] == 10 { MotionType::LineWise } else { MotionType::CharWise },
            RegValue::Lines(_) => MotionType::LineWise,
        },
    };
    *rettv = number_tv(0);
    Some(RegWrite { regname, value, mtype: mt, append })
}

/// The registers: for each name (a code point), its lines, how it is put,
/// and the width of a block.
pub struct Registers {
    pub names: Vec<u32>,
    pub lines: Vec<Vec<Vec<u8>>>,
    pub types: Vec<MotionType>,
    pub widths: Vec<i64>,
}

pub struct RegistersV {
    pub names: Seq<int>,
    pub lines: Seq<Seq<Seq<u8>>>,
    pub types: Seq<MotionType>,
    pub widths: Seq<int>,
}

impl View for Registers {
    type V = RegistersV;
    open spec fn view(&self) -> RegistersV {
        RegistersV {
            names: self.names@.map_values(|n: u32| n as int),
            lines: self.lines@.map_values(|l: Vec<Vec<u8>>| names_view(l@)),
            types: self.types@,
            widths: self.widths@.map_values(|w: i64| w as int),
        }
    }
}

/// Every register has its lines, type and width.
pub open spec fn regs_wf(r: RegistersV) -> bool {
    r.lines.len() == r.names.len() && r.types.len() == r.names.len() && r.widths.len() == r.names.len()
}

/// Where register `name` is kept, from position `i` on; -1 when it is not set.
pub open spec fn reg_index(names: Seq<int>, name: int, i: int) -> int
    decreases names.len() - i,
{
    if i < 0 || i >= names.len() { -1 } else if names[i] == name { i } else { reg_index(names, name, i + 1) }
}

/// The lines of register `name`, when it is set.
pub open spec fn reg_contents(r: RegistersV, name: int) -> Option<Seq<Seq<u8>>> {
    let i = reg_index(r.names, name, 0);
    if 0 <= i < r.lines.len() { Some(r.lines[i]) } else { None }
}

/// The type of register `name` as "getregtype()" writes it: "v" by
/// characters, "V" by lines, CTRL-V and the width for a block, empty for a
/// register that is not set.
pub open spec fn reg_type_text(r: RegistersV, name: int) -> Seq<u8> {
    let i = reg_index(r.names, name, 0);
    if i < 0 || i >= r.types.len() || i >= r.widths.len() {
        Seq::empty()
    } else {
        match r.types[i] {
            MotionType::CharWise => seq![118u8],
            MotionType::LineWise => seq![86u8],
            MotionType::BlockWise => seq![22u8] + nr2str(r.widths[i]),
        }
    }
}

pub open spec fn reg_linewise(r: RegistersV, name: int) -> bool {
    let i = reg_index(r.names, name, 0);
    0 <= i < r.types.len() && r.types[i] == MotionType::LineWise
}

fn find_reg(regs: &Registers, name: u32) -> (r: Option<usize>)
    requires regs_wf(regs@),
    ensures
        match r {
            Some(i) => i as int == reg_index(regs@.names, name as int, 0) && i < regs@.names.len(),
            None => reg_index(regs@.names, name as int, 0) == -1,
        },
{
    let mut i: usize = 0;
    while i < regs.names.len()
        invariant
            i <= regs.names@.len(), regs@.names.len() == regs.names@.len(),
            reg_index(regs@.names, name as int, 0) == reg_index(regs@.names, name as int, i as int),
        decreases regs.names@.len() - i,
    {
        assert(regs@.names[i as int] == regs.names@[i as int] as int);
        if regs.names[i] == name {
            return Some(i);
        }
        i = i + 1;
    }
    None
}

/// The register that `getreg()` and its relatives are asked about: the
/// first character of the name (of `v:register`, `vreg`, when none is
/// given), the unnamed register `"` for an empty one; `None` when the name
/// does not convert to a String.
pub open spec fn getreg_name(a: Seq<TypVal>, vreg: Seq<u8>) -> Option<int> {
    let s = if a.len() == 0 { Some(vreg) } else { string_of(a[0]) };
    match s {
        None => None,
        Some(n) => Some(if first_char_code(n) == 0 { 34 } else { first_char_code(n) }),
    }
}

pub fn getreg_get_regname(argvars: &[typval_T], vreg: &[u8]) -> (r: Option<u32>)
    ensures
        match r {
            Some(c) => getreg_name(items_view(argvars@), vreg@) == Some(c as int),
            None => getreg_name(items_view(argvars@), vreg@) is None,
        },
{
    proof { lemma_items_view_index_all(argvars@); }
    let s: Vec<u8> = if argvars.len() == 0 {
        bytes_between(vreg, 0, vreg.len())
    } else {
        match tv_get_string_chk(&argvars[0]) {
            Some(s) => s,
            None => { return None; },
        }
    };
    proof { if argvars@.len() == 0 { assert(vreg@.subrange(0, vreg@.len() as int) =~= vreg@); } }
    let c: u32 = if s.len() == 0 { 0 } else { char_code_at(s.as_slice(), 0) };
    Some(if c == 0 { 34 } else { c })
}

/// The text of the lines joined by line breaks, with one more at the end
/// for a register of lines.
pub open spec fn reg_text(lines: Seq<Seq<u8>>, linewise: bool) -> Seq<u8> {
    join_spec(lines, seq![10u8]) + if linewise { seq![10u8] } else { Seq::empty() }
}

fn copy_lines(l: &Vec<Vec<u8>>) -> (r: Vec<typval_T>)
    ensures items_view(r@) == Seq::new(l@.len(), |k: int| str_tv(l@[k]@)),
{
    let mut out: Vec<typval_T> = Vec::new();
    let mut k: usize = 0;
    while k < l.len()
        invariant k <= l@.len(), out@.len() == k,
            forall|q: int| 0 <= q < k ==> (#[trigger] out@[q])@ == str_tv(l@[q]@),
        decreases l@.len() - k,
    {
        let s = bytes_between(l[k].as_slice(), 0, l[k].len());
        assert(s@ =~= l@[k as int]@);
        out.push(string_tv(s));
        k = k + 1;
    }
    proof { lemma_items_view_index_all(out@); }
    assert(items_view(out@) =~= Seq::new(l@.len(), |k: int| str_tv(l@[k]@)));
    out
}

fn join_lines(l: &Vec<Vec<u8>>) -> (r: Vec<u8>)
    ensures r@ == join_spec(names_view(l@), seq![10u8]),
{
    let mut gap: Vec<u8> = Vec::new();
    let ghost ev = names_view(l@);
    let mut k: usize = 0;
    assert(ev.subrange(0, 0) =~= Seq::<Seq<u8>>::empty());
    let nl: Vec<u8> = vec![10u8];
    while k < l.len()
        invariant
            k <= l@.len(), ev == names_view(l@), nl@ == seq![10u8],
            gap@ == join_spec(ev.subrange(0, k as int), seq![10u8]),
        decreases l@.len() - k,
    {
        if k > 0 {
            append_bytes(&mut gap, nl.as_slice());
        }
        append_bytes(&mut gap, l[k].as_slice());
        proof {
            let sub = ev.subrange(0, k + 1);
            assert(sub.drop_last() =~= ev.subrange(0, k as int));
            assert(sub.last() == l@[k as int]@);
            if k == 0 { assert(Seq::<u8>::empty() + l@[0]@ =~= l@[0]@); }
        }
        k = k + 1;
    }
    assert(ev.subrange(0, ev.len() as int) =~= ev);
    gap
}

/// "getreg([{regname} [, 1 [, {list}]]])": the text of the register, its
/// lines joined by line breaks (one more at the end for a register of
/// lines); with `{list}` true, a List of its lines. A register that is not
/// set has no lines.
pub fn f_getreg(regs: &Registers, argvars: &[typval_T], rettv: &mut typval_T, vreg: &[u8])
    requires regs_wf(regs@),
    ensures
        match getreg_name(items_view(argvars@), vreg@) {
            None => *final(rettv) == *old(rettv),
            Some(n) => {
                let lines = match reg_contents(regs@, n) { Some(l) => l, None => Seq::empty() };
                if argvars@.len() > 2 && number_chk_result(argvars@[2]@, false) != 0 {
                    final(rettv)@ == (TypVal { ty: VarType::VAR_LIST, lock: old(rettv)@.lock, v: VVal::List(Some(ListVal {
                        items: Seq::new(lines.len(), |k: int| str_tv(lines[k])), lock: VarLockStatus::VAR_UNLOCKED, refcount: 0 })) })
                } else {
                    final(rettv)@ == str_tv(reg_text(lines, reg_linewise(regs@, n)))
                }
            },
        },
{
    let name = match getreg_get_regname(argvars, vreg) {
        Some(n) => n,
        None => { return; },
    };
    proof { lemma_items_view_index_all(argvars@); }
    let return_list = argvars.len() > 2 && tv_get_number_chk(&argvars[2], None) != 0;
    let empty: Vec<Vec<u8>> = Vec::new();
    let idx = find_reg(regs, name);
    let lines: &Vec<Vec<u8>> = match idx { Some(i) => &regs.lines[i], None => &empty };
    assert(names_view(lines@) == match reg_contents(regs@, name as int) { Some(l) => l, None => Seq::<Seq<u8>>::empty() }) by {
        if idx is None { assert(names_view(empty@) =~= Seq::<Seq<u8>>::empty()); }
    }
    if return_list {
        let items = copy_lines(lines);
        assert(items_view(items@) =~= Seq::new(names_view(lines@).len(), |k: int| str_tv(names_view(lines@)[k])));
        rettv.v_type = VarType::VAR_LIST;
        rettv.vval = typval_vval_union::v_list(Some(list_from_items(items)));
    } else {
        let mut s = join_lines(lines);
        let lw = match idx { Some(i) => regs.types[i] == MotionType::LineWise, None => false };
        if lw {
            s.push(10u8);
        }
        assert(s@ =~= reg_text(names_view(lines@), reg_linewise(regs@, name as int)));
        *rettv = string_tv(s);
    }
}

fn reg_type_exec(regs: &Registers, name: u32) -> (r: Vec<u8>)
    requires regs_wf(regs@),
    ensures r@ == reg_type_text(regs@, name as int),
{
    match find_reg(regs, name) {
        None => Vec::new(),
        Some(i) => {
            let t = regs.types[i];
            match t {
                MotionType::CharWise => { let v: Vec<u8> = vec![118u8]; assert(v@ =~= seq![118u8]); v },
                MotionType::LineWise => { let v: Vec<u8> = vec![86u8]; assert(v@ =~= seq![86u8]); v },
                MotionType::BlockWise => {
                    let mut v: Vec<u8> = vec![22u8];
                    assert(v@ =~= seq![22u8]);
                    let w = nr2bytes(regs.widths[i]);
                    append_bytes(&mut v, w.as_slice());
                    v
                },
            }
        },
    }
}

/// "getregtype([{regname}])": "v", "V" or CTRL-V and the width, for a
/// register put by characters, by lines or as a block; empty when it is not
/// set.
pub fn f_getregtype(regs: &Registers, argvars: &[typval_T], rettv: &mut typval_T, vreg: &[u8])
    requires regs_wf(regs@),
    ensures
        match getreg_name(items_view(argvars@), vreg@) {
            None => *final(rettv) == *old(rettv),
            Some(n) => final(rettv)@ == str_tv(reg_type_text(regs@, n)),
        },
{
    let name = match getreg_get_regname(argvars, vreg) {
        Some(n) => n,
        None => { return; },
    };
    *rettv = string_tv(reg_type_exec(regs, name));
}

pub open spec fn rc_w() -> Seq<u8> { seq![114u8, 101, 103, 99, 111, 110, 116, 101, 110, 116, 115] }
pub open spec fn rtype_w() -> Seq<u8> { seq![114u8, 101, 103, 116, 121, 112, 101] }
pub open spec fn points_to_w() -> Seq<u8> { seq![112u8, 111, 105, 110, 116, 115, 95, 116, 111] }
pub open spec fn isunnamed_w() -> Seq<u8> { seq![105u8, 115, 117, 110, 110, 97, 109, 101, 100] }

/// What "getreginfo()" gives for register `n` (`@` is the unnamed
/// register): an empty Dictionary when it is not set, else its lines, its
/// type, and for the unnamed register what it points to, for any other that
/// it is not the unnamed one.
pub open spec fn reginfo_spec(regs: RegistersV, n0: int) -> DictVal {
    let n = if n0 == 64 { 34 } else { n0 };
    match reg_contents(regs, n) {
        None => empty_dict_val(),
        Some(lines) => {
            let d1 = dict_set(empty_dict_val(), rc_w(), list_tv(Seq::new(lines.len(), |k: int| str_tv(lines[k]))));
            let d2 = dict_set(d1, rtype_w(), str_tv(reg_type_text(regs, n)));
            if n == 34 { dict_set(d2, points_to_w(), str_tv(seq![34u8])) }
            else { dict_set(d2, isunnamed_w(), mk_tv(VarType::VAR_BOOL, VVal::Bool(BoolVarValue::kBoolVarFalse))) }
        },
    }
}

/// "getreginfo([{regname}])": the register as a Dictionary (see
/// `reginfo_spec`).
pub fn f_getreginfo(regs: &Registers, argvars: &[typval_T], rettv: &mut typval_T, vreg: &[u8])
    requires regs_wf(regs@),
    ensures
        match getreg_name(items_view(argvars@), vreg@) {
            None => *final(rettv) == *old(rettv),
            Some(n) => final(rettv)@ == (TypVal { ty: VarType::VAR_DICT, lock: old(rettv)@.lock, v: VVal::Dict(Some(reginfo_spec(regs@, n))) }),
        },
{
    let n0 = match getreg_get_regname(argvars, vreg) {
        Some(n) => n,
        None => { return; },
    };
    let name: u32 = if n0 == 64 { 34 } else { n0 };
    let mut d = tv_dict_alloc();
    match find_reg(regs, name) {
        None => {},
        Some(i) => {
            let items = copy_lines(&regs.lines[i]);
            proof {
                let lines = regs@.lines[i as int];
                assert(lines == names_view(regs.lines@[i as int]@));
                assert(items_view(items@) =~= Seq::new(lines.len(), |k: int| str_tv(lines[k])));
            }
            let l = typval_T { v_type: VarType::VAR_LIST, v_lock: VarLockStatus::VAR_UNLOCKED,
                vval: typval_vval_union::v_list(Some(list_from_items(items))) };
            let k1: Vec<u8> = vec![114u8, 101, 103, 99, 111, 110, 116, 101, 110, 116, 115];
            assert(k1@ =~= rc_w());
            tv_dict_add_tv(&mut d, k1.as_slice(), l);
            let k2: Vec<u8> = vec![114u8, 101, 103, 116, 121, 112, 101];
            assert(k2@ =~= rtype_w());
            tv_dict_add_tv(&mut d, k2.as_slice(), string_tv(reg_type_exec(regs, name)));
            if name == 34 {
                let k3: Vec<u8> = vec![112u8, 111, 105, 110, 116, 115, 95, 116, 111];
                assert(k3@ =~= points_to_w());
                let q: Vec<u8> = vec![34u8];
                assert(q@ =~= seq![34u8]);
                tv_dict_add_tv(&mut d, k3.as_slice(), string_tv(q));
            } else {
                let k3: Vec<u8> = vec![105u8, 115, 117, 110, 110, 97, 109, 101, 100];
                assert(k3@ =~= isunnamed_w());
                let f = typval_T { v_type: VarType::VAR_BOOL, v_lock: VarLockStatus::VAR_UNLOCKED,
                    vval: typval_vval_union::v_bool(BoolVarValue::kBoolVarFalse) };
                tv_dict_add_tv(&mut d, k3.as_slice(), f);
            }
        },
    }
    rettv.v_type = VarType::VAR_DICT;
    rettv.vval = typval_vval_union::v_dict(Some(d));
}

} // verus!
