//! "printf()": formatting Numbers and Strings by a format.
use vstd::prelude::*;
use crate::typval_defs::{
    varnumber_T, OK, FAIL, VarType, VarLockStatus, BoolVarValue, SpecialVarValue, typval_vval_union,
    typval_T, list_T, dict_T, dictitem_T, blob_T, partial_T, Callback, DictWatcher, TypVal, VVal,
    ListVal, DictVal, BlobVal, CallbackVal, WatcherVal, tv_view, list_view, dict_view, items_view, dict_index_of,
    mk_tv, num_tv, str_tv, list_tv, blob_tv, dict_tv, empty_dict_val, dict_wf, keys_unique,
    lemma_items_view_ext, lemma_items_view_index, lemma_items_view_push, lemma_items_view_subrange,
    lemma_items_view_add, lemma_items_view_reverse, lemma_items_view_update, lemma_items_view_insert,
    lemma_items_view_remove, lemma_items_view_empty,
};
use crate::charset::{nr2str, nr2bytes, str2nr, str2nr_all};
use crate::dup::{bytes_dup, tv_dup, list_dup, dict_dup, blob_dup, items_dup, slice_to_vec, callback_dup, append_bytes};
use crate::typval::{
    number_of, number_chk_result, string_of, string_or_empty, tv_get_number_chk, tv_get_number,
    tv_get_bool, tv_get_string, tv_get_string_chk, tv_get_string_buf_chk, tv_equal, tv_equal_spec,
    bytes_eq, dict_find_index,
};
use crate::typval_list::string_tv;
use crate::funcs_basic::with_string;
use crate::charset::{utf8_split, utf8_chars, is_cont};
use crate::mbyte::{char2bytes, char_to_bytes};

verus! {


// ── numbers in the format ──

/// Numbers in the format are counted up to this; anything larger acts alike
/// (it is past every limit and every argument).
pub open spec fn pf_cap() -> int { 0x1_0000_0000 }

pub open spec fn is_digit(b: u8) -> bool { 48 <= b <= 57 }

/// The digits from `j` on read into `v`: the number (capped) and where the
/// digits end.
pub open spec fn num_at(f: Seq<u8>, j: int, v: int) -> (int, int)
    decreases f.len() - j,
{
    if 0 <= j < f.len() && is_digit(f[j]) {
        let w = v * 10 + (f[j] - 48);
        num_at(f, j + 1, if w > pf_cap() { pf_cap() } else { w })
    } else {
        (v, j)
    }
}

proof fn lemma_num_at(f: Seq<u8>, j: int, v: int)
    requires 0 <= j <= f.len(), 0 <= v <= pf_cap(),
    ensures j <= num_at(f, j, v).1 <= f.len(), 0 <= num_at(f, j, v).0 <= pf_cap(),
    decreases f.len() - j,
{
    if j < f.len() && is_digit(f[j]) {
        let w = v * 10 + (f[j] - 48);
        lemma_num_at(f, j + 1, if w > pf_cap() { pf_cap() } else { w });
    }
}

fn num_at_exec(f: &[u8], j: usize) -> (r: (u64, usize))
    requires j <= f@.len(),
    ensures (r.0 as int, r.1 as int) == num_at(f@, j as int, 0), j <= r.1 <= f@.len(), r.0 <= pf_cap(),
{
    proof { lemma_num_at(f@, j as int, 0); }
    let mut v: u64 = 0;
    let mut k = j;
    while k < f.len() && 48 <= f[k] && f[k] <= 57
        invariant j <= k <= f@.len(), v <= pf_cap(), num_at(f@, k as int, v as int) == num_at(f@, j as int, 0),
        decreases f.len() - k,
    {
        let w = v * 10 + (f[k] - 48) as u64;
        v = if w > 0x1_0000_0000 { 0x1_0000_0000 } else { w };
        k += 1;
    }
    (v, k)
}

/// A "N$" at `j`: the argument number and the position after it, else
/// `None` and `j`.
pub open spec fn pos_at(f: Seq<u8>, j: int) -> (Option<int>, int) {
    let (n, e) = num_at(f, j, 0);
    if e > j && e < f.len() && f[e] == 36u8 { (Some(n), e + 1) } else { (None, j) }
}

fn pos_at_exec(f: &[u8], j: usize) -> (r: (Option<u64>, usize))
    requires j <= f@.len(),
    ensures
        (match r.0 { Some(n) => Some(n as int), None => None }, r.1 as int) == pos_at(f@, j as int),
        j <= r.1 <= f@.len(), r.0 is Some ==> r.0->Some_0 <= pf_cap(),
{
    let (n, e) = num_at_exec(f, j);
    if e > j && e < f.len() && f[e] == 36u8 { (Some(n), e + 1) } else { (None, j) }
}

// ── the state ──

/// The flags of a conversion.
pub struct PfFlags {
    pub left: bool,
    pub zero: bool,
    pub plus: bool,
    pub space: bool,
    pub alt: bool,
}

/// The flags from `j` on, added to `fl`, and where they end.
pub open spec fn flags_at(f: Seq<u8>, j: int, fl: PfFlags) -> (PfFlags, int)
    decreases f.len() - j,
{
    if 0 <= j < f.len() && (f[j] == 45u8 || f[j] == 48u8 || f[j] == 43u8 || f[j] == 32u8 || f[j] == 35u8) {
        let b = f[j];
        flags_at(f, j + 1, PfFlags {
            left: fl.left || b == 45u8, zero: fl.zero || b == 48u8, plus: fl.plus || b == 43u8,
            space: fl.space || b == 32u8, alt: fl.alt || b == 35u8,
        })
    } else {
        (fl, j)
    }
}

/// Where formatting stands: the position in the format, the next argument,
/// the highest argument read, whether one was missing, whether an error
/// made the result empty, whether the format ended, and the text so far.
pub struct PfState {
    pub i: int,
    pub arg: int,
    pub used_max: int,
    pub missing: bool,
    pub err: bool,
    pub done: bool,
    pub out: Seq<u8>,
}

/// A Number read from argument `src` (0 where there is none): the value and
/// the state with that argument counted as read (or missing).
pub open spec fn take_num(a: Seq<typval_T>, src: int, st: PfState) -> (int, PfState) {
    if 0 <= src < a.len() {
        (number_chk_result(a[src]@, false), PfState { used_max: if src > st.used_max { src } else { st.used_max }, ..st })
    } else {
        (0, PfState { missing: true, ..st })
    }
}

/// The text of a float conversion: its characters, and whether the value is
/// not finite and whether it is NaN.
pub struct FloatText {
    pub text: Vec<u8>,
    pub nonfinite: bool,
    pub nan: bool,
}

/// The float text a formatter gives for a conversion, precision and
/// argument.
pub open spec fn float_text<F: Fn(u8, Option<u64>, Option<&typval_T>) -> FloatText>(
    ff: F, conv: u8, prec: Option<u64>, a: Seq<typval_T>, want: int,
) -> (Seq<u8>, bool, bool) {
    let arg = if 0 <= want < a.len() { Some(&a[want]) } else { None };
    let r = choose|r: FloatText| call_ensures(ff, (conv, prec, arg), r);
    (r.text@, r.nonfinite, r.nan)
}

/// A float text as plain values.
pub open spec fn float_view(r: FloatText) -> (Seq<u8>, bool, bool) {
    (r.text@, r.nonfinite, r.nan)
}

/// A formatter whose every answer for one input has the same text and flags.
pub open spec fn deterministic<F: Fn(u8, Option<u64>, Option<&typval_T>) -> FloatText>(ff: F) -> bool {
    forall|x: (u8, Option<u64>, Option<&typval_T>), r1: FloatText, r2: FloatText|
        call_ensures(ff, x, r1) && call_ensures(ff, x, r2) ==> float_view(r1) == float_view(r2)
}

// ── the pieces of a conversion ──

pub open spec fn digit_char(d: int, upper: bool) -> u8 {
    if d < 10 { (48 + d) as u8 } else if upper { (55 + d) as u8 } else { (87 + d) as u8 }
}

/// The digits of `n` in base `base` (2 to 16).
pub open spec fn radix(n: nat, base: nat, upper: bool) -> Seq<u8>
    decreases n,
{
    if base < 2 || n < base { seq![digit_char(n as int, upper)] } else {
        proof { assert(n / base < n) by (nonlinear_arith) requires n >= base, base >= 2; }
        radix(n / base, base, upper) + seq![digit_char((n % base) as int, upper)]
    }
}

fn radix_exec(n: u64, base: u64, upper: bool) -> (r: Vec<u8>)
    requires 2 <= base <= 16,
    ensures r@ == radix(n as nat, base as nat, upper),
    decreases n,
{
    let d = n % base;
    assert(d < base) by (nonlinear_arith) requires base >= 2, d == n % base;
    assert(n < base ==> d == n) by (nonlinear_arith) requires base >= 2, d == n % base;
    assert(n >= base ==> n / base < n) by (nonlinear_arith) requires base >= 2;
    let c: u8 = if d < 10 { 48 + d as u8 } else if upper { 55 + d as u8 } else { 87 + d as u8 };
    if n < base {
        let mut v: Vec<u8> = Vec::new();
        v.push(c);
        assert(v@ =~= seq![digit_char(n as int, upper)]);
        v
    } else {
        let mut v = radix_exec(n / base, base, upper);
        v.push(c);
        v
    }
}

/// `n` as 64 bits without a sign.
pub open spec fn twos(n: int) -> nat {
    if n < 0 { (n + 0x1_0000_0000_0000_0000) as nat } else { n as nat }
}

/// The decimal text of `n`.
pub open spec fn dec_text(n: int) -> Seq<u8> {
    if n < 0 { seq![45u8] + radix((-n) as nat, 10, false) } else { radix(n as nat, 10, false) }
}

fn twos_exec(n: i64) -> (r: u64)
    ensures r as nat == twos(n as int),
{
    if n < 0 { ((n + i64::MAX + 1) as u64) + 0x8000_0000_0000_0000u64 } else { n as u64 }
}

fn dec_exec(n: i64) -> (r: Vec<u8>)
    ensures r@ == dec_text(n as int),
{
    if n < 0 {
        let m: u64 = if n == i64::MIN { 0x8000_0000_0000_0000u64 } else { (-n) as u64 };
        let mut v: Vec<u8> = Vec::new();
        v.push(45u8);
        let d = radix_exec(m, 10, false);
        crate::dup::append_bytes(&mut v, d.as_slice());
        v
    } else {
        radix_exec(n as u64, 10, false)
    }
}

/// Cut `s` to at most `p` bytes, backing off to a character start.
pub open spec fn cut_at(s: Seq<u8>, e: int) -> int
    decreases e,
{
    if e > 0 && e < s.len() && is_cont(s[e]) { cut_at(s, e - 1) } else { e }
}

pub open spec fn str_prec(s: Seq<u8>, prec: Option<int>) -> Seq<u8> {
    match prec {
        Some(p) => if s.len() > p { s.subrange(0, cut_at(s, p)) } else { s },
        None => s,
    }
}

proof fn lemma_cut_at(s: Seq<u8>, e: int)
    requires 0 <= e <= s.len(),
    ensures 0 <= cut_at(s, e) <= e,
    decreases e,
{
    if e > 0 && e < s.len() && is_cont(s[e]) { lemma_cut_at(s, e - 1); }
}

/// Whether a conversion takes an integer.
pub open spec fn is_int_conv(c: u8) -> bool {
    c == 100u8 || c == 105u8 || c == 111u8 || c == 117u8 || c == 120u8 || c == 88u8 || c == 98u8 || c == 66u8
}

/// Whether a conversion takes a float.
pub open spec fn is_float_conv(c: u8) -> bool {
    c == 102u8 || c == 70u8 || c == 101u8 || c == 69u8 || c == 103u8 || c == 71u8
}

/// The text of an integer conversion of `n`.
pub open spec fn int_core(c: u8, n: int) -> Seq<u8> {
    if c == 100u8 || c == 105u8 { dec_text(n) }
    else if c == 120u8 { radix(twos(n), 16, false) }
    else if c == 88u8 { radix(twos(n), 16, true) }
    else if c == 111u8 { radix(twos(n), 8, false) }
    else if c == 98u8 || c == 66u8 { radix(twos(n), 2, false) }
    else { radix(twos(n), 10, false) }
}

/// An integer text with precision `p`: at least `p` digits, none for 0 with
/// precision 0.
pub open spec fn int_prec(core: Seq<u8>, p: int) -> Seq<u8> {
    let neg = core.len() > 0 && core[0] == 45u8;
    let digits = if neg { core.drop_first() } else { core };
    let d2 = if p == 0 && digits == seq![48u8] { Seq::empty() }
        else if digits.len() < p { Seq::new((p - digits.len()) as nat, |k: int| 48u8) + digits }
        else { digits };
    if neg { seq![45u8] + d2 } else { d2 }
}

/// The sign (or radix prefix) and the rest of the text.
pub open spec fn sign_split(c: u8, core: Seq<u8>, fl: PfFlags, nan: bool) -> (Seq<u8>, Seq<u8>) {
    let signed = c == 100u8 || c == 105u8 || is_float_conv(c);
    if nan {
        (Seq::empty(), core)
    } else if signed {
        if core.len() > 0 && core[0] == 45u8 { (seq![45u8], core.drop_first()) }
        else if fl.plus { (seq![43u8], core) }
        else if fl.space { (seq![32u8], core) }
        else { (Seq::empty(), core) }
    } else if fl.alt {
        let not_zero = core != seq![48u8];
        (if c == 120u8 && not_zero { seq![48u8, 120u8] }
         else if c == 88u8 && not_zero { seq![48u8, 88u8] }
         else if c == 98u8 && not_zero { seq![48u8, 98u8] }
         else if c == 66u8 && not_zero { seq![48u8, 66u8] }
         else if c == 111u8 && !(core.len() > 0 && core[0] == 48u8) { seq![48u8] }
         else { Seq::empty() }, core)
    } else {
        (Seq::empty(), core)
    }
}

pub open spec fn spaces(n: int) -> Seq<u8> { Seq::new(n as nat, |k: int| 32u8) }
pub open spec fn zeros_text(n: int) -> Seq<u8> { Seq::new(n as nat, |k: int| 48u8) }

/// The text padded to `width`: after it when left-aligned, with zeros after
/// the sign when zero-padded (not for "s"), else spaces before.
pub open spec fn pad(c: u8, sign: Seq<u8>, core: Seq<u8>, width: int, left: bool, zero: bool) -> Seq<u8> {
    let visible = if c == 83u8 { utf8_split(core).len() as int } else { core.len() as int };
    let len = sign.len() + visible;
    if len >= width { sign + core }
    else if left { sign + core + spaces(width - len) }
    else if zero && c != 115u8 { sign + zeros_text(width - len) + core }
    else { spaces(width - len) + sign + core }
}

/// The largest width or precision allowed (1 MB).
pub open spec fn pf_max() -> int { 1048576 }

pub open spec fn sat(v: int) -> int { if v > pf_cap() { pf_cap() } else { v } }

pub open spec fn no_flags() -> PfFlags { PfFlags { left: false, zero: false, plus: false, space: false, alt: false } }

/// Whether `c` is a conversion "printf()" knows.
pub open spec fn known_conv(c: u8) -> bool {
    is_int_conv(c) || is_float_conv(c) || c == 115u8 || c == 83u8 || c == 99u8
}

/// The parts of a conversion before its letter.
pub struct PfHead {
    pub pos: Option<int>,
    pub fl: PfFlags,
    pub width: int,
    pub left: bool,
    pub prec: Option<int>,
    pub j4: int,
    pub st: PfState,
}

/// The width at `j2` (a number, or "*" with an optional "N$" taking it
/// from an argument, a negative one aligning left): the width, whether
/// left-aligned, where it ends, and the state after reading the argument.
pub open spec fn width_part(f: Seq<u8>, a: Seq<typval_T>, st: PfState, j2: int, left0: bool) -> (int, bool, int, PfState) {
    if j2 < f.len() && f[j2] == 42u8 {
        let pw = pos_at(f, j2 + 1);
        let tw = take_num(a, match pw.0 { Some(n) => n, None => st.arg }, st);
        let st1 = if pw.0 is None { PfState { arg: tw.1.arg + 1, ..tw.1 } } else { tw.1 };
        (if tw.0 < 0 { sat(-tw.0) } else { sat(tw.0) }, left0 || tw.0 < 0, pw.1, st1)
    } else {
        let nw = num_at(f, j2, 0);
        (nw.0, left0, nw.1, st)
    }
}

/// The precision at `j3` (".", then a number or "*" as for the width, a
/// negative one counting as 0): the precision, where it ends, and the
/// state.
pub open spec fn prec_part(f: Seq<u8>, a: Seq<typval_T>, st: PfState, j3: int) -> (Option<int>, int, PfState) {
    if j3 < f.len() && f[j3] == 46u8 {
        if j3 + 1 < f.len() && f[j3 + 1] == 42u8 {
            let pp = pos_at(f, j3 + 2);
            let tp = take_num(a, match pp.0 { Some(n) => n, None => st.arg }, st);
            let st2 = if pp.0 is None { PfState { arg: tp.1.arg + 1, ..tp.1 } } else { tp.1 };
            (Some(if tp.0 < 0 { 0 } else { sat(tp.0) }), pp.1, st2)
        } else {
            let np = num_at(f, j3 + 1, 0);
            (Some(np.0), np.1, st)
        }
    } else {
        (None, j3, st)
    }
}

/// Reading "%[N$][flags][width][.prec]" from `st.i`: the parts, where the
/// letter stands, and the state once the "*" arguments are read.
pub open spec fn conv_head(f: Seq<u8>, a: Seq<typval_T>, st: PfState) -> PfHead {
    let pa = pos_at(f, st.i + 1);
    let fa = flags_at(f, pa.1, no_flags());
    let w = width_part(f, a, st, fa.1, fa.0.left);
    let p = prec_part(f, a, w.3, w.2);
    PfHead { pos: pa.0, fl: fa.0, width: w.0, left: w.1, prec: p.0, j4: p.1, st: p.2 }
}

/// The text of conversion `c` of argument `want` (before precision on
/// integers, signs and padding), and whether it is a float that is not
/// finite, and NaN.
pub open spec fn conv_core<F: Fn(u8, Option<u64>, Option<&typval_T>) -> FloatText>(
    a: Seq<typval_T>, echo: Seq<Seq<u8>>, ff: F, c: u8, want: int, prec: Option<int>,
) -> (Seq<u8>, bool, bool) {
    let has = 0 <= want < a.len();
    let n = if has { number_chk_result(a[want]@, false) } else { 0 };
    if is_int_conv(c) { (int_core(c, n), false, false) }
    else if c == 115u8 || c == 83u8 { (str_prec(if has { echo[want] } else { Seq::empty() }, prec), false, false) }
    else if c == 99u8 { (char2bytes((twos(n) % 256) as int), false, false) }
    else { float_text(ff, c, match prec { Some(p) => Some(p as u64), None => None }, a, want) }
}

/// One conversion, with `st.i` at its '%'.
pub open spec fn conv_step<F: Fn(u8, Option<u64>, Option<&typval_T>) -> FloatText>(
    f: Seq<u8>, a: Seq<typval_T>, echo: Seq<Seq<u8>>, ff: F, st: PfState,
) -> PfState {
    let h = conv_head(f, a, st);
    let st2 = h.st;
    let j4 = h.j4;
    if h.width > pf_max() || (h.prec is Some && h.prec->Some_0 > pf_max()) {
        PfState { err: true, done: true, i: j4, ..st2 }
    } else if j4 >= f.len() {
        PfState { out: st2.out.push(37u8), done: true, i: j4, ..st2 }
    } else {
        let c = f[j4];
        if c == 37u8 {
            PfState { out: st2.out.push(37u8), i: j4 + 1, ..st2 }
        } else {
            let want = match h.pos { Some(n) => n, None => st2.arg };
            let has = 0 <= want < a.len();
            if is_float_conv(c) && has && !(a[want].v_type == VarType::VAR_NUMBER || a[want].v_type == VarType::VAR_FLOAT) {
                PfState { err: true, done: true, i: j4 + 1, ..st2 }
            } else {
                let st3 = if has { PfState { used_max: if want > st2.used_max { want } else { st2.used_max }, ..st2 } }
                    else { PfState { missing: true, ..st2 } };
                if !known_conv(c) {
                    PfState { out: st3.out + seq![37u8, c], i: j4 + 1, ..st3 }
                } else {
                    let cc = conv_core(a, echo, ff, c, want, h.prec);
                    let nonfinite = is_float_conv(c) && cc.1;
                    let nan = is_float_conv(c) && cc.2;
                    let int_p = is_int_conv(c) && h.prec is Some;
                    let core = if int_p { int_prec(cc.0, h.prec->Some_0) } else { cc.0 };
                    let zero = h.fl.zero && !nonfinite && !int_p;
                    let sp = sign_split(c, core, h.fl, nan);
                    PfState {
                        out: st3.out + pad(c, sp.0, sp.1, h.width, h.left, zero),
                        i: j4 + 1,
                        arg: if h.pos is None { st3.arg + 1 } else { st3.arg },
                        ..st3
                    }
                }
            }
        }
    }
}

/// One step: a literal byte, or a conversion.
pub open spec fn pf_step<F: Fn(u8, Option<u64>, Option<&typval_T>) -> FloatText>(
    f: Seq<u8>, a: Seq<typval_T>, echo: Seq<Seq<u8>>, ff: F, st: PfState,
) -> PfState {
    if f[st.i] == 37u8 { conv_step(f, a, echo, ff, st) } else { PfState { out: st.out.push(f[st.i]), i: st.i + 1, ..st } }
}

/// Up to `fuel` steps from `st`.
pub open spec fn pf_run<F: Fn(u8, Option<u64>, Option<&typval_T>) -> FloatText>(
    f: Seq<u8>, a: Seq<typval_T>, echo: Seq<Seq<u8>>, ff: F, st: PfState, fuel: nat,
) -> PfState
    decreases fuel,
{
    if fuel == 0 || st.done || st.i < 0 || st.i >= f.len() { st } else { pf_run(f, a, echo, ff, pf_step(f, a, echo, ff, st), (fuel - 1) as nat) }
}

pub open spec fn pf_init() -> PfState {
    PfState { i: 0, arg: 1, used_max: 0, missing: false, err: false, done: false, out: Seq::empty() }
}

/// What "printf()" makes of format `f` and arguments `a` (`echo` holding
/// each argument's ":echo" text): "" after an error, a missing argument or
/// an argument left over.
pub open spec fn printf_result<F: Fn(u8, Option<u64>, Option<&typval_T>) -> FloatText>(
    f: Seq<u8>, a: Seq<typval_T>, echo: Seq<Seq<u8>>, ff: F,
) -> Seq<u8> {
    let st = pf_run(f, a, echo, ff, pf_init(), f.len());
    if st.err || st.missing || st.used_max + 1 < a.len() { Seq::empty() } else { st.out }
}

// ── running it ──

fn flags_at_exec(f: &[u8], j: usize) -> (r: (PfFlags, usize))
    requires j <= f@.len(),
    ensures (r.0, r.1 as int) == flags_at(f@, j as int, no_flags()), j <= r.1 <= f@.len(),
{
    let mut fl = PfFlags { left: false, zero: false, plus: false, space: false, alt: false };
    let mut k = j;
    while k < f.len() && (f[k] == 45u8 || f[k] == 48u8 || f[k] == 43u8 || f[k] == 32u8 || f[k] == 35u8)
        invariant j <= k <= f@.len(), flags_at(f@, k as int, fl) == flags_at(f@, j as int, no_flags()),
        decreases f.len() - k,
    {
        let b = f[k];
        fl = PfFlags { left: fl.left || b == 45u8, zero: fl.zero || b == 48u8, plus: fl.plus || b == 43u8,
            space: fl.space || b == 32u8, alt: fl.alt || b == 35u8 };
        k += 1;
    }
    (fl, k)
}

/// The state of a run.
pub struct PfRun {
    pub i: usize,
    pub arg: u64,
    pub used_max: u64,
    pub missing: bool,
    pub err: bool,
    pub done: bool,
    pub out: Vec<u8>,
}

impl View for PfRun {
    type V = PfState;
    open spec fn view(&self) -> PfState {
        PfState { i: self.i as int, arg: self.arg as int, used_max: self.used_max as int, missing: self.missing,
            err: self.err, done: self.done, out: self.out@ }
    }
}

/// The counters stay small: the next argument at most one past the
/// position, the highest read at most a capped number past it.
pub open spec fn pf_bounds(st: PfState) -> bool {
    0 <= st.arg <= st.i + 1 && 0 <= st.used_max <= pf_cap() + st.i + 1 && 0 <= st.i
}

fn take_num_exec(a: &[typval_T], src: u64, st: &mut PfRun) -> (r: i64)
    ensures (r as int, final(st)@) == take_num(a@, src as int, old(st)@),
{
    if src < a.len() as u64 {
        let v = tv_get_number_chk(&a[src as usize], None);
        if src > st.used_max { st.used_max = src; }
        v
    } else {
        st.missing = true;
        0
    }
}

fn sat_abs(w: i64) -> (r: u64)
    ensures r as int == (if w < 0 { sat(-w) } else { sat(w as int) }), r <= pf_cap(),
{
    if w < 0 {
        if w < -0x1_0000_0000i64 { 0x1_0000_0000 } else { (-w) as u64 }
    } else {
        if w > 0x1_0000_0000i64 { 0x1_0000_0000 } else { w as u64 }
    }
}

fn cut_exec(s: &Vec<u8>, p: u64) -> (r: Vec<u8>)
    ensures r@ == str_prec(s@, Some(p as int)),
{
    if (s.len() as u64) <= p {
        return crate::highlight::bytes_copy(s);
    }
    let mut e: usize = p as usize;
    proof { lemma_cut_at(s@, e as int); }
    while e > 0 && e < s.len() && 0x80 <= s[e] && s[e] <= 0xbf
        invariant e <= p, e <= s@.len(), cut_at(s@, e as int) == cut_at(s@, p as int),
        decreases e,
    {
        e -= 1;
    }
    let r = crate::dup::slice_to_vec(&s[0..e]);
    assert(r@ =~= s@.subrange(0, cut_at(s@, p as int)));
    r
}

proof fn lemma_radix_decimal(m: nat)
    ensures radix(m, 10, false) == crate::charset::nat_digits(m),
    decreases m,
{
    if m >= 10 {
        lemma_radix_decimal(m / 10);
        assert(digit_char((m % 10) as int, false) == (48 + m % 10) as u8);
        assert(radix(m / 10, 10, false) + seq![digit_char((m % 10) as int, false)]
            =~= crate::charset::nat_digits(m / 10).push((48 + m % 10) as u8));
    } else {
        assert(digit_char(m as int, false) == (48 + m) as u8);
    }
}

/// The number a digit text stands for in `base`.
pub open spec fn text_value(s: Seq<u8>, base: int) -> int
    decreases s.len(),
{
    if s.len() == 0 { 0 } else { text_value(s.drop_last(), base) * base + crate::charset::digit_val(s.last()) }
}

proof fn lemma_digit_char_value(d: int, upper: bool)
    requires 0 <= d < 16,
    ensures
        crate::charset::digit_val(digit_char(d, upper)) == d,
        d < 2 ==> crate::charset::is_base_digit(digit_char(d, upper), 2),
        d < 8 ==> crate::charset::is_base_digit(digit_char(d, upper), 8),
        d < 10 ==> crate::charset::is_base_digit(digit_char(d, upper), 10),
        crate::charset::is_base_digit(digit_char(d, upper), 16),
        d > 0 ==> digit_char(d, upper) != 48u8,
{
}

proof fn lemma_radix_value(n: nat, base: nat, upper: bool)
    requires base == 2 || base == 8 || base == 10 || base == 16,
    ensures
        text_value(radix(n, base, upper), base as int) == n,
        radix(n, base, upper).len() >= 1,
        forall|k: int| 0 <= k < radix(n, base, upper).len() ==> crate::charset::is_base_digit(#[trigger] radix(n, base, upper)[k], base as int),
        n > 0 ==> radix(n, base, upper)[0] != 48u8,
    decreases n,
{
    let r = radix(n, base, upper);
    if n < base {
        assert(r == seq![digit_char(n as int, upper)]);
        assert(r.drop_last() =~= Seq::<u8>::empty());
        lemma_digit_char_value(n as int, upper);
        assert(r.last() == digit_char(n as int, upper));
        assert(text_value(r.drop_last(), base as int) == 0);
    } else {
        let q = n / base;
        let d = n % base;
        assert(q < n && q >= 1 && n == q * base + d && 0 <= d < base) by (nonlinear_arith) requires n >= base, base >= 2, q == n / base, d == n % base;
        lemma_radix_value(q, base, upper);
        let p = radix(q, base, upper);
        assert(r == p + seq![digit_char(d as int, upper)]);
        assert(r.drop_last() =~= p);
        lemma_digit_char_value(d as int, upper);
        assert(r.last() == digit_char(d as int, upper));
        assert(text_value(r, base as int) == text_value(p, base as int) * base + d);
        assert(text_value(p, base as int) * base + d == n) by (nonlinear_arith)
            requires text_value(p, base as int) == q, n == q * base + d;
        assert forall|k: int| 0 <= k < r.len() implies crate::charset::is_base_digit(#[trigger] r[k], base as int) by {
            if k < p.len() { assert(r[k] == p[k]); }
        }
        assert(r[0] == p[0]);
    }
}

/// "%x", "%X", "%o", "%b", "%B" and "%u" write the Number in base 16, 8, 2
/// and 10, with digits of that base only and no leading zero but for 0; a
/// negative Number is written as its 64-bit two's complement (the Number
/// plus 2 to the 64th), as C writes it unsigned. Read back, the digits give
/// that value.
pub proof fn lemma_printf_unsigned_radix(c: u8, n: int)
    requires
        c == 120u8 || c == 88u8 || c == 111u8 || c == 98u8 || c == 66u8 || c == 117u8,
        i64::MIN <= n <= i64::MAX,
    ensures ({
        let base = if c == 120u8 || c == 88u8 { 16int } else if c == 111u8 { 8int } else if c == 117u8 { 10int } else { 2int };
        let v = if n < 0 { n + 0x1_0000_0000_0000_0000 } else { n };
        let s = int_core(c, n);
        &&& text_value(s, base) == v
        &&& s.len() >= 1
        &&& forall|k: int| 0 <= k < s.len() ==> crate::charset::is_base_digit(#[trigger] s[k], base)
        &&& v > 0 ==> s[0] != 48u8
    }),
{
    let base: nat = if c == 120u8 || c == 88u8 { 16 } else if c == 111u8 { 8 } else if c == 117u8 { 10 } else { 2 };
    lemma_radix_value(twos(n), base, c == 88u8);
}

/// "%d" and "%i" both write a Number in signed decimal, as "string()" does:
/// a negative Number as '-' followed by the digits of its magnitude.
pub proof fn lemma_printf_d_i_decimal(n: int)
    ensures
        int_core(105u8, n) == crate::charset::nr2str(n),
        int_core(100u8, n) == crate::charset::nr2str(n),
        int_core(105u8, n) == int_core(100u8, n),
        n < 0 ==> int_core(105u8, n) == seq![45u8] + crate::charset::nat_digits((-n) as nat),
        is_int_conv(105u8) && known_conv(105u8) && !is_float_conv(105u8),
        forall|core: Seq<u8>, fl: PfFlags, nan: bool| #[trigger] sign_split(105u8, core, fl, nan) == sign_split(100u8, core, fl, nan),
        forall|sign: Seq<u8>, core: Seq<u8>, w: int, left: bool, zero: bool|
            #[trigger] pad(105u8, sign, core, w, left, zero) == pad(100u8, sign, core, w, left, zero),
{
    if n < 0 {
        lemma_radix_decimal((-n) as nat);
    } else {
        lemma_radix_decimal(n as nat);
    }
}

fn int_core_exec(c: u8, n: i64) -> (r: Vec<u8>)
    ensures r@ == int_core(c, n as int),
{
    if c == 100u8 || c == 105u8 { dec_exec(n) }
    else if c == 120u8 { radix_exec(twos_exec(n), 16, false) }
    else if c == 88u8 { radix_exec(twos_exec(n), 16, true) }
    else if c == 111u8 { radix_exec(twos_exec(n), 8, false) }
    else if c == 98u8 || c == 66u8 { radix_exec(twos_exec(n), 2, false) }
    else { radix_exec(twos_exec(n), 10, false) }
}

fn repeat_byte(b: u8, n: u64) -> (r: Vec<u8>)
    requires n <= pf_cap(),
    ensures r@ == Seq::new(n as nat, |k: int| b),
{
    let mut v: Vec<u8> = Vec::new();
    let mut k: u64 = 0;
    while k < n
        invariant k <= n, v@ == Seq::new(k as nat, |q: int| b),
        decreases n - k,
    {
        v.push(b);
        k += 1;
        assert(v@ =~= Seq::new(k as nat, |q: int| b));
    }
    v
}

fn int_prec_exec(core: Vec<u8>, p: u64) -> (r: Vec<u8>)
    requires p <= pf_max(),
    ensures r@ == int_prec(core@, p as int),
{
    let neg = core.len() > 0 && core[0] == 45u8;
    let digits: Vec<u8> = if neg { crate::dup::slice_to_vec(&core[1..core.len()]) } else { core };
    assert(neg ==> digits@ =~= core@.drop_first());
    let is_zero = digits.len() == 1 && digits[0] == 48u8;
    assert(is_zero == (digits@ == seq![48u8])) by {
        if digits@ == seq![48u8] { assert(digits@.len() == 1 && digits@[0] == 48u8); }
        if is_zero { assert(digits@ =~= seq![48u8]); }
    }
    let d2: Vec<u8> = if p == 0 && is_zero {
        Vec::new()
    } else if (digits.len() as u64) < p {
        let mut z = repeat_byte(48u8, p - digits.len() as u64);
        crate::dup::append_bytes(&mut z, digits.as_slice());
        z
    } else {
        digits
    };
    if neg {
        let mut v: Vec<u8> = Vec::new();
        v.push(45u8);
        crate::dup::append_bytes(&mut v, d2.as_slice());
        v
    } else {
        d2
    }
}

fn sign_split_exec(c: u8, core: Vec<u8>, fl: &PfFlags, nan: bool) -> (r: (Vec<u8>, Vec<u8>))
    ensures (r.0@, r.1@) == sign_split(c, core@, *fl, nan),
{
    let signed = c == 100u8 || c == 105u8 || c == 102u8 || c == 70u8 || c == 101u8 || c == 69u8 || c == 103u8 || c == 71u8;
    if nan {
        (Vec::new(), core)
    } else if signed {
        if core.len() > 0 && core[0] == 45u8 {
            let rest = crate::dup::slice_to_vec(&core[1..core.len()]);
            assert(rest@ =~= core@.drop_first());
            (vec![45u8], rest)
        } else if fl.plus { (vec![43u8], core) }
        else if fl.space { (vec![32u8], core) }
        else { (Vec::new(), core) }
    } else if fl.alt {
        let not_zero = !(core.len() == 1 && core[0] == 48u8);
        assert(not_zero == (core@ != seq![48u8])) by {
            if core@ == seq![48u8] { assert(core@.len() == 1 && core@[0] == 48u8); }
            if !not_zero { assert(core@ =~= seq![48u8]); }
        }
        let pre: Vec<u8> = if c == 120u8 && not_zero { vec![48u8, 120u8] }
            else if c == 88u8 && not_zero { vec![48u8, 88u8] }
            else if c == 98u8 && not_zero { vec![48u8, 98u8] }
            else if c == 66u8 && not_zero { vec![48u8, 66u8] }
            else if c == 111u8 && !(core.len() > 0 && core[0] == 48u8) { vec![48u8] }
            else { Vec::new() };
        (pre, core)
    } else {
        (Vec::new(), core)
    }
}

fn pad_exec(out: &mut Vec<u8>, c: u8, sign: &Vec<u8>, core: &Vec<u8>, width: u64, left: bool, zero: bool)
    requires width <= pf_max(),
    ensures final(out)@ == old(out)@ + pad(c, sign@, core@, width as int, left, zero),
{
    let visible: u64 = if c == 83u8 { utf8_chars(core.as_slice()).len() as u64 } else { core.len() as u64 };
    let sl = sign.len() as u64;
    let ghost o = out@;
    if visible >= width || sl >= width - visible {
        crate::dup::append_bytes(out, sign.as_slice());
        crate::dup::append_bytes(out, core.as_slice());
        assert(out@ =~= o + (sign@ + core@));
    } else {
        let padn = width - visible - sl;
        if left {
            crate::dup::append_bytes(out, sign.as_slice());
            crate::dup::append_bytes(out, core.as_slice());
            let sp = repeat_byte(32u8, padn);
            crate::dup::append_bytes(out, sp.as_slice());
            assert(out@ =~= o + (sign@ + core@ + spaces(padn as int)));
        } else if zero && c != 115u8 {
            crate::dup::append_bytes(out, sign.as_slice());
            let z = repeat_byte(48u8, padn);
            crate::dup::append_bytes(out, z.as_slice());
            crate::dup::append_bytes(out, core.as_slice());
            assert(out@ =~= o + (sign@ + zeros_text(padn as int) + core@));
        } else {
            let sp = repeat_byte(32u8, padn);
            crate::dup::append_bytes(out, sp.as_slice());
            crate::dup::append_bytes(out, sign.as_slice());
            crate::dup::append_bytes(out, core.as_slice());
            assert(out@ =~= o + (spaces(padn as int) + sign@ + core@));
        }
    }
}

/// The formatter may be called on anything and answers one way.
pub open spec fn formatter_ok<F: Fn(u8, Option<u64>, Option<&typval_T>) -> FloatText>(ff: F) -> bool {
    deterministic(ff) && forall|x: (u8, Option<u64>, Option<&typval_T>)| call_requires(ff, x)
}

fn width_exec(f: &[u8], a: &[typval_T], st: &mut PfRun, j2: usize, left0: bool) -> (r: (u64, bool, usize))
    requires j2 <= f@.len(), f@.len() < 0x4000_0000_0000_0000, old(st).arg as int <= f@.len() + 2,
    ensures
        (r.0 as int, r.1, r.2 as int, final(st)@) == width_part(f@, a@, old(st)@, j2 as int, left0),
        j2 <= r.2 <= f@.len(), r.0 <= pf_cap(),
        final(st).i == old(st).i, final(st).out@ == old(st).out@, final(st).err == old(st).err, final(st).done == old(st).done,
        old(st).arg <= final(st).arg, final(st).arg + j2 <= old(st).arg + r.2,
        final(st).used_max <= old(st).used_max || final(st).used_max <= pf_cap() || final(st).used_max <= old(st).arg,
{
    if j2 < f.len() && f[j2] == 42u8 {
        let (pw, jw) = pos_at_exec(f, j2 + 1);
        let src = match pw { Some(n) => n, None => st.arg };
        let w = take_num_exec(a, src, st);
        if pw.is_none() { st.arg = st.arg + 1; }
        (sat_abs(w), left0 || w < 0, jw)
    } else {
        let (w, jw) = num_at_exec(f, j2);
        (w, left0, jw)
    }
}

fn prec_exec(f: &[u8], a: &[typval_T], st: &mut PfRun, j3: usize) -> (r: (Option<u64>, usize))
    requires j3 <= f@.len(), f@.len() < 0x4000_0000_0000_0000, old(st).arg as int <= f@.len() + 2,
    ensures
        ((match r.0 { Some(n) => Some(n as int), None => None }), r.1 as int, final(st)@) == prec_part(f@, a@, old(st)@, j3 as int),
        j3 <= r.1 <= f@.len(), r.0 is Some ==> r.0->Some_0 <= pf_cap(),
        final(st).i == old(st).i, final(st).out@ == old(st).out@, final(st).err == old(st).err, final(st).done == old(st).done,
        old(st).arg <= final(st).arg, final(st).arg + j3 <= old(st).arg + r.1,
        final(st).used_max <= old(st).used_max || final(st).used_max <= pf_cap() || final(st).used_max <= old(st).arg,
{
    if j3 < f.len() && f[j3] == 46u8 {
        if j3 + 1 < f.len() && f[j3 + 1] == 42u8 {
            let (pp, jp) = pos_at_exec(f, j3 + 2);
            let src = match pp { Some(n) => n, None => st.arg };
            let p = take_num_exec(a, src, st);
            if pp.is_none() { st.arg = st.arg + 1; }
            (Some(if p < 0 { 0 } else { sat_abs(p) }), jp)
        } else {
            let (p, jp) = num_at_exec(f, j3 + 1);
            (Some(p), jp)
        }
    } else {
        (None, j3)
    }
}

fn head_exec(f: &[u8], a: &[typval_T], st: &mut PfRun) -> (r: (Option<u64>, PfFlags, u64, bool, Option<u64>, usize))
    requires
        old(st).i < f@.len(), pf_bounds(old(st)@), f@.len() < 0x4000_0000_0000_0000,
    ensures
        (match r.0 { Some(n) => Some(n as int), None => None }) == conv_head(f@, a@, old(st)@).pos,
        r.1 == conv_head(f@, a@, old(st)@).fl,
        r.2 as int == conv_head(f@, a@, old(st)@).width,
        r.3 == conv_head(f@, a@, old(st)@).left,
        (match r.4 { Some(n) => Some(n as int), None => None }) == conv_head(f@, a@, old(st)@).prec,
        r.5 as int == conv_head(f@, a@, old(st)@).j4,
        final(st)@ == conv_head(f@, a@, old(st)@).st,
        old(st)@.i < r.5 <= f@.len(),
        r.0 is Some ==> r.0->Some_0 <= pf_cap(),
        r.2 <= pf_cap(), r.4 is Some ==> r.4->Some_0 <= pf_cap(),
        final(st).i == old(st).i, final(st).out@ == old(st).out@, final(st).err == old(st).err, final(st).done == old(st).done,
        old(st).arg <= final(st).arg, final(st).arg + old(st).i + 1 <= old(st).arg + r.5,
        final(st).used_max <= pf_cap() + r.5 + 1,
{
    let flen = f.len();
    let (pos, j1) = pos_at_exec(f, st.i + 1);
    let (fl, j2) = flags_at_exec(f, j1);
    let (width, left, j3) = width_exec(f, a, st, j2, fl.left);
    let (prec, j4) = prec_exec(f, a, st, j3);
    (pos, fl, width, left, prec, j4)
}

fn core_exec<F: Fn(u8, Option<u64>, Option<&typval_T>) -> FloatText>(
    a: &[typval_T], echo: &Vec<Vec<u8>>, ff: &F, c: u8, want: u64, prec: Option<u64>,
) -> (r: (Vec<u8>, bool, bool))
    requires echo@.len() == a@.len(), formatter_ok(*ff), known_conv(c),
    ensures
        (r.0@, r.1, r.2) == conv_core(a@, crate::highlight::names_view(echo@), *ff, c, want as int,
            match prec { Some(p) => Some(p as int), None => None }),
{
    let has = want < a.len() as u64;
    let n: i64 = if has { tv_get_number_chk(&a[want as usize], None) } else { 0 };
    let is_int = c == 100u8 || c == 105u8 || c == 111u8 || c == 117u8 || c == 120u8 || c == 88u8 || c == 98u8 || c == 66u8;
    if is_int {
        (int_core_exec(c, n), false, false)
    } else if c == 115u8 || c == 83u8 {
        let e: Vec<u8> = if has { crate::highlight::bytes_copy(&echo[want as usize]) } else { Vec::new() };
        (match prec { Some(p) => cut_exec(&e, p), None => e }, false, false)
    } else if c == 99u8 {
        let b = twos_exec(n) % 256;
        (char_to_bytes(b as u32), false, false)
    } else {
        let arg: Option<&typval_T> = if has { Some(&a[want as usize]) } else { None };
        let r = ff(c, prec, arg);
        proof {
            let x = (c, prec, arg);
            assert(call_ensures(*ff, x, r));
            let ch = choose|q: FloatText| call_ensures(*ff, x, q);
            assert(call_ensures(*ff, x, ch));
            assert(float_view(ch) == float_view(r));
        }
        (r.text, r.nonfinite, r.nan)
    }
}

#[verifier::rlimit(100)]
#[verifier::spinoff_prover]
fn conv_exec<F: Fn(u8, Option<u64>, Option<&typval_T>) -> FloatText>(
    f: &[u8], a: &[typval_T], echo: &Vec<Vec<u8>>, ff: &F, st: &mut PfRun,
)
    requires
        old(st).i < f@.len(), f@[old(st).i as int] == 37u8, echo@.len() == a@.len(), formatter_ok(*ff),
        pf_bounds(old(st)@), f@.len() < 0x4000_0000_0000_0000,
    ensures
        final(st)@ == conv_step(f@, a@, crate::highlight::names_view(echo@), *ff, old(st)@),
        pf_bounds(final(st)@), final(st)@.i > old(st)@.i, final(st)@.i <= f@.len(),
{
    let (pos, fl, width, left, prec, j4) = head_exec(f, a, st);
    let prec_big = match prec { Some(p) => p > 1048576, None => false };
    if width > 1048576 || prec_big {
        st.err = true;
        st.done = true;
        st.i = j4;
        return;
    }
    if j4 >= f.len() {
        st.out.push(37u8);
        st.done = true;
        st.i = j4;
        return;
    }
    let c = f[j4];
    if c == 37u8 {
        st.out.push(37u8);
        st.i = j4 + 1;
        return;
    }
    let want: u64 = match pos { Some(n) => n, None => st.arg };
    let has = want < a.len() as u64;
    let is_float = c == 102u8 || c == 70u8 || c == 101u8 || c == 69u8 || c == 103u8 || c == 71u8;
    if is_float && has && !(a[want as usize].v_type == VarType::VAR_NUMBER || a[want as usize].v_type == VarType::VAR_FLOAT) {
        st.err = true;
        st.done = true;
        st.i = j4 + 1;
        return;
    }
    if has {
        if want > st.used_max { st.used_max = want; }
    } else {
        st.missing = true;
    }
    let is_int = c == 100u8 || c == 105u8 || c == 111u8 || c == 117u8 || c == 120u8 || c == 88u8 || c == 98u8 || c == 66u8;
    let known = is_int || is_float || c == 115u8 || c == 83u8 || c == 99u8;
    if !known {
        let ghost o = st.out@;
        st.out.push(37u8);
        st.out.push(c);
        assert(st.out@ =~= o + seq![37u8, c]);
        st.i = j4 + 1;
        return;
    }
    let (core0, nonfinite0, nan0) = core_exec(a, echo, ff, c, want, prec);
    let nonfinite = is_float && nonfinite0;
    let nan = is_float && nan0;
    let int_p = is_int && prec.is_some();
    let core = if int_p {
        match prec { Some(p) => int_prec_exec(core0, p), None => core0 }
    } else {
        core0
    };
    let zero = fl.zero && !nonfinite && !int_p;
    let (sign, rest) = sign_split_exec(c, core, &fl, nan);
    pad_exec(&mut st.out, c, &sign, &rest, width, left, zero);
    if pos.is_none() { st.arg = st.arg + 1; }
    st.i = j4 + 1;
}

/// "printf({fmt}, {expr1}...)": the arguments formatted by `{fmt}` (see
/// `printf_result`). `fmt_ok` is the verdict of the format's check of its
/// "N$" conversions (mixed, unused or conflicting ones make the result "");
/// `echo` holds the ":echo" text of each argument, which "%s" shows; `ff`
/// formats the float conversions.
pub fn f_printf<F: Fn(u8, Option<u64>, Option<&typval_T>) -> FloatText>(
    argvars: &[typval_T], rettv: &mut typval_T, fmt_ok: bool, echo: &Vec<Vec<u8>>, ff: &F,
)
    requires
        argvars@.len() >= 1, echo@.len() == argvars@.len(), formatter_ok(*ff),
        string_or_empty(argvars@[0]@).len() < 0x4000_0000_0000_0000,
    ensures
        final(rettv)@ == with_string(old(rettv)@, if fmt_ok {
            printf_result(string_or_empty(argvars@[0]@), argvars@, crate::highlight::names_view(echo@), *ff)
        } else {
            Seq::empty()
        }),
{
    rettv.v_type = VarType::VAR_STRING;
    let fmt = tv_get_string(&argvars[0]);
    if !fmt_ok {
        rettv.vval = typval_vval_union::v_string(Vec::new());
        return;
    }
    let f = fmt.as_slice();
    let ghost ev = crate::highlight::names_view(echo@);
    let mut st = PfRun { i: 0, arg: 1, used_max: 0, missing: false, err: false, done: false, out: Vec::new() };
    assert(st@ == pf_init());
    let ghost mut n: int = 0;
    while st.i < f.len() && !st.done
        invariant
            pf_bounds(st@), st.i <= f@.len(), 0 <= n <= st.i, f@.len() < 0x4000_0000_0000_0000,
            echo@.len() == argvars@.len(), formatter_ok(*ff), ev == crate::highlight::names_view(echo@),
            pf_run(f@, argvars@, ev, *ff, pf_init(), f@.len()) == pf_run(f@, argvars@, ev, *ff, st@, (f@.len() - n) as nat),
        decreases f.len() - st.i,
    {
        let ghost s0 = st@;
        if f[st.i] == 37u8 {
            conv_exec(f, argvars, echo, ff, &mut st);
        } else {
            let b = f[st.i];
            st.out.push(b);
            st.i = st.i + 1;
        }
        assert(st@ == pf_step(f@, argvars@, ev, *ff, s0));
        proof { n = n + 1; }
    }
    let ghost fin = st@;
    assert(pf_run(f@, argvars@, ev, *ff, fin, (f@.len() - n) as nat) == fin);
    if st.err || st.missing || st.used_max + 1 < argvars.len() as u64 {
        rettv.vval = typval_vval_union::v_string(Vec::new());
    } else {
        rettv.vval = typval_vval_union::v_string(st.out);
    }
}

} // verus!
