//! The assertions of Vim's test framework: each failure adds a message to v:errors.
use vstd::prelude::*;
use crate::typval_defs::{
    varnumber_T, OK, FAIL, VarType, VarLockStatus, BoolVarValue, SpecialVarValue, typval_vval_union,
    typval_T, list_T, dict_T, dictitem_T, blob_T, partial_T, Callback, DictWatcher, TypVal, VVal,
    ListVal, DictVal, BlobVal, CallbackVal, WatcherVal, tv_view, list_view, dict_view, items_view, dict_index_of,
    mk_tv, num_tv, str_tv, list_tv, blob_tv, dict_tv, empty_dict_val, dict_wf, keys_unique,
    lemma_items_view_ext, lemma_items_view_index, lemma_items_view_push, lemma_items_view_subrange,
    lemma_items_view_add, lemma_items_view_reverse, lemma_items_view_update, lemma_items_view_insert,
    lemma_items_view_remove, lemma_items_view_empty,
};
use crate::charset::{nr2str, nr2bytes, str2nr, str2nr_all};
use crate::dup::{bytes_dup, tv_dup, list_dup, dict_dup, blob_dup, items_dup, slice_to_vec, callback_dup, append_bytes};
use crate::typval::{
    number_of, number_chk_result, string_of, string_or_empty, tv_get_number_chk, tv_get_number,
    tv_get_bool, tv_get_string, tv_get_string_chk, tv_get_string_buf_chk, tv_equal, tv_equal_spec,
    bytes_eq, dict_find_index,
};
use crate::typval_list::number_tv;
use crate::usercmd::quote_spec;
use crate::mapping::{starts_with, starts_with_exec};
use crate::highlight::{names_view, bytes_copy};

verus! {


/// The kind of a failed assertion, which picks the wording of its message.
pub enum AssertType {
    Equal,
    NotEqual,
    Match,
    NotMatch,
    Other,
}

/// The "{msg}: " a user message gives (its ":echo" text), or nothing where
/// argument `idx` is absent.
pub open spec fn msg_prefix(a: Seq<typval_T>, echo: Seq<Seq<u8>>, idx: int) -> Seq<u8> {
    if 0 <= idx < a.len() && a[idx].v_type != VarType::VAR_UNKNOWN { echo[idx] + seq![58u8, 32u8] } else { Seq::empty() }
}

pub open spec fn w_pattern() -> Seq<u8> { seq![80u8, 97, 116, 116, 101, 114, 110, 32] }
pub open spec fn w_expected() -> Seq<u8> { seq![69u8, 120, 112, 101, 99, 116, 101, 100, 32] }
pub open spec fn w_not_equal() -> Seq<u8> { w_expected() + seq![110u8, 111, 116, 32, 101, 113, 117, 97, 108, 32, 116, 111, 32] }
pub open spec fn w_no_match() -> Seq<u8> { seq![32u8, 100, 111, 101, 115, 32, 110, 111, 116, 32, 109, 97, 116, 99, 104, 32] }
pub open spec fn w_does_match() -> Seq<u8> { seq![32u8, 100, 111, 101, 115, 32, 109, 97, 116, 99, 104, 32] }
pub open spec fn w_but_got() -> Seq<u8> { seq![32u8, 98, 117, 116, 32, 103, 111, 116, 32] }

/// The message of a failed assertion: the prefix, "Expected …"/"Pattern …"
/// with the expected text, then (but for "not equal") what was got.
pub open spec fn fill_spec(prefix: Seq<u8>, t: AssertType, exp: Seq<u8>, got: Seq<u8>) -> Seq<u8> {
    let head = match t { AssertType::Match | AssertType::NotMatch => w_pattern(), AssertType::NotEqual => w_not_equal(), _ => w_expected() };
    let tail = match t {
        AssertType::NotEqual => Seq::empty(),
        AssertType::Match => w_no_match() + got,
        AssertType::NotMatch => w_does_match() + got,
        _ => w_but_got() + got,
    };
    prefix + head + exp + tail
}

fn lit(v: Vec<u8>) -> (r: Vec<u8>)
    ensures r@ == v@,
{
    v
}

/// The message of a failed assertion (see `fill_spec`).
pub fn fill_assert_error(prefix: &[u8], t: &AssertType, exp: &[u8], got: &[u8]) -> (r: Vec<u8>)
    ensures r@ == fill_spec(prefix@, *t, exp@, got@),
{
    let mut out = crate::dup::slice_to_vec(prefix);
    let head: Vec<u8> = match t {
        AssertType::Match | AssertType::NotMatch => { let v = vec![80u8, 97, 116, 116, 101, 114, 110, 32]; assert(v@ =~= w_pattern()); v },
        AssertType::NotEqual => {
            let v = vec![69u8, 120, 112, 101, 99, 116, 101, 100, 32, 110, 111, 116, 32, 101, 113, 117, 97, 108, 32, 116, 111, 32];
            assert(v@ =~= w_not_equal());
            v
        },
        _ => { let v = vec![69u8, 120, 112, 101, 99, 116, 101, 100, 32]; assert(v@ =~= w_expected()); v },
    };
    append_bytes(&mut out, head.as_slice());
    append_bytes(&mut out, exp);
    let ghost before = out@;
    match t {
        AssertType::NotEqual => {},
        AssertType::Match => {
            let v = vec![32u8, 100, 111, 101, 115, 32, 110, 111, 116, 32, 109, 97, 116, 99, 104, 32];
            assert(v@ =~= w_no_match());
            append_bytes(&mut out, v.as_slice());
            append_bytes(&mut out, got);
        },
        AssertType::NotMatch => {
            let v = vec![32u8, 100, 111, 101, 115, 32, 109, 97, 116, 99, 104, 32];
            assert(v@ =~= w_does_match());
            append_bytes(&mut out, v.as_slice());
            append_bytes(&mut out, got);
        },
        _ => {
            let v = vec![32u8, 98, 117, 116, 32, 103, 111, 116, 32];
            assert(v@ =~= w_but_got());
            append_bytes(&mut out, v.as_slice());
            append_bytes(&mut out, got);
        },
    }
    let ghost tl = match *t { AssertType::NotEqual => Seq::<u8>::empty(), AssertType::Match => w_no_match() + got@,
        AssertType::NotMatch => w_does_match() + got@, _ => w_but_got() + got@ };
    assert(out@ =~= before + tl);
    out
}

fn prefix_exec(a: &[typval_T], echo: &Vec<Vec<u8>>, idx: usize) -> (r: Vec<u8>)
    requires echo@.len() == a@.len(),
    ensures r@ == msg_prefix(a@, names_view(echo@), idx as int),
{
    if idx < a.len() && a[idx].v_type != VarType::VAR_UNKNOWN {
        let mut v = bytes_copy(&echo[idx]);
        v.push(58u8);
        v.push(32u8);
        v
    } else {
        Vec::new()
    }
}

/// What an assertion leaves: the result (1 failed, 0 passed) and the
/// messages added to v:errors.
pub open spec fn assert_outcome(errors: Seq<Seq<u8>>, failed: bool, msg: Seq<u8>) -> (int, Seq<Seq<u8>>) {
    if failed { (1, errors.push(msg)) } else { (0, errors) }
}

/// Whether `tv_equal` of the first two arguments is what "assert_equal()"
/// (`want_equal`) or "assert_notequal()" ask for, and the message otherwise.
pub open spec fn equal_spec(a: Seq<typval_T>, text: Seq<Seq<u8>>, echo: Seq<Seq<u8>>, want_equal: bool) -> (bool, Seq<u8>) {
    let eq = crate::typval::tv_equal_spec(a[0]@, a[1]@, false);
    (eq != want_equal, fill_spec(msg_prefix(a, echo, 2), if want_equal { AssertType::Equal } else { AssertType::NotEqual }, text[0], text[1]))
}

fn assert_equal_common(argvars: &[typval_T], rettv: &mut typval_T, errors: &mut Vec<Vec<u8>>, text: &Vec<Vec<u8>>, echo: &Vec<Vec<u8>>, want_equal: bool)
    requires argvars@.len() >= 2, text@.len() == argvars@.len(), echo@.len() == argvars@.len(),
    ensures ({
        let e = equal_spec(argvars@, names_view(text@), names_view(echo@), want_equal);
        let o = assert_outcome(names_view(old(errors)@), e.0, e.1);
        final(rettv)@ == num_tv(o.0) && names_view(final(errors)@) == o.1
    }),
{
    let eq = crate::typval::tv_equal(&argvars[0], &argvars[1], false);
    if eq != want_equal {
        let t = if want_equal { AssertType::Equal } else { AssertType::NotEqual };
        let p = prefix_exec(argvars, echo, 2);
        let msg = fill_assert_error(p.as_slice(), &t, text[0].as_slice(), text[1].as_slice());
        let ghost before = names_view(errors@);
        let ghost mv = msg@;
        errors.push(msg);
        assert(names_view(errors@) =~= before.push(mv));
        *rettv = number_tv(1);
    } else {
        *rettv = number_tv(0);
    }
}

/// "assert_equal({expected}, {actual} [, {msg}])": `text` holds the
/// string() text and `echo` the ":echo" text of each argument; a failure
/// adds its message to `errors` (v:errors) and gives 1.
pub fn f_assert_equal(argvars: &[typval_T], rettv: &mut typval_T, errors: &mut Vec<Vec<u8>>, text: &Vec<Vec<u8>>, echo: &Vec<Vec<u8>>)
    requires argvars@.len() >= 2, text@.len() == argvars@.len(), echo@.len() == argvars@.len(),
    ensures ({
        let e = equal_spec(argvars@, names_view(text@), names_view(echo@), true);
        let o = assert_outcome(names_view(old(errors)@), e.0, e.1);
        final(rettv)@ == num_tv(o.0) && names_view(final(errors)@) == o.1
    }),
{
    assert_equal_common(argvars, rettv, errors, text, echo, true);
}

/// "assert_notequal({expected}, {actual} [, {msg}])": the same, failing
/// when the two are equal.
pub fn f_assert_notequal(argvars: &[typval_T], rettv: &mut typval_T, errors: &mut Vec<Vec<u8>>, text: &Vec<Vec<u8>>, echo: &Vec<Vec<u8>>)
    requires argvars@.len() >= 2, text@.len() == argvars@.len(), echo@.len() == argvars@.len(),
    ensures ({
        let e = equal_spec(argvars@, names_view(text@), names_view(echo@), false);
        let o = assert_outcome(names_view(old(errors)@), e.0, e.1);
        final(rettv)@ == num_tv(o.0) && names_view(final(errors)@) == o.1
    }),
{
    assert_equal_common(argvars, rettv, errors, text, echo, false);
}

pub open spec fn w_true() -> Seq<u8> { seq![84u8, 114, 117, 101] }
pub open spec fn w_false() -> Seq<u8> { seq![70u8, 97, 108, 115, 101] }

/// Whether "assert_true()" (`is_true`) or "assert_false()" passes: a Number
/// or Bool that is (or is not) non-zero; anything else fails.
pub open spec fn bool_ok(t: TypVal, is_true: bool) -> bool {
    (t.ty == VarType::VAR_NUMBER || t.ty == VarType::VAR_BOOL) && ((number_chk_result(t, false) != 0) == is_true)
}

fn assert_bool(argvars: &[typval_T], rettv: &mut typval_T, errors: &mut Vec<Vec<u8>>, text: &Vec<Vec<u8>>, echo: &Vec<Vec<u8>>, is_true: bool)
    requires argvars@.len() >= 1, text@.len() == argvars@.len(), echo@.len() == argvars@.len(),
    ensures ({
        let msg = fill_spec(msg_prefix(argvars@, names_view(echo@), 1), AssertType::Other,
            if is_true { w_true() } else { w_false() }, names_view(text@)[0]);
        let o = assert_outcome(names_view(old(errors)@), !bool_ok(argvars@[0]@, is_true), msg);
        final(rettv)@ == num_tv(o.0) && names_view(final(errors)@) == o.1
    }),
{
    let v = &argvars[0];
    let ok = if v.v_type == VarType::VAR_NUMBER {
        (crate::typval::tv_get_number_chk(v, None) != 0) == is_true
    } else if v.v_type == VarType::VAR_BOOL {
        (crate::typval::tv_get_bool(v) != 0) == is_true
    } else {
        false
    };
    if !ok {
        let l: Vec<u8> = if is_true { let w = vec![84u8, 114, 117, 101]; assert(w@ =~= w_true()); w }
            else { let w = vec![70u8, 97, 108, 115, 101]; assert(w@ =~= w_false()); w };
        let p = prefix_exec(argvars, echo, 1);
        let msg = fill_assert_error(p.as_slice(), &AssertType::Other, l.as_slice(), text[0].as_slice());
        let ghost before = names_view(errors@);
        let ghost mv = msg@;
        errors.push(msg);
        assert(names_view(errors@) =~= before.push(mv));
        *rettv = number_tv(1);
    } else {
        *rettv = number_tv(0);
    }
}

/// "assert_true({actual} [, {msg}])".
pub fn f_assert_true(argvars: &[typval_T], rettv: &mut typval_T, errors: &mut Vec<Vec<u8>>, text: &Vec<Vec<u8>>, echo: &Vec<Vec<u8>>)
    requires argvars@.len() >= 1, text@.len() == argvars@.len(), echo@.len() == argvars@.len(),
    ensures ({
        let msg = fill_spec(msg_prefix(argvars@, names_view(echo@), 1), AssertType::Other, w_true(), names_view(text@)[0]);
        let o = assert_outcome(names_view(old(errors)@), !bool_ok(argvars@[0]@, true), msg);
        final(rettv)@ == num_tv(o.0) && names_view(final(errors)@) == o.1
    }),
{
    assert_bool(argvars, rettv, errors, text, echo, true);
}

/// "assert_false({actual} [, {msg}])".
pub fn f_assert_false(argvars: &[typval_T], rettv: &mut typval_T, errors: &mut Vec<Vec<u8>>, text: &Vec<Vec<u8>>, echo: &Vec<Vec<u8>>)
    requires argvars@.len() >= 1, text@.len() == argvars@.len(), echo@.len() == argvars@.len(),
    ensures ({
        let msg = fill_spec(msg_prefix(argvars@, names_view(echo@), 1), AssertType::Other, w_false(), names_view(text@)[0]);
        let o = assert_outcome(names_view(old(errors)@), !bool_ok(argvars@[0]@, false), msg);
        final(rettv)@ == num_tv(o.0) && names_view(final(errors)@) == o.1
    }),
{
    assert_bool(argvars, rettv, errors, text, echo, false);
}

/// "assert_report({msg})": the message is added, the result is 1.
pub fn f_assert_report(argvars: &[typval_T], rettv: &mut typval_T, errors: &mut Vec<Vec<u8>>)
    requires argvars@.len() >= 1,
    ensures
        final(rettv)@ == num_tv(1),
        names_view(final(errors)@) == names_view(old(errors)@).push(string_or_empty(argvars@[0]@)),
{
    let m = tv_get_string(&argvars[0]);
    let ghost before = names_view(errors@);
    let ghost mv = m@;
    errors.push(m);
    assert(names_view(errors@) =~= before.push(mv));
    *rettv = number_tv(1);
}

/// Whether `n` occurs in `h`.
pub open spec fn has_sub(h: Seq<u8>, n: Seq<u8>) -> bool {
    exists|i: int| 0 <= i <= h.len() - n.len() && #[trigger] h.subrange(i, i + n.len()) == n
}

fn has_sub_exec(h: &[u8], n: &[u8]) -> (r: bool)
    ensures r == has_sub(h@, n@),
{
    if n.len() > h.len() {
        return false;
    }
    let mut i: usize = 0;
    while i <= h.len() - n.len()
        invariant
            n@.len() <= h@.len(), i <= h@.len() - n@.len() + 1,
            forall|k: int| 0 <= k < i ==> #[trigger] h@.subrange(k, k + n@.len()) != n@,
        decreases h.len() - n.len() + 1 - i,
    {
        if starts_with_exec(&h[i..h.len()], n) {
            assert(h@.subrange(i as int, h@.len() as int).subrange(0, n@.len() as int) =~= h@.subrange(i as int, i + n@.len()));
            return true;
        }
        assert(h@.subrange(i as int, h@.len() as int).subrange(0, n@.len() as int) =~= h@.subrange(i as int, i + n@.len()));
        if i == h.len() - n.len() {
            return false;
        }
        i += 1;
    }
    false
}

/// The message "v:exception is not set".
pub open spec fn w_no_exception() -> Seq<u8> {
    seq![118u8, 58, 101, 120, 99, 101, 112, 116, 105, 111, 110, 32, 105, 115, 32, 110, 111, 116, 32, 115, 101, 116]
}

/// "assert_exception({error} [, {msg}])" with `exception` the text of
/// v:exception: fails when nothing was caught, or when the exception does
/// not contain `{error}` (then the message shows the exception quoted).
pub fn f_assert_exception(argvars: &[typval_T], rettv: &mut typval_T, errors: &mut Vec<Vec<u8>>, text: &Vec<Vec<u8>>,
    echo: &Vec<Vec<u8>>, exception: &[u8])
    requires argvars@.len() >= 1, text@.len() == argvars@.len(), echo@.len() == argvars@.len(),
    ensures ({
        let err = string_or_empty(argvars@[0]@);
        let o = if exception@.len() == 0 {
            assert_outcome(names_view(old(errors)@), true, w_no_exception())
        } else {
            assert_outcome(names_view(old(errors)@), !has_sub(exception@, err),
                fill_spec(msg_prefix(argvars@, names_view(echo@), 1), AssertType::Other, names_view(text@)[0], quote_spec(exception@)))
        };
        final(rettv)@ == num_tv(o.0) && names_view(final(errors)@) == o.1
    }),
{
    let err = tv_get_string(&argvars[0]);
    let ghost before = names_view(errors@);
    if exception.len() == 0 {
        let m = vec![118u8, 58, 101, 120, 99, 101, 112, 116, 105, 111, 110, 32, 105, 115, 32, 110, 111, 116, 32, 115, 101, 116];
        assert(m@ =~= w_no_exception());
        errors.push(m);
        assert(names_view(errors@) =~= before.push(w_no_exception()));
        *rettv = number_tv(1);
    } else if !has_sub_exec(exception, err.as_slice()) {
        let q = crate::usercmd::quote_exec(exception);
        let p = prefix_exec(argvars, echo, 1);
        let msg = fill_assert_error(p.as_slice(), &AssertType::Other, text[0].as_slice(), q.as_slice());
        let ghost mv = msg@;
        errors.push(msg);
        assert(names_view(errors@) =~= before.push(mv));
        *rettv = number_tv(1);
    } else {
        *rettv = number_tv(0);
    }
}

/// The verdict of a deterministic matcher on a pattern and a text.
pub open spec fn matches_by<M: Fn(&[u8], &[u8]) -> bool>(m: M, pat: Seq<u8>, s: Seq<u8>) -> bool {
    exists|p: &[u8], t: &[u8], r: bool| p@ == pat && t@ == s && call_ensures(m, (p, t), r) && r
}

/// The matcher gives one verdict for each pattern and text, and may be
/// called on any.
pub open spec fn matcher_ok<M: Fn(&[u8], &[u8]) -> bool>(m: M) -> bool {
    &&& forall|x: (&[u8], &[u8])| call_requires(m, x)
    &&& forall|p1: &[u8], t1: &[u8], r1: bool, p2: &[u8], t2: &[u8], r2: bool|
        p1@ == p2@ && t1@ == t2@ && call_ensures(m, (p1, t1), r1) && call_ensures(m, (p2, t2), r2) ==> r1 == r2
}

fn assert_match_common<M: Fn(&[u8], &[u8]) -> bool>(argvars: &[typval_T], rettv: &mut typval_T, errors: &mut Vec<Vec<u8>>,
    text: &Vec<Vec<u8>>, echo: &Vec<Vec<u8>>, m: &M, want_match: bool)
    requires argvars@.len() >= 2, text@.len() == argvars@.len(), echo@.len() == argvars@.len(), matcher_ok(*m),
    ensures ({
        let matched = matches_by(*m, string_or_empty(argvars@[0]@), string_or_empty(argvars@[1]@));
        let msg = fill_spec(msg_prefix(argvars@, names_view(echo@), 2), if want_match { AssertType::Match } else { AssertType::NotMatch },
            names_view(text@)[0], names_view(text@)[1]);
        let o = assert_outcome(names_view(old(errors)@), matched != want_match, msg);
        final(rettv)@ == num_tv(o.0) && names_view(final(errors)@) == o.1
    }),
{
    let pat = tv_get_string(&argvars[0]);
    let actual = tv_get_string(&argvars[1]);
    let ps = pat.as_slice();
    let ts = actual.as_slice();
    let matched = m(ps, ts);
    proof {
        if matched {
            assert(matches_by(*m, pat@, actual@));
        } else {
            assert(!matches_by(*m, pat@, actual@)) by {
                if matches_by(*m, pat@, actual@) {
                    let (p, t, r) = choose|p: &[u8], t: &[u8], r: bool| p@ == pat@ && t@ == actual@ && call_ensures(*m, (p, t), r) && r;
                    assert(call_ensures(*m, (ps, ts), matched));
                }
            }
        }
    }
    if matched != want_match {
        let t = if want_match { AssertType::Match } else { AssertType::NotMatch };
        let p = prefix_exec(argvars, echo, 2);
        let msg = fill_assert_error(p.as_slice(), &t, text[0].as_slice(), text[1].as_slice());
        let ghost before = names_view(errors@);
        let ghost mv = msg@;
        errors.push(msg);
        assert(names_view(errors@) =~= before.push(mv));
        *rettv = number_tv(1);
    } else {
        *rettv = number_tv(0);
    }
}

/// "assert_match({pattern}, {actual} [, {msg}])": `m` is the regular
/// expression matcher; fails when the pattern does not match.
pub fn f_assert_match<M: Fn(&[u8], &[u8]) -> bool>(argvars: &[typval_T], rettv: &mut typval_T, errors: &mut Vec<Vec<u8>>,
    text: &Vec<Vec<u8>>, echo: &Vec<Vec<u8>>, m: &M)
    requires argvars@.len() >= 2, text@.len() == argvars@.len(), echo@.len() == argvars@.len(), matcher_ok(*m),
    ensures ({
        let matched = matches_by(*m, string_or_empty(argvars@[0]@), string_or_empty(argvars@[1]@));
        let msg = fill_spec(msg_prefix(argvars@, names_view(echo@), 2), AssertType::Match, names_view(text@)[0], names_view(text@)[1]);
        let o = assert_outcome(names_view(old(errors)@), !matched, msg);
        final(rettv)@ == num_tv(o.0) && names_view(final(errors)@) == o.1
    }),
{
    assert_match_common(argvars, rettv, errors, text, echo, m, true);
}

/// "assert_notmatch({pattern}, {actual} [, {msg}])": fails when the pattern
/// matches.
pub fn f_assert_notmatch<M: Fn(&[u8], &[u8]) -> bool>(argvars: &[typval_T], rettv: &mut typval_T, errors: &mut Vec<Vec<u8>>,
    text: &Vec<Vec<u8>>, echo: &Vec<Vec<u8>>, m: &M)
    requires argvars@.len() >= 2, text@.len() == argvars@.len(), echo@.len() == argvars@.len(), matcher_ok(*m),
    ensures ({
        let matched = matches_by(*m, string_or_empty(argvars@[0]@), string_or_empty(argvars@[1]@));
        let msg = fill_spec(msg_prefix(argvars@, names_view(echo@), 2), AssertType::NotMatch, names_view(text@)[0], names_view(text@)[1]);
        let o = assert_outcome(names_view(old(errors)@), matched, msg);
        final(rettv)@ == num_tv(o.0) && names_view(final(errors)@) == o.1
    }),
{
    assert_match_common(argvars, rettv, errors, text, echo, m, false);
}

} // verus!
