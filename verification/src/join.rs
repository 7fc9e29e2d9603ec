//! "join()": the items of a List, each as ":echo" shows it, with a
//! separator between them.

use vstd::prelude::*;
use crate::typval_defs::{typval_T, typval_vval_union, list_T, TypVal, VVal, VarType};
use crate::typval::{string_of, tv_get_string_chk};
use crate::highlight::names_view;
use crate::dup::append_bytes;
use crate::funcs_basic::{with_string, set_string};
use crate::message::{emsg, msgs_view, after_report, msg_e714, msg_e714_exec};

verus! {

/// The texts joined with `sep` between each two.
pub open spec fn join_spec(texts: Seq<Seq<u8>>, sep: Seq<u8>) -> Seq<u8>
    decreases texts.len(),
{
    if texts.len() == 0 {
        Seq::empty()
    } else if texts.len() == 1 {
        texts[0]
    } else {
        join_spec(texts.drop_last(), sep) + sep + texts.last()
    }
}

/// The total length of the texts.
pub open spec fn total_len(texts: Seq<Seq<u8>>) -> int
    decreases texts.len(),
{
    if texts.len() == 0 { 0 } else { total_len(texts.drop_last()) + texts.last().len() }
}

/// `join()` puts exactly one separator between each two items and nothing
/// else: the result is as long as the items and the separators together,
/// begins with the first item and ends with the last.
pub proof fn lemma_join_shape(texts: Seq<Seq<u8>>, sep: Seq<u8>)
    requires texts.len() > 0,
    ensures
        join_spec(texts, sep).len() == total_len(texts) + (texts.len() - 1) * sep.len(),
        join_spec(texts, sep).subrange(0, texts[0].len() as int) == texts[0],
        join_spec(texts, sep).subrange(join_spec(texts, sep).len() - texts.last().len(), join_spec(texts, sep).len() as int) == texts.last(),
    decreases texts.len(),
{
    let j = join_spec(texts, sep);
    if texts.len() == 1 {
        assert(texts.drop_last() =~= Seq::<Seq<u8>>::empty());
        assert(j.subrange(0, texts[0].len() as int) =~= texts[0]);
        assert(j.subrange(0, j.len() as int) =~= j);
        assert(total_len(texts.drop_last()) == 0);
        assert(total_len(texts) == texts[0].len());
        assert((texts.len() - 1) * sep.len() == 0);
    } else {
        let p = texts.drop_last();
        lemma_join_shape(p, sep);
        let jp = join_spec(p, sep);
        assert(j == jp + sep + texts.last());
        assert(total_len(texts) == total_len(p) + texts.last().len());
        assert(p.last() == texts[texts.len() - 2]);
        assert(jp.len() == total_len(p) + (p.len() - 1) * sep.len());
        assert(j.len() == jp.len() + sep.len() + texts.last().len());
        assert((texts.len() - 1) * sep.len() == (p.len() - 1) * sep.len() + sep.len()) by (nonlinear_arith)
            requires p.len() == texts.len() - 1;
        assert(p[0] == texts[0]);
        assert(total_len(p) >= p[0].len()) by { lemma_total_len_ge(p, 0); }
        assert(j.subrange(0, texts[0].len() as int) =~= jp.subrange(0, texts[0].len() as int));
        assert(j.subrange(j.len() - texts.last().len(), j.len() as int) =~= texts.last());
    }
}

proof fn lemma_total_len_ge(texts: Seq<Seq<u8>>, k: int)
    requires 0 <= k < texts.len(),
    ensures total_len(texts) >= texts[k].len(),
    decreases texts.len(),
{
    let p = texts.drop_last();
    assert(total_len(texts) == total_len(p) + texts.last().len());
    if k < texts.len() - 1 {
        lemma_total_len_ge(p, k);
        assert(p[k] == texts[k]);
        lemma_total_len_nonneg(p);
    } else {
        lemma_total_len_nonneg(p);
    }
}

proof fn lemma_total_len_nonneg(texts: Seq<Seq<u8>>)
    ensures total_len(texts) >= 0,
    decreases texts.len(),
{
    if texts.len() > 0 {
        lemma_total_len_nonneg(texts.drop_last());
    }
}

/// Append to `gap` the items of `l`, given by their texts `echo`, with
/// `sep` between each two; always `OK`.
pub fn tv_list_join(gap: &mut Vec<u8>, l: &list_T, sep: &[u8], echo: &Vec<Vec<u8>>) -> (r: i32)
    requires echo@.len() == l.lv_items@.len(),
    ensures
        final(gap)@ == old(gap)@ + join_spec(names_view(echo@), sep@),
        r == 1,
{
    let ghost start = gap@;
    let ghost ev = names_view(echo@);
    let mut k: usize = 0;
    assert(ev.subrange(0, 0) =~= Seq::<Seq<u8>>::empty());
    while k < echo.len()
        invariant
            k <= echo@.len(), ev == names_view(echo@),
            gap@ == start + join_spec(ev.subrange(0, k as int), sep@),
        decreases echo@.len() - k,
    {
        let ghost before = gap@;
        if k > 0 {
            append_bytes(gap, sep);
        }
        append_bytes(gap, echo[k].as_slice());
        proof {
            let sub = ev.subrange(0, k + 1);
            assert(sub.drop_last() =~= ev.subrange(0, k as int));
            assert(sub.last() == echo@[k as int]@);
            if k == 0 {
                assert(sub.len() == 1);
            }
        }
        k = k + 1;
    }
    assert(ev.subrange(0, ev.len() as int) =~= ev);
    1
}

/// The error "join()" reports: E714 when its first argument is no List.
pub open spec fn join_error(a: TypVal) -> Option<Seq<u8>> {
    if a.ty == VarType::VAR_LIST { None } else { Some(msg_e714()) }
}

/// What "join()" makes of `rettv`: nothing for a first argument that is no
/// List; the empty String when the separator is no String; else the joined
/// texts (the separator is a space when not given).
pub open spec fn join_result(args: Seq<typval_T>, echo: Seq<Seq<u8>>, r: TypVal) -> TypVal {
    let a = args[0]@;
    if a.ty != VarType::VAR_LIST {
        r
    } else {
        let sep = if args.len() < 2 { Some(seq![32u8]) } else { string_of(args[1]@) };
        match sep {
            None => with_string(r, Seq::empty()),
            Some(s) => match a.v {
                VVal::List(Some(_)) => with_string(r, join_spec(echo, s)),
                _ => with_string(r, Seq::empty()),
            },
        }
    }
}

/// "join({list} [, {sep}])": the items of a List as ":echo" shows them
/// (their texts `echo`), with `{sep}` between each two.
pub fn f_join(argvars: &[typval_T], rettv: &mut typval_T, echo: &Vec<Vec<u8>>, errs: &mut Vec<Vec<u8>>)
    requires
        argvars@.len() >= 1,
        argvars@[0]@.v is List && argvars@[0]@.v->List_0 is Some
            ==> echo@.len() == argvars@[0]@.v->List_0->Some_0.items.len(),
    ensures
        final(rettv)@ == join_result(argvars@, names_view(echo@), old(rettv)@),
        msgs_view(final(errs)@) == after_report(old(errs)@, join_error(argvars@[0]@)),
{
    if argvars[0].v_type != VarType::VAR_LIST {
        emsg(errs, msg_e714_exec());
        return;
    }
    let sep: Vec<u8> = if argvars.len() < 2 {
        let v: Vec<u8> = vec![32u8];
        assert(v@ =~= seq![32u8]);
        v
    } else {
        match tv_get_string_chk(&argvars[1]) {
            Some(s) => s,
            None => {
                set_string(rettv, Vec::new());
                return;
            },
        }
    };
    let mut ga: Vec<u8> = Vec::new();
    match &argvars[0].vval {
        typval_vval_union::v_list(Some(l)) => {
            proof { crate::typval_list::lemma_items_view_index_all(l.lv_items@); }
            tv_list_join(&mut ga, l, sep.as_slice(), echo);
            assert(Seq::<u8>::empty() + join_spec(names_view(echo@), sep@) =~= join_spec(names_view(echo@), sep@));
        },
        _ => {},
    }
    set_string(rettv, ga);
}

} // verus!
