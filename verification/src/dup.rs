//! Exact copies of values: the result has the same model as the original.
use vstd::prelude::*;
use crate::typval_defs::{tv_view, typval_T, typval_vval_union, list_T, dict_T, dictitem_T, blob_T, partial_T, Callback, DictWatcher};

verus! {

broadcast use vstd::std_specs::vec::axiom_vec_index_decreases;

/// Copy a byte string.
pub fn bytes_dup(s: &Vec<u8>) -> (out: Vec<u8>)
    ensures out@ == s@,
{
    let mut out: Vec<u8> = Vec::new();
    let mut i: usize = 0;
    while i < s.len()
        invariant
            i <= s.len(),
            out@ == s@.subrange(0, i as int),
        decreases s.len() - i,
    {
        out.push(s[i]);
        i += 1;
    }
    assert(out@ =~= s@);
    out
}

/// Append the bytes of `s` to `out`.
pub fn append_bytes(out: &mut Vec<u8>, s: &[u8])
    ensures final(out)@ == old(out)@ + s@,
{
    let ghost start = out@;
    let mut i: usize = 0;
    while i < s.len()
        invariant
            i <= s.len(),
            out@ == start + s@.subrange(0, i as int),
        decreases s.len() - i,
    {
        out.push(s[i]);
        i += 1;
        assert(start + s@.subrange(0, i as int) =~= (start + s@.subrange(0, i - 1)).push(s@[i - 1]));
    }
    assert(s@.subrange(0, s@.len() as int) =~= s@);
}

/// Copy a slice of bytes into a vector.
pub fn slice_to_vec(s: &[u8]) -> (out: Vec<u8>)
    ensures out@ == s@,
{
    let mut out: Vec<u8> = Vec::new();
    let mut i: usize = 0;
    while i < s.len()
        invariant
            i <= s.len(),
            out@ == s@.subrange(0, i as int),
        decreases s.len() - i,
    {
        out.push(s[i]);
        i += 1;
    }
    assert(out@ =~= s@);
    out
}

pub fn callback_dup(c: &Callback) -> (r: Callback)
    ensures r@ == c@,
{
    match c {
        Callback::kCallbackNone => Callback::kCallbackNone,
        Callback::kCallbackFuncref(s) => Callback::kCallbackFuncref(bytes_dup(s)),
    }
}

pub fn watchers_dup(ws: &Vec<DictWatcher>) -> (r: Vec<DictWatcher>)
    ensures
        r@.len() == ws@.len(),
        forall|i: int| 0 <= i < ws@.len() ==> #[trigger] r@[i]@ == ws@[i]@,
{
    let mut out: Vec<DictWatcher> = Vec::new();
    let mut i: usize = 0;
    while i < ws.len()
        invariant
            i <= ws.len(),
            out@.len() == i,
            forall|j: int| 0 <= j < i ==> #[trigger] out@[j]@ == ws@[j]@,
        decreases ws.len() - i,
    {
        let w = DictWatcher { callback: callback_dup(&ws[i].callback), key_pattern: bytes_dup(&ws[i].key_pattern) };
        out.push(w);
        i += 1;
    }
    out
}

/// Copy a sequence of values.
#[verifier::loop_isolation(false)]
pub fn items_dup(v: &Vec<typval_T>) -> (r: Vec<typval_T>)
    ensures
        r@.len() == v@.len(),
        forall|i: int| 0 <= i < v@.len() ==> #[trigger] r@[i]@ == v@[i]@,
    decreases v, 0int,
{
    let mut out: Vec<typval_T> = Vec::new();
    let mut i: usize = 0;
    while i < v.len()
        invariant
            i <= v.len(),
            out@.len() == i,
            forall|j: int| 0 <= j < i ==> #[trigger] out@[j]@ == v@[j]@,
        decreases v.len() - i,
    {
        proof { assert(decreases_to!(v => v@[i as int])); }
        let x = tv_dup(&v[i]);
        out.push(x);
        i += 1;
    }
    out
}

pub fn list_dup(l: &list_T) -> (r: list_T)
    ensures r@ == l@,
    decreases l, 1int,
{
    let items = items_dup(&l.lv_items);
    let r = list_T { lv_items: items, lv_lock: l.lv_lock, lv_refcount: l.lv_refcount };
    proof { crate::typval_defs::lemma_items_view_ext(r.lv_items@, l.lv_items@); }
    r
}

#[verifier::loop_isolation(false)]
pub fn dict_dup(d: &dict_T) -> (r: dict_T)
    ensures r@ == d@,
    decreases d, 1int,
{
    let mut out: Vec<dictitem_T> = Vec::new();
    let mut i: usize = 0;
    while i < d.dv_hashtab.len()
        invariant
            i <= d.dv_hashtab.len(),
            out@.len() == i,
            forall|j: int| 0 <= j < i ==> (#[trigger] out@[j]).di_key@ == d.dv_hashtab@[j].di_key@ && tv_view(out@[j].di_tv) == tv_view(d.dv_hashtab@[j].di_tv),
        decreases d.dv_hashtab.len() - i,
    {
        proof {
            assert(decreases_to!(d.dv_hashtab => d.dv_hashtab@[i as int]));
            assert(decreases_to!(d => d.dv_hashtab@[i as int].di_tv));
        }
        let key = bytes_dup(&d.dv_hashtab[i].di_key);
        let tv = tv_dup(&d.dv_hashtab[i].di_tv);
        out.push(dictitem_T { di_key: key, di_tv: tv });
        i += 1;
    }
    let ws = watchers_dup(&d.dv_watchers);
    let r = dict_T { dv_hashtab: out, dv_lock: d.dv_lock, dv_refcount: d.dv_refcount, dv_watchers: ws };
    assert(r@.keys =~= d@.keys);
    assert forall|j: int| 0 <= j < d.dv_hashtab@.len() implies r@.vals[j] == d@.vals[j] by {
        assert(tv_view(out@[j].di_tv) == tv_view(d.dv_hashtab@[j].di_tv));
    }
    assert(r@.vals =~= d@.vals);
    assert forall|j: int| 0 <= j < d.dv_watchers@.len() implies r@.watchers[j] == d@.watchers[j] by {
        assert(r.dv_watchers@[j]@ == d.dv_watchers@[j]@);
    }
    assert(r@.watchers =~= d@.watchers);
    r
}

pub fn blob_dup(b: &blob_T) -> (r: blob_T)
    ensures r@ == b@,
{
    blob_T { bv_ga: bytes_dup(&b.bv_ga), bv_lock: b.bv_lock, bv_refcount: b.bv_refcount }
}

pub fn partial_dup(p: &partial_T) -> (r: partial_T)
    ensures r@ == p@,
    decreases p, 1int,
{
    let argv = items_dup(&p.pt_argv);
    let dict = match &p.pt_dict {
        None => None,
        Some(d) => {
            proof { assert(decreases_to!(p => p.pt_dict->Some_0)); }
            Some(dict_dup(d))
        },
    };
    let r = partial_T { pt_name: bytes_dup(&p.pt_name), pt_argv: argv, pt_dict: dict };
    proof { crate::typval_defs::lemma_items_view_ext(r.pt_argv@, p.pt_argv@); }
    r
}

pub fn vval_dup(v: &typval_vval_union) -> (r: typval_vval_union)
    ensures r@ == v@,
    decreases v, 2int,
{
    match v {
        typval_vval_union::v_number(n) => typval_vval_union::v_number(*n),
        typval_vval_union::v_float(f) => typval_vval_union::v_float(*f),
        typval_vval_union::v_string(s) => typval_vval_union::v_string(bytes_dup(s)),
        typval_vval_union::v_bool(b) => typval_vval_union::v_bool(*b),
        typval_vval_union::v_special(s) => typval_vval_union::v_special(*s),
        typval_vval_union::v_list(None) => typval_vval_union::v_list(None),
        typval_vval_union::v_list(Some(l)) => typval_vval_union::v_list(Some(list_dup(l))),
        typval_vval_union::v_dict(None) => typval_vval_union::v_dict(None),
        typval_vval_union::v_dict(Some(d)) => typval_vval_union::v_dict(Some(dict_dup(d))),
        typval_vval_union::v_blob(None) => typval_vval_union::v_blob(None),
        typval_vval_union::v_blob(Some(b)) => typval_vval_union::v_blob(Some(blob_dup(b))),
        typval_vval_union::v_partial(None) => typval_vval_union::v_partial(None),
        typval_vval_union::v_partial(Some(p)) => typval_vval_union::v_partial(Some(partial_dup(p))),
    }
}

/// Copy a value.
pub fn tv_dup(t: &typval_T) -> (r: typval_T)
    ensures r@ == t@,
    decreases t, 3int,
{
    typval_T { v_type: t.v_type, v_lock: t.v_lock, vval: vval_dup(&t.vval) }
}

} // verus!
