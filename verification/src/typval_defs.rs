//! Vimscript value types (`typval_T` and the containers it refers to) and
//! their mathematical models.
//!
//! Every executable value has a view (`@`) in which byte strings become
//! `Seq<u8>` and vectors become `Seq`s of views; contracts speak of views.
//! Strings are Vim strings: sequences of bytes. A Float is held as the bits
//! of its IEEE-754 double.
use vstd::prelude::*;

verus! {

/// `varnumber_T`: a Vimscript Number.
pub type varnumber_T = i64;

/// Success status of the C-style functions.
pub const OK: i32 = 1;
/// Failure status of the C-style functions.
pub const FAIL: i32 = 0;

/// `type()` codes.
pub const VAR_TYPE_NUMBER: varnumber_T = 0;
pub const VAR_TYPE_STRING: varnumber_T = 1;
pub const VAR_TYPE_FUNC: varnumber_T = 2;
pub const VAR_TYPE_LIST: varnumber_T = 3;
pub const VAR_TYPE_DICT: varnumber_T = 4;
pub const VAR_TYPE_FLOAT: varnumber_T = 5;
pub const VAR_TYPE_BOOL: varnumber_T = 6;
pub const VAR_TYPE_SPECIAL: varnumber_T = 7;
pub const VAR_TYPE_BLOB: varnumber_T = 10;

/// The type tag of a value.
#[derive(Clone, Copy, Debug, PartialEq, Eq, Structural)]
pub enum VarType {
    VAR_UNKNOWN,
    VAR_NUMBER,
    VAR_STRING,
    VAR_FUNC,
    VAR_LIST,
    VAR_DICT,
    VAR_FLOAT,
    VAR_BOOL,
    VAR_SPECIAL,
    VAR_PARTIAL,
    VAR_BLOB,
}

/// Lock state of a value or container.
#[derive(Clone, Copy, Debug, PartialEq, Eq, Structural)]
pub enum VarLockStatus {
    VAR_UNLOCKED,
    VAR_LOCKED,
    VAR_FIXED,
}

/// `v:false` / `v:true`.
#[derive(Clone, Copy, Debug, PartialEq, Eq, Structural)]
pub enum BoolVarValue {
    kBoolVarFalse,
    kBoolVarTrue,
}

/// `v:null`.
#[derive(Clone, Copy, Debug, PartialEq, Eq, Structural)]
pub enum SpecialVarValue {
    kSpecialVarNull,
}

/// The payload of a value.
#[derive(Debug, PartialEq)]
pub enum typval_vval_union {
    v_number(varnumber_T),
    /// IEEE-754 bits of the double.
    v_float(u64),
    v_string(Vec<u8>),
    v_bool(BoolVarValue),
    v_special(SpecialVarValue),
    v_list(Option<list_T>),
    v_dict(Option<dict_T>),
    v_blob(Option<blob_T>),
    v_partial(Option<partial_T>),
}

/// A Vimscript value.
#[derive(Debug, PartialEq)]
pub struct typval_T {
    pub v_type: VarType,
    pub v_lock: VarLockStatus,
    pub vval: typval_vval_union,
}

/// A List: its items in order.
#[derive(Debug, PartialEq)]
pub struct list_T {
    pub lv_items: Vec<typval_T>,
    pub lv_lock: VarLockStatus,
    pub lv_refcount: i32,
}

/// One Dictionary entry.
#[derive(Debug, PartialEq)]
pub struct dictitem_T {
    pub di_key: Vec<u8>,
    pub di_tv: typval_T,
}

/// A Dictionary: entries in insertion order, no key twice (see `dict_wf`).
#[derive(Debug, PartialEq)]
pub struct dict_T {
    pub dv_hashtab: Vec<dictitem_T>,
    pub dv_lock: VarLockStatus,
    pub dv_refcount: i32,
    pub dv_watchers: Vec<DictWatcher>,
}

/// A Blob: a byte vector.
#[derive(Debug, PartialEq)]
pub struct blob_T {
    pub bv_ga: Vec<u8>,
    pub bv_lock: VarLockStatus,
    pub bv_refcount: i32,
}

/// A Partial: a function name with bound arguments and an optional `self`.
#[derive(Debug, PartialEq)]
pub struct partial_T {
    pub pt_name: Vec<u8>,
    pub pt_argv: Vec<typval_T>,
    pub pt_dict: Option<dict_T>,
}

/// A callback: nothing, or the name of a function.
#[derive(Debug, PartialEq)]
pub enum Callback {
    kCallbackNone,
    kCallbackFuncref(Vec<u8>),
}

/// A watcher on the keys of a Dictionary.
#[derive(Debug, PartialEq)]
pub struct DictWatcher {
    pub callback: Callback,
    pub key_pattern: Vec<u8>,
}

// ── mathematical models ──

pub enum VVal {
    Number(int),
    Float(u64),
    Str(Seq<u8>),
    Bool(BoolVarValue),
    Special(SpecialVarValue),
    List(Option<ListVal>),
    Dict(Option<DictVal>),
    Blob(Option<BlobVal>),
    Partial(Option<PartialVal>),
}

pub struct TypVal {
    pub ty: VarType,
    pub lock: VarLockStatus,
    pub v: VVal,
}

pub struct ListVal {
    pub items: Seq<TypVal>,
    pub lock: VarLockStatus,
    pub refcount: int,
}

pub struct DictVal {
    pub keys: Seq<Seq<u8>>,
    pub vals: Seq<TypVal>,
    pub lock: VarLockStatus,
    pub refcount: int,
    pub watchers: Seq<WatcherVal>,
}

pub struct BlobVal {
    pub bytes: Seq<u8>,
    pub lock: VarLockStatus,
    pub refcount: int,
}

pub struct PartialVal {
    pub name: Seq<u8>,
    pub argv: Seq<TypVal>,
    pub dict: Option<DictVal>,
}

pub enum CallbackVal {
    kCallbackNone,
    kCallbackFuncref(Seq<u8>),
}

pub struct WatcherVal {
    pub callback: CallbackVal,
    pub key_pattern: Seq<u8>,
}

pub open spec fn dummy_tv() -> TypVal {
    TypVal { ty: VarType::VAR_UNKNOWN, lock: VarLockStatus::VAR_UNLOCKED, v: VVal::Number(0) }
}

pub open spec fn callback_view(c: Callback) -> CallbackVal {
    match c {
        Callback::kCallbackNone => CallbackVal::kCallbackNone,
        Callback::kCallbackFuncref(s) => CallbackVal::kCallbackFuncref(s@),
    }
}

pub open spec fn watcher_view(w: DictWatcher) -> WatcherVal {
    WatcherVal { callback: callback_view(w.callback), key_pattern: w.key_pattern@ }
}

pub open spec fn tv_view(t: typval_T) -> TypVal
    decreases t,
{
    TypVal { ty: t.v_type, lock: t.v_lock, v: vval_view(t.vval) }
}

pub open spec fn vval_view(v: typval_vval_union) -> VVal
    decreases v,
{
    match v {
        typval_vval_union::v_number(n) => VVal::Number(n as int),
        typval_vval_union::v_float(f) => VVal::Float(f),
        typval_vval_union::v_string(s) => VVal::Str(s@),
        typval_vval_union::v_bool(b) => VVal::Bool(b),
        typval_vval_union::v_special(s) => VVal::Special(s),
        typval_vval_union::v_list(None) => VVal::List(None),
        typval_vval_union::v_list(Some(l)) => VVal::List(Some(list_view(l))),
        typval_vval_union::v_dict(None) => VVal::Dict(None),
        typval_vval_union::v_dict(Some(d)) => VVal::Dict(Some(dict_view(d))),
        typval_vval_union::v_blob(None) => VVal::Blob(None),
        typval_vval_union::v_blob(Some(b)) => VVal::Blob(Some(blob_view(b))),
        typval_vval_union::v_partial(None) => VVal::Partial(None),
        typval_vval_union::v_partial(Some(p)) => VVal::Partial(Some(partial_view(p))),
    }
}

pub open spec fn items_view(s: Seq<typval_T>) -> Seq<TypVal>
    decreases s,
{
    Seq::new(s.len(), |i: int| if 0 <= i < s.len() { tv_view(s[i]) } else { dummy_tv() })
}

/// Two sequences of values with equal models have equal item models.
pub proof fn lemma_items_view_ext(a: Seq<typval_T>, b: Seq<typval_T>)
    requires
        a.len() == b.len(),
        forall|i: int| 0 <= i < a.len() ==> (#[trigger] a[i])@ == b[i]@,
    ensures
        items_view(a) == items_view(b),
{
    assert(items_view(a) =~= items_view(b));
}

pub proof fn lemma_items_view_index(a: Seq<typval_T>, i: int)
    requires 0 <= i < a.len(),
    ensures items_view(a)[i] == tv_view(a[i]), items_view(a).len() == a.len(),
{
}

pub proof fn lemma_items_view_push(s: Seq<typval_T>, x: typval_T)
    ensures items_view(s.push(x)) == items_view(s).push(tv_view(x)),
{
    assert(items_view(s.push(x)) =~= items_view(s).push(tv_view(x)));
}

pub proof fn lemma_items_view_subrange(s: Seq<typval_T>, i: int, j: int)
    requires 0 <= i <= j <= s.len(),
    ensures items_view(s.subrange(i, j)) == items_view(s).subrange(i, j),
{
    assert(items_view(s.subrange(i, j)) =~= items_view(s).subrange(i, j));
}

pub proof fn lemma_items_view_add(s: Seq<typval_T>, t: Seq<typval_T>)
    ensures items_view(s + t) == items_view(s) + items_view(t),
{
    assert(items_view(s + t) =~= items_view(s) + items_view(t));
}

pub proof fn lemma_items_view_reverse(s: Seq<typval_T>)
    ensures items_view(s.reverse()) == items_view(s).reverse(),
{
    assert(items_view(s.reverse()) =~= items_view(s).reverse());
}

pub proof fn lemma_items_view_update(s: Seq<typval_T>, i: int, x: typval_T)
    requires 0 <= i < s.len(),
    ensures items_view(s.update(i, x)) == items_view(s).update(i, tv_view(x)),
{
    assert(items_view(s.update(i, x)) =~= items_view(s).update(i, tv_view(x)));
}

pub proof fn lemma_items_view_insert(s: Seq<typval_T>, i: int, x: typval_T)
    requires 0 <= i <= s.len(),
    ensures items_view(s.insert(i, x)) == items_view(s).insert(i, tv_view(x)),
{
    assert(items_view(s.insert(i, x)) =~= items_view(s).insert(i, tv_view(x)));
}

pub proof fn lemma_items_view_remove(s: Seq<typval_T>, i: int)
    requires 0 <= i < s.len(),
    ensures items_view(s.remove(i)) == items_view(s).remove(i),
{
    assert(items_view(s.remove(i)) =~= items_view(s).remove(i));
}

pub proof fn lemma_items_view_empty()
    ensures items_view(Seq::<typval_T>::empty()) == Seq::<TypVal>::empty(),
{
    assert(items_view(Seq::<typval_T>::empty()) =~= Seq::<TypVal>::empty());
}

pub open spec fn list_view(l: list_T) -> ListVal
    decreases l,
{
    ListVal {
        items: items_view(l.lv_items@),
        lock: l.lv_lock,
        refcount: l.lv_refcount as int,
    }
}

pub open spec fn dict_view(d: dict_T) -> DictVal
    decreases d,
{
    DictVal {
        keys: Seq::new(d.dv_hashtab@.len(), |i: int| d.dv_hashtab@[i].di_key@),
        vals: Seq::new(d.dv_hashtab@.len(), |i: int| if 0 <= i < d.dv_hashtab@.len() { tv_view(d.dv_hashtab@[i].di_tv) } else { dummy_tv() }),
        lock: d.dv_lock,
        refcount: d.dv_refcount as int,
        watchers: Seq::new(d.dv_watchers@.len(), |i: int| watcher_view(d.dv_watchers@[i])),
    }
}

pub open spec fn blob_view(b: blob_T) -> BlobVal {
    BlobVal { bytes: b.bv_ga@, lock: b.bv_lock, refcount: b.bv_refcount as int }
}

pub open spec fn partial_view(p: partial_T) -> PartialVal
    decreases p,
{
    PartialVal {
        name: p.pt_name@,
        argv: items_view(p.pt_argv@),
        dict: match p.pt_dict {
            None => None,
            Some(d) => Some(dict_view(d)),
        },
    }
}

impl View for typval_T {
    type V = TypVal;
    open spec fn view(&self) -> TypVal { tv_view(*self) }
}

impl View for typval_vval_union {
    type V = VVal;
    open spec fn view(&self) -> VVal { vval_view(*self) }
}

impl View for list_T {
    type V = ListVal;
    open spec fn view(&self) -> ListVal { list_view(*self) }
}

impl View for dict_T {
    type V = DictVal;
    open spec fn view(&self) -> DictVal { dict_view(*self) }
}

impl View for blob_T {
    type V = BlobVal;
    open spec fn view(&self) -> BlobVal { blob_view(*self) }
}

impl View for partial_T {
    type V = PartialVal;
    open spec fn view(&self) -> PartialVal { partial_view(*self) }
}

impl View for Callback {
    type V = CallbackVal;
    open spec fn view(&self) -> CallbackVal { callback_view(*self) }
}

impl View for DictWatcher {
    type V = WatcherVal;
    open spec fn view(&self) -> WatcherVal { watcher_view(*self) }
}

impl View for dictitem_T {
    type V = (Seq<u8>, TypVal);
    open spec fn view(&self) -> (Seq<u8>, TypVal) { (self.di_key@, tv_view(self.di_tv)) }
}

/// No key occurs twice in a dictionary model.
pub open spec fn keys_unique(keys: Seq<Seq<u8>>) -> bool {
    forall|i: int, j: int| 0 <= i < keys.len() && 0 <= j < keys.len() && i != j ==> keys[i] != keys[j]
}

/// Well-formed dictionary: keys are unique.
pub open spec fn dict_wf(d: DictVal) -> bool {
    &&& keys_unique(d.keys)
    &&& d.keys.len() == d.vals.len()
}

/// Index of `key` in a dictionary model, or -1.
pub open spec fn dict_index_of(keys: Seq<Seq<u8>>, key: Seq<u8>) -> int
    decreases keys.len(),
{
    if keys.len() == 0 {
        -1
    } else if keys.last() == key {
        keys.len() - 1
    } else {
        dict_index_of(keys.drop_last(), key)
    }
}

/// Model constructors.
pub open spec fn mk_tv(ty: VarType, v: VVal) -> TypVal {
    TypVal { ty, lock: VarLockStatus::VAR_UNLOCKED, v }
}

pub open spec fn num_tv(n: int) -> TypVal {
    mk_tv(VarType::VAR_NUMBER, VVal::Number(n))
}

pub open spec fn str_tv(s: Seq<u8>) -> TypVal {
    mk_tv(VarType::VAR_STRING, VVal::Str(s))
}

pub open spec fn list_tv(items: Seq<TypVal>) -> TypVal {
    mk_tv(VarType::VAR_LIST, VVal::List(Some(ListVal { items, lock: VarLockStatus::VAR_UNLOCKED, refcount: 0 })))
}

pub open spec fn blob_tv(bytes: Seq<u8>) -> TypVal {
    mk_tv(VarType::VAR_BLOB, VVal::Blob(Some(BlobVal { bytes, lock: VarLockStatus::VAR_UNLOCKED, refcount: 0 })))
}

pub open spec fn empty_dict_val() -> DictVal {
    DictVal { keys: Seq::empty(), vals: Seq::empty(), lock: VarLockStatus::VAR_UNLOCKED, refcount: 0, watchers: Seq::empty() }
}

pub open spec fn dict_tv(d: DictVal) -> TypVal {
    mk_tv(VarType::VAR_DICT, VVal::Dict(Some(d)))
}

} // verus!
