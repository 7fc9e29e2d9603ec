//! Error messages: the text of each, and how a call reports them.

use vstd::prelude::*;

verus! {

/// The reported messages as plain values.
pub open spec fn msgs_view(m: Seq<Vec<u8>>) -> Seq<Seq<u8>> {
    m.map_values(|v: Vec<u8>| v@)
}

/// The messages after a call that reports `e`, if anything.
pub open spec fn after_report(before: Seq<Vec<u8>>, e: Option<Seq<u8>>) -> Seq<Seq<u8>> {
    match e {
        Some(m) => msgs_view(before).push(m),
        None => msgs_view(before),
    }
}

/// Report the error message `msg`: it is appended to `msgs`.
pub fn emsg(msgs: &mut Vec<Vec<u8>>, msg: Vec<u8>)
    ensures msgs_view(final(msgs)@) == msgs_view(old(msgs)@).push(msg@),
{
    let ghost before = msgs@;
    msgs.push(msg);
    assert(msgs_view(msgs@) =~= msgs_view(before).push(msg@));
}

/// `E119: Not enough arguments for function:`
pub open spec fn msg_e119() -> Seq<u8> { seq![69u8, 49, 49, 57, 58, 32, 78, 111, 116, 32, 101, 110, 111, 117, 103, 104, 32, 97, 114, 103, 117, 109, 101, 110, 116, 115, 32, 102, 111, 114, 32, 102, 117, 110, 99, 116, 105, 111, 110, 58, 32] }

pub(crate) fn msg_e119_exec() -> (r: Vec<u8>)
    ensures r@ == msg_e119(),
{
    let v: Vec<u8> = vec![69u8, 49, 49, 57, 58, 32, 78, 111, 116, 32, 101, 110, 111, 117, 103, 104, 32, 97, 114, 103, 117, 109, 101, 110, 116, 115, 32, 102, 111, 114, 32, 102, 117, 110, 99, 116, 105, 111, 110, 58, 32];
    assert(v@ =~= msg_e119());
    v
}

/// `E118: Too many arguments for function:`
pub open spec fn msg_e118() -> Seq<u8> { seq![69u8, 49, 49, 56, 58, 32, 84, 111, 111, 32, 109, 97, 110, 121, 32, 97, 114, 103, 117, 109, 101, 110, 116, 115, 32, 102, 111, 114, 32, 102, 117, 110, 99, 116, 105, 111, 110, 58, 32] }

pub(crate) fn msg_e118_exec() -> (r: Vec<u8>)
    ensures r@ == msg_e118(),
{
    let v: Vec<u8> = vec![69u8, 49, 49, 56, 58, 32, 84, 111, 111, 32, 109, 97, 110, 121, 32, 97, 114, 103, 117, 109, 101, 110, 116, 115, 32, 102, 111, 114, 32, 102, 117, 110, 99, 116, 105, 111, 110, 58, 32];
    assert(v@ =~= msg_e118());
    v
}

/// `E684: list index out of range:`
pub open spec fn msg_e684_lower() -> Seq<u8> { seq![69u8, 54, 56, 52, 58, 32, 108, 105, 115, 116, 32, 105, 110, 100, 101, 120, 32, 111, 117, 116, 32, 111, 102, 32, 114, 97, 110, 103, 101, 58, 32] }

pub(crate) fn msg_e684_lower_exec() -> (r: Vec<u8>)
    ensures r@ == msg_e684_lower(),
{
    let v: Vec<u8> = vec![69u8, 54, 56, 52, 58, 32, 108, 105, 115, 116, 32, 105, 110, 100, 101, 120, 32, 111, 117, 116, 32, 111, 102, 32, 114, 97, 110, 103, 101, 58, 32];
    assert(v@ =~= msg_e684_lower());
    v
}

/// `E684: List index out of range:`
pub open spec fn msg_e684_upper() -> Seq<u8> { seq![69u8, 54, 56, 52, 58, 32, 76, 105, 115, 116, 32, 105, 110, 100, 101, 120, 32, 111, 117, 116, 32, 111, 102, 32, 114, 97, 110, 103, 101, 58, 32] }

pub(crate) fn msg_e684_upper_exec() -> (r: Vec<u8>)
    ensures r@ == msg_e684_upper(),
{
    let v: Vec<u8> = vec![69u8, 54, 56, 52, 58, 32, 76, 105, 115, 116, 32, 105, 110, 100, 101, 120, 32, 111, 117, 116, 32, 111, 102, 32, 114, 97, 110, 103, 101, 58, 32];
    assert(v@ =~= msg_e684_upper());
    v
}

/// `E741: Value is locked`
pub open spec fn msg_e741() -> Seq<u8> { seq![69u8, 55, 52, 49, 58, 32, 86, 97, 108, 117, 101, 32, 105, 115, 32, 108, 111, 99, 107, 101, 100] }

pub(crate) fn msg_e741_exec() -> (r: Vec<u8>)
    ensures r@ == msg_e741(),
{
    let v: Vec<u8> = vec![69u8, 55, 52, 49, 58, 32, 86, 97, 108, 117, 101, 32, 105, 115, 32, 108, 111, 99, 107, 101, 100];
    assert(v@ =~= msg_e741());
    v
}

/// `E741: Value is locked:`
pub open spec fn msg_e741_of() -> Seq<u8> { seq![69u8, 55, 52, 49, 58, 32, 86, 97, 108, 117, 101, 32, 105, 115, 32, 108, 111, 99, 107, 101, 100, 58, 32] }

pub(crate) fn msg_e741_of_exec() -> (r: Vec<u8>)
    ensures r@ == msg_e741_of(),
{
    let v: Vec<u8> = vec![69u8, 55, 52, 49, 58, 32, 86, 97, 108, 117, 101, 32, 105, 115, 32, 108, 111, 99, 107, 101, 100, 58, 32];
    assert(v@ =~= msg_e741_of());
    v
}

/// `E742: Cannot change value`
pub open spec fn msg_e742() -> Seq<u8> { seq![69u8, 55, 52, 50, 58, 32, 67, 97, 110, 110, 111, 116, 32, 99, 104, 97, 110, 103, 101, 32, 118, 97, 108, 117, 101] }

pub(crate) fn msg_e742_exec() -> (r: Vec<u8>)
    ensures r@ == msg_e742(),
{
    let v: Vec<u8> = vec![69u8, 55, 52, 50, 58, 32, 67, 97, 110, 110, 111, 116, 32, 99, 104, 97, 110, 103, 101, 32, 118, 97, 108, 117, 101];
    assert(v@ =~= msg_e742());
    v
}

/// `E742: Cannot change value of`
pub open spec fn msg_e742_of() -> Seq<u8> { seq![69u8, 55, 52, 50, 58, 32, 67, 97, 110, 110, 111, 116, 32, 99, 104, 97, 110, 103, 101, 32, 118, 97, 108, 117, 101, 32, 111, 102, 32] }

pub(crate) fn msg_e742_of_exec() -> (r: Vec<u8>)
    ensures r@ == msg_e742_of(),
{
    let v: Vec<u8> = vec![69u8, 55, 52, 50, 58, 32, 67, 97, 110, 110, 111, 116, 32, 99, 104, 97, 110, 103, 101, 32, 118, 97, 108, 117, 101, 32, 111, 102, 32];
    assert(v@ =~= msg_e742_of());
    v
}

/// `E1212: Bool required for argument`
pub open spec fn msg_e1212() -> Seq<u8> { seq![69u8, 49, 50, 49, 50, 58, 32, 66, 111, 111, 108, 32, 114, 101, 113, 117, 105, 114, 101, 100, 32, 102, 111, 114, 32, 97, 114, 103, 117, 109, 101, 110, 116, 32] }

pub(crate) fn msg_e1212_exec() -> (r: Vec<u8>)
    ensures r@ == msg_e1212(),
{
    let v: Vec<u8> = vec![69u8, 49, 50, 49, 50, 58, 32, 66, 111, 111, 108, 32, 114, 101, 113, 117, 105, 114, 101, 100, 32, 102, 111, 114, 32, 97, 114, 103, 117, 109, 101, 110, 116, 32];
    assert(v@ =~= msg_e1212());
    v
}

/// `E972: Blob value does not have the right number of bytes`
pub open spec fn msg_e972() -> Seq<u8> { seq![69u8, 57, 55, 50, 58, 32, 66, 108, 111, 98, 32, 118, 97, 108, 117, 101, 32, 100, 111, 101, 115, 32, 110, 111, 116, 32, 104, 97, 118, 101, 32, 116, 104, 101, 32, 114, 105, 103, 104, 116, 32, 110, 117, 109, 98, 101, 114, 32, 111, 102, 32, 98, 121, 116, 101, 115] }

pub(crate) fn msg_e972_exec() -> (r: Vec<u8>)
    ensures r@ == msg_e972(),
{
    let v: Vec<u8> = vec![69u8, 57, 55, 50, 58, 32, 66, 108, 111, 98, 32, 118, 97, 108, 117, 101, 32, 100, 111, 101, 115, 32, 110, 111, 116, 32, 104, 97, 118, 101, 32, 116, 104, 101, 32, 114, 105, 103, 104, 116, 32, 110, 117, 109, 98, 101, 114, 32, 111, 102, 32, 98, 121, 116, 101, 115];
    assert(v@ =~= msg_e972());
    v
}

/// `E475: Invalid argument:`
pub open spec fn msg_e475() -> Seq<u8> { seq![69u8, 52, 55, 53, 58, 32, 73, 110, 118, 97, 108, 105, 100, 32, 97, 114, 103, 117, 109, 101, 110, 116, 58, 32] }

pub(crate) fn msg_e475_exec() -> (r: Vec<u8>)
    ensures r@ == msg_e475(),
{
    let v: Vec<u8> = vec![69u8, 52, 55, 53, 58, 32, 73, 110, 118, 97, 108, 105, 100, 32, 97, 114, 103, 117, 109, 101, 110, 116, 58, 32];
    assert(v@ =~= msg_e475());
    v
}

/// `E726: Stride is zero`
pub open spec fn msg_e726() -> Seq<u8> { seq![69u8, 55, 50, 54, 58, 32, 83, 116, 114, 105, 100, 101, 32, 105, 115, 32, 122, 101, 114, 111] }

pub(crate) fn msg_e726_exec() -> (r: Vec<u8>)
    ensures r@ == msg_e726(),
{
    let v: Vec<u8> = vec![69u8, 55, 50, 54, 58, 32, 83, 116, 114, 105, 100, 101, 32, 105, 115, 32, 122, 101, 114, 111];
    assert(v@ =~= msg_e726());
    v
}

/// `E727: Start past end`
pub open spec fn msg_e727() -> Seq<u8> { seq![69u8, 55, 50, 55, 58, 32, 83, 116, 97, 114, 116, 32, 112, 97, 115, 116, 32, 101, 110, 100] }

pub(crate) fn msg_e727_exec() -> (r: Vec<u8>)
    ensures r@ == msg_e727(),
{
    let v: Vec<u8> = vec![69u8, 55, 50, 55, 58, 32, 83, 116, 97, 114, 116, 32, 112, 97, 115, 116, 32, 101, 110, 100];
    assert(v@ =~= msg_e727());
    v
}

/// `E1531: Argument of get() must be a List, Tuple, Dictionary or Blob`
pub open spec fn msg_e1531() -> Seq<u8> { seq![69u8, 49, 53, 51, 49, 58, 32, 65, 114, 103, 117, 109, 101, 110, 116, 32, 111, 102, 32, 103, 101, 116, 40, 41, 32, 109, 117, 115, 116, 32, 98, 101, 32, 97, 32, 76, 105, 115, 116, 44, 32, 84, 117, 112, 108, 101, 44, 32, 68, 105, 99, 116, 105, 111, 110, 97, 114, 121, 32, 111, 114, 32, 66, 108, 111, 98] }

pub(crate) fn msg_e1531_exec() -> (r: Vec<u8>)
    ensures r@ == msg_e1531(),
{
    let v: Vec<u8> = vec![69u8, 49, 53, 51, 49, 58, 32, 65, 114, 103, 117, 109, 101, 110, 116, 32, 111, 102, 32, 103, 101, 116, 40, 41, 32, 109, 117, 115, 116, 32, 98, 101, 32, 97, 32, 76, 105, 115, 116, 44, 32, 84, 117, 112, 108, 101, 44, 32, 68, 105, 99, 116, 105, 111, 110, 97, 114, 121, 32, 111, 114, 32, 66, 108, 111, 98];
    assert(v@ =~= msg_e1531());
    v
}

/// `E701: Invalid type for len()`
pub open spec fn msg_e701() -> Seq<u8> { seq![69u8, 55, 48, 49, 58, 32, 73, 110, 118, 97, 108, 105, 100, 32, 116, 121, 112, 101, 32, 102, 111, 114, 32, 108, 101, 110, 40, 41] }

pub(crate) fn msg_e701_exec() -> (r: Vec<u8>)
    ensures r@ == msg_e701(),
{
    let v: Vec<u8> = vec![69u8, 55, 48, 49, 58, 32, 73, 110, 118, 97, 108, 105, 100, 32, 116, 121, 112, 101, 32, 102, 111, 114, 32, 108, 101, 110, 40, 41];
    assert(v@ =~= msg_e701());
    v
}

/// `E5070: Character number must not be less than zero`
pub open spec fn msg_e5070() -> Seq<u8> { seq![69u8, 53, 48, 55, 48, 58, 32, 67, 104, 97, 114, 97, 99, 116, 101, 114, 32, 110, 117, 109, 98, 101, 114, 32, 109, 117, 115, 116, 32, 110, 111, 116, 32, 98, 101, 32, 108, 101, 115, 115, 32, 116, 104, 97, 110, 32, 122, 101, 114, 111] }

pub(crate) fn msg_e5070_exec() -> (r: Vec<u8>)
    ensures r@ == msg_e5070(),
{
    let v: Vec<u8> = vec![69u8, 53, 48, 55, 48, 58, 32, 67, 104, 97, 114, 97, 99, 116, 101, 114, 32, 110, 117, 109, 98, 101, 114, 32, 109, 117, 115, 116, 32, 110, 111, 116, 32, 98, 101, 32, 108, 101, 115, 115, 32, 116, 104, 97, 110, 32, 122, 101, 114, 111];
    assert(v@ =~= msg_e5070());
    v
}

/// `E5071: Character number must not be greater than INT_MAX (2147483647)`
pub open spec fn msg_e5071() -> Seq<u8> { seq![69u8, 53, 48, 55, 49, 58, 32, 67, 104, 97, 114, 97, 99, 116, 101, 114, 32, 110, 117, 109, 98, 101, 114, 32, 109, 117, 115, 116, 32, 110, 111, 116, 32, 98, 101, 32, 103, 114, 101, 97, 116, 101, 114, 32, 116, 104, 97, 110, 32, 73, 78, 84, 95, 77, 65, 88, 32, 40, 50, 49, 52, 55, 52, 56, 51, 54, 52, 55, 41] }

pub(crate) fn msg_e5071_exec() -> (r: Vec<u8>)
    ensures r@ == msg_e5071(),
{
    let v: Vec<u8> = vec![69u8, 53, 48, 55, 49, 58, 32, 67, 104, 97, 114, 97, 99, 116, 101, 114, 32, 110, 117, 109, 98, 101, 114, 32, 109, 117, 115, 116, 32, 110, 111, 116, 32, 98, 101, 32, 103, 114, 101, 97, 116, 101, 114, 32, 116, 104, 97, 110, 32, 73, 78, 84, 95, 77, 65, 88, 32, 40, 50, 49, 52, 55, 52, 56, 51, 54, 52, 55, 41];
    assert(v@ =~= msg_e5071());
    v
}

/// `E897: List or Blob required`
pub open spec fn msg_e897() -> Seq<u8> { seq![69u8, 56, 57, 55, 58, 32, 76, 105, 115, 116, 32, 111, 114, 32, 66, 108, 111, 98, 32, 114, 101, 113, 117, 105, 114, 101, 100] }

pub(crate) fn msg_e897_exec() -> (r: Vec<u8>)
    ensures r@ == msg_e897(),
{
    let v: Vec<u8> = vec![69u8, 56, 57, 55, 58, 32, 76, 105, 115, 116, 32, 111, 114, 32, 66, 108, 111, 98, 32, 114, 101, 113, 117, 105, 114, 101, 100];
    assert(v@ =~= msg_e897());
    v
}

/// `E714: List required`
pub open spec fn msg_e714() -> Seq<u8> { seq![69u8, 55, 49, 52, 58, 32, 76, 105, 115, 116, 32, 114, 101, 113, 117, 105, 114, 101, 100] }

pub(crate) fn msg_e714_exec() -> (r: Vec<u8>)
    ensures r@ == msg_e714(),
{
    let v: Vec<u8> = vec![69u8, 55, 49, 52, 58, 32, 76, 105, 115, 116, 32, 114, 101, 113, 117, 105, 114, 101, 100];
    assert(v@ =~= msg_e714());
    v
}

/// `E474: Invalid argument`
pub open spec fn msg_e474() -> Seq<u8> { seq![69u8, 52, 55, 52, 58, 32, 73, 110, 118, 97, 108, 105, 100, 32, 97, 114, 103, 117, 109, 101, 110, 116] }

pub(crate) fn msg_e474_exec() -> (r: Vec<u8>)
    ensures r@ == msg_e474(),
{
    let v: Vec<u8> = vec![69u8, 52, 55, 52, 58, 32, 73, 110, 118, 97, 108, 105, 100, 32, 97, 114, 103, 117, 109, 101, 110, 116];
    assert(v@ =~= msg_e474());
    v
}

/// `E686: Argument of sort() must be a List`
pub open spec fn msg_e686_sort() -> Seq<u8> { seq![69u8, 54, 56, 54, 58, 32, 65, 114, 103, 117, 109, 101, 110, 116, 32, 111, 102, 32, 115, 111, 114, 116, 40, 41, 32, 109, 117, 115, 116, 32, 98, 101, 32, 97, 32, 76, 105, 115, 116] }

pub(crate) fn msg_e686_sort_exec() -> (r: Vec<u8>)
    ensures r@ == msg_e686_sort(),
{
    let v: Vec<u8> = vec![69u8, 54, 56, 54, 58, 32, 65, 114, 103, 117, 109, 101, 110, 116, 32, 111, 102, 32, 115, 111, 114, 116, 40, 41, 32, 109, 117, 115, 116, 32, 98, 101, 32, 97, 32, 76, 105, 115, 116];
    assert(v@ =~= msg_e686_sort());
    v
}

/// `E686: Argument of uniq() must be a List`
pub open spec fn msg_e686_uniq() -> Seq<u8> { seq![69u8, 54, 56, 54, 58, 32, 65, 114, 103, 117, 109, 101, 110, 116, 32, 111, 102, 32, 117, 110, 105, 113, 40, 41, 32, 109, 117, 115, 116, 32, 98, 101, 32, 97, 32, 76, 105, 115, 116] }

pub(crate) fn msg_e686_uniq_exec() -> (r: Vec<u8>)
    ensures r@ == msg_e686_uniq(),
{
    let v: Vec<u8> = vec![69u8, 54, 56, 54, 58, 32, 65, 114, 103, 117, 109, 101, 110, 116, 32, 111, 102, 32, 117, 110, 105, 113, 40, 41, 32, 109, 117, 115, 116, 32, 98, 101, 32, 97, 32, 76, 105, 115, 116];
    assert(v@ =~= msg_e686_uniq());
    v
}

/// `E702: Sort compare function failed`
pub open spec fn msg_e702() -> Seq<u8> { seq![69u8, 55, 48, 50, 58, 32, 83, 111, 114, 116, 32, 99, 111, 109, 112, 97, 114, 101, 32, 102, 117, 110, 99, 116, 105, 111, 110, 32, 102, 97, 105, 108, 101, 100] }

pub(crate) fn msg_e702_exec() -> (r: Vec<u8>)
    ensures r@ == msg_e702(),
{
    let v: Vec<u8> = vec![69u8, 55, 48, 50, 58, 32, 83, 111, 114, 116, 32, 99, 111, 109, 112, 97, 114, 101, 32, 102, 117, 110, 99, 116, 105, 111, 110, 32, 102, 97, 105, 108, 101, 100];
    assert(v@ =~= msg_e702());
    v
}

/// `E882: Uniq compare function failed`
pub open spec fn msg_e882() -> Seq<u8> { seq![69u8, 56, 56, 50, 58, 32, 85, 110, 105, 113, 32, 99, 111, 109, 112, 97, 114, 101, 32, 102, 117, 110, 99, 116, 105, 111, 110, 32, 102, 97, 105, 108, 101, 100] }

pub(crate) fn msg_e882_exec() -> (r: Vec<u8>)
    ensures r@ == msg_e882(),
{
    let v: Vec<u8> = vec![69u8, 56, 56, 50, 58, 32, 85, 110, 105, 113, 32, 99, 111, 109, 112, 97, 114, 101, 32, 102, 117, 110, 99, 116, 105, 111, 110, 32, 102, 97, 105, 108, 101, 100];
    assert(v@ =~= msg_e882());
    v
}

/// `sort() argument`
pub open spec fn msg_sort_arg() -> Seq<u8> { seq![115u8, 111, 114, 116, 40, 41, 32, 97, 114, 103, 117, 109, 101, 110, 116] }

pub(crate) fn msg_sort_arg_exec() -> (r: Vec<u8>)
    ensures r@ == msg_sort_arg(),
{
    let v: Vec<u8> = vec![115u8, 111, 114, 116, 40, 41, 32, 97, 114, 103, 117, 109, 101, 110, 116];
    assert(v@ =~= msg_sort_arg());
    v
}

/// `uniq() argument`
pub open spec fn msg_uniq_arg() -> Seq<u8> { seq![117u8, 110, 105, 113, 40, 41, 32, 97, 114, 103, 117, 109, 101, 110, 116] }

pub(crate) fn msg_uniq_arg_exec() -> (r: Vec<u8>)
    ensures r@ == msg_uniq_arg(),
{
    let v: Vec<u8> = vec![117u8, 110, 105, 113, 40, 41, 32, 97, 114, 103, 117, 109, 101, 110, 116];
    assert(v@ =~= msg_uniq_arg());
    v
}

/// `E16: Invalid range`
pub open spec fn msg_e16() -> Seq<u8> { seq![69u8, 49, 54, 58, 32, 73, 110, 118, 97, 108, 105, 100, 32, 114, 97, 110, 103, 101] }

pub(crate) fn msg_e16_exec() -> (r: Vec<u8>)
    ensures r@ == msg_e16(),
{
    let v: Vec<u8> = vec![69u8, 49, 54, 58, 32, 73, 110, 118, 97, 108, 105, 100, 32, 114, 97, 110, 103, 101];
    assert(v@ =~= msg_e16());
    v
}

/// `E118: Too many arguments for function: remove()`
pub open spec fn msg_e118_remove() -> Seq<u8> { seq![69u8, 49, 49, 56, 58, 32, 84, 111, 111, 32, 109, 97, 110, 121, 32, 97, 114, 103, 117, 109, 101, 110, 116, 115, 32, 102, 111, 114, 32, 102, 117, 110, 99, 116, 105, 111, 110, 58, 32, 114, 101, 109, 111, 118, 101, 40, 41] }

pub(crate) fn msg_e118_remove_exec() -> (r: Vec<u8>)
    ensures r@ == msg_e118_remove(),
{
    let v: Vec<u8> = vec![69u8, 49, 49, 56, 58, 32, 84, 111, 111, 32, 109, 97, 110, 121, 32, 97, 114, 103, 117, 109, 101, 110, 116, 115, 32, 102, 111, 114, 32, 102, 117, 110, 99, 116, 105, 111, 110, 58, 32, 114, 101, 109, 111, 118, 101, 40, 41];
    assert(v@ =~= msg_e118_remove());
    v
}

/// `E716: Key not present in Dictionary: "`
pub open spec fn msg_e716() -> Seq<u8> { seq![69u8, 55, 49, 54, 58, 32, 75, 101, 121, 32, 110, 111, 116, 32, 112, 114, 101, 115, 101, 110, 116, 32, 105, 110, 32, 68, 105, 99, 116, 105, 111, 110, 97, 114, 121, 58, 32, 34] }

pub(crate) fn msg_e716_exec() -> (r: Vec<u8>)
    ensures r@ == msg_e716(),
{
    let v: Vec<u8> = vec![69u8, 55, 49, 54, 58, 32, 75, 101, 121, 32, 110, 111, 116, 32, 112, 114, 101, 115, 101, 110, 116, 32, 105, 110, 32, 68, 105, 99, 116, 105, 111, 110, 97, 114, 121, 58, 32, 34];
    assert(v@ =~= msg_e716());
    v
}

/// `"`
pub open spec fn msg_quote() -> Seq<u8> { seq![34u8] }

pub(crate) fn msg_quote_exec() -> (r: Vec<u8>)
    ensures r@ == msg_quote(),
{
    let v: Vec<u8> = vec![34u8];
    assert(v@ =~= msg_quote());
    v
}

/// `E979: Blob index out of range:`
pub open spec fn msg_e979() -> Seq<u8> { seq![69u8, 57, 55, 57, 58, 32, 66, 108, 111, 98, 32, 105, 110, 100, 101, 120, 32, 111, 117, 116, 32, 111, 102, 32, 114, 97, 110, 103, 101, 58, 32] }

pub(crate) fn msg_e979_exec() -> (r: Vec<u8>)
    ensures r@ == msg_e979(),
{
    let v: Vec<u8> = vec![69u8, 57, 55, 57, 58, 32, 66, 108, 111, 98, 32, 105, 110, 100, 101, 120, 32, 111, 117, 116, 32, 111, 102, 32, 114, 97, 110, 103, 101, 58, 32];
    assert(v@ =~= msg_e979());
    v
}

/// `E896: Argument of remove() must be a List, Dictionary or Blob`
pub open spec fn msg_e896() -> Seq<u8> { seq![69u8, 56, 57, 54, 58, 32, 65, 114, 103, 117, 109, 101, 110, 116, 32, 111, 102, 32, 114, 101, 109, 111, 118, 101, 40, 41, 32, 109, 117, 115, 116, 32, 98, 101, 32, 97, 32, 76, 105, 115, 116, 44, 32, 68, 105, 99, 116, 105, 111, 110, 97, 114, 121, 32, 111, 114, 32, 66, 108, 111, 98] }

pub(crate) fn msg_e896_exec() -> (r: Vec<u8>)
    ensures r@ == msg_e896(),
{
    let v: Vec<u8> = vec![69u8, 56, 57, 54, 58, 32, 65, 114, 103, 117, 109, 101, 110, 116, 32, 111, 102, 32, 114, 101, 109, 111, 118, 101, 40, 41, 32, 109, 117, 115, 116, 32, 98, 101, 32, 97, 32, 76, 105, 115, 116, 44, 32, 68, 105, 99, 116, 105, 111, 110, 97, 114, 121, 32, 111, 114, 32, 66, 108, 111, 98];
    assert(v@ =~= msg_e896());
    v
}

} // verus!
