//! Conversions between Numbers and their text: decimal rendering and the
//! `vim_str2nr()` reading of decimal, hex (`0x`), octal (`0`/`0o`) and binary
//! (`0b`) numbers.
use vstd::prelude::*;
use crate::typval_defs::varnumber_T;

verus! {

/// Decimal digits of a natural number.
pub open spec fn nat_digits(n: nat) -> Seq<u8>
    decreases n,
{
    if n < 10 {
        seq![(48 + n) as u8]
    } else {
        nat_digits(n / 10).push((48 + n % 10) as u8)
    }
}

/// Decimal rendering of a Number (`%lld`).
pub open spec fn nr2str(n: int) -> Seq<u8> {
    if n < 0 {
        seq![45u8] + nat_digits((-n) as nat)
    } else {
        nat_digits(n as nat)
    }
}

fn push_digits(m: u64, out: &mut Vec<u8>)
    ensures final(out)@ == old(out)@ + nat_digits(m as nat),
    decreases m,
{
    if m < 10 {
        out.push(48u8 + m as u8);
    } else {
        push_digits(m / 10, out);
        out.push(48u8 + (m % 10) as u8);
    }
}

/// Render a Number in decimal.
pub fn nr2bytes(n: varnumber_T) -> (r: Vec<u8>)
    ensures r@ == nr2str(n as int),
{
    let mut out: Vec<u8> = Vec::new();
    if n < 0 {
        out.push(45u8);
        let m: u64 = (0i128 - n as i128) as u64;
        push_digits(m, &mut out);
    } else {
        push_digits(n as u64, &mut out);
    }
    out
}

pub open spec fn U64MAX() -> int { 0xffff_ffff_ffff_ffff }

pub open spec fn is_digit(c: u8) -> bool { 48 <= c <= 57 }

pub open spec fn is_xdigit(c: u8) -> bool {
    is_digit(c) || (97 <= c <= 102) || (65 <= c <= 70)
}

/// Whether `c` is a digit of `base`.
pub open spec fn is_base_digit(c: u8, base: int) -> bool {
    if base == 2 { c == 48 || c == 49 }
    else if base == 8 { 48 <= c <= 55 }
    else if base == 16 { is_xdigit(c) }
    else { is_digit(c) }
}

/// Value of a digit.
pub open spec fn digit_val(c: u8) -> int {
    if 48 <= c <= 57 { c - 48 }
    else if 97 <= c <= 102 { c - 87 }
    else { c - 55 }
}

/// One accumulation step, saturating at the largest unsigned 64-bit value.
pub open spec fn acc_step(un: int, d: int, base: int) -> int {
    if base * un + d <= U64MAX() { base * un + d } else { U64MAX() }
}

/// Read the leading digits of `s` in `base` onto `un`.
pub open spec fn accum(s: Seq<u8>, base: int, un: int) -> int
    decreases s.len(),
{
    if s.len() == 0 || !is_base_digit(s[0], base) {
        un
    } else {
        accum(s.subrange(1, s.len() as int), base, acc_step(un, digit_val(s[0]), base))
    }
}

/// Whether the digits following a leading `0` (up to the first non-digit)
/// are all octal digits, and there is at least one.
pub open spec fn octal_run(p: Seq<u8>, n: int) -> bool
    decreases p.len() - n,
{
    if n >= p.len() || !is_digit(p[n]) {
        n > 1
    } else if p[n] > 55 {
        false
    } else {
        octal_run(p, n + 1)
    }
}

/// The base and the index at which the digits start, for a number text
/// without its sign.
pub open spec fn num_prefix(p: Seq<u8>) -> (int, int) {
    if p.len() >= 1 && p[0] == 48 && !(p.len() >= 2 && (p[1] == 56 || p[1] == 57)) {
        if p.len() >= 3 && (p[1] == 120 || p[1] == 88) && is_xdigit(p[2]) {
            (16, 2)
        } else if p.len() >= 3 && (p[1] == 98 || p[1] == 66) && (p[2] == 48 || p[2] == 49) {
            (2, 2)
        } else if p.len() >= 3 && (p[1] == 111 || p[1] == 79) && 48 <= p[2] <= 55 {
            (8, 2)
        } else if octal_run(p, 1) {
            (8, 0)
        } else {
            (10, 0)
        }
    } else {
        (10, 0)
    }
}

/// `vim_str2nr(s, ..., STR2NR_ALL, ...)`: the Number a text starts with.
pub open spec fn str2nr(s: Seq<u8>) -> int {
    let neg = s.len() > 0 && s[0] == 45;
    let p = if neg { s.subrange(1, s.len() as int) } else { s };
    let (base, start) = num_prefix(p);
    let un = accum(p.subrange(start, p.len() as int), base, 0);
    if neg {
        if un > 0x7fff_ffff_ffff_ffff { -0x8000_0000_0000_0000 } else { -un }
    } else {
        if un > 0x7fff_ffff_ffff_ffff { 0x7fff_ffff_ffff_ffff } else { un }
    }
}

proof fn lemma_accum_bounded(s: Seq<u8>, base: int, un: int)
    requires 0 <= un <= U64MAX(), 2 <= base <= 16,
    ensures 0 <= accum(s, base, un) <= U64MAX(),
    decreases s.len(),
{
    if s.len() == 0 || !is_base_digit(s[0], base) {
    } else {
        let d = digit_val(s[0]);
        assert(0 <= d < 16);
        assert(base * un >= 0) by (nonlinear_arith) requires base >= 2, un >= 0;
        lemma_accum_bounded(s.subrange(1, s.len() as int), base, acc_step(un, d, base));
    }
}

fn is_digit_exec(c: u8) -> (r: bool)
    ensures r == is_digit(c),
{
    48 <= c && c <= 57
}

fn is_base_digit_exec(c: u8, base: u64) -> (r: bool)
    ensures r == is_base_digit(c, base as int),
{
    if base == 2 { c == 48 || c == 49 }
    else if base == 8 { 48 <= c && c <= 55 }
    else if base == 16 { (48 <= c && c <= 57) || (97 <= c && c <= 102) || (65 <= c && c <= 70) }
    else { 48 <= c && c <= 57 }
}

fn octal_run_exec(p: &[u8]) -> (r: bool)
    requires p@.len() >= 1,
    ensures r == octal_run(p@, 1),
{
    let mut n: usize = 1;
    while n < p.len() && is_digit_exec(p[n])
        invariant
            1 <= n <= p.len(),
            octal_run(p@, 1) == octal_run(p@, n as int),
            forall|k: int| 1 <= k < n ==> p@[k] <= 55,
        decreases p.len() - n,
    {
        if p[n] > 55 {
            return false;
        }
        n += 1;
    }
    n > 1
}

/// Read the Number a text starts with (decimal, `0x` hex, `0`/`0o` octal,
/// `0b` binary, optional leading `-`), saturating on overflow.
pub fn str2nr_all(s: &[u8]) -> (r: varnumber_T)
    ensures r as int == str2nr(s@),
{
    let neg = s.len() > 0 && s[0] == 45u8;
    let start0: usize = if neg { 1 } else { 0 };
    let ghost p = if neg { s@.subrange(1, s@.len() as int) } else { s@ };
    let plen = s.len() - start0;
    assert(p.len() == plen);
    assert(forall|k: int| 0 <= k < plen ==> p[k] == s@[start0 + k]);
    let mut base: u64 = 10;
    let mut dstart: usize = 0;
    if plen >= 1 && s[start0] == 48u8 && !(plen >= 2 && (s[start0 + 1] == 56u8 || s[start0 + 1] == 57u8)) {
        let c1: u8 = if plen >= 2 { s[start0 + 1] } else { 0 };
        let c2: u8 = if plen >= 3 { s[start0 + 2] } else { 0 };
        if plen >= 3 && (c1 == 120u8 || c1 == 88u8) && is_base_digit_exec(c2, 16) {
            base = 16;
            dstart = 2;
        } else if plen >= 3 && (c1 == 98u8 || c1 == 66u8) && (c2 == 48u8 || c2 == 49u8) {
            base = 2;
            dstart = 2;
        } else if plen >= 3 && (c1 == 111u8 || c1 == 79u8) && 48u8 <= c2 && c2 <= 55u8 {
            base = 8;
            dstart = 2;
        } else {
            let (_, rest) = s.split_at(start0);
            assert(rest@ == p);
            if octal_run_exec(rest) {
                base = 8;
            }
        }
    }
    assert((base as int, dstart as int) == num_prefix(p));
    let mut un: u64 = 0;
    let mut j: usize = start0 + dstart;
    let ghost q = p.subrange(dstart as int, p.len() as int);
    assert(q =~= s@.subrange(j as int, s@.len() as int));
    while j < s.len() && is_base_digit_exec(s[j], base)
        invariant
            start0 + dstart <= j <= s.len(),
            base == 2 || base == 8 || base == 10 || base == 16,
            accum(q, base as int, 0) == accum(s@.subrange(j as int, s@.len() as int), base as int, un as int),
        decreases s.len() - j,
    {
        let c = s[j];
        let d: u64 = if 48 <= c && c <= 57 { (c - 48) as u64 } else if 97 <= c && c <= 102 { (c - 87) as u64 } else { (c - 55) as u64 };
        assert(d as int == digit_val(c));
        let ghost rest = s@.subrange(j as int, s@.len() as int);
        assert(rest.subrange(1, rest.len() as int) =~= s@.subrange(j + 1, s@.len() as int));
        if un <= (0xffff_ffff_ffff_ffffu64 - d) / base {
            assert(base * un + d <= U64MAX()) by (nonlinear_arith)
                requires un <= (U64MAX() - d) / (base as int), base > 0, d >= 0, d <= U64MAX();
            un = base * un + d;
        } else {
            assert(base * un + d > U64MAX()) by (nonlinear_arith)
                requires un > (U64MAX() - d) / (base as int), base > 0, d >= 0, d <= U64MAX();
            un = 0xffff_ffff_ffff_ffffu64;
        }
        j += 1;
    }
    assert(accum(s@.subrange(j as int, s@.len() as int), base as int, un as int) == un as int);
    if neg {
        if un > 0x7fff_ffff_ffff_ffffu64 { -0x8000_0000_0000_0000i64 } else { 0 - (un as i64) }
    } else {
        if un > 0x7fff_ffff_ffff_ffffu64 { 0x7fff_ffff_ffff_ffffi64 } else { un as i64 }
    }
}


/// A UTF-8 continuation byte.
pub open spec fn is_cont(b: u8) -> bool { 0x80 <= b <= 0xbf }

/// Length of the character starting at `i`: a well-formed UTF-8 sequence
/// counts as one character; any other byte stands alone.
pub open spec fn char_len_at(s: Seq<u8>, i: int) -> int {
    let b = s[i];
    if b >= 0xc2 && b <= 0xdf && i + 2 <= s.len() && is_cont(s[i + 1]) { 2 }
    else if b >= 0xe0 && b <= 0xef && i + 3 <= s.len() && is_cont(s[i + 1]) && is_cont(s[i + 2]) { 3 }
    else if b >= 0xf0 && b <= 0xf4 && i + 4 <= s.len() && is_cont(s[i + 1]) && is_cont(s[i + 2]) && is_cont(s[i + 3]) { 4 }
    else { 1 }
}

/// The characters of a byte string, each as its bytes.
pub open spec fn utf8_split(s: Seq<u8>) -> Seq<Seq<u8>>
    decreases s.len(),
{
    if s.len() == 0 {
        Seq::empty()
    } else {
        let n = char_len_at(s, 0);
        seq![s.subrange(0, n)] + utf8_split(s.subrange(n, s.len() as int))
    }
}

/// Length of the character at `i` of `s`.
pub fn char_len_exec(s: &[u8], i: usize) -> (r: usize)
    requires i < s@.len(),
    ensures r as int == char_len_at(s@, i as int), 1 <= r <= 4, i + r <= s@.len(),
{
    let b = s[i];
    let left: usize = s.len() - i;
    if b >= 0xc2 && b <= 0xdf && left >= 2 && 0x80 <= s[i + 1] && s[i + 1] <= 0xbf { 2 }
    else if b >= 0xe0 && b <= 0xef && left >= 3 && 0x80 <= s[i + 1] && s[i + 1] <= 0xbf && 0x80 <= s[i + 2] && s[i + 2] <= 0xbf { 3 }
    else if b >= 0xf0 && b <= 0xf4 && left >= 4 && 0x80 <= s[i + 1] && s[i + 1] <= 0xbf && 0x80 <= s[i + 2] && s[i + 2] <= 0xbf
        && 0x80 <= s[i + 3] && s[i + 3] <= 0xbf { 4 }
    else { 1 }
}

pub proof fn lemma_char_len_shift(s: Seq<u8>, i: int)
    requires 0 <= i < s.len(),
    ensures char_len_at(s.subrange(i, s.len() as int), 0) == char_len_at(s, i),
{
}

/// Split a byte string into its characters.
pub fn utf8_chars(s: &[u8]) -> (r: Vec<Vec<u8>>)
    ensures
        r@.len() == utf8_split(s@).len(),
        forall|k: int| 0 <= k < r@.len() ==> #[trigger] r@[k]@ == utf8_split(s@)[k],
{
    let mut out: Vec<Vec<u8>> = Vec::new();
    let mut i: usize = 0;
    let ghost done: Seq<Seq<u8>> = Seq::empty();
    assert(s@.subrange(0, s@.len() as int) =~= s@);
    while i < s.len()
        invariant
            i <= s@.len(),
            out@.len() == done.len(),
            forall|k: int| 0 <= k < out@.len() ==> #[trigger] out@[k]@ == done[k],
            done + utf8_split(s@.subrange(i as int, s@.len() as int)) == utf8_split(s@),
        decreases s@.len() - i,
    {
        let n = char_len_exec(s, i);
        let ghost rest = s@.subrange(i as int, s@.len() as int);
        proof { lemma_char_len_shift(s@, i as int); }
        let mut piece: Vec<u8> = Vec::new();
        let end: usize = i + n;
        let mut j: usize = i;
        while j < end
            invariant i <= j <= end, end == i + n, end <= s@.len(), piece@ == s@.subrange(i as int, j as int),
            decreases end - j,
        {
            piece.push(s[j]);
            j += 1;
        }
        assert(rest.subrange(0, n as int) =~= piece@);
        assert(rest.subrange(n as int, rest.len() as int) =~= s@.subrange(i + n, s@.len() as int));
        proof {
            assert(done + utf8_split(rest) == done + (seq![piece@] + utf8_split(s@.subrange(i + n, s@.len() as int))));
            assert(done + (seq![piece@] + utf8_split(s@.subrange(i + n, s@.len() as int))) =~= done.push(piece@) + utf8_split(s@.subrange(i + n, s@.len() as int)));
            done = done.push(piece@);
        }
        out.push(piece);
        i = end;
    }
    assert(s@.subrange(i as int, s@.len() as int) =~= Seq::<u8>::empty());
    assert(done + Seq::<Seq<u8>>::empty() =~= done);
    out
}

} // verus!
