//! Character-level text utilities: conversion between strings and
//! character vectors, decimal rendering and parsing, and string equality.
//!
//! All verified string processing in this crate works on `Vec<char>` /
//! `Seq<char>`; the two trusted bridges below are the only places where
//! `std`'s string iteration is relied on.

use vstd::prelude::*;
use vstd::arithmetic::div_mod::{
    lemma_div_is_strictly_smaller, lemma_mod_division_less_than_divisor,
};

verus! {

/// Relies on `str::chars` and `Iterator::collect` for `Vec`: the vector
/// holds exactly the string's characters, in order.
#[verifier::external_body]
pub fn str_to_chars(s: &str) -> (v: Vec<char>)
    ensures
        v@ == s@,
{
    s.chars().collect()
}

/// Relies on `Iterator::collect` for `String` from `char` items: the
/// string holds exactly the given characters, in order.
#[verifier::external_body]
pub fn chars_to_string(v: &Vec<char>) -> (s: String)
    ensures
        s@ == v@,
{
    v.iter().collect()
}

/// Appends every character of `s` to `out`.
#[verifier::loop_isolation(false)]
pub fn push_str_chars(out: &mut Vec<char>, s: &str)
    ensures
        final(out)@ == old(out)@ + s@,
{
    let cs = str_to_chars(s);
    let ghost orig = out@;
    let mut i: usize = 0;
    while i < cs.len()
        invariant
            0 <= i <= cs.len(),
            cs@ == s@,
            out@ == orig + s@.take(i as int),
        decreases cs.len() - i,
    {
        out.push(cs[i]);
        i += 1;
        proof {
            assert(orig + s@.take(i as int) =~= (orig + s@.take(i - 1)).push(s@[i - 1]));
        }
    }
    proof {
        assert(orig + s@.take(s@.len() as int) =~= orig + s@);
    }
}

/// The model of a list of string pairs.
pub open spec fn pairs_view(ps: Seq<(String, String)>) -> Seq<(Seq<char>, Seq<char>)> {
    Seq::new(ps.len(), |i: int| (ps[i].0@, ps[i].1@))
}

/// Index of the first pair whose name is `key`, or -1.
pub open spec fn pair_index<V>(ps: Seq<(Seq<char>, V)>, key: Seq<char>) -> int
    decreases ps.len(),
{
    if ps.len() == 0 {
        -1
    } else if ps[0].0 == key {
        0
    } else {
        let r = pair_index(ps.drop_first(), key);
        if r < 0 {
            -1
        } else {
            r + 1
        }
    }
}

/// Value of the first pair named `key`, if any.
pub open spec fn pair_lookup<V>(ps: Seq<(Seq<char>, V)>, key: Seq<char>) -> Option<V> {
    if pair_index(ps, key) >= 0 {
        Some(ps[pair_index(ps, key)].1)
    } else {
        None
    }
}

/// The first index bears out a found pair.
pub proof fn lemma_pair_index_found<V>(ps: Seq<(Seq<char>, V)>, key: Seq<char>, i: int)
    requires
        0 <= i < ps.len(),
        ps[i].0 == key,
        forall|j: int| 0 <= j < i ==> (#[trigger] ps[j]).0 != key,
    ensures
        pair_index(ps, key) == i,
    decreases ps.len(),
{
    if i > 0 {
        lemma_pair_index_found(ps.drop_first(), key, i - 1);
    }
}

/// With no matching pair, the index is -1.
pub proof fn lemma_pair_index_none<V>(ps: Seq<(Seq<char>, V)>, key: Seq<char>)
    requires
        forall|j: int| 0 <= j < ps.len() ==> (#[trigger] ps[j]).0 != key,
    ensures
        pair_index(ps, key) == -1,
    decreases ps.len(),
{
    if ps.len() > 0 {
        lemma_pair_index_none(ps.drop_first(), key);
    }
}

/// The index found is in range and names the right pair.
pub proof fn lemma_pair_index_range<V>(ps: Seq<(Seq<char>, V)>, key: Seq<char>)
    ensures
        -1 <= pair_index(ps, key) < ps.len(),
        pair_index(ps, key) >= 0 ==> ps[pair_index(ps, key)].0 == key,
    decreases ps.len(),
{
    if ps.len() > 0 && ps[0].0 != key {
        lemma_pair_index_range(ps.drop_first(), key);
    }
}

/// Looks the first pair named `key` up in a pair list.
#[verifier::loop_isolation(false)]
pub fn pairs_find(ps: &Vec<(String, String)>, key: &str) -> (r: Option<String>)
    ensures
        match r {
            Some(v) => pair_lookup(pairs_view(ps@), key@) == Some(v@),
            None => pair_lookup(pairs_view(ps@), key@) is None,
        },
{
    let ghost pv = pairs_view(ps@);
    let mut i: usize = 0;
    while i < ps.len()
        invariant
            0 <= i <= ps.len(),
            forall|j: int| 0 <= j < i ==> (#[trigger] pv[j]).0 != key@,
        decreases ps.len() - i,
    {
        if str_eq(ps[i].0.as_str(), key) {
            proof {
                lemma_pair_index_found(pv, key@, i as int);
            }
            return Some(ps[i].1.clone());
        }
        i += 1;
    }
    proof {
        lemma_pair_index_none(pv, key@);
    }
    None
}

/// The models of a list of character vectors.
pub open spec fn vecs_view(ls: Seq<Vec<char>>) -> Seq<Seq<char>> {
    Seq::new(ls.len(), |i: int| ls[i]@)
}

/// Copies the characters of `v` between `a` and `b` into a new vector.
#[verifier::loop_isolation(false)]
pub fn sub_chars(v: &Vec<char>, a: usize, b: usize) -> (r: Vec<char>)
    requires
        a <= b <= v.len(),
    ensures
        r@ == v@.subrange(a as int, b as int),
{
    let mut r: Vec<char> = Vec::new();
    let mut i: usize = a;
    while i < b
        invariant
            a <= i <= b,
            r@ == v@.subrange(a as int, i as int),
        decreases b - i,
    {
        r.push(v[i]);
        i += 1;
        proof {
            assert(v@.subrange(a as int, i as int) =~= v@.subrange(a as int, i - 1).push(
                v@[i - 1],
            ));
        }
    }
    r
}

/// Whether `v` holds `lit` starting at `i`.
#[verifier::loop_isolation(false)]
pub fn starts_with_at(v: &Vec<char>, i: usize, lit: &Vec<char>) -> (r: bool)
    requires
        i <= v.len(),
    ensures
        r == (i + lit@.len() <= v@.len() && v@.subrange(i as int, i + lit@.len() as int) == lit@),
{
    if v.len() - i < lit.len() {
        return false;
    }
    let mut m: usize = 0;
    while m < lit.len()
        invariant
            0 <= m <= lit.len(),
            i + lit.len() <= v.len(),
            forall|t: int| 0 <= t < m ==> v@[i + t] == lit@[t],
        decreases lit.len() - m,
    {
        if v[i + m] != lit[m] {
            proof {
                assert(v@.subrange(i as int, i + lit@.len() as int)[m as int] != lit@[m as int]);
            }
            return false;
        }
        m += 1;
    }
    proof {
        assert(v@.subrange(i as int, i + lit@.len() as int) =~= lit@);
    }
    true
}

/// Copies a string slice into an owned `String`.
pub fn str_to_string(s: &str) -> (r: String)
    ensures
        r@ == s@,
{
    s.to_owned()
}

/// Appends every character of `s` to `out`.
#[verifier::loop_isolation(false)]
pub fn push_chars(out: &mut Vec<char>, s: &Vec<char>)
    ensures
        final(out)@ == old(out)@ + s@,
{
    let ghost orig = out@;
    let mut i: usize = 0;
    while i < s.len()
        invariant
            0 <= i <= s.len(),
            out@ == orig + s@.take(i as int),
        decreases s.len() - i,
    {
        out.push(s[i]);
        i += 1;
        proof {
            assert(orig + s@.take(i as int) =~= (orig + s@.take(i - 1)).push(s@[i - 1]));
        }
    }
    proof {
        assert(orig + s@.take(s@.len() as int) =~= orig + s@);
    }
}

/// Whether `c` is a decimal digit.
pub open spec fn is_digit(c: char) -> bool {
    '0' as u32 <= c as u32 <= '9' as u32
}

/// Whether `c` is an ASCII letter or digit.
pub open spec fn is_alnum(c: char) -> bool {
    ('0' as u32 <= c as u32 <= '9' as u32) || ('a' as u32 <= c as u32 <= 'z' as u32) || (
    'A' as u32 <= c as u32 <= 'Z' as u32)
}

/// Whether `c` is a decimal digit (executable form).
pub fn is_digit_exec(c: char) -> (r: bool)
    ensures
        r == is_digit(c),
{
    let cu: u32 = c as u32;
    cu >= '0' as u32 && cu <= '9' as u32
}

/// Numeric value of a decimal digit character.
pub open spec fn digit_val(c: char) -> int {
    c as u32 - '0' as u32
}

/// The decimal digit character for `d` (0 through 9).
pub open spec fn digit_char(d: int) -> char {
    if d == 0 {
        '0'
    } else if d == 1 {
        '1'
    } else if d == 2 {
        '2'
    } else if d == 3 {
        '3'
    } else if d == 4 {
        '4'
    } else if d == 5 {
        '5'
    } else if d == 6 {
        '6'
    } else if d == 7 {
        '7'
    } else if d == 8 {
        '8'
    } else {
        '9'
    }
}

/// Decimal digit sequence of a natural number, most significant first.
pub open spec fn dec_digits(n: nat) -> Seq<char>
    decreases n,
{
    if n < 10 {
        seq![digit_char(n as int)]
    } else {
        dec_digits(n / 10).push(digit_char((n % 10) as int))
    }
}

/// Decimal rendering of an integer: a minus sign for negative values,
/// then the digits of the absolute value.
pub open spec fn int_str(n: int) -> Seq<char> {
    if n < 0 {
        seq!['-'] + dec_digits((-n) as nat)
    } else {
        dec_digits(n as nat)
    }
}

/// Every digit sequence consists of digit characters and is non-empty.
pub proof fn lemma_dec_digits_wf(n: nat)
    ensures
        dec_digits(n).len() >= 1,
        forall|i: int| 0 <= i < dec_digits(n).len() ==> is_digit(#[trigger] dec_digits(n)[i]),
    decreases n,
{
    if n >= 10 {
        lemma_dec_digits_wf(n / 10);
    }
}

/// Appends the decimal digits of `n` to `out`.
pub fn push_dec_digits(out: &mut Vec<char>, n: u64)
    ensures
        final(out)@ == old(out)@ + dec_digits(n as nat),
    decreases n,
{
    if n < 10 {
        out.push(digit_char_exec(n as u32));
        proof {
            assert(out@ =~= old(out)@ + dec_digits(n as nat));
        }
    } else {
        proof {
            lemma_div_is_strictly_smaller(n as int, 10);
        }
        push_dec_digits(out, n / 10);
        proof {
            lemma_mod_division_less_than_divisor(n as int, 10);
        }
        out.push(digit_char_exec((n % 10) as u32));
        proof {
            assert(out@ =~= old(out)@ + dec_digits(n as nat));
        }
    }
}

/// The digit character for a value below ten.
pub fn digit_char_exec(d: u32) -> (c: char)
    requires
        d < 10,
    ensures
        c == digit_char(d as int),
{
    if d == 0 {
        '0'
    } else if d == 1 {
        '1'
    } else if d == 2 {
        '2'
    } else if d == 3 {
        '3'
    } else if d == 4 {
        '4'
    } else if d == 5 {
        '5'
    } else if d == 6 {
        '6'
    } else if d == 7 {
        '7'
    } else if d == 8 {
        '8'
    } else {
        '9'
    }
}

/// Renders an `i32` in decimal, as `i32::to_string` does.
pub fn i32_to_string(x: i32) -> (s: String)
    ensures
        s@ == int_str(x as int),
{
    let mut v: Vec<char> = Vec::new();
    if x < 0 {
        v.push('-');
        let m: u64 = (-(x as i64)) as u64;
        push_dec_digits(&mut v, m);
        proof {
            assert(v@ =~= int_str(x as int));
        }
    } else {
        push_dec_digits(&mut v, x as u64);
    }
    chars_to_string(&v)
}

/// Renders a `usize` in decimal.
pub fn usize_to_string(x: usize) -> (s: String)
    ensures
        s@ == int_str(x as int),
{
    let mut v: Vec<char> = Vec::new();
    push_dec_digits(&mut v, x as u64);
    chars_to_string(&v)
}

/// Appends the decimal rendering of `x` to `out`.
pub fn push_i64(out: &mut Vec<char>, x: i64)
    ensures
        final(out)@ == old(out)@ + int_str(x as int),
{
    if x < 0 {
        out.push('-');
        let m: u64 = if x == i64::MIN {
            0x8000_0000_0000_0000u64
        } else {
            (-x) as u64
        };
        push_dec_digits(out, m);
        proof {
            assert(out@ =~= old(out)@ + int_str(x as int));
        }
    } else {
        push_dec_digits(out, x as u64);
    }
}

/// Appends the decimal rendering of `x` to `out`.
pub fn push_usize(out: &mut Vec<char>, x: usize)
    ensures
        final(out)@ == old(out)@ + int_str(x as int),
{
    push_dec_digits(out, x as u64);
}

/// Value of a digit sequence read as a decimal numeral.
pub open spec fn dec_val(s: Seq<char>) -> int
    decreases s.len(),
{
    if s.len() == 0 {
        0
    } else {
        dec_val(s.drop_last()) * 10 + digit_val(s.last())
    }
}

/// Whether every character of `s` is a decimal digit.
pub open spec fn all_digits(s: Seq<char>) -> bool {
    forall|i: int| 0 <= i < s.len() ==> is_digit(#[trigger] s[i])
}

/// A digit sequence has a non-negative value.
pub proof fn lemma_dec_val_nonneg(s: Seq<char>)
    requires
        all_digits(s),
    ensures
        dec_val(s) >= 0,
    decreases s.len(),
{
    if s.len() > 0 {
        assert(all_digits(s.drop_last()));
        lemma_dec_val_nonneg(s.drop_last());
    }
}

/// Reading one more digit multiplies the value by ten and adds the digit.
pub proof fn lemma_dec_val_take_step(s: Seq<char>, i: int)
    requires
        0 <= i < s.len(),
    ensures
        dec_val(s.take(i + 1)) == dec_val(s.take(i)) * 10 + digit_val(s[i]),
{
    assert(s.take(i + 1).drop_last() =~= s.take(i));
    assert(s.take(i + 1).last() == s[i]);
}

/// The value of a digit sequence is at least the value of any prefix.
pub proof fn lemma_dec_val_prefix_le(s: Seq<char>, i: int)
    requires
        all_digits(s),
        0 <= i <= s.len(),
    ensures
        dec_val(s.take(i)) <= dec_val(s),
    decreases s.len() - i,
{
    if i < s.len() {
        lemma_dec_val_take_step(s, i);
        assert(all_digits(s.take(i)));
        lemma_dec_val_nonneg(s.take(i));
        lemma_dec_val_prefix_le(s, i + 1);
        assert(dec_val(s.take(i)) <= dec_val(s.take(i + 1)));
    } else {
        assert(s.take(i) =~= s);
    }
}

/// What `str::parse::<i32>` accepts: an optional sign, then one or more
/// digits, with the signed value in the `i32` range.
pub open spec fn parse_i32_spec(s: Seq<char>) -> Option<i32> {
    let signed = s.len() > 0 && (s[0] == '+' || s[0] == '-');
    let ds = if signed {
        s.drop_first()
    } else {
        s
    };
    let val: int = if s.len() > 0 && s[0] == '-' {
        -dec_val(ds)
    } else {
        dec_val(ds)
    };
    if ds.len() > 0 && all_digits(ds) && i32::MIN <= val <= i32::MAX {
        Some(val as i32)
    } else {
        None
    }
}

/// Parses a decimal integer exactly as `str::parse::<i32>().ok()` does.
pub fn parse_i32(s: &str) -> (r: Option<i32>)
    ensures
        r == parse_i32_spec(s@),
{
    let v = str_to_chars(s);
    parse_i32_chars(&v)
}

/// Parses a decimal integer from a character vector.
#[verifier::loop_isolation(false)]
pub fn parse_i32_chars(v: &Vec<char>) -> (r: Option<i32>)
    ensures
        r == parse_i32_spec(v@),
{
    if v.len() == 0 {
        return None;
    }
    let first = v[0];
    let negative = first == '-';
    let start: usize = if first == '-' || first == '+' {
        1
    } else {
        0
    };
    let ghost ds = if start == 1 {
        v@.drop_first()
    } else {
        v@
    };
    proof {
        assert(ds =~= v@.subrange(start as int, v@.len() as int));
    }
    if v.len() == start {
        return None;
    }
    let mut acc: u64 = 0;
    let mut i: usize = start;
    while i < v.len()
        invariant
            start <= i <= v.len(),
            start <= 1,
            v@.len() > start,
            ds =~= v@.subrange(start as int, v@.len() as int),
            forall|j: int| 0 <= j < i - start ==> is_digit(#[trigger] ds[j]),
            acc == dec_val(ds.take(i - start)),
            acc <= 0x8000_0000u64,
        decreases v.len() - i,
    {
        let c = v[i];
        let cu: u32 = c as u32;
        if !(cu >= '0' as u32 && cu <= '9' as u32) {
            proof {
                assert(ds[i - start] == v@[i as int]);
                assert(!all_digits(ds));
            }
            return None;
        }
        let d: u64 = (cu - '0' as u32) as u64;
        proof {
            lemma_dec_val_take_step(ds, i - start);
            assert(ds[i - start] == v@[i as int]);
            assert(digit_val(ds[i - start]) == d);
        }
        acc = acc * 10 + d;
        i += 1;
        if acc > 0x8000_0000u64 {
            proof {
                if all_digits(ds) {
                    lemma_dec_val_prefix_le(ds, i - start);
                    assert(dec_val(ds) > 0x8000_0000);
                }
            }
            return None;
        }
    }
    proof {
        assert(ds.take(v@.len() - start) =~= ds);
        assert(dec_val(ds.take(v@.len() - start)) == dec_val(ds));
        assert(acc == dec_val(ds));
        assert(all_digits(ds));
    }
    if negative {
        let r: i64 = -(acc as i64);
        if r < -0x8000_0000i64 {
            return None;
        }
        Some(r as i32)
    } else {
        if acc > 0x7fff_ffffu64 {
            return None;
        }
        Some(acc as i32)
    }
}

/// Whether two strings hold the same characters.
pub fn str_eq(a: &str, b: &str) -> (r: bool)
    ensures
        r == (a@ == b@),
{
    let va = str_to_chars(a);
    let vb = str_to_chars(b);
    chars_eq(&va, &vb)
}

/// Whether two character vectors hold the same characters.
#[verifier::loop_isolation(false)]
pub fn chars_eq(a: &Vec<char>, b: &Vec<char>) -> (r: bool)
    ensures
        r == (a@ == b@),
{
    if a.len() != b.len() {
        return false;
    }
    let mut i: usize = 0;
    while i < a.len()
        invariant
            0 <= i <= a.len(),
            a.len() == b.len(),
            forall|j: int| 0 <= j < i ==> a@[j] == b@[j],
        decreases a.len() - i,
    {
        if a[i] != b[i] {
            return false;
        }
        i += 1;
    }
    proof {
        assert(a@ =~= b@);
    }
    true
}

} // verus!
