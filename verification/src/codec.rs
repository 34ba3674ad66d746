//! Character-level codec for the JSON-shaped strings this library stores
//! and exchanges: quoted strings with escaping, decimal integers, lists,
//! and objects.
//!
//! Encoders emit one canonical form (no whitespace, fields in a fixed
//! order); parsers tolerate whitespace between tokens and are proved to
//! invert the encoders.  The parsing functions are specified here as
//! recursive spec functions over `Seq<char>` with an explicit position;
//! the executable parsers mirror them one for one.

use vstd::prelude::*;
use crate::text::{dec_val, digit_val, int_str, is_digit, dec_digits};

verus! {

// ------------------------------------------------------------------
// Whitespace
// ------------------------------------------------------------------

/// Whether `c` is insignificant whitespace between tokens.
pub open spec fn is_ws(c: char) -> bool {
    c == ' ' || c == '\n' || c == '\r' || c == '\t'
}

/// First index at or after `i` holding a non-whitespace character (or the
/// end of the text).
pub open spec fn ws(s: Seq<char>, i: int) -> int
    decreases s.len() - i,
{
    if 0 <= i < s.len() && is_ws(s[i]) {
        ws(s, i + 1)
    } else {
        i
    }
}

/// Skipping whitespace never moves backward, never passes the end, and
/// stops on a non-whitespace character.
pub proof fn lemma_ws(s: Seq<char>, i: int)
    requires
        0 <= i <= s.len(),
    ensures
        i <= ws(s, i) <= s.len(),
        ws(s, i) < s.len() ==> !is_ws(s[ws(s, i)]),
    decreases s.len() - i,
{
    if i < s.len() && is_ws(s[i]) {
        lemma_ws(s, i + 1);
    }
}

/// On a non-whitespace character, skipping whitespace is the identity.
pub proof fn lemma_ws_stay(s: Seq<char>, i: int)
    requires
        0 <= i < s.len() ==> !is_ws(s[i]),
    ensures
        ws(s, i) == i,
{
}

// ------------------------------------------------------------------
// Single tokens
// ------------------------------------------------------------------

/// Whether position `i` of `s` holds the character `c`.
pub open spec fn at(s: Seq<char>, i: int, c: char) -> bool {
    0 <= i < s.len() && s[i] == c
}

/// Consumes optional whitespace and then exactly the character `c`.
pub open spec fn p_char(s: Seq<char>, i: int, c: char) -> Option<int> {
    let j = ws(s, i);
    if at(s, j, c) {
        Some(j + 1)
    } else {
        None
    }
}

/// Consumes optional whitespace, the fixed quoted key `k` (which must not
/// need escaping), optional whitespace, and a colon.
pub open spec fn p_key(s: Seq<char>, i: int, k: Seq<char>) -> Option<int> {
    let j = ws(s, i);
    if 0 <= j && j + k.len() + 2 <= s.len() && s[j] == '"' && s.subrange(j + 1, j + 1 + k.len())
        == k && s[j + 1 + k.len()] == '"' {
        p_char(s, j + k.len() + 2, ':')
    } else {
        None
    }
}

// ------------------------------------------------------------------
// Integers
// ------------------------------------------------------------------

/// Number of consecutive decimal digits starting at `i`.
pub open spec fn ndigits(s: Seq<char>, i: int) -> int
    decreases s.len() - i,
{
    if 0 <= i < s.len() && is_digit(s[i]) {
        1 + ndigits(s, i + 1)
    } else {
        0
    }
}

/// A digit run is within bounds and consists of digits, and the character
/// after it (if any) is not a digit.
pub proof fn lemma_ndigits(s: Seq<char>, i: int)
    requires
        0 <= i <= s.len(),
    ensures
        0 <= ndigits(s, i),
        i + ndigits(s, i) <= s.len(),
        forall|j: int| i <= j < i + ndigits(s, i) ==> is_digit(#[trigger] s[j]),
        i + ndigits(s, i) < s.len() ==> !is_digit(s[i + ndigits(s, i)]),
    decreases s.len() - i,
{
    if i < s.len() && is_digit(s[i]) {
        lemma_ndigits(s, i + 1);
    }
}

/// A run of `m` digits at `i` followed by a non-digit (or the end) is
/// found exactly by `ndigits`.
pub proof fn lemma_ndigits_exact(s: Seq<char>, i: int, m: int)
    requires
        0 <= i,
        m >= 0,
        i + m <= s.len(),
        forall|j: int| i <= j < i + m ==> is_digit(#[trigger] s[j]),
        i + m == s.len() || !is_digit(s[i + m]),
    ensures
        ndigits(s, i) == m,
    decreases m,
{
    if m == 0 {
    } else {
        assert(is_digit(s[i]));
        lemma_ndigits_exact(s, i + 1, m - 1);
    }
}

/// Consumes a decimal integer: an optional minus sign, then one or more
/// digits, read maximally.
pub open spec fn p_int(s: Seq<char>, i: int) -> Option<(int, int)> {
    let neg = at(s, i, '-');
    let b = if neg {
        i + 1
    } else {
        i
    };
    let m = ndigits(s, b);
    if m > 0 {
        let v = dec_val(s.subrange(b, b + m));
        Some(((if neg {
            -v
        } else {
            v
        }), b + m))
    } else {
        None
    }
}

/// Consumes a decimal integer that fits in an `i32`.
pub open spec fn p_i32(s: Seq<char>, i: int) -> Option<(i32, int)> {
    match p_int(s, i) {
        Some((v, j)) => if i32::MIN <= v <= i32::MAX {
            Some((v as i32, j))
        } else {
            None
        },
        None => None,
    }
}

/// Consumes optional whitespace and then a decimal `i32`.
pub open spec fn p_i32w(s: Seq<char>, i: int) -> Option<(i32, int)> {
    p_i32(s, ws(s, i))
}

/// A rendered integer starts with a minus sign or a digit, so never with
/// whitespace, a quote, or a bracket.
pub proof fn lemma_int_str_head(n: int)
    ensures
        int_str(n).len() >= 1,
        !is_ws(int_str(n)[0]),
        int_str(n)[0] != '"',
        int_str(n)[0] != '}',
        int_str(n)[0] != ']',
{
    if n < 0 {
        crate::text::lemma_dec_digits_wf((-n) as nat);
    } else {
        crate::text::lemma_dec_digits_wf(n as nat);
        assert(is_digit(int_str(n)[0]));
    }
}

/// A digit character reads back to its value.
pub proof fn lemma_digit_roundtrip(d: int)
    requires
        0 <= d < 10,
    ensures
        digit_val(crate::text::digit_char(d)) == d,
{
}

/// The digits of a numeral read back to its value.
pub proof fn lemma_dec_val_digits(n: nat)
    ensures
        dec_val(dec_digits(n)) == n,
    decreases n,
{
    if n < 10 {
        lemma_digit_roundtrip(n as int);
        let d = dec_digits(n);
        assert(d == seq![crate::text::digit_char(n as int)]);
        assert(d.drop_last() =~= Seq::<char>::empty());
        assert(d.last() == crate::text::digit_char(n as int));
        assert(dec_val(d.drop_last()) == 0);
        assert(dec_val(d) == dec_val(d.drop_last()) * 10 + digit_val(d.last()));
    } else {
        lemma_dec_val_digits(n / 10);
        lemma_digit_roundtrip((n % 10) as int);
        let d = dec_digits(n);
        assert(d == dec_digits(n / 10).push(crate::text::digit_char((n % 10) as int)));
        assert(d.drop_last() =~= dec_digits(n / 10));
        assert(d.last() == crate::text::digit_char((n % 10) as int));
        assert(dec_val(d) == dec_val(d.drop_last()) * 10 + digit_val(d.last()));
        assert(dec_val(d.drop_last()) == n / 10);
        vstd::arithmetic::div_mod::lemma_fundamental_div_mod(n as int, 10);
        assert(n == 10 * (n as int / 10) + n as int % 10);
    }
}

/// Parsing finds exactly the integer the encoder wrote, provided the text
/// continues with a non-digit (or ends).
pub proof fn lemma_p_int(s: Seq<char>, i: int, n: int)
    requires
        0 <= i,
        i + int_str(n).len() <= s.len(),
        s.subrange(i, i + int_str(n).len()) == int_str(n),
        i + int_str(n).len() == s.len() || !is_digit(s[i + int_str(n).len()]),
    ensures
        p_int(s, i) == Some((n, i + int_str(n).len())),
{
    let e = int_str(n);
    let a = if n < 0 {
        (-n) as nat
    } else {
        n as nat
    };
    let d = dec_digits(a);
    crate::text::lemma_dec_digits_wf(a);
    let b = if n < 0 {
        i + 1
    } else {
        i
    };
    assert forall|j: int| b <= j < b + d.len() implies is_digit(#[trigger] s[j]) by {
        assert(s[j] == e[j - i]);
        assert(e[j - i] == d[j - b]);
    }
    if n < 0 {
        assert(s[i] == e[0]);
        assert(at(s, i, '-'));
    } else {
        assert(s[i] == e[0]);
        assert(is_digit(s[i]));
        assert(!at(s, i, '-'));
    }
    lemma_ndigits_exact(s, b, d.len() as int);
    assert(s.subrange(b, b + d.len() as int) =~= d) by {
        assert forall|j: int| 0 <= j < d.len() implies s.subrange(b, b + d.len() as int)[j] == d[j] by {
            assert(s[b + j] == e[b + j - i]);
        }
    }
    lemma_dec_val_digits(a);
}

// ------------------------------------------------------------------
// Quoted strings
// ------------------------------------------------------------------

/// The escaped form of `t`: quotes and backslashes get a backslash
/// prefix; every other character stands as itself.
pub open spec fn escape(t: Seq<char>) -> Seq<char>
    decreases t.len(),
{
    if t.len() == 0 {
        Seq::empty()
    } else if t[0] == '"' || t[0] == '\\' {
        seq!['\\', t[0]] + escape(t.drop_first())
    } else {
        seq![t[0]] + escape(t.drop_first())
    }
}

/// A quoted, escaped rendering of `t`.
pub open spec fn enc_quoted(t: Seq<char>) -> Seq<char> {
    seq!['"'] + escape(t) + seq!['"']
}

/// Consumes the body of a quoted string up to and including the closing
/// quote, undoing escapes; yields the decoded text.
pub open spec fn p_qbody(s: Seq<char>, i: int) -> Option<(Seq<char>, int)>
    decreases s.len() - i,
{
    if !(0 <= i < s.len()) {
        None
    } else if s[i] == '"' {
        Some((Seq::empty(), i + 1))
    } else if s[i] == '\\' {
        if i + 1 < s.len() && (s[i + 1] == '"' || s[i + 1] == '\\') {
            match p_qbody(s, i + 2) {
                Some((t, j)) => Some((seq![s[i + 1]] + t, j)),
                None => None,
            }
        } else {
            None
        }
    } else {
        match p_qbody(s, i + 1) {
            Some((t, j)) => Some((seq![s[i]] + t, j)),
            None => None,
        }
    }
}

/// Consumes optional whitespace and a complete quoted string.
pub open spec fn p_quoted(s: Seq<char>, i: int) -> Option<(Seq<char>, int)> {
    let j = ws(s, i);
    if at(s, j, '"') {
        p_qbody(s, j + 1)
    } else {
        None
    }
}

/// The string body parser inverts the escaper.
pub proof fn lemma_p_qbody(s: Seq<char>, i: int, t: Seq<char>)
    requires
        0 <= i,
        i + escape(t).len() + 1 <= s.len(),
        s.subrange(i, i + escape(t).len()) == escape(t),
        s[i + escape(t).len()] == '"',
    ensures
        p_qbody(s, i) == Some((t, i + escape(t).len() + 1)),
    decreases t.len(),
{
    if t.len() == 0 {
        assert(s[i] == '"');
    } else {
        let rest = t.drop_first();
        let er = escape(rest);
        if t[0] == '"' || t[0] == '\\' {
            assert(s[i] == escape(t)[0]);
            assert(s[i + 1] == escape(t)[1]);
            assert(s.subrange(i + 2, i + 2 + er.len() as int) =~= er) by {
                assert forall|j: int| 0 <= j < er.len() implies s.subrange(
                    i + 2,
                    i + 2 + er.len() as int,
                )[j] == er[j] by {
                    assert(s[i + 2 + j] == escape(t)[2 + j]);
                }
            }
            lemma_p_qbody(s, i + 2, rest);
            assert(seq![s[i + 1]] + rest =~= t);
        } else {
            assert(s[i] == escape(t)[0]);
            assert(s[i] == t[0]);
            assert(s.subrange(i + 1, i + 1 + er.len() as int) =~= er) by {
                assert forall|j: int| 0 <= j < er.len() implies s.subrange(
                    i + 1,
                    i + 1 + er.len() as int,
                )[j] == er[j] by {
                    assert(s[i + 1 + j] == escape(t)[1 + j]);
                }
            }
            lemma_p_qbody(s, i + 1, rest);
            assert(seq![s[i]] + rest =~= t);
        }
    }
}

/// Fixed object keys are encoded as a quoted plain name and a colon.
pub open spec fn enc_key(k: Seq<char>) -> Seq<char> {
    seq!['"'] + k + seq!['"', ':']
}

/// The key parser accepts exactly what the key encoder wrote.
pub proof fn lemma_p_key(s: Seq<char>, i: int, k: Seq<char>)
    requires
        0 <= i,
        i + enc_key(k).len() <= s.len(),
        s.subrange(i, i + enc_key(k).len()) == enc_key(k),
    ensures
        p_key(s, i, k) == Some(i + enc_key(k).len()),
{
    let e = enc_key(k);
    assert(s[i] == e[0]);
    lemma_ws_stay(s, i);
    assert(s.subrange(i + 1, i + 1 + k.len() as int) =~= k) by {
        assert forall|j: int| 0 <= j < k.len() implies s.subrange(i + 1, i + 1 + k.len() as int)[j]
            == k[j] by {
            assert(s[i + 1 + j] == e[1 + j]);
        }
    }
    assert(s[i + 1 + k.len()] == e[1 + k.len() as int]);
    assert(s[i + 2 + k.len()] == e[2 + k.len() as int]);
    lemma_ws_stay(s, i + k.len() as int + 2);
}

/// The quoted-string parser inverts the quoted encoder.
pub proof fn lemma_p_quoted(s: Seq<char>, i: int, t: Seq<char>)
    requires
        0 <= i,
        i + enc_quoted(t).len() <= s.len(),
        s.subrange(i, i + enc_quoted(t).len()) == enc_quoted(t),
    ensures
        p_quoted(s, i) == Some((t, i + enc_quoted(t).len())),
{
    let e = enc_quoted(t);
    assert(s[i] == e[0]);
    lemma_ws_stay(s, i);
    assert(s.subrange(i + 1, i + 1 + escape(t).len() as int) =~= escape(t)) by {
        assert forall|j: int| 0 <= j < escape(t).len() implies s.subrange(
            i + 1,
            i + 1 + escape(t).len() as int,
        )[j] == escape(t)[j] by {
            assert(s[i + 1 + j] == e[1 + j]);
        }
    }
    assert(s[i + 1 + escape(t).len()] == e[1 + escape(t).len() as int]);
    lemma_p_qbody(s, i + 1, t);
}

// ------------------------------------------------------------------
// Lists
// ------------------------------------------------------------------

/// One or more comma-separated values, ending at `close` (consumed).
/// The value parser `pv` consumes its own leading whitespace.
pub open spec fn p_items<V>(
    s: Seq<char>,
    i: int,
    pv: spec_fn(Seq<char>, int) -> Option<(V, int)>,
    close: char,
) -> Option<(Seq<V>, int)>
    decreases s.len() - i,
{
    match pv(s, i) {
        None => None,
        Some((v, j)) => if !(i < j <= s.len()) {
            None
        } else {
            let k = ws(s, j);
            if at(s, k, ',') && k + 1 > i {
                match p_items(s, k + 1, pv, close) {
                    Some((rest, e)) => Some((seq![v] + rest, e)),
                    None => None,
                }
            } else if at(s, k, close) {
                Some((seq![v], k + 1))
            } else {
                None
            }
        },
    }
}

/// A bracketed, comma-separated list of values, possibly empty.
pub open spec fn p_list<V>(
    s: Seq<char>,
    i: int,
    pv: spec_fn(Seq<char>, int) -> Option<(V, int)>,
    open: char,
    close: char,
) -> Option<(Seq<V>, int)> {
    match p_char(s, i, open) {
        Some(j) => {
            let k = ws(s, j);
            if at(s, k, close) {
                Some((Seq::empty(), k + 1))
            } else {
                p_items(s, j, pv, close)
            }
        },
        None => None,
    }
}

/// Canonical encoding of the items of a list from index `k` on, without
/// the surrounding brackets.
pub open spec fn enc_items_from<V>(items: Seq<V>, k: int, ev: spec_fn(V) -> Seq<char>) -> Seq<char>
    decreases items.len() - k,
{
    if !(0 <= k < items.len()) {
        Seq::empty()
    } else if k == items.len() - 1 {
        ev(items[k])
    } else {
        ev(items[k]) + seq![','] + enc_items_from(items, k + 1, ev)
    }
}

/// Canonical encoding of a bracketed list.
pub open spec fn enc_list<V>(
    items: Seq<V>,
    ev: spec_fn(V) -> Seq<char>,
    open: char,
    close: char,
) -> Seq<char> {
    seq![open] + enc_items_from(items, 0, ev) + seq![close]
}

/// The item-sequence parser inverts the item-sequence encoder: parsing at
/// the start of the encoded items of `items.skip(kk)`, with the closing
/// bracket right after them, yields exactly those items.  The premise
/// says that `pv` inverts `ev` wherever an encoded value sits in `s`
/// followed by a comma or the closing bracket.
pub proof fn lemma_p_items<V>(
    s: Seq<char>,
    i: int,
    items: Seq<V>,
    kk: int,
    ev: spec_fn(V) -> Seq<char>,
    pv: spec_fn(Seq<char>, int) -> Option<(V, int)>,
    close: char,
)
    requires
        0 <= i,
        0 <= kk < items.len(),
        close != ',',
        !is_ws(close),
        forall|k: int| 0 <= k < items.len() ==> (#[trigger] ev(items[k])).len() > 0,
        i + enc_items_from(items, kk, ev).len() + 1 <= s.len(),
        s.subrange(i, i + enc_items_from(items, kk, ev).len()) == enc_items_from(items, kk, ev),
        s[i + enc_items_from(items, kk, ev).len()] == close,
        forall|k: int, i2: int|
            #![trigger pv(s, i2), ev(items[k])]
            0 <= k < items.len() && 0 <= i2 && i2 + ev(items[k]).len() < s.len() && s.subrange(
                i2,
                i2 + ev(items[k]).len() as int,
            ) == ev(items[k]) && (s[i2 + ev(items[k]).len()] == ',' || s[i2 + ev(items[k]).len()]
                == close) ==> pv(s, i2) == Some((items[k], i2 + ev(items[k]).len())),
    ensures
        p_items(s, i, pv, close) == Some(
            (items.skip(kk), i + enc_items_from(items, kk, ev).len() + 1),
        ),
    decreases items.len() - kk,
{
    let e = enc_items_from(items, kk, ev);
    let ehead = ev(items[kk]);
    assert(s.subrange(i, i + ehead.len() as int) =~= ehead) by {
        assert forall|j: int| 0 <= j < ehead.len() implies s.subrange(i, i + ehead.len() as int)[j]
            == ehead[j] by {
            assert(s[i + j] == e[j]);
        }
    }
    if kk == items.len() - 1 {
        assert(s[i + ehead.len()] == close);
        assert(pv(s, i) == Some((items[kk], i + ehead.len())));
        lemma_ws_stay(s, i + ehead.len() as int);
        assert(items.skip(kk) =~= seq![items[kk]]);
    } else {
        assert(s[i + ehead.len()] == e[ehead.len() as int]);
        assert(s[i + ehead.len()] == ',');
        assert(pv(s, i) == Some((items[kk], i + ehead.len())));
        lemma_ws_stay(s, i + ehead.len() as int);
        let i2 = i + ehead.len() + 1;
        let erest = enc_items_from(items, kk + 1, ev);
        assert(s.subrange(i2 as int, i2 + erest.len() as int) =~= erest) by {
            assert forall|j: int| 0 <= j < erest.len() implies s.subrange(
                i2 as int,
                i2 + erest.len() as int,
            )[j] == erest[j] by {
                assert(s[i2 + j] == e[ehead.len() + 1 + j]);
            }
        }
        assert(s[i2 + erest.len()] == close);
        lemma_p_items(s, i2 as int, items, kk + 1, ev, pv, close);
        assert(seq![items[kk]] + items.skip(kk + 1) =~= items.skip(kk));
    }
}

/// The list parser inverts the list encoder.
pub proof fn lemma_p_list<V>(
    s: Seq<char>,
    i: int,
    items: Seq<V>,
    ev: spec_fn(V) -> Seq<char>,
    pv: spec_fn(Seq<char>, int) -> Option<(V, int)>,
    open: char,
    close: char,
)
    requires
        0 <= i,
        close != ',',
        open != close,
        !is_ws(open),
        !is_ws(close),
        forall|k: int| 0 <= k < items.len() ==> (#[trigger] ev(items[k])).len() > 0,
        i + enc_list(items, ev, open, close).len() <= s.len(),
        s.subrange(i, i + enc_list(items, ev, open, close).len()) == enc_list(
            items,
            ev,
            open,
            close,
        ),
        items.len() > 0 ==> ev(items[0]).len() > 0 && ev(items[0])[0] != close && !is_ws(
            ev(items[0])[0],
        ),
        forall|k: int, i2: int|
            #![trigger pv(s, i2), ev(items[k])]
            0 <= k < items.len() && 0 <= i2 && i2 + ev(items[k]).len() < s.len() && s.subrange(
                i2,
                i2 + ev(items[k]).len() as int,
            ) == ev(items[k]) && (s[i2 + ev(items[k]).len()] == ',' || s[i2 + ev(items[k]).len()]
                == close) ==> pv(s, i2) == Some((items[k], i2 + ev(items[k]).len())),
    ensures
        p_list(s, i, pv, open, close) == Some(
            (items, i + enc_list(items, ev, open, close).len()),
        ),
{
    let e = enc_list(items, ev, open, close);
    let einner = enc_items_from(items, 0, ev);
    assert(s[i] == e[0]);
    lemma_ws_stay(s, i);
    assert(at(s, i, open));
    if items.len() == 0 {
        assert(e =~= seq![open, close]);
        assert(s[i + 1] == e[1]);
        lemma_ws_stay(s, i + 1);
    } else {
        assert(s.subrange(i + 1, i + 1 + einner.len() as int) =~= einner) by {
            assert forall|j: int| 0 <= j < einner.len() implies s.subrange(
                i + 1,
                i + 1 + einner.len() as int,
            )[j] == einner[j] by {
                assert(s[i + 1 + j] == e[1 + j]);
            }
        }
        assert(s[i + 1 + einner.len()] == e[1 + einner.len() as int]);
        assert(s[i + 1 + einner.len()] == close);
        assert(s[i + 1] == einner[0]);
        assert(einner[0] == ev(items[0])[0]);
        lemma_ws_stay(s, i + 1);
        assert(!at(s, i + 1, close));
        lemma_p_items(s, i + 1, items, 0, ev, pv, close);
        assert(items.skip(0) =~= items);
    }
}

// ------------------------------------------------------------------
// Objects
// ------------------------------------------------------------------

/// One or more comma-separated `"key":value` pairs, ending at a closing
/// brace (consumed).  Keys are quoted strings with escapes.
pub open spec fn p_pairs<V>(
    s: Seq<char>,
    i: int,
    pv: spec_fn(Seq<char>, int) -> Option<(V, int)>,
) -> Option<(Seq<(Seq<char>, V)>, int)>
    decreases s.len() - i,
{
    match p_quoted(s, i) {
        None => None,
        Some((key, j1)) => match p_char(s, j1, ':') {
            None => None,
            Some(j2) => if !(i < j2 <= s.len()) {
                None
            } else {
                match pv(s, j2) {
                    None => None,
                    Some((v, j3)) => if !(j2 <= j3 <= s.len()) {
                        None
                    } else {
                        let k = ws(s, j3);
                        if at(s, k, ',') && k + 1 > i {
                            match p_pairs(s, k + 1, pv) {
                                Some((rest, e)) => Some((seq![(key, v)] + rest, e)),
                                None => None,
                            }
                        } else if at(s, k, '}') {
                            Some((seq![(key, v)], k + 1))
                        } else {
                            None
                        }
                    },
                }
            },
        },
    }
}

/// A braced object of `"key":value` pairs, possibly empty.
pub open spec fn p_obj<V>(
    s: Seq<char>,
    i: int,
    pv: spec_fn(Seq<char>, int) -> Option<(V, int)>,
) -> Option<(Seq<(Seq<char>, V)>, int)> {
    match p_char(s, i, '{') {
        Some(j) => {
            let k = ws(s, j);
            if at(s, k, '}') {
                Some((Seq::empty(), k + 1))
            } else {
                p_pairs(s, j, pv)
            }
        },
        None => None,
    }
}

/// Canonical encoding of the pairs of an object from index `k` on,
/// without the surrounding braces.
pub open spec fn enc_pairs_from<V>(
    ps: Seq<(Seq<char>, V)>,
    k: int,
    ev: spec_fn(V) -> Seq<char>,
) -> Seq<char>
    decreases ps.len() - k,
{
    if !(0 <= k < ps.len()) {
        Seq::empty()
    } else if k == ps.len() - 1 {
        enc_quoted(ps[k].0) + seq![':'] + ev(ps[k].1)
    } else {
        enc_quoted(ps[k].0) + seq![':'] + ev(ps[k].1) + seq![','] + enc_pairs_from(ps, k + 1, ev)
    }
}

/// Canonical encoding of a braced object.
pub open spec fn enc_obj<V>(ps: Seq<(Seq<char>, V)>, ev: spec_fn(V) -> Seq<char>) -> Seq<char> {
    seq!['{'] + enc_pairs_from(ps, 0, ev) + seq!['}']
}

/// The pair-sequence parser inverts the pair-sequence encoder, under the
/// same kind of premise as for lists.
pub proof fn lemma_p_pairs<V>(
    s: Seq<char>,
    i: int,
    ps: Seq<(Seq<char>, V)>,
    kk: int,
    ev: spec_fn(V) -> Seq<char>,
    pv: spec_fn(Seq<char>, int) -> Option<(V, int)>,
)
    requires
        0 <= i,
        0 <= kk < ps.len(),
        i + enc_pairs_from(ps, kk, ev).len() + 1 <= s.len(),
        s.subrange(i, i + enc_pairs_from(ps, kk, ev).len()) == enc_pairs_from(ps, kk, ev),
        s[i + enc_pairs_from(ps, kk, ev).len()] == '}',
        forall|k: int, i2: int|
            #![trigger pv(s, i2), ev(ps[k].1)]
            0 <= k < ps.len() && 0 <= i2 && i2 + ev(ps[k].1).len() < s.len() && s.subrange(
                i2,
                i2 + ev(ps[k].1).len() as int,
            ) == ev(ps[k].1) && (s[i2 + ev(ps[k].1).len()] == ',' || s[i2 + ev(ps[k].1).len()]
                == '}') ==> pv(s, i2) == Some((ps[k].1, i2 + ev(ps[k].1).len())),
    ensures
        p_pairs(s, i, pv) == Some((ps.skip(kk), i + enc_pairs_from(ps, kk, ev).len() + 1)),
    decreases ps.len() - kk,
{
    let e = enc_pairs_from(ps, kk, ev);
    let ekey = enc_quoted(ps[kk].0);
    let eval = ev(ps[kk].1);
    assert(s.subrange(i, i + ekey.len() as int) =~= ekey) by {
        assert forall|j: int| 0 <= j < ekey.len() implies s.subrange(i, i + ekey.len() as int)[j]
            == ekey[j] by {
            assert(s[i + j] == e[j]);
        }
    }
    lemma_p_quoted(s, i, ps[kk].0);
    let j1 = i + ekey.len();
    assert(s[j1] == e[ekey.len() as int]);
    assert(s[j1] == ':');
    lemma_ws_stay(s, j1 as int);
    let j2 = j1 + 1;
    assert(s.subrange(j2 as int, j2 + eval.len() as int) =~= eval) by {
        assert forall|j: int| 0 <= j < eval.len() implies s.subrange(
            j2 as int,
            j2 + eval.len() as int,
        )[j] == eval[j] by {
            assert(s[j2 + j] == e[ekey.len() + 1 + j]);
        }
    }
    if kk == ps.len() - 1 {
        assert(s[j2 + eval.len()] == '}');
        assert(pv(s, j2 as int) == Some((ps[kk].1, j2 + eval.len())));
        lemma_ws_stay(s, j2 + eval.len() as int);
        assert(ps.skip(kk) =~= seq![ps[kk]]);
        assert(seq![(ps[kk].0, ps[kk].1)] =~= seq![ps[kk]]);
    } else {
        assert(s[j2 + eval.len()] == e[ekey.len() + 1 + eval.len() as int]);
        assert(s[j2 + eval.len()] == ',');
        assert(pv(s, j2 as int) == Some((ps[kk].1, j2 + eval.len())));
        lemma_ws_stay(s, j2 + eval.len() as int);
        let i2 = j2 + eval.len() + 1;
        let erest = enc_pairs_from(ps, kk + 1, ev);
        assert(s.subrange(i2 as int, i2 + erest.len() as int) =~= erest) by {
            assert forall|j: int| 0 <= j < erest.len() implies s.subrange(
                i2 as int,
                i2 + erest.len() as int,
            )[j] == erest[j] by {
                assert(s[i2 + j] == e[ekey.len() + 1 + eval.len() + 1 + j]);
            }
        }
        assert(s[i2 + erest.len()] == '}');
        lemma_p_pairs(s, i2 as int, ps, kk + 1, ev, pv);
        assert(seq![(ps[kk].0, ps[kk].1)] + ps.skip(kk + 1) =~= ps.skip(kk));
    }
}

/// The object parser inverts the object encoder.
pub proof fn lemma_p_obj<V>(
    s: Seq<char>,
    i: int,
    ps: Seq<(Seq<char>, V)>,
    ev: spec_fn(V) -> Seq<char>,
    pv: spec_fn(Seq<char>, int) -> Option<(V, int)>,
)
    requires
        0 <= i,
        i + enc_obj(ps, ev).len() <= s.len(),
        s.subrange(i, i + enc_obj(ps, ev).len()) == enc_obj(ps, ev),
        forall|k: int, i2: int|
            #![trigger pv(s, i2), ev(ps[k].1)]
            0 <= k < ps.len() && 0 <= i2 && i2 + ev(ps[k].1).len() < s.len() && s.subrange(
                i2,
                i2 + ev(ps[k].1).len() as int,
            ) == ev(ps[k].1) && (s[i2 + ev(ps[k].1).len()] == ',' || s[i2 + ev(ps[k].1).len()]
                == '}') ==> pv(s, i2) == Some((ps[k].1, i2 + ev(ps[k].1).len())),
    ensures
        p_obj(s, i, pv) == Some((ps, i + enc_obj(ps, ev).len())),
{
    let e = enc_obj(ps, ev);
    let einner = enc_pairs_from(ps, 0, ev);
    assert(s[i] == e[0]);
    lemma_ws_stay(s, i);
    assert(at(s, i, '{'));
    if ps.len() == 0 {
        assert(e =~= seq!['{', '}']);
        assert(s[i + 1] == e[1]);
        lemma_ws_stay(s, i + 1);
    } else {
        assert(s.subrange(i + 1, i + 1 + einner.len() as int) =~= einner) by {
            assert forall|j: int| 0 <= j < einner.len() implies s.subrange(
                i + 1,
                i + 1 + einner.len() as int,
            )[j] == einner[j] by {
                assert(s[i + 1 + j] == e[1 + j]);
            }
        }
        assert(s[i + 1 + einner.len()] == e[1 + einner.len() as int]);
        assert(s[i + 1 + einner.len()] == '}');
        assert(s[i + 1] == einner[0]);
        assert(einner[0] == '"');
        lemma_ws_stay(s, i + 1);
        assert(!at(s, i + 1, '}'));
        lemma_p_pairs(s, i + 1, ps, 0, ev, pv);
        assert(ps.skip(0) =~= ps);
    }
}

// ------------------------------------------------------------------
// Quoted single characters
// ------------------------------------------------------------------

/// A quoted single character, for terrain tiles.  The character itself
/// must not be a quote or a backslash.
pub open spec fn p_qchar(s: Seq<char>, i: int) -> Option<(char, int)> {
    let j = ws(s, i);
    if at(s, j, '"') && j + 2 < s.len() && s[j + 1] != '"' && s[j + 1] != '\\' && s[j + 2] == '"' {
        Some((s[j + 1], j + 3))
    } else {
        None
    }
}

/// Canonical encoding of a quoted single character.
pub open spec fn enc_qchar(c: char) -> Seq<char> {
    seq!['"', c, '"']
}

/// The quoted-character parser inverts its encoder.
pub proof fn lemma_p_qchar(s: Seq<char>, i: int, c: char)
    requires
        0 <= i,
        i + 3 < s.len() || i + 3 <= s.len(),
        i + 3 <= s.len(),
        s.subrange(i, i + 3) == enc_qchar(c),
        c != '"',
        c != '\\',
    ensures
        p_qchar(s, i) == Some((c, i + 3)),
{
    assert(s[i] == enc_qchar(c)[0]);
    assert(s[i + 1] == enc_qchar(c)[1]);
    assert(s[i + 2] == enc_qchar(c)[2]);
    lemma_ws_stay(s, i);
}

// ------------------------------------------------------------------
// Executable parsers
// ------------------------------------------------------------------

/// Whether `c` is insignificant whitespace.
pub fn is_ws_exec(c: char) -> (r: bool)
    ensures
        r == is_ws(c),
{
    c == ' ' || c == '\n' || c == '\r' || c == '\t'
}

/// Skips whitespace from `i` on.
#[verifier::loop_isolation(false)]
pub fn ws_exec(v: &Vec<char>, i: usize) -> (j: usize)
    requires
        i <= v.len(),
    ensures
        j as int == ws(v@, i as int),
        i <= j <= v.len(),
{
    let mut j: usize = i;
    while j < v.len() && is_ws_exec(v[j])
        invariant
            i <= j <= v.len(),
            ws(v@, i as int) == ws(v@, j as int),
        decreases v.len() - j,
    {
        proof {
            assert(ws(v@, j as int) == ws(v@, j + 1));
        }
        j += 1;
    }
    j
}

/// Consumes optional whitespace and then exactly `c`.
pub fn p_char_exec(v: &Vec<char>, i: usize, c: char) -> (r: Option<usize>)
    requires
        i <= v.len(),
    ensures
        match r {
            Some(j) => p_char(v@, i as int, c) == Some(j as int) && i < j <= v.len(),
            None => p_char(v@, i as int, c) is None,
        },
{
    let j = ws_exec(v, i);
    if j < v.len() && v[j] == c {
        Some(j + 1)
    } else {
        None
    }
}

/// Consumes optional whitespace, the fixed quoted key `k`, and a colon.
#[verifier::loop_isolation(false)]
pub fn p_key_exec(v: &Vec<char>, i: usize, k: &Vec<char>) -> (r: Option<usize>)
    requires
        i <= v.len(),
    ensures
        match r {
            Some(j) => p_key(v@, i as int, k@) == Some(j as int) && i < j <= v.len(),
            None => p_key(v@, i as int, k@) is None,
        },
{
    let j = ws_exec(v, i);
    if !(j < v.len() && v.len() - j >= 2 && v.len() - j - 2 >= k.len()) {
        return None;
    }
    if v[j] != '"' {
        return None;
    }
    let mut m: usize = 0;
    while m < k.len()
        invariant
            0 <= m <= k.len(),
            j + k.len() + 2 <= v.len(),
            forall|t: int| 0 <= t < m ==> v@[j + 1 + t] == k@[t],
        decreases k.len() - m,
    {
        if v[j + 1 + m] != k[m] {
            proof {
                assert(v@.subrange(j + 1, j + 1 + k@.len() as int)[m as int] != k@[m as int]);
            }
            return None;
        }
        m += 1;
    }
    proof {
        assert(v@.subrange(j + 1, j + 1 + k@.len() as int) =~= k@);
    }
    if v[j + 1 + k.len()] != '"' {
        return None;
    }
    p_char_exec(v, j + k.len() + 2, ':')
}

/// Consumes a decimal integer fitting in `i32` (no leading whitespace).
#[verifier::loop_isolation(false)]
pub fn p_i32_exec(v: &Vec<char>, i: usize) -> (r: Option<(i32, usize)>)
    requires
        i <= v.len(),
    ensures
        match r {
            Some((x, j)) => p_i32(v@, i as int) == Some((x, j as int)) && i < j <= v.len(),
            None => p_i32(v@, i as int) is None,
        },
{
    let neg = i < v.len() && v[i] == '-';
    let b: usize = if neg {
        i + 1
    } else {
        i
    };
    proof {
        lemma_ndigits(v@, b as int);
    }
    let ghost m = ndigits(v@, b as int);
    let mut j: usize = b;
    let mut acc: u64 = 0;
    let mut over: bool = false;
    while j < v.len() && crate::text::is_digit_exec(v[j])
        invariant
            b <= j <= v.len(),
            j <= b + m,
            j < b + m ==> j < v.len(),
            !over ==> acc == dec_val(v@.subrange(b as int, j as int)),
            !over ==> acc <= 0x8000_0000u64,
            over ==> dec_val(v@.subrange(b as int, j as int)) > 0x8000_0000,
            over ==> j > b,
        decreases v.len() - j,
    {
        let d: u64 = (v[j] as u32 - '0' as u32) as u64;
        proof {
            assert(v@.subrange(b as int, j + 1).drop_last() =~= v@.subrange(b as int, j as int));
            crate::text::lemma_dec_val_nonneg(v@.subrange(b as int, j as int));
        }
        if !over {
            acc = acc * 10 + d;
            if acc > 0x8000_0000u64 {
                over = true;
            }
        }
        j += 1;
    }
    proof {
        assert(j == b + m);
        assert(v@.subrange(b as int, b + m) =~= v@.subrange(b as int, b + m));
    }
    if j == b {
        return None;
    }
    if over {
        return None;
    }
    if neg {
        let x: i64 = -(acc as i64);
        if x < -0x8000_0000i64 {
            return None;
        }
        Some((x as i32, j))
    } else {
        if acc > 0x7fff_ffffu64 {
            return None;
        }
        Some((acc as i32, j))
    }
}

/// Consumes optional whitespace and a decimal `i32`.
pub fn p_i32w_exec(v: &Vec<char>, i: usize) -> (r: Option<(i32, usize)>)
    requires
        i <= v.len(),
    ensures
        match r {
            Some((x, j)) => p_i32w(v@, i as int) == Some((x, j as int)) && i < j <= v.len(),
            None => p_i32w(v@, i as int) is None,
        },
{
    let j = ws_exec(v, i);
    p_i32_exec(v, j)
}

/// Consumes the body of a quoted string, undoing escapes.
pub fn p_qbody_exec(v: &Vec<char>, i: usize) -> (r: Option<(Vec<char>, usize)>)
    requires
        i <= v.len(),
    ensures
        match r {
            Some((t, j)) => p_qbody(v@, i as int) == Some((t@, j as int)) && i < j <= v.len(),
            None => p_qbody(v@, i as int) is None,
        },
    decreases v.len() - i,
{
    if i >= v.len() {
        return None;
    }
    let c = v[i];
    if c == '"' {
        let t: Vec<char> = Vec::new();
        proof {
            assert(t@ =~= Seq::<char>::empty());
        }
        return Some((t, i + 1));
    }
    if c == '\\' {
        if i + 1 < v.len() && (v[i + 1] == '"' || v[i + 1] == '\\') {
            let e = v[i + 1];
            match p_qbody_exec(v, i + 2) {
                Some((mut t, j)) => {
                    t.insert(0, e);
                    proof {
                        assert(t@ =~= seq![v@[i + 1]] + t@.drop_first());
                    }
                    return Some((t, j));
                },
                None => {
                    return None;
                },
            }
        } else {
            return None;
        }
    }
    match p_qbody_exec(v, i + 1) {
        Some((mut t, j)) => {
            t.insert(0, c);
            proof {
                assert(t@ =~= seq![v@[i as int]] + t@.drop_first());
            }
            Some((t, j))
        },
        None => None,
    }
}

/// Consumes optional whitespace and a complete quoted string.
pub fn p_quoted_exec(v: &Vec<char>, i: usize) -> (r: Option<(Vec<char>, usize)>)
    requires
        i <= v.len(),
    ensures
        match r {
            Some((t, j)) => p_quoted(v@, i as int) == Some((t@, j as int)) && i < j <= v.len(),
            None => p_quoted(v@, i as int) is None,
        },
{
    let j = ws_exec(v, i);
    if j < v.len() && v[j] == '"' {
        p_qbody_exec(v, j + 1)
    } else {
        None
    }
}

/// Consumes a quoted single character.
pub fn p_qchar_exec(v: &Vec<char>, i: usize) -> (r: Option<(char, usize)>)
    requires
        i <= v.len(),
    ensures
        match r {
            Some((c, j)) => p_qchar(v@, i as int) == Some((c, j as int)) && i < j <= v.len(),
            None => p_qchar(v@, i as int) is None,
        },
{
    let j = ws_exec(v, i);
    if j < v.len() && v[j] == '"' && v.len() - j > 2 && v[j + 1] != '"' && v[j + 1] != '\\' && v[j
        + 2] == '"' {
        Some((v[j + 1], j + 3))
    } else {
        None
    }
}

// ------------------------------------------------------------------
// Objects of string fields (request bodies)
// ------------------------------------------------------------------

/// Parser of a quoted string value.
pub open spec fn sval_pv() -> spec_fn(Seq<char>, int) -> Option<(Seq<char>, int)> {
    |s: Seq<char>, i: int| p_quoted(s, i)
}

/// What a flat JSON object of string fields means: the field list in
/// order, when the whole text is one such object.
pub open spec fn parse_sobj_spec(s: Seq<char>) -> Option<Seq<(Seq<char>, Seq<char>)>> {
    match p_obj(s, 0, sval_pv()) {
        Some((ps, j)) => if 0 <= j <= s.len() && ws(s, j) == s.len() {
            Some(ps)
        } else {
            None
        },
        None => None,
    }
}

/// Consumes one or more comma-separated `"key":"value"` pairs up to a
/// closing brace.
fn p_sobj_items(v: &Vec<char>, i: usize) -> (r: Option<(Vec<(String, String)>, usize)>)
    requires
        i <= v.len(),
    ensures
        match r {
            Some((ps, j)) => p_pairs(v@, i as int, sval_pv()) == Some(
                (crate::text::pairs_view(ps@), j as int),
            ) && i < j <= v.len(),
            None => p_pairs(v@, i as int, sval_pv()) is None,
        },
    decreases v.len() - i,
{
    let (key, j1) = match p_quoted_exec(v, i) {
        Some(p) => p,
        None => {
            return None;
        },
    };
    let j2 = match p_char_exec(v, j1, ':') {
        Some(j) => j,
        None => {
            return None;
        },
    };
    let (val, j3) = match p_quoted_exec(v, j2) {
        Some(p) => p,
        None => {
            return None;
        },
    };
    let key_s = crate::text::chars_to_string(&key);
    let val_s = crate::text::chars_to_string(&val);
    let k = ws_exec(v, j3);
    if k < v.len() && v[k] == ',' {
        match p_sobj_items(v, k + 1) {
            Some((mut rest, e)) => {
                rest.insert(0, (key_s, val_s));
                proof {
                    assert(crate::text::pairs_view(rest@) =~= seq![(rest@[0].0@, rest@[0].1@)]
                        + crate::text::pairs_view(rest@.drop_first()));
                }
                Some((rest, e))
            },
            None => None,
        }
    } else if k < v.len() && v[k] == '}' {
        let mut one: Vec<(String, String)> = Vec::new();
        one.push((key_s, val_s));
        proof {
            assert(crate::text::pairs_view(one@) =~= seq![(one@[0].0@, one@[0].1@)]);
        }
        Some((one, k + 1))
    } else {
        None
    }
}

/// Reads a whole text as one flat JSON object of string fields.
pub fn parse_sobj(s: &str) -> (r: Option<Vec<(String, String)>>)
    ensures
        match r {
            Some(ps) => parse_sobj_spec(s@) == Some(crate::text::pairs_view(ps@)),
            None => parse_sobj_spec(s@) is None,
        },
{
    let v = crate::text::str_to_chars(s);
    let j = match p_char_exec(&v, 0, '{') {
        Some(j) => j,
        None => {
            return None;
        },
    };
    let k = ws_exec(&v, j);
    let (ps, e) = if k < v.len() && v[k] == '}' {
        let ps: Vec<(String, String)> = Vec::new();
        proof {
            assert(crate::text::pairs_view(ps@) =~= Seq::<(Seq<char>, Seq<char>)>::empty());
        }
        (ps, k + 1)
    } else {
        match p_sobj_items(&v, j) {
            Some(p) => p,
            None => {
                return None;
            },
        }
    };
    let e2 = ws_exec(&v, e);
    if e2 != v.len() {
        return None;
    }
    Some(ps)
}

// ------------------------------------------------------------------
// Executable encoders
// ------------------------------------------------------------------

/// Escaping distributes over concatenation.
pub proof fn lemma_escape_cat(a: Seq<char>, b: Seq<char>)
    ensures
        escape(a + b) == escape(a) + escape(b),
    decreases a.len(),
{
    if a.len() == 0 {
        assert(a + b =~= b);
        assert(escape(a) + escape(b) =~= escape(b));
    } else {
        lemma_escape_cat(a.drop_first(), b);
        assert((a + b).drop_first() =~= a.drop_first() + b);
        if a[0] == '"' || a[0] == '\\' {
            assert(escape(a + b) =~= escape(a) + escape(b));
        } else {
            assert(escape(a + b) =~= escape(a) + escape(b));
        }
    }
}

/// Appends the quoted, escaped form of `t` to `out`.
#[verifier::loop_isolation(false)]
pub fn push_quoted(out: &mut Vec<char>, t: &Vec<char>)
    ensures
        final(out)@ == old(out)@ + enc_quoted(t@),
{
    out.push('"');
    let ghost mid = out@;
    let mut i: usize = 0;
    while i < t.len()
        invariant
            0 <= i <= t.len(),
            out@ == mid + escape(t@.take(i as int)),
        decreases t.len() - i,
    {
        let c = t[i];
        proof {
            lemma_escape_cat(t@.take(i as int), seq![t@[i as int]]);
            assert(t@.take(i + 1) =~= t@.take(i as int) + seq![t@[i as int]]);
            assert(seq![t@[i as int]].drop_first() =~= Seq::<char>::empty());
            assert(escape(Seq::<char>::empty()) =~= Seq::<char>::empty());
        }
        if c == '"' || c == '\\' {
            out.push('\\');
            out.push(c);
            proof {
                assert(escape(seq![t@[i as int]]) =~= seq!['\\', t@[i as int]]);
                assert(out@ =~= mid + escape(t@.take(i + 1)));
            }
        } else {
            out.push(c);
            proof {
                assert(escape(seq![t@[i as int]]) =~= seq![t@[i as int]]);
                assert(out@ =~= mid + escape(t@.take(i + 1)));
            }
        }
        i += 1;
    }
    proof {
        assert(t@.take(t@.len() as int) =~= t@);
    }
    out.push('"');
    proof {
        assert(out@ =~= old(out)@ + enc_quoted(t@));
    }
}

/// Appends the decimal rendering of `x` to `out`.
pub fn push_i32(out: &mut Vec<char>, x: i32)
    ensures
        final(out)@ == old(out)@ + int_str(x as int),
{
    if x < 0 {
        out.push('-');
        let m: u64 = (-(x as i64)) as u64;
        crate::text::push_dec_digits(out, m);
        proof {
            assert(out@ =~= old(out)@ + int_str(x as int));
        }
    } else {
        crate::text::push_dec_digits(out, x as u64);
    }
}

/// Appends a fixed quoted key and a colon to `out`.
pub fn push_key(out: &mut Vec<char>, k: &Vec<char>)
    ensures
        final(out)@ == old(out)@ + enc_key(k@),
{
    out.push('"');
    crate::text::push_chars(out, k);
    out.push('"');
    out.push(':');
    proof {
        assert(out@ =~= old(out)@ + enc_key(k@));
    }
}

} // verus!


