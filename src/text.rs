//! Recognisers on text: ASCII case folding, boolean literals and floating-point numerals.
use vstd::prelude::*;
use crate::numeral::{is_digit, all_digits, is_signed_numeral, signed_digits};

verus! {

pub open spec fn ascii_lower_char(c: char) -> char {
    if 'A' <= c && c <= 'Z' {
        ((c as int) + 32) as char
    } else {
        c
    }
}

/// The text with each ASCII capital replaced by its small letter.
pub open spec fn ascii_lower(s: Seq<char>) -> Seq<char> {
    Seq::new(s.len(), |i: int| ascii_lower_char(s[i]))
}

/// The literals a boolean field accepts, compared without regard to case.
pub open spec fn is_bool_text(s: Seq<char>) -> bool {
    let l = ascii_lower(s);
    l == "true"@ || l == "false"@ || l == "1"@ || l == "0"@
}

/// The value a boolean literal denotes.
pub open spec fn bool_value(s: Seq<char>) -> bool {
    let l = ascii_lower(s);
    l == "true"@ || l == "1"@
}

/// Digits with at most one decimal point, holding at least one digit.
pub open spec fn is_mantissa(m: Seq<char>) -> bool {
    &&& m.len() > 0
    &&& forall|i: int| 0 <= i < m.len() ==> is_digit(#[trigger] m[i]) || m[i] == '.'
    &&& forall|i: int, j: int|
        0 <= i < m.len() && 0 <= j < m.len() && #[trigger] m[i] == '.' && #[trigger] m[j] == '.'
            ==> i == j
    &&& m != seq!['.']
}

/// A mantissa, optionally followed by `e` and a signed exponent (all in small letters).
pub open spec fn is_float_number(b: Seq<char>) -> bool {
    is_mantissa(b) || exists|k: int|
        0 <= k < b.len() && #[trigger] b[k] == 'e' && is_mantissa(b.take(k)) && is_signed_numeral(
            b.skip(k + 1),
        )
}

/// Text that reads as a floating-point number: an optional sign, then `inf`,
/// `infinity`, `nan` or a decimal number with an optional exponent, in any case.
/// This is the grammar that Rust's `f32` and `f64` parsers accept; both widths
/// accept the same texts, since a magnitude beyond the range becomes an infinity.
pub open spec fn is_float_text(s: Seq<char>) -> bool {
    let b = signed_digits(ascii_lower(s));
    b == "inf"@ || b == "infinity"@ || b == "nan"@ || is_float_number(b)
}

fn lower_chars(s: &str) -> (r: Vec<char>)
    ensures
        r@ == ascii_lower(s@),
{
    let n = s.unicode_len();
    let mut r: Vec<char> = Vec::new();
    let mut i: usize = 0;
    while i < n
        invariant
            i <= n,
            n == s@.len(),
            r@ =~= Seq::new(i as nat, |j: int| ascii_lower_char(s@[j])),
        decreases n - i,
    {
        let c = s.get_char(i);
        let l = if 'A' <= c && c <= 'Z' {
            ((c as u32) + 32) as u8 as char
        } else {
            c
        };
        r.push(l);
        i = i + 1;
    }
    r
}

/// Tells whether the characters of `v` from `start` on are those of `lit`.
fn tail_equals(v: &Vec<char>, start: usize, lit: &str) -> (r: bool)
    requires
        start <= v@.len(),
    ensures
        r == (v@.skip(start as int) == lit@),
{
    let n = lit.unicode_len();
    let total = v.len();
    if total - start != n {
        assert(v@.skip(start as int).len() != lit@.len());
        return false;
    }
    let mut i: usize = 0;
    while i < n
        invariant
            i <= n,
            n == lit@.len(),
            start + n == total == v@.len(),
            forall|j: int| 0 <= j < i ==> v@[start + j] == lit@[j],
        decreases n - i,
    {
        if v[start + i] != lit.get_char(i) {
            assert(v@.skip(start as int)[i as int] != lit@[i as int]);
            return false;
        }
        i = i + 1;
    }
    assert(v@.skip(start as int) =~= lit@);
    true
}

/// Tells whether `s` is a boolean literal, and which: `true` and `1` are true,
/// `false` and `0` are false, with ASCII letters in either case.
pub fn parse_bool(s: &str) -> (r: Option<bool>)
    ensures
        r is Some <==> is_bool_text(s@),
        r matches Some(b) ==> b == bool_value(s@),
{
    let l = lower_chars(s);
    assert(l@.skip(0) =~= l@);
    if tail_equals(&l, 0, "true") || tail_equals(&l, 0, "1") {
        Some(true)
    } else if tail_equals(&l, 0, "false") || tail_equals(&l, 0, "0") {
        Some(false)
    } else {
        None
    }
}

/// Tells whether `v[lo..hi]` is a mantissa.
fn mantissa_at(v: &Vec<char>, lo: usize, hi: usize) -> (r: bool)
    requires
        lo <= hi <= v@.len(),
    ensures
        r == is_mantissa(v@.subrange(lo as int, hi as int)),
{
    let ghost m = v@.subrange(lo as int, hi as int);
    if lo == hi {
        return false;
    }
    let mut dot: Option<usize> = None;
    let mut i: usize = lo;
    while i < hi
        invariant
            lo <= i <= hi <= v@.len(),
            m == v@.subrange(lo as int, hi as int),
            forall|k: int| 0 <= k < i - lo ==> is_digit(#[trigger] m[k]) || m[k] == '.',
            match dot {
                None => forall|k: int| 0 <= k < i - lo ==> #[trigger] m[k] != '.',
                Some(d) => lo <= d < i && m[d - lo] == '.' && forall|k: int|
                    0 <= k < i - lo && #[trigger] m[k] == '.' ==> k == d - lo,
            },
        decreases hi - i,
    {
        let c = v[i];
        if c == '.' {
            if let Some(d) = dot {
                assert(m[d - lo] == '.' && m[i - lo] == '.');
                return false;
            }
            dot = Some(i);
        } else if !('0' <= c && c <= '9') {
            assert(!(is_digit(m[i - lo]) || m[i - lo] == '.'));
            return false;
        }
        i = i + 1;
    }
    if hi - lo == 1 && v[lo] == '.' {
        assert(m =~= seq!['.']);
        return false;
    }
    assert(m != seq!['.']) by {
        if m == seq!['.'] {
            assert(m.len() == 1 && m[0] == '.');
        }
    }
    true
}

/// Tells whether `v[lo..]` is a signed numeral.
fn signed_numeral_at(v: &Vec<char>, lo: usize) -> (r: bool)
    requires
        lo <= v@.len(),
    ensures
        r == is_signed_numeral(v@.skip(lo as int)),
{
    let ghost e = v@.skip(lo as int);
    let n = v.len();
    let start: usize = if lo < n && (v[lo] == '+' || v[lo] == '-') {
        lo + 1
    } else {
        lo
    };
    assert(signed_digits(e) =~= v@.skip(start as int));
    if start == n {
        return false;
    }
    let mut i: usize = start;
    while i < n
        invariant
            start <= i <= n == v@.len(),
            e == v@.skip(lo as int),
            signed_digits(e) == v@.skip(start as int),
            forall|k: int| start <= k < i ==> is_digit(#[trigger] v@[k]),
        decreases n - i,
    {
        if !('0' <= v[i] && v[i] <= '9') {
            assert(v@.skip(start as int)[i - start] == v@[i as int]);
            assert(!is_digit(v@.skip(start as int)[i - start]));
            return false;
        }
        i = i + 1;
    }
    assert(all_digits(v@.skip(start as int)));
    true
}

/// Tells whether `s` reads as a floating-point number.
pub fn accepts_float(s: &str) -> (r: bool)
    ensures
        r == is_float_text(s@),
{
    let l = lower_chars(s);
    let n = l.len();
    let start: usize = if n > 0 && (l[0] == '+' || l[0] == '-') {
        1
    } else {
        0
    };
    let ghost b = signed_digits(l@);
    assert(b =~= l@.skip(start as int));
    if tail_equals(&l, start, "inf") || tail_equals(&l, start, "infinity") || tail_equals(
        &l,
        start,
        "nan",
    ) {
        return true;
    }
    let mut k: usize = start;
    while k < n && l[k] != 'e'
        invariant
            start <= k <= n == l@.len(),
            forall|j: int| start <= j < k ==> l@[j] != 'e',
        decreases n - k,
    {
        k = k + 1;
    }
    if k == n {
        assert(l@.subrange(start as int, n as int) =~= b);
        let r = mantissa_at(&l, start, n);
        assert(!exists|j: int| 0 <= j < b.len() && #[trigger] b[j] == 'e') by {
            assert forall|j: int| 0 <= j < b.len() implies #[trigger] b[j] != 'e' by {
                assert(b[j] == l@[start + j]);
            }
        }
        return r;
    }
    let ghost kk: int = k - start;
    assert(b[kk] == 'e');
    assert(!is_mantissa(b)) by {
        assert(!is_digit(b[kk]) && b[kk] != '.');
    }
    assert(l@.subrange(start as int, k as int) =~= b.take(kk));
    assert(l@.skip(k + 1) =~= b.skip(kk + 1));
    let r = mantissa_at(&l, start, k) && signed_numeral_at(&l, k + 1);
    assert(r == is_float_number(b)) by {
        if !r {
            assert forall|j: int|
                0 <= j < b.len() && #[trigger] b[j] == 'e' && is_mantissa(b.take(j))
                    implies !is_signed_numeral(b.skip(j + 1)) by {
                if j < kk {
                    assert(b[j] == l@[start + j]);
                } else if j > kk {
                    assert(b.take(j)[kk] == 'e');
                    assert(!is_digit(b.take(j)[kk]) && b.take(j)[kk] != '.');
                }
            }
        }
    }
    r
}

} // verus!
