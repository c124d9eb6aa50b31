//! Decimal numerals: recognising them, their value, and writing numbers back as text.
use vstd::prelude::*;

verus! {

/// Width, in bits, of an integer type.
#[derive(Clone, Copy, Debug, PartialEq, Eq, Structural)]
pub enum IntWidth {
    W8,
    W16,
    W32,
    W64,
    W128,
}

/// Why a numeral was refused.
#[derive(Clone, Copy, Debug, PartialEq, Eq, Structural)]
pub enum NumberError {
    /// The text is not a sign followed by one or more decimal digits.
    Malformed,
    /// The text is a numeral whose value the target type cannot represent.
    OutOfRange,
}

pub open spec fn is_digit(c: char) -> bool {
    '0' <= c && c <= '9'
}

pub open spec fn digit_value(c: char) -> nat {
    (c as int - '0' as int) as nat
}

pub open spec fn all_digits(s: Seq<char>) -> bool {
    forall|i: int| 0 <= i < s.len() ==> is_digit(#[trigger] s[i])
}

/// The number that a string of decimal digits denotes.
pub open spec fn digits_value(s: Seq<char>) -> nat
    decreases s.len(),
{
    if s.len() == 0 {
        0
    } else {
        digits_value(s.drop_last()) * 10 + digit_value(s.last())
    }
}

/// True when the text starts with a minus sign.
pub open spec fn starts_with_minus(s: Seq<char>) -> bool {
    s.len() > 0 && s[0] == '-'
}

/// The digits of an unsigned numeral: the text without one leading `+`.
pub open spec fn unsigned_digits(s: Seq<char>) -> Seq<char> {
    if s.len() > 0 && s[0] == '+' {
        s.drop_first()
    } else {
        s
    }
}

/// An optional `+` followed by one or more decimal digits.
pub open spec fn is_unsigned_numeral(s: Seq<char>) -> bool {
    unsigned_digits(s).len() > 0 && all_digits(unsigned_digits(s))
}

/// The digits of a signed numeral: the text without one leading `+` or `-`.
pub open spec fn signed_digits(s: Seq<char>) -> Seq<char> {
    if s.len() > 0 && (s[0] == '+' || s[0] == '-') {
        s.drop_first()
    } else {
        s
    }
}

/// An optional `+` or `-` followed by one or more decimal digits.
pub open spec fn is_signed_numeral(s: Seq<char>) -> bool {
    signed_digits(s).len() > 0 && all_digits(signed_digits(s))
}

pub open spec fn signed_value(s: Seq<char>) -> int {
    if starts_with_minus(s) {
        -digits_value(signed_digits(s))
    } else {
        digits_value(signed_digits(s)) as int
    }
}

pub open spec fn unsigned_max(w: IntWidth) -> nat {
    match w {
        IntWidth::W8 => 255,
        IntWidth::W16 => 65535,
        IntWidth::W32 => 4294967295,
        IntWidth::W64 => 18446744073709551615,
        IntWidth::W128 => 340282366920938463463374607431768211455,
    }
}

pub open spec fn signed_max(w: IntWidth) -> nat {
    match w {
        IntWidth::W8 => 127,
        IntWidth::W16 => 32767,
        IntWidth::W32 => 2147483647,
        IntWidth::W64 => 9223372036854775807,
        IntWidth::W128 => 170141183460469231731687303715884105727,
    }
}

/// The magnitude of the smallest value of the signed type of width `w`.
pub open spec fn signed_min_magnitude(w: IntWidth) -> nat {
    signed_max(w) + 1
}

pub open spec fn unsigned_in_range(s: Seq<char>, w: IntWidth) -> bool {
    is_unsigned_numeral(s) && digits_value(unsigned_digits(s)) <= unsigned_max(w)
}

pub open spec fn signed_in_range(s: Seq<char>, w: IntWidth) -> bool {
    is_signed_numeral(s) && -signed_min_magnitude(w) <= signed_value(s) && signed_value(s)
        <= signed_max(w)
}

/// The decimal text of a number, without sign or leading zeros.
pub open spec fn decimal_text(n: nat) -> Seq<char>
    decreases n,
{
    if n < 10 {
        seq![digit_char(n)]
    } else {
        decimal_text(n / 10) + seq![digit_char(n % 10)]
    }
}

pub open spec fn digit_char(d: nat) -> char {
    (('0' as int) + d) as char
}

proof fn lemma_digits_value_grows(s: Seq<char>, c: char)
    requires
        is_digit(c),
    ensures
        digits_value(s.push(c)) == digits_value(s) * 10 + digit_value(c),
        digits_value(s.push(c)) >= digits_value(s),
{
    assert(s.push(c).drop_last() =~= s);
}

pub fn unsigned_max_of(w: IntWidth) -> (r: u128)
    ensures
        r as nat == unsigned_max(w),
{
    match w {
        IntWidth::W8 => 255,
        IntWidth::W16 => 65535,
        IntWidth::W32 => 4294967295,
        IntWidth::W64 => 18446744073709551615,
        IntWidth::W128 => 340282366920938463463374607431768211455,
    }
}

pub fn signed_max_of(w: IntWidth) -> (r: u128)
    ensures
        r as nat == signed_max(w),
{
    match w {
        IntWidth::W8 => 127,
        IntWidth::W16 => 32767,
        IntWidth::W32 => 2147483647,
        IntWidth::W64 => 9223372036854775807,
        IntWidth::W128 => 170141183460469231731687303715884105727,
    }
}

/// Reads the digits of `s` from position `start` on.
///
/// The first component tells whether every character there is a decimal digit.
/// When it is, the second holds their value if that value is at most `limit`.
fn scan_digits(s: &str, start: usize, limit: u128) -> (r: (bool, Option<u128>))
    requires
        start <= s@.len(),
    ensures
        r.0 == all_digits(s@.subrange(start as int, s@.len() as int)),
        r.0 ==> match r.1 {
            Some(v) => v as nat == digits_value(s@.subrange(start as int, s@.len() as int))
                && v <= limit,
            None => digits_value(s@.subrange(start as int, s@.len() as int)) > limit,
        },
{
    let n = s.unicode_len();
    let mut i: usize = start;
    let mut acc: u128 = 0;
    let mut over: bool = false;
    while i < n
        invariant
            start <= i <= n,
            n == s@.len(),
            all_digits(s@.subrange(start as int, i as int)),
            !over ==> acc as nat == digits_value(s@.subrange(start as int, i as int)) && acc
                <= limit,
            over ==> digits_value(s@.subrange(start as int, i as int)) > limit,
        decreases n - i,
    {
        let c = s.get_char(i);
        if !('0' <= c && c <= '9') {
            assert(!all_digits(s@.subrange(start as int, n as int))) by {
                assert(s@.subrange(start as int, n as int)[i - start] == c);
            }
            return (false, None);
        }
        let ghost prev = s@.subrange(start as int, i as int);
        assert(s@.subrange(start as int, i + 1) =~= prev.push(c));
        proof {
            lemma_digits_value_grows(prev, c);
        }
        if !over {
            let d: u128 = (c as u32 - '0' as u32) as u128;
            if acc > limit / 10 {
                assert(acc * 10 > limit) by (nonlinear_arith)
                    requires
                        acc > limit / 10,
                ;
                over = true;
            } else if limit - acc * 10 < d {
                over = true;
            } else {
                assert(acc * 10 <= limit) by (nonlinear_arith)
                    requires
                        acc <= limit / 10,
                ;
                acc = acc * 10 + d;
            }
        }
        i = i + 1;
    }
    assert(s@.subrange(start as int, n as int) =~= s@.subrange(start as int, s@.len() as int));
    if over {
        (true, None)
    } else {
        (true, Some(acc))
    }
}

/// Parses `s` as a numeral of the unsigned type of width `w`.
pub fn parse_unsigned(s: &str, w: IntWidth) -> (r: Result<u128, NumberError>)
    ensures
        r is Ok <==> unsigned_in_range(s@, w),
        match r {
            Ok(v) => unsigned_in_range(s@, w) && v as nat == digits_value(unsigned_digits(s@)),
            Err(NumberError::Malformed) => !is_unsigned_numeral(s@),
            Err(NumberError::OutOfRange) => is_unsigned_numeral(s@) && !unsigned_in_range(s@, w),
        },
{
    let n = s.unicode_len();
    let start: usize = if n > 0 && s.get_char(0) == '+' {
        1
    } else {
        0
    };
    assert(s@.subrange(start as int, s@.len() as int) =~= unsigned_digits(s@));
    if start == n {
        return Err(NumberError::Malformed);
    }
    let (digits, value) = scan_digits(s, start, unsigned_max_of(w));
    if !digits {
        Err(NumberError::Malformed)
    } else {
        match value {
            Some(v) => Ok(v),
            None => Err(NumberError::OutOfRange),
        }
    }
}

/// Parses `s` as a numeral of the signed type of width `w`.
pub fn parse_signed(s: &str, w: IntWidth) -> (r: Result<i128, NumberError>)
    ensures
        r is Ok <==> signed_in_range(s@, w),
        match r {
            Ok(v) => signed_in_range(s@, w) && v as int == signed_value(s@),
            Err(NumberError::Malformed) => !is_signed_numeral(s@),
            Err(NumberError::OutOfRange) => is_signed_numeral(s@) && !signed_in_range(s@, w),
        },
{
    let n = s.unicode_len();
    let negative = n > 0 && s.get_char(0) == '-';
    let start: usize = if n > 0 && (s.get_char(0) == '+' || s.get_char(0) == '-') {
        1
    } else {
        0
    };
    assert(s@.subrange(start as int, s@.len() as int) =~= signed_digits(s@));
    if start == n {
        return Err(NumberError::Malformed);
    }
    let max = signed_max_of(w);
    let limit: u128 = if negative {
        max + 1
    } else {
        max
    };
    let (digits, value) = scan_digits(s, start, limit);
    if !digits {
        return Err(NumberError::Malformed);
    }
    match value {
        Some(v) => {
            if negative {
                if v == max + 1 {
                    Ok(-((v - 1) as i128) - 1)
                } else {
                    Ok(-(v as i128))
                }
            } else {
                Ok(v as i128)
            }
        },
        None => Err(NumberError::OutOfRange),
    }
}

/// A length as written: one or more decimal digits.
pub open spec fn is_digit_text(s: Seq<char>) -> bool {
    s.len() > 0 && all_digits(s)
}

/// Parses `s` as a length: one or more decimal digits whose value fits in `usize`.
pub fn parse_length(s: &str) -> (r: Result<usize, NumberError>)
    ensures
        match r {
            Ok(v) => is_digit_text(s@) && v as nat == digits_value(s@),
            Err(NumberError::Malformed) => !is_digit_text(s@),
            Err(NumberError::OutOfRange) => is_digit_text(s@) && digits_value(s@) > usize::MAX,
        },
{
    let n = s.unicode_len();
    assert(s@.subrange(0, s@.len() as int) =~= s@);
    if n == 0 {
        return Err(NumberError::Malformed);
    }
    let (digits, value) = scan_digits(s, 0, usize::MAX as u128);
    if !digits {
        return Err(NumberError::Malformed);
    }
    match value {
        Some(v) => Ok(v as usize),
        None => Err(NumberError::OutOfRange),
    }
}

fn digit_str(d: u128) -> (r: &'static str)
    requires
        d < 10,
    ensures
        r@ == seq![digit_char(d as nat)],
{
    proof {
        reveal_strlit("0");
        reveal_strlit("1");
        reveal_strlit("2");
        reveal_strlit("3");
        reveal_strlit("4");
        reveal_strlit("5");
        reveal_strlit("6");
        reveal_strlit("7");
        reveal_strlit("8");
        reveal_strlit("9");
    }
    let r = match d {
        0 => "0",
        1 => "1",
        2 => "2",
        3 => "3",
        4 => "4",
        5 => "5",
        6 => "6",
        7 => "7",
        8 => "8",
        _ => "9",
    };
    assert(r@ =~= seq![digit_char(d as nat)]);
    r
}

/// Writes `n` in decimal.
pub fn decimal_string(n: u128) -> (r: String)
    ensures
        r@ == decimal_text(n as nat),
    decreases n,
{
    if n < 10 {
        String::from_str(digit_str(n))
    } else {
        let mut r = decimal_string(n / 10);
        r.append(digit_str(n % 10));
        r
    }
}

} // verus!
