//! Checks and conversions of text typed into numeric fields.
use vstd::prelude::*;
use vstd::string::*;

use crate::fixed::abs;

verus! {

/// An ASCII decimal digit.
pub open spec fn is_digit(c: char) -> bool {
    '0' <= c && c <= '9'
}

/// Every character of `s` is an ASCII decimal digit.
pub open spec fn all_digits(s: Seq<char>) -> bool {
    forall|i: int| 0 <= i < s.len() ==> is_digit(#[trigger] s[i])
}

/// The value of a string of decimal digits.
pub open spec fn digits_value(s: Seq<char>) -> int
    decreases s.len(),
{
    if s.len() == 0 {
        0
    } else {
        digits_value(s.drop_last()) * 10 + (s.last() as int - '0' as int)
    }
}

/// A leading `+` or `-`.
pub open spec fn has_sign(s: Seq<char>) -> bool {
    s.len() > 0 && (s[0] == '+' || s[0] == '-')
}

/// `s` without its leading sign, if it has one.
pub open spec fn unsigned_part(s: Seq<char>) -> Seq<char> {
    if has_sign(s) {
        s.drop_first()
    } else {
        s
    }
}

/// The integer that `s` writes: an optional sign followed by one or more
/// ASCII digits, nothing else.
pub open spec fn integer_value(s: Seq<char>) -> Option<int> {
    let body = unsigned_part(s);
    if body.len() > 0 && all_digits(body) {
        if s.len() > 0 && s[0] == '-' {
            Some(-digits_value(body))
        } else {
            Some(digits_value(body))
        }
    } else {
        None
    }
}

/// What reading `s` as an `i64` gives: the integer it writes, where that
/// fits an `i64`.
pub open spec fn i64_value(s: Seq<char>) -> Option<i64> {
    match integer_value(s) {
        Some(v) => if i64::MIN <= v <= i64::MAX {
            Some(v as i64)
        } else {
            None
        },
        None => None,
    }
}

/// The integer `s` writes, or zero where it writes none.
pub open spec fn integer_or_zero(s: Seq<char>) -> i64 {
    match i64_value(s) {
        Some(v) => v,
        None => 0,
    }
}

/// Relies on `str::parse::<i64>` (`i64::from_str`): it accepts an optional
/// `+` or `-` followed by ASCII digits, and fails on anything else and on a
/// value out of range.
#[verifier::external_body]
fn parse_i64(input: &str) -> (r: Option<i64>)
    ensures
        r == i64_value(input@),
{
    input.parse::<i64>().ok()
}

/// Tells whether `input` is an integer that fits an `i64`.
pub fn validate_i64(input: &str) -> (r: bool)
    ensures
        r == (i64_value(input@) is Some),
{
    parse_i64(input).is_some()
}

/// The `i64` that `input` writes, or zero where it writes none.
pub fn convert_to_i64(input: &str) -> (r: i64)
    ensures
        r == integer_or_zero(input@),
{
    match parse_i64(input) {
        Some(v) => v,
        None => 0,
    }
}

/// `c` is the lowercase ASCII letter `lower`, in either case.
pub open spec fn same_letter(c: char, lower: char) -> bool {
    c == lower || c as int == lower as int - 32
}

/// `s` spells `word` (given in lowercase), ignoring ASCII case.
pub open spec fn is_word(s: Seq<char>, word: Seq<char>) -> bool {
    s.len() == word.len() && forall|i: int| 0 <= i < s.len() ==> same_letter(#[trigger] s[i], word[i])
}

/// `inf`, `infinity` or `nan`, in any case.
pub open spec fn is_special(s: Seq<char>) -> bool {
    is_word(s, seq!['i', 'n', 'f']) || is_word(s, seq!['i', 'n', 'f', 'i', 'n', 'i', 't', 'y'])
        || is_word(s, seq!['n', 'a', 'n'])
}

/// Digits with at most one decimal point, and at least one digit.
pub open spec fn is_mantissa(s: Seq<char>) -> bool {
    &&& forall|i: int| 0 <= i < s.len() ==> is_digit(#[trigger] s[i]) || s[i] == '.'
    &&& forall|i: int, j: int|
        0 <= i < s.len() && 0 <= j < s.len() && #[trigger] s[i] == '.' && #[trigger] s[j] == '.' ==> i == j
    &&& exists|i: int| 0 <= i < s.len() && is_digit(#[trigger] s[i])
}

/// The letter that starts an exponent.
pub open spec fn is_exponent_mark(c: char) -> bool {
    c == 'e' || c == 'E'
}

/// A mantissa, then optionally an exponent mark and a signed integer.
pub open spec fn is_decimal(s: Seq<char>) -> bool {
    ||| (forall|i: int| 0 <= i < s.len() ==> !is_exponent_mark(#[trigger] s[i])) && is_mantissa(s)
    ||| exists|k: int|
        0 <= k < s.len() && is_exponent_mark(#[trigger] s[k]) && is_mantissa(s.take(k))
            && integer_value(s.skip(k + 1)) is Some
}

/// Text that reads as a floating-point number: an optional sign, then
/// `inf`, `infinity` or `nan` in any case, or a decimal number with an
/// optional exponent.
pub open spec fn is_float_text(s: Seq<char>) -> bool {
    is_special(unsigned_part(s)) || is_decimal(unsigned_part(s))
}

/// The characters of `s`, one by one.
pub fn chars_of(s: &str) -> (r: Vec<char>)
    ensures
        r@ == s@,
{
    let n = s.unicode_len();
    let mut out: Vec<char> = Vec::new();
    let mut i: usize = 0;
    while i < n
        invariant
            n == s@.len(),
            0 <= i <= n,
            out@ == s@.take(i as int),
        decreases n - i,
    {
        let c = s.get_char(i);
        out.push(c);
        i = i + 1;
        proof {
            assert(out@ =~= s@.take(i as int));
        }
    }
    proof {
        assert(s@.take(n as int) =~= s@);
    }
    out
}

/// Whether `v[lo..hi]` spells `word`, ignoring ASCII case.
fn word_at(v: &Vec<char>, lo: usize, hi: usize, word: &Vec<char>, upper: &Vec<char>) -> (r: bool)
    requires
        lo <= hi <= v@.len(),
        upper@.len() == word@.len(),
        forall|i: int| 0 <= i < word@.len() ==> #[trigger] upper@[i] as int == word@[i] as int - 32,
    ensures
        r == is_word(v@.subrange(lo as int, hi as int), word@),
{
    if hi - lo != word.len() {
        return false;
    }
    let mut i: usize = 0;
    while i < word.len()
        invariant
            lo <= hi <= v@.len(),
            hi - lo == word@.len(),
            upper@.len() == word@.len(),
            forall|j: int| 0 <= j < word@.len() ==> #[trigger] upper@[j] as int == word@[j] as int - 32,
            0 <= i <= word@.len(),
            forall|j: int| 0 <= j < i ==> same_letter(#[trigger] v@[lo + j], word@[j]),
        decreases word@.len() - i,
    {
        let c = v[lo + i];
        let w = word[i];
        if c != w && c != upper[i] {
            proof {
                assert(!same_letter(v@.subrange(lo as int, hi as int)[i as int], word@[i as int]));
            }
            return false;
        }
        i = i + 1;
    }
    proof {
        assert forall|j: int| 0 <= j < v@.subrange(lo as int, hi as int).len() implies same_letter(
            #[trigger] v@.subrange(lo as int, hi as int)[j],
            word@[j],
        ) by {
            assert(v@.subrange(lo as int, hi as int)[j] == v@[lo + j]);
        }
    }
    true
}

/// Whether `v[lo..hi]` is a mantissa: digits with at most one point and
/// at least one digit.
pub(crate) fn mantissa_at(v: &Vec<char>, lo: usize, hi: usize) -> (r: bool)
    requires
        lo <= hi <= v@.len(),
    ensures
        r == is_mantissa(v@.subrange(lo as int, hi as int)),
{
    let ghost sub = v@.subrange(lo as int, hi as int);
    let mut dot: Option<usize> = None;
    let mut digit: Option<usize> = None;
    let mut i: usize = lo;
    while i < hi
        invariant
            lo <= i <= hi <= v@.len(),
            sub == v@.subrange(lo as int, hi as int),
            forall|k: int| lo <= k < i ==> is_digit(#[trigger] v@[k]) || v@[k] == '.',
            match dot {
                None => forall|k: int| lo <= k < i ==> #[trigger] v@[k] != '.',
                Some(d) => lo <= d < i && v@[d as int] == '.' && forall|k: int|
                    lo <= k < i && k != d ==> #[trigger] v@[k] != '.',
            },
            match digit {
                None => forall|k: int| lo <= k < i ==> !is_digit(#[trigger] v@[k]),
                Some(w) => lo <= w < i && is_digit(v@[w as int]),
            },
        decreases hi - i,
    {
        let c = v[i];
        if c == '.' {
            match dot {
                Some(d) => {
                    proof {
                        assert(sub[d - lo] == '.' && sub[i - lo] == '.');
                    }
                    return false;
                },
                None => {
                    dot = Some(i);
                },
            }
        } else if '0' <= c && c <= '9' {
            digit = Some(i);
        } else {
            proof {
                assert(sub[i - lo] == c);
            }
            return false;
        }
        i = i + 1;
    }
    proof {
        assert forall|j: int| 0 <= j < sub.len() implies is_digit(#[trigger] sub[j]) || sub[j] == '.' by {
            assert(sub[j] == v@[lo + j]);
        }
        assert forall|a: int, b: int|
            0 <= a < sub.len() && 0 <= b < sub.len() && #[trigger] sub[a] == '.' && #[trigger] sub[b] == '.' implies a == b by {
            assert(sub[a] == v@[lo + a]);
            assert(sub[b] == v@[lo + b]);
        }
        match digit {
            Some(w) => {
                assert(sub[w - lo] == v@[w as int]);
            },
            None => {
                assert forall|j: int| 0 <= j < sub.len() implies !is_digit(#[trigger] sub[j]) by {
                    assert(sub[j] == v@[lo + j]);
                }
            },
        }
    }
    digit.is_some()
}

/// Whether `v[lo..hi]` is an optional sign followed by one or more digits.
pub(crate) fn integer_at(v: &Vec<char>, lo: usize, hi: usize) -> (r: bool)
    requires
        lo <= hi <= v@.len(),
    ensures
        r == (integer_value(v@.subrange(lo as int, hi as int)) is Some),
{
    let ghost sub = v@.subrange(lo as int, hi as int);
    let start = if lo < hi && (v[lo] == '+' || v[lo] == '-') {
        lo + 1
    } else {
        lo
    };
    proof {
        assert(unsigned_part(sub) =~= v@.subrange(start as int, hi as int));
    }
    if start >= hi {
        return false;
    }
    let mut i: usize = start;
    while i < hi
        invariant
            start <= i <= hi <= v@.len(),
            sub == v@.subrange(lo as int, hi as int),
            unsigned_part(sub) == v@.subrange(start as int, hi as int),
            forall|k: int| start <= k < i ==> is_digit(#[trigger] v@[k]),
        decreases hi - i,
    {
        let c = v[i];
        if !('0' <= c && c <= '9') {
            proof {
                assert(unsigned_part(sub)[i - start] == c);
            }
            return false;
        }
        i = i + 1;
    }
    proof {
        let body = unsigned_part(sub);
        assert forall|j: int| 0 <= j < body.len() implies is_digit(#[trigger] body[j]) by {
            assert(body[j] == v@[start + j]);
        }
    }
    true
}

/// The first exponent mark in `v[lo..hi]`, if any.
pub(crate) fn exponent_mark_at(v: &Vec<char>, lo: usize, hi: usize) -> (r: Option<usize>)
    requires
        lo <= hi <= v@.len(),
    ensures
        match r {
            None => forall|k: int| lo <= k < hi ==> !is_exponent_mark(#[trigger] v@[k]),
            Some(k) => lo <= k < hi && is_exponent_mark(v@[k as int]) && forall|j: int|
                lo <= j < k ==> !is_exponent_mark(#[trigger] v@[j]),
        },
{
    let mut i: usize = lo;
    while i < hi
        invariant
            lo <= i <= hi <= v@.len(),
            forall|k: int| lo <= k < i ==> !is_exponent_mark(#[trigger] v@[k]),
        decreases hi - i,
    {
        if v[i] == 'e' || v[i] == 'E' {
            return Some(i);
        }
        i = i + 1;
    }
    None
}

/// Whether `v[lo..hi]` is a decimal number with an optional exponent.
fn decimal_at(v: &Vec<char>, lo: usize, hi: usize) -> (r: bool)
    requires
        lo <= hi <= v@.len(),
    ensures
        r == is_decimal(v@.subrange(lo as int, hi as int)),
{
    let ghost sub = v@.subrange(lo as int, hi as int);
    match exponent_mark_at(v, lo, hi) {
        None => {
            let r = mantissa_at(v, lo, hi);
            proof {
                assert forall|j: int| 0 <= j < sub.len() implies !is_exponent_mark(#[trigger] sub[j]) by {
                    assert(sub[j] == v@[lo + j]);
                }
            }
            r
        },
        Some(k) => {
            let m = mantissa_at(v, lo, k);
            let e = integer_at(v, k + 1, hi);
            proof {
                let kk = k - lo;
                assert(sub[kk] == v@[k as int]);
                assert(sub.take(kk) =~= v@.subrange(lo as int, k as int));
                assert(sub.skip(kk + 1) =~= v@.subrange(k + 1, hi as int));
                if exists|k2: int|
                    0 <= k2 < sub.len() && is_exponent_mark(#[trigger] sub[k2]) && is_mantissa(sub.take(k2))
                        && integer_value(sub.skip(k2 + 1)) is Some {
                    let k2 = choose|k2: int|
                        0 <= k2 < sub.len() && is_exponent_mark(#[trigger] sub[k2]) && is_mantissa(sub.take(k2))
                            && integer_value(sub.skip(k2 + 1)) is Some;
                    if k2 > kk {
                        assert(sub.take(k2)[kk] == sub[kk]);
                    } else if k2 < kk {
                        assert(sub[k2] == v@[lo + k2]);
                    }
                }
            }
            m && e
        },
    }
}

/// Tells whether `input` reads as a floating-point number: an optional
/// sign, then `inf`, `infinity` or `nan` in any case, or digits with at
/// most one decimal point (at least one digit) and an optional exponent
/// (`e` or `E`, an optional sign, one or more digits). No surrounding
/// spaces are allowed.
pub fn validate_f64(input: &str) -> (r: bool)
    ensures
        r == is_float_text(input@),
{
    let v = chars_of(input);
    let n = v.len();
    let lo: usize = if n > 0 && (v[0] == '+' || v[0] == '-') {
        1
    } else {
        0
    };
    proof {
        assert(unsigned_part(input@) =~= v@.subrange(lo as int, n as int));
    }
    let inf_lower = vec!['i', 'n', 'f'];
    let inf_upper = vec!['I', 'N', 'F'];
    let infinity_lower = vec!['i', 'n', 'f', 'i', 'n', 'i', 't', 'y'];
    let infinity_upper = vec!['I', 'N', 'F', 'I', 'N', 'I', 'T', 'Y'];
    let nan_lower = vec!['n', 'a', 'n'];
    let nan_upper = vec!['N', 'A', 'N'];
    proof {
        assert(inf_lower@ =~= seq!['i', 'n', 'f']);
        assert(infinity_lower@ =~= seq!['i', 'n', 'f', 'i', 'n', 'i', 't', 'y']);
        assert(nan_lower@ =~= seq!['n', 'a', 'n']);
    }
    word_at(&v, lo, n, &inf_lower, &inf_upper) || word_at(&v, lo, n, &infinity_lower, &infinity_upper)
        || word_at(&v, lo, n, &nan_lower, &nan_upper) || decimal_at(&v, lo, n)
}

/// `s` holds a decimal point.
pub open spec fn has_point(s: Seq<char>) -> bool
    decreases s.len(),
{
    s.len() > 0 && (s.last() == '.' || has_point(s.drop_last()))
}

/// The number of digits after the decimal point (zero without one).
pub open spec fn fraction_len(s: Seq<char>) -> nat
    decreases s.len(),
{
    if s.len() == 0 || s.last() == '.' {
        0
    } else if has_point(s.drop_last()) {
        fraction_len(s.drop_last()) + 1
    } else {
        0
    }
}

/// The value of the digits of `s`, read as one integer with the decimal
/// point left out.
pub open spec fn digits_without_point(s: Seq<char>) -> int
    decreases s.len(),
{
    if s.len() == 0 {
        0
    } else if s.last() == '.' {
        digits_without_point(s.drop_last())
    } else {
        digits_without_point(s.drop_last()) * 10 + (s.last() as int - '0' as int)
    }
}

/// Ten to the power `n`.
pub open spec fn pow10(n: nat) -> int
    decreases n,
{
    if n == 0 {
        1
    } else {
        10 * pow10((n - 1) as nat)
    }
}

/// The ASCII digit for `d`, which is below ten.
pub open spec fn digit_char(d: int) -> char {
    seq!['0', '1', '2', '3', '4', '5', '6', '7', '8', '9'][d]
}

/// The decimal digits of `n`, without leading zeros (`"0"` for zero).
pub open spec fn digits_text(n: nat) -> Seq<char>
    decreases n,
{
    if n < 10 {
        seq![digit_char(n as int)]
    } else {
        digits_text(n / 10).push(digit_char((n % 10) as int))
    }
}

/// The decimal text of an integer: `-` for a negative one, then its
/// digits without leading zeros.
pub open spec fn integer_text(n: int) -> Seq<char> {
    if n < 0 {
        seq!['-'] + digits_text((-n) as nat)
    } else {
        digits_text(n as nat)
    }
}

/// The last `width` decimal digits of `n`, with leading zeros.
pub open spec fn padded_digits(n: nat, width: nat) -> Seq<char>
    decreases width,
{
    if width == 0 {
        Seq::empty()
    } else {
        padded_digits(n / 10, (width - 1) as nat).push(digit_char((n % 10) as int))
    }
}

/// `s` without its trailing zeros.
pub open spec fn strip_zeros(s: Seq<char>) -> Seq<char>
    decreases s.len(),
{
    if s.len() > 0 && s.last() == '0' {
        strip_zeros(s.drop_last())
    } else {
        s
    }
}

/// The text of an amount in millionths: `-` for a negative amount, the
/// whole part, then, where there is a fraction, a point and the six
/// digits of the fraction without their trailing zeros (`19_990_000` is
/// `"19.99"`, `-500_000` is `"-0.5"`, `3_000_000` is `"3"`).
pub open spec fn amount_text(x: int) -> Seq<char> {
    let a = abs(x);
    let sign = if x < 0 {
        seq!['-']
    } else {
        Seq::<char>::empty()
    };
    let whole = digits_text((a / 1_000_000) as nat);
    let fraction = a % 1_000_000;
    if fraction == 0 {
        sign + whole
    } else {
        sign + whole + seq!['.'] + strip_zeros(padded_digits(fraction as nat, 6))
    }
}

/// The one-character text of a digit.
fn digit_str(d: u64) -> (r: &'static str)
    requires
        d < 10,
    ensures
        r@ == seq![digit_char(d as int)],
{
    proof {
        reveal_strlit("0");
        reveal_strlit("1");
        reveal_strlit("2");
        reveal_strlit("3");
        reveal_strlit("4");
        reveal_strlit("5");
        reveal_strlit("6");
        reveal_strlit("7");
        reveal_strlit("8");
        reveal_strlit("9");
    }
    let r = match d {
        0 => "0",
        1 => "1",
        2 => "2",
        3 => "3",
        4 => "4",
        5 => "5",
        6 => "6",
        7 => "7",
        8 => "8",
        _ => "9",
    };
    assert(r@ =~= seq![digit_char(d as int)]);
    r
}

/// Appends the decimal digits of `n` to `out`.
fn push_digits(out: &mut String, n: u64)
    ensures
        final(out)@ == old(out)@ + digits_text(n as nat),
    decreases n,
{
    if n >= 10 {
        push_digits(out, n / 10);
    }
    out.append(digit_str(n % 10));
    proof {
        assert(old(out)@ + digits_text(n as nat) =~= if n >= 10 {
            old(out)@ + digits_text((n / 10) as nat) + seq![digit_char((n % 10) as int)]
        } else {
            old(out)@ + seq![digit_char((n % 10) as int)]
        });
    }
}

/// Appends the decimal text of `n` to `out`.
pub fn push_integer(out: &mut String, n: i64)
    ensures
        final(out)@ == old(out)@ + integer_text(n as int),
{
    if n < 0 {
        proof {
            reveal_strlit("-");
        }
        out.append("-");
        push_digits(out, (-(n as i128)) as u64);
        proof {
            assert(final(out)@ =~= old(out)@ + integer_text(n as int));
        }
    } else {
        push_digits(out, n as u64);
    }
}

/// Appends the last `width` digits of `n`, with leading zeros, to `out`.
fn push_padded(out: &mut String, n: u64, width: usize)
    ensures
        final(out)@ == old(out)@ + padded_digits(n as nat, width as nat),
    decreases width,
{
    if width > 0 {
        push_padded(out, n / 10, width - 1);
        out.append(digit_str(n % 10));
        proof {
            assert(old(out)@ + padded_digits(n as nat, width as nat) =~= old(out)@ + padded_digits(
                (n / 10) as nat,
                (width - 1) as nat,
            ) + seq![digit_char((n % 10) as int)]);
        }
    } else {
        proof {
            assert(old(out)@ + padded_digits(n as nat, 0) =~= old(out)@);
        }
    }
}

/// The text of an amount in millionths: see `amount_text`.
pub fn amount_to_text(x: i64) -> (r: String)
    ensures
        r@ == amount_text(x as int),
{
    let a: u64 = if x < 0 {
        (-(x as i128)) as u64
    } else {
        x as u64
    };
    let mut out = String::new();
    if x < 0 {
        out.append("-");
        proof {
            reveal_strlit("-");
        }
    }
    push_digits(&mut out, a / 1_000_000);
    let mut fraction = a % 1_000_000;
    if fraction != 0 {
        let ghost first = fraction;
        let mut width: usize = 6;
        while width > 0 && fraction % 10 == 0
            invariant
                width <= 6,
                strip_zeros(padded_digits(first as nat, 6)) == strip_zeros(padded_digits(fraction as nat, width as nat)),
            decreases width,
        {
            proof {
                assert(padded_digits(fraction as nat, width as nat).drop_last() == padded_digits(
                    (fraction / 10) as nat,
                    (width - 1) as nat,
                ));
            }
            fraction = fraction / 10;
            width = width - 1;
        }
        proof {
            reveal_strlit(".");
        }
        out.append(".");
        push_padded(&mut out, fraction, width);
    }
    proof {
        let sign = if x < 0 {
            seq!['-']
        } else {
            Seq::<char>::empty()
        };
        assert(out@ =~= amount_text(x as int));
    }
    out
}

} // verus!
